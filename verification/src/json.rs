//! JSON values as plain data, and the bridge to `serde_json`.
//!
//! [`Json`] is the tree the rest of the library reads and builds. Parsing and
//! printing are `serde_json`'s; the conversion between its `Value` and [`Json`]
//! is verified, one level of the tree at a time.

use vstd::prelude::*;
use vstd::utf8::encode_utf8;

use crate::strs::{str_eq, texts};

verus! {

/// What a JSON number holds: an integer that fits `u64`, a negative integer
/// that fits `i64`, or a float, known by the digits it prints as.
pub enum NumberSpec {
    Pos(u64),
    Neg(i64),
    Float(Seq<char>),
}

/// What a JSON value holds. An object keeps its entries in insertion order.
pub enum JsonSpec {
    Null,
    Bool(bool),
    Number(NumberSpec),
    Str(Seq<char>),
    Array(Seq<JsonSpec>),
    Object(Seq<(Seq<char>, JsonSpec)>),
}

/// The entries of an object, in order.
pub type ObjectSpec = Seq<(Seq<char>, JsonSpec)>;

/// The position of the first entry under `key`; the number of entries if there
/// is none.
pub open spec fn key_index(m: ObjectSpec, key: Seq<char>) -> int
    decreases m.len(),
{
    if m.len() == 0 {
        0
    } else if m[0].0 == key {
        0
    } else {
        1 + key_index(m.drop_first(), key)
    }
}

/// The value stored under `key`.
pub open spec fn lookup(m: ObjectSpec, key: Seq<char>) -> Option<JsonSpec> {
    let i = key_index(m, key);
    if i < m.len() {
        Some(m[i].1)
    } else {
        None
    }
}

/// The entries after storing `value` under `key`: an existing entry keeps its
/// place, a new one goes last.
pub open spec fn stored(m: ObjectSpec, key: Seq<char>, value: JsonSpec) -> ObjectSpec {
    let i = key_index(m, key);
    if i < m.len() {
        m.update(i, (key, value))
    } else {
        m.push((key, value))
    }
}

/// No two entries share a key.
pub open spec fn unique_keys(m: ObjectSpec) -> bool {
    forall|i: int, j: int| 0 <= i < j < m.len() ==> m[i].0 != m[j].0
}

impl JsonSpec {
    /// The member of an object under `key`; `None` on anything else.
    pub open spec fn get(self, key: Seq<char>) -> Option<JsonSpec> {
        match self {
            JsonSpec::Object(m) => lookup(m, key),
            _ => None,
        }
    }

    pub open spec fn as_str(self) -> Option<Seq<char>> {
        match self {
            JsonSpec::Str(s) => Some(s),
            _ => None,
        }
    }

    pub open spec fn as_bool(self) -> Option<bool> {
        match self {
            JsonSpec::Bool(b) => Some(b),
            _ => None,
        }
    }

    /// The number as an unsigned integer, where it is one.
    pub open spec fn as_u64(self) -> Option<u64> {
        match self {
            JsonSpec::Number(NumberSpec::Pos(n)) => Some(n),
            _ => None,
        }
    }

    /// The number as a signed integer, where it is one that fits.
    pub open spec fn as_i64(self) -> Option<i64> {
        match self {
            JsonSpec::Number(NumberSpec::Pos(n)) => if n <= i64::MAX {
                Some(n as i64)
            } else {
                None
            },
            JsonSpec::Number(NumberSpec::Neg(n)) => Some(n),
            _ => None,
        }
    }

    pub open spec fn as_array(self) -> Option<Seq<JsonSpec>> {
        match self {
            JsonSpec::Array(a) => Some(a),
            _ => None,
        }
    }

    pub open spec fn as_object(self) -> Option<ObjectSpec> {
        match self {
            JsonSpec::Object(m) => Some(m),
            _ => None,
        }
    }

    /// The text member under `key`.
    pub open spec fn get_str(self, key: Seq<char>) -> Option<Seq<char>> {
        match self.get(key) {
            Some(v) => v.as_str(),
            None => None,
        }
    }

    /// The text member under `key`, or the empty text.
    pub open spec fn str_or_empty(self, key: Seq<char>) -> Seq<char> {
        match self.get_str(key) {
            Some(s) => s,
            None => Seq::empty(),
        }
    }

    pub open spec fn get_bool(self, key: Seq<char>) -> Option<bool> {
        match self.get(key) {
            Some(v) => v.as_bool(),
            None => None,
        }
    }

    pub open spec fn get_u64(self, key: Seq<char>) -> Option<u64> {
        match self.get(key) {
            Some(v) => v.as_u64(),
            None => None,
        }
    }

    pub open spec fn get_array(self, key: Seq<char>) -> Option<Seq<JsonSpec>> {
        match self.get(key) {
            Some(v) => v.as_array(),
            None => None,
        }
    }

    /// The object with `value` stored under `key`.
    pub open spec fn with(self, key: Seq<char>, value: JsonSpec) -> JsonSpec {
        match self {
            JsonSpec::Object(m) => JsonSpec::Object(stored(m, key, value)),
            _ => self,
        }
    }
}

/// The object without entries.
pub open spec fn empty_object() -> JsonSpec {
    JsonSpec::Object(Seq::empty())
}

/// The number `n`.
pub open spec fn uint(n: u64) -> JsonSpec {
    JsonSpec::Number(NumberSpec::Pos(n))
}

/// `serde_json::Number`, carried through unread; see [`number_model`].
#[verifier::external_type_specification]
#[verifier::external_body]
pub struct ExNumber(serde_json::Number);

/// `serde_json::Value`, carried through unread; see [`value_model`].
#[verifier::external_type_specification]
#[verifier::external_body]
pub struct ExValue(serde_json::Value);

/// `serde_json::Error`, carried through unread.
#[verifier::external_type_specification]
#[verifier::external_body]
pub struct ExError(serde_json::Error);

/// What a `serde_json::Number` holds.
pub uninterp spec fn number_model(n: serde_json::Number) -> NumberSpec;

/// What a `serde_json::Value` holds.
pub uninterp spec fn value_model(v: serde_json::Value) -> JsonSpec;

/// A JSON value.
pub enum Json {
    Null,
    Bool(bool),
    Number(serde_json::Number),
    Str(String),
    Array(Vec<Json>),
    Object(Object),
}

/// The entries of a JSON object, in insertion order, each key once.
pub struct Object {
    entries: Vec<(String, Json)>,
}

impl Json {
    /// What the value holds.
    pub open spec fn view(&self) -> JsonSpec
        decreases self,
    {
        match self {
            Json::Null => JsonSpec::Null,
            Json::Bool(b) => JsonSpec::Bool(*b),
            Json::Number(n) => JsonSpec::Number(number_model(*n)),
            Json::Str(s) => JsonSpec::Str(s@),
            Json::Array(v) => JsonSpec::Array(
                Seq::new(
                    v@.len(),
                    |i: int|
                        if 0 <= i < v@.len() {
                            v@[i].view()
                        } else {
                            JsonSpec::Null
                        },
                ),
            ),
            Json::Object(o) => JsonSpec::Object(o.view()),
        }
    }
}

impl Object {
    /// The entries, in order.
    pub closed spec fn view(&self) -> ObjectSpec
        decreases self,
    {
        Seq::new(
            self.entries@.len(),
            |i: int|
                if 0 <= i < self.entries@.len() {
                    (self.entries@[i].0@, self.entries@[i].1.view())
                } else {
                    (Seq::empty(), JsonSpec::Null)
                },
        )
    }

    #[verifier::type_invariant]
    spec fn inv(self) -> bool {
        forall|i: int, j: int|
            0 <= i < j < self.entries@.len() ==> self.entries@[i].0@ != self.entries@[j].0@
    }
}

/// `serde_json::Number::from(u64)`: the number is that integer.
#[verifier::external_body]
fn number_from_u64(n: u64) -> (r: serde_json::Number)
    ensures
        number_model(r) == NumberSpec::Pos(n),
{
    serde_json::Number::from(n)
}

/// `serde_json::Number::from(i64)`: a negative integer is kept as a signed
/// number, any other as an unsigned one.
#[verifier::external_body]
fn number_from_i64(n: i64) -> (r: serde_json::Number)
    ensures
        n < 0 ==> number_model(r) == NumberSpec::Neg(n),
        n >= 0 ==> number_model(r) == NumberSpec::Pos(n as u64),
{
    serde_json::Number::from(n)
}

/// `serde_json::Number::as_u64`: the integer of an unsigned number, nothing
/// for a negative integer or a float.
#[verifier::external_body]
fn number_as_u64(n: &serde_json::Number) -> (r: Option<u64>)
    ensures
        r == JsonSpec::Number(number_model(*n)).as_u64(),
{
    n.as_u64()
}

/// `serde_json::Number::as_i64`: the integer of a number that fits `i64`,
/// nothing for a larger integer or a float.
#[verifier::external_body]
fn number_as_i64(n: &serde_json::Number) -> (r: Option<i64>)
    ensures
        r == JsonSpec::Number(number_model(*n)).as_i64(),
{
    n.as_i64()
}

/// `serde_json::Number::clone`: a copy holds the same number.
#[verifier::external_body]
fn number_clone(n: &serde_json::Number) -> (r: serde_json::Number)
    ensures
        number_model(r) == number_model(*n),
{
    n.clone()
}

/// Whether a float is zero, with either sign.
pub open spec fn is_zero_float(digits: Seq<char>) -> bool {
    digits == "0.0"@ || digits == "-0.0"@
}

/// Whether two numbers are equal: of one kind, and the same. The two zeros among
/// the floats are equal.
pub open spec fn same_number(a: NumberSpec, b: NumberSpec) -> bool {
    match (a, b) {
        (NumberSpec::Pos(x), NumberSpec::Pos(y)) => x == y,
        (NumberSpec::Neg(x), NumberSpec::Neg(y)) => x == y,
        (NumberSpec::Float(x), NumberSpec::Float(y)) => x == y || (is_zero_float(x)
            && is_zero_float(y)),
        _ => false,
    }
}

/// `serde_json::Number` compared with `==`: numbers of one kind are compared by
/// value, others differ. Floats print differently if they differ, but for the two
/// zeros.
#[verifier::external_body]
fn number_equal(a: &serde_json::Number, b: &serde_json::Number) -> (r: bool)
    ensures
        r == same_number(number_model(*a), number_model(*b)),
{
    a == b
}

/// One level of a `serde_json::Value`: its variant, with what stands below it
/// still unread.
enum ValueParts {
    Null,
    Bool(bool),
    Number(serde_json::Number),
    Str(String),
    Array(Vec<serde_json::Value>),
    Object(Vec<(String, serde_json::Value)>),
}

/// What a value with these parts holds.
spec fn parts_model(p: ValueParts) -> JsonSpec {
    match p {
        ValueParts::Null => JsonSpec::Null,
        ValueParts::Bool(b) => JsonSpec::Bool(b),
        ValueParts::Number(n) => JsonSpec::Number(number_model(n)),
        ValueParts::Str(s) => JsonSpec::Str(s@),
        ValueParts::Array(a) => JsonSpec::Array(Seq::new(a@.len(), |i: int| value_model(a@[i]))),
        ValueParts::Object(o) => JsonSpec::Object(
            Seq::new(o@.len(), |i: int| (o@[i].0@, value_model(o@[i].1))),
        ),
    }
}

/// No two entries of an object's parts share a key.
spec fn parts_unique(p: ValueParts) -> bool {
    match p {
        ValueParts::Object(o) => forall|i: int, j: int|
            0 <= i < j < o@.len() ==> o@[i].0@ != o@[j].0@,
        _ => true,
    }
}

/// The variants of `serde_json::Value`, told apart: each is taken to its part.
/// An object's map hands its entries out in order, and holds each key once.
#[verifier::external_body]
fn split_value(v: serde_json::Value) -> (r: ValueParts)
    ensures
        parts_model(r) == value_model(v),
        parts_unique(r),
{
    match v {
        serde_json::Value::Null => ValueParts::Null,
        serde_json::Value::Bool(b) => ValueParts::Bool(b),
        serde_json::Value::Number(n) => ValueParts::Number(n),
        serde_json::Value::String(s) => ValueParts::Str(s),
        serde_json::Value::Array(a) => ValueParts::Array(a),
        serde_json::Value::Object(o) => ValueParts::Object(o.into_iter().collect()),
    }
}

/// The variants of `serde_json::Value`, put together again. Entries with
/// different keys go into an object's map in order and none replaces another.
#[verifier::external_body]
fn join_value(p: ValueParts) -> (r: serde_json::Value)
    requires
        parts_unique(p),
    ensures
        value_model(r) == parts_model(p),
{
    match p {
        ValueParts::Null => serde_json::Value::Null,
        ValueParts::Bool(b) => serde_json::Value::Bool(b),
        ValueParts::Number(n) => serde_json::Value::Number(n),
        ValueParts::Str(s) => serde_json::Value::String(s),
        ValueParts::Array(a) => serde_json::Value::Array(a),
        ValueParts::Object(o) => serde_json::Value::Object(o.into_iter().collect()),
    }
}

/// What a `serde_json::Error` displays.
pub uninterp spec fn error_words(e: serde_json::Error) -> Seq<char>;

/// What `serde_json::from_slice` reads from these bytes: the value, or what its
/// error displays where they are not one JSON document.
pub uninterp spec fn json_read(bytes: Seq<u8>) -> Result<JsonSpec, Seq<char>>;

/// The value that these bytes are, if they are one JSON document.
pub open spec fn json_parse(bytes: Seq<u8>) -> Option<JsonSpec> {
    match json_read(bytes) {
        Ok(j) => Some(j),
        Err(_) => None,
    }
}

/// What a `serde_json::StreamDeserializer` reads first from these bytes: the value
/// that they start with, and where it ends; `None` where they start with none.
pub uninterp spec fn json_prefix(bytes: Seq<u8>) -> Option<(JsonSpec, nat)>;

/// What `serde::de::Unexpected::Str` displays: the word `string` and the text in
/// quotation marks, escaped.
pub uninterp spec fn unexpected_string(s: Seq<char>) -> Seq<char>;

/// What `serde_json::Value::to_string` prints: the value on one line.
pub uninterp spec fn json_text(j: JsonSpec) -> Seq<char>;

/// What `serde_json::to_string_pretty` prints: the value, indented.
pub uninterp spec fn json_pretty(j: JsonSpec) -> Seq<char>;

/// `serde_json::from_slice`: reads one JSON document.
#[verifier::external_body]
fn value_from_slice(bytes: &[u8]) -> (r: Result<serde_json::Value, serde_json::Error>)
    ensures
        r matches Ok(v) ==> json_read(bytes@) is Ok && json_read(bytes@)->Ok_0 == value_model(v),
        r matches Err(e) ==> json_read(bytes@) is Err && json_read(bytes@)->Err_0 == error_words(e),
{
    serde_json::from_slice(bytes)
}

/// `serde_json::Error::to_string`: what the error displays.
#[verifier::external_body]
fn error_text(e: &serde_json::Error) -> (r: String)
    ensures
        r@ == error_words(*e),
{
    e.to_string()
}

/// `serde_json::StreamDeserializer`, over bytes: its first `next`, and its
/// `byte_offset` after that, which is the end of the value and so lies behind the
/// first byte and not behind the last.
#[verifier::external_body]
fn value_prefix(bytes: &[u8]) -> (r: Option<(serde_json::Value, usize)>)
    ensures
        r matches Some(p) ==> json_prefix(bytes@) == Some((value_model(p.0), p.1 as nat)),
        r matches Some(p) ==> 1 <= p.1 && p.1 <= bytes@.len(),
        r is None ==> json_prefix(bytes@) is None,
{
    let mut values = serde_json::Deserializer::from_slice(bytes).into_iter::<serde_json::Value>();
    match values.next() {
        Some(Ok(v)) => Some((v, values.byte_offset())),
        _ => None,
    }
}

/// `serde::de::Unexpected::Str` displayed.
#[verifier::external_body]
fn unexpected_str(s: &str) -> (r: String)
    ensures
        r@ == unexpected_string(s@),
{
    serde::de::Unexpected::Str(s).to_string()
}

/// `serde_json::Value::to_string`: prints the value on one line. Control
/// characters are escaped, so the text holds no line break. Where every number
/// is an integer, nothing is nested more than 127 deep and no object's first
/// key is the crate's private marker, reading the text gives the value back.
/// Of floats nothing is said: a printed float may be read back with another
/// last digit.
#[verifier::external_body]
fn value_text(v: &serde_json::Value) -> (r: String)
    ensures
        r@ == json_text(value_model(*v)),
        !r@.contains('\n'),
        !r@.contains('\r'),
        reads_back(value_model(*v), 127) ==> json_parse(encode_utf8(r@)) == Some(value_model(*v)),
{
    v.to_string()
}

/// `serde_json::to_string_pretty`: prints the value over several lines. A
/// `Value` can always be printed.
#[verifier::external_body]
fn value_pretty(v: &serde_json::Value) -> (r: String)
    ensures
        r@ == json_pretty(value_model(*v)),
{
    serde_json::to_string_pretty(v).unwrap_or_default()
}

/// The first entry under a key is where no entry before it has that key.
pub proof fn lemma_key_index(m: ObjectSpec, key: Seq<char>, i: int)
    requires
        0 <= i <= m.len(),
        forall|j: int| 0 <= j < i ==> m[j].0 != key,
        i < m.len() ==> m[i].0 == key,
    ensures
        key_index(m, key) == i,
    decreases m.len(),
{
    if m.len() > 0 && i > 0 {
        lemma_key_index(m.drop_first(), key, i - 1);
    }
}

/// Where [`key_index`] points.
pub proof fn lemma_key_index_bounds(m: ObjectSpec, key: Seq<char>)
    ensures
        0 <= key_index(m, key) <= m.len(),
        key_index(m, key) < m.len() ==> m[key_index(m, key)].0 == key,
        forall|j: int| 0 <= j < key_index(m, key) ==> m[j].0 != key,
    decreases m.len(),
{
    if m.len() > 0 && m[0].0 != key {
        lemma_key_index_bounds(m.drop_first(), key);
        let i = key_index(m.drop_first(), key);
        assert(i < m.drop_first().len() ==> m.drop_first()[i] == m[i + 1]);
        assert forall|j: int| 0 <= j < i + 1 implies m[j].0 != key by {
            if j > 0 {
                assert(m.drop_first()[j - 1] == m[j]);
            }
        }
    }
}

/// A stored value is what a lookup under its key finds.
pub proof fn law_stored_is_found(m: ObjectSpec, key: Seq<char>, value: JsonSpec)
    ensures
        lookup(stored(m, key, value), key) == Some(value),
{
    lemma_key_index_bounds(m, key);
    lemma_key_index(stored(m, key, value), key, key_index(m, key));
}

/// Storing under one key leaves what is under every other key alone.
pub proof fn law_stored_keeps_others(
    m: ObjectSpec,
    key: Seq<char>,
    value: JsonSpec,
    other: Seq<char>,
)
    requires
        other != key,
    ensures
        lookup(stored(m, key, value), other) == lookup(m, other),
{
    lemma_key_index_bounds(m, key);
    lemma_key_index_bounds(m, other);
    let i = key_index(m, other);
    let after = stored(m, key, value);
    if i < m.len() {
        lemma_key_index(after, other, i);
    } else {
        lemma_key_index(after, other, after.len() as int);
    }
}

/// Whether a value has this text under the key.
pub open spec fn has_text(j: JsonSpec, key: Seq<char>, text: Seq<char>) -> bool {
    j.get(key) == Some(JsonSpec::Str(text))
}

/// Whether this text is read under the key: the text there, or none where no text is.
pub open spec fn reads_text(j: JsonSpec, key: Seq<char>, text: Seq<char>) -> bool {
    ||| has_text(j, key, text)
    ||| !(j.get(key) matches Some(JsonSpec::Str(_))) && text == Seq::<char>::empty()
}

/// A member that was stored is found under its key, and no other member changes.
/// What is no object has no members before or after.
pub broadcast proof fn law_member_of_with(
    j: JsonSpec,
    key: Seq<char>,
    value: JsonSpec,
    asked: Seq<char>,
)
    ensures
        #[trigger] j.with(key, value).get(asked) == (if j is Object && asked == key {
            Some(value)
        } else {
            j.get(asked)
        }),
{
    if let JsonSpec::Object(m) = j {
        if asked == key {
            law_stored_is_found(m, key, value);
        } else {
            law_stored_keeps_others(m, key, value, asked);
        }
    }
}

/// The empty object has no members.
pub broadcast proof fn law_empty_has_no_members(asked: Seq<char>)
    ensures
        #[trigger] empty_object().get(asked) is None,
{
}

impl Object {
    /// The object without entries.
    pub fn new() -> (r: Object)
        ensures
            r@ == Seq::<(Seq<char>, JsonSpec)>::empty(),
    {
        let r = Object { entries: Vec::new() };
        proof {
            assert(r@ =~= Seq::<(Seq<char>, JsonSpec)>::empty());
        }
        r
    }

    /// The number of entries. No two of them share a key.
    pub fn len(&self) -> (r: usize)
        ensures
            r == self@.len(),
            unique_keys(self@),
    {
        proof {
            use_type_invariant(self);
        }
        self.entries.len()
    }

    /// The key of the entry at `i`.
    pub fn key_at(&self, i: usize) -> (r: &String)
        requires
            i < self@.len(),
        ensures
            r@ == self@[i as int].0,
    {
        &self.entries[i].0
    }

    /// The value of the entry at `i`.
    pub fn value_at(&self, i: usize) -> (r: &Json)
        requires
            i < self@.len(),
        ensures
            r@ == self@[i as int].1,
            decreases_to!(self => r),
    {
        &self.entries[i].1
    }

    /// The position of the entry under `key`, or the number of entries.
    fn position(&self, key: &str) -> (r: usize)
        ensures
            r == key_index(self@, key@),
            r <= self@.len(),
    {
        let mut i: usize = 0;
        while i < self.entries.len()
            invariant
                i <= self.entries@.len(),
                forall|j: int| 0 <= j < i ==> self@[j].0 != key@,
            decreases self.entries@.len() - i,
        {
            if str_eq(self.entries[i].0.as_str(), key) {
                proof {
                    lemma_key_index(self@, key@, i as int);
                }
                return i;
            }
            i += 1;
        }
        proof {
            lemma_key_index(self@, key@, i as int);
        }
        i
    }

    /// The value stored under `key`.
    pub fn get(&self, key: &str) -> (r: Option<&Json>)
        ensures
            opt_json(r) == lookup(self@, key@),
            r matches Some(v) ==> decreases_to!(self => v),
    {
        let i = self.position(key);
        if i < self.entries.len() {
            Some(&self.entries[i].1)
        } else {
            None
        }
    }

    /// Stores `value` under `key`.
    pub fn insert(&mut self, key: &str, value: Json)
        ensures
            final(self)@ == stored(old(self)@, key@, value@),
    {
        proof {
            use_type_invariant(&*self);
            lemma_key_index_bounds(self@, key@);
        }
        let i = self.position(key);
        let mut entries: Vec<(String, Json)> = Vec::new();
        std::mem::swap(&mut entries, &mut self.entries);
        let ghost before = entries@;
        let k = key.to_owned();
        if i < entries.len() {
            entries.set(i, (k, value));
        } else {
            entries.push((k, value));
        }
        proof {
            assert forall|a: int, b: int| 0 <= a < b < entries@.len() implies entries@[a].0@
                != entries@[b].0@ by {
                if i >= before.len() {
                    if b == before.len() {
                        assert(old(self)@[a].0 != key@);
                    }
                } else {
                    assert(before[i as int].0@ == old(self)@[i as int].0);
                }
            }
        }
        self.entries = entries;
        proof {
            assert(self@ =~= stored(old(self)@, key@, value@));
        }
    }
}

/// What an optional value holds.
pub open spec fn opt_json(o: Option<&Json>) -> Option<JsonSpec> {
    match o {
        Some(j) => Some(j@),
        None => None,
    }
}

/// What an optional text holds.
pub open spec fn opt_text(o: Option<&str>) -> Option<Seq<char>> {
    match o {
        Some(s) => Some(s@),
        None => None,
    }
}

/// What the values of a list hold.
pub open spec fn jsons(v: Seq<Json>) -> Seq<JsonSpec> {
    Seq::new(v.len(), |i: int| v[i]@)
}

impl Json {
    /// The text `s`.
    pub fn text(s: &str) -> (r: Json)
        ensures
            r@ == JsonSpec::Str(s@),
    {
        Json::Str(s.to_owned())
    }

    /// The number `n`.
    pub fn uint(n: u64) -> (r: Json)
        ensures
            r@ == uint(n),
    {
        Json::Number(number_from_u64(n))
    }

    /// The number `n`.
    pub fn signed(n: i64) -> (r: Json)
        ensures
            n < 0 ==> r@ == JsonSpec::Number(NumberSpec::Neg(n)),
            n >= 0 ==> r@ == uint(n as u64),
    {
        Json::Number(number_from_i64(n))
    }

    /// The list of these values.
    pub fn array(items: Vec<Json>) -> (r: Json)
        ensures
            r@ == JsonSpec::Array(jsons(items@)),
    {
        let r = Json::Array(items);
        proof {
            assert(r@->Array_0 =~= jsons(items@));
        }
        r
    }

    /// The object without entries.
    pub fn object() -> (r: Json)
        ensures
            r@ == empty_object(),
    {
        Json::Object(Object::new())
    }

    /// This object with `value` stored under `key`; anything else is left as it
    /// is.
    pub fn with(self, key: &str, value: Json) -> (r: Json)
        ensures
            r@ == self@.with(key@, value@),
    {
        match self {
            Json::Object(o) => {
                let mut o = o;
                o.insert(key, value);
                Json::Object(o)
            },
            other => other,
        }
    }

    pub fn is_null(&self) -> (r: bool)
        ensures
            r == (self@ is Null),
    {
        matches!(self, Json::Null)
    }

    /// The member under `key`.
    pub fn get(&self, key: &str) -> (r: Option<&Json>)
        ensures
            opt_json(r) == self@.get(key@),
            r matches Some(v) ==> decreases_to!(self => v),
    {
        match self {
            Json::Object(o) => o.get(key),
            _ => None,
        }
    }

    pub fn as_str(&self) -> (r: Option<&str>)
        ensures
            opt_text(r) == self@.as_str(),
    {
        match self {
            Json::Str(s) => Some(s.as_str()),
            _ => None,
        }
    }

    pub fn as_bool(&self) -> (r: Option<bool>)
        ensures
            r == self@.as_bool(),
    {
        match self {
            Json::Bool(b) => Some(*b),
            _ => None,
        }
    }

    pub fn as_u64(&self) -> (r: Option<u64>)
        ensures
            r == self@.as_u64(),
    {
        match self {
            Json::Number(n) => number_as_u64(n),
            _ => None,
        }
    }

    pub fn as_i64(&self) -> (r: Option<i64>)
        ensures
            r == self@.as_i64(),
    {
        match self {
            Json::Number(n) => number_as_i64(n),
            _ => None,
        }
    }

    pub fn as_array(&self) -> (r: Option<&Vec<Json>>)
        ensures
            r matches Some(v) ==> self@.as_array() == Some(jsons(v@)) && decreases_to!(self => v@),
            r is None ==> self@.as_array() is None,
    {
        match self {
            Json::Array(v) => {
                proof {
                    assert(self@->Array_0 =~= jsons(v@));
                }
                Some(v)
            },
            _ => None,
        }
    }

    pub fn as_object(&self) -> (r: Option<&Object>)
        ensures
            r matches Some(o) ==> self@.as_object() == Some(o@) && decreases_to!(self => o),
            r is None ==> self@.as_object() is None,
    {
        match self {
            Json::Object(o) => Some(o),
            _ => None,
        }
    }

    /// The text member under `key`.
    pub fn get_str(&self, key: &str) -> (r: Option<&str>)
        ensures
            opt_text(r) == self@.get_str(key@),
    {
        match self.get(key) {
            Some(v) => v.as_str(),
            None => None,
        }
    }

    /// The text member under `key`, or the empty text.
    pub fn str_or_empty(&self, key: &str) -> (r: &str)
        ensures
            r@ == self@.str_or_empty(key@),
    {
        match self.get_str(key) {
            Some(s) => s,
            None => {
                proof {
                    reveal_strlit("");
                }
                ""
            },
        }
    }

    pub fn get_bool(&self, key: &str) -> (r: Option<bool>)
        ensures
            r == self@.get_bool(key@),
    {
        match self.get(key) {
            Some(v) => v.as_bool(),
            None => None,
        }
    }

    pub fn get_u64(&self, key: &str) -> (r: Option<u64>)
        ensures
            r == self@.get_u64(key@),
    {
        match self.get(key) {
            Some(v) => v.as_u64(),
            None => None,
        }
    }

    pub fn get_array(&self, key: &str) -> (r: Option<&Vec<Json>>)
        ensures
            r matches Some(v) ==> self@.get_array(key@) == Some(jsons(v@)),
            r is None ==> self@.get_array(key@) is None,
    {
        match self.get(key) {
            Some(v) => v.as_array(),
            None => None,
        }
    }

    /// A copy that holds the same.
    pub fn copy(&self) -> (r: Json)
        ensures
            r@ == self@,
        decreases self,
    {
        match self {
            Json::Null => Json::Null,
            Json::Bool(b) => Json::Bool(*b),
            Json::Number(n) => Json::Number(number_clone(n)),
            Json::Str(s) => Json::Str(s.clone()),
            Json::Array(v) => {
                let mut out: Vec<Json> = Vec::new();
                let mut i: usize = 0;
                while i < v.len()
                    invariant
                        i <= v@.len(),
                        out@.len() == i,
                        *self == Json::Array(*v),
                        forall|j: int| 0 <= j < i ==> (#[trigger] out@[j])@ == v@[j]@,
                    decreases v@.len() - i,
                {
                    let item = &v[i];
                    proof {
                        assert(decreases_to!(self => self->Array_0));
                        assert(decreases_to!(v => v@));
                        assert(decreases_to!(v@ => v@[i as int]));
                    }
                    out.push(item.copy());
                    i += 1;
                }
                let r = Json::Array(out);
                proof {
                    assert(r@->Array_0 =~= self@->Array_0);
                }
                r
            },
            Json::Object(o) => Json::Object(o.copy()),
        }
    }

    /// Reads one JSON document, or says why the bytes are none.
    pub fn read(bytes: &[u8]) -> (r: Result<Json, String>)
        ensures
            r matches Ok(j) ==> json_read(bytes@) == Ok::<JsonSpec, Seq<char>>(j@),
            r matches Err(e) ==> json_read(bytes@) == Err::<JsonSpec, Seq<char>>(e@),
    {
        match value_from_slice(bytes) {
            Ok(v) => Ok(from_value(v)),
            Err(e) => Err(error_text(&e)),
        }
    }

    /// Reads one JSON document.
    pub fn parse(bytes: &[u8]) -> (r: Option<Json>)
        ensures
            r matches Some(j) ==> json_parse(bytes@) == Some(j@),
            r is None ==> json_parse(bytes@) is None,
    {
        match Json::read(bytes) {
            Ok(j) => Some(j),
            Err(_) => None,
        }
    }

    /// Reads the value that the bytes start with. Says where it ends, too.
    pub fn read_prefix(bytes: &[u8]) -> (r: Option<(Json, usize)>)
        ensures
            r matches Some(p) ==> json_prefix(bytes@) == Some((p.0@, p.1 as nat)) && 0 < p.1
                <= bytes@.len(),
            r is None ==> json_prefix(bytes@) is None,
    {
        match value_prefix(bytes) {
            Some(p) => Some((from_value(p.0), p.1)),
            None => None,
        }
    }

    /// Reads one JSON document from a text, or says why the text is none.
    pub fn read_str(s: &str) -> (r: Result<Json, String>)
        ensures
            r matches Ok(j) ==> json_read(encode_utf8(s@)) == Ok::<JsonSpec, Seq<char>>(j@),
            r matches Err(e) ==> json_read(encode_utf8(s@)) == Err::<JsonSpec, Seq<char>>(e@),
    {
        Json::read(s.as_bytes())
    }

    /// Reads one JSON document from a text.
    pub fn parse_str(s: &str) -> (r: Option<Json>)
        ensures
            r matches Some(j) ==> json_parse(encode_utf8(s@)) == Some(j@),
            r is None ==> json_parse(encode_utf8(s@)) is None,
    {
        Json::parse(s.as_bytes())
    }

    /// The value printed on one line.
    pub fn to_text(&self) -> (r: String)
        ensures
            r@ == json_text(self@),
            !r@.contains('\n'),
            !r@.contains('\r'),
            reads_back(self@, 127) ==> json_parse(encode_utf8(r@)) == Some(self@),
    {
        value_text(&to_value(self))
    }

    /// The value printed over several lines.
    pub fn to_pretty(&self) -> (r: String)
        ensures
            r@ == json_pretty(self@),
    {
        value_pretty(&to_value(self))
    }
}

impl Object {
    /// A copy with the same entries.
    pub fn copy(&self) -> (r: Object)
        ensures
            r@ == self@,
        decreases self,
    {
        proof {
            use_type_invariant(self);
        }
        let mut entries: Vec<(String, Json)> = Vec::new();
        let mut i: usize = 0;
        while i < self.entries.len()
            invariant
                i <= self.entries@.len(),
                entries@.len() == i,
                forall|j: int|
                    0 <= j < i ==> (#[trigger] entries@[j]).0@ == self.entries@[j].0@
                        && entries@[j].1@ == self.entries@[j].1@,
            decreases self.entries@.len() - i,
        {
            let k = self.entries[i].0.clone();
            let v = self.entries[i].1.copy();
            entries.push((k, v));
            i += 1;
        }
        let r = Object { entries };
        proof {
            assert(r@ =~= self@);
        }
        r
    }
}

impl Clone for Json {
    fn clone(&self) -> (r: Json)
        ensures
            r@ == self@,
    {
        self.copy()
    }
}

impl Clone for Object {
    fn clone(&self) -> (r: Object)
        ensures
            r@ == self@,
    {
        self.copy()
    }
}

/// The tree of a `serde_json::Value`, as plain data.
fn from_value(v: serde_json::Value) -> (r: Json)
    ensures
        r@ == value_model(v),
    decreases value_model(v),
{
    let ghost model = value_model(v);
    match split_value(v) {
        ValueParts::Null => Json::Null,
        ValueParts::Bool(b) => Json::Bool(b),
        ValueParts::Number(n) => Json::Number(n),
        ValueParts::Str(s) => Json::Str(s),
        ValueParts::Array(items) => {
            let mut out: Vec<Json> = Vec::new();
            let ghost all = items@;
            for item in it: items
                invariant
                    it.seq() == all,
                    out@.len() == it.index(),
                    model == JsonSpec::Array(Seq::new(all.len(), |i: int| value_model(all[i]))),
                    model == value_model(v),
                    forall|j: int| 0 <= j < it.index() ==> (#[trigger] out@[j])@ == value_model(all[j]),
            {
                proof {
                    let k = it.index();
                    assert(model->Array_0[k] == value_model(item));
                }
                out.push(from_value(item));
            }
            let r = Json::Array(out);
            proof {
                assert(r@->Array_0 =~= model->Array_0);
            }
            r
        },
        ValueParts::Object(entries) => {
            let mut out: Vec<(String, Json)> = Vec::new();
            let ghost all = entries@;
            for entry in it: entries
                invariant
                    it.seq() == all,
                    out@.len() == it.index(),
                    model == JsonSpec::Object(
                        Seq::new(all.len(), |i: int| (all[i].0@, value_model(all[i].1))),
                    ),
                    model == value_model(v),
                    forall|j: int|
                        0 <= j < it.index() ==> (#[trigger] out@[j]).0@ == all[j].0@ && out@[j].1@
                            == value_model(all[j].1),
            {
                proof {
                    let k = it.index();
                    let below = model->Object_0[k];
                    assert(below == (entry.0@, value_model(entry.1)));
                    assert(decreases_to!(model->Object_0 => below));
                    assert(decreases_to!(below => below.1));
                    assert(decreases_to!(model => below.1));
                }
                out.push((entry.0, from_value(entry.1)));
            }
            let r = Object { entries: out };
            proof {
                assert(r@ =~= model->Object_0);
            }
            Json::Object(r)
        },
    }
}

/// The `serde_json::Value` of a tree.
fn to_value(j: &Json) -> (r: serde_json::Value)
    ensures
        value_model(r) == j@,
    decreases j,
{
    match j {
        Json::Null => join_value(ValueParts::Null),
        Json::Bool(b) => join_value(ValueParts::Bool(*b)),
        Json::Number(n) => join_value(ValueParts::Number(number_clone(n))),
        Json::Str(s) => join_value(ValueParts::Str(s.clone())),
        Json::Array(v) => {
            let mut out: Vec<serde_json::Value> = Vec::new();
            let mut i: usize = 0;
            while i < v.len()
                invariant
                    i <= v@.len(),
                    out@.len() == i,
                    *j == Json::Array(*v),
                    forall|k: int| 0 <= k < i ==> value_model(#[trigger] out@[k]) == v@[k]@,
                decreases v@.len() - i,
            {
                let item = &v[i];
                proof {
                    assert(decreases_to!(j => j->Array_0));
                    assert(decreases_to!(v => v@));
                    assert(decreases_to!(v@ => v@[i as int]));
                }
                out.push(to_value(item));
                i += 1;
            }
            let p = ValueParts::Array(out);
            proof {
                assert(parts_model(p)->Array_0 =~= j@->Array_0);
            }
            join_value(p)
        },
        Json::Object(o) => {
            let mut out: Vec<(String, serde_json::Value)> = Vec::new();
            let mut i: usize = 0;
            proof {
                use_type_invariant(o);
            }
            while i < o.entries.len()
                invariant
                    i <= o.entries@.len(),
                    out@.len() == i,
                    *j == Json::Object(*o),
                    forall|k: int|
                        0 <= k < i ==> (#[trigger] out@[k]).0@ == o.entries@[k].0@ && value_model(
                            out@[k].1,
                        ) == o.entries@[k].1@,
                decreases o.entries@.len() - i,
            {
                let key = o.entries[i].0.clone();
                let below = &o.entries[i].1;
                proof {
                    assert(decreases_to!(j => j->Object_0));
                    assert(decreases_to!(o => o.entries));
                    assert(decreases_to!(o.entries => o.entries@));
                    assert(decreases_to!(o.entries@ => o.entries@[i as int]));
                    assert(decreases_to!(o.entries@[i as int] => o.entries@[i as int].1));
                }
                let value = to_value(below);
                out.push((key, value));
                i += 1;
            }
            let p = ValueParts::Object(out);
            proof {
                assert(j@->Object_0 == o@);
                assert(parts_model(p)->Object_0 =~= o@);
            }
            join_value(p)
        },
    }
}

/// Whether printing `j` and reading it again gives `j`: integers only, at most
/// `depth` levels of arrays and objects, each key once, and none of the keys
/// that the parser keeps for itself in first place.
pub open spec fn reads_back(j: JsonSpec, depth: nat) -> bool
    decreases j,
{
    match j {
        JsonSpec::Number(NumberSpec::Float(_)) => false,
        JsonSpec::Array(a) => depth > 0 && forall|i: int|
            0 <= i < a.len() ==> reads_back(#[trigger] a[i], (depth - 1) as nat),
        JsonSpec::Object(m) => {
            &&& depth > 0
            &&& unique_keys(m)
            &&& m.len() > 0 ==> m[0].0 != "$serde_json::private::RawValue"@
            &&& forall|i: int|
                0 <= i < m.len() ==> reads_back((#[trigger] m[i]).1, (depth - 1) as nat)
        },
        _ => true,
    }
}

impl Json {
    /// Whether two values are equal numbers.
    pub fn same_number(&self, other: &Json) -> (r: bool)
        ensures
            r == (match (self@, other@) {
                (JsonSpec::Number(a), JsonSpec::Number(b)) => same_number(a, b),
                _ => false,
            }),
    {
        match (self, other) {
            (Json::Number(a), Json::Number(b)) => number_equal(a, b),
            _ => false,
        }
    }
}

/// A value of the wrong type, in words.
pub open spec fn unexpected(j: JsonSpec) -> Seq<char> {
    match j {
        JsonSpec::Null => "null"@,
        JsonSpec::Bool(b) => if b {
            "boolean `true`"@
        } else {
            "boolean `false`"@
        },
        JsonSpec::Number(NumberSpec::Float(_)) => "floating point `"@ + json_text(j) + "`"@,
        JsonSpec::Number(_) => "integer `"@ + json_text(j) + "`"@,
        JsonSpec::Str(s) => unexpected_string(s),
        JsonSpec::Array(_) => "sequence"@,
        JsonSpec::Object(_) => "map"@,
    }
}

/// That a value has the wrong type, in words.
pub open spec fn wrong_type(j: JsonSpec, expected: Seq<char>) -> Seq<char> {
    "invalid type: "@ + unexpected(j) + ", expected "@ + expected
}

fn unexpected_words(j: &Json) -> (r: String)
    ensures
        r@ == unexpected(j@),
{
    match j {
        Json::Null => "null".to_owned(),
        Json::Bool(b) => if *b {
            "boolean `true`".to_owned()
        } else {
            "boolean `false`".to_owned()
        },
        Json::Number(_) => {
            let mut r = if j.as_u64().is_some() || j.as_i64().is_some() {
                "integer `".to_owned()
            } else {
                "floating point `".to_owned()
            };
            r.append(j.to_text().as_str());
            r.append("`");
            r
        },
        Json::Str(s) => unexpected_str(s.as_str()),
        Json::Array(_) => "sequence".to_owned(),
        Json::Object(_) => "map".to_owned(),
    }
}

/// That a value has the wrong type, in words.
pub fn wrong_type_words(j: &Json, expected: &str) -> (r: String)
    ensures
        r@ == wrong_type(j@, expected@),
{
    let mut r = "invalid type: ".to_owned();
    r.append(unexpected_words(j).as_str());
    r.append(", expected ");
    r.append(expected);
    r
}

/// The texts in a list of values, in order.
pub open spec fn strings_in(a: Seq<JsonSpec>) -> Seq<Seq<char>>
    decreases a.len(),
{
    if a.len() == 0 {
        Seq::empty()
    } else {
        match a.last().as_str() {
            Some(s) => strings_in(a.drop_last()).push(s),
            None => strings_in(a.drop_last()),
        }
    }
}

/// The text members under `key` of a list of objects, in order.
pub open spec fn member_texts(a: Seq<JsonSpec>, key: Seq<char>) -> Seq<Seq<char>>
    decreases a.len(),
{
    if a.len() == 0 {
        Seq::empty()
    } else {
        match a.last().get_str(key) {
            Some(s) => member_texts(a.drop_last(), key).push(s),
            None => member_texts(a.drop_last(), key),
        }
    }
}

/// The texts in a list of values, in order.
pub fn strings_of(a: &Vec<Json>) -> (r: Vec<String>)
    ensures
        texts(r@) == strings_in(jsons(a@)),
{
    let mut found: Vec<String> = Vec::new();
    let mut i: usize = 0;
    while i < a.len()
        invariant
            i <= a@.len(),
            texts(found@) == strings_in(jsons(a@).take(i as int)),
        decreases a@.len() - i,
    {
        let ghost before = texts(found@);
        proof {
            let all = jsons(a@);
            assert(all.take(i + 1).drop_last() =~= all.take(i as int));
            assert(all.take(i + 1).last() == a@[i as int]@);
        }
        if let Some(s) = a[i].as_str() {
            found.push(s.to_owned());
            proof {
                assert(texts(found@) =~= before.push(s@));
            }
        }
        i += 1;
    }
    proof {
        assert(jsons(a@).take(i as int) =~= jsons(a@));
    }
    found
}

/// The text members under `key` of a list of objects, in order.
pub fn members_of(a: &Vec<Json>, key: &str) -> (r: Vec<String>)
    ensures
        texts(r@) == member_texts(jsons(a@), key@),
{
    let mut found: Vec<String> = Vec::new();
    let mut i: usize = 0;
    while i < a.len()
        invariant
            i <= a@.len(),
            texts(found@) == member_texts(jsons(a@).take(i as int), key@),
        decreases a@.len() - i,
    {
        let ghost before = texts(found@);
        proof {
            let all = jsons(a@);
            assert(all.take(i + 1).drop_last() =~= all.take(i as int));
            assert(all.take(i + 1).last() == a@[i as int]@);
        }
        if let Some(s) = a[i].get_str(key) {
            found.push(s.to_owned());
            proof {
                assert(texts(found@) =~= before.push(s@));
            }
        }
        i += 1;
    }
    proof {
        assert(jsons(a@).take(i as int) =~= jsons(a@));
    }
    found
}

} // verus!
