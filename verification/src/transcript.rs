//! Transcripts: a recorded child, played back.
//!
//! A transcript is a list of steps. Each step expects a frame on the input and
//! answers it with frames on the output. A frame that was not expected ends the
//! playback with an error.

use vstd::prelude::*;
use vstd::string::*;
use vstd::utf8::encode_utf8;

use crate::acp::opt_string;
use crate::json::{json_read, jsons, key_index, lookup, opt_json, same_number, stored, unique_keys, wrong_type, wrong_type_words, Json, JsonSpec, Object, ObjectSpec};
use crate::script::item;
use crate::strs::{behind, decimal, decimal_text, lines, split, split_parts, str_eq, strip_prefix, text_lines, texts, trim, trimmed};

verus! {

/// Whether a value holds everything that another one asks for: the same scalar, an
/// object with the fields asked for, or a list that starts with the items asked
/// for.
pub open spec fn holds(expect: JsonSpec, frame: JsonSpec) -> bool
    decreases expect,
{
    match (expect, frame) {
        (JsonSpec::Object(e), JsonSpec::Object(f)) => forall|i: int|
            0 <= i < e.len() ==> match lookup(f, (#[trigger] e[i]).0) {
                Some(v) => holds(e[i].1, v),
                None => false,
            },
        (JsonSpec::Array(e), JsonSpec::Array(f)) => e.len() <= f.len() && forall|i: int|
            0 <= i < e.len() ==> holds(#[trigger] e[i], f[i]),
        (JsonSpec::Number(a), JsonSpec::Number(b)) => same_number(a, b),
        (JsonSpec::Bool(a), JsonSpec::Bool(b)) => a == b,
        (JsonSpec::Str(a), JsonSpec::Str(b)) => a == b,
        (JsonSpec::Null, JsonSpec::Null) => true,
        _ => false,
    }
}

/// Whether a value holds everything that another one asks for.
pub fn subset_match(expect: &Json, frame: &Json) -> (r: bool)
    ensures
        r == holds(expect@, frame@),
    decreases expect,
{
    match (expect, frame) {
        (Json::Object(e), Json::Object(f)) => object_match(e, f),
        (Json::Array(e), Json::Array(f)) => {
            if e.len() > f.len() {
                return false;
            }
            let mut i: usize = 0;
            while i < e.len()
                invariant
                    i <= e@.len() <= f@.len(),
                    *expect == Json::Array(*e),
                    *frame == Json::Array(*f),
                    forall|k: int| 0 <= k < i ==> holds((#[trigger] e@[k])@, f@[k]@),
                decreases e@.len() - i,
            {
                proof {
                    assert(decreases_to!(expect => expect->Array_0));
                    assert(decreases_to!(e => e@));
                    assert(decreases_to!(e@ => e@[i as int]));
                }
                if !subset_match(&e[i], &f[i]) {
                    proof {
                        assert(!holds(expect@->Array_0[i as int], frame@->Array_0[i as int]));
                    }
                    return false;
                }
                i += 1;
            }
            proof {
                assert forall|k: int| 0 <= k < expect@->Array_0.len() implies holds(
                    #[trigger] expect@->Array_0[k],
                    frame@->Array_0[k],
                ) by {
                    assert(holds(e@[k]@, f@[k]@));
                }
            }
            true
        },
        (Json::Number(_), Json::Number(_)) => expect.same_number(frame),
        (Json::Bool(a), Json::Bool(b)) => *a == *b,
        (Json::Str(a), Json::Str(b)) => str_eq(a.as_str(), b.as_str()),
        (Json::Null, Json::Null) => true,
        _ => false,
    }
}

fn object_match(e: &Object, f: &Object) -> (r: bool)
    ensures
        r == holds(JsonSpec::Object(e@), JsonSpec::Object(f@)),
    decreases e,
{
    let mut i: usize = 0;
    while i < e.len()
        invariant
            i <= e@.len(),
            forall|k: int|
                0 <= k < i ==> match lookup(f@, (#[trigger] e@[k]).0) {
                    Some(v) => holds(e@[k].1, v),
                    None => false,
                },
        decreases e@.len() - i,
    {
        let key = e.key_at(i);
        let value = e.value_at(i);
        match f.get(key.as_str()) {
            Some(v) => {
                if !subset_match(value, v) {
                    proof {
                        assert(!holds(e@[i as int].1, lookup(f@, e@[i as int].0)->0));
                    }
                    return false;
                }
            },
            None => {
                proof {
                    assert(lookup(f@, e@[i as int].0) is None);
                }
                return false;
            },
        }
        i += 1;
    }
    true
}

/// Whether no object in the value holds a key twice.
pub open spec fn tidy(j: JsonSpec) -> bool
    decreases j,
{
    match j {
        JsonSpec::Array(a) => forall|i: int| 0 <= i < a.len() ==> tidy(#[trigger] a[i]),
        JsonSpec::Object(m) => unique_keys(m) && forall|i: int|
            0 <= i < m.len() ==> tidy((#[trigger] m[i]).1),
        _ => true,
    }
}

proof fn lemma_found_where_it_is(m: ObjectSpec, i: int)
    requires
        0 <= i < m.len(),
        unique_keys(m),
    ensures
        key_index(m, m[i].0) == i,
        lookup(m, m[i].0) == Some(m[i].1),
    decreases m.len(),
{
    let rest = m.drop_first();
    if i > 0 {
        assert(m[0].0 != m[i].0);
        assert forall|a: int, b: int| 0 <= a < b < rest.len() implies rest[a].0 != rest[b].0 by {
            assert(rest[a] == m[a + 1]);
            assert(rest[b] == m[b + 1]);
        }
        lemma_found_where_it_is(rest, i - 1);
        assert(rest[i - 1] == m[i]);
    }
}

proof fn lemma_found_has_key(m: ObjectSpec, key: Seq<char>)
    requires
        lookup(m, key) is Some,
    ensures
        0 <= key_index(m, key) < m.len(),
        m[key_index(m, key)].0 == key,
        m[key_index(m, key)].1 == lookup(m, key)->0,
    decreases m.len(),
{
    if m[0].0 != key {
        lemma_found_has_key(m.drop_first(), key);
    }
}

/// A frame holds everything that it asks for itself.
pub proof fn law_match_is_reflexive(j: JsonSpec)
    requires
        tidy(j),
    ensures
        holds(j, j),
    decreases j,
{
    match j {
        JsonSpec::Array(a) => {
            assert forall|i: int| 0 <= i < a.len() implies holds(#[trigger] a[i], a[i]) by {
                assert(decreases_to!(j => j->Array_0));
                assert(decreases_to!(a => a[i]));
                law_match_is_reflexive(a[i]);
            }
        },
        JsonSpec::Object(m) => {
            assert forall|i: int| 0 <= i < m.len() implies match lookup(m, (#[trigger] m[i]).0) {
                Some(v) => holds(m[i].1, v),
                None => false,
            } by {
                lemma_found_where_it_is(m, i);
                assert(decreases_to!(j => j->Object_0));
                assert(decreases_to!(m => m[i]));
                assert(decreases_to!(m[i] => m[i].1));
                law_match_is_reflexive(m[i].1);
            }
        },
        _ => {},
    }
}

/// What holds a frame holds everything that the frame holds.
pub proof fn law_match_is_transitive(a: JsonSpec, b: JsonSpec, c: JsonSpec)
    requires
        holds(a, b),
        holds(b, c),
    ensures
        holds(a, c),
    decreases a,
{
    match (a, b, c) {
        (JsonSpec::Array(x), JsonSpec::Array(y), JsonSpec::Array(z)) => {
            assert forall|i: int| 0 <= i < x.len() implies holds(#[trigger] x[i], z[i]) by {
                assert(decreases_to!(a => a->Array_0));
                assert(decreases_to!(x => x[i]));
                assert(holds(y[i], z[i]));
                law_match_is_transitive(x[i], y[i], z[i]);
            }
        },
        (JsonSpec::Object(x), JsonSpec::Object(y), JsonSpec::Object(z)) => {
            assert forall|i: int| 0 <= i < x.len() implies match lookup(z, (#[trigger] x[i]).0) {
                Some(v) => holds(x[i].1, v),
                None => false,
            } by {
                let key = x[i].0;
                lemma_found_has_key(y, key);
                let k = key_index(y, key);
                assert(y[k].0 == key);
                assert(decreases_to!(a => a->Object_0));
                assert(decreases_to!(x => x[i]));
                assert(decreases_to!(x[i] => x[i].1));
                law_match_is_transitive(x[i].1, y[k].1, lookup(z, key)->0);
            }
        },
        _ => {},
    }
}

/// The value at the end of a path of fields; null where the path leads nowhere.
pub open spec fn field_at(frame: JsonSpec, path: Seq<Seq<char>>) -> JsonSpec
    decreases path.len(),
{
    if path.len() == 0 {
        frame
    } else {
        match frame.get(path[0]) {
            Some(next) => field_at(next, path.skip(1)),
            None => JsonSpec::Null,
        }
    }
}

/// The value that a dotted path leads to.
pub open spec fn field(frame: JsonSpec, path: Seq<char>) -> JsonSpec {
    field_at(frame, split_parts(path, '.'))
}

/// What a text of an answer stands for: the id of the request that was matched, a
/// field of the frame that was matched, or itself.
pub open spec fn filled_text(s: Seq<char>, matched: JsonSpec) -> JsonSpec {
    if s == "$REQ"@ {
        field(matched, "request_id"@)
    } else {
        match behind(s, "$MATCH."@) {
            Some(path) => field(matched, path),
            None => JsonSpec::Str(s),
        }
    }
}

/// An answer with its texts filled in.
pub open spec fn filled(value: JsonSpec, matched: JsonSpec) -> JsonSpec
    decreases value,
{
    match value {
        JsonSpec::Str(s) => filled_text(s, matched),
        JsonSpec::Array(a) => JsonSpec::Array(
            Seq::new(
                a.len(),
                |i: int|
                    if 0 <= i < a.len() {
                        filled(a[i], matched)
                    } else {
                        JsonSpec::Null
                    },
            ),
        ),
        JsonSpec::Object(m) => JsonSpec::Object(
            Seq::new(
                m.len(),
                |i: int|
                    if 0 <= i < m.len() {
                        (m[i].0, filled(m[i].1, matched))
                    } else {
                        (Seq::empty(), JsonSpec::Null)
                    },
            ),
        ),
        other => other,
    }
}

/// The value that a dotted path leads to.
pub fn field_of(matched: &Json, path: &str) -> (r: Json)
    ensures
        r@ == field(matched@, path@),
{
    let parts = split(path, '.');
    let mut current: &Json = matched;
    let mut i: usize = 0;
    proof {
        assert(texts(parts@).skip(0) =~= texts(parts@));
    }
    while i < parts.len()
        invariant
            i <= parts@.len(),
            texts(parts@) == split_parts(path@, '.'),
            field_at(current@, texts(parts@).skip(i as int)) == field(matched@, path@),
        decreases parts@.len() - i,
    {
        proof {
            assert(texts(parts@).skip(i as int)[0] == parts@[i as int]@);
            assert(texts(parts@).skip(i as int).skip(1) =~= texts(parts@).skip(i + 1));
        }
        match current.get(parts[i].as_str()) {
            Some(next) => {
                current = next;
            },
            None => {
                return Json::Null;
            },
        }
        i += 1;
    }
    current.copy()
}

fn fill_text(s: &str, matched: &Json) -> (r: Json)
    ensures
        r@ == filled_text(s@, matched@),
{
    if str_eq(s, "$REQ") {
        field_of(matched, "request_id")
    } else {
        match strip_prefix(s, "$MATCH.") {
            Some(path) => field_of(matched, path.as_str()),
            None => Json::text(s),
        }
    }
}

/// An answer with its texts filled in from the frame that was matched.
pub fn substitute(value: &Json, matched: &Json) -> (r: Json)
    ensures
        r@ == filled(value@, matched@),
    decreases value,
{
    match value {
        Json::Str(s) => fill_text(s.as_str(), matched),
        Json::Array(a) => {
            let mut out: Vec<Json> = Vec::new();
            let mut i: usize = 0;
            while i < a.len()
                invariant
                    i <= a@.len(),
                    out@.len() == i,
                    *value == Json::Array(*a),
                    forall|k: int|
                        0 <= k < i ==> (#[trigger] out@[k])@ == filled(a@[k]@, matched@),
                decreases a@.len() - i,
            {
                proof {
                    assert(decreases_to!(value => value->Array_0));
                    assert(decreases_to!(a => a@));
                    assert(decreases_to!(a@ => a@[i as int]));
                }
                out.push(substitute(&a[i], matched));
                i += 1;
            }
            let r = Json::array(out);
            proof {
                assert(r@->Array_0 =~= filled(value@, matched@)->Array_0);
            }
            r
        },
        Json::Object(m) => Json::Object(substitute_object(m, matched)),
        other => other.copy(),
    }
}

proof fn lemma_keys_stay(m: ObjectSpec, n: ObjectSpec)
    requires
        m.len() == n.len(),
        forall|i: int| 0 <= i < m.len() ==> (#[trigger] m[i]).0 == n[i].0,
        unique_keys(m),
    ensures
        unique_keys(n),
{
    assert forall|i: int, j: int| 0 <= i < j < n.len() implies n[i].0 != n[j].0 by {
        assert(m[i].0 != m[j].0);
    }
}

fn substitute_object(m: &Object, matched: &Json) -> (r: Object)
    ensures
        r@ == filled(JsonSpec::Object(m@), matched@)->Object_0,
    decreases m,
{
    let n: usize = m.len();
    let ghost all = filled(JsonSpec::Object(m@), matched@)->Object_0;
    let mut out = Object::new();
    let mut i: usize = 0;
    proof {
        lemma_keys_stay(m@, all);
        assert(out@ =~= all.take(0));
    }
    while i < n
        invariant
            i <= n == m@.len(),
            all == filled(JsonSpec::Object(m@), matched@)->Object_0,
            unique_keys(all),
            out@ == all.take(i as int),
        decreases m@.len() - i,
    {
        let key = m.key_at(i);
        let value = substitute(m.value_at(i), matched);
        proof {
            lemma_new_key(all, i as int);
            assert(all[i as int] == (key@, value@));
            assert(all.take(i + 1) =~= all.take(i as int).push(all[i as int]));
        }
        out.insert(key.as_str(), value);
        i += 1;
    }
    proof {
        assert(all.take(i as int) =~= all);
    }
    out
}

proof fn lemma_absent_key(m: ObjectSpec, key: Seq<char>)
    requires
        forall|i: int| 0 <= i < m.len() ==> (#[trigger] m[i]).0 != key,
    ensures
        key_index(m, key) == m.len(),
    decreases m.len(),
{
    if m.len() > 0 {
        assert(m[0].0 != key);
        let rest = m.drop_first();
        assert forall|i: int| 0 <= i < rest.len() implies (#[trigger] rest[i]).0 != key by {
            assert(rest[i] == m[i + 1]);
        }
        lemma_absent_key(rest, key);
    }
}

proof fn lemma_new_key(all: ObjectSpec, i: int)
    requires
        0 <= i < all.len(),
        unique_keys(all),
    ensures
        stored(all.take(i), all[i].0, all[i].1) == all.take(i).push(all[i]),
{
    let before = all.take(i);
    assert forall|k: int| 0 <= k < before.len() implies (#[trigger] before[k]).0 != all[i].0 by {
        assert(before[k] == all[k]);
    }
    lemma_absent_key(before, all[i].0);
}

/// Whether no text of a value stands for something else.
pub open spec fn plain(value: JsonSpec) -> bool
    decreases value,
{
    match value {
        JsonSpec::Str(s) => s != "$REQ"@ && behind(s, "$MATCH."@) is None,
        JsonSpec::Array(a) => forall|i: int| 0 <= i < a.len() ==> plain(#[trigger] a[i]),
        JsonSpec::Object(m) => forall|i: int| 0 <= i < m.len() ==> plain((#[trigger] m[i]).1),
        _ => true,
    }
}

/// An answer with nothing to fill in is given as it is.
pub proof fn law_plain_answer_stays(value: JsonSpec, matched: JsonSpec)
    requires
        plain(value),
    ensures
        filled(value, matched) == value,
    decreases value,
{
    match value {
        JsonSpec::Array(a) => {
            assert forall|i: int| 0 <= i < a.len() implies filled(#[trigger] a[i], matched)
                == a[i] by {
                assert(decreases_to!(value => value->Array_0));
                assert(decreases_to!(a => a[i]));
                law_plain_answer_stays(a[i], matched);
            }
            assert(filled(value, matched)->Array_0 =~= a);
        },
        JsonSpec::Object(m) => {
            assert forall|i: int| 0 <= i < m.len() implies filled((#[trigger] m[i]).1, matched)
                == m[i].1 by {
                assert(decreases_to!(value => value->Object_0));
                assert(decreases_to!(m => m[i]));
                assert(decreases_to!(m[i] => m[i].1));
                law_plain_answer_stays(m[i].1, matched);
            }
            assert(filled(value, matched)->Object_0 =~= m);
        },
        _ => {},
    }
}

/// A step of a transcript.
pub struct Step {
    /// What the next frame has to hold.
    pub expect: Json,
    /// The frames that answer it.
    pub emit: Vec<Json>,
    /// Whether a keep-alive follows them.
    pub keep_alive: bool,
    /// Whether the playback ends after them.
    pub exit: bool,
}

/// A step of a transcript.
#[verifier::ext_equal]
pub struct StepSpec {
    pub expect: JsonSpec,
    pub emit: Seq<JsonSpec>,
    pub keep_alive: bool,
    pub exit: bool,
}

impl Step {
    /// What the step is.
    pub open spec fn view(&self) -> StepSpec {
        StepSpec {
            expect: self.expect@,
            emit: jsons(self.emit@),
            keep_alive: self.keep_alive,
            exit: self.exit,
        }
    }
}

/// What the steps of a list are.
pub open spec fn steps(v: Seq<Step>) -> Seq<StepSpec> {
    Seq::new(v.len(), |i: int| v[i]@)
}

/// A transcript.
pub struct Transcript {
    /// How often a keep-alive is sent while no frame comes, in milliseconds.
    pub keep_alive_every_ms: Option<u64>,
    /// The steps, in order.
    pub steps: Vec<Step>,
}

/// A transcript.
#[verifier::ext_equal]
pub struct TranscriptSpec {
    pub keep_alive_every_ms: Option<u64>,
    pub steps: Seq<StepSpec>,
}

impl Transcript {
    /// What the transcript is.
    pub open spec fn view(&self) -> TranscriptSpec {
        TranscriptSpec {
            keep_alive_every_ms: self.keep_alive_every_ms,
            steps: steps(self.steps@),
        }
    }

    /// How often a keep-alive is sent while no frame comes, in milliseconds.
    pub fn keep_alive_interval(&self) -> (r: Option<u64>)
        ensures
            r == self@.keep_alive_every_ms,
    {
        self.keep_alive_every_ms
    }
}

/// Why there is no transcript.
#[derive(Debug, Clone, PartialEq, Eq)]
pub enum TranscriptError {
    /// A line, counted from zero, is no step.
    Parse { line: usize, source: String },
    /// The transcript could not be read.
    Io(String),
    /// The file could not be read.
    ReadScript(String),
}

impl TranscriptError {
    /// What went wrong, in words.
    pub open spec fn words(self) -> Seq<char> {
        match self {
            TranscriptError::Parse { line, source } => "failed to parse transcript line "@
                + decimal(line as nat) + ": "@ + source@,
            TranscriptError::Io(e) => "failed to read transcript: "@ + e@,
            TranscriptError::ReadScript(e) => "failed to read script path: "@ + e@,
        }
    }

    /// What went wrong, in words.
    pub fn describe(&self) -> (r: String)
        ensures
            r@ == self.words(),
    {
        match self {
            TranscriptError::Parse { line, source } => {
                let mut r = "failed to parse transcript line ".to_owned();
                r.append(decimal_text(*line as u128).as_str());
                r.append(": ");
                r.append(source.as_str());
                r
            },
            TranscriptError::Io(e) => {
                let mut r = "failed to read transcript: ".to_owned();
                r.append(e.as_str());
                r
            },
            TranscriptError::ReadScript(e) => {
                let mut r = "failed to read script path: ".to_owned();
                r.append(e.as_str());
                r
            },
        }
    }
}

/// A field that holds a list, which may be left out.
pub open spec fn list_field(o: Option<JsonSpec>) -> Option<Seq<JsonSpec>> {
    match o {
        None => Some(Seq::empty()),
        Some(JsonSpec::Array(a)) => Some(a),
        Some(_) => None,
    }
}

/// A field that holds yes or no, which may be left out.
pub open spec fn flag_field(o: Option<JsonSpec>) -> Option<bool> {
    match o {
        None => Some(false),
        Some(JsonSpec::Bool(b)) => Some(b),
        Some(_) => None,
    }
}

/// A step with these fields. What it expects cannot be left out.
pub open spec fn step_with(
    expect: Option<JsonSpec>,
    emit: Option<JsonSpec>,
    keep_alive: Option<JsonSpec>,
    exit: Option<JsonSpec>,
) -> Option<StepSpec> {
    match (expect, list_field(emit), flag_field(keep_alive), flag_field(exit)) {
        (Some(expect), Some(emit), Some(keep_alive), Some(exit)) => Some(
            StepSpec { expect, emit, keep_alive, exit },
        ),
        _ => None,
    }
}

/// The step that a JSON value is: an object, or the list of its fields in order.
pub open spec fn step_of(j: JsonSpec) -> Option<StepSpec> {
    match j {
        JsonSpec::Object(_) => step_with(
            j.get("expect"@),
            j.get("emit"@),
            j.get("keep_alive"@),
            j.get("exit"@),
        ),
        JsonSpec::Array(a) => if a.len() <= 4 {
            step_with(item(a, 0), item(a, 1), item(a, 2), item(a, 3))
        } else {
            None
        },
        _ => None,
    }
}

/// What is wrong with a field of a step, if something is.
pub open spec fn field_fault(key: Seq<char>, value: JsonSpec) -> Option<Seq<char>> {
    if key == "emit"@ && !(value is Array) {
        Some(wrong_type(value, "a sequence"@))
    } else if (key == "keep_alive"@ || key == "exit"@) && !(value is Bool) {
        Some(wrong_type(value, "a boolean"@))
    } else {
        None
    }
}

/// What is wrong with the first field with which something is.
pub open spec fn first_fault(m: ObjectSpec) -> Option<Seq<char>>
    decreases m.len(),
{
    if m.len() == 0 {
        None
    } else {
        match field_fault(m[0].0, m[0].1) {
            Some(e) => Some(e),
            None => first_fault(m.drop_first()),
        }
    }
}

/// The fields of a step that is written as a list, by their names.
pub open spec fn named_fields(a: Seq<JsonSpec>) -> ObjectSpec {
    let names = seq!["expect"@, "emit"@, "keep_alive"@, "exit"@];
    Seq::new(
        if a.len() < 4 {
            a.len()
        } else {
            4
        },
        |i: int| (names[i], a[i]),
    )
}

/// Why a value is no step. A field of the wrong type comes first.
pub open spec fn step_fault(j: JsonSpec) -> Seq<char> {
    match j {
        JsonSpec::Object(m) => match first_fault(m) {
            Some(e) => e,
            None => "missing field `expect`"@,
        },
        JsonSpec::Array(a) => match first_fault(named_fields(a)) {
            Some(e) => e,
            None => if a.len() == 0 {
                "invalid length 0, expected struct Step with 4 elements"@
            } else {
                "invalid length "@ + decimal(a.len()) + ", expected fewer elements in array"@
            },
        },
        _ => wrong_type(j, "struct Step"@),
    }
}

/// What a line of a transcript is.
pub enum LineSpec {
    /// Nothing.
    Blank,
    /// How often a keep-alive is sent.
    Interval(u64),
    /// A step.
    Step(StepSpec),
    /// Neither, for this reason.
    Bad(Seq<char>),
}

/// What a line of a transcript is.
pub open spec fn line_of(line: Seq<char>) -> LineSpec {
    if trimmed(line).len() == 0 {
        LineSpec::Blank
    } else {
        match json_read(encode_utf8(trimmed(line))) {
            Err(why) => LineSpec::Bad(why),
            Ok(j) => match j.get_u64("keep_alive_every_ms"@) {
                Some(ms) => LineSpec::Interval(ms),
                None => match step_of(j) {
                    Some(step) => LineSpec::Step(step),
                    None => LineSpec::Bad(step_fault(j)),
                },
            },
        }
    }
}

/// What the first lines of a transcript say. The last interval counts.
pub open spec fn transcript_of(lines: Seq<Seq<char>>) -> TranscriptSpec
    decreases lines.len(),
{
    if lines.len() == 0 {
        TranscriptSpec { keep_alive_every_ms: None, steps: Seq::empty() }
    } else {
        let before = transcript_of(lines.drop_last());
        match line_of(lines.last()) {
            LineSpec::Interval(ms) => TranscriptSpec { keep_alive_every_ms: Some(ms), ..before },
            LineSpec::Step(step) => TranscriptSpec { steps: before.steps.push(step), ..before },
            _ => before,
        }
    }
}

fn read_list(o: Option<&Json>) -> (r: Option<Vec<Json>>)
    ensures
        match r {
            Some(v) => list_field(opt_json(o)) == Some(jsons(v@)),
            None => list_field(opt_json(o)) is None,
        },
{
    match o {
        None => {
            let none: Vec<Json> = Vec::new();
            proof {
                assert(jsons(none@) =~= Seq::<JsonSpec>::empty());
            }
            Some(none)
        },
        Some(Json::Array(a)) => {
            let mut out: Vec<Json> = Vec::new();
            let mut i: usize = 0;
            while i < a.len()
                invariant
                    i <= a@.len(),
                    out@.len() == i,
                    forall|k: int| 0 <= k < i ==> (#[trigger] out@[k])@ == a@[k]@,
                decreases a@.len() - i,
            {
                out.push(a[i].copy());
                i += 1;
            }
            proof {
                assert(jsons(out@) =~= o->0@->Array_0);
            }
            Some(out)
        },
        Some(_) => None,
    }
}

fn read_flag(o: Option<&Json>) -> (r: Option<bool>)
    ensures
        r == flag_field(opt_json(o)),
{
    match o {
        None => Some(false),
        Some(Json::Bool(b)) => Some(*b),
        Some(_) => None,
    }
}

/// What a step is, if it is one.
pub open spec fn opt_step(o: Option<Step>) -> Option<StepSpec> {
    match o {
        Some(s) => Some(s@),
        None => None,
    }
}

fn read_fields(
    expect: Option<&Json>,
    emit: Option<&Json>,
    keep_alive: Option<&Json>,
    exit: Option<&Json>,
) -> (r: Option<Step>)
    ensures
        opt_step(r) == step_with(
            opt_json(expect),
            opt_json(emit),
            opt_json(keep_alive),
            opt_json(exit),
        ),
{
    match (expect, read_list(emit), read_flag(keep_alive), read_flag(exit)) {
        (Some(expect), Some(emit), Some(keep_alive), Some(exit)) => Some(
            Step { expect: expect.copy(), emit, keep_alive, exit },
        ),
        _ => None,
    }
}

fn nth(a: &Vec<Json>, i: usize) -> (r: Option<&Json>)
    ensures
        opt_json(r) == item(jsons(a@), i as int),
{
    if i < a.len() {
        Some(&a[i])
    } else {
        None
    }
}

fn read_step(j: &Json) -> (r: Option<Step>)
    ensures
        opt_step(r) == step_of(j@),
{
    match j {
        Json::Object(_) => read_fields(
            j.get("expect"),
            j.get("emit"),
            j.get("keep_alive"),
            j.get("exit"),
        ),
        Json::Array(a) => {
            proof {
                assert(jsons(a@) =~= j@->Array_0);
            }
            if a.len() <= 4 {
                read_fields(nth(a, 0), nth(a, 1), nth(a, 2), nth(a, 3))
            } else {
                None
            }
        },
        _ => None,
    }
}

fn field_fault_words(key: &str, value: &Json) -> (r: Option<String>)
    ensures
        opt_string(r) == field_fault(key@, value@),
{
    if str_eq(key, "emit") && !matches!(value, Json::Array(_)) {
        Some(wrong_type_words(value, "a sequence"))
    } else if (str_eq(key, "keep_alive") || str_eq(key, "exit")) && !matches!(value, Json::Bool(_)) {
        Some(wrong_type_words(value, "a boolean"))
    } else {
        None
    }
}

fn object_fault_words(o: &Object) -> (r: Option<String>)
    ensures
        opt_string(r) == first_fault(o@),
{
    let mut i: usize = 0;
    proof {
        assert(o@.skip(0) =~= o@);
    }
    while i < o.len()
        invariant
            i <= o@.len(),
            first_fault(o@) == first_fault(o@.skip(i as int)),
        decreases o@.len() - i,
    {
        proof {
            assert(o@.skip(i as int).drop_first() =~= o@.skip(i + 1));
        }
        if let Some(why) = field_fault_words(o.key_at(i).as_str(), o.value_at(i)) {
            return Some(why);
        }
        i += 1;
    }
    None
}

fn list_fault_words(a: &Vec<Json>) -> (r: Option<String>)
    ensures
        opt_string(r) == first_fault(named_fields(jsons(a@))),
{
    let names = ["expect", "emit", "keep_alive", "exit"];
    let ghost all = named_fields(jsons(a@));
    let mut i: usize = 0;
    proof {
        assert(all.skip(0) =~= all);
    }
    while i < a.len() && i < 4
        invariant
            i <= all.len(),
            all == named_fields(jsons(a@)),
            names@ == seq!["expect", "emit", "keep_alive", "exit"],
            first_fault(all) == first_fault(all.skip(i as int)),
        decreases all.len() - i,
    {
        proof {
            assert(all.skip(i as int).drop_first() =~= all.skip(i + 1));
            assert(all[i as int] == (names@[i as int]@, a@[i as int]@));
        }
        if let Some(why) = field_fault_words(names[i], &a[i]) {
            return Some(why);
        }
        i += 1;
    }
    None
}

fn step_fault_words(j: &Json) -> (r: String)
    ensures
        r@ == step_fault(j@),
{
    match j {
        Json::Object(o) => match object_fault_words(o) {
            Some(why) => why,
            None => "missing field `expect`".to_owned(),
        },
        Json::Array(a) => {
            proof {
                assert(jsons(a@) =~= j@->Array_0);
            }
            match list_fault_words(a) {
                Some(why) => why,
                None => if a.len() == 0 {
                    "invalid length 0, expected struct Step with 4 elements".to_owned()
                } else {
                    let mut r = "invalid length ".to_owned();
                    r.append(decimal_text(a.len() as u128).as_str());
                    r.append(", expected fewer elements in array");
                    r
                },
            }
        },
        _ => wrong_type_words(j, "struct Step"),
    }
}

enum Line {
    Blank,
    Interval(u64),
    Step(Step),
    Bad(String),
}

impl Line {
    spec fn view(&self) -> LineSpec {
        match self {
            Line::Blank => LineSpec::Blank,
            Line::Interval(ms) => LineSpec::Interval(*ms),
            Line::Step(s) => LineSpec::Step(s@),
            Line::Bad(why) => LineSpec::Bad(why@),
        }
    }
}

fn read_line(raw: &str) -> (r: Line)
    ensures
        r@ == line_of(raw@),
{
    let line = trim(raw);
    if line.as_str().is_empty() {
        return Line::Blank;
    }
    match Json::read_str(line.as_str()) {
        Err(why) => Line::Bad(why),
        Ok(j) => match j.get_u64("keep_alive_every_ms") {
            Some(ms) => Line::Interval(ms),
            None => match read_step(&j) {
                Some(step) => Line::Step(step),
                None => Line::Bad(step_fault_words(&j)),
            },
        },
    }
}

/// The first line that is neither blank, an interval nor a step; the number of
/// lines if there is none.
pub open spec fn first_bad(lines: Seq<Seq<char>>) -> int
    decreases lines.len(),
{
    if lines.len() == 0 {
        0
    } else {
        let before = first_bad(lines.drop_last());
        if before < lines.len() - 1 {
            before
        } else if line_of(lines.last()) is Bad {
            lines.len() - 1
        } else {
            lines.len() as int
        }
    }
}

proof fn lemma_first_bad(lines: Seq<Seq<char>>, n: int)
    requires
        0 <= n < lines.len(),
        first_bad(lines.take(n)) == n,
        line_of(lines[n]) is Bad,
    ensures
        first_bad(lines) == n,
    decreases lines.len(),
{
    if n == lines.len() - 1 {
        assert(lines.drop_last() =~= lines.take(n));
    } else {
        assert(lines.drop_last().take(n) =~= lines.take(n));
        lemma_first_bad(lines.drop_last(), n);
    }
}

impl Transcript {
    /// Reads a transcript: one step on each line that is not blank.
    pub fn parse(text: &str) -> (r: Result<Transcript, TranscriptError>)
        ensures
            ({
                let all = text_lines(text@);
                match r {
                    Ok(t) => first_bad(all) == all.len() && t@ == transcript_of(all),
                    Err(e) => {
                        &&& first_bad(all) < all.len()
                        &&& e is Parse
                        &&& e->line == first_bad(all)
                        &&& line_of(all[first_bad(all)]) == LineSpec::Bad(e->Parse_source@)
                    },
                }
            }),
    {
        let raw = lines(text);
        let ghost all = text_lines(text@);
        let mut found: Vec<Step> = Vec::new();
        let mut every: Option<u64> = None;
        let mut i: usize = 0;
        proof {
            assert(steps(found@) =~= Seq::<StepSpec>::empty());
            assert(all.take(0) =~= Seq::<Seq<char>>::empty());
        }
        while i < raw.len()
            invariant
                i <= raw@.len(),
                texts(raw@) == all,
                all == text_lines(text@),
                first_bad(all.take(i as int)) == i,
                transcript_of(all.take(i as int)) == (TranscriptSpec {
                    keep_alive_every_ms: every,
                    steps: steps(found@),
                }),
            decreases raw@.len() - i,
        {
            let ghost before = found@;
            proof {
                assert(all[i as int] == raw@[i as int]@);
                assert(all.take(i + 1).drop_last() =~= all.take(i as int));
                assert(all.take(i + 1).last() == all[i as int]);
            }
            match read_line(raw[i].as_str()) {
                Line::Blank => {},
                Line::Interval(ms) => {
                    every = Some(ms);
                },
                Line::Step(step) => {
                    found.push(step);
                    proof {
                        assert(steps(found@) =~= steps(before).push(step@));
                    }
                },
                Line::Bad(source) => {
                    proof {
                        lemma_first_bad(all, i as int);
                    }
                    return Err(TranscriptError::Parse { line: i, source });
                },
            }
            i += 1;
        }
        proof {
            assert(all.len() == raw@.len());
            assert(all.take(i as int) =~= all);
        }
        Ok(Transcript { keep_alive_every_ms: every, steps: found })
    }
}

} // verus!
