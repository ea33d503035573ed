//! The members of a JSON object and the items of a JSON list, as texts.
//!
//! A parsed object holds each key once: of members that share a key, the last one
//! stays. The text still has them all. The values in it are read by `serde_json`,
//! one at a time; what stands between them is read here. Texts that are no JSON
//! document are read as far as they go.

use vstd::prelude::*;
use vstd::slice::slice_subrange;

use crate::json::{json_prefix, Json, JsonSpec};
use crate::strs::str_eq;

verus! {

/// Whether a byte is white space.
pub open spec fn is_space(b: u8) -> bool {
    b == 32 || b == 9 || b == 10 || b == 13
}

/// What stands behind the white space at the start.
pub open spec fn after_space(t: Seq<u8>) -> Seq<u8>
    decreases t.len(),
{
    if t.len() > 0 && is_space(t[0]) {
        after_space(t.skip(1))
    } else {
        t
    }
}

/// What stands behind a byte, if it comes next.
pub open spec fn behind_byte(t: Seq<u8>, b: u8) -> Option<Seq<u8>> {
    let s = after_space(t);
    if s.len() > 0 && s[0] == b {
        Some(s.skip(1))
    } else {
        None
    }
}

/// The value that comes next, its text, and what stands behind it.
pub open spec fn next_value(t: Seq<u8>) -> Option<(JsonSpec, Seq<u8>, Seq<u8>)> {
    let s = after_space(t);
    match json_prefix(s) {
        Some((j, n)) => if 0 < n <= s.len() {
            Some((j, s.take(n as int), s.skip(n as int)))
        } else {
            None
        },
        None => None,
    }
}

/// The key of a member and the text of its value.
pub type MemberSpec = (Seq<char>, Seq<u8>);

/// The member that comes next, and what stands behind the comma that follows it.
pub open spec fn next_member(t: Seq<u8>) -> Option<(MemberSpec, Option<Seq<u8>>)> {
    match next_value(t) {
        Some((JsonSpec::Str(key), _, to_colon)) => match behind_byte(to_colon, 58) {
            Some(to_value) => match next_value(to_value) {
                Some((_, text, rest)) => Some(((key, text), behind_byte(rest, 44))),
                None => None,
            },
            None => None,
        },
        _ => None,
    }
}

/// The item that comes next, and what stands behind the comma that follows it.
pub open spec fn next_item(t: Seq<u8>) -> Option<(Seq<u8>, Option<Seq<u8>>)> {
    match next_value(t) {
        Some((_, text, rest)) => Some((text, behind_byte(rest, 44))),
        None => None,
    }
}

proof fn lemma_after_space(t: Seq<u8>)
    ensures
        after_space(t).len() <= t.len(),
    decreases t.len(),
{
    if t.len() > 0 && is_space(t[0]) {
        lemma_after_space(t.skip(1));
    }
}

proof fn lemma_value_shortens(t: Seq<u8>)
    ensures
        next_value(t) matches Some(v) ==> v.2.len() < t.len(),
{
    lemma_after_space(t);
}

proof fn lemma_byte_shortens(t: Seq<u8>, b: u8)
    ensures
        behind_byte(t, b) matches Some(s) ==> s.len() < t.len(),
{
    lemma_after_space(t);
}

/// What stands behind a member is shorter than what it starts.
pub proof fn lemma_member_shortens(t: Seq<u8>)
    ensures
        next_member(t) matches Some((_, Some(rest))) ==> rest.len() < t.len(),
{
    lemma_value_shortens(t);
    if let Some((JsonSpec::Str(key), _, to_colon)) = next_value(t) {
        lemma_byte_shortens(to_colon, 58);
        if let Some(to_value) = behind_byte(to_colon, 58) {
            lemma_value_shortens(to_value);
            if let Some((_, text, rest)) = next_value(to_value) {
                lemma_byte_shortens(rest, 44);
            }
        }
    }
}

/// What stands behind an item is shorter than what it starts.
pub proof fn lemma_item_shortens(t: Seq<u8>)
    ensures
        next_item(t) matches Some((_, Some(rest))) ==> rest.len() < t.len(),
{
    lemma_value_shortens(t);
    if let Some((_, text, rest)) = next_value(t) {
        lemma_byte_shortens(rest, 44);
    }
}

/// The members from here on, in order.
pub open spec fn members_from(t: Seq<u8>) -> Seq<MemberSpec>
    decreases t.len(),
{
    proof {
        lemma_member_shortens(t);
    }
    match next_member(t) {
        None => Seq::empty(),
        Some((m, None)) => seq![m],
        Some((m, Some(rest))) => seq![m] + members_from(rest),
    }
}

/// The items from here on, in order.
pub open spec fn items_from(t: Seq<u8>) -> Seq<Seq<u8>>
    decreases t.len(),
{
    proof {
        lemma_item_shortens(t);
    }
    match next_item(t) {
        None => Seq::empty(),
        Some((i, None)) => seq![i],
        Some((i, Some(rest))) => seq![i] + items_from(rest),
    }
}

/// The members of the object that a text is, in order; none if it is no object.
pub open spec fn members(text: Seq<u8>) -> Seq<MemberSpec> {
    match behind_byte(text, 123) {
        Some(t) => members_from(t),
        None => Seq::empty(),
    }
}

/// The items of the list that a text is, in order; none if it is no list.
pub open spec fn items(text: Seq<u8>) -> Seq<Seq<u8>> {
    match behind_byte(text, 91) {
        Some(t) => items_from(t),
        None => Seq::empty(),
    }
}

/// Whether two members share this key.
pub open spec fn named_twice(m: Seq<MemberSpec>, key: Seq<char>) -> bool {
    exists|i: int, j: int| 0 <= i < j < m.len() && #[trigger] m[i].0 == key && #[trigger] m[j].0 == key
}

/// The text of the first member under a key.
pub open spec fn text_under(m: Seq<MemberSpec>, key: Seq<char>) -> Option<Seq<u8>>
    decreases m.len(),
{
    if m.len() == 0 {
        None
    } else if m[0].0 == key {
        Some(m[0].1)
    } else {
        text_under(m.skip(1), key)
    }
}

fn skip_space(t: &[u8]) -> (r: &[u8])
    ensures
        r@ == after_space(t@),
{
    let mut i: usize = 0;
    proof {
        assert(t@.skip(0) =~= t@);
    }
    while i < t.len() && (t[i] == 32 || t[i] == 9 || t[i] == 10 || t[i] == 13)
        invariant
            i <= t@.len(),
            after_space(t@) == after_space(t@.skip(i as int)),
        decreases t@.len() - i,
    {
        proof {
            assert(t@.skip(i as int).skip(1) =~= t@.skip(i + 1));
        }
        i += 1;
    }
    slice_subrange(t, i, t.len())
}

/// What a text holds, if there is one.
pub open spec fn opt_bytes(o: Option<&[u8]>) -> Option<Seq<u8>> {
    match o {
        Some(t) => Some(t@),
        None => None,
    }
}

fn take_byte(t: &[u8], b: u8) -> (r: Option<&[u8]>)
    ensures
        opt_bytes(r) == behind_byte(t@, b),
{
    let s = skip_space(t);
    if s.len() > 0 && s[0] == b {
        let rest = slice_subrange(s, 1, s.len());
        proof {
            assert(rest@ =~= s@.skip(1));
        }
        Some(rest)
    } else {
        None
    }
}

fn take_value(t: &[u8]) -> (r: Option<(Json, &[u8], &[u8])>)
    ensures
        match r {
            Some(v) => next_value(t@) == Some((v.0@, v.1@, v.2@)),
            None => next_value(t@) is None,
        },
{
    let s = skip_space(t);
    match Json::read_prefix(s) {
        Some((j, n)) => {
            let text = slice_subrange(s, 0, n);
            let rest = slice_subrange(s, n, s.len());
            proof {
                assert(text@ =~= s@.take(n as int));
                assert(rest@ =~= s@.skip(n as int));
            }
            Some((j, text, rest))
        },
        None => None,
    }
}

/// A member of an object: its key, and the text of its value.
pub struct Member<'a> {
    pub key: String,
    pub text: &'a [u8],
}

/// What the members of a list are.
pub open spec fn member_views(v: Seq<Member>) -> Seq<MemberSpec> {
    Seq::new(v.len(), |i: int| (v[i].key@, v[i].text@))
}

/// What the texts of a list hold.
pub open spec fn byte_texts(v: Seq<&[u8]>) -> Seq<Seq<u8>> {
    Seq::new(v.len(), |i: int| v[i]@)
}

fn take_member(t: &[u8]) -> (r: Option<(Member<'_>, Option<&[u8]>)>)
    ensures
        match r {
            Some(p) => next_member(t@) == Some(((p.0.key@, p.0.text@), opt_bytes(p.1))),
            None => next_member(t@) is None,
        },
{
    match take_value(t) {
        Some((Json::Str(key), _, to_colon)) => match take_byte(to_colon, 58) {
            Some(to_value) => match take_value(to_value) {
                Some((_, text, rest)) => Some((Member { key, text }, take_byte(rest, 44))),
                None => None,
            },
            None => None,
        },
        _ => None,
    }
}

fn take_item(t: &[u8]) -> (r: Option<(&[u8], Option<&[u8]>)>)
    ensures
        match r {
            Some(p) => next_item(t@) == Some((p.0@, opt_bytes(p.1))),
            None => next_item(t@) is None,
        },
{
    match take_value(t) {
        Some((_, text, rest)) => Some((text, take_byte(rest, 44))),
        None => None,
    }
}

/// How much is left to read.
spec fn left(o: Option<&[u8]>) -> nat {
    match o {
        Some(t) => t@.len() + 1,
        None => 0,
    }
}

/// The members that are left to read.
spec fn members_left(o: Option<&[u8]>) -> Seq<MemberSpec> {
    match o {
        Some(t) => members_from(t@),
        None => Seq::empty(),
    }
}

/// The items that are left to read.
spec fn items_left(o: Option<&[u8]>) -> Seq<Seq<u8>> {
    match o {
        Some(t) => items_from(t@),
        None => Seq::empty(),
    }
}

/// The members of the object that a text is, in order.
pub fn members_of_text(text: &[u8]) -> (r: Vec<Member<'_>>)
    ensures
        member_views(r@) == members(text@),
{
    let mut out: Vec<Member> = Vec::new();
    let mut at = take_byte(text, 123);
    proof {
        assert(member_views(out@) + members(text@) =~= members(text@));
    }
    while at.is_some()
        invariant
            member_views(out@) + members_left(at) == members(text@),
        decreases left(at),
    {
        let ghost before = member_views(out@);
        let mut next: Option<&[u8]> = None;
        if let Some(t) = at {
            proof {
                lemma_member_shortens(t@);
            }
            if let Some((m, rest)) = take_member(t) {
                let ghost found = (m.key@, m.text@);
                out.push(m);
                next = rest;
                proof {
                    assert(member_views(out@) =~= before.push(found));
                    assert(before + (seq![found] + members_left(next)) =~= member_views(out@)
                        + members_left(next));
                    assert(before + seq![found] =~= member_views(out@) + members_left(None));
                }
            }
        }
        at = next;
    }
    proof {
        assert(member_views(out@) + members_left(None) =~= member_views(out@));
    }
    out
}

/// The items of the list that a text is, in order.
pub fn items_of_text(text: &[u8]) -> (r: Vec<&[u8]>)
    ensures
        byte_texts(r@) == items(text@),
{
    let mut out: Vec<&[u8]> = Vec::new();
    let mut at = take_byte(text, 91);
    proof {
        assert(byte_texts(out@) + items(text@) =~= items(text@));
    }
    while at.is_some()
        invariant
            byte_texts(out@) + items_left(at) == items(text@),
        decreases left(at),
    {
        let ghost before = byte_texts(out@);
        let mut next: Option<&[u8]> = None;
        if let Some(t) = at {
            proof {
                lemma_item_shortens(t@);
            }
            if let Some((item, rest)) = take_item(t) {
                out.push(item);
                next = rest;
                proof {
                    assert(byte_texts(out@) =~= before.push(item@));
                    assert(before + (seq![item@] + items_left(next)) =~= byte_texts(out@)
                        + items_left(next));
                    assert(before + seq![item@] =~= byte_texts(out@) + items_left(None));
                }
            }
        }
        at = next;
    }
    proof {
        assert(byte_texts(out@) + items_left(None) =~= byte_texts(out@));
    }
    out
}

/// Whether two members share this key.
pub fn is_named_twice(v: &Vec<Member<'_>>, key: &str) -> (r: bool)
    ensures
        r == named_twice(member_views(v@), key@),
{
    let ghost m = member_views(v@);
    let mut first: Option<usize> = None;
    let mut i: usize = 0;
    while i < v.len()
        invariant
            i <= v@.len(),
            m == member_views(v@),
            match first {
                Some(k) => {
                    &&& k < i
                    &&& m[k as int].0 == key@
                    &&& forall|x: int| 0 <= x < i && x != k ==> (#[trigger] m[x]).0 != key@
                },
                None => forall|x: int| 0 <= x < i ==> (#[trigger] m[x]).0 != key@,
            },
        decreases v@.len() - i,
    {
        proof {
            assert(m[i as int].0 == v@[i as int].key@);
        }
        if str_eq(v[i].key.as_str(), key) {
            if let Some(k) = first {
                proof {
                    assert(m[k as int].0 == key@ && m[i as int].0 == key@);
                }
                return true;
            }
            first = Some(i);
        }
        i += 1;
    }
    false
}

/// The text of the first member under a key.
pub fn find_text<'a>(v: &Vec<Member<'a>>, key: &str) -> (r: Option<&'a [u8]>)
    ensures
        opt_bytes(r) == text_under(member_views(v@), key@),
{
    let ghost m = member_views(v@);
    let mut i: usize = 0;
    proof {
        assert(m.skip(0) =~= m);
    }
    while i < v.len()
        invariant
            i <= v@.len(),
            m == member_views(v@),
            text_under(m, key@) == text_under(m.skip(i as int), key@),
        decreases v@.len() - i,
    {
        proof {
            assert(m.skip(i as int)[0] == (v@[i as int].key@, v@[i as int].text@));
            assert(m.skip(i as int).skip(1) =~= m.skip(i + 1));
        }
        if str_eq(v[i].key.as_str(), key) {
            return Some(v[i].text);
        }
        i += 1;
    }
    None
}

} // verus!
