//! What holds of texts, values and lines, whoever uses them.

use vstd::prelude::*;

use crate::codec::{complete, parsed, partial};
use crate::dispatch::{route_of, Route};
use crate::feed::total;
use crate::frames::{frames, Frame};
use crate::json::{json_parse, json_prefix, same_number, JsonSpec, NumberSpec};
use crate::members::{items, items_from, members, members_from};
use crate::recorder::{agent_parsed, finished, AgentCommand, AgentCommandSpec, RecordError};
use crate::script::{repeats, step_repeats, ScriptSpec, StepSpec};
use crate::session::control_lines;
use crate::strs::{before_suffix, behind, contains_text, decimal, has_prefix, is_white, occurs_at, text_lines, trimmed, trimmed_end, trimmed_start, white_prefix};
use crate::turn::{waiting, MachineSpec, Usage};
use crate::uuid::uuid_seed;

verus! {

/// A text occurs in every text that holds it, wherever it stands.
pub proof fn law_text_is_found(before: Seq<char>, text: Seq<char>, after: Seq<char>)
    ensures
        contains_text(before + text + after, text),
{
    let hay = before + text + after;
    let i = before.len() as int;
    assert(hay.subrange(i, i + text.len()) =~= text);
    assert(occurs_at(hay, text, i));
}

/// A text that occurs in another stands somewhere in it, whole.
pub proof fn law_found_text_is_there(hay: Seq<char>, text: Seq<char>)
    requires
        contains_text(hay, text),
    ensures
        exists|before: Seq<char>, after: Seq<char>| #[trigger] (before + text + after) == hay,
{
    let i = choose|i: int| #[trigger] occurs_at(hay, text, i);
    let before = hay.take(i);
    let after = hay.skip(i + text.len());
    assert(before + text + after =~= hay);
}

/// A prefix and a suffix are found where they stand, and what is left is the rest.
pub proof fn law_ends_are_taken_off(head: Seq<char>, tail: Seq<char>)
    ensures
        has_prefix(head + tail, head),
        behind(head + tail, head) == Some(tail),
        before_suffix(head + tail, tail) == Some(head),
{
    let s = head + tail;
    assert(s.take(head.len() as int) =~= head);
    assert(s.skip(head.len() as int) =~= tail);
    assert(s.skip(s.len() - tail.len()) =~= tail);
    assert(s.take(s.len() - tail.len()) =~= head);
}

/// The blank, the tabulator and the ends of lines are white, and no letter, digit or
/// mark of ASCII is.
pub proof fn law_white_characters(c: char)
    ensures
        is_white(' '),
        is_white('\t'),
        is_white('\n'),
        is_white('\r'),
        '!' <= c && c <= '~' ==> !is_white(c),
{
}

proof fn lemma_white_start(white: Seq<char>, s: Seq<char>)
    requires
        forall|i: int| 0 <= i < white.len() ==> is_white(#[trigger] white[i]),
        s.len() > 0 ==> !is_white(s[0]),
    ensures
        white_prefix(white + s) == white.len(),
    decreases white.len(),
{
    if white.len() > 0 {
        let rest = white.drop_first();
        assert forall|i: int| 0 <= i < rest.len() implies is_white(#[trigger] rest[i]) by {
            assert(rest[i] == white[i + 1]);
        }
        lemma_white_start(rest, s);
        assert((white + s)[0] == white[0]);
        assert((white + s).drop_first() =~= rest + s);
    } else {
        assert(white + s =~= s);
    }
}

proof fn lemma_white_end(s: Seq<char>, white: Seq<char>)
    requires
        forall|i: int| 0 <= i < white.len() ==> is_white(#[trigger] white[i]),
        s.len() > 0 ==> !is_white(s.last()),
    ensures
        trimmed_end(s + white) == s,
    decreases white.len(),
{
    if white.len() > 0 {
        let rest = white.drop_last();
        assert forall|i: int| 0 <= i < rest.len() implies is_white(#[trigger] rest[i]) by {
            assert(rest[i] == white[i]);
        }
        lemma_white_end(s, rest);
        assert((s + white).last() == white[white.len() - 1]);
        assert((s + white).drop_last() =~= s + rest);
    } else {
        assert(s + white =~= s);
    }
}

/// The white space around a text is taken off, and nothing of the text is.
pub proof fn law_white_space_is_taken_off(a: Seq<char>, text: Seq<char>, b: Seq<char>)
    requires
        forall|i: int| 0 <= i < a.len() ==> is_white(#[trigger] a[i]),
        forall|i: int| 0 <= i < b.len() ==> is_white(#[trigger] b[i]),
        text.len() > 0,
        !is_white(text[0]),
        !is_white(text.last()),
    ensures
        trimmed(a + text + b) == text,
        trimmed_start(a + text) == text,
        trimmed_end(text + b) == text,
{
    assert((text + b)[0] == text[0]);
    lemma_white_start(a, text + b);
    assert(a + text + b =~= a + (text + b));
    assert((a + (text + b)).skip(a.len() as int) =~= text + b);
    lemma_white_end(text, b);
    lemma_white_start(a, text);
    assert((a + text).skip(a.len() as int) =~= text);
}

/// A text is read line by line: a line ends at the newline, and a carriage return
/// before it belongs to the end. What is left at the end is a line if there is any.
pub proof fn law_text_is_read_by_lines(line: Seq<char>, rest: Seq<char>)
    requires
        forall|i: int| 0 <= i < line.len() ==> line[i] != '\n',
        line.len() > 0 ==> line.last() != '\r',
    ensures
        text_lines(line.push('\n') + rest) == seq![line] + text_lines(rest),
        text_lines(line.push('\r').push('\n') + rest) == seq![line] + text_lines(rest),
        line.len() > 0 ==> text_lines(line) == seq![line],
        text_lines(Seq::empty()).len() == 0,
{
    let n = line.len() as int;
    let s = line.push('\n') + rest;
    crate::strs::lemma_index_of_char(s, '\n', n);
    assert(s.take(n) =~= line);
    assert(s.skip(n + 1) =~= rest);
    let t = line.push('\r').push('\n') + rest;
    crate::strs::lemma_index_of_char(t, '\n', n + 1);
    assert(t.take(n + 1) =~= line.push('\r'));
    assert(line.push('\r').drop_last() =~= line);
    assert(t.skip(n + 2) =~= rest);
    crate::strs::lemma_index_of_char(line, '\n', n);
}

/// The number that digits stand for, the first of them counting most.
pub open spec fn number_of(digits: Seq<char>) -> int
    decreases digits.len(),
{
    if digits.len() == 0 {
        0
    } else {
        10 * number_of(digits.drop_last()) + (digits.last() as int - '0' as int)
    }
}

/// A number in decimal stands for that number, in digits alone and without zeros
/// before it.
pub proof fn law_decimal_stands_for_its_number(n: nat)
    ensures
        number_of(decimal(n)) == n,
        decimal(n).len() > 0,
        forall|i: int| 0 <= i < decimal(n).len() ==> '0' <= #[trigger] decimal(n)[i]
            && decimal(n)[i] <= '9',
        n > 0 ==> decimal(n)[0] != '0',
    decreases n,
{
    if n < 10 {
        let d = decimal(n);
        assert(d.drop_last() =~= Seq::<char>::empty());
        assert(number_of(d.drop_last()) == 0);
    } else {
        law_decimal_stands_for_its_number(n / 10);
        let d = decimal(n);
        assert(d.drop_last() =~= decimal(n / 10));
        assert(d[0] == decimal(n / 10)[0]);
        assert forall|i: int| 0 <= i < d.len() implies '0' <= #[trigger] d[i] && d[i] <= '9' by {
            if i < d.len() - 1 {
                assert(d[i] == decimal(n / 10)[i]);
            }
        }
    }
}

/// A new member stands behind the others; one that was there keeps its place.
pub proof fn law_members_keep_their_places(
    m: Seq<(Seq<char>, JsonSpec)>,
    key: Seq<char>,
    value: JsonSpec,
)
    ensures
        JsonSpec::Object(m).get(key) is None ==> JsonSpec::Object(m).with(key, value)
            == JsonSpec::Object(m.push((key, value))),
        JsonSpec::Object(m).get(key) is Some ==> (JsonSpec::Object(m).with(key, value) matches
            JsonSpec::Object(n) && n.len() == m.len() && forall|i: int|
            0 <= i < m.len() ==> (#[trigger] n[i]).0 == m[i].0),
{
    crate::json::lemma_key_index_bounds(m, key);
}

/// A value is read as what it is and as nothing else, and a number as far as it fits.
pub proof fn law_values_are_read_as_they_are(
    n: u64,
    k: i64,
    s: Seq<char>,
    b: bool,
    a: Seq<JsonSpec>,
)
    ensures
        JsonSpec::Str(s).as_str() == Some(s),
        JsonSpec::Bool(b).as_bool() == Some(b),
        JsonSpec::Array(a).as_array() == Some(a),
        JsonSpec::Number(NumberSpec::Pos(n)).as_u64() == Some(n),
        JsonSpec::Number(NumberSpec::Neg(k)).as_u64() is None,
        JsonSpec::Number(NumberSpec::Neg(k)).as_i64() == Some(k),
        n <= i64::MAX ==> JsonSpec::Number(NumberSpec::Pos(n)).as_i64() == Some(n as i64),
        n > i64::MAX ==> JsonSpec::Number(NumberSpec::Pos(n)).as_i64() is None,
        JsonSpec::Str(s).as_u64() is None,
        JsonSpec::Str(s).as_bool() is None,
        JsonSpec::Bool(b).as_str() is None,
        JsonSpec::Null.as_str() is None,
{
}

/// Two numbers are the same if they are written alike; whole numbers are the same
/// only then, and zero is the same with either sign.
pub proof fn law_same_numbers(a: NumberSpec, b: NumberSpec)
    ensures
        same_number(a, a),
        same_number(a, b) == same_number(b, a),
        !(a is Float) && same_number(a, b) ==> a == b,
        same_number(NumberSpec::Float("0.0"@), NumberSpec::Float("-0.0"@)),
{
}

/// The lines of a stream that are JSON are read in order, and the others are passed
/// over.
pub proof fn law_lines_are_parsed_in_order(lines: Seq<Seq<u8>>, line: Seq<u8>)
    ensures
        parsed(Seq::empty()).len() == 0,
        json_parse(line) matches Some(j) ==> parsed(lines.push(line)) == parsed(lines).push(j),
        json_parse(line) is None ==> parsed(lines.push(line)) == parsed(lines),
{
    assert(lines.push(line).drop_last() =~= lines);
}

/// A carriage return before the newline belongs to the end of a line, not to the line.
pub proof fn law_carriage_return_is_dropped(line: Seq<u8>, rest: Seq<u8>)
    requires
        !line.contains(10),
    ensures
        complete(line + seq![13u8, 10u8] + rest) == seq![line] + complete(rest),
        partial(line + seq![13u8, 10u8] + rest) == partial(rest),
{
    let s = line + seq![13u8, 10u8] + rest;
    let i = line.len() + 1;
    assert forall|j: int| 0 <= j < i implies s[j] != 10 by {
        if j < line.len() {
            assert(s[j] == line[j]);
        }
    }
    crate::codec::lemma_newline_at(s, i as int);
    assert(s.take(i as int) =~= line.push(13));
    assert(line.push(13).drop_last() =~= line);
    assert(s.skip(i as int + 1) =~= rest);
}

/// Of the lines of a stream those that are control messages are told, in order.
pub proof fn law_control_lines_in_order(lines: Seq<JsonSpec>, line: JsonSpec)
    ensures
        control_lines(Seq::empty()).len() == 0,
        route_of(line) == Route::Control ==> control_lines(lines.push(line)) == control_lines(
            lines,
        ).push(line),
        route_of(line) != Route::Control ==> control_lines(lines.push(line)) == control_lines(
            lines,
        ),
{
    assert(lines.push(line).drop_last() =~= lines);
}

/// The tokens of a turn are counted together: those read and written, and those that
/// were read from and written to the cache.
pub proof fn law_tokens_are_counted_together(u: Usage)
    ensures
        total(u) == u.input_tokens as int + u.output_tokens as int + u.cached_read_tokens as int
            + u.cached_write_tokens as int,
{
}

/// A machine whose counts are not at their bounds takes every input.
pub proof fn law_ordinary_machine_takes_every_input(
    m: MachineSpec,
    frame: JsonSpec,
    uuid: Seq<char>,
)
    requires
        m.owed_idles < usize::MAX,
        m.orphan_results + waiting(m.queue).len() < usize::MAX,
        frame.get("usage"@) is None,
    ensures
        m.cancel_fits(),
        m.force_cancel_fits(),
        m.echo_fits(uuid),
        m.result_fits(frame),
        m.feed_fits(frame) || crate::feed::input_of(frame) is Echo,
{
}

/// A machine takes the tokens of a result if no count overflows.
pub proof fn law_result_fits_if_its_counts_do(m: MachineSpec, frame: JsonSpec)
    requires
        m.active matches Some(t) && !t.settled && t.deferred is None,
        m.owed_idles < usize::MAX,
        m.usage == crate::turn::no_usage(),
    ensures
        m.result_fits(frame),
{
}

/// A recording that failed before anything was exchanged fails; any other is what was
/// recorded.
pub proof fn law_recording_ends(
    outcome: Result<(), String>,
    recorded: Seq<crate::frames::FrameSpec>,
    r: Result<Vec<Frame>, RecordError>,
)
    requires
        finished(outcome, recorded, r),
    ensures
        r is Err <==> outcome is Err && recorded.len() == 0,
        r matches Ok(v) ==> frames(v@) == recorded,
        outcome is Err && recorded.len() == 0 ==> (r matches Err(RecordError::Protocol(why))
            && why@ == outcome->Err_0@),
{
}

/// An agent's command is taken as it was read, and refused for what was wrong with it.
pub proof fn law_agent_command_is_taken(
    read: Result<AgentCommandSpec, Seq<char>>,
    r: Result<AgentCommand, RecordError>,
)
    requires
        agent_parsed(read, r),
    ensures
        r is Ok <==> read is Ok,
        r matches Ok(c) ==> c.command@ == read->Ok_0.command && c@ == read->Ok_0,
        r matches Err(e) ==> (e matches RecordError::AgentCommand(why) && why@ == read->Err_0),
{
}

/// A script that gives its steps or its answer to permission twice is told to.
pub proof fn law_repeated_member_is_found(
    script: ScriptSpec,
    text: Seq<u8>,
    i: int,
    j: int,
)
    requires
        0 <= i < j < members(text).len(),
        members(text)[i].0 == members(text)[j].0,
        members(text)[i].0 == "steps"@ || members(text)[i].0 == "permission"@,
    ensures
        repeats(script, text),
{
    let m = members(text);
    assert(m[i].0 == m[i].0 && m[j].0 == m[i].0);
}

/// A step that gives its call, or one of the members that its call takes, twice is
/// told to; a member that its call does not take may come twice.
pub proof fn law_repeated_field_is_found(step: StepSpec, text: Seq<u8>, i: int, j: int)
    requires
        0 <= i < j < members(text).len(),
        members(text)[i].0 == members(text)[j].0,
    ensures
        members(text)[i].0 == "call"@ ==> step_repeats(step, text),
        step is Prompt && (members(text)[i].0 == "text"@ || members(text)[i].0
            == "cancel_after_updates"@) ==> step_repeats(step, text),
        step is NewSession && members(text)[i].0 == "cwd"@ ==> step_repeats(step, text),
        step is LoadSession && (members(text)[i].0 == "cwd"@ || members(text)[i].0
            == "session_id"@) ==> step_repeats(step, text),
{
    let m = members(text);
    let key = m[i].0;
    let fields = crate::script::fields_of(step);
    assert(crate::members::named_twice(m, key));
    assert(fields.len() > 0 ==> fields[0] == fields[0]);
    assert(fields.len() > 1 ==> fields[1] == fields[1]);
}

/// Whether a byte string starts with this value, written in these bytes.
pub open spec fn starts_with_value(t: Seq<u8>, value: JsonSpec, bytes: Seq<u8>) -> bool {
    &&& bytes.len() > 0
    &&& t.len() >= bytes.len()
    &&& t.take(bytes.len() as int) == bytes
    &&& bytes[0] != 32 && bytes[0] != 9 && bytes[0] != 10 && bytes[0] != 13
    &&& json_prefix(t) == Some((value, bytes.len()))
}

/// The members of an object are read one after the other: a key, a colon, the text of
/// the value, and a comma before the next.
pub proof fn law_members_are_read_in_order(
    t: Seq<u8>,
    key: Seq<char>,
    name: Seq<u8>,
    value: JsonSpec,
    bytes: Seq<u8>,
    rest: Seq<u8>,
)
    requires
        starts_with_value(t, JsonSpec::Str(key), name),
        starts_with_value(t.skip(name.len() as int + 1), value, bytes),
    ensures
        t == name + seq![58u8] + bytes + seq![44u8] + rest ==> members_from(t) == seq![
            (key, bytes),
        ] + members_from(rest),
        t == name + seq![58u8] + bytes + seq![125u8] + rest ==> members_from(t) == seq![
            (key, bytes),
        ],
        members(seq![123u8] + t) == members_from(t),
        items(seq![123u8] + t).len() == 0,
{
    let n = name.len() as int;
    let k = bytes.len() as int;
    let u = t.skip(n + 1);
    assert(t[0] == t.take(n)[0]);
    assert(crate::members::after_space(t) == t);
    assert(u[0] == u.take(k)[0]);
    assert(crate::members::after_space(u) == u);
    let whole = seq![123u8] + t;
    assert(crate::members::after_space(whole) == whole);
    assert(whole.skip(1) =~= t);
    if t == name + seq![58u8] + bytes + seq![44u8] + rest {
        let c = t.skip(n);
        assert(c[0] == 58);
        assert(crate::members::after_space(c) == c);
        assert(c.skip(1) =~= u);
        let d = u.skip(k);
        assert(d =~= seq![44u8] + rest);
        assert(crate::members::after_space(d) == d);
        assert(d.skip(1) =~= rest);
    }
    if t == name + seq![58u8] + bytes + seq![125u8] + rest {
        let c = t.skip(n);
        assert(c[0] == 58);
        assert(crate::members::after_space(c) == c);
        assert(c.skip(1) =~= u);
        let d = u.skip(k);
        assert(d =~= seq![125u8] + rest);
        assert(crate::members::after_space(d) == d);
    }
}

/// The items of a list are read one after the other, with commas between them.
pub proof fn law_items_are_read_in_order(
    t: Seq<u8>,
    value: JsonSpec,
    bytes: Seq<u8>,
    rest: Seq<u8>,
)
    requires
        starts_with_value(t, value, bytes),
    ensures
        t == bytes + seq![44u8] + rest ==> items_from(t) == seq![bytes] + items_from(rest),
        t == bytes + seq![93u8] + rest ==> items_from(t) == seq![bytes],
        items(seq![91u8] + t) == items_from(t),
        members(seq![91u8] + t).len() == 0,
{
    let k = bytes.len() as int;
    assert(t[0] == t.take(k)[0]);
    assert(crate::members::after_space(t) == t);
    let whole = seq![91u8] + t;
    assert(crate::members::after_space(whole) == whole);
    assert(whole.skip(1) =~= t);
    if t == bytes + seq![44u8] + rest {
        let d = t.skip(k);
        assert(d =~= seq![44u8] + rest);
        assert(crate::members::after_space(d) == d);
        assert(d.skip(1) =~= rest);
    }
    if t == bytes + seq![93u8] + rest {
        let d = t.skip(k);
        assert(d =~= seq![93u8] + rest);
        assert(crate::members::after_space(d) == d);
    }
}

/// The white space of JSON may stand before any part of it.
pub proof fn law_json_space_is_passed_over(t: Seq<u8>, b: u8)
    requires
        b == 32 || b == 9 || b == 10 || b == 13,
    ensures
        members(seq![b] + t) == members(t),
        items(seq![b] + t) == items(t),
        members_from(seq![b] + t) == members_from(t),
        items_from(seq![b] + t) == items_from(t),
{
    let s = seq![b] + t;
    assert(s.skip(1) =~= t);
    assert(crate::members::after_space(s) == crate::members::after_space(t));
}

/// What has no members and no items gives nothing twice.
pub proof fn law_nothing_repeats_in_nothing(script: ScriptSpec, text: Seq<u8>)
    requires
        members(text).len() == 0,
        items(text).len() == 0,
    ensures
        !repeats(script, text),
{
}

/// Ids that are made at the same time in the same process, or by the same count in
/// two processes, come of different seeds.
pub proof fn law_seeds_differ(nanos: u128, a: u64, b: u64, p: u32, q: u32)
    ensures
        a != b ==> uuid_seed(nanos, a, p) != uuid_seed(nanos, b, p),
        p != q ==> uuid_seed(nanos, a, p) != uuid_seed(nanos, a, q),
{
    assert(a != b ==> nanos ^ ((a as u128) << 64) ^ ((p as u128) << 96) != nanos ^ ((b as u128)
        << 64) ^ ((p as u128) << 96)) by (bit_vector);
    assert(p != q ==> nanos ^ ((a as u128) << 64) ^ ((p as u128) << 96) != nanos ^ ((a as u128)
        << 64) ^ ((q as u128) << 96)) by (bit_vector);
}

} // verus!
