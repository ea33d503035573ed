//! What holds of transcripts and of the children that are played back from them.

use vstd::prelude::*;

use crate::json::{has_text, json_read, json_text, wrong_type, law_empty_has_no_members, law_member_of_with, lookup, uint, JsonSpec, NumberSpec};
use crate::replay::{initializes, output_of, start_record, OutputSpec, ReplayErrorSpec, ReplaySpec};
use crate::strs::{behind, decimal, split_parts, trimmed};
use crate::transcript::{field, filled, first_bad, holds, line_of, step_fault, step_of, transcript_of, LineSpec, StepSpec, TranscriptError};
use vstd::utf8::encode_utf8;

verus! {

broadcast use {law_member_of_with, law_empty_has_no_members};

/// What is expected of plain values: a text, a truth value and a number have to be
/// the same, and a value of another kind never is.
pub proof fn law_plain_values_have_to_agree(expect: JsonSpec, frame: JsonSpec)
    ensures
        expect is Str || expect is Bool || expect is Null ==> (holds(expect, frame) <==> expect
            == frame),
        expect matches JsonSpec::Number(NumberSpec::Pos(n)) ==> (holds(expect, frame) <==> expect
            == frame),
        expect is Object && !(frame is Object) ==> !holds(expect, frame),
        expect is Array && !(frame is Array) ==> !holds(expect, frame),
        expect is Number && !(frame is Number) ==> !holds(expect, frame),
{
}

/// A frame may have more members than are expected. It has to have each that is, and
/// that has to hold what is expected of it.
pub proof fn law_expected_members_are_there(
    expect: Seq<(Seq<char>, JsonSpec)>,
    key: Seq<char>,
    value: JsonSpec,
    frame: JsonSpec,
)
    requires
        frame is Object,
    ensures
        holds(JsonSpec::Object(Seq::empty()), frame),
        holds(JsonSpec::Object(expect.push((key, value))), frame) <==> holds(
            JsonSpec::Object(expect),
            frame,
        ) && frame.get(key) is Some && holds(value, frame.get(key)->0),
{
    let f = frame->Object_0;
    let more = expect.push((key, value));
    if holds(JsonSpec::Object(more), frame) {
        assert(more[expect.len() as int] == (key, value));
        assert forall|i: int| 0 <= i < expect.len() implies match lookup(f,
            (#[trigger] expect[i]).0) {
            Some(v) => holds(expect[i].1, v),
            None => false,
        } by {
            assert(more[i] == expect[i]);
        }
    }
    if holds(JsonSpec::Object(expect), frame) && frame.get(key) is Some && holds(
        value,
        frame.get(key)->0,
    ) {
        assert forall|i: int| 0 <= i < more.len() implies match lookup(f, (#[trigger] more[i]).0) {
            Some(v) => holds(more[i].1, v),
            None => false,
        } by {
            if i < expect.len() {
                assert(more[i] == expect[i]);
            }
        }
    }
}

/// A list may be longer than is expected, not shorter; what is expected holds place
/// by place.
pub proof fn law_expected_items_are_there(
    expect: Seq<JsonSpec>,
    value: JsonSpec,
    frame: Seq<JsonSpec>,
)
    ensures
        holds(JsonSpec::Array(Seq::empty()), JsonSpec::Array(frame)),
        holds(JsonSpec::Array(expect.push(value)), JsonSpec::Array(frame)) <==> holds(
            JsonSpec::Array(expect),
            JsonSpec::Array(frame),
        ) && expect.len() < frame.len() && holds(value, frame[expect.len() as int]),
{
    let more = expect.push(value);
    if holds(JsonSpec::Array(more), JsonSpec::Array(frame)) {
        assert(more[expect.len() as int] == value);
        assert forall|i: int| 0 <= i < expect.len() implies holds(#[trigger] expect[i],
            frame[i]) by {
            assert(more[i] == expect[i]);
        }
    }
    if holds(JsonSpec::Array(expect), JsonSpec::Array(frame)) && expect.len() < frame.len()
        && holds(value, frame[expect.len() as int]) {
        assert forall|i: int| 0 <= i < more.len() implies holds(#[trigger] more[i], frame[i]) by {
            if i < expect.len() {
                assert(more[i] == expect[i]);
            }
        }
    }
}

/// A path leads from member to member, at its dots; where one is missing it leads to
/// nothing.
pub proof fn law_path_leads_to_a_member(frame: JsonSpec, key: Seq<char>, rest: Seq<char>)
    requires
        forall|i: int| 0 <= i < key.len() ==> key[i] != '.',
    ensures
        frame.get(key) matches Some(v) ==> field(frame, key) == v,
        frame.get(key) is None ==> field(frame, key) == JsonSpec::Null,
        frame.get(key) matches Some(v) ==> field(frame, key.push('.') + rest) == field(v, rest),
        frame.get(key) is None ==> field(frame, key.push('.') + rest) == JsonSpec::Null,
{
    crate::strs::lemma_index_of_char(key, '.', key.len() as int);
    let one = split_parts(key, '.');
    assert(one == seq![key]);
    assert(one.skip(1) =~= Seq::<Seq<char>>::empty());
    if let Some(v) = frame.get(key) {
        assert(crate::transcript::field_at(v, one.skip(1)) == v);
    }
    let s = key.push('.') + rest;
    crate::strs::lemma_index_of_char(s, '.', key.len() as int);
    assert(s.take(key.len() as int) =~= key);
    assert(s.skip(key.len() as int + 1) =~= rest);
    let parts = split_parts(s, '.');
    assert(parts == seq![key] + split_parts(rest, '.'));
    assert(parts[0] == key);
    assert(parts.skip(1) =~= split_parts(rest, '.'));
}

/// A mark in an answer is filled in from the frame that it answers: the id of the
/// request, or what a path leads to. Any other text stays.
pub proof fn law_marks_are_filled_in(matched: JsonSpec, path: Seq<char>, text: Seq<char>)
    ensures
        matched.get("request_id"@) matches Some(id) ==> filled(JsonSpec::Str("$REQ"@), matched)
            == id,
        filled(JsonSpec::Str("$MATCH."@ + path), matched) == field(matched, path),
        text != "$REQ"@ && behind(text, "$MATCH."@) is None ==> filled(JsonSpec::Str(text), matched)
            == JsonSpec::Str(text),
{
    reveal_strlit("request_id");
    reveal_strlit("$REQ");
    reveal_strlit("$MATCH.");
    law_path_leads_to_a_member(matched, "request_id"@, Seq::empty());
    let s = "$MATCH."@ + path;
    assert(s.take(7) =~= "$MATCH."@);
    assert(s.skip(7) =~= path);
    assert(s != "$REQ"@) by {
        assert(s.len() >= 7);
    }
}

/// Marks are filled in at any depth of an answer, and nothing else changes: a list
/// keeps its length and an object its keys, in order.
pub proof fn law_marks_are_filled_in_everywhere(
    list: Seq<JsonSpec>,
    object: Seq<(Seq<char>, JsonSpec)>,
    matched: JsonSpec,
    i: int,
)
    ensures
        0 <= i < list.len() ==> (filled(JsonSpec::Array(list), matched) matches JsonSpec::Array(a)
            && a.len() == list.len() && a[i] == filled(list[i], matched)),
        0 <= i < object.len() ==> (filled(JsonSpec::Object(object),
            matched) matches JsonSpec::Object(
            m,
        ) && m.len() == object.len() && m[i].0 == object[i].0 && m[i].1 == filled(
            object[i].1,
            matched,
        )),
{
}

/// A step of a transcript is what is expected, and what follows: the answers, whether
/// a keep-alive comes behind them, and whether the playback ends. What is left out
/// does not follow.
pub proof fn law_step_is_read(
    j: JsonSpec,
    expect: JsonSpec,
    emit: Seq<JsonSpec>,
    keep_alive: bool,
    exit: bool,
)
    requires
        j.get("expect"@) == Some(expect),
        j.get("emit"@) == Some(JsonSpec::Array(emit)) || (j.get("emit"@) is None && emit
            == Seq::<JsonSpec>::empty()),
        j.get("keep_alive"@) == Some(JsonSpec::Bool(keep_alive)) || (j.get("keep_alive"@) is None
            && !keep_alive),
        j.get("exit"@) == Some(JsonSpec::Bool(exit)) || (j.get("exit"@) is None && !exit),
    ensures
        step_of(j) == Some(StepSpec { expect, emit, keep_alive, exit }),
        step_of(
            JsonSpec::Array(
                seq![
                    expect,
                    JsonSpec::Array(emit),
                    JsonSpec::Bool(keep_alive),
                    JsonSpec::Bool(exit),
                ],
            ),
        ) == step_of(j),
{
}

/// What expects nothing is no step, and neither is what answers with anything but a
/// list.
pub proof fn law_what_is_no_step(j: JsonSpec)
    requires
        j is Object,
    ensures
        j.get("expect"@) is None ==> step_of(j) is None,
        j.get("emit"@) is Some && !(j.get("emit"@)->0 is Array) ==> step_of(j) is None,
{
}

/// A line of a transcript sets how often a keep-alive is sent, or is a step; a blank
/// one is passed over, and any other is bad.
pub proof fn law_line_is_read(line: Seq<char>, j: JsonSpec, ms: u64)
    ensures
        trimmed(line).len() == 0 ==> line_of(line) == LineSpec::Blank,
        trimmed(line).len() > 0 && json_read(encode_utf8(trimmed(line))) == Ok::<
            JsonSpec,
            Seq<char>,
        >(j) ==> {
            &&& j.get("keep_alive_every_ms"@) == Some(uint(ms)) ==> line_of(line)
                == LineSpec::Interval(ms)
            &&& j.get("keep_alive_every_ms"@) is None && step_of(j) is Some ==> line_of(line)
                == LineSpec::Step(step_of(j)->0)
            &&& j.get("keep_alive_every_ms"@) is None && step_of(j) is None ==> line_of(
                line,
            ) is Bad
        },
        trimmed(line).len() > 0 && json_read(encode_utf8(trimmed(line))) is Err ==> line_of(line)
            == LineSpec::Bad(json_read(encode_utf8(trimmed(line)))->Err_0),
{
}

/// A transcript is read line by line: the steps in order, and the last interval that
/// is set.
pub proof fn law_transcript_is_read(lines: Seq<Seq<char>>, line: Seq<char>)
    ensures
        transcript_of(Seq::empty()).steps.len() == 0,
        transcript_of(Seq::empty()).keep_alive_every_ms is None,
        ({
            let before = transcript_of(lines);
            let after = transcript_of(lines.push(line));
            &&& line_of(line) matches LineSpec::Step(s) ==> after.steps == before.steps.push(s)
                && after.keep_alive_every_ms == before.keep_alive_every_ms
            &&& line_of(line) matches LineSpec::Interval(ms) ==> after.steps == before.steps
                && after.keep_alive_every_ms == Some(ms)
            &&& line_of(line) is Blank ==> after == before
        }),
{
    assert(lines.push(line).drop_last() =~= lines);
}

/// Of several bad lines the first is told.
pub proof fn law_first_bad_line_is_told(lines: Seq<Seq<char>>, i: int)
    requires
        0 <= i <= lines.len(),
        forall|k: int| 0 <= k < i ==> !(line_of(#[trigger] lines[k]) is Bad),
        i < lines.len() ==> line_of(lines[i]) is Bad,
    ensures
        first_bad(lines) == i,
    decreases lines.len(),
{
    if lines.len() > 0 {
        let before = lines.drop_last();
        assert(lines.last() == lines[lines.len() - 1]);
        if i < lines.len() - 1 {
            assert(before[i] == lines[i]);
            law_first_bad_line_is_told(before, i);
        } else {
            assert forall|k: int| 0 <= k < before.len() implies !(line_of(
                #[trigger] before[k],
            ) is Bad) by {
                assert(before[k] == lines[k]);
            }
            law_first_bad_line_is_told(before, before.len() as int);
        }
    }
}

/// A frame that holds what the step expects is answered as the step says, and the
/// next step is up; the frame is handed out if it is the first that initializes.
pub proof fn law_expected_frame_is_answered(
    s: ReplaySpec,
    steps: Seq<StepSpec>,
    line: Seq<char>,
    frame: JsonSpec,
)
    requires
        s.at < steps.len(),
        trimmed(line).len() > 0,
        json_read(encode_utf8(trimmed(line))) == Ok::<JsonSpec, Seq<char>>(frame),
        holds(steps[s.at as int].expect, frame),
    ensures
        s.line(steps, line) matches Ok(a) && {
            let step = steps[s.at as int];
            &&& a.next.at == s.at + 1
            &&& a.next.over == step.exit
            &&& a.next.initialized == (s.initialized || initializes(frame))
            &&& a.init == (if initializes(frame) && !s.initialized {
                Some(frame)
            } else {
                None
            })
            &&& a.outputs.len() == step.emit.len() + (if step.keep_alive {
                1nat
            } else {
                0nat
            })
            &&& forall|i: int|
                0 <= i < step.emit.len() ==> #[trigger] a.outputs[i] == output_of(
                    step.emit[i],
                    frame,
                )
            &&& step.keep_alive ==> a.outputs.last() == OutputSpec::Line(
                "{\"type\":\"keep_alive\"}\n"@,
            )
        },
{
}

/// A frame that does not hold it ends the playback, and both are told; so does a line
/// that is no frame.
pub proof fn law_unexpected_frame_is_refused(
    s: ReplaySpec,
    steps: Seq<StepSpec>,
    line: Seq<char>,
    frame: JsonSpec,
    why: Seq<char>,
)
    requires
        s.at < steps.len(),
        trimmed(line).len() > 0,
    ensures
        json_read(encode_utf8(trimmed(line))) == Ok::<JsonSpec, Seq<char>>(frame) && !holds(
            steps[s.at as int].expect,
            frame,
        ) ==> (s.line(steps, line) matches Err(e) && e == (ReplayErrorSpec::Mismatch {
            expected: json_text(steps[s.at as int].expect),
            actual: trimmed(line),
        })),
        json_read(encode_utf8(trimmed(line))) == Err::<JsonSpec, Seq<char>>(why) ==> (s.line(
            steps,
            line,
        ) matches Err(e) && e == (ReplayErrorSpec::BadFrame { frame: trimmed(line), source: why })),
{
}

/// A blank line, and whatever comes behind the last step, is passed over.
pub proof fn law_blank_lines_are_passed_over(s: ReplaySpec, steps: Seq<StepSpec>, line: Seq<char>)
    requires
        s.at >= steps.len() || trimmed(line).len() == 0,
    ensures
        s.line(steps, line) matches Ok(a) && a.next == s && a.outputs.len() == 0 && a.init is None,
{
}

/// An input that ends before the last step is told to have done so, with how many
/// steps were left.
pub proof fn law_early_end_is_told(s: ReplaySpec, steps: Seq<StepSpec>)
    ensures
        s.at < steps.len() ==> s.end(steps) == Err::<nat, ReplayErrorSpec>(
            ReplayErrorSpec::Eof { remaining: (steps.len() - s.at) as nat },
        ),
        s.at >= steps.len() ==> s.end(steps) == Ok::<nat, ReplayErrorSpec>(s.at),
{
}

/// An answer is a pause of so many milliseconds, or a line: the answer with its marks
/// filled in, and a newline.
pub proof fn law_answers_are_put_out(emit: JsonSpec, matched: JsonSpec, ms: u64)
    ensures
        emit.get("sleep_ms"@) == Some(uint(ms)) ==> output_of(emit, matched) == OutputSpec::Sleep(
            ms,
        ),
        emit.get("sleep_ms"@) is None ==> output_of(emit, matched) == OutputSpec::Line(
            json_text(filled(emit, matched)).push('\n'),
        ),
{
}

/// A frame initializes exactly if it is a control request that asks for it.
pub proof fn law_initializing_frames(frame: JsonSpec, request: JsonSpec)
    requires
        frame.get("request"@) == Some(request),
    ensures
        initializes(frame) <==> has_text(frame, "type"@, "control_request"@) && has_text(
            request,
            "subtype"@,
            "initialize"@,
        ),
{
    reveal_strlit("initialize");
    reveal_strlit("control_request");
    assert("initialize"@.len() == 10 && "control_request"@.len() == 15);
}

/// What is noted of the start of a played child: its arguments in order, the marks of
/// its environment, without what changes from run to run, and whether options for
/// the runtime were left.
pub proof fn law_start_is_noted(
    argv: Seq<Seq<char>>,
    entrypoint: bool,
    state_events: Option<Seq<char>>,
    node_options: bool,
)
    ensures
        ({
            let r = start_record(argv, entrypoint, state_events, node_options);
            &&& r.get("argv"@) matches Some(JsonSpec::Array(a)) && a.len() == argv.len() && forall|
                i: int,
            |
                0 <= i < a.len() ==> #[trigger] a[i] == JsonSpec::Str(argv[i])
            &&& r.get("node_options_present"@) == Some(JsonSpec::Bool(node_options))
            &&& r.get("env"@) matches Some(env) && {
                &&& entrypoint ==> has_text(env, "CLAUDE_CODE_ENTRYPOINT"@, "$ENTRYPOINT"@)
                &&& !entrypoint ==> env.get("CLAUDE_CODE_ENTRYPOINT"@) is None
                &&& state_events matches Some(v) ==> has_text(
                    env,
                    "CLAUDE_CODE_EMIT_SESSION_STATE_EVENTS"@,
                    v,
                )
                &&& state_events is None
                    ==> env.get("CLAUDE_CODE_EMIT_SESSION_STATE_EVENTS"@) is None
            }
        }),
{
    lemma_start_words();
}

/// What a failed playback says.
pub proof fn law_failures_are_worded(a: Seq<char>, b: Seq<char>, n: nat)
    ensures
        (ReplayErrorSpec::Mismatch { expected: a, actual: b }).words()
            == "stdin frame did not match transcript step:\n  expected subset: "@ + a
            + "\n  actual frame:      "@ + b,
        (ReplayErrorSpec::Eof { remaining: n }).words() == "stdin reached EOF with "@ + decimal(n)
            + " transcript steps remaining"@,
        ReplayErrorSpec::Io(a).words() == "I/O error: "@ + a,
        (ReplayErrorSpec::BadFrame { frame: a, source: b }).words()
            == "failed to parse stdin line `"@
            + a + "`: "@ + b,
{
}

/// What a transcript that could not be read says.
pub proof fn law_bad_transcripts_are_worded(line: usize, why: String)
    ensures
        (TranscriptError::Parse { line, source: why }).words()
            == "failed to parse transcript line "@
            + decimal(line as nat) + ": "@ + why@,
        TranscriptError::Io(why).words() == "failed to read transcript: "@ + why@,
        TranscriptError::ReadScript(why).words() == "failed to read script path: "@ + why@,
{
}

/// What is wrong with a value that is no step: that it expects nothing, or the first
/// member that is of the wrong kind.
pub proof fn law_faults_are_told(expect: JsonSpec, emit: JsonSpec, flag: JsonSpec)
    ensures
        step_fault(JsonSpec::Object(Seq::empty())) == "missing field `expect`"@,
        !(emit is Array) ==> step_fault(
            JsonSpec::Object(seq![("expect"@, expect), ("emit"@, emit)]),
        ) == wrong_type(emit, "a sequence"@),
        !(flag is Bool) ==> step_fault(
            JsonSpec::Object(seq![("expect"@, expect), ("keep_alive"@, flag)]),
        ) == wrong_type(flag, "a boolean"@) && step_fault(
            JsonSpec::Object(seq![("expect"@, expect), ("exit"@, flag)]),
        ) == wrong_type(flag, "a boolean"@),
        step_fault(JsonSpec::Array(Seq::empty()))
            == "invalid length 0, expected struct Step with 4 elements"@,
        step_fault(JsonSpec::Null) == wrong_type(JsonSpec::Null, "struct Step"@),
{
    lemma_step_words();
    let none = Seq::<(Seq<char>, JsonSpec)>::empty();
    assert(crate::transcript::first_fault(none) is None);
    let a = seq![("expect"@, expect), ("emit"@, emit)];
    assert(a.drop_first() =~= seq![("emit"@, emit)]);
    assert(crate::transcript::first_fault(a) == crate::transcript::first_fault(a.drop_first()));
    let b = seq![("expect"@, expect), ("keep_alive"@, flag)];
    assert(b.drop_first() =~= seq![("keep_alive"@, flag)]);
    assert(crate::transcript::first_fault(b) == crate::transcript::first_fault(b.drop_first()));
    let c = seq![("expect"@, expect), ("exit"@, flag)];
    assert(c.drop_first() =~= seq![("exit"@, flag)]);
    assert(crate::transcript::first_fault(c) == crate::transcript::first_fault(c.drop_first()));
    let names = crate::transcript::named_fields(Seq::empty());
    assert(names =~= none);
}

/// A list with more than the four parts of a step is told by its length.
pub proof fn law_long_list_is_no_step(list: Seq<JsonSpec>)
    requires
        list.len() > 4,
        list[1] is Array,
        list[2] is Bool,
        list[3] is Bool,
    ensures
        step_of(JsonSpec::Array(list)) is None,
        step_fault(JsonSpec::Array(list)) == "invalid length "@ + decimal(list.len())
            + ", expected fewer elements in array"@,
{
    lemma_step_words();
    reveal_with_fuel(crate::transcript::first_fault, 5);
    let f = crate::transcript::named_fields(list);
    assert(f.len() == 4);
}

/// A value of the wrong kind is told by what it is and what it should have been.
pub proof fn law_wrong_kinds_are_told(wanted: Seq<char>, list: Seq<JsonSpec>)
    ensures
        wrong_type(JsonSpec::Null, wanted) == "invalid type: "@ + "null"@ + ", expected "@ + wanted,
        wrong_type(JsonSpec::Bool(true), wanted) == "invalid type: "@ + "boolean `true`"@
            + ", expected "@ + wanted,
        wrong_type(JsonSpec::Bool(false), wanted) == "invalid type: "@ + "boolean `false`"@
            + ", expected "@ + wanted,
        wrong_type(JsonSpec::Array(list), wanted) == "invalid type: "@ + "sequence"@
            + ", expected "@ + wanted,
        wrong_type(JsonSpec::Object(Seq::empty()), wanted) == "invalid type: "@ + "map"@
            + ", expected "@ + wanted,
{
}

/// Tells the words apart, by their lengths and letters.
proof fn lemma_start_words()
    ensures
        "CLAUDE_CODE_EMIT_SESSION_STATE_EVENTS"@.len() == 37,
        "CLAUDE_CODE_ENTRYPOINT"@.len() == 22,
        "argv"@.len() == 4,
        "env"@.len() == 3,
        "node_options_present"@.len() == 20,
{
    reveal_strlit("CLAUDE_CODE_EMIT_SESSION_STATE_EVENTS");
    reveal_strlit("CLAUDE_CODE_ENTRYPOINT");
    reveal_strlit("argv");
    reveal_strlit("env");
    reveal_strlit("node_options_present");
}

/// Tells the words apart, by their lengths and letters.
proof fn lemma_step_words()
    ensures
        "emit"@.len() == 4 && "emit"@[1] == 'm',
        "exit"@.len() == 4 && "exit"@[1] == 'x',
        "expect"@.len() == 6,
        "keep_alive"@.len() == 10,
{
    reveal_strlit("emit");
    reveal_strlit("exit");
    reveal_strlit("expect");
    reveal_strlit("keep_alive");
}

} // verus!
