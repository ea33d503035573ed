//! What holds of scripts and of the recordings that they give.

use vstd::prelude::*;

use crate::frames::{frame_text, line_json, rendered, Direction, FrameSpec};
use crate::json::{has_text, json_parse, json_text, law_empty_has_no_members, law_member_of_with, uint, JsonSpec};
use crate::recorder::{captured, selected, waiting_for, LineSource, PermissionOption, PermissionOptionKind, Phase, RunActionSpec, RecordError, RunEventSpec, RunSpec, Wait};
use crate::script::{script_of, step_of, PermissionPolicy, ScriptSpec, StepSpec};
use crate::strs::decimal;
use vstd::utf8::encode_utf8;

verus! {

broadcast use {law_member_of_with, law_empty_has_no_members};

/// Whether a value has this text under the key, or none and nothing else there.
pub open spec fn may_say(j: JsonSpec, key: Seq<char>, o: Option<Seq<char>>) -> bool {
    match o {
        Some(s) => has_text(j, key, s),
        None => j.get(key) is None || j.get(key) == Some(JsonSpec::Null),
    }
}

/// The calls of a script that take nothing.
pub proof fn law_plain_calls_are_read(j: JsonSpec)
    ensures
        has_text(j, "call"@, "initialize"@) ==> step_of(j) == Some(StepSpec::Initialize),
        has_text(j, "call"@, "session/cancel"@) ==> step_of(j) == Some(StepSpec::Cancel),
{
    lemma_call_words();
}

/// A call that starts a session may name a directory; one that loads a session names
/// it too.
pub proof fn law_session_calls_are_read(
    j: JsonSpec,
    cwd: Option<Seq<char>>,
    session_id: Seq<char>,
)
    requires
        may_say(j, "cwd"@, cwd),
    ensures
        has_text(j, "call"@, "session/new"@) ==> step_of(j) == Some(StepSpec::NewSession { cwd }),
        has_text(j, "call"@, "session/load"@) && has_text(j, "session_id"@, session_id) ==> step_of(
            j,
        ) == Some(StepSpec::LoadSession { session_id, cwd }),
        has_text(j, "call"@, "session/load"@) && j.get("session_id"@) is None ==> step_of(
            j,
        ) is None,
{
    lemma_call_words();
}

/// A prompt has a text, and may be cancelled after so many updates.
pub proof fn law_prompt_call_is_read(j: JsonSpec, text: Seq<char>, n: u64)
    requires
        has_text(j, "call"@, "session/prompt"@),
        n <= usize::MAX,
    ensures
        has_text(j, "text"@, text) && j.get("cancel_after_updates"@) is None ==> step_of(j) == Some(
            StepSpec::Prompt { text, cancel_after_updates: None },
        ),
        has_text(j, "text"@, text) && j.get("cancel_after_updates"@) == Some(uint(n)) ==> step_of(j)
            == Some(StepSpec::Prompt { text, cancel_after_updates: Some(n as usize) }),
        j.get("text"@) is None ==> step_of(j) is None,
{
    lemma_call_words();
}

/// Any other call is none, and neither is what names no call.
pub proof fn law_other_calls_are_refused(j: JsonSpec, call: Seq<char>)
    requires
        j is Object,
    ensures
        has_text(j, "call"@, call) && call != "initialize"@ && call != "session/new"@ && call
            != "session/load"@ && call != "session/prompt"@ && call != "session/cancel"@
            ==> step_of(j) is None,
        j.get("call"@) is None ==> step_of(j) is None,
{
}

/// A call that is written as a list is read as the one that names the same things.
pub proof fn law_listed_call_is_read_alike(
    named: JsonSpec,
    call: Seq<char>,
    text: Seq<char>,
    n: u64,
)
    requires
        has_text(named, "call"@, call),
        n <= usize::MAX,
    ensures
        call == "session/prompt"@ && has_text(named, "text"@, text) && named.get(
            "cancel_after_updates"@,
        ) == Some(uint(n)) ==> step_of(
            JsonSpec::Array(seq![JsonSpec::Str(call), JsonSpec::Str(text), uint(n)]),
        ) == step_of(named),
        call == "session/new"@ && has_text(named, "cwd"@, text) ==> step_of(
            JsonSpec::Array(seq![JsonSpec::Str(call), JsonSpec::Str(text)]),
        ) == step_of(named),
        call == "session/load"@ && has_text(named, "session_id"@, text) && named.get("cwd"@) is None
            ==> step_of(JsonSpec::Array(seq![JsonSpec::Str(call), JsonSpec::Str(text)])) == step_of(
            named,
        ),
        call == "initialize"@ || call == "session/cancel"@ ==> step_of(
            JsonSpec::Array(seq![JsonSpec::Str(call)]),
        ) == step_of(named),
{
    lemma_call_words();
}

/// A script is its steps, in order, each of which has to be one, and how requests
/// for permission are answered: with a yes, if it does not say.
pub proof fn law_script_is_read(
    j: JsonSpec,
    list: Seq<JsonSpec>,
    steps: Seq<StepSpec>,
)
    requires
        j.get("steps"@) == Some(JsonSpec::Array(list)),
        steps.len() == list.len(),
        forall|i: int| 0 <= i < list.len() ==> step_of(#[trigger] list[i]) == Some(steps[i]),
    ensures
        j.get("permission"@) is None || has_text(j, "permission"@, "allow"@) ==> script_of(j)
            == Some(ScriptSpec { permission: PermissionPolicy::Allow, steps }),
        has_text(j, "permission"@, "deny"@) ==> script_of(j) == Some(
            ScriptSpec { permission: PermissionPolicy::Deny, steps },
        ),
        forall|s: Seq<char>|
            s != "allow"@ && s != "deny"@ && #[trigger] has_text(j, "permission"@, s) ==> script_of(
                j,
            ) is None,
{
    lemma_call_words();
    lemma_steps(list, steps);
}

proof fn lemma_steps(list: Seq<JsonSpec>, steps: Seq<StepSpec>)
    requires
        steps.len() == list.len(),
        forall|i: int| 0 <= i < list.len() ==> step_of(#[trigger] list[i]) == Some(steps[i]),
    ensures
        crate::script::steps_of(list) == Some(steps),
    decreases list.len(),
{
    if list.len() > 0 {
        assert(step_of(list[list.len() - 1]) == Some(steps.last()));
        assert forall|i: int|
            0 <= i < list.len() - 1 implies step_of(#[trigger] list.drop_last()[i])
            == Some(steps.drop_last()[i]) by {
            assert(step_of(list[i]) == Some(steps[i]));
        }
        lemma_steps(list.drop_last(), steps.drop_last());
        assert(steps.drop_last().push(steps.last()) =~= steps);
    } else {
        assert(steps =~= Seq::<StepSpec>::empty());
    }
}

/// A script with a step that is none is no script.
pub proof fn law_script_needs_every_step(j: JsonSpec, list: Seq<JsonSpec>, i: int)
    requires
        j.get("steps"@) == Some(JsonSpec::Array(list)),
        0 <= i < list.len(),
        step_of(list[i]) is None,
    ensures
        script_of(j) is None,
{
    lemma_bad_step(list, i);
}

proof fn lemma_bad_step(list: Seq<JsonSpec>, i: int)
    requires
        0 <= i < list.len(),
        step_of(list[i]) is None,
    ensures
        crate::script::steps_of(list) is None,
    decreases list.len(),
{
    if i < list.len() - 1 {
        assert(list.drop_last()[i] == list[i]);
        lemma_bad_step(list.drop_last(), i);
    }
}

/// What goes to the agent is recorded as sent, what comes from it as received; its
/// error output is not recorded, and neither is what is no JSON.
pub proof fn law_lines_have_a_direction(line: Seq<char>, json: JsonSpec)
    requires
        json_parse(encode_utf8(line)) == Some(json),
    ensures
        captured(line, LineSource::Stdin) == Some(FrameSpec { direction: Direction::Send, json }),
        captured(line, LineSource::Stdout) == Some(FrameSpec { direction: Direction::Recv, json }),
        captured(line, LineSource::Stderr) is None,
{
}

/// A line that is no JSON is recorded nowhere.
pub proof fn law_other_lines_are_not_recorded(line: Seq<char>, source: LineSource)
    requires
        json_parse(encode_utf8(line)) is None,
    ensures
        captured(line, source) is None,
{
}

/// A recording holds a line for each frame, in order, which says which way the frame
/// went and holds it as it was.
pub proof fn law_recording_has_a_line_for_each_frame(fs: Seq<FrameSpec>, f: FrameSpec)
    ensures
        rendered(Seq::empty()).len() == 0,
        rendered(fs.push(f)) == rendered(fs) + json_text(line_json(f)).push('\n'),
        line_json(f).get("frame"@) == Some(f.json),
        f.direction == Direction::Send ==> has_text(line_json(f), "direction"@, "send"@),
        f.direction == Direction::Recv ==> has_text(line_json(f), "direction"@, "recv"@),
{
    lemma_call_words();
    assert(fs.push(f).drop_last() =~= fs);
    assert(frame_text(f) == json_text(line_json(f)));
}

/// A script that allows takes the first choice that is offered, whatever it is.
pub proof fn law_allowing_takes_the_first(options: Seq<PermissionOption>)
    ensures
        options.len() > 0 ==> selected(options, PermissionPolicy::Allow) == Some(
            options[0].option_id@,
        ),
        options.len() == 0 ==> selected(options, PermissionPolicy::Allow) is None,
{
}

/// Whether a choice rejects.
pub open spec fn is_rejection(o: PermissionOption) -> bool {
    o.kind == PermissionOptionKind::RejectOnce || o.kind == PermissionOptionKind::RejectAlways
}

/// A script that denies takes the first choice that rejects, and none where there is
/// no such choice.
pub proof fn law_denying_takes_a_rejection(options: Seq<PermissionOption>, i: int)
    ensures
        0 <= i < options.len() && is_rejection(options[i]) && (forall|k: int|
            0 <= k < i ==> !is_rejection(#[trigger] options[k])) ==> selected(
            options,
            PermissionPolicy::Deny,
        ) == Some(options[i].option_id@),
        (forall|k: int| 0 <= k < options.len() ==> !is_rejection(#[trigger] options[k]))
            ==> selected(options, PermissionPolicy::Deny) is None,
{
    if 0 <= i < options.len() && is_rejection(options[i]) && (forall|k: int|
        0 <= k < i ==> !is_rejection(#[trigger] options[k])) {
        lemma_first_rejecting(options, i);
    }
    if forall|k: int| 0 <= k < options.len() ==> !is_rejection(#[trigger] options[k]) {
        lemma_first_rejecting(options, options.len() as int);
    }
}

proof fn lemma_first_rejecting(options: Seq<PermissionOption>, i: int)
    requires
        0 <= i <= options.len(),
        i < options.len() ==> is_rejection(options[i]),
        forall|k: int| 0 <= k < i ==> !is_rejection(#[trigger] options[k]),
    ensures
        crate::recorder::first_rejecting(options) == i,
    decreases options.len(),
{
    if i > 0 {
        assert(!is_rejection(options[0]));
        let rest = options.skip(1);
        assert forall|k: int| 0 <= k < i - 1 implies !is_rejection(#[trigger] rest[k]) by {
            assert(rest[k] == options[k + 1]);
        }
        lemma_first_rejecting(rest, i - 1);
    }
}

/// Whether the step of a script is this one.
pub open spec fn is_at(run: RunSpec, step: StepSpec) -> bool {
    run.at < run.steps.len() && run.steps[run.at as int] == step
}

/// A session is started in the directory that its step names, else in the one that
/// the recording runs in. Once it is there, and after a pause, the script goes on
/// with it.
pub proof fn law_session_step_is_carried_out(
    run: RunSpec,
    cwd: Option<Seq<char>>,
    session_id: Seq<char>,
)
    requires
        is_at(run, StepSpec::NewSession { cwd }),
    ensures
        ({
            let (asked, call) = run.begin();
            let (there, pause) = asked.next(RunEventSpec::Created { session_id });
            let (after, _) = there.next(RunEventSpec::Paused);
            &&& cwd matches Some(dir) ==> call == (RunActionSpec::NewSession { cwd: dir })
            &&& cwd is None ==> call == (RunActionSpec::NewSession { cwd: run.here })
            &&& pause == RunActionSpec::Settle
            &&& there.session == Some(session_id)
            &&& after.session == Some(session_id)
            &&& after.at == run.at + 1
        }),
{
}

/// A session is loaded by its id, likewise.
pub proof fn law_load_step_is_carried_out(
    run: RunSpec,
    cwd: Option<Seq<char>>,
    session_id: Seq<char>,
)
    requires
        is_at(run, StepSpec::LoadSession { session_id, cwd }),
    ensures
        ({
            let (asked, call) = run.begin();
            let (there, pause) = asked.next(RunEventSpec::Answered);
            let (after, _) = there.next(RunEventSpec::Paused);
            &&& cwd matches Some(dir) ==> call == (RunActionSpec::LoadSession {
                session_id,
                cwd: dir,
            })
            &&& cwd is None ==> call == (RunActionSpec::LoadSession { session_id, cwd: run.here })
            &&& pause == RunActionSpec::Settle
            &&& after.session == Some(session_id)
            &&& after.at == run.at + 1
        }),
{
}

/// A prompt goes to the session that is there, with its text; then its answer is
/// waited for.
pub proof fn law_prompt_step_is_carried_out(
    run: RunSpec,
    text: Seq<char>,
    session_id: Seq<char>,
    updates: usize,
)
    requires
        is_at(run, StepSpec::Prompt { text, cancel_after_updates: None }),
        run.session == Some(session_id),
    ensures
        ({
            let (asked, call) = run.begin();
            let (sent, wait) = asked.next(RunEventSpec::Sent { updates });
            let (after, _) = sent.next(RunEventSpec::Answered);
            &&& call == (RunActionSpec::Prompt { session_id, text })
            &&& wait == RunActionSpec::AwaitAnswer
            &&& after.at == run.at + 1
        }),
{
}

/// A prompt that is to be cancelled is so after as many further updates as its step
/// says, and its answer is waited for all the same. Where they do not come in time,
/// the run fails and says how many were awaited.
pub proof fn law_cancelled_prompt_is_carried_out(
    run: RunSpec,
    text: Seq<char>,
    n: usize,
    session_id: Seq<char>,
    updates: usize,
    later: usize,
)
    requires
        is_at(run, StepSpec::Prompt { text, cancel_after_updates: Some(n) }),
        run.session == Some(session_id),
        updates + n <= usize::MAX,
    ensures
        ({
            let (asked, call) = run.begin();
            let (waiting, wait) = asked.next(RunEventSpec::Sent { updates });
            let (cancelling, cancel) = waiting.next(RunEventSpec::Reached);
            let (cancelled, answer) = cancelling.next(RunEventSpec::Sent { updates: later });
            let (after, _) = cancelled.next(RunEventSpec::Answered);
            let (failed, failure) = waiting.next(RunEventSpec::TimedOut);
            &&& call == (RunActionSpec::Prompt { session_id, text })
            &&& wait == (RunActionSpec::WaitUpdates { target: (updates + n) as usize })
            &&& cancel == (RunActionSpec::Cancel { session_id })
            &&& answer == RunActionSpec::AwaitAnswer
            &&& after.at == run.at + 1
            &&& failed.phase == Phase::Over
            &&& failure matches RunActionSpec::Fail(e) && e.code == -32603 && e.message
                == "Internal error"@ && e.data == Some(
                JsonSpec::Str(
                    "timed out waiting for "@ + decimal(n as nat) + " updates before cancel"@,
                ),
            )
        }),
{
}

/// Whatever fails ends the run, with the error that it failed with.
pub proof fn law_failure_ends_the_run(run: RunSpec, e: crate::agent::RpcSpec)
    ensures
        run.next(RunEventSpec::Failed(e)).1 == RunActionSpec::Fail(e),
        run.next(RunEventSpec::Failed(e)).0.phase == Phase::Over,
{
}

/// The other steps of a script.
pub proof fn law_plain_steps_are_carried_out(
    run: RunSpec,
    session_id: Seq<char>,
    updates: usize,
)
    requires
        run.session == Some(session_id),
    ensures
        is_at(run, StepSpec::Initialize) ==> run.begin().1 == RunActionSpec::Initialize
            && run.begin().0.next(RunEventSpec::Answered).0.at == run.at + 1,
        is_at(run, StepSpec::Cancel) ==> run.begin().1 == (RunActionSpec::Cancel { session_id })
            && run.begin().0.next(RunEventSpec::Sent { updates }).0.at == run.at + 1,
        run.at >= run.steps.len() ==> run.begin().1 == RunActionSpec::Done,
{
}

/// Nothing can be prompted or cancelled before a session is there.
pub proof fn law_prompt_needs_a_session(
    run: RunSpec,
    text: Seq<char>,
    count: Option<usize>,
)
    requires
        run.session is None,
        is_at(run, StepSpec::Prompt { text, cancel_after_updates: count }) || is_at(
            run,
            StepSpec::Cancel,
        ),
    ensures
        run.begin().1 matches RunActionSpec::Fail(e) && e.code == -32602 && {
            &&& is_at(run, StepSpec::Cancel) ==> e.data == Some(
                JsonSpec::Str("session/cancel before any session/new"@),
            )
            &&& !is_at(run, StepSpec::Cancel) ==> e.data == Some(
                JsonSpec::Str("session/prompt before any session/new"@),
            )
        },
        run.begin().0.phase == Phase::Over,
{
}

/// What a recording that failed says.
pub proof fn law_failed_recordings_are_worded(why: String)
    ensures
        RecordError::AgentCommand(why).words() == "failed to parse agent command: "@ + why@,
        RecordError::Protocol(why).words() == "ACP protocol error: "@ + why@,
{
}

/// Updates are waited for until they came or the time is up, and no longer: the time
/// is given up on only if they did not come.
pub proof fn law_updates_are_waited_for(count: usize, target: usize, now: u64, deadline: u64)
    ensures
        waiting_for(count, target, now, deadline) == Wait::Reached <==> target <= count,
        waiting_for(count, target, now, deadline) == Wait::GaveUp <==> count < target && deadline
            <= now,
        waiting_for(count, target, now, deadline) == Wait::Again <==> count < target && now
            < deadline,
{
}

/// Tells the words apart, by their lengths and letters.
proof fn lemma_call_words()
    ensures
        "allow"@.len() == 5 && "allow"@[0] == 'a',
        "deny"@.len() == 4,
        "direction"@.len() == 9,
        "frame"@.len() == 5 && "frame"@[0] == 'f',
        "initialize"@.len() == 10,
        "session/cancel"@.len() == 14 && "session/cancel"@[8] == 'c',
        "session/load"@.len() == 12,
        "session/new"@.len() == 11,
        "session/prompt"@.len() == 14 && "session/prompt"@[8] == 'p',
{
    reveal_strlit("allow");
    reveal_strlit("deny");
    reveal_strlit("direction");
    reveal_strlit("frame");
    reveal_strlit("initialize");
    reveal_strlit("session/cancel");
    reveal_strlit("session/load");
    reveal_strlit("session/new");
    reveal_strlit("session/prompt");
}

} // verus!
