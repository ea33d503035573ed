//! How turns follow one another: echoes, cancels, idles and ends.

use vstd::prelude::*;

use crate::feed::{input_of, interrupt_json, left_queued, told_usage, InputSpec};
use crate::json::{has_text, law_empty_has_no_members, law_member_of_with, strings_in, JsonSpec};
use crate::turn::{done, first_for, no_usage, waiting, EventSpec, FailureKind, MachineSpec, StopReason, TurnSpec, Usage};

verus! {

broadcast use {law_member_of_with, law_empty_has_no_members};

/// Whether no turn of a queue was settled.
pub open spec fn all_open(q: Seq<TurnSpec>) -> bool {
    forall|i: int| 0 <= i < q.len() ==> !(#[trigger] q[i]).settled
}

/// Whether the turn at `i` is the first of its prompt in a queue.
pub open spec fn is_first_for(q: Seq<TurnSpec>, i: int, uuid: Seq<char>) -> bool {
    &&& 0 <= i < q.len()
    &&& q[i].uuid == uuid
    &&& forall|k: int| 0 <= k < i ==> (#[trigger] q[k]).uuid != uuid
}

proof fn lemma_all_open(q: Seq<TurnSpec>)
    requires
        all_open(q),
    ensures
        waiting(q) == q,
        done(q) == Seq::<TurnSpec>::empty(),
    decreases q.len(),
{
    if q.len() > 0 {
        lemma_all_open(q.drop_last());
        assert(q.drop_last().push(q.last()) =~= q);
    }
}

proof fn lemma_first_for(q: Seq<TurnSpec>, i: int, uuid: Seq<char>)
    requires
        is_first_for(q, i, uuid),
    ensures
        first_for(q, uuid) == i,
    decreases q.len(),
{
    if i > 0 {
        let rest = q.drop_first();
        assert(q[0].uuid != uuid);
        assert forall|k: int| 0 <= k < i - 1 implies (#[trigger] rest[k]).uuid != uuid by {
            assert(rest[k] == q[k + 1]);
        }
        lemma_first_for(rest, i - 1, uuid);
    }
}

proof fn lemma_none_for(q: Seq<TurnSpec>, uuid: Seq<char>)
    requires
        forall|k: int| 0 <= k < q.len() ==> (#[trigger] q[k]).uuid != uuid,
    ensures
        first_for(q, uuid) == q.len(),
    decreases q.len(),
{
    if q.len() > 0 {
        let rest = q.drop_first();
        assert(q[0].uuid != uuid);
        assert forall|k: int| 0 <= k < rest.len() implies (#[trigger] rest[k]).uuid != uuid by {
            assert(rest[k] == q[k + 1]);
        }
        lemma_none_for(rest, uuid);
    }
}

/// The echo of a prompt that waits takes its first turn out of the queue and makes
/// it the one in flight, with nothing counted or cancelled and no late result
/// expected. The other turns keep their order.
pub proof fn law_echo_takes_up_its_prompt(m: MachineSpec, uuid: Seq<char>, i: int)
    requires
        is_first_for(m.queue, i, uuid),
    ensures
        ({
            let (after, events) = m.echo(uuid);
            &&& events.len() > 0
            &&& events.last() == (EventSpec::Activated { uuid })
            &&& after.active == Some(m.queue[i])
            &&& after.queue == m.queue.take(i) + m.queue.skip(i + 1)
            &&& !after.cancelled
            &&& after.usage == no_usage()
            &&& after.orphan_results == 0
            &&& after.orphaned.len() == 0
            &&& after.live == m.live
            &&& after.state == m.state
        }),
{
    lemma_first_for(m.queue, i, uuid);
    assert(m.queue.remove(i) =~= m.queue.take(i) + m.queue.skip(i + 1));
}

/// The echo of a prompt ends the turn in flight before it: as cancelled where it
/// was cancelled, normally where it has no result, each with the tokens used so
/// far. A cancelled turn leaves its idle behind, and that is owed from now on.
pub proof fn law_echo_ends_the_turn_before(m: MachineSpec, uuid: Seq<char>, i: int)
    requires
        is_first_for(m.queue, i, uuid),
        m.active matches Some(t) && !t.settled && (m.cancelled || t.deferred is None),
    ensures
        m.echo(uuid).1 == seq![
            EventSpec::Settled {
                uuid: m.active->0.uuid,
                stop_reason: if m.cancelled {
                    StopReason::Cancelled
                } else {
                    StopReason::EndTurn
                },
                usage: m.usage,
                had_usage: true,
            },
            EventSpec::Activated { uuid },
        ],
        m.echo(uuid).0.owed_idles == (if m.cancelled {
            m.owed_idles + 1
        } else {
            m.owed_idles
        }),
{
    lemma_first_for(m.queue, i, uuid);
}

/// The echo of a prompt that does not wait changes nothing, and one that comes
/// while no turn is in flight ends none.
pub proof fn law_echo_alone(m: MachineSpec, uuid: Seq<char>)
    ensures
        (forall|k: int| 0 <= k < m.queue.len() ==> (#[trigger] m.queue[k]).uuid != uuid) ==> m.echo(
            uuid,
        ) == (m, Seq::<EventSpec>::empty()),
        m.active is None && first_for(m.queue, uuid) < m.queue.len() ==> m.echo(uuid).1 == seq![
            EventSpec::Activated { uuid: m.queue[first_for(m.queue, uuid)].uuid },
        ],
{
    if forall|k: int| 0 <= k < m.queue.len() ==> (#[trigger] m.queue[k]).uuid != uuid {
        lemma_none_for(m.queue, uuid);
    }
}

/// A cancel answers each prompt that waits, in order, as cancelled and without
/// usage, and empties the queue. It remembers which they were, as each of them may
/// still be given a result.
pub proof fn law_cancel_answers_the_queue(m: MachineSpec)
    requires
        all_open(m.queue),
    ensures
        ({
            let (after, events) = m.cancel();
            &&& after.cancelled
            &&& after.queue.len() == 0
            &&& events.len() >= m.queue.len()
            &&& forall|i: int|
                0 <= i < m.queue.len() ==> #[trigger] events[i] == (EventSpec::Settled {
                    uuid: m.queue[i].uuid,
                    stop_reason: StopReason::Cancelled,
                    usage: Usage {
                        input_tokens: 0,
                        output_tokens: 0,
                        cached_read_tokens: 0,
                        cached_write_tokens: 0,
                    },
                    had_usage: false,
                })
            &&& after.orphan_results == m.orphan_results + m.queue.len()
            &&& after.orphaned.len() == m.orphaned.len() + m.queue.len()
            &&& forall|i: int|
                0 <= i < m.queue.len() ==> #[trigger] after.orphaned[m.orphaned.len() + i]
                    == m.queue[i].uuid
            &&& forall|i: int|
                0 <= i < m.orphaned.len() ==> #[trigger] after.orphaned[i] == m.orphaned[i]
        }),
{
    lemma_all_open(m.queue);
}

/// A cancel leaves a turn without a result in flight, to be settled later. One that
/// only awaits its subagents is settled at once, as cancelled, with the tokens that
/// its result recorded; its idle is owed unless the session is idle already.
pub proof fn law_cancel_and_the_turn_in_flight(m: MachineSpec)
    requires
        all_open(m.queue),
        m.active matches Some(t) && !t.settled,
    ensures
        ({
            let (after, events) = m.cancel();
            let t = m.active->0;
            &&& t.deferred is None ==> {
                &&& after.active == m.active
                &&& events.len() == m.queue.len()
                &&& after.owed_idles == m.owed_idles
                &&& after.usage == m.usage
            }
            &&& t.deferred matches Some(d) ==> {
                &&& after.active is None
                &&& events.len() == m.queue.len() + 1
                &&& events.last() == (EventSpec::Settled {
                    uuid: t.uuid,
                    stop_reason: StopReason::Cancelled,
                    usage: d.usage,
                    had_usage: true,
                })
                &&& after.owed_idles == (if has_gone_idle(m) {
                    m.owed_idles
                } else {
                    m.owed_idles + 1
                })
            }
        }),
{
    lemma_all_open(m.queue);
}

/// Whether the session was idle when it was last heard of.
pub open spec fn has_gone_idle(m: MachineSpec) -> bool {
    m.state == "idle"@
}

/// A cancel that is forced settles the turn in flight at once, as cancelled, with
/// the tokens used so far, and expects its result late; the queue is left alone.
/// Without a turn in flight there is nothing to settle or to expect.
pub proof fn law_forced_cancel(m: MachineSpec)
    ensures
        m.force_cancel().0.active is None,
        m.force_cancel().0.queue == m.queue,
        m.active matches Some(t) && !t.settled ==> {
            &&& m.force_cancel().1 == seq![
                EventSpec::Settled {
                    uuid: m.active->0.uuid,
                    stop_reason: StopReason::Cancelled,
                    usage: m.usage,
                    had_usage: true,
                },
            ]
            &&& m.force_cancel().0.orphan_results == m.orphan_results + 1
        },
        m.active is None ==> m.force_cancel() == (m, Seq::<EventSpec>::empty()),
{
}

/// At the end of the stream the turn in flight ends: as cancelled where it was
/// cancelled, normally otherwise, with the tokens used so far. Each prompt that
/// waits fails, in order, as the session has ended.
pub proof fn law_end_of_stream(m: MachineSpec)
    requires
        all_open(m.queue),
        m.active matches Some(t) ==> !t.settled && (m.cancelled || t.deferred is None),
    ensures
        ({
            let (after, events) = m.stream_end();
            let n: int = if m.active is Some {
                1
            } else {
                0
            };
            &&& events.len() == n + m.queue.len()
            &&& m.active matches Some(t) ==> events[0] == (EventSpec::Settled {
                uuid: t.uuid,
                stop_reason: if m.cancelled {
                    StopReason::Cancelled
                } else {
                    StopReason::EndTurn
                },
                usage: m.usage,
                had_usage: true,
            })
            &&& forall|i: int|
                0 <= i < m.queue.len() ==> #[trigger] events[n + i] == (EventSpec::Failed {
                    uuid: m.queue[i].uuid,
                    kind: FailureKind::SessionEnded,
                    message: FailureKind::SessionEnded.message(),
                })
        }),
{
    lemma_all_open(m.queue);
}

/// A failure of everything fails the turn in flight and each prompt that waits, in
/// order, for the same cause and with its message.
pub proof fn law_failure_of_everything(m: MachineSpec, kind: FailureKind)
    requires
        all_open(m.queue),
        m.active matches Some(t) ==> !t.settled && t.deferred is None,
    ensures
        ({
            let (after, events) = m.fail_all(kind);
            let n: int = if m.active is Some {
                1
            } else {
                0
            };
            &&& events.len() == n + m.queue.len()
            &&& m.active matches Some(t) ==> events[0] == (EventSpec::Failed {
                uuid: t.uuid,
                kind,
                message: kind.message(),
            })
            &&& forall|i: int|
                0 <= i < m.queue.len() ==> #[trigger] events[n + i] == (EventSpec::Failed {
                    uuid: m.queue[i].uuid,
                    kind,
                    message: kind.message(),
                })
        }),
{
    lemma_all_open(m.queue);
}

/// The answer to a prompt tells what its turn used, count by count and all together.
/// A turn that never ran is answered without.
pub proof fn law_used_tokens_are_told(usage: Usage)
    requires
        usage.input_tokens + usage.output_tokens + usage.cached_read_tokens
            + usage.cached_write_tokens <= u64::MAX,
    ensures
        told_usage(usage, false) is None,
        told_usage(usage, true) matches Some(told) && {
            &&& told.input_tokens == usage.input_tokens
            &&& told.output_tokens == usage.output_tokens
            &&& told.cached_read_tokens == usage.cached_read_tokens
            &&& told.cached_write_tokens == usage.cached_write_tokens
            &&& told.total_tokens == told.input_tokens + told.output_tokens
                + told.cached_read_tokens + told.cached_write_tokens
        },
{
}

/// A turn is interrupted by a request that says so.
pub proof fn law_interrupt_says_so()
    ensures
        has_text(interrupt_json(), "subtype"@, "interrupt"@),
{
}

/// A prompt is put behind those that wait, and nothing else changes.
pub proof fn law_prompt_waits_its_turn(m: MachineSpec, t: TurnSpec)
    ensures
        m.enqueue(t).queue.len() == m.queue.len() + 1,
        m.enqueue(t).queue.last() == t,
        m.enqueue(t).queue.drop_last() == m.queue,
        m.enqueue(t) == (MachineSpec { queue: m.enqueue(t).queue, ..m }),
{
}

/// A subagent that starts is awaited by the turn in flight, until it ends. A task
/// that is no subagent is awaited by no turn.
pub proof fn law_only_subagents_are_awaited(m: MachineSpec, id: Seq<char>, is_subagent: bool)
    requires
        m.active matches Some(t) && !t.settled && !t.spawned.contains(id),
    ensures
        is_subagent ==> m.task_started(id, true).awaiting(m.task_started(id, true).active->0),
        !m.awaiting(m.active->0) && !is_subagent ==> !m.task_started(id, false).awaiting(
            m.task_started(id, false).active->0,
        ),
        !m.awaiting(m.active->0) ==> !m.task_started(id, is_subagent).task_ended(id).awaiting(
            m.task_started(id, is_subagent).active->0,
        ),
        !is_subagent ==> m.task_started(id, is_subagent).active == m.active,
        m.task_started(id, is_subagent).live == m.live.insert(id, is_subagent),
        m.task_started(id, is_subagent).queue == m.queue,
        m.task_started(id, is_subagent).active->0.uuid == m.active->0.uuid,
{
    let started = m.task_started(id, true);
    if is_subagent {
        assert(started.active->0.spawned.contains(id));
        assert(started.live.contains_key(id) && started.live[id]);
    }
    let n = m.task_started(id, is_subagent);
    let ended = n.task_ended(id);
    if !m.awaiting(m.active->0) && ended.awaiting(n.active->0) {
        let other = choose|other: Seq<char>| #[trigger] n.active->0.spawned.contains(other)
            && ended.live.contains_key(other) && ended.live[other];
        assert(other != id);
        assert(m.active->0.spawned.contains(other));
        assert(m.live.contains_key(other) && m.live[other]);
    }
    if !m.awaiting(m.active->0) && !is_subagent && n.awaiting(n.active->0) {
        let other = choose|other: Seq<char>| #[trigger] n.active->0.spawned.contains(other)
            && n.live.contains_key(other) && n.live[other];
        assert(other != id);
        assert(m.active->0.spawned.contains(other));
        assert(m.live.contains_key(other) && m.live[other]);
    }
}

/// An idle that finds a turn held open uses up one that is owed, whether or not it
/// settles the turn.
pub proof fn law_idle_of_a_held_turn(m: MachineSpec)
    requires
        m.is_held(),
        !m.cancelled,
    ensures
        m.owed_idles > 0 ==> m.idle().0.owed_idles == m.owed_idles - 1,
        m.owed_idles == 0 ==> m.idle().0.owed_idles == 0,
{
}

/// An idle is told to the machine as a state like any other, and takes at most one
/// of the idles that are owed.
pub proof fn law_idle_is_remembered(m: MachineSpec)
    ensures
        has_gone_idle(m.idle().0),
        m.idle().0.queue == m.queue,
        m.idle().0.owed_idles == m.owed_idles || m.idle().0.owed_idles + 1 == m.owed_idles,
{
}

/// A receipt that does not list the prompts still queued changes nothing. Any other
/// uncounts a late result for each remembered prompt that it does not list, and
/// forgets them all.
pub proof fn law_receipt_of_one_prompt(
    m: MachineSpec,
    uuid: Seq<char>,
    still: Seq<Seq<char>>,
)
    requires
        m.orphaned == seq![uuid],
        m.orphan_results > 0,
    ensures
        m.reconcile(None) == m,
        m.reconcile(Some(still)).orphaned.len() == 0,
        m.reconcile(Some(still)).orphan_results == (if still.contains(uuid) {
            m.orphan_results as int
        } else {
            m.orphan_results - 1
        }),
{
    let s = m.orphaned;
    assert(s.last() == uuid);
    assert(s.drop_last() =~= Seq::<Seq<char>>::empty());
    assert(crate::turn::dropped(s.drop_last(), still) == 0);
}

/// The receipt of an interrupt lists what it left in the queue under
/// `response.response.still_queued`.
pub proof fn law_receipt_is_read(
    receipt: JsonSpec,
    outer: JsonSpec,
    inner: JsonSpec,
    list: Seq<JsonSpec>,
)
    requires
        receipt.get("response"@) == Some(outer),
        outer.get("response"@) == Some(inner),
    ensures
        inner.get("still_queued"@) == Some(JsonSpec::Array(list)) ==> left_queued(receipt) == Some(
            strings_in(list),
        ),
        !(inner.get("still_queued"@) matches Some(JsonSpec::Array(_))) ==> left_queued(
            receipt,
        ) is None,
{
}

/// The texts of a list are read in order, and what is no text is passed over.
pub proof fn law_texts_of_a_list(list: Seq<JsonSpec>, value: JsonSpec)
    ensures
        strings_in(Seq::empty()).len() == 0,
        value matches JsonSpec::Str(s) ==> strings_in(list.push(value)) == strings_in(list).push(s),
        !(value is Str) ==> strings_in(list.push(value)) == strings_in(list),
{
    assert(list.push(value).drop_last() =~= list);
}

/// A repeated user message is the echo of the prompt whose id it has; one that is
/// not repeated moves no turn.
pub proof fn law_echo_is_read(frame: JsonSpec, uuid: Seq<char>)
    requires
        has_text(frame, "type"@, "user"@),
        has_text(frame, "uuid"@, uuid),
    ensures
        frame.get("isReplay"@) == Some(JsonSpec::Bool(true)) ==> input_of(frame)
            == InputSpec::Echo(uuid),
        frame.get("isReplay"@) != Some(JsonSpec::Bool(true)) ==> input_of(frame)
            == InputSpec::Nothing,
{
    lemma_frame_words();
}

/// A frame of the type `result` is the result of a turn, whatever else it says.
pub proof fn law_result_is_read(m: MachineSpec, frame: JsonSpec, delivered: bool)
    requires
        has_text(frame, "type"@, "result"@),
    ensures
        m.fed(frame, delivered) == m.result(frame, delivered),
{
    lemma_frame_words();
}

/// A change of the session's state is read as such, and an idle apart from the
/// others.
pub proof fn law_state_is_read(frame: JsonSpec, state: Seq<char>)
    requires
        has_text(frame, "type"@, "system"@),
        has_text(frame, "subtype"@, "session_state_changed"@),
        has_text(frame, "state"@, state),
    ensures
        state == "idle"@ ==> input_of(frame) == InputSpec::Idle,
        state != "idle"@ ==> input_of(frame) == InputSpec::State(state),
{
    lemma_frame_words();
}

/// The start of a task is read with its id, and it is a subagent exactly if its
/// type is named; its notification is read as its end.
pub proof fn law_tasks_are_read(frame: JsonSpec, id: Seq<char>)
    requires
        has_text(frame, "type"@, "system"@),
        has_text(frame, "task_id"@, id),
    ensures
        has_text(frame, "subtype"@, "task_started"@) ==> input_of(frame)
            == (InputSpec::TaskStarted {
            task_id: id,
            is_subagent: frame.get("subagent_type"@) matches Some(JsonSpec::Str(_)),
        }),
        has_text(frame, "subtype"@, "task_notification"@) ==> input_of(frame)
            == (InputSpec::TaskEnded { task_id: id }),
{
    lemma_frame_words();
}

/// What is fed to a machine does to it what its kind says, and any other frame
/// does nothing.
pub proof fn law_frames_are_fed(m: MachineSpec, frame: JsonSpec, delivered: bool, id: Seq<char>)
    ensures
        input_of(frame) == InputSpec::Echo(id) ==> m.fed(frame, delivered) == m.echo(id),
        input_of(frame) == InputSpec::Idle ==> m.fed(frame, delivered) == m.idle(),
        input_of(frame) == InputSpec::State(id) ==> m.fed(frame, delivered) == (
            (MachineSpec { state: id, ..m }),
            Seq::<EventSpec>::empty(),
        ),
        input_of(frame) == (InputSpec::TaskEnded { task_id: id }) ==> m.fed(frame, delivered) == (
            (MachineSpec { live: m.live.remove(id), ..m }),
            Seq::<EventSpec>::empty(),
        ),
        input_of(frame) == InputSpec::Nothing ==> m.fed(frame, delivered) == (
            m,
            Seq::<EventSpec>::empty(),
        ),
        input_of(frame) == (InputSpec::TaskStarted { task_id: id, is_subagent: true }) ==> m.fed(
            frame,
            delivered,
        ) == (m.task_started(id, true), Seq::<EventSpec>::empty()),
        input_of(frame) == (InputSpec::TaskStarted { task_id: id, is_subagent: false }) ==> m.fed(
            frame,
            delivered,
        ) == (m.task_started(id, false), Seq::<EventSpec>::empty()),
{
}

/// Frames of other types move no turn, and neither do other notices of the system.
pub proof fn law_other_frames_move_nothing(frame: JsonSpec)
    requires
        !has_text(frame, "type"@, "user"@),
        !has_text(frame, "type"@, "result"@),
        has_text(frame, "type"@, "system"@) ==> !has_text(frame, "subtype"@,
            "session_state_changed"@)
            && !has_text(frame, "subtype"@, "task_started"@) && !has_text(
            frame,
            "subtype"@,
            "task_notification"@,
        ),
    ensures
        input_of(frame) == InputSpec::Nothing,
{
    lemma_frame_words();
}

/// Tells the words apart, by their lengths and letters.
proof fn lemma_frame_words()
    ensures
        "idle"@.len() == 4 && "idle"@[0] == 'i',
        "result"@.len() == 6 && "result"@[0] == 'r',
        "session_state_changed"@.len() == 21,
        "system"@.len() == 6 && "system"@[0] == 's',
        "task_notification"@.len() == 17,
        "task_started"@.len() == 12,
        "user"@.len() == 4 && "user"@[0] == 'u',
{
    reveal_strlit("idle");
    reveal_strlit("result");
    reveal_strlit("session_state_changed");
    reveal_strlit("system");
    reveal_strlit("task_notification");
    reveal_strlit("task_started");
    reveal_strlit("user");
}

} // verus!
