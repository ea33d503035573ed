//! What holds of every turn machine.

use vstd::prelude::*;

use crate::json::JsonSpec;
use crate::turn::{done, dropped, final_text, first_for, first_waiting, is_autonomous, no_usage, rejected, swept, verdict, waiting, Advance, DeferredSettle, EventSpec, FailureKind, MachineSpec, StopReason, TURN_NO_RESULT_MESSAGE, TurnSpec, Usage, Verdict};

verus! {

/// Whatever can happen to a machine.
pub enum Input {
    Enqueue(TurnSpec),
    Cancel,
    ForceCancel,
    Reconcile(Option<Seq<Seq<char>>>),
    TaskStarted(Seq<char>, bool),
    TaskEnded(Seq<char>),
    Echo(Seq<char>),
    SessionState(Seq<char>),
    Idle,
    StreamEnd,
    FailAll(FailureKind),
    Result(JsonSpec, bool),
}

/// The machine after one input, and the events that it brought.
pub open spec fn step(m: MachineSpec, input: Input) -> Advance {
    match input {
        Input::Enqueue(t) => (m.enqueue(t), Seq::empty()),
        Input::Cancel => m.cancel(),
        Input::ForceCancel => m.force_cancel(),
        Input::Reconcile(s) => (m.reconcile(s), Seq::empty()),
        Input::TaskStarted(id, sub) => (m.task_started(id, sub), Seq::empty()),
        Input::TaskEnded(id) => (m.task_ended(id), Seq::empty()),
        Input::Echo(uuid) => m.echo(uuid),
        Input::SessionState(s) => (m.session_state(s), Seq::empty()),
        Input::Idle => m.idle(),
        Input::StreamEnd => m.stream_end(),
        Input::FailAll(kind) => m.fail_all(kind),
        Input::Result(frame, delivered) => m.result(frame, delivered),
    }
}

/// The machine after a list of inputs, and all the events that they brought.
pub open spec fn run(m: MachineSpec, inputs: Seq<Input>) -> Advance
    decreases inputs.len(),
{
    if inputs.len() == 0 {
        (m, Seq::empty())
    } else {
        let (n, e) = run(m, inputs.drop_last());
        let (o, f) = step(n, inputs.last());
        (o, e + f)
    }
}

/// One if the turn is that of the prompt and still open, else zero.
pub open spec fn open_turn(t: TurnSpec, uuid: Seq<char>) -> nat {
    if t.uuid == uuid && !t.settled {
        1
    } else {
        0
    }
}

/// How many turns in the list are open turns of the prompt.
pub open spec fn open_in(q: Seq<TurnSpec>, uuid: Seq<char>) -> nat
    decreases q.len(),
{
    if q.len() == 0 {
        0
    } else {
        open_in(q.drop_last(), uuid) + open_turn(q.last(), uuid)
    }
}

/// How many open turns of the prompt the machine holds.
pub open spec fn open_count(m: MachineSpec, uuid: Seq<char>) -> nat {
    open_in(m.queue, uuid) + match m.active {
        Some(t) => open_turn(t, uuid),
        None => 0,
    }
}

/// One if the event answers the prompt, by settling or failing its turn.
pub open spec fn answers(e: EventSpec, uuid: Seq<char>) -> nat {
    match e {
        EventSpec::Settled { uuid: u, .. } => if u == uuid {
            1
        } else {
            0
        },
        EventSpec::Failed { uuid: u, .. } => if u == uuid {
            1
        } else {
            0
        },
        _ => 0,
    }
}

/// How many of the events answer the prompt.
pub open spec fn answer_count(events: Seq<EventSpec>, uuid: Seq<char>) -> nat
    decreases events.len(),
{
    if events.len() == 0 {
        0
    } else {
        answer_count(events.drop_last(), uuid) + answers(events.last(), uuid)
    }
}

/// How many open turns of the prompt the inputs enqueue.
pub open spec fn enqueued_count(inputs: Seq<Input>, uuid: Seq<char>) -> nat
    decreases inputs.len(),
{
    if inputs.len() == 0 {
        0
    } else {
        enqueued_count(inputs.drop_last(), uuid) + enqueues(inputs.last(), uuid)
    }
}

/// One if the input enqueues an open turn of the prompt.
pub open spec fn enqueues(input: Input, uuid: Seq<char>) -> nat {
    match input {
        Input::Enqueue(t) => open_turn(t, uuid),
        _ => 0,
    }
}

proof fn lemma_answers_append(a: Seq<EventSpec>, b: Seq<EventSpec>, uuid: Seq<char>)
    ensures
        answer_count(a + b, uuid) == answer_count(a, uuid) + answer_count(b, uuid),
    decreases b.len(),
{
    if b.len() == 0 {
        assert(a + b =~= a);
    } else {
        lemma_answers_append(a, b.drop_last(), uuid);
        assert((a + b).drop_last() =~= a + b.drop_last());
        assert((a + b).last() == b.last());
    }
}

proof fn lemma_answers_one(e: EventSpec, uuid: Seq<char>)
    ensures
        answer_count(seq![e], uuid) == answers(e, uuid),
{
    assert(seq![e].drop_last() =~= Seq::<EventSpec>::empty());
    assert(answer_count(seq![e].drop_last(), uuid) == 0);
}

proof fn lemma_open_remove(q: Seq<TurnSpec>, i: int, uuid: Seq<char>)
    requires
        0 <= i < q.len(),
    ensures
        open_in(q.remove(i), uuid) + open_turn(q[i], uuid) == open_in(q, uuid),
    decreases q.len(),
{
    if i == q.len() - 1 {
        assert(q.remove(i) =~= q.drop_last());
    } else {
        lemma_open_remove(q.drop_last(), i, uuid);
        assert(q.remove(i).drop_last() =~= q.drop_last().remove(i));
        assert(q.remove(i).last() == q.last());
    }
}

proof fn lemma_open_swept(q: Seq<TurnSpec>, uuid: Seq<char>)
    ensures
        open_in(done(q), uuid) == 0,
        answer_count(Seq::new(waiting(q).len(), |i: int| swept(waiting(q)[i])), uuid) == open_in(
            q,
            uuid,
        ),
    decreases q.len(),
{
    let events = Seq::new(waiting(q).len(), |i: int| swept(waiting(q)[i]));
    if q.len() > 0 {
        let rest = q.drop_last();
        lemma_open_swept(rest, uuid);
        let before = Seq::new(waiting(rest).len(), |i: int| swept(waiting(rest)[i]));
        if q.last().settled {
            assert(done(q).drop_last() =~= done(rest));
            assert(events =~= before);
        } else {
            assert(events.drop_last() =~= before);
            assert(events.last() == swept(q.last()));
        }
    }
}

proof fn lemma_open_rejected(q: Seq<TurnSpec>, kind: FailureKind, uuid: Seq<char>)
    ensures
        answer_count(Seq::new(waiting(q).len(), |i: int| rejected(waiting(q)[i], kind)), uuid)
            == open_in(q, uuid),
    decreases q.len(),
{
    let events = Seq::new(waiting(q).len(), |i: int| rejected(waiting(q)[i], kind));
    if q.len() > 0 {
        let rest = q.drop_last();
        lemma_open_rejected(rest, kind, uuid);
        let before = Seq::new(waiting(rest).len(), |i: int| rejected(waiting(rest)[i], kind));
        if q.last().settled {
            assert(events =~= before);
        } else {
            assert(events.drop_last() =~= before);
            assert(events.last() == rejected(q.last(), kind));
        }
    }
}

/// Settling or failing the turn in flight answers its prompt once, and the
/// turn is gone.
proof fn lemma_end_of_active(m: MachineSpec, uuid: Seq<char>)
    ensures
        forall|r: StopReason, u: Usage| #![trigger m.settle(r, u)]
            open_count(m.settle(r, u).0, uuid) + answer_count(m.settle(r, u).1, uuid)
                == open_count(m, uuid),
        forall|k: FailureKind, t: Seq<char>| #![trigger m.fail(k, t)]
            open_count(m.fail(k, t).0, uuid) + answer_count(m.fail(k, t).1, uuid) == open_count(
                m,
                uuid,
            ),
{
    assert forall|r: StopReason, u: Usage| #![trigger m.settle(r, u)]
        open_count(m.settle(r, u).0, uuid) + answer_count(m.settle(r, u).1, uuid) == open_count(
        m,
        uuid,
    ) by {
        if m.has_active() {
            lemma_answers_one(m.settle(r, u).1[0], uuid);
            assert(m.settle(r, u).1 =~= seq![m.settle(r, u).1[0]]);
        }
    }
    assert forall|k: FailureKind, t: Seq<char>| #![trigger m.fail(k, t)]
        open_count(m.fail(k, t).0, uuid) + answer_count(m.fail(k, t).1, uuid) == open_count(
        m,
        uuid,
    ) by {
        if m.has_active() {
            lemma_answers_one(m.fail(k, t).1[0], uuid);
            assert(m.fail(k, t).1 =~= seq![m.fail(k, t).1[0]]);
        }
    }
}

proof fn lemma_settle_or_defer_open(m: MachineSpec, r: StopReason, uuid: Seq<char>)
    ensures
        open_count(m.settle_or_defer(r).0, uuid) + answer_count(m.settle_or_defer(r).1, uuid)
            == open_count(m, uuid),
{
    lemma_end_of_active(m, uuid);
}

proof fn lemma_ensure_active_open(m: MachineSpec, uuid: Seq<char>)
    ensures
        open_count(m.ensure_active().0, uuid) + answer_count(m.ensure_active().1, uuid)
            == open_count(m, uuid),
{
    lemma_end_of_active(m, uuid);
    if !(m.active is Some && !m.is_held()) {
        let (n, e) = m.settle_held();
        let i = first_waiting(n.queue);
        lemma_first_waiting_bounds(n.queue);
        if n.orphan_results > 0 {
        } else if i < n.queue.len() {
            let f = seq![EventSpec::Activated { uuid: n.queue[i].uuid }];
            lemma_open_remove(n.queue, i, uuid);
            lemma_answers_one(f[0], uuid);
            lemma_answers_append(e, f, uuid);
        }
    }
}

proof fn lemma_first_waiting_bounds(q: Seq<TurnSpec>)
    ensures
        0 <= first_waiting(q) <= q.len(),
        first_waiting(q) < q.len() ==> !q[first_waiting(q)].settled,
    decreases q.len(),
{
    if q.len() > 0 && q[0].settled {
        lemma_first_waiting_bounds(q.drop_first());
    }
}

proof fn lemma_first_for_bounds(q: Seq<TurnSpec>, uuid: Seq<char>)
    ensures
        0 <= first_for(q, uuid) <= q.len(),
        first_for(q, uuid) < q.len() ==> q[first_for(q, uuid)].uuid == uuid,
    decreases q.len(),
{
    if q.len() > 0 && q[0].uuid != uuid {
        lemma_first_for_bounds(q.drop_first(), uuid);
    }
}

/// Whatever happens to a machine, the open turns of a prompt after it and the
/// answers that it brought are as many as the open turns before it and those it
/// enqueued. So no prompt is lost, and none is answered twice.
pub proof fn law_step_answers_once(m: MachineSpec, input: Input, uuid: Seq<char>)
    ensures
        open_count(step(m, input).0, uuid) + answer_count(step(m, input).1, uuid) == open_count(
            m,
            uuid,
        ) + enqueues(input, uuid),
{
    lemma_end_of_active(m, uuid);
    match input {
        Input::Enqueue(t) => {
            assert(m.queue.push(t).drop_last() =~= m.queue);
        },
        Input::Cancel => {
            let w = waiting(m.queue);
            let e = Seq::new(w.len(), |i: int| swept(w[i]));
            lemma_open_swept(m.queue, uuid);
            if m.is_held() {
                let base = MachineSpec {
                    cancelled: true,
                    queue: done(m.queue),
                    orphan_results: m.orphan_results + w.len(),
                    orphaned: m.orphaned + Seq::new(w.len(), |i: int| w[i].uuid),
                    ..m
                };
                let owed = if m.state != "idle"@ {
                    base.owing()
                } else {
                    base
                };
                lemma_end_of_active(owed, uuid);
                let f = owed.settle(StopReason::Cancelled, m.active->0.deferred->0.usage).1;
                lemma_answers_append(e, f, uuid);
            }
        },
        Input::ForceCancel => {},
        Input::Reconcile(s) => {},
        Input::TaskStarted(id, sub) => {},
        Input::TaskEnded(id) => {},
        Input::Echo(u) => {
            lemma_first_for_bounds(m.queue, u);
            let i = first_for(m.queue, u);
            if i < m.queue.len() {
                let rest = MachineSpec { queue: m.queue.remove(i), ..m };
                let (reason, usage) = m.handed_off();
                let (n, e) = if m.has_active() && m.cancelled {
                    rest.owing().settle(reason, usage)
                } else {
                    rest.settle(reason, usage)
                };
                lemma_open_remove(m.queue, i, uuid);
                lemma_end_of_active(rest, uuid);
                lemma_end_of_active(rest.owing(), uuid);
                let f = seq![EventSpec::Activated { uuid: m.queue[i].uuid }];
                lemma_answers_one(f[0], uuid);
                lemma_answers_append(e, f, uuid);
            }
        },
        Input::SessionState(s) => {},
        Input::Idle => {
            let n = m.session_state("idle"@);
            lemma_end_of_active(n, uuid);
            lemma_end_of_active(n.absorbing(), uuid);
        },
        Input::StreamEnd => {
            let (reason, usage) = m.handed_off();
            let (n, e) = m.settle(reason, usage);
            lemma_open_rejected(m.queue, FailureKind::SessionEnded, uuid);
            lemma_answers_append(
                e,
                MachineSpec { active: None, ..n }.reject_queue(FailureKind::SessionEnded).1,
                uuid,
            );
        },
        Input::FailAll(kind) => {
            let (n, e) = if m.is_held() {
                m.settle_held()
            } else {
                m.fail(kind, kind.message())
            };
            lemma_open_rejected(m.queue, kind, uuid);
            lemma_answers_append(
                e,
                MachineSpec { active: None, ..n }.reject_queue(kind).1,
                uuid,
            );
        },
        Input::Result(frame, delivered) => {
            lemma_result_answers_once(m, frame, delivered, uuid);
        },
    }
}

proof fn lemma_result_answers_once(
    m: MachineSpec,
    frame: JsonSpec,
    delivered: bool,
    uuid: Seq<char>,
)
    ensures
        open_count(m.result(frame, delivered).0, uuid) + answer_count(
            m.result(frame, delivered).1,
            uuid,
        ) == open_count(m, uuid),
{
    if is_autonomous(frame) {
        lemma_end_of_active(m.owing(), uuid);
    } else {
        let (n, e) = m.ensure_active();
        lemma_ensure_active_open(m, uuid);
        let owed = if n.cancelled && n.active is Some {
            n
        } else {
            n.owing()
        };
        let o = owed.counting(crate::turn::reported_usage(frame));
        if !o.cancelled && !m.is_late() {
            let f = o.judged(frame, delivered).1;
            lemma_end_of_active(o, uuid);
            lemma_answers_append(e, f, uuid);
            match verdict(frame) {
                Verdict::Fail(kind, message) => {},
                Verdict::Settle(reason) => {
                    lemma_settle_or_defer_open(o, reason, uuid);
                },
                Verdict::Answer => {
                    lemma_settle_or_defer_open(o, StopReason::EndTurn, uuid);
                    let local = o.active matches Some(t) && t.local_only;
                    let text = final_text(frame, local, delivered);
                    lemma_answers_append(
                        text,
                        o.settle_or_defer(StopReason::EndTurn).1,
                        uuid,
                    );
                    if text.len() > 0 {
                        lemma_answers_one(text[0], uuid);
                        assert(text =~= seq![text[0]]);
                    }
                },
            }
        }
    }
}

/// Over any course of events, every enqueued prompt is either still open or
/// answered, and answered once.
pub proof fn law_run_answers_once(m: MachineSpec, inputs: Seq<Input>, uuid: Seq<char>)
    ensures
        open_count(run(m, inputs).0, uuid) + answer_count(run(m, inputs).1, uuid) == open_count(
            m,
            uuid,
        ) + enqueued_count(inputs, uuid),
    decreases inputs.len(),
{
    if inputs.len() > 0 {
        law_run_answers_once(m, inputs.drop_last(), uuid);
        let (n, e) = run(m, inputs.drop_last());
        law_step_answers_once(n, inputs.last(), uuid);
        lemma_answers_append(e, step(n, inputs.last()).1, uuid);
    }
}

/// Whether no turn that the machine holds is settled, and no queued turn has an
/// outcome yet.
pub open spec fn tidy(m: MachineSpec) -> bool {
    &&& m.active matches Some(t) ==> !t.settled
    &&& forall|i: int|
        0 <= i < m.queue.len() ==> !(#[trigger] m.queue[i]).settled && m.queue[i].deferred is None
}

proof fn lemma_done_empty(q: Seq<TurnSpec>)
    requires
        forall|i: int| 0 <= i < q.len() ==> !(#[trigger] q[i]).settled,
    ensures
        done(q).len() == 0,
        waiting(q) == q,
    decreases q.len(),
{
    if q.len() > 0 {
        assert(!q[q.len() - 1].settled);
        assert forall|i: int| 0 <= i < q.drop_last().len() implies !(#[trigger] q.drop_last()[i]).settled by {
            assert(q.drop_last()[i] == q[i]);
        }
        lemma_done_empty(q.drop_last());
        assert(q.drop_last().push(q.last()) =~= q);
    }
}

/// A machine starts without settled turns and never comes to hold one: a turn
/// leaves the machine with its settlement.
pub proof fn law_stays_tidy(m: MachineSpec, input: Input)
    requires
        tidy(m),
        input matches Input::Enqueue(t) ==> !t.settled && t.deferred is None,
    ensures
        tidy(MachineSpec::initial()),
        tidy(step(m, input).0),
{
    let after = step(m, input).0;
    match input {
        Input::Enqueue(t) => {
            assert forall|i: int| 0 <= i < after.queue.len() implies !(#[trigger] after.queue[i]).settled
                && after.queue[i].deferred is None by {
                if i < m.queue.len() {
                    assert(after.queue[i] == m.queue[i]);
                }
            }
        },
        Input::Cancel => {
            lemma_done_empty(m.queue);
        },
        Input::Echo(u) => {
            lemma_first_for_bounds(m.queue, u);
            lemma_tidy_remove(m.queue);
        },
        Input::Result(frame, delivered) => {
            lemma_first_waiting_bounds(m.queue);
            lemma_tidy_remove(m.queue);
        },
        _ => {},
    }
}

proof fn lemma_tidy_remove(q: Seq<TurnSpec>)
    requires
        forall|i: int| 0 <= i < q.len() ==> !(#[trigger] q[i]).settled && q[i].deferred is None,
    ensures
        forall|k: int, i: int|
            #![trigger q.remove(k)[i]]
            0 <= k < q.len() && 0 <= i < q.len() - 1 ==> !q.remove(k)[i].settled && q.remove(
                k,
            )[i].deferred is None,
{
    assert forall|k: int, i: int|
        #![trigger q.remove(k)[i]]
        0 <= k < q.len() && 0 <= i < q.len() - 1 implies !q.remove(k)[i].settled && q.remove(
        k,
    )[i].deferred is None by {
        let j = if i < k {
            i
        } else {
            i + 1
        };
        assert(q.remove(k)[i] == q[j]);
    }
}

/// One if the event activates a turn of the prompt.
pub open spec fn activates(e: EventSpec, uuid: Seq<char>) -> nat {
    match e {
        EventSpec::Activated { uuid: u } => if u == uuid {
            1
        } else {
            0
        },
        _ => 0,
    }
}

/// How many of the events activate a turn of the prompt.
pub open spec fn activation_count(events: Seq<EventSpec>, uuid: Seq<char>) -> nat
    decreases events.len(),
{
    if events.len() == 0 {
        0
    } else {
        activation_count(events.drop_last(), uuid) + activates(events.last(), uuid)
    }
}

/// Whether no turn of the prompt is activated after the prompt was answered.
pub open spec fn activated_first(events: Seq<EventSpec>, uuid: Seq<char>) -> bool {
    forall|i: int, j: int|
        #![trigger events[i], events[j]]
        0 <= i < j < events.len() && answers(events[i], uuid) > 0 ==> activates(events[j], uuid)
            == 0
}

/// Whether the input, if it enqueues a turn, enqueues one that was not run yet.
pub open spec fn fresh(input: Input) -> bool {
    input matches Input::Enqueue(t) ==> !t.settled && t.deferred is None
}

proof fn lemma_activations_append(a: Seq<EventSpec>, b: Seq<EventSpec>, uuid: Seq<char>)
    ensures
        activation_count(a + b, uuid) == activation_count(a, uuid) + activation_count(b, uuid),
    decreases b.len(),
{
    if b.len() == 0 {
        assert(a + b =~= a);
    } else {
        lemma_activations_append(a, b.drop_last(), uuid);
        assert((a + b).drop_last() =~= a + b.drop_last());
        assert((a + b).last() == b.last());
    }
}

proof fn lemma_activation_at(events: Seq<EventSpec>, i: int, uuid: Seq<char>)
    requires
        0 <= i < events.len(),
    ensures
        activation_count(events, uuid) >= activates(events[i], uuid),
        answer_count(events, uuid) >= answers(events[i], uuid),
    decreases events.len(),
{
    if i < events.len() - 1 {
        lemma_activation_at(events.drop_last(), i, uuid);
    }
}

proof fn lemma_no_activation(events: Seq<EventSpec>, uuid: Seq<char>)
    requires
        forall|i: int| 0 <= i < events.len() ==> activates(#[trigger] events[i], uuid) == 0,
    ensures
        activation_count(events, uuid) == 0,
    decreases events.len(),
{
    if events.len() > 0 {
        let rest = events.drop_last();
        assert forall|i: int| 0 <= i < rest.len() implies activates(#[trigger] rest[i], uuid)
            == 0 by {
            assert(rest[i] == events[i]);
        }
        lemma_no_activation(rest, uuid);
        assert(activates(events[events.len() - 1], uuid) == 0);
    }
}

/// An event of a turn that leaves its place, followed by the activation of
/// another one, which waited in the queue at `i`.
proof fn lemma_activation_of_queued(
    m: MachineSpec,
    e: Seq<EventSpec>,
    i: int,
    uuid: Seq<char>,
)
    requires
        tidy(m),
        0 <= i < m.queue.len(),
        e.len() <= 1,
        e.len() == 1 ==> m.has_active() && answers(e[0], uuid) == open_turn(m.active->0, uuid)
            && activates(e[0], uuid) == 0,
    ensures
        ({
            let f = e + seq![EventSpec::Activated { uuid: m.queue[i].uuid }];
            &&& activation_count(f, uuid) + open_in(m.queue.remove(i), uuid) == open_in(
                m.queue,
                uuid,
            )
            &&& open_count(m, uuid) <= 1 ==> activated_first(f, uuid)
        }),
{
    let a = seq![EventSpec::Activated { uuid: m.queue[i].uuid }];
    let f = e + a;
    lemma_open_remove(m.queue, i, uuid);
    assert(!m.queue[i].settled);
    lemma_no_activation(e, uuid);
    assert(a.drop_last() =~= Seq::<EventSpec>::empty());
    assert(activation_count(a.drop_last(), uuid) == 0);
    lemma_activations_append(e, a, uuid);
    if open_count(m, uuid) <= 1 {
        assert forall|x: int, y: int|
            #![trigger f[x], f[y]]
            0 <= x < y < f.len() && answers(f[x], uuid) > 0 implies activates(f[y], uuid) == 0 by {
            assert(x == 0 && y == 1);
            assert(f[0] == e[0]);
            assert(f[1] == a[0]);
        }
    }
}

/// A turn is activated at most as often as it waited in the queue, and not after
/// its prompt was answered.
proof fn lemma_step_activates(m: MachineSpec, input: Input, uuid: Seq<char>)
    requires
        tidy(m),
        fresh(input),
    ensures
        activation_count(step(m, input).1, uuid) + open_in(step(m, input).0.queue, uuid)
            <= open_in(m.queue, uuid) + enqueues(input, uuid),
        open_count(m, uuid) <= 1 ==> activated_first(step(m, input).1, uuid),
{
    let (n, e) = step(m, input);
    match input {
        Input::Enqueue(t) => {
            assert(m.queue.push(t).drop_last() =~= m.queue);
        },
        Input::Echo(u) => {
            lemma_first_for_bounds(m.queue, u);
            let i = first_for(m.queue, u);
            if i < m.queue.len() {
                let rest = MachineSpec { queue: m.queue.remove(i), ..m };
                let (reason, usage) = m.handed_off();
                let out = if m.has_active() && m.cancelled {
                    rest.owing().settle(reason, usage)
                } else {
                    rest.settle(reason, usage)
                };
                lemma_activation_of_queued(m, out.1, i, uuid);
            }
        },
        Input::Result(frame, delivered) => {
            lemma_result_activates(m, frame, delivered, uuid);
        },
        Input::Cancel => {
            lemma_open_swept(m.queue, uuid);
            lemma_no_activation(e, uuid);
        },
        _ => {
            lemma_no_activation(e, uuid);
        },
    }
}

proof fn lemma_result_activates(
    m: MachineSpec,
    frame: JsonSpec,
    delivered: bool,
    uuid: Seq<char>,
)
    requires
        tidy(m),
    ensures
        activation_count(m.result(frame, delivered).1, uuid) + open_in(
            m.result(frame, delivered).0.queue,
            uuid,
        ) <= open_in(m.queue, uuid),
        open_count(m, uuid) <= 1 ==> activated_first(m.result(frame, delivered).1, uuid),
{
    let (r, all) = m.result(frame, delivered);
    if is_autonomous(frame) {
        lemma_no_activation(all, uuid);
    } else {
        let (n, e) = m.ensure_active();
        let held = m.settle_held();
        let i = first_waiting(m.queue);
        lemma_first_waiting_bounds(m.queue);
        if !(m.active is Some && !m.is_held()) && m.orphan_results == 0 && i < m.queue.len() {
            lemma_activation_of_queued(m, held.1, i, uuid);
            assert(e =~= held.1 + seq![EventSpec::Activated { uuid: m.queue[i].uuid }]);
        } else {
            lemma_no_activation(e, uuid);
        }
        let owed = if n.cancelled && n.active is Some {
            n
        } else {
            n.owing()
        };
        let o = owed.counting(crate::turn::reported_usage(frame));
        if !o.cancelled && !m.is_late() {
            let f = o.judged(frame, delivered).1;
            assert forall|k: int| 0 <= k < f.len() implies activates(#[trigger] f[k], uuid) == 0 by {
                match verdict(frame) {
                    Verdict::Fail(kind, message) => {},
                    Verdict::Settle(reason) => {},
                    Verdict::Answer => {},
                }
            }
            lemma_no_activation(f, uuid);
            lemma_activations_append(e, f, uuid);
            assert(all =~= e + f);
            if open_count(m, uuid) <= 1 {
                assert forall|x: int, y: int|
                    #![trigger all[x], all[y]]
                    0 <= x < y < all.len() && answers(all[x], uuid) > 0 implies activates(
                    all[y],
                    uuid,
                ) == 0 by {
                    if y < e.len() {
                        assert(all[x] == e[x] && all[y] == e[y]);
                    } else {
                        assert(all[y] == f[y - e.len()]);
                    }
                }
            }
        }
    }
}

proof fn lemma_run_tidy(m: MachineSpec, inputs: Seq<Input>)
    requires
        tidy(m),
        forall|i: int| 0 <= i < inputs.len() ==> fresh(#[trigger] inputs[i]),
    ensures
        tidy(run(m, inputs).0),
    decreases inputs.len(),
{
    if inputs.len() > 0 {
        let before = inputs.drop_last();
        assert forall|i: int| 0 <= i < before.len() implies fresh(#[trigger] before[i]) by {
            assert(before[i] == inputs[i]);
        }
        lemma_run_tidy(m, before);
        assert(fresh(inputs[inputs.len() - 1]));
        law_stays_tidy(run(m, before).0, inputs.last());
    }
}

/// Over any course of events, the turns of a prompt are activated at most as
/// often as they are enqueued: each turn once.
pub proof fn law_run_activates_once(m: MachineSpec, inputs: Seq<Input>, uuid: Seq<char>)
    requires
        tidy(m),
        forall|i: int| 0 <= i < inputs.len() ==> fresh(#[trigger] inputs[i]),
    ensures
        activation_count(run(m, inputs).1, uuid) + open_in(run(m, inputs).0.queue, uuid)
            <= open_in(m.queue, uuid) + enqueued_count(inputs, uuid),
    decreases inputs.len(),
{
    if inputs.len() > 0 {
        let before = inputs.drop_last();
        assert forall|i: int| 0 <= i < before.len() implies fresh(#[trigger] before[i]) by {
            assert(before[i] == inputs[i]);
        }
        law_run_activates_once(m, before, uuid);
        lemma_run_tidy(m, before);
        let (n, e) = run(m, before);
        assert(fresh(inputs[inputs.len() - 1]));
        lemma_step_activates(n, inputs.last(), uuid);
        lemma_activations_append(e, step(n, inputs.last()).1, uuid);
    }
}

/// Over any course of events, a prompt with one turn is activated, if at all,
/// before it is answered.
pub proof fn law_activated_before_answered(m: MachineSpec, inputs: Seq<Input>, uuid: Seq<char>)
    requires
        tidy(m),
        forall|i: int| 0 <= i < inputs.len() ==> fresh(#[trigger] inputs[i]),
        open_count(m, uuid) + enqueued_count(inputs, uuid) <= 1,
    ensures
        activated_first(run(m, inputs).1, uuid),
    decreases inputs.len(),
{
    if inputs.len() > 0 {
        let before = inputs.drop_last();
        assert forall|i: int| 0 <= i < before.len() implies fresh(#[trigger] before[i]) by {
            assert(before[i] == inputs[i]);
        }
        law_activated_before_answered(m, before, uuid);
        lemma_run_tidy(m, before);
        law_run_answers_once(m, before, uuid);
        let (n, e) = run(m, before);
        let input = inputs.last();
        let f = step(n, input).1;
        assert(fresh(inputs[inputs.len() - 1]));
        lemma_step_activates(n, input, uuid);
        let all = e + f;
        assert forall|x: int, y: int|
            #![trigger all[x], all[y]]
            0 <= x < y < all.len() && answers(all[x], uuid) > 0 implies activates(all[y], uuid)
            == 0 by {
            if y < e.len() {
                assert(all[x] == e[x] && all[y] == e[y]);
            } else {
                assert(all[y] == f[y - e.len()]);
                if x < e.len() {
                    assert(all[x] == e[x]);
                    lemma_activation_at(e, x, uuid);
                    lemma_activation_at(f, y - e.len(), uuid);
                } else {
                    assert(all[x] == f[x - e.len()]);
                }
            }
        }
    }
}

proof fn lemma_open_in_some(q: Seq<TurnSpec>, uuid: Seq<char>) -> (i: int)
    requires
        open_in(q, uuid) > 0,
    ensures
        0 <= i < q.len(),
        !q[i].settled,
    decreases q.len(),
{
    if open_turn(q.last(), uuid) > 0 {
        q.len() - 1
    } else {
        lemma_open_in_some(q.drop_last(), uuid)
    }
}

proof fn lemma_open_in_at(q: Seq<TurnSpec>, i: int)
    requires
        0 <= i < q.len(),
        !q[i].settled,
    ensures
        open_in(q, q[i].uuid) > 0,
    decreases q.len(),
{
    if i < q.len() - 1 {
        lemma_open_in_at(q.drop_last(), i);
    }
}

/// Whether a prompt was enqueued more often than it was answered.
pub open spec fn unanswered(inputs: Seq<Input>, events: Seq<EventSpec>, uuid: Seq<char>) -> bool {
    answer_count(events, uuid) < enqueued_count(inputs, uuid)
}

/// Over any course of events of a machine that starts without turns, it has a
/// turn that is not settled exactly if some enqueued prompt has no answer yet.
pub proof fn law_unsettled_means_unanswered(inputs: Seq<Input>)
    ensures
        ({
            let (m, e) = run(MachineSpec::initial(), inputs);
            m.has_unsettled() == exists|uuid: Seq<char>| #[trigger] unanswered(inputs, e, uuid)
        }),
{
    let first = MachineSpec::initial();
    let (m, e) = run(first, inputs);
    if m.has_unsettled() {
        let uuid = if m.has_active() {
            m.active->0.uuid
        } else {
            let i = choose|i: int| 0 <= i < m.queue.len() && !(#[trigger] m.queue[i]).settled;
            lemma_open_in_at(m.queue, i);
            m.queue[i].uuid
        };
        law_run_answers_once(first, inputs, uuid);
        assert(unanswered(inputs, e, uuid));
    }
    if exists|uuid: Seq<char>| #[trigger] unanswered(inputs, e, uuid) {
        let uuid = choose|uuid: Seq<char>| #[trigger] unanswered(inputs, e, uuid);
        law_run_answers_once(first, inputs, uuid);
        if !m.has_active() {
            let i = lemma_open_in_some(m.queue, uuid);
            assert(!m.queue[i].settled);
        }
    }
}

/// Over any course of events of a machine that starts without turns, if every
/// prompt is enqueued once: a prompt is activated at most once, answered at most
/// once, and activated before it is answered; a prompt that was not enqueued is
/// neither; and the machine has a turn that is not settled exactly if some enqueued
/// prompt was not answered.
pub proof fn law_life_of_a_prompt(inputs: Seq<Input>)
    requires
        forall|i: int| 0 <= i < inputs.len() ==> fresh(#[trigger] inputs[i]),
        forall|uuid: Seq<char>| #[trigger] enqueued_count(inputs, uuid) <= 1,
    ensures
        ({
            let (m, e) = run(MachineSpec::initial(), inputs);
            &&& forall|uuid: Seq<char>|
                #![trigger enqueued_count(inputs, uuid)]
                {
                    &&& activation_count(e, uuid) <= enqueued_count(inputs, uuid)
                    &&& answer_count(e, uuid) <= enqueued_count(inputs, uuid)
                    &&& activated_first(e, uuid)
                }
            &&& m.has_unsettled() == exists|uuid: Seq<char>|
                #[trigger] enqueued_count(inputs, uuid) == 1 && answer_count(e, uuid) == 0
        }),
{
    let first = MachineSpec::initial();
    let (m, e) = run(first, inputs);
    assert forall|uuid: Seq<char>|
        #![trigger enqueued_count(inputs, uuid)]
        {
            &&& activation_count(e, uuid) <= enqueued_count(inputs, uuid)
            &&& answer_count(e, uuid) <= enqueued_count(inputs, uuid)
            &&& activated_first(e, uuid)
        } by {
        law_run_answers_once(first, inputs, uuid);
        law_run_activates_once(first, inputs, uuid);
        law_activated_before_answered(first, inputs, uuid);
    }
    law_unsettled_means_unanswered(inputs);
    if m.has_unsettled() {
        let uuid = choose|uuid: Seq<char>| #[trigger] unanswered(inputs, e, uuid);
        assert(enqueued_count(inputs, uuid) == 1 && answer_count(e, uuid) == 0);
    }
    assert forall|uuid: Seq<char>| #[trigger]
        enqueued_count(inputs, uuid) == 1 && answer_count(e, uuid) == 0 implies unanswered(
        inputs,
        e,
        uuid,
    ) by {}
}

/// A result owed to an orphan is used up by it. It activates nothing, leaves
/// the queue as it is, answers no queued prompt and shows nothing: all it can do
/// is settle a held turn, as recorded.
pub proof fn law_orphan_result_is_not_reused(m: MachineSpec, frame: JsonSpec, delivered: bool)
    requires
        !is_autonomous(frame),
        m.is_late(),
    ensures
        ({
            let (n, e) = m.result(frame, delivered);
            &&& n.queue == m.queue
            &&& n.active is None
            &&& n.orphan_results == m.orphan_results - 1
            &&& e == m.settle_held().1
            &&& m.active is None ==> e.len() == 0
        }),
{
}

/// A result that no prompt asked for never fails or activates a turn and
/// leaves the queue alone. All it can do is settle a held turn whose subagents
/// are gone, with the outcome recorded before.
pub proof fn law_autonomous_result_leaves_live_turns(
    m: MachineSpec,
    frame: JsonSpec,
    delivered: bool,
)
    requires
        is_autonomous(frame),
    ensures
        m.result(frame, delivered).0.queue == m.queue,
        m.result(frame, delivered).0.usage == m.usage,
        m.result(frame, delivered).0.owed_idles == m.owed_idles + 1,
        !m.is_held() ==> m.result(frame, delivered) == (m.owing(), Seq::<EventSpec>::empty()),
        m.is_held() && m.awaiting(m.active->0) ==> m.result(frame, delivered) == (
            m.owing(),
            Seq::<EventSpec>::empty(),
        ),
        m.is_held() && !m.awaiting(m.active->0) ==> m.result(frame, delivered).0.active is None
            && m.result(frame, delivered).1 == seq![
            EventSpec::Settled {
                uuid: m.active->0.uuid,
                stop_reason: m.active->0.deferred->0.stop_reason,
                usage: m.active->0.deferred->0.usage,
                had_usage: true,
            },
        ],
{
    let n = m.owing();
    if m.is_held() {
        assert(n.awaiting(n.active->0) == m.awaiting(m.active->0));
    }
}

/// An owed idle is used up without touching a turn in flight that is neither
/// cancelled nor held.
pub proof fn law_owed_idle_is_absorbed(m: MachineSpec)
    requires
        m.owed_idles > 0,
        !m.cancelled,
        !m.is_held(),
    ensures
        m.idle().1.len() == 0,
        m.idle().0.active == m.active,
        m.idle().0.queue == m.queue,
        m.idle().0.owed_idles == m.owed_idles - 1,
{
}

/// With no idle owed, an idle fails the turn in flight that has no result.
pub proof fn law_idle_without_result_fails(m: MachineSpec)
    requires
        m.has_active(),
        m.owed_idles == 0,
        !m.cancelled,
        !m.is_held(),
    ensures
        m.idle().0.active is None,
        m.idle().1 == seq![
            EventSpec::Failed {
                uuid: m.active->0.uuid,
                kind: FailureKind::NoResult,
                message: TURN_NO_RESULT_MESSAGE@,
            },
        ],
{
}

/// After the result of a turn, its idle may come as late as after the echo of
/// the next prompt: that turn stays in flight.
pub proof fn law_lagging_idle_spares_next_turn(
    m: MachineSpec,
    frame: JsonSpec,
    delivered: bool,
    next: TurnSpec,
)
    requires
        m.has_active(),
        !m.cancelled,
        !m.is_held(),
        !m.awaiting(m.active->0),
        !is_autonomous(frame),
        next.deferred is None,
        first_for(m.queue, next.uuid) == m.queue.len(),
    ensures
        ({
            let a = m.result(frame, delivered).0;
            let b = a.enqueue(next).echo(next.uuid).0;
            let (c, e) = b.idle();
            &&& a.active is None
            &&& b.active == Some(next)
            &&& e.len() == 0
            &&& c.active == Some(next)
        }),
{
    let a = m.result(frame, delivered).0;
    let n = m.owing().counting(crate::turn::reported_usage(frame));
    assert(m.ensure_active() == (m, Seq::<EventSpec>::empty()));
    assert(n.awaiting(n.active->0) == m.awaiting(m.active->0));
    assert(a.queue == m.queue);
    lemma_first_for_push(m.queue, next);
}

proof fn lemma_first_for_push(q: Seq<TurnSpec>, t: TurnSpec)
    requires
        first_for(q, t.uuid) == q.len(),
    ensures
        first_for(q.push(t), t.uuid) == q.len(),
    decreases q.len(),
{
    if q.len() > 0 {
        assert(q.push(t).drop_first() =~= q.drop_first().push(t));
        assert(q.push(t)[0] == q[0]);
        lemma_first_for_push(q.drop_first(), t);
    }
}

/// A cancel answers every waiting prompt, in order, as cancelled and without
/// usage, expects one late result for each, and leaves none of them waiting.
pub proof fn law_cancel_sweeps_queue(m: MachineSpec)
    ensures
        ({
            let w = waiting(m.queue);
            let (n, e) = m.cancel();
            &&& waiting(n.queue).len() == 0
            &&& n.orphan_results == m.orphan_results + w.len()
            &&& e.len() >= w.len()
            &&& forall|i: int| 0 <= i < w.len() ==> #[trigger] e[i] == swept(w[i])
            &&& n.cancelled
        }),
{
    lemma_waiting_of_done(m.queue);
}

proof fn lemma_waiting_of_done(q: Seq<TurnSpec>)
    ensures
        waiting(done(q)).len() == 0,
    decreases q.len(),
{
    if q.len() > 0 {
        lemma_waiting_of_done(q.drop_last());
        if q.last().settled {
            assert(done(q).drop_last() =~= done(q.drop_last()));
        }
    }
}

/// A cancelled turn that is not held settles as cancelled at its idle, with the
/// tokens counted so far.
pub proof fn law_cancelled_turn_settles_at_idle(m: MachineSpec)
    requires
        m.has_active(),
        !m.is_held(),
    ensures
        m.cancel().0.active == m.active,
        m.cancel().0.idle().1 == seq![
            EventSpec::Settled {
                uuid: m.active->0.uuid,
                stop_reason: StopReason::Cancelled,
                usage: m.usage,
                had_usage: true,
            },
        ],
        m.cancel().0.idle().0.active is None,
{
}

/// The result of a cancelled turn changes nothing but the token count.
pub proof fn law_cancelled_turn_drops_its_result(m: MachineSpec, frame: JsonSpec, delivered: bool)
    requires
        m.cancelled,
        m.has_active(),
        !m.is_held(),
        !is_autonomous(frame),
    ensures
        m.result(frame, delivered) == (
            m.counting(crate::turn::reported_usage(frame)),
            Seq::<EventSpec>::empty(),
        ),
{
    assert(m.ensure_active() == (m, Seq::<EventSpec>::empty()));
}

/// A turn held open for its subagents never fails. Unless it is cancelled, it
/// ends with the outcome and the tokens that its result recorded, whether the
/// next echo, the end of the stream or a failure of everything ends it.
pub proof fn law_held_turn_keeps_its_outcome(m: MachineSpec, uuid: Seq<char>, kind: FailureKind)
    requires
        m.is_held(),
        !m.cancelled,
    ensures
        ({
            let d = m.active->0.deferred->0;
            let settled = EventSpec::Settled {
                uuid: m.active->0.uuid,
                stop_reason: d.stop_reason,
                usage: d.usage,
                had_usage: true,
            };
            &&& m.stream_end().1[0] == settled
            &&& m.fail_all(kind).1[0] == settled
            &&& first_for(m.queue, uuid) < m.queue.len() ==> m.echo(uuid).1[0] == settled
            &&& !m.awaiting(m.active->0) ==> m.idle().1 == seq![settled]
            &&& m.awaiting(m.active->0) ==> m.idle().1.len() == 0 && m.idle().0.active == m.active
        }),
{
    let n = m.session_state("idle"@).absorbing();
    assert(n.awaiting(n.active->0) == m.awaiting(m.active->0));
}

/// While a subagent that it spawned is live, a turn is not settled by its
/// result: the outcome is kept for later.
pub proof fn law_live_subagents_hold_the_turn(m: MachineSpec, reason: StopReason)
    requires
        m.has_active(),
        m.awaiting(m.active->0),
    ensures
        m.settle_or_defer(reason).1.len() == 0,
        m.settle_or_defer(reason).0.is_held(),
        m.settle_or_defer(reason).0.active->0.deferred == Some(
            DeferredSettle { stop_reason: reason, usage: m.usage },
        ),
{
}

/// The end of the stream, and a failure of everything, leave no turn behind.
pub proof fn law_end_leaves_nothing(m: MachineSpec, kind: FailureKind)
    ensures
        m.stream_end().0.active is None,
        m.stream_end().0.queue.len() == 0,
        m.fail_all(kind).0.active is None,
        m.fail_all(kind).0.queue.len() == 0,
{
}

/// An activated turn starts afresh: nothing counted, nothing cancelled, no
/// late result expected.
pub proof fn law_activation_starts_afresh(m: MachineSpec, t: TurnSpec)
    ensures
        m.activate(t).0.active == Some(t),
        m.activate(t).0.usage == no_usage(),
        !m.activate(t).0.cancelled,
        m.activate(t).0.orphan_results == 0,
        m.activate(t).0.owed_idles == m.owed_idles,
{
}

/// A refusal settles the turn as refused, whatever else the result says.
pub proof fn law_refusal_wins(frame: JsonSpec)
    requires
        frame.str_or_empty("stop_reason"@) == "refusal"@,
    ensures
        verdict(frame) == Verdict::Settle(StopReason::Refusal),
{
}

/// A receipt that lists every orphaned prompt as still queued uncounts none; one
/// that lists none of them uncounts all.
pub proof fn law_reconcile_counts_dropped(m: MachineSpec, still: Seq<Seq<char>>)
    requires
        m.orphan_results >= m.orphaned.len(),
    ensures
        (forall|i: int| 0 <= i < m.orphaned.len() ==> still.contains(#[trigger] m.orphaned[i]))
            ==> m.reconcile(Some(still)).orphan_results == m.orphan_results,
        (forall|i: int| 0 <= i < m.orphaned.len() ==> !still.contains(#[trigger] m.orphaned[i]))
            ==> m.reconcile(Some(still)).orphan_results == m.orphan_results - m.orphaned.len(),
        m.reconcile(None) == m,
{
    lemma_dropped(m.orphaned, still);
}

proof fn lemma_dropped(orphaned: Seq<Seq<char>>, still: Seq<Seq<char>>)
    ensures
        dropped(orphaned, still) <= orphaned.len(),
        (forall|i: int| 0 <= i < orphaned.len() ==> still.contains(#[trigger] orphaned[i]))
            ==> dropped(orphaned, still) == 0,
        (forall|i: int| 0 <= i < orphaned.len() ==> !still.contains(#[trigger] orphaned[i]))
            ==> dropped(orphaned, still) == orphaned.len(),
    decreases orphaned.len(),
{
    if orphaned.len() > 0 {
        let rest = orphaned.drop_last();
        lemma_dropped(rest, still);
        assert(orphaned.last() == orphaned[orphaned.len() - 1]);
        assert forall|i: int| 0 <= i < rest.len() implies rest[i] == orphaned[i] by {}
        if forall|i: int| 0 <= i < orphaned.len() ==> still.contains(#[trigger] orphaned[i]) {
            assert forall|i: int| 0 <= i < rest.len() implies still.contains(#[trigger] rest[i]) by {
                assert(rest[i] == orphaned[i]);
            }
        }
        if forall|i: int| 0 <= i < orphaned.len() ==> !still.contains(#[trigger] orphaned[i]) {
            assert forall|i: int| 0 <= i < rest.len() implies !still.contains(#[trigger] rest[i]) by {
                assert(rest[i] == orphaned[i]);
            }
        }
    }
}

} // verus!
