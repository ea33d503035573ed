//! The life of a turn, from `session/prompt` to its settlement.
//!
//! A session owns one [`TurnMachine`]. It is fed the frames of the session's
//! stream and answers with the [`TurnEvent`]s that follow from them.
//!
//! ```text
//! [*] --> Queued           : a prompt is enqueued
//! Queued --> Activated     : its echo arrives, or a result without an echo
//! Queued --> Settled       : swept by a cancel
//! Queued --> Failed        : the stream ends, or everything fails
//! Activated --> Deferred   : its result arrives while subagents are live
//! Activated --> Settled    : its result arrives, no subagent is live
//! Activated --> Failed     : idle without a result
//! Deferred --> Settled     : an autonomous result or an idle after the drain
//! Activated --> Settled    : the stream ends
//! Deferred --> Settled     : cancelled while held
//! Activated --> Settled    : force-cancelled
//! Settled --> [*]
//! ```
//!
//! An echo is the user's own message, sent back on the stream. An orphan is a
//! turn whose consumer has left while its `result` may still arrive: that
//! result must not be taken for the next turn's. A trailing idle is the idle
//! that follows a result, possibly late: it must not be taken for the next
//! turn being abandoned.
//!
//! An idle fails the active turn only. A queued turn that was never echoed is
//! left alone, since an idle can have been sent before the prompt was read.

use std::collections::VecDeque;

use vstd::prelude::*;
use vstd::string::*;

use crate::json::{strings_in, strings_of, Json, JsonSpec};
use crate::strmap::{set_of, StrMap, StrSet};
use crate::strs::{contains, contains_text, join, joined, str_eq, texts};

verus! {

/// Why a turn failed that went idle without a result.
pub const TURN_NO_RESULT_MESSAGE: &'static str = "The turn ended without a result: the agent went idle while this prompt was still in flight (e.g. the model stream dropped mid-turn). Any partial output may be incomplete; please retry.";

/// Why a queued turn failed when the stream ended.
pub const SESSION_ENDED_MESSAGE: &'static str = "The agent session has ended. Please start a new session.";

/// The `stopReason` that a settled turn reports.
#[derive(Debug, Clone, Copy, PartialEq, Eq, Structural)]
pub enum StopReason {
    /// Normal completion.
    EndTurn,
    /// The model hit its output-token limit.
    MaxTokens,
    /// The model refused to answer.
    Refusal,
    /// Budget, turns or structured-output retries exhausted.
    MaxTurnRequests,
    /// The turn was cancelled.
    Cancelled,
}

impl StopReason {
    /// How the reason is spelled on the wire.
    pub open spec fn spelled(self) -> Seq<char> {
        match self {
            StopReason::EndTurn => "end_turn"@,
            StopReason::MaxTokens => "max_tokens"@,
            StopReason::Refusal => "refusal"@,
            StopReason::MaxTurnRequests => "max_turn_requests"@,
            StopReason::Cancelled => "cancelled"@,
        }
    }

    /// How the reason is spelled on the wire.
    pub fn as_str(self) -> (r: &'static str)
        ensures
            r@ == self.spelled(),
    {
        match self {
            StopReason::EndTurn => "end_turn",
            StopReason::MaxTokens => "max_tokens",
            StopReason::Refusal => "refusal",
            StopReason::MaxTurnRequests => "max_turn_requests",
            StopReason::Cancelled => "cancelled",
        }
    }
}

/// Why a turn failed.
#[derive(Debug, Clone, Copy, PartialEq, Eq, Structural)]
pub enum FailureKind {
    /// The user has to log in.
    AuthRequired,
    /// The provider answered with an error.
    ProviderError,
    /// The budget is exhausted.
    BudgetExhausted,
    /// The turns are exhausted.
    ContextExhausted,
    /// Idle without a result.
    NoResult,
    /// The stream ended before the turn ran.
    SessionEnded,
}

impl FailureKind {
    /// The message of a failure that carries no text of its own.
    pub open spec fn message(self) -> Seq<char> {
        match self {
            FailureKind::AuthRequired => "Authentication required. Please run /login."@,
            FailureKind::ProviderError => "The model provider returned an error."@,
            FailureKind::BudgetExhausted => "The turn exceeded its budget."@,
            FailureKind::ContextExhausted => "The context window was exhausted."@,
            FailureKind::NoResult => TURN_NO_RESULT_MESSAGE@,
            FailureKind::SessionEnded => SESSION_ENDED_MESSAGE@,
        }
    }

    /// The message of a failure that carries no text of its own.
    pub fn default_message(self) -> (r: &'static str)
        ensures
            r@ == self.message(),
    {
        match self {
            FailureKind::AuthRequired => "Authentication required. Please run /login.",
            FailureKind::ProviderError => "The model provider returned an error.",
            FailureKind::BudgetExhausted => "The turn exceeded its budget.",
            FailureKind::ContextExhausted => "The context window was exhausted.",
            FailureKind::NoResult => TURN_NO_RESULT_MESSAGE,
            FailureKind::SessionEnded => SESSION_ENDED_MESSAGE,
        }
    }
}

/// The tokens that a turn used.
#[derive(Debug, Clone, Copy, PartialEq, Eq, Structural)]
pub struct Usage {
    pub input_tokens: u64,
    pub output_tokens: u64,
    pub cached_read_tokens: u64,
    pub cached_write_tokens: u64,
}

/// No tokens.
pub open spec fn no_usage() -> Usage {
    Usage { input_tokens: 0, output_tokens: 0, cached_read_tokens: 0, cached_write_tokens: 0 }
}

impl Default for Usage {
    fn default() -> (r: Usage)
        ensures
            r == no_usage(),
    {
        Usage { input_tokens: 0, output_tokens: 0, cached_read_tokens: 0, cached_write_tokens: 0 }
    }
}

/// The outcome that the result of a held turn recorded, and the tokens used up
/// to it. The turn settles with these, not with what is counted later.
#[derive(Debug, Clone, Copy, PartialEq, Eq, Structural)]
pub struct DeferredSettle {
    pub stop_reason: StopReason,
    pub usage: Usage,
}

/// What follows from a frame, for the owner of the session to act on. Each
/// names the prompt it is about.
#[derive(Debug, Clone, PartialEq, Eq)]
pub enum TurnEvent {
    /// A turn settled. `had_usage` is false only for a turn swept from the
    /// queue, which never ran and reports no usage at all; any other turn
    /// reports its usage, even if it is all zero.
    Settled { prompt_uuid: String, stop_reason: StopReason, usage: Usage, had_usage: bool },
    /// A turn failed.
    Failed { prompt_uuid: String, kind: FailureKind, message: String },
    /// A turn became the active one.
    Activated { prompt_uuid: String },
    /// The answer stands in the result alone: it has to be forwarded as a
    /// message of its own.
    FinalText { text: String },
}

/// One prompt: queued, active or settled.
pub struct Turn {
    prompt_uuid: String,
    is_local_only_command: bool,
    settled: bool,
    deferred_settle: Option<DeferredSettle>,
    spawned_task_ids: StrSet,
}

/// The turns of a session.
pub struct TurnMachine {
    /// The turn in flight.
    active: Option<Turn>,
    /// The turns that wait for their echo or result, first come first.
    queue: VecDeque<Turn>,
    /// The live background tasks, and whether each is a subagent that can hold
    /// a turn open.
    live_subagents: StrMap<bool>,
    /// How many late results of cancelled turns are still expected.
    pending_orphan_results: usize,
    /// The prompts of the turns that a cancel swept from the queue.
    orphaned_uuids: Vec<String>,
    /// How many trailing idles are still owed.
    owed_trailing_idles: usize,
    /// Whether the active turn was cancelled.
    cancelled: bool,
    /// The last session state seen.
    last_session_state: String,
    /// The tokens of the active turn so far.
    accumulated_usage: Usage,
}

/// What a turn holds.
#[verifier::ext_equal]
pub struct TurnSpec {
    pub uuid: Seq<char>,
    pub local_only: bool,
    pub settled: bool,
    pub deferred: Option<DeferredSettle>,
    pub spawned: Set<Seq<char>>,
}

/// What a machine holds.
#[verifier::ext_equal]
pub struct MachineSpec {
    pub active: Option<TurnSpec>,
    pub queue: Seq<TurnSpec>,
    pub live: Map<Seq<char>, bool>,
    pub orphan_results: nat,
    pub orphaned: Seq<Seq<char>>,
    pub owed_idles: nat,
    pub cancelled: bool,
    pub state: Seq<char>,
    pub usage: Usage,
}

/// What an event says.
#[verifier::ext_equal]
pub enum EventSpec {
    Settled { uuid: Seq<char>, stop_reason: StopReason, usage: Usage, had_usage: bool },
    Failed { uuid: Seq<char>, kind: FailureKind, message: Seq<char> },
    Activated { uuid: Seq<char> },
    FinalText { text: Seq<char> },
}

impl TurnEvent {
    /// What the event says.
    pub open spec fn view(&self) -> EventSpec {
        match self {
            TurnEvent::Settled { prompt_uuid, stop_reason, usage, had_usage } => EventSpec::Settled {
                uuid: prompt_uuid@,
                stop_reason: *stop_reason,
                usage: *usage,
                had_usage: *had_usage,
            },
            TurnEvent::Failed { prompt_uuid, kind, message } => EventSpec::Failed {
                uuid: prompt_uuid@,
                kind: *kind,
                message: message@,
            },
            TurnEvent::Activated { prompt_uuid } => EventSpec::Activated { uuid: prompt_uuid@ },
            TurnEvent::FinalText { text } => EventSpec::FinalText { text: text@ },
        }
    }
}

/// What the events of a list say.
pub open spec fn seen(events: Seq<TurnEvent>) -> Seq<EventSpec> {
    Seq::new(events.len(), |i: int| events[i]@)
}

/// A machine, and the events that led to it.
pub type Advance = (MachineSpec, Seq<EventSpec>);

/// Whether the turn is held open: its result is in, its settlement is not.
pub open spec fn held(t: TurnSpec) -> bool {
    t.deferred is Some && !t.settled
}

impl MachineSpec {
    /// A machine without turns.
    pub open spec fn initial() -> MachineSpec {
        MachineSpec {
            active: None,
            queue: Seq::empty(),
            live: Map::empty(),
            orphan_results: 0,
            orphaned: Seq::empty(),
            owed_idles: 0,
            cancelled: false,
            state: Seq::empty(),
            usage: no_usage(),
        }
    }

    /// Whether a turn is in flight.
    pub open spec fn has_active(self) -> bool {
        self.active matches Some(t) && !t.settled
    }

    /// Whether a turn is in flight or waits in the queue.
    pub open spec fn has_unsettled(self) -> bool {
        self.has_active() || exists|i: int|
            0 <= i < self.queue.len() && !(#[trigger] self.queue[i]).settled
    }

    /// Whether the active turn is held open.
    pub open spec fn is_held(self) -> bool {
        self.active matches Some(t) && held(t)
    }

    /// Whether a subagent that the turn spawned is still live.
    pub open spec fn awaiting(self, t: TurnSpec) -> bool {
        exists|id: Seq<char>| #[trigger] t.spawned.contains(id) && self.live.contains_key(id) && self.live[id]
    }

    /// One more trailing idle is owed.
    pub open spec fn owing(self) -> MachineSpec {
        MachineSpec { owed_idles: self.owed_idles + 1, ..self }
    }

    /// One trailing idle less is owed, if any is.
    pub open spec fn absorbing(self) -> MachineSpec {
        if self.owed_idles > 0 {
            MachineSpec { owed_idles: (self.owed_idles - 1) as nat, ..self }
        } else {
            self
        }
    }

    /// Settles the turn in flight, if there is one, and clears its place.
    pub open spec fn settle(self, stop_reason: StopReason, usage: Usage) -> Advance {
        if self.has_active() {
            (
                MachineSpec { active: None, ..self },
                seq![
                    EventSpec::Settled {
                        uuid: self.active->0.uuid,
                        stop_reason,
                        usage,
                        had_usage: true,
                    },
                ],
            )
        } else {
            (self, Seq::empty())
        }
    }

    /// Fails the turn in flight, if there is one, and clears its place.
    pub open spec fn fail(self, kind: FailureKind, message: Seq<char>) -> Advance {
        if self.has_active() {
            (
                MachineSpec { active: None, ..self },
                seq![EventSpec::Failed { uuid: self.active->0.uuid, kind, message }],
            )
        } else {
            (self, Seq::empty())
        }
    }

    /// Settles a held turn with the outcome its result recorded.
    pub open spec fn settle_held(self) -> Advance {
        if self.is_held() {
            let d = self.active->0.deferred->0;
            self.settle(d.stop_reason, d.usage)
        } else {
            (self, Seq::empty())
        }
    }

    /// Settles a held turn once none of its subagents is live.
    pub open spec fn drain(self) -> Advance {
        if self.is_held() && !self.awaiting(self.active->0) {
            self.settle_held()
        } else {
            (self, Seq::empty())
        }
    }

    /// Settles the turn in flight, or holds it open while subagents that it
    /// spawned are live.
    pub open spec fn settle_or_defer(self, stop_reason: StopReason) -> Advance {
        if self.has_active() && self.awaiting(self.active->0) {
            (
                MachineSpec {
                    active: Some(
                        TurnSpec {
                            deferred: Some(DeferredSettle { stop_reason, usage: self.usage }),
                            ..self.active->0
                        },
                    ),
                    ..self
                },
                Seq::empty(),
            )
        } else {
            self.settle(stop_reason, self.usage)
        }
    }

    /// Makes `t` the active turn and starts afresh: no cancel, no orphans, no
    /// tokens.
    pub open spec fn activate(self, t: TurnSpec) -> Advance {
        (
            MachineSpec {
                active: Some(t),
                orphan_results: 0,
                orphaned: Seq::empty(),
                cancelled: false,
                usage: no_usage(),
                ..self
            },
            seq![EventSpec::Activated { uuid: t.uuid }],
        )
    }

    /// Finds the turn that a result without an echo belongs to. A turn in
    /// flight that is not held keeps the result. A held one settles first.
    /// Then a result owed to an orphan is used up by it; only if none is owed
    /// is the first waiting turn activated.
    pub open spec fn ensure_active(self) -> Advance {
        if self.active is Some && !self.is_held() {
            (self, Seq::empty())
        } else {
            let (m, e) = self.settle_held();
            let i = first_waiting(m.queue);
            if m.orphan_results > 0 {
                (MachineSpec { orphan_results: (m.orphan_results - 1) as nat, ..m }, e)
            } else if i < m.queue.len() {
                let (a, f) = MachineSpec { queue: m.queue.remove(i), ..m }.activate(m.queue[i]);
                (a, e + f)
            } else {
                (m, e)
            }
        }
    }
}

/// Where the first turn that is not settled stands; the number of turns if
/// there is none.
pub open spec fn first_waiting(q: Seq<TurnSpec>) -> int
    decreases q.len(),
{
    if q.len() == 0 {
        0
    } else if !q[0].settled {
        0
    } else {
        1 + first_waiting(q.drop_first())
    }
}

/// Where the first turn for the prompt `uuid` stands; the number of turns if
/// there is none.
pub open spec fn first_for(q: Seq<TurnSpec>, uuid: Seq<char>) -> int
    decreases q.len(),
{
    if q.len() == 0 {
        0
    } else if q[0].uuid == uuid {
        0
    } else {
        1 + first_for(q.drop_first(), uuid)
    }
}

/// The turns that are not settled, in order.
pub open spec fn waiting(q: Seq<TurnSpec>) -> Seq<TurnSpec>
    decreases q.len(),
{
    if q.len() == 0 {
        Seq::empty()
    } else if q.last().settled {
        waiting(q.drop_last())
    } else {
        waiting(q.drop_last()).push(q.last())
    }
}

/// The turns that are settled, in order.
pub open spec fn done(q: Seq<TurnSpec>) -> Seq<TurnSpec>
    decreases q.len(),
{
    if q.len() == 0 {
        Seq::empty()
    } else if q.last().settled {
        done(q.drop_last()).push(q.last())
    } else {
        done(q.drop_last())
    }
}

/// The event of a turn that a cancel sweeps from the queue.
pub open spec fn swept(t: TurnSpec) -> EventSpec {
    EventSpec::Settled {
        uuid: t.uuid,
        stop_reason: StopReason::Cancelled,
        usage: no_usage(),
        had_usage: false,
    }
}

/// The failure of a turn that never ran.
pub open spec fn rejected(t: TurnSpec, kind: FailureKind) -> EventSpec {
    EventSpec::Failed { uuid: t.uuid, kind, message: kind.message() }
}

impl MachineSpec {
    /// How the turn in flight ends when something else takes its place:
    /// cancelled if a cancel is pending, with its recorded outcome if it is
    /// held, as completed otherwise.
    pub open spec fn handed_off(self) -> (StopReason, Usage) {
        if self.cancelled {
            (StopReason::Cancelled, self.usage)
        } else if self.active matches Some(t) && t.deferred is Some {
            (self.active->0.deferred->0.stop_reason, self.active->0.deferred->0.usage)
        } else {
            (StopReason::EndTurn, self.usage)
        }
    }

    /// Enqueues a turn.
    pub open spec fn enqueue(self, t: TurnSpec) -> MachineSpec {
        MachineSpec { queue: self.queue.push(t), ..self }
    }

    /// A cancel: every waiting turn is swept and leaves an orphan, a held turn
    /// settles at once, and the turn in flight will settle at its idle. A held
    /// turn owes the idle that the interrupt brings, unless the session is idle
    /// already.
    pub open spec fn cancel(self) -> Advance {
        let w = waiting(self.queue);
        let m = MachineSpec {
            cancelled: true,
            queue: done(self.queue),
            orphan_results: self.orphan_results + w.len(),
            orphaned: self.orphaned + Seq::new(w.len(), |i: int| w[i].uuid),
            ..self
        };
        let e = Seq::new(w.len(), |i: int| swept(w[i]));
        if self.is_held() {
            let owed = if self.state != "idle"@ {
                m.owing()
            } else {
                m
            };
            let (n, f) = owed.settle(StopReason::Cancelled, self.active->0.deferred->0.usage);
            (n, e + f)
        } else {
            (m, e)
        }
    }

    /// The turn in flight is cancelled without waiting for it, and leaves an
    /// orphan.
    pub open spec fn force_cancel(self) -> Advance {
        let (m, e) = self.settle(StopReason::Cancelled, self.usage);
        if self.has_active() {
            (MachineSpec { orphan_results: m.orphan_results + 1, ..m }, e)
        } else {
            (MachineSpec { active: None, ..m }, e)
        }
    }

    /// The interrupt told which prompts are still queued: no result is expected
    /// any more of the swept ones that are not among them. Without such a list
    /// nothing changes.
    pub open spec fn reconcile(self, still_queued: Option<Seq<Seq<char>>>) -> MachineSpec {
        match still_queued {
            None => self,
            Some(s) => {
                let d = dropped(self.orphaned, s);
                MachineSpec {
                    orphan_results: if self.orphan_results >= d {
                        (self.orphan_results - d) as nat
                    } else {
                        0
                    },
                    orphaned: Seq::empty(),
                    ..self
                }
            },
        }
    }

    /// A background task started. A subagent counts as spawned by the turn in
    /// flight.
    pub open spec fn task_started(self, id: Seq<char>, is_subagent: bool) -> MachineSpec {
        let m = MachineSpec { live: self.live.insert(id, is_subagent), ..self };
        if is_subagent && self.has_active() {
            let t = self.active->0;
            MachineSpec { active: Some(TurnSpec { spawned: t.spawned.insert(id), ..t }), ..m }
        } else {
            m
        }
    }

    /// A background task ended.
    pub open spec fn task_ended(self, id: Seq<char>) -> MachineSpec {
        MachineSpec { live: self.live.remove(id), ..self }
    }

    /// The echo of a queued prompt: the turn in flight is handed off and the
    /// prompt's turn is activated. A cancelled turn handed off this way still
    /// owes the idle of its interrupt.
    pub open spec fn echo(self, uuid: Seq<char>) -> Advance {
        let i = first_for(self.queue, uuid);
        if i < self.queue.len() {
            let rest = MachineSpec { queue: self.queue.remove(i), ..self };
            let (reason, usage) = self.handed_off();
            let (m, e) = if self.has_active() && self.cancelled {
                rest.owing().settle(reason, usage)
            } else {
                rest.settle(reason, usage)
            };
            let (n, f) = m.activate(self.queue[i]);
            (n, e + f)
        } else {
            (self, Seq::empty())
        }
    }

    /// The session state changed.
    pub open spec fn session_state(self, state: Seq<char>) -> MachineSpec {
        MachineSpec { state, ..self }
    }

    /// The session went idle. A cancelled turn settles; a held one uses up an
    /// owed idle and settles once its subagents are gone; an owed idle is used
    /// up; only then does the idle mean that the turn in flight was abandoned.
    pub open spec fn idle(self) -> Advance {
        let m = self.session_state("idle"@);
        if self.cancelled && self.has_active() {
            m.settle(StopReason::Cancelled, m.usage)
        } else if self.is_held() {
            m.absorbing().drain()
        } else if self.owed_idles > 0 {
            (m.absorbing(), Seq::empty())
        } else if !self.cancelled {
            m.fail(FailureKind::NoResult, TURN_NO_RESULT_MESSAGE@)
        } else {
            (m, Seq::empty())
        }
    }

    /// The queue is emptied, and every turn that waited there fails.
    pub open spec fn reject_queue(self, kind: FailureKind) -> Advance {
        let w = waiting(self.queue);
        (
            MachineSpec { queue: Seq::empty(), ..self },
            Seq::new(w.len(), |i: int| rejected(w[i], kind)),
        )
    }

    /// The stream ended: the turn in flight is handed off, the queue rejected.
    pub open spec fn stream_end(self) -> Advance {
        let (reason, usage) = self.handed_off();
        let (m, e) = self.settle(reason, usage);
        let (n, f) = MachineSpec { active: None, ..m }.reject_queue(FailureKind::SessionEnded);
        (n, e + f)
    }

    /// Every turn fails, but for a held one, which settles as recorded.
    pub open spec fn fail_all(self, kind: FailureKind) -> Advance {
        let (m, e) = if self.is_held() {
            self.settle_held()
        } else {
            self.fail(kind, kind.message())
        };
        let (n, f) = MachineSpec { active: None, ..m }.reject_queue(kind);
        (n, e + f)
    }

    /// The tokens of a result are counted.
    pub open spec fn counting(self, usage: Usage) -> MachineSpec {
        MachineSpec { usage: usage_sum(self.usage, usage), ..self }
    }

    /// Whether a result that a prompt asked for is that of an orphan: no turn
    /// in flight can keep it, and a late result is still expected.
    pub open spec fn is_late(self) -> bool {
        (self.active is None || self.is_held()) && self.orphan_results > 0
    }

    /// A `result` frame. An autonomous one owes an idle and may drain a held
    /// turn, no more. Any other goes to the turn it belongs to; it owes an idle,
    /// unless it is the cancelled active turn's own; its tokens are counted; and
    /// unless the turn is cancelled, its verdict settles, holds or fails it. The
    /// late result of an orphan has no verdict.
    pub open spec fn result(self, frame: JsonSpec, text_delivered: bool) -> Advance {
        if is_autonomous(frame) {
            self.owing().drain()
        } else {
            let (m, e) = self.ensure_active();
            let owed = if m.cancelled && m.active is Some {
                m
            } else {
                m.owing()
            };
            let n = owed.counting(reported_usage(frame));
            if n.cancelled || self.is_late() {
                (n, e)
            } else {
                let (o, f) = n.judged(frame, text_delivered);
                (o, e + f)
            }
        }
    }

    /// The verdict of a result, carried out.
    pub open spec fn judged(self, frame: JsonSpec, text_delivered: bool) -> Advance {
        let local = self.active matches Some(t) && t.local_only;
        self.follow(verdict(frame), final_text(frame, local, text_delivered))
    }

    /// A verdict, carried out; `answer` goes before the settlement of an answer.
    pub open spec fn follow(self, v: Verdict, answer: Seq<EventSpec>) -> Advance {
        match v {
            Verdict::Fail(kind, message) => self.fail(kind, message),
            Verdict::Settle(reason) => self.settle_or_defer(reason),
            Verdict::Answer => {
                let (m, e) = self.settle_or_defer(StopReason::EndTurn);
                (m, answer + e)
            },
        }
    }
}

/// How many of the prompts in `orphaned` are not in `still_queued`.
pub open spec fn dropped(orphaned: Seq<Seq<char>>, still_queued: Seq<Seq<char>>) -> nat
    decreases orphaned.len(),
{
    if orphaned.len() == 0 {
        0
    } else {
        dropped(orphaned.drop_last(), still_queued) + if still_queued.contains(orphaned.last()) {
            0nat
        } else {
            1nat
        }
    }
}

/// The sum of two counts.
pub open spec fn usage_sum(a: Usage, b: Usage) -> Usage {
    Usage {
        input_tokens: (a.input_tokens + b.input_tokens) as u64,
        output_tokens: (a.output_tokens + b.output_tokens) as u64,
        cached_read_tokens: (a.cached_read_tokens + b.cached_read_tokens) as u64,
        cached_write_tokens: (a.cached_write_tokens + b.cached_write_tokens) as u64,
    }
}

/// Whether the sum of two counts can be held.
pub open spec fn usage_fits(a: Usage, b: Usage) -> bool {
    &&& a.input_tokens + b.input_tokens <= u64::MAX
    &&& a.output_tokens + b.output_tokens <= u64::MAX
    &&& a.cached_read_tokens + b.cached_read_tokens <= u64::MAX
    &&& a.cached_write_tokens + b.cached_write_tokens <= u64::MAX
}

/// The count under `key`, or zero.
pub open spec fn tokens(usage: JsonSpec, key: Seq<char>) -> u64 {
    match usage.get_u64(key) {
        Some(n) => n,
        None => 0,
    }
}

/// The tokens that a result reports.
pub open spec fn reported_usage(frame: JsonSpec) -> Usage {
    match frame.get("usage"@) {
        Some(u) => Usage {
            input_tokens: tokens(u, "input_tokens"@),
            output_tokens: tokens(u, "output_tokens"@),
            cached_read_tokens: tokens(u, "cache_read_input_tokens"@),
            cached_write_tokens: tokens(u, "cache_creation_input_tokens"@),
        },
        None => no_usage(),
    }
}

/// Whether a kind of origin is that of a result which no prompt asked for.
pub open spec fn is_autonomous_kind(kind: Seq<char>) -> bool {
    ||| kind == "task-notification"@
    ||| kind == "peer"@
    ||| kind == "coordinator"@
    ||| kind == "observer"@
    ||| kind == "observer-activity"@
}

/// Whether no prompt asked for this result.
pub open spec fn is_autonomous(frame: JsonSpec) -> bool {
    frame.get("origin"@) matches Some(origin) && origin.get_str("kind"@) matches Some(kind)
        && is_autonomous_kind(kind)
}

/// What a result says of its turn.
pub enum Verdict {
    /// The turn is over, for this reason.
    Settle(StopReason),
    /// The turn is over and its answer may stand in the result alone.
    Answer,
    /// The turn failed.
    Fail(FailureKind, Seq<char>),
}

/// The message of a failed result: its errors, or its subtype if it has none.
pub open spec fn error_text(frame: JsonSpec, subtype: Seq<char>) -> Seq<char> {
    let all = match frame.get_array("errors"@) {
        Some(a) => joined(strings_in(a), ", "@),
        None => Seq::empty(),
    };
    if all.len() == 0 {
        subtype
    } else {
        all
    }
}

/// What a result says of its turn. A refusal comes before everything else. In
/// a success a request to log in comes first, then the token limit, then the
/// error mark; in a failed execution the token limit comes before the error
/// mark. The exhausted limits fail with their own kind if marked as errors.
pub open spec fn verdict(frame: JsonSpec) -> Verdict {
    let is_error = frame.get_bool("is_error"@) == Some(true);
    let reason = frame.str_or_empty("stop_reason"@);
    let text = frame.str_or_empty("result"@);
    let subtype = frame.str_or_empty("subtype"@);
    if reason == "refusal"@ {
        Verdict::Settle(StopReason::Refusal)
    } else if subtype == "success"@ {
        if contains_text(text, "Please run /login"@) {
            Verdict::Fail(FailureKind::AuthRequired, text)
        } else if reason == "max_tokens"@ {
            Verdict::Settle(StopReason::MaxTokens)
        } else if is_error {
            Verdict::Fail(FailureKind::ProviderError, text)
        } else {
            Verdict::Answer
        }
    } else if subtype == "error_during_execution"@ {
        if reason == "max_tokens"@ {
            Verdict::Settle(StopReason::MaxTokens)
        } else if is_error {
            Verdict::Fail(FailureKind::ProviderError, error_text(frame, subtype))
        } else {
            Verdict::Settle(StopReason::EndTurn)
        }
    } else if subtype == "error_max_budget_usd"@ {
        exhausted(frame, is_error, subtype, FailureKind::BudgetExhausted)
    } else if subtype == "error_max_turns"@ {
        exhausted(frame, is_error, subtype, FailureKind::ContextExhausted)
    } else if subtype == "error_max_structured_output_retries"@ {
        exhausted(frame, is_error, subtype, FailureKind::ProviderError)
    } else {
        Verdict::Settle(StopReason::EndTurn)
    }
}

/// What a result says that ran into a limit.
pub open spec fn exhausted(
    frame: JsonSpec,
    is_error: bool,
    subtype: Seq<char>,
    kind: FailureKind,
) -> Verdict {
    if is_error {
        Verdict::Fail(kind, error_text(frame, subtype))
    } else {
        Verdict::Settle(StopReason::MaxTurnRequests)
    }
}

/// The answer that stands in the result alone: that of a local command, or one
/// of which nothing was delivered and for which no token was put out.
pub open spec fn final_text(frame: JsonSpec, local: bool, text_delivered: bool) -> Seq<EventSpec> {
    let text = frame.str_or_empty("result"@);
    if (local || (!text_delivered && reported_usage(frame).output_tokens == 0)) && text.len() > 0 {
        seq![EventSpec::FinalText { text }]
    } else {
        Seq::empty()
    }
}

impl MachineSpec {
    /// Whether the counters can take a cancel.
    pub open spec fn cancel_fits(self) -> bool {
        &&& self.orphan_results + waiting(self.queue).len() <= usize::MAX
        &&& self.is_held() && self.state != "idle"@ ==> self.owed_idles < usize::MAX
    }

    /// Whether the counters can take a forced cancel.
    pub open spec fn force_cancel_fits(self) -> bool {
        self.has_active() ==> self.orphan_results < usize::MAX
    }

    /// Whether the counters can take the echo of `uuid`.
    pub open spec fn echo_fits(self, uuid: Seq<char>) -> bool {
        first_for(self.queue, uuid) < self.queue.len() && self.has_active() && self.cancelled
            ==> self.owed_idles < usize::MAX
    }

    /// Whether the counters can take a result.
    pub open spec fn result_fits(self, frame: JsonSpec) -> bool {
        let m = self.ensure_active().0;
        if is_autonomous(frame) {
            self.owed_idles < usize::MAX
        } else {
            &&& !(m.cancelled && m.active is Some) ==> self.owed_idles < usize::MAX
            &&& usage_fits(m.usage, reported_usage(frame))
        }
    }
}

impl Turn {
    /// What the turn holds.
    pub closed spec fn view(&self) -> TurnSpec {
        TurnSpec {
            uuid: self.prompt_uuid@,
            local_only: self.is_local_only_command,
            settled: self.settled,
            deferred: self.deferred_settle,
            spawned: self.spawned_task_ids@,
        }
    }

    /// The turn of a prompt that was not sent yet.
    pub fn new(prompt_uuid: String, is_local_only_command: bool) -> (r: Turn)
        ensures
            r@ == (TurnSpec {
                uuid: prompt_uuid@,
                local_only: is_local_only_command,
                settled: false,
                deferred: None,
                spawned: Set::empty(),
            }),
    {
        Turn {
            prompt_uuid,
            is_local_only_command,
            settled: false,
            deferred_settle: None,
            spawned_task_ids: StrSet::new(),
        }
    }

    /// Whether the turn is settled.
    pub fn is_settled(&self) -> (r: bool)
        ensures
            r == self@.settled,
    {
        self.settled
    }

    /// The prompt of the turn.
    pub fn prompt_uuid(&self) -> (r: &str)
        ensures
            r@ == self@.uuid,
    {
        self.prompt_uuid.as_str()
    }

    /// Whether the prompt is a command that no model answers.
    pub fn is_local_only_command(&self) -> (r: bool)
        ensures
            r == self@.local_only,
    {
        self.is_local_only_command
    }

    fn is_held(&self) -> (r: bool)
        ensures
            r == held(self@),
    {
        self.deferred_settle.is_some() && !self.settled
    }
}

/// What the turns of a list hold.
pub open spec fn turns(q: Seq<Turn>) -> Seq<TurnSpec> {
    Seq::new(q.len(), |i: int| q[i]@)
}

/// What an optional turn holds.
pub open spec fn opt_turn(t: Option<Turn>) -> Option<TurnSpec> {
    match t {
        Some(t) => Some(t@),
        None => None,
    }
}

proof fn lemma_first_waiting(q: Seq<TurnSpec>, i: int)
    requires
        0 <= i <= q.len(),
        forall|j: int| 0 <= j < i ==> (#[trigger] q[j]).settled,
        i < q.len() ==> !q[i].settled,
    ensures
        first_waiting(q) == i,
    decreases q.len(),
{
    if q.len() > 0 && i > 0 {
        assert(q[0].settled);
        lemma_first_waiting(q.drop_first(), i - 1);
    }
}

proof fn lemma_first_for(q: Seq<TurnSpec>, uuid: Seq<char>, i: int)
    requires
        0 <= i <= q.len(),
        forall|j: int| 0 <= j < i ==> (#[trigger] q[j]).uuid != uuid,
        i < q.len() ==> q[i].uuid == uuid,
    ensures
        first_for(q, uuid) == i,
    decreases q.len(),
{
    if q.len() > 0 && i > 0 {
        assert(q[0].uuid != uuid);
        lemma_first_for(q.drop_first(), uuid, i - 1);
    }
}

impl TurnMachine {
    /// What the machine holds.
    pub closed spec fn view(&self) -> MachineSpec {
        MachineSpec {
            active: opt_turn(self.active),
            queue: turns(self.queue@),
            live: self.live_subagents@,
            orphan_results: self.pending_orphan_results as nat,
            orphaned: texts(self.orphaned_uuids@),
            owed_idles: self.owed_trailing_idles as nat,
            cancelled: self.cancelled,
            state: self.last_session_state@,
            usage: self.accumulated_usage,
        }
    }

    /// A machine without turns.
    pub fn new() -> (r: TurnMachine)
        ensures
            r@ == MachineSpec::initial(),
    {
        let r = TurnMachine {
            active: None,
            queue: VecDeque::new(),
            live_subagents: StrMap::new(),
            pending_orphan_results: 0,
            orphaned_uuids: Vec::new(),
            owed_trailing_idles: 0,
            cancelled: false,
            last_session_state: String::new(),
            accumulated_usage: Usage::default(),
        };
        proof {
            assert(r@ =~= MachineSpec::initial());
        }
        r
    }

    /// Whether a turn is in flight.
    pub fn has_active(&self) -> (r: bool)
        ensures
            r == self@.has_active(),
    {
        match &self.active {
            Some(t) => !t.settled,
            None => false,
        }
    }

    fn is_held(&self) -> (r: bool)
        ensures
            r == self@.is_held(),
    {
        match &self.active {
            Some(t) => t.is_held(),
            None => false,
        }
    }

    /// The position of the first turn that waits, or the number of turns.
    fn first_waiting(&self) -> (r: usize)
        ensures
            r == first_waiting(self@.queue),
            r <= self@.queue.len(),
            r < self@.queue.len() ==> !self@.queue[r as int].settled,
    {
        let mut i: usize = 0;
        while i < self.queue.len()
            invariant
                i <= self.queue@.len(),
                forall|j: int| 0 <= j < i ==> (#[trigger] self@.queue[j]).settled,
            decreases self.queue@.len() - i,
        {
            if !self.queue[i].settled {
                proof {
                    lemma_first_waiting(self@.queue, i as int);
                }
                return i;
            }
            i += 1;
        }
        proof {
            lemma_first_waiting(self@.queue, i as int);
        }
        i
    }

    /// The position of the first turn for `uuid`, or the number of turns.
    fn first_for(&self, uuid: &str) -> (r: usize)
        ensures
            r == first_for(self@.queue, uuid@),
            r <= self@.queue.len(),
    {
        let mut i: usize = 0;
        while i < self.queue.len()
            invariant
                i <= self.queue@.len(),
                forall|j: int| 0 <= j < i ==> (#[trigger] self@.queue[j]).uuid != uuid@,
            decreases self.queue@.len() - i,
        {
            if str_eq(self.queue[i].prompt_uuid.as_str(), uuid) {
                proof {
                    lemma_first_for(self@.queue, uuid@, i as int);
                }
                return i;
            }
            i += 1;
        }
        proof {
            lemma_first_for(self@.queue, uuid@, i as int);
        }
        i
    }

    /// Whether a turn is in flight or waits in the queue.
    pub fn has_unsettled(&self) -> (r: bool)
        ensures
            r == self@.has_unsettled(),
    {
        let i = self.first_waiting();
        proof {
            if i as int == self@.queue.len() {
                lemma_none_waiting(self@.queue);
            }
        }
        self.has_active() || i < self.queue.len()
    }

    /// Enqueues a turn. It waits for its echo.
    pub fn enqueue(&mut self, turn: Turn)
        ensures
            final(self)@ == old(self)@.enqueue(turn@),
    {
        self.queue.push_back(turn);
        proof {
            assert(turns(self.queue@) =~= turns(old(self).queue@).push(turn@));
        }
    }

    /// Whether a subagent that the active turn spawned is still live.
    fn awaiting(&self) -> (r: bool)
        ensures
            r == (self@.active is Some && self@.awaiting(self@.active->0)),
    {
        match &self.active {
            Some(t) => {
                let ids = t.spawned_task_ids.items();
                let mut i: usize = 0;
                while i < ids.len()
                    invariant
                        i <= ids@.len(),
                        self.active == Some(*t),
                        set_of(ids@) == t@.spawned,
                        forall|j: int|
                            0 <= j < i ==> !(self@.live.contains_key((#[trigger] ids@[j])@)
                                && self@.live[ids@[j]@]),
                    decreases ids@.len() - i,
                {
                    if let Some(live) = self.live_subagents.get(ids[i].as_str()) {
                        if *live {
                            proof {
                                assert(set_of(ids@).contains(ids@[i as int]@));
                            }
                            return true;
                        }
                    }
                    i += 1;
                }
                false
            },
            None => false,
        }
    }

    /// Settles the turn in flight.
    fn settle(&mut self, outcome: StopReason, usage: Usage, events: &mut Vec<TurnEvent>)
        ensures
            final(self)@ == old(self)@.settle(outcome, usage).0,
            seen(final(events)@) == seen(old(events)@) + old(self)@.settle(outcome, usage).1,
    {
        if !self.has_active() {
            return;
        }
        if let Some(active) = self.active.take() {
            events.push(
                TurnEvent::Settled {
                    prompt_uuid: active.prompt_uuid,
                    stop_reason: outcome,
                    usage,
                    had_usage: true,
                },
            );
        }
        proof {
            assert(seen(events@) =~= seen(old(events)@) + old(self)@.settle(outcome, usage).1);
        }
    }

    /// Fails the turn in flight.
    fn fail_active(&mut self, kind: FailureKind, message: String, events: &mut Vec<TurnEvent>)
        ensures
            final(self)@ == old(self)@.fail(kind, message@).0,
            seen(final(events)@) == seen(old(events)@) + old(self)@.fail(kind, message@).1,
    {
        if !self.has_active() {
            return;
        }
        if let Some(active) = self.active.take() {
            events.push(TurnEvent::Failed { prompt_uuid: active.prompt_uuid, kind, message });
        }
        proof {
            assert(seen(events@) =~= seen(old(events)@) + old(self)@.fail(kind, message@).1);
        }
    }

    /// Settles a held turn with its recorded outcome.
    fn settle_held(&mut self, events: &mut Vec<TurnEvent>)
        ensures
            final(self)@ == old(self)@.settle_held().0,
            seen(final(events)@) == seen(old(events)@) + old(self)@.settle_held().1,
    {
        if self.is_held() {
            let deferred = match &self.active {
                Some(t) => t.deferred_settle,
                None => None,
            };
            if let Some(d) = deferred {
                self.settle(d.stop_reason, d.usage, events);
            }
        }
    }

    /// Settles a held turn once none of its subagents is live.
    fn settle_deferred_if_drained(&mut self, events: &mut Vec<TurnEvent>)
        ensures
            final(self)@ == old(self)@.drain().0,
            seen(final(events)@) == seen(old(events)@) + old(self)@.drain().1,
    {
        if self.is_held() && !self.awaiting() {
            self.settle_held(events);
        }
    }

    /// Settles the turn in flight, or holds it open while its subagents live.
    fn settle_or_defer(&mut self, outcome: StopReason, events: &mut Vec<TurnEvent>)
        ensures
            final(self)@ == old(self)@.settle_or_defer(outcome).0,
            seen(final(events)@) == seen(old(events)@) + old(self)@.settle_or_defer(outcome).1,
    {
        let usage = self.accumulated_usage;
        if self.has_active() && self.awaiting() {
            if let Some(active) = self.active.take() {
                let mut held = active;
                held.deferred_settle = Some(DeferredSettle { stop_reason: outcome, usage });
                self.active = Some(held);
            }
        } else {
            self.settle(outcome, usage, events);
        }
    }

    /// Makes `queued` the active turn.
    fn activate(&mut self, queued: Turn, events: &mut Vec<TurnEvent>)
        ensures
            final(self)@ == old(self)@.activate(queued@).0,
            seen(final(events)@) == seen(old(events)@) + old(self)@.activate(queued@).1,
    {
        self.cancelled = false;
        self.pending_orphan_results = 0;
        self.orphaned_uuids = Vec::new();
        self.accumulated_usage = Usage::default();
        let prompt_uuid = queued.prompt_uuid.clone();
        self.active = Some(queued);
        events.push(TurnEvent::Activated { prompt_uuid });
        proof {
            assert(seen(events@) =~= seen(old(events)@) + old(self)@.activate(queued@).1);
            assert(self@ =~= old(self)@.activate(queued@).0);
        }
    }

    /// Finds the turn that a result without an echo belongs to.
    fn ensure_active_turn(&mut self, events: &mut Vec<TurnEvent>)
        ensures
            final(self)@ == old(self)@.ensure_active().0,
            seen(final(events)@) == seen(old(events)@) + old(self)@.ensure_active().1,
    {
        if self.active.is_some() && !self.is_held() {
            return;
        }
        self.settle_held(events);
        if self.pending_orphan_results > 0 {
            self.pending_orphan_results = self.pending_orphan_results - 1;
            return;
        }
        let i = self.first_waiting();
        if i < self.queue.len() {
            let ghost m = self@;
            if let Some(queued) = self.queue.remove(i) {
                proof {
                    assert(turns(self.queue@) =~= m.queue.remove(i as int));
                }
                self.activate(queued, events);
                proof {
                    assert(seen(events@) =~= seen(old(events)@) + old(self)@.ensure_active().1);
                }
            }
        }
    }
}

impl Default for TurnMachine {
    fn default() -> (r: TurnMachine)
        ensures
            r@ == MachineSpec::initial(),
    {
        TurnMachine::new()
    }
}

impl TurnMachine {
    /// Whether the counters can take a cancel.
    pub fn cancel_fits(&self) -> (r: bool)
        ensures
            r == self@.cancel_fits(),
    {
        let mut room: usize = usize::MAX - self.pending_orphan_results;
        let mut i: usize = 0;
        while i < self.queue.len()
            invariant
                i <= self.queue@.len(),
                room + waiting(self@.queue.take(i as int)).len() + self.pending_orphan_results
                    == usize::MAX,
            decreases self.queue@.len() - i,
        {
            proof {
                assert(self@.queue.take(i + 1).drop_last() =~= self@.queue.take(i as int));
                assert(self@.queue.take(i + 1).last() == self@.queue[i as int]);
            }
            if !self.queue[i].settled {
                if room == 0 {
                    proof {
                        lemma_waiting_grows(self@.queue, i + 1);
                    }
                    return false;
                }
                room = room - 1;
            }
            i += 1;
        }
        proof {
            assert(self@.queue.take(i as int) =~= self@.queue);
        }
        !(self.is_held() && !str_eq(self.last_session_state.as_str(), "idle"))
            || self.owed_trailing_idles < usize::MAX
    }

    /// A `session/cancel`: sweeps the queue, settles a held turn, and marks the
    /// turn in flight as cancelled.
    pub fn cancel(&mut self) -> (r: Vec<TurnEvent>)
        requires
            old(self)@.cancel_fits(),
        ensures
            final(self)@ == old(self)@.cancel().0,
            seen(r@) == old(self)@.cancel().1,
    {
        let mut events: Vec<TurnEvent> = Vec::new();
        self.cancelled = true;
        let mut queue: VecDeque<Turn> = VecDeque::new();
        std::mem::swap(&mut queue, &mut self.queue);
        let ghost all = turns(queue@);
        let ghost m = old(self)@;
        let mut orphans: usize = self.pending_orphan_results;
        let mut uuids: Vec<String> = Vec::new();
        std::mem::swap(&mut uuids, &mut self.orphaned_uuids);
        let mut remaining: VecDeque<Turn> = VecDeque::new();
        let ghost mut taken: int = 0;
        while queue.len() > 0
            invariant
                0 <= taken <= all.len(),
                turns(queue@) == all.skip(taken),
                orphans == m.orphan_results + waiting(all.take(taken)).len(),
                texts(uuids@) == m.orphaned + Seq::new(
                    waiting(all.take(taken)).len(),
                    |i: int| waiting(all.take(taken))[i].uuid,
                ),
                seen(events@) == Seq::new(
                    waiting(all.take(taken)).len(),
                    |i: int| swept(waiting(all.take(taken))[i]),
                ),
                turns(remaining@) == done(all.take(taken)),
                m.queue == all,
                m.cancel_fits(),
            decreases queue@.len(),
        {
            let ghost queue_before = queue@;
            let ghost uuids_before = texts(uuids@);
            let ghost events_before = seen(events@);
            let ghost remaining_before = turns(remaining@);
            proof {
                assert(turns(queue@).len() == all.skip(taken).len());
                assert(taken < all.len());
                assert(turns(queue@)[0] == all[taken]);
                assert(all.take(taken + 1).drop_last() =~= all.take(taken));
                assert(all.take(taken + 1).last() == all[taken]);
                lemma_waiting_grows(all, taken + 1);
            }
            if let Some(turn) = queue.pop_front() {
                proof {
                    assert(turn@ == all[taken]);
                    assert forall|i: int| 0 <= i < queue@.len() implies turns(queue@)[i] == all.skip(
                        taken + 1,
                    )[i] by {
                        assert(queue@[i] == queue_before[i + 1]);
                        assert(turns(queue_before)[i + 1] == all.skip(taken)[i + 1]);
                    }
                    assert(turns(queue@) =~= all.skip(taken + 1));
                }
                if turn.settled {
                    remaining.push_back(turn);
                    proof {
                        assert(turns(remaining@) =~= remaining_before.push(turn@));
                    }
                } else {
                    orphans = orphans + 1;
                    uuids.push(turn.prompt_uuid.clone());
                    events.push(
                        TurnEvent::Settled {
                            prompt_uuid: turn.prompt_uuid,
                            stop_reason: StopReason::Cancelled,
                            usage: Usage::default(),
                            had_usage: false,
                        },
                    );
                    proof {
                        assert(texts(uuids@) =~= uuids_before.push(turn@.uuid));
                        assert(seen(events@) =~= events_before.push(swept(turn@)));
                    }
                }
            }
            proof {
                let before = waiting(all.take(taken));
                taken = taken + 1;
                let now = waiting(all.take(taken));
                assert(texts(uuids@) =~= m.orphaned + Seq::new(now.len(), |i: int| now[i].uuid));
                assert(seen(events@) =~= Seq::new(now.len(), |i: int| swept(now[i])));
            }
        }
        proof {
            assert(all.skip(taken).len() == 0);
            assert(all.take(taken) =~= all);
        }
        self.pending_orphan_results = orphans;
        self.orphaned_uuids = uuids;
        self.queue = remaining;
        if self.is_held() {
            if !str_eq(self.last_session_state.as_str(), "idle") {
                self.owed_trailing_idles = self.owed_trailing_idles + 1;
            }
            let deferred = match &self.active {
                Some(t) => t.deferred_settle,
                None => None,
            };
            if let Some(d) = deferred {
                self.settle(StopReason::Cancelled, d.usage, &mut events);
            }
        }
        proof {
            assert(self@ =~= m.cancel().0);
            assert(seen(events@) =~= m.cancel().1);
        }
        events
    }
}

impl TurnMachine {
    /// Whether the counters can take a forced cancel.
    pub fn force_cancel_fits(&self) -> (r: bool)
        ensures
            r == self@.force_cancel_fits(),
    {
        !self.has_active() || self.pending_orphan_results < usize::MAX
    }

    /// Cancels the turn in flight without waiting for it. Its late result is
    /// expected as an orphan's.
    pub fn force_cancel(&mut self) -> (r: Vec<TurnEvent>)
        requires
            old(self)@.force_cancel_fits(),
        ensures
            final(self)@ == old(self)@.force_cancel().0,
            seen(r@) == old(self)@.force_cancel().1,
    {
        let mut events: Vec<TurnEvent> = Vec::new();
        if self.has_active() {
            self.pending_orphan_results = self.pending_orphan_results + 1;
            let usage = self.accumulated_usage;
            self.settle(StopReason::Cancelled, usage, &mut events);
        }
        self.active = None;
        proof {
            assert(seen(events@) =~= old(self)@.force_cancel().1);
        }
        events
    }

    /// Reconciles the orphans with what the interrupt's receipt says is still
    /// queued. Without such a list nothing changes.
    pub fn reconcile_orphan_receipt(&mut self, still_queued: Option<&[String]>)
        ensures
            final(self)@ == old(self)@.reconcile(
                match still_queued {
                    Some(v) => Some(texts(v@)),
                    None => None,
                },
            ),
    {
        let still = match still_queued {
            Some(v) => v,
            None => {
                return ;
            },
        };
        let mut gone: usize = 0;
        let mut i: usize = 0;
        while i < self.orphaned_uuids.len()
            invariant
                i <= self.orphaned_uuids@.len(),
                gone <= i,
                gone == dropped(texts(self.orphaned_uuids@).take(i as int), texts(still@)),
            decreases self.orphaned_uuids@.len() - i,
        {
            let mut kept = false;
            let mut j: usize = 0;
            while j < still.len()
                invariant
                    i < self.orphaned_uuids@.len(),
                    j <= still@.len(),
                    kept == exists|k: int|
                        0 <= k < j && #[trigger] texts(still@)[k] == texts(self.orphaned_uuids@)[i as int],
                decreases still@.len() - j,
            {
                if str_eq(still[j].as_str(), self.orphaned_uuids[i].as_str()) {
                    proof {
                        assert(texts(still@)[j as int] == texts(self.orphaned_uuids@)[i as int]);
                    }
                    kept = true;
                }
                j += 1;
            }
            proof {
                let all = texts(self.orphaned_uuids@);
                assert(all.take(i + 1).drop_last() =~= all.take(i as int));
                assert(all.take(i + 1).last() == all[i as int]);
                assert(kept == texts(still@).contains(all[i as int]));
            }
            if !kept {
                gone = gone + 1;
            }
            i += 1;
        }
        proof {
            let all = texts(self.orphaned_uuids@);
            assert(all.take(i as int) =~= all);
        }
        if self.pending_orphan_results >= gone {
            self.pending_orphan_results = self.pending_orphan_results - gone;
        } else {
            self.pending_orphan_results = 0;
        }
        self.orphaned_uuids = Vec::new();
        proof {
            assert(texts(self.orphaned_uuids@) =~= Seq::<Seq<char>>::empty());
        }
    }

    /// A background task started.
    pub fn on_task_started(&mut self, task_id: &str, is_subagent: bool)
        ensures
            final(self)@ == old(self)@.task_started(task_id@, is_subagent),
    {
        self.live_subagents.insert(task_id, is_subagent);
        if is_subagent && self.has_active() {
            if let Some(active) = self.active.take() {
                let mut t = active;
                t.spawned_task_ids.insert(task_id);
                self.active = Some(t);
            }
        }
    }

    /// A background task ended. A held turn stays held: it drains at the
    /// autonomous result or the idle that follows.
    pub fn on_task_ended(&mut self, task_id: &str) -> (r: Vec<TurnEvent>)
        ensures
            final(self)@ == old(self)@.task_ended(task_id@),
            r@.len() == 0,
    {
        self.live_subagents.remove(task_id);
        Vec::new()
    }

    /// How the turn in flight ends when something else takes its place.
    fn handed_off(&self) -> (r: (StopReason, Usage))
        ensures
            r == self@.handed_off(),
    {
        if self.cancelled {
            (StopReason::Cancelled, self.accumulated_usage)
        } else {
            let deferred = match &self.active {
                Some(t) => t.deferred_settle,
                None => None,
            };
            match deferred {
                Some(d) => (d.stop_reason, d.usage),
                None => (StopReason::EndTurn, self.accumulated_usage),
            }
        }
    }

    /// Whether the counters can take the echo of `uuid`.
    pub fn echo_fits(&self, uuid: &str) -> (r: bool)
        ensures
            r == self@.echo_fits(uuid@),
    {
        !(self.first_for(uuid) < self.queue.len() && self.has_active() && self.cancelled)
            || self.owed_trailing_idles < usize::MAX
    }

    /// The echo of a prompt: its turn becomes the active one. An echo of no
    /// queued prompt changes nothing.
    pub fn on_echo(&mut self, uuid: &str) -> (r: Vec<TurnEvent>)
        requires
            old(self)@.echo_fits(uuid@),
        ensures
            final(self)@ == old(self)@.echo(uuid@).0,
            seen(r@) == old(self)@.echo(uuid@).1,
    {
        let mut events: Vec<TurnEvent> = Vec::new();
        let i = self.first_for(uuid);
        if i < self.queue.len() {
            let (outcome, usage) = self.handed_off();
            if let Some(queued) = self.queue.remove(i) {
                proof {
                    assert(turns(self.queue@) =~= old(self)@.queue.remove(i as int));
                }
                if self.has_active() && self.cancelled {
                    self.owed_trailing_idles = self.owed_trailing_idles + 1;
                }
                self.settle(outcome, usage, &mut events);
                self.activate(queued, &mut events);
            }
        }
        proof {
            assert(seen(events@) =~= old(self)@.echo(uuid@).1);
        }
        events
    }

    /// Records the session state.
    pub fn on_session_state(&mut self, state: &str)
        ensures
            final(self)@ == old(self)@.session_state(state@),
    {
        self.last_session_state = state.to_owned();
    }

    /// The session went idle.
    pub fn on_idle(&mut self) -> (r: Vec<TurnEvent>)
        ensures
            final(self)@ == old(self)@.idle().0,
            seen(r@) == old(self)@.idle().1,
    {
        let mut events: Vec<TurnEvent> = Vec::new();
        self.on_session_state("idle");
        if self.cancelled && self.has_active() {
            let usage = self.accumulated_usage;
            self.settle(StopReason::Cancelled, usage, &mut events);
        } else if self.is_held() {
            if self.owed_trailing_idles > 0 {
                self.owed_trailing_idles = self.owed_trailing_idles - 1;
            }
            self.settle_deferred_if_drained(&mut events);
        } else if self.owed_trailing_idles > 0 {
            self.owed_trailing_idles = self.owed_trailing_idles - 1;
        } else if !self.cancelled {
            self.fail_active(
                FailureKind::NoResult,
                TURN_NO_RESULT_MESSAGE.to_owned(),
                &mut events,
            );
        }
        proof {
            assert(seen(events@) =~= old(self)@.idle().1);
        }
        events
    }

    /// Empties the queue; the turns that waited there fail.
    fn reject_queue(&mut self, kind: FailureKind, events: &mut Vec<TurnEvent>)
        ensures
            final(self)@ == old(self)@.reject_queue(kind).0,
            seen(final(events)@) == seen(old(events)@) + old(self)@.reject_queue(kind).1,
    {
        let mut queue: VecDeque<Turn> = VecDeque::new();
        std::mem::swap(&mut queue, &mut self.queue);
        let ghost all = turns(queue@);
        let ghost before = seen(events@);
        let ghost mut taken: int = 0;
        while queue.len() > 0
            invariant
                0 <= taken <= all.len(),
                turns(queue@) == all.skip(taken),
                seen(events@) == before + Seq::new(
                    waiting(all.take(taken)).len(),
                    |i: int| rejected(waiting(all.take(taken))[i], kind),
                ),
            decreases queue@.len(),
        {
            let ghost queue_before = queue@;
            let ghost events_before = seen(events@);
            proof {
                assert(turns(queue@).len() == all.skip(taken).len());
                assert(taken < all.len());
                assert(turns(queue@)[0] == all[taken]);
                assert(all.take(taken + 1).drop_last() =~= all.take(taken));
                assert(all.take(taken + 1).last() == all[taken]);
            }
            if let Some(turn) = queue.pop_front() {
                proof {
                    assert forall|i: int| 0 <= i < queue@.len() implies turns(queue@)[i] == all.skip(
                        taken + 1,
                    )[i] by {
                        assert(queue@[i] == queue_before[i + 1]);
                        assert(turns(queue_before)[i + 1] == all.skip(taken)[i + 1]);
                    }
                    assert(turns(queue@) =~= all.skip(taken + 1));
                }
                if !turn.settled {
                    events.push(
                        TurnEvent::Failed {
                            prompt_uuid: turn.prompt_uuid,
                            kind,
                            message: kind.default_message().to_owned(),
                        },
                    );
                    proof {
                        assert(seen(events@) =~= events_before.push(rejected(turn@, kind)));
                    }
                }
            }
            proof {
                taken = taken + 1;
                let now = waiting(all.take(taken));
                assert(seen(events@) =~= before + Seq::new(
                    now.len(),
                    |i: int| rejected(now[i], kind),
                ));
            }
        }
        proof {
            assert(all.skip(taken).len() == 0);
            assert(all.take(taken) =~= all);
            assert(turns(self.queue@) =~= Seq::<TurnSpec>::empty());
            assert(self@ =~= old(self)@.reject_queue(kind).0);
        }
    }

    /// The stream ended: the turn in flight is handed off, every queued turn
    /// is rejected.
    pub fn on_stream_end(&mut self) -> (r: Vec<TurnEvent>)
        ensures
            final(self)@ == old(self)@.stream_end().0,
            seen(r@) == old(self)@.stream_end().1,
    {
        let mut events: Vec<TurnEvent> = Vec::new();
        let (outcome, usage) = self.handed_off();
        self.settle(outcome, usage, &mut events);
        self.active = None;
        self.reject_queue(FailureKind::SessionEnded, &mut events);
        proof {
            assert(seen(events@) =~= old(self)@.stream_end().1);
        }
        events
    }

    /// Fails every turn, but for a held one, which settles as recorded.
    pub fn fail_all(&mut self, kind: FailureKind) -> (r: Vec<TurnEvent>)
        ensures
            final(self)@ == old(self)@.fail_all(kind).0,
            seen(r@) == old(self)@.fail_all(kind).1,
    {
        let mut events: Vec<TurnEvent> = Vec::new();
        if self.is_held() {
            self.settle_held(&mut events);
        } else {
            self.fail_active(kind, kind.default_message().to_owned(), &mut events);
        }
        self.active = None;
        self.reject_queue(kind, &mut events);
        proof {
            assert(seen(events@) =~= old(self)@.fail_all(kind).1);
        }
        events
    }
}

/// Whether no prompt asked for this result.
pub fn is_autonomous_result(result: &Json) -> (r: bool)
    ensures
        r == is_autonomous(result@),
{
    match result.get("origin") {
        Some(origin) => match origin.get_str("kind") {
            Some(kind) => str_eq(kind, "task-notification") || str_eq(kind, "peer") || str_eq(
                kind,
                "coordinator",
            ) || str_eq(kind, "observer") || str_eq(kind, "observer-activity"),
            None => false,
        },
        None => false,
    }
}

/// The message of a failed result.
pub fn error_message(result: &Json, subtype: &str) -> (r: String)
    ensures
        r@ == error_text(result@, subtype@),
{
    let found = match result.get_array("errors") {
        Some(errors) => strings_of(errors),
        None => Vec::new(),
    };
    proof {
        if result@.get_array("errors"@) is None {
            assert(texts(found@) =~= Seq::<Seq<char>>::empty());
        }
    }
    let all = join(&found, ", ");
    if all.as_str().is_empty() {
        subtype.to_owned()
    } else {
        all
    }
}

fn tokens_of(usage: &Json, key: &str) -> (r: u64)
    ensures
        r == tokens(usage@, key@),
{
    match usage.get_u64(key) {
        Some(n) => n,
        None => 0,
    }
}

/// The tokens that a result reports.
pub fn usage_of(result: &Json) -> (r: Usage)
    ensures
        r == reported_usage(result@),
{
    match result.get("usage") {
        Some(u) => Usage {
            input_tokens: tokens_of(u, "input_tokens"),
            output_tokens: tokens_of(u, "output_tokens"),
            cached_read_tokens: tokens_of(u, "cache_read_input_tokens"),
            cached_write_tokens: tokens_of(u, "cache_creation_input_tokens"),
        },
        None => Usage::default(),
    }
}

fn sum_fits(a: u64, b: u64) -> (r: bool)
    ensures
        r == (a + b <= u64::MAX),
{
    a <= u64::MAX - b
}

impl TurnMachine {
    /// Whether the counters can take this result.
    pub fn result_fits(&self, result: &Json) -> (r: bool)
        ensures
            r == self@.result_fits(result@),
    {
        if is_autonomous_result(result) {
            return self.owed_trailing_idles < usize::MAX;
        }
        let stays = self.active.is_some() && !self.is_held();
        let activates = !stays && self.pending_orphan_results == 0 && self.first_waiting()
            < self.queue.len();
        let usage = if activates {
            Usage::default()
        } else {
            self.accumulated_usage
        };
        let add = usage_of(result);
        (stays && self.cancelled || self.owed_trailing_idles < usize::MAX) && sum_fits(
            usage.input_tokens,
            add.input_tokens,
        ) && sum_fits(usage.output_tokens, add.output_tokens) && sum_fits(
            usage.cached_read_tokens,
            add.cached_read_tokens,
        ) && sum_fits(usage.cached_write_tokens, add.cached_write_tokens)
    }

    /// A `result` frame. `assistant_text_delivered` tells whether any text of
    /// the assistant reached the client before it.
    pub fn on_result(&mut self, result: &Json, assistant_text_delivered: bool) -> (r: Vec<
        TurnEvent,
    >)
        requires
            old(self)@.result_fits(result@),
        ensures
            final(self)@ == old(self)@.result(result@, assistant_text_delivered).0,
            seen(r@) == old(self)@.result(result@, assistant_text_delivered).1,
    {
        let mut events: Vec<TurnEvent> = Vec::new();
        if is_autonomous_result(result) {
            self.owed_trailing_idles = self.owed_trailing_idles + 1;
            self.settle_deferred_if_drained(&mut events);
            proof {
                assert(seen(events@) =~= old(self)@.result(result@, assistant_text_delivered).1);
            }
            return events;
        }
        let late = (self.active.is_none() || self.is_held()) && self.pending_orphan_results > 0;
        self.ensure_active_turn(&mut events);
        if !(self.cancelled && self.active.is_some()) {
            self.owed_trailing_idles = self.owed_trailing_idles + 1;
        }
        let usage = usage_of(result);
        self.accumulated_usage = Usage {
            input_tokens: self.accumulated_usage.input_tokens + usage.input_tokens,
            output_tokens: self.accumulated_usage.output_tokens + usage.output_tokens,
            cached_read_tokens: self.accumulated_usage.cached_read_tokens
                + usage.cached_read_tokens,
            cached_write_tokens: self.accumulated_usage.cached_write_tokens
                + usage.cached_write_tokens,
        };
        if !self.cancelled && !late {
            self.apply_verdict(result, assistant_text_delivered, usage.output_tokens, &mut events);
        }
        proof {
            assert(seen(events@) =~= old(self)@.result(result@, assistant_text_delivered).1);
        }
        events
    }

    /// What the result of the active turn says of it.
    fn apply_verdict(
        &mut self,
        result: &Json,
        text_delivered: bool,
        output_tokens: u64,
        events: &mut Vec<TurnEvent>,
    )
        requires
            output_tokens == reported_usage(result@).output_tokens,
        ensures
            final(self)@ == old(self)@.judged(result@, text_delivered).0,
            seen(final(events)@) == seen(old(events)@) + old(self)@.judged(
                result@,
                text_delivered,
            ).1,
    {
        let is_error = match result.get_bool("is_error") {
            Some(b) => b,
            None => false,
        };
        let reason = result.str_or_empty("stop_reason");
        let text = result.str_or_empty("result");
        let subtype = result.str_or_empty("subtype");
        if str_eq(reason, "refusal") {
            self.settle_or_defer(StopReason::Refusal, events);
        } else if str_eq(subtype, "success") {
            if contains(text, "Please run /login") {
                self.fail_active(FailureKind::AuthRequired, text.to_owned(), events);
            } else if str_eq(reason, "max_tokens") {
                self.settle_or_defer(StopReason::MaxTokens, events);
            } else if is_error {
                self.fail_active(FailureKind::ProviderError, text.to_owned(), events);
            } else {
                let is_local = match &self.active {
                    Some(t) => t.is_local_only_command,
                    None => false,
                };
                let ghost before = seen(events@);
                if (is_local || (!text_delivered && output_tokens == 0)) && !text.is_empty() {
                    events.push(TurnEvent::FinalText { text: text.to_owned() });
                }
                proof {
                    assert(seen(events@) =~= before + final_text(
                        result@,
                        is_local,
                        text_delivered,
                    ));
                }
                self.settle_or_defer(StopReason::EndTurn, events);
                proof {
                    assert(seen(events@) =~= before + old(self)@.judged(
                        result@,
                        text_delivered,
                    ).1);
                }
            }
        } else if str_eq(subtype, "error_during_execution") {
            if str_eq(reason, "max_tokens") {
                self.settle_or_defer(StopReason::MaxTokens, events);
            } else if is_error {
                self.fail_active(
                    FailureKind::ProviderError,
                    error_message(result, subtype),
                    events,
                );
            } else {
                self.settle_or_defer(StopReason::EndTurn, events);
            }
        } else if str_eq(subtype, "error_max_budget_usd") {
            self.exhausted(result, is_error, subtype, FailureKind::BudgetExhausted, events);
        } else if str_eq(subtype, "error_max_turns") {
            self.exhausted(result, is_error, subtype, FailureKind::ContextExhausted, events);
        } else if str_eq(subtype, "error_max_structured_output_retries") {
            self.exhausted(result, is_error, subtype, FailureKind::ProviderError, events);
        } else {
            self.settle_or_defer(StopReason::EndTurn, events);
        }
    }

    /// What a result says that ran into a limit.
    fn exhausted(
        &mut self,
        result: &Json,
        is_error: bool,
        subtype: &str,
        kind: FailureKind,
        events: &mut Vec<TurnEvent>,
    )
        ensures
            final(self)@ == old(self)@.follow(
                exhausted(result@, is_error, subtype@, kind),
                Seq::empty(),
            ).0,
            seen(final(events)@) == seen(old(events)@) + old(self)@.follow(
                exhausted(result@, is_error, subtype@, kind),
                Seq::empty(),
            ).1,
    {
        if is_error {
            self.fail_active(kind, error_message(result, subtype), events);
        } else {
            self.settle_or_defer(StopReason::MaxTurnRequests, events);
        }
    }
}

/// A longer stretch of a queue holds no fewer waiting turns.
proof fn lemma_waiting_grows(q: Seq<TurnSpec>, i: int)
    requires
        0 <= i <= q.len(),
    ensures
        waiting(q.take(i)).len() <= waiting(q).len(),
    decreases q.len(),
{
    if i < q.len() {
        lemma_waiting_grows(q.drop_last(), i);
        assert(q.drop_last().take(i) =~= q.take(i));
    } else {
        assert(q.take(i) =~= q);
    }
}

/// If the first waiting turn stands behind all others, none waits.
proof fn lemma_none_waiting(q: Seq<TurnSpec>)
    requires
        first_waiting(q) >= q.len(),
    ensures
        forall|i: int| 0 <= i < q.len() ==> (#[trigger] q[i]).settled,
    decreases q.len(),
{
    if q.len() > 0 {
        lemma_none_waiting(q.drop_first());
        assert forall|i: int| 0 <= i < q.len() implies (#[trigger] q[i]).settled by {
            if i > 0 {
                assert(q.drop_first()[i - 1] == q[i]);
            }
        }
    }
}

} // verus!
