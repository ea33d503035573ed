//! A session: which prompt runs, which wait, and where the child's lines go.
//!
//! One task owns a session, so nothing here is shared. At most one prompt is
//! active; the others wait in the order in which they came.

use vstd::arithmetic::div_mod::{lemma_add_mod_noop, lemma_mod_self_0, lemma_small_mod};
use vstd::prelude::*;

use crate::acp::opt_value;
use crate::dispatch::{route, route_of, Route, StreamMsg, TurnView};
use crate::json::{jsons, Json, JsonSpec};
use crate::turn::FailureKind;

verus! {

/// Why a prompt was not answered.
#[derive(Debug, Clone, PartialEq, Eq)]
pub enum SessionError {
    /// The turn failed.
    PromptFailed { kind: FailureKind, message: String },
    /// The session is closed.
    Closed,
    /// The session could not be started.
    Start(String),
}

impl SessionError {
    /// What went wrong, in words.
    pub open spec fn words(self) -> Seq<char> {
        match self {
            SessionError::PromptFailed { kind, message } => message@,
            SessionError::Closed => "session closed"@,
            SessionError::Start(m) => m@,
        }
    }

    /// What went wrong, in words.
    pub fn describe(&self) -> (r: String)
        ensures
            r@ == self.words(),
    {
        match self {
            SessionError::PromptFailed { kind: _, message } => message.as_str().to_owned(),
            SessionError::Closed => "session closed".to_owned(),
            SessionError::Start(m) => m.as_str().to_owned(),
        }
    }
}

/// What a turn used, with the sum of its tokens.
#[derive(Debug, Clone, Copy, PartialEq, Eq, Structural)]
pub struct ReplyUsage {
    pub input_tokens: u64,
    pub output_tokens: u64,
    pub cached_read_tokens: u64,
    pub cached_write_tokens: u64,
    pub total_tokens: u64,
}

/// The answer to a prompt.
#[derive(Debug, Clone)]
pub struct PromptReply {
    /// Why the turn ended.
    pub stop_reason: String,
    /// What it used, where that is known.
    pub usage: Option<ReplyUsage>,
}

/// How the end of a prompt that ran to its end is spelled.
pub const END_TURN: &'static str = "end_turn";

/// A prompt that is active or waits.
struct QueuedPrompt {
    ticket: u64,
    content: Json,
}

/// A prompt: who waits for its answer, and the frame that is fed to the child.
#[verifier::ext_equal]
pub struct PromptSpec {
    pub ticket: u64,
    pub content: JsonSpec,
}

impl QueuedPrompt {
    spec fn view(&self) -> PromptSpec {
        PromptSpec { ticket: self.ticket, content: self.content@ }
    }
}

spec fn prompts(v: Seq<QueuedPrompt>) -> Seq<PromptSpec> {
    Seq::new(v.len(), |i: int| v[i]@)
}

/// The prompts that are not answered yet, in the order in which they came: the
/// first one is active. `high_water` is how many were ever active at once,
/// `processed` how many lines were dispatched.
#[verifier::ext_equal]
pub struct SessionSpec {
    pub open: Seq<PromptSpec>,
    pub high_water: nat,
    pub processed: usize,
}

/// What a completed turn leads to.
pub struct Completed {
    /// Who the answer goes to.
    pub ticket: u64,
    /// The answer.
    pub reply: PromptReply,
    /// The frame of the prompt that is active next.
    pub next: Option<Json>,
}

impl SessionSpec {
    /// No prompts yet.
    pub open spec fn initial() -> SessionSpec {
        SessionSpec { open: Seq::empty(), high_water: 0, processed: 0 }
    }

    /// How many prompts are active.
    pub open spec fn active(self) -> nat {
        if self.open.len() == 0 {
            0
        } else {
            1
        }
    }

    /// A prompt comes. It is active at once if no other is.
    pub open spec fn prompted(self, p: PromptSpec) -> SessionSpec {
        SessionSpec { open: self.open.push(p), high_water: 1, ..self }
    }

    /// The active prompt is answered. The next one is active.
    pub open spec fn completed(self) -> SessionSpec {
        if self.open.len() == 0 {
            self
        } else {
            SessionSpec { open: self.open.skip(1), ..self }
        }
    }

    /// Lines of the child are dispatched.
    pub open spec fn dispatched(self, n: nat) -> SessionSpec {
        SessionSpec {
            processed: ((self.processed + n) % (usize::MAX + 1)) as usize,
            ..self
        }
    }

    /// What every reachable session keeps: a prompt has been active if one is.
    pub open spec fn sound(self) -> bool {
        &&& self.high_water <= 1
        &&& self.active() <= self.high_water
    }
}

proof fn lemma_dispatched(s: SessionSpec, n: nat)
    ensures
        s.dispatched(0) == s,
        s.dispatched(n).dispatched(1) == s.dispatched(n + 1),
        s.dispatched(1).processed == (if s.processed == usize::MAX {
            0
        } else {
            s.processed + 1
        }),
{
    let m: int = usize::MAX + 1;
    lemma_small_mod(s.processed as nat, m as nat);
    lemma_small_mod(1, m as nat);
    lemma_add_mod_noop(s.processed + n, 1, m);
    if s.processed < usize::MAX {
        lemma_small_mod((s.processed + 1) as nat, m as nat);
    } else {
        lemma_mod_self_0(m);
    }
}

/// The lines that go to the control channel, in order.
pub open spec fn control_lines(lines: Seq<JsonSpec>) -> Seq<JsonSpec>
    decreases lines.len(),
{
    if lines.len() == 0 {
        Seq::empty()
    } else {
        let before = control_lines(lines.drop_last());
        if route_of(lines.last()) == Route::Control {
            before.push(lines.last())
        } else {
            before
        }
    }
}

/// The lines of messages.
pub open spec fn lines_of(msgs: Seq<StreamMsg>) -> Seq<JsonSpec> {
    Seq::new(msgs.len(), |i: int| msgs[i]@)
}

/// A session.
pub struct Session {
    active: Option<QueuedPrompt>,
    queue: Vec<QueuedPrompt>,
    high_water: usize,
    processed_stream: usize,
}

impl Session {
    #[verifier::type_invariant]
    spec fn well_formed(&self) -> bool {
        &&& self.active is None ==> self.queue@.len() == 0
        &&& self.active is Some ==> self.high_water == 1
        &&& self.high_water <= 1
    }

    /// The state of the session.
    pub closed spec fn view(&self) -> SessionSpec {
        SessionSpec {
            open: match self.active {
                Some(p) => seq![p@] + prompts(self.queue@),
                None => Seq::empty(),
            },
            high_water: self.high_water as nat,
            processed: self.processed_stream,
        }
    }

    /// No prompts yet.
    pub fn new() -> (r: Session)
        ensures
            r@ == SessionSpec::initial(),
    {
        Session { active: None, queue: Vec::new(), high_water: 0, processed_stream: 0 }
    }

    /// A prompt comes, whose answer goes to `ticket`. If it is active at once, its
    /// frame is to be fed to the child.
    pub fn prompt(&mut self, ticket: u64, content: Json) -> (r: Option<Json>)
        ensures
            final(self)@ == old(self)@.prompted((PromptSpec { ticket, content: content@ })),
            opt_value(r) == (if old(self)@.active() == 0 {
                Some(content@)
            } else {
                None
            }),
    {
        proof {
            use_type_invariant(&*self);
        }
        let queued = QueuedPrompt { ticket, content };
        if self.active.is_some() {
            let mut queue: Vec<QueuedPrompt> = Vec::new();
            std::mem::swap(&mut queue, &mut self.queue);
            let ghost before = queue@;
            queue.push(queued);
            proof {
                assert(prompts(queue@) =~= prompts(before).push(queued@));
            }
            self.queue = queue;
            proof {
                assert(self@.open =~= old(self)@.open.push(queued@));
            }
            None
        } else {
            Some(self.activate(queued))
        }
    }

    /// Makes a prompt the active one. Its frame is to be fed to the child.
    fn activate(&mut self, queued: QueuedPrompt) -> (r: Json)
        requires
            old(self).active is None,
        ensures
            final(self).active == Some(queued),
            final(self).queue@ == old(self).queue@,
            final(self).high_water == 1,
            final(self).processed_stream == old(self).processed_stream,
            r@ == queued.content@,
            old(self)@.open.len() == 0 ==> final(self)@ == old(self)@.prompted(queued@),
    {
        proof {
            use_type_invariant(&*self);
        }
        let frame = queued.content.copy();
        self.high_water = 1;
        self.active = Some(queued);
        proof {
            assert(self@.open =~= seq![queued@]);
        }
        frame
    }

    /// The active turn is over. Its prompt is answered, and the next one becomes
    /// active. Without an active prompt there is nothing to do.
    pub fn complete(&mut self) -> (r: Option<Completed>)
        ensures
            final(self)@ == old(self)@.completed(),
            match r {
                None => old(self)@.open.len() == 0,
                Some(c) => {
                    &&& old(self)@.open.len() > 0
                    &&& c.ticket == old(self)@.open[0].ticket
                    &&& c.reply.stop_reason@ == END_TURN@
                    &&& c.reply.usage is None
                    &&& opt_value(c.next) == (if old(self)@.open.len() > 1 {
                        Some(old(self)@.open[1].content)
                    } else {
                        None
                    })
                },
            },
    {
        proof {
            use_type_invariant(&*self);
        }
        let mut queue: Vec<QueuedPrompt> = Vec::new();
        std::mem::swap(&mut queue, &mut self.queue);
        let mut active: Option<QueuedPrompt> = None;
        std::mem::swap(&mut active, &mut self.active);
        match active {
            None => {
                proof {
                    assert(self.queue@ =~= old(self).queue@);
                }
                None
            },
            Some(done) => {
                let ghost waiting = queue@;
                proof {
                    assert(old(self)@.open =~= seq![done@] + prompts(waiting));
                    assert(old(self)@.open.skip(1) =~= prompts(waiting));
                }
                let next = if queue.len() > 0 {
                    let first = queue.remove(0);
                    let ghost p = first@;
                    let frame = self.activate(first);
                    proof {
                        assert(prompts(waiting) =~= seq![p] + prompts(queue@));
                    }
                    self.queue = queue;
                    Some(frame)
                } else {
                    proof {
                        assert(prompts(waiting) =~= Seq::empty());
                    }
                    None
                };
                let reply = PromptReply { stop_reason: END_TURN.to_owned(), usage: None };
                Some(Completed { ticket: done.ticket, reply, next })
            },
        }
    }

    /// The client wants the active prompt cancelled. Prompts are cancelled by the
    /// turns that they belong to; the order of the prompts stays.
    pub fn cancel(&mut self)
        ensures
            final(self)@ == old(self)@,
    {
    }

    /// A line of the child. If it is control traffic, it is to be handed to the
    /// control channel.
    pub fn dispatch_stream(&mut self, msg: StreamMsg) -> (r: Option<Json>)
        ensures
            final(self)@ == old(self)@.dispatched(1),
            opt_value(r) == (if route_of(msg@) == Route::Control {
                Some(msg@)
            } else {
                None
            }),
    {
        proof {
            use_type_invariant(&*self);
        }
        self.processed_stream = self.processed_stream.wrapping_add(1);
        proof {
            lemma_dispatched(old(self)@, 0);
            assert(self@.open =~= old(self)@.open);
        }
        match route(&msg, &TurnView::default()) {
            Route::Control => Some(msg.line),
            Route::Session => None,
            Route::Ignore => None,
        }
    }

    /// The session ends. Every line that has come is dispatched first; what is
    /// handed to the control channel comes back.
    pub fn drain(&mut self, msgs: Vec<StreamMsg>) -> (r: Vec<Json>)
        ensures
            final(self)@ == old(self)@.dispatched(msgs@.len()),
            jsons(r@) == control_lines(lines_of(msgs@)),
    {
        let ghost all = lines_of(msgs@);
        let mut out: Vec<Json> = Vec::new();
        proof {
            lemma_dispatched(self@, 0);
            assert(all.take(0).len() == 0);
            assert(jsons(out@) =~= control_lines(all.take(0)));
        }
        for msg in it: msgs
            invariant
                it.seq() == msgs@,
                all == lines_of(msgs@),
                self@ == old(self)@.dispatched(it.index() as nat),
                jsons(out@) == control_lines(all.take(it.index() as int)),
        {
            let ghost i = it.index();
            let ghost before = out@;
            let line = self.dispatch_stream(msg);
            proof {
                lemma_dispatched(old(self)@, i as nat);
                assert(all.take(i + 1).drop_last() =~= all.take(i as int));
                assert(all.take(i + 1).last() == msgs@[i as int]@);
            }
            if let Some(j) = line {
                out.push(j);
                proof {
                    assert(jsons(out@) =~= jsons(before).push(j@));
                }
            }
        }
        proof {
            assert(all.take(msgs@.len() as int) =~= all);
        }
        out
    }

    /// How many prompts were ever active at once.
    pub fn high_water(&self) -> (r: usize)
        ensures
            r == self@.high_water,
            r <= 1,
    {
        proof {
            use_type_invariant(self);
        }
        self.high_water
    }

    /// How many lines were dispatched.
    pub fn processed_stream(&self) -> (r: usize)
        ensures
            r == self@.processed,
    {
        self.processed_stream
    }
}

/// What can happen to a session.
pub enum SessionInput {
    /// A prompt comes.
    Prompt(PromptSpec),
    /// The active turn is over.
    Complete,
    /// A line of the child.
    Line(JsonSpec),
}

impl SessionSpec {
    /// The session after one thing happened.
    pub open spec fn step(self, input: SessionInput) -> SessionSpec {
        match input {
            SessionInput::Prompt(p) => self.prompted(p),
            SessionInput::Complete => self.completed(),
            SessionInput::Line(_) => self.dispatched(1),
        }
    }

    /// The session after several things happened.
    pub open spec fn run(self, inputs: Seq<SessionInput>) -> SessionSpec
        decreases inputs.len(),
    {
        if inputs.len() == 0 {
            self
        } else {
            self.run(inputs.drop_last()).step(inputs.last())
        }
    }

    /// Who was answered, in order, while several things happened.
    pub open spec fn answered(self, inputs: Seq<SessionInput>) -> Seq<u64>
        decreases inputs.len(),
    {
        if inputs.len() == 0 {
            Seq::empty()
        } else {
            let before = self.run(inputs.drop_last());
            let told = self.answered(inputs.drop_last());
            if inputs.last() is Complete && before.open.len() > 0 {
                told.push(before.open[0].ticket)
            } else {
                told
            }
        }
    }
}

/// Who asks, in order.
pub open spec fn asked(inputs: Seq<SessionInput>) -> Seq<u64>
    decreases inputs.len(),
{
    if inputs.len() == 0 {
        Seq::empty()
    } else {
        match inputs.last() {
            SessionInput::Prompt(p) => asked(inputs.drop_last()).push(p.ticket),
            _ => asked(inputs.drop_last()),
        }
    }
}

/// Who waits for the answers to these prompts.
pub open spec fn tickets(open: Seq<PromptSpec>) -> Seq<u64> {
    Seq::new(open.len(), |i: int| open[i].ticket)
}

/// Whatever happens, at most one prompt was ever active at once.
pub proof fn law_at_most_one_active(inputs: Seq<SessionInput>)
    ensures
        SessionSpec::initial().run(inputs).high_water <= 1,
        SessionSpec::initial().run(inputs).sound(),
    decreases inputs.len(),
{
    if inputs.len() > 0 {
        law_at_most_one_active(inputs.drop_last());
    }
}

/// Prompts are answered in the order in which they came, each once: who was
/// answered and then who still waits are those who asked.
pub proof fn law_prompts_are_answered_in_order(inputs: Seq<SessionInput>)
    ensures
        ({
            let s = SessionSpec::initial();
            s.answered(inputs) + tickets(s.run(inputs).open) == asked(inputs)
        }),
    decreases inputs.len(),
{
    let s = SessionSpec::initial();
    if inputs.len() == 0 {
        assert(tickets(s.open) =~= Seq::empty());
    } else {
        let before = inputs.drop_last();
        law_prompts_are_answered_in_order(before);
        let b = s.run(before);
        match inputs.last() {
            SessionInput::Prompt(p) => {
                assert(tickets(b.open.push(p)) =~= tickets(b.open).push(p.ticket));
                assert(s.answered(before) + tickets(b.open).push(p.ticket) =~= (s.answered(before)
                    + tickets(b.open)).push(p.ticket));
            },
            SessionInput::Complete => {
                if b.open.len() > 0 {
                    let first = b.open[0].ticket;
                    assert(tickets(b.open) =~= seq![first] + tickets(b.open.skip(1)));
                    assert(s.answered(before).push(first) + tickets(b.open.skip(1)) =~= s.answered(
                        before,
                    ) + tickets(b.open));
                }
            },
            SessionInput::Line(_) => {},
        }
    }
}

/// Ending a session loses no line: the lines that came before and those that are
/// dispatched at the end are counted as if they had come one by one.
pub proof fn law_draining_counts_every_line(s: SessionSpec, lines: Seq<JsonSpec>)
    ensures
        s.run(lines.map_values(|l: JsonSpec| SessionInput::Line(l))) == s.dispatched(lines.len()),
    decreases lines.len(),
{
    let inputs = lines.map_values(|l: JsonSpec| SessionInput::Line(l));
    if lines.len() == 0 {
        lemma_dispatched(s, 0);
    } else {
        law_draining_counts_every_line(s, lines.drop_last());
        assert(inputs.drop_last() =~= lines.drop_last().map_values(
            |l: JsonSpec| SessionInput::Line(l),
        ));
        lemma_dispatched(s, (lines.len() - 1) as nat);
    }
}

} // verus!
