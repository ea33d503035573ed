//! Where the lines of the child's output go.
//!
//! [`route`] is the only place that tells control traffic from session
//! traffic. [`run_dispatch`] hands messages to a [`Handler`] one at a time, in
//! the order in which they came.

use vstd::prelude::*;

use crate::json::{Json, JsonSpec};
use crate::strs::str_eq;

verus! {

/// A parsed line of the child's output.
pub struct StreamMsg {
    /// The whole line.
    pub line: Json,
}

/// The `type` of a line, or the empty text.
pub open spec fn type_of(line: JsonSpec) -> Seq<char> {
    line.str_or_empty("type"@)
}

impl StreamMsg {
    /// What the line holds.
    pub open spec fn view(&self) -> JsonSpec {
        self.line@
    }

    /// A message of this line.
    pub fn new(line: Json) -> (r: StreamMsg)
        ensures
            r@ == line@,
    {
        StreamMsg { line }
    }

    /// The `type` of the line, or the empty text.
    pub fn frame_type(&self) -> (r: &str)
        ensures
            r@ == type_of(self@),
    {
        self.line.str_or_empty("type")
    }
}

impl Clone for StreamMsg {
    fn clone(&self) -> (r: StreamMsg)
        ensures
            r@ == self@,
    {
        StreamMsg { line: self.line.copy() }
    }
}

/// Where a message goes.
#[derive(Debug, Clone, Copy, PartialEq, Eq, Structural)]
pub enum Route {
    /// To the control channel.
    Control,
    /// To the session.
    Session,
    /// Nowhere.
    Ignore,
}

/// What a handler knows of the session's turns.
#[derive(Debug, Clone, Copy)]
pub struct TurnView {
    /// Whether a turn is in flight.
    pub has_active_turn: bool,
}

impl Default for TurnView {
    fn default() -> (r: TurnView)
        ensures
            !r.has_active_turn,
    {
        TurnView { has_active_turn: false }
    }
}

/// Where a line goes, by its type.
pub open spec fn route_of(line: JsonSpec) -> Route {
    let t = type_of(line);
    if t == "keep_alive"@ || t == "control_response"@ || t == "control_request"@ || t
        == "control_cancel_request"@ {
        Route::Control
    } else if t == "user"@ || t == "assistant"@ || t == "result"@ || t == "system"@ || t
        == "stream_event"@ {
        Route::Session
    } else {
        Route::Ignore
    }
}

/// Where a message goes. The state of the turns makes no difference.
pub fn route(msg: &StreamMsg, _view: &TurnView) -> (r: Route)
    ensures
        r == route_of(msg@),
{
    let t = msg.frame_type();
    if str_eq(t, "keep_alive") || str_eq(t, "control_response") || str_eq(t, "control_request")
        || str_eq(t, "control_cancel_request") {
        Route::Control
    } else if str_eq(t, "user") || str_eq(t, "assistant") || str_eq(t, "result") || str_eq(
        t,
        "system",
    ) || str_eq(t, "stream_event") {
        Route::Session
    } else {
        Route::Ignore
    }
}

/// What a handler asks for after a message.
#[derive(Debug, Clone, Copy, PartialEq, Eq, Structural)]
pub enum ControlFlow {
    /// The next message.
    Continue,
    /// No more messages.
    Stop,
}

/// Whoever the messages are handed to.
pub trait Handler {
    /// The messages handed over so far, each with its route.
    spec fn handled(&self) -> Seq<(JsonSpec, Route)>;

    /// What was answered to each of them.
    spec fn answers(&self) -> Seq<ControlFlow>;

    /// What the handler knows of the session's turns.
    fn view(&self) -> TurnView;

    /// Takes one message.
    fn handle(&mut self, msg: StreamMsg, route: Route) -> (r: ControlFlow)
        ensures
            final(self).handled() == old(self).handled().push((msg@, route)),
            final(self).answers() == old(self).answers().push(r),
    ;
}

/// The lines, each with its route.
pub open spec fn routed(msgs: Seq<StreamMsg>) -> Seq<(JsonSpec, Route)> {
    Seq::new(msgs.len(), |i: int| (msgs[i]@, route_of(msgs[i]@)))
}

/// As many answers that ask for the next message.
pub open spec fn all_continue(n: int) -> Seq<ControlFlow> {
    Seq::new(n as nat, |i: int| ControlFlow::Continue)
}

/// Whether the first `n` messages were handed over to a handler, in order and each
/// with its route, and the handler asked for more after each but the last of them,
/// to which it answered `last`.
pub open spec fn handed_over<H: Handler>(
    before: H,
    after: H,
    msgs: Seq<StreamMsg>,
    n: int,
    last: ControlFlow,
) -> bool {
    &&& 0 <= n <= msgs.len()
    &&& after.handled() == before.handled() + routed(msgs.take(n))
    &&& after.answers() == before.answers() + (if n > 0 {
        all_continue(n - 1).push(last)
    } else {
        Seq::empty()
    })
}

/// Hands the messages over, in order and each with its route, up to the first one
/// after which the handler asks for no more; all of them if it never does.
pub fn run_dispatch<H: Handler>(msgs: Vec<StreamMsg>, handler: &mut H) -> (r: ControlFlow)
    ensures
        r == ControlFlow::Continue ==> handed_over(
            *old(handler),
            *final(handler),
            msgs@,
            msgs@.len() as int,
            ControlFlow::Continue,
        ),
        r == ControlFlow::Stop ==> exists|n: int|
            n > 0 && #[trigger] handed_over(
                *old(handler),
                *final(handler),
                msgs@,
                n,
                ControlFlow::Stop,
            ),
{
    let ghost all = msgs@;
    let ghost before = *handler;
    proof {
        assert(before.handled() + routed(all.take(0)) =~= before.handled());
        assert(before.answers() + Seq::<ControlFlow>::empty() =~= before.answers());
    }
    for msg in it: msgs
        invariant
            it.seq() == all,
            before == *old(handler),
            handed_over(before, *handler, all, it.index(), ControlFlow::Continue),
    {
        let view = handler.view();
        let to = route(&msg, &view);
        let ghost k = it.index();
        let ghost asked = handler.answers();
        proof {
            assert(routed(all.take(k + 1)) =~= routed(all.take(k)).push((msg@, route_of(msg@))));
            assert(before.handled() + routed(all.take(k + 1)) =~= (before.handled() + routed(
                all.take(k),
            )).push((msg@, route_of(msg@))));
        }
        let answer = handler.handle(msg, to);
        proof {
            assert(asked =~= before.answers() + all_continue(k));
            assert(handler.answers() =~= before.answers() + all_continue(k).push(answer));
            assert(handed_over(before, *handler, all, k + 1, answer));
        }
        if answer == ControlFlow::Stop {
            return ControlFlow::Stop;
        }
    }
    ControlFlow::Continue
}

/// A handler that keeps what it is handed and never stops.
pub struct Recorder {
    seen: Vec<(StreamMsg, Route)>,
}

impl Recorder {
    /// A handler that was handed nothing yet.
    pub fn new() -> (r: Recorder)
        ensures
            r.handled() == Seq::<(JsonSpec, Route)>::empty(),
            r.answers() == Seq::<ControlFlow>::empty(),
    {
        let r = Recorder { seen: Vec::new() };
        proof {
            assert(r.handled() =~= Seq::<(JsonSpec, Route)>::empty());
            assert(r.answers() =~= Seq::<ControlFlow>::empty());
        }
        r
    }

    /// The messages handed over, in order.
    pub fn seen(&self) -> (r: &Vec<(StreamMsg, Route)>)
        ensures
            r@.len() == self.handled().len(),
            forall|i: int|
                0 <= i < r@.len() ==> self.handled()[i] == ((#[trigger] r@[i]).0@, r@[i].1),
    {
        &self.seen
    }
}

impl Handler for Recorder {
    closed spec fn handled(&self) -> Seq<(JsonSpec, Route)> {
        Seq::new(self.seen@.len(), |i: int| (self.seen@[i].0@, self.seen@[i].1))
    }

    closed spec fn answers(&self) -> Seq<ControlFlow> {
        all_continue(self.seen@.len() as int)
    }

    fn view(&self) -> (r: TurnView)
        ensures
            !r.has_active_turn,
    {
        TurnView::default()
    }

    fn handle(&mut self, msg: StreamMsg, route: Route) -> (r: ControlFlow)
        ensures
            r == ControlFlow::Continue,
    {
        self.seen.push((msg, route));
        proof {
            assert(self.handled() =~= old(self).handled().push((msg@, route)));
            assert(self.answers() =~= old(self).answers().push(ControlFlow::Continue));
        }
        ControlFlow::Continue
    }
}

} // verus!
