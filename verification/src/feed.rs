//! The frames of a session, fed to its turns and shown to the client, and the
//! answers to its prompts.
//!
//! The child repeats each prompt that it takes up, reports the end of a turn with
//! a `result`, and tells of its state and of its background tasks with `system`
//! frames. Other frames mean nothing to the turns. The client is shown messages,
//! events of the stream and changes of the commands.

use vstd::prelude::*;

use crate::acp::{updates, SessionUpdate, UpdateSpec};
use crate::dispatch::type_of;
use crate::json::{empty_object, strings_in, strings_of, Json, JsonSpec};
use crate::map::{all_offered, map_commands_changed, map_consolidated, map_stream_event, or_null, terminal_names, MapSpec, MapState, Mapped, MsgRole};
use crate::session::{PromptReply, ReplyUsage};
use crate::strs::{str_eq, texts};
use crate::turn::{seen, Advance, MachineSpec, StopReason, TurnEvent, TurnMachine, Usage};

verus! {

/// What a frame means to the turns.
pub enum TurnInput {
    /// A prompt was taken up.
    Echo(String),
    /// A turn is over.
    Result,
    /// The session went idle.
    Idle,
    /// The session is in this state, which is not idle.
    State(String),
    /// A background task started.
    TaskStarted { task_id: String, is_subagent: bool },
    /// A background task ended.
    TaskEnded { task_id: String },
    /// Nothing.
    Nothing,
}

/// What a frame means to the turns.
pub enum InputSpec {
    Echo(Seq<char>),
    Result,
    Idle,
    State(Seq<char>),
    TaskStarted { task_id: Seq<char>, is_subagent: bool },
    TaskEnded { task_id: Seq<char> },
    Nothing,
}

impl TurnInput {
    /// What the frame means.
    pub open spec fn view(&self) -> InputSpec {
        match self {
            TurnInput::Echo(uuid) => InputSpec::Echo(uuid@),
            TurnInput::Result => InputSpec::Result,
            TurnInput::Idle => InputSpec::Idle,
            TurnInput::State(state) => InputSpec::State(state@),
            TurnInput::TaskStarted { task_id, is_subagent } => InputSpec::TaskStarted {
                task_id: task_id@,
                is_subagent: *is_subagent,
            },
            TurnInput::TaskEnded { task_id } => InputSpec::TaskEnded { task_id: task_id@ },
            TurnInput::Nothing => InputSpec::Nothing,
        }
    }
}

/// What a `system` frame means to the turns.
pub open spec fn system_input(frame: JsonSpec) -> InputSpec {
    let subtype = frame.str_or_empty("subtype"@);
    let task_id = frame.str_or_empty("task_id"@);
    if subtype == "session_state_changed"@ {
        let state = frame.str_or_empty("state"@);
        if state == "idle"@ {
            InputSpec::Idle
        } else {
            InputSpec::State(state)
        }
    } else if subtype == "task_started"@ {
        InputSpec::TaskStarted { task_id, is_subagent: frame.get_str("subagent_type"@) is Some }
    } else if subtype == "task_notification"@ {
        InputSpec::TaskEnded { task_id }
    } else {
        InputSpec::Nothing
    }
}

/// What a frame means to the turns. A frame of the user is an echo if it is
/// marked as a replay.
pub open spec fn input_of(frame: JsonSpec) -> InputSpec {
    let t = type_of(frame);
    if t == "user"@ {
        if frame.get_bool("isReplay"@) == Some(true) && frame.get_str("uuid"@) is Some {
            InputSpec::Echo(frame.str_or_empty("uuid"@))
        } else {
            InputSpec::Nothing
        }
    } else if t == "result"@ {
        InputSpec::Result
    } else if t == "system"@ {
        system_input(frame)
    } else {
        InputSpec::Nothing
    }
}

fn classify_system(frame: &Json) -> (r: TurnInput)
    ensures
        r@ == system_input(frame@),
{
    let subtype = frame.str_or_empty("subtype");
    let task_id = frame.str_or_empty("task_id");
    if str_eq(subtype, "session_state_changed") {
        let state = frame.str_or_empty("state");
        if str_eq(state, "idle") {
            TurnInput::Idle
        } else {
            TurnInput::State(state.to_owned())
        }
    } else if str_eq(subtype, "task_started") {
        TurnInput::TaskStarted {
            task_id: task_id.to_owned(),
            is_subagent: frame.get_str("subagent_type").is_some(),
        }
    } else if str_eq(subtype, "task_notification") {
        TurnInput::TaskEnded { task_id: task_id.to_owned() }
    } else {
        TurnInput::Nothing
    }
}

/// What a frame means to the turns.
pub fn classify(frame: &Json) -> (r: TurnInput)
    ensures
        r@ == input_of(frame@),
{
    let t = frame.str_or_empty("type");
    if str_eq(t, "user") {
        let replay = match frame.get_bool("isReplay") {
            Some(b) => b,
            None => false,
        };
        if replay && frame.get_str("uuid").is_some() {
            TurnInput::Echo(frame.str_or_empty("uuid").to_owned())
        } else {
            TurnInput::Nothing
        }
    } else if str_eq(t, "result") {
        TurnInput::Result
    } else if str_eq(t, "system") {
        classify_system(frame)
    } else {
        TurnInput::Nothing
    }
}

impl MachineSpec {
    /// A frame is fed to the turns.
    pub open spec fn fed(self, frame: JsonSpec, text_delivered: bool) -> Advance {
        match input_of(frame) {
            InputSpec::Echo(uuid) => self.echo(uuid),
            InputSpec::Result => self.result(frame, text_delivered),
            InputSpec::Idle => self.idle(),
            InputSpec::State(state) => (self.session_state(state), Seq::empty()),
            InputSpec::TaskStarted { task_id, is_subagent } => (
                self.task_started(task_id, is_subagent),
                Seq::empty(),
            ),
            InputSpec::TaskEnded { task_id } => (self.task_ended(task_id), Seq::empty()),
            InputSpec::Nothing => (self, Seq::empty()),
        }
    }

    /// Whether the counters can take a frame.
    pub open spec fn feed_fits(self, frame: JsonSpec) -> bool {
        match input_of(frame) {
            InputSpec::Echo(uuid) => self.echo_fits(uuid),
            InputSpec::Result => self.result_fits(frame),
            _ => true,
        }
    }
}

impl TurnMachine {
    /// Whether the counters can take a frame.
    pub fn feed_fits(&self, frame: &Json) -> (r: bool)
        ensures
            r == self@.feed_fits(frame@),
    {
        match classify(frame) {
            TurnInput::Echo(uuid) => self.echo_fits(uuid.as_str()),
            TurnInput::Result => self.result_fits(frame),
            _ => true,
        }
    }

    /// Feeds a frame to the turns. `text_delivered` tells whether any text of the
    /// assistant reached the client in this turn.
    pub fn feed(&mut self, frame: &Json, text_delivered: bool) -> (r: Vec<TurnEvent>)
        requires
            old(self)@.feed_fits(frame@),
        ensures
            final(self)@ == old(self)@.fed(frame@, text_delivered).0,
            seen(r@) == old(self)@.fed(frame@, text_delivered).1,
    {
        let input = classify(frame);
        let r = match input {
            TurnInput::Echo(uuid) => self.on_echo(uuid.as_str()),
            TurnInput::Result => self.on_result(frame, text_delivered),
            TurnInput::Idle => self.on_idle(),
            TurnInput::State(state) => {
                self.on_session_state(state.as_str());
                Vec::new()
            },
            TurnInput::TaskStarted { task_id, is_subagent } => {
                self.on_task_started(task_id.as_str(), is_subagent);
                Vec::new()
            },
            TurnInput::TaskEnded { task_id } => self.on_task_ended(task_id.as_str()),
            TurnInput::Nothing => Vec::new(),
        };
        proof {
            assert(seen(r@) =~= old(self)@.fed(frame@, text_delivered).1);
        }
        r
    }
}

/// The content of the message of a frame.
pub open spec fn message_content(frame: JsonSpec) -> Option<JsonSpec> {
    match frame.get("message"@) {
        Some(m) => m.get("content"@),
        None => None,
    }
}

/// The commands that a frame brings.
pub open spec fn commands_update(frame: JsonSpec) -> UpdateSpec {
    UpdateSpec::AvailableCommandsUpdate(
        match or_null(frame.get("commands"@)) {
            JsonSpec::Array(a) => all_offered(
                a,
                terminal_names(or_null(frame.get("terminal_commands"@))),
            ),
            _ => Seq::empty(),
        },
    )
}

impl MapSpec {
    /// A whole message, if the frame has one.
    pub open spec fn message(self, frame: JsonSpec, role: MsgRole) -> Mapped {
        match message_content(frame) {
            Some(content) => self.consolidated(content, role),
            None => (self, Seq::empty()),
        }
    }

    /// What the client is shown of a frame. The repetition of a prompt is not
    /// shown: the client shows its own.
    pub open spec fn shown(self, frame: JsonSpec) -> Mapped {
        let t = type_of(frame);
        if t == "assistant"@ {
            self.message(frame, MsgRole::Assistant)
        } else if t == "user"@ {
            if frame.get_bool("isReplay"@) == Some(true) {
                (self, Seq::empty())
            } else {
                self.message(frame, MsgRole::User)
            }
        } else if t == "stream_event"@ {
            self.stream_event(frame)
        } else if t == "system"@ && frame.str_or_empty("subtype"@) == "commands_changed"@ {
            (self, seq![commands_update(frame)])
        } else {
            (self, Seq::empty())
        }
    }
}

fn show_message(frame: &Json, role: MsgRole, state: &mut MapState) -> (r: Vec<SessionUpdate>)
    ensures
        final(state)@ == old(state)@.message(frame@, role).0,
        updates(r@) == old(state)@.message(frame@, role).1,
{
    let content = match frame.get("message") {
        Some(m) => m.get("content"),
        None => None,
    };
    match content {
        Some(content) => map_consolidated(content, role, state),
        None => nothing_shown(),
    }
}

fn nothing_shown() -> (r: Vec<SessionUpdate>)
    ensures
        updates(r@) == Seq::<UpdateSpec>::empty(),
{
    let r: Vec<SessionUpdate> = Vec::new();
    proof {
        assert(updates(r@) =~= Seq::<UpdateSpec>::empty());
    }
    r
}

fn show_commands(frame: &Json) -> (r: Vec<SessionUpdate>)
    ensures
        updates(r@) == seq![commands_update(frame@)],
{
    let none = Json::Null;
    let list = match frame.get("commands") {
        Some(c) => c,
        None => &none,
    };
    let terminal = match frame.get("terminal_commands") {
        Some(c) => c,
        None => &none,
    };
    let mut r: Vec<SessionUpdate> = Vec::new();
    r.push(SessionUpdate::AvailableCommandsUpdate(map_commands_changed(list, terminal)));
    proof {
        assert(updates(r@) =~= seq![commands_update(frame@)]);
    }
    r
}

/// What the client is shown of a frame.
pub fn updates_for(frame: &Json, state: &mut MapState) -> (r: Vec<SessionUpdate>)
    ensures
        final(state)@ == old(state)@.shown(frame@).0,
        updates(r@) == old(state)@.shown(frame@).1,
{
    let t = frame.str_or_empty("type");
    if str_eq(t, "assistant") {
        show_message(frame, MsgRole::Assistant, state)
    } else if str_eq(t, "user") {
        let replay = match frame.get_bool("isReplay") {
            Some(b) => b,
            None => false,
        };
        if replay {
            nothing_shown()
        } else {
            show_message(frame, MsgRole::User, state)
        }
    } else if str_eq(t, "stream_event") {
        map_stream_event(frame, state)
    } else if str_eq(t, "system") && str_eq(frame.str_or_empty("subtype"), "commands_changed") {
        show_commands(frame)
    } else {
        nothing_shown()
    }
}

/// What moves the turns is not shown, and what is shown does not move them: the
/// end of a turn reaches the client as the answer to its prompt.
pub proof fn law_turn_frames_are_not_shown(map: MapSpec, frame: JsonSpec)
    ensures
        !(input_of(frame) is Nothing) ==> map.shown(frame) == (map, Seq::<UpdateSpec>::empty()),
        map.shown(frame).1.len() > 0 ==> input_of(frame) is Nothing,
{
    reveal_strlit("assistant");
    reveal_strlit("user");
    reveal_strlit("stream_event");
    reveal_strlit("system");
    reveal_strlit("result");
    reveal_strlit("commands_changed");
    reveal_strlit("session_state_changed");
    reveal_strlit("task_started");
    reveal_strlit("task_notification");
    assert("assistant"@.len() == 9 && "user"@.len() == 4 && "stream_event"@.len() == 12);
    assert("system"@.len() == 6 && "result"@.len() == 6 && "system"@[0] != "result"@[0]);
    assert("commands_changed"@.len() == 16 && "session_state_changed"@.len() == 21);
    assert("task_started"@.len() == 12 && "task_notification"@.len() == 17);
}

/// The request that interrupts the turn in flight.
pub open spec fn interrupt_json() -> JsonSpec {
    empty_object().with("subtype"@, JsonSpec::Str("interrupt"@))
}

/// The request that interrupts the turn in flight.
pub fn interrupt_request() -> (r: Json)
    ensures
        r@ == interrupt_json(),
{
    Json::object().with("subtype", Json::text("interrupt"))
}

/// The prompts that an interrupt left in the queue, as far as its receipt lists
/// them.
pub open spec fn left_queued(receipt: JsonSpec) -> Option<Seq<Seq<char>>> {
    match receipt.get("response"@) {
        Some(outer) => match outer.get("response"@) {
            Some(inner) => match inner.get_array("still_queued"@) {
                Some(a) => Some(strings_in(a)),
                None => None,
            },
            None => None,
        },
        None => None,
    }
}

/// The prompts that an interrupt left in the queue. A receipt without a list of
/// them says nothing.
pub fn still_queued(receipt: &Json) -> (r: Option<Vec<String>>)
    ensures
        match r {
            Some(v) => left_queued(receipt@) == Some(texts(v@)),
            None => left_queued(receipt@) is None,
        },
{
    let inner = match receipt.get("response") {
        Some(outer) => outer.get("response"),
        None => None,
    };
    match inner {
        Some(inner) => match inner.get_array("still_queued") {
            Some(a) => Some(strings_of(a)),
            None => None,
        },
        None => None,
    }
}

/// The sum of the tokens.
pub open spec fn total(u: Usage) -> int {
    u.input_tokens + u.output_tokens + u.cached_read_tokens + u.cached_write_tokens
}

/// Whether the sum of the tokens is a number of 64 bits.
pub fn total_fits(u: &Usage) -> (r: bool)
    ensures
        r == (total(*u) <= u64::MAX),
{
    (u.input_tokens as u128) + (u.output_tokens as u128) + (u.cached_read_tokens as u128) + (
    u.cached_write_tokens as u128) <= u64::MAX as u128
}

/// What the answer to a prompt tells of the tokens that its turn used: nothing if it
/// never ran.
pub open spec fn told_usage(usage: Usage, had_usage: bool) -> Option<ReplyUsage> {
    if had_usage {
        Some(
            ReplyUsage {
                input_tokens: usage.input_tokens,
                output_tokens: usage.output_tokens,
                cached_read_tokens: usage.cached_read_tokens,
                cached_write_tokens: usage.cached_write_tokens,
                total_tokens: total(usage) as u64,
            },
        )
    } else {
        None
    }
}

/// The answer that a settled turn gives: why it ended, and what it used, unless
/// it never ran.
pub fn settled_reply(stop_reason: StopReason, usage: &Usage, had_usage: bool) -> (r: PromptReply)
    requires
        had_usage ==> total(*usage) <= u64::MAX,
    ensures
        r.stop_reason@ == stop_reason.spelled(),
        r.usage == told_usage(*usage, had_usage),
{
    PromptReply {
        stop_reason: stop_reason.as_str().to_owned(),
        usage: if had_usage {
            Some(
                ReplyUsage {
                    input_tokens: usage.input_tokens,
                    output_tokens: usage.output_tokens,
                    cached_read_tokens: usage.cached_read_tokens,
                    cached_write_tokens: usage.cached_write_tokens,
                    total_tokens: usage.input_tokens + usage.output_tokens
                        + usage.cached_read_tokens + usage.cached_write_tokens,
                },
            )
        } else {
            None
        },
    }
}

} // verus!
