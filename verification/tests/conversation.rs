//! Whole conversations: frames of the child go in, what the client sees comes out.

use acp_adapter::acp::{ContentBlock, SessionUpdate};
use acp_adapter::agent::{
    handle_request, prompt_response, session_failed, session_started, AgentAction, AgentContext,
    ServeOptions,
};
use acp_adapter::control::{parse_initialize_response, Control, ControlAction};
use acp_adapter::dispatch::{route, Route, StreamMsg, TurnView};
use acp_adapter::feed::{interrupt_request, settled_reply, still_queued, updates_for};
use acp_adapter::json::Json;
use acp_adapter::map::{text_chunk, MapState, MsgRole};
use acp_adapter::permission::{
    build_request_permission, build_tool_call, control_answer, ensure_tool_call_emitted,
    map_outcome, parse_can_use_tool,
};
use acp_adapter::process::build_argv;
use acp_adapter::session::SessionError;
use acp_adapter::strmap::StrSet;
use acp_adapter::turn::{Turn, TurnEvent, TurnMachine, SESSION_ENDED_MESSAGE};

fn json(text: &str) -> Json {
    Json::parse_str(text).expect("valid JSON")
}

/// A client with one session.
struct Talk {
    sessions: StrSet,
    running: StrSet,
    machine: TurnMachine,
    map: MapState,
    control: Control,
    delivered: bool,
    log: Vec<String>,
    written: Vec<String>,
}

impl Talk {
    fn new() -> Talk {
        let mut sessions = StrSet::new();
        sessions.insert("s1");
        Talk {
            sessions,
            running: StrSet::new(),
            machine: TurnMachine::new(),
            map: MapState::new(),
            control: Control::new(),
            delivered: false,
            log: Vec::new(),
            written: Vec::new(),
        }
    }

    fn request(&self, method: &str, params: &str, uuid: &str) -> AgentAction {
        let cx = AgentContext {
            options: ServeOptions::default(),
            agent_name: String::new(),
            agent_title: String::new(),
            process_cwd: None,
        };
        handle_request(&self.sessions, &self.running, method, &json(params), &cx, uuid.to_string())
    }

    /// The client sends a prompt.
    fn prompt(&mut self, uuid: &str, text: &str) {
        let params = format!(
            r#"{{"sessionId":"s1","prompt":[{{"type":"text","text":"{text}"}}]}}"#
        );
        match self.request("session/prompt", &params, uuid) {
            AgentAction::Prompt { uuid, frame, is_local_only, .. } => {
                self.machine.enqueue(Turn::new(uuid, is_local_only));
                match self.control.send_user(frame) {
                    ControlAction::Write(frame) => self.written.push(frame.to_text()),
                    _ => panic!("a prompt is written"),
                }
            }
            _ => panic!("a prompt is given to its session"),
        }
    }

    fn show(&mut self, update: &SessionUpdate) {
        match update {
            SessionUpdate::AgentMessageChunk(ContentBlock::Text { text }) => {
                self.delivered = true;
                self.log.push(format!("text {text}"));
            }
            SessionUpdate::ToolCall(call) => self.log.push(format!("tool {}", call.title)),
            SessionUpdate::ToolCallUpdate(u) => {
                self.log.push(format!("tool update {}", u.tool_call_id))
            }
            _ => self.log.push("other update".to_string()),
        }
    }

    fn events(&mut self, events: Vec<TurnEvent>) {
        for event in events {
            match event {
                TurnEvent::Activated { .. } => self.delivered = false,
                TurnEvent::FinalText { text } => {
                    let chunk = text_chunk(&text, MsgRole::Assistant);
                    self.show(&chunk);
                }
                TurnEvent::Settled { prompt_uuid, stop_reason, usage, had_usage } => {
                    let reply = settled_reply(stop_reason, &usage, had_usage);
                    self.log.push(format!("{prompt_uuid} {}", prompt_response(&reply).to_text()));
                }
                TurnEvent::Failed { prompt_uuid, kind, message } => {
                    let error = session_failed(&SessionError::PromptFailed { kind, message });
                    self.log.push(format!("{prompt_uuid} {} {}", error.code, error.message));
                }
            }
        }
    }

    /// A line of the child.
    fn line(&mut self, text: &str) {
        let msg = StreamMsg::new(json(text));
        match route(&msg, &TurnView::default()) {
            Route::Control => panic!("control traffic is handled by itself"),
            Route::Ignore => return,
            Route::Session => {}
        }
        let updates = updates_for(&msg.line, &mut self.map);
        for update in &updates {
            self.show(update);
        }
        assert!(self.machine.feed_fits(&msg.line));
        let events = self.machine.feed(&msg.line, self.delivered);
        self.events(events);
    }

    fn echo(&mut self, uuid: &str) {
        self.line(&format!(r#"{{"type":"user","uuid":"{uuid}","isReplay":true}}"#));
    }

    fn says(&mut self, text: &str) {
        self.line(&format!(
            r#"{{"type":"assistant","message":{{"content":[{{"type":"text","text":"{text}"}}]}}}}"#
        ));
    }

    fn result(&mut self, text: &str) {
        self.line(&format!(
            r#"{{"type":"result","subtype":"success","is_error":false,"stop_reason":"end_turn","result":"{text}","usage":{{"input_tokens":3,"output_tokens":5}}}}"#
        ));
    }

    fn idle(&mut self) {
        self.line(r#"{"type":"system","subtype":"session_state_changed","state":"idle"}"#);
    }

    fn cancel(&mut self) {
        assert!(self.machine.cancel_fits());
        let events = self.machine.cancel();
        self.events(events);
    }

    fn take(&mut self) -> Vec<String> {
        std::mem::take(&mut self.log)
    }
}

fn end_turn(uuid: &str) -> String {
    format!(
        r#"{uuid} {{"stopReason":"end_turn","usage":{{"inputTokens":3,"outputTokens":5,"cachedReadTokens":0,"cachedWriteTokens":0,"totalTokens":8}}}}"#
    )
}

fn cancelled(uuid: &str) -> String {
    format!(
        r#"{uuid} {{"stopReason":"cancelled","usage":{{"inputTokens":0,"outputTokens":0,"cachedReadTokens":0,"cachedWriteTokens":0,"totalTokens":0}}}}"#
    )
}

#[test]
fn inv_24_text_only() {
    let mut talk = Talk::new();
    talk.prompt("p1", "hello");
    assert!(talk.written[0].contains(r#""uuid":"p1""#));
    talk.echo("p1");
    talk.says("hi there");
    talk.result("hi there");
    talk.idle();
    assert_eq!(talk.take(), vec!["text hi there".to_string(), end_turn("p1")]);

    // A session that is loaded goes on the same way.
    match talk.request("session/load", r#"{"sessionId":"old"}"#, "unused") {
        AgentAction::Start { session_id, spawn } => {
            assert_eq!(session_id, "old");
            assert!(build_argv(&spawn).contains(&"--resume=old".to_string()));
        }
        _ => panic!("a session is started"),
    }
    talk.prompt("p2", "more");
    talk.echo("p2");
    talk.says("again");
    talk.result("again");
    assert_eq!(talk.take(), vec!["text again".to_string(), end_turn("p2")]);
}

#[test]
fn inv_24_commands_proactive() {
    let talk = Talk::new();
    match talk.request("session/new", "{}", "new-id") {
        AgentAction::Start { session_id, .. } => {
            let info = parse_initialize_response(&json(
                r#"{"response":{"response":{"commands":[{"name":"compact","description":"c"}]}}}"#,
            ));
            let (response, commands) = session_started(&session_id, &info);
            assert_eq!(response.get_str("sessionId"), Some("new-id"));
            assert!(!commands.is_empty(), "the commands are told right after session/new");
        }
        _ => panic!("a session is started"),
    }
}

#[test]
fn inv_24_lagging_idle() {
    let mut talk = Talk::new();
    talk.prompt("p1", "one");
    talk.echo("p1");
    talk.says("first");
    talk.result("first");
    // The idle of the first turn comes after the echo of the second.
    talk.prompt("p2", "two");
    talk.echo("p2");
    talk.idle();
    talk.says("second");
    talk.result("second");
    talk.idle();
    assert_eq!(
        talk.take(),
        vec!["text first".to_string(), end_turn("p1"), "text second".to_string(), end_turn("p2")]
    );
}

#[test]
fn inv_24_context_echo_less() {
    let mut talk = Talk::new();
    talk.prompt("p1", "/context");
    // There is no echo; the result alone promotes and settles the turn, and its
    // text is shown.
    talk.result("42% used");
    talk.idle();
    assert_eq!(talk.take(), vec!["text 42% used".to_string(), end_turn("p1")]);
}

#[test]
fn inv_24_subagent_followup() {
    let mut talk = Talk::new();
    talk.prompt("p1", "delegate");
    talk.echo("p1");
    talk.line(r#"{"type":"system","subtype":"task_started","task_id":"t1","subagent_type":"general"}"#);
    talk.says("waiting");
    talk.result("waiting");
    assert_eq!(talk.take(), vec!["text waiting".to_string()], "the turn is held");
    talk.line(r#"{"type":"system","subtype":"task_notification","task_id":"t1"}"#);
    assert!(talk.take().is_empty());
    talk.says("summary");
    talk.line(
        r#"{"type":"result","subtype":"success","origin":{"kind":"task-notification"},"usage":{"output_tokens":1}}"#,
    );
    assert_eq!(talk.take(), vec!["text summary".to_string(), end_turn("p1")]);
}

#[test]
fn inv_24_cancel_queued_echo_less() {
    let mut talk = Talk::new();
    talk.prompt("p1", "one");
    talk.echo("p1");
    talk.prompt("p2", "two");
    talk.cancel();
    assert_eq!(talk.take(), vec![r#"p2 {"stopReason":"cancelled"}"#.to_string()]);
    talk.idle();
    assert_eq!(talk.take(), vec![cancelled("p1")]);
    // The result of the swept prompt comes late: it belongs to no turn.
    talk.prompt("p3", "/context");
    talk.result("late");
    assert!(talk.take().is_empty(), "the late result settles nothing");
    talk.result("own");
    assert_eq!(talk.take(), vec!["text own".to_string(), end_turn("p3")]);
}

#[test]
fn inv_24_cancel() {
    let mut talk = Talk::new();
    talk.prompt("p1", "long");
    talk.echo("p1");
    talk.says("working");
    talk.cancel();
    assert_eq!(talk.take(), vec!["text working".to_string()], "the turn waits for the interrupt");
    talk.idle();
    assert_eq!(talk.take(), vec![cancelled("p1")]);
}

#[test]
fn inv_24_eof_mid_turn() {
    let mut talk = Talk::new();
    talk.prompt("p1", "one");
    talk.echo("p1");
    talk.says("partial");
    talk.prompt("p2", "two");
    let events = talk.machine.on_stream_end();
    talk.events(events);
    let log = talk.take();
    assert_eq!(log.len(), 3);
    assert_eq!(log[0], "text partial");
    assert!(log[1].starts_with(r#"p1 {"stopReason":"end_turn""#), "{}", log[1]);
    assert_eq!(log[2], format!("p2 -32603 Internal error: {SESSION_ENDED_MESSAGE}"));
    // A later prompt is refused up front.
    let refused = session_failed(&SessionError::Closed);
    assert_eq!(refused.code, -32603);
    assert_eq!(refused.message, format!("Internal error: {SESSION_ENDED_MESSAGE}"));
}

fn permission(talk: &mut Talk, outcome: &str) -> Json {
    talk.prompt("p1", "run it");
    talk.echo("p1");
    let frame = json(
        r#"{"type":"control_request","request_id":"r1","request":{"subtype":"can_use_tool",
            "tool_name":"Bash","input":{"command":"ls"},"tool_use_id":"t1"}}"#,
    );
    let frame = match talk.control.route_inbound(frame, 1) {
        ControlAction::Handle { frame, .. } => frame,
        _ => panic!("the request is handled"),
    };
    let ask = parse_can_use_tool(&frame);
    // The client sees the call before it is asked.
    let shown = ensure_tool_call_emitted(
        &ask.tool_name,
        &ask.tool_input,
        &ask.tool_use_id,
        None,
        &mut talk.map,
    );
    talk.show(&shown.expect("the call is shown"));
    let call = build_tool_call(&ask.tool_name, &ask.tool_input, &ask.tool_use_id, None);
    let params = build_request_permission("s1", call, &ask.tool_name, &ask.suggestions);
    assert_eq!(params.get("options").and_then(|o| o.as_array()).map(|o| o.len()), Some(3));
    let answer = control_answer(map_outcome(&json(outcome)), &ask);
    match talk.control.send_response(answer) {
        ControlAction::Write(frame) => frame,
        _ => panic!("the answer is written"),
    }
}

#[test]
fn inv_24_permissions() {
    let mut talk = Talk::new();
    let answer = permission(&mut talk, r#"{"outcome":"selected","optionId":"allow"}"#);
    assert!(answer.to_text().contains(r#""behavior":"allow","updatedInput":{"command":"ls"}"#));
    // The streamed call refines the one that was shown.
    talk.line(
        r#"{"type":"assistant","message":{"content":[{"type":"tool_use","id":"t1","name":"Bash","input":{"command":"ls"}}]}}"#,
    );
    talk.says("done");
    talk.result("done");
    assert_eq!(
        talk.take(),
        vec!["tool ls".to_string(), "tool update t1".to_string(), "text done".to_string(), end_turn("p1")]
    );

    let mut talk = Talk::new();
    let answer = permission(&mut talk, r#"{"outcome":"selected","optionId":"reject"}"#);
    assert!(answer.to_text().contains(r#""behavior":"deny""#));
    assert!(!answer.to_text().contains("interrupt"));
    talk.says("then not");
    talk.result("then not");
    assert_eq!(talk.take(), vec!["tool ls".to_string(), "text then not".to_string(), end_turn("p1")]);
}

#[test]
fn frames_are_shown_by_their_type() {
    let mut talk = Talk::new();
    talk.says("hello");
    talk.line(r#"{"type":"user","uuid":"u1","isReplay":true,"message":{"content":"hi"}}"#);
    talk.line(r#"{"type":"user","message":{"content":"hi"}}"#);
    talk.line(
        r#"{"type":"stream_event","event":{"type":"content_block_delta","index":0,"delta":{"type":"text_delta","text":"more"}}}"#,
    );
    talk.line(r#"{"type":"system","subtype":"init"}"#);
    assert_eq!(talk.log, vec!["text hello", "other update", "text more"]);

    let mut map = MapState::new();
    let changed = json(
        r#"{"type":"system","subtype":"commands_changed","commands":[{"name":"a","description":"first"},{"name":"b","description":"second"}],"terminal_commands":[{"name":"b"}]}"#,
    );
    let updates = updates_for(&changed, &mut map);
    assert_eq!(updates.len(), 1);
    match &updates[0] {
        SessionUpdate::AvailableCommandsUpdate(list) => {
            assert_eq!(list.len(), 1);
            assert_eq!(list[0].name, "a");
            assert_eq!(list[0].description, "first");
        }
        _ => panic!("the commands are told"),
    }
}

#[test]
fn receipt_of_an_interrupt_lists_what_is_queued() {
    assert_eq!(interrupt_request().to_text(), r#"{"subtype":"interrupt"}"#);
    let receipt = json(
        r#"{"type":"control_response","response":{"subtype":"success","response":{"still_queued":["p1","p2"]}}}"#,
    );
    assert_eq!(still_queued(&receipt), Some(vec!["p1".to_string(), "p2".to_string()]));
    let bare = json(r#"{"type":"control_response","response":{"subtype":"success","response":{}}}"#);
    assert_eq!(still_queued(&bare), None);
    assert_eq!(still_queued(&json(r#"{"type":"control_response"}"#)), None);
}
