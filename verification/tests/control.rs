//! The control channel: who waits for what, and what is written.

use acp_adapter::codec::{encode_frame, parse_lines, LineCodec};
use acp_adapter::control::{
    parse_initialize_response, request_id, respond_error, Control, ControlAction, ControlError,
    InitializeOptions, Outbound,
};
use acp_adapter::json::Json;
use serde_json::Value;

fn json(text: &str) -> Json {
    Json::parse_str(text).expect("valid JSON")
}

fn value(j: &Json) -> Value {
    serde_json::from_str(&j.to_text()).expect("printed JSON")
}

fn written(action: ControlAction) -> Json {
    match action {
        ControlAction::Write(frame) => frame,
        _ => panic!("expected a frame to be written"),
    }
}

fn is_idle(action: &ControlAction) -> bool {
    matches!(action, ControlAction::Idle)
}

#[test]
fn inv_07_keep_alive_consumed() {
    let mut control = Control::new();
    assert!(is_idle(&control.route_inbound(json(r#"{"type": "keep_alive"}"#), 1)));
    let frame = written(control.send_user(json(r#"{"type":"user","message":{}}"#)));
    assert_eq!(frame.get_str("type"), Some("user"), "user frame written, keep_alive not surfaced");
}

#[test]
fn inv_08_single_stdin_writer() {
    let mut control = Control::new();
    let mut bytes: Vec<u8> = Vec::new();
    for i in 0..100u64 {
        let action = match i % 4 {
            0 => control.send_user(json(&format!(r#"{{"type":"user","n":{i}}}"#))),
            1 => control.send_response(json(&format!(
                r#"{{"type":"control_response","response":{{"subtype":"success","request_id":"resp{i}"}}}}"#
            ))),
            2 => control.send_cancel(json(&format!(
                r#"{{"type":"control_cancel_request","request_id":"cancel{i}"}}"#
            ))),
            _ => control.send_request(
                json(&format!(r#"{{"subtype":"get_context_usage","request_id_hint":{i}}}"#)),
                request_id(7, i),
                i,
            ),
        };
        bytes.extend(encode_frame(&written(action)));
    }
    // Every write produced exactly one whole line.
    let mut codec = LineCodec::new();
    let mut lines = Vec::new();
    codec.push(&bytes, &mut lines);
    let frames = parse_lines(&lines);
    assert_eq!(frames.len(), 100, "exactly 100 whole lines written");
    for frame in &frames {
        let t = frame.get_str("type").expect("type field");
        assert!(
            matches!(
                t,
                "user" | "control_response" | "control_cancel_request" | "control_request"
            ),
            "unexpected type {t}"
        );
    }
}

#[test]
fn inv_09_unknown_id_dropped() {
    let mut control = Control::new();
    let ghost = json(
        r#"{"type":"control_response","response":{"subtype":"success","request_id":"ghostid"}}"#,
    );
    assert!(is_idle(&control.route_inbound(ghost, 1)));
    let nameless = json(r#"{"type":"control_response","response":{}}"#);
    assert!(is_idle(&control.route_inbound(nameless, 1)));
    let frame = written(control.send_user(json(r#"{"type":"user"}"#)));
    assert_eq!(frame.get_str("type"), Some("user"));
}

#[test]
fn inv_10_inbound_cancel_aborts_handler() {
    let mut control = Control::new();
    let action = control.route_inbound(
        json(r#"{"type":"control_request","request_id":"req-1","request":{"subtype":"can_use_tool"}}"#),
        41,
    );
    match action {
        ControlAction::Handle { task, request_id, frame } => {
            assert_eq!(task, 41);
            assert_eq!(request_id, "req-1");
            assert_eq!(value(&frame)["request"]["subtype"], "can_use_tool");
        }
        _ => panic!("expected the request to be handled"),
    }
    let cancel = json(r#"{"type":"control_cancel_request","request_id":"req-1"}"#);
    match control.route_inbound(cancel.copy(), 42) {
        ControlAction::Abort { task } => assert_eq!(task, 41),
        _ => panic!("expected the handler to be aborted"),
    }
    // It is aborted once.
    assert!(is_idle(&control.route_inbound(cancel, 43)));
}

#[test]
fn answered_request_can_no_longer_be_withdrawn() {
    let mut control = Control::new();
    control.route_inbound(json(r#"{"type":"control_request","request_id":"r"}"#), 1);
    written(control.send_response(respond_error("r")));
    let cancel = json(r#"{"type":"control_cancel_request","request_id":"r"}"#);
    assert!(is_idle(&control.route_inbound(cancel, 2)));
}

#[test]
fn response_resolves_its_request_once() {
    let mut control = Control::new();
    let frame = written(control.send_request(json(r#"{"subtype":"x"}"#), "id1".to_string(), 9));
    assert_eq!(
        frame.to_text(),
        r#"{"request_id":"id1","type":"control_request","request":{"subtype":"x"}}"#
    );
    // Another request in between changes nothing.
    written(control.send_request(json(r#"{"subtype":"y"}"#), "id2".to_string(), 10));
    let response = json(r#"{"type":"control_response","response":{"request_id":"id1"}}"#);
    match control.route_inbound(response.copy(), 0) {
        ControlAction::Resolve { ticket, frame } => {
            assert_eq!(ticket, 9);
            assert_eq!(frame.to_text(), response.to_text());
        }
        _ => panic!("expected the request to be resolved"),
    }
    assert!(is_idle(&control.route_inbound(response, 0)));
}

#[test]
fn inv_11_initialize_matches_adapter() {
    let mut control = Control::new();
    let opts = InitializeOptions {
        hooks: Some(json(
            r#"{"PostToolUse": [{"hookCallbackIds": ["hook_0"]}],
                "TaskCreated": [{"hookCallbackIds": ["hook_1"]}],
                "TaskCompleted": [{"hookCallbackIds": ["hook_2"]}]}"#,
        )),
        forward_subagent_text: false,
        ..Default::default()
    };
    let frame = written(control.initialize(&opts, "abcdefghijklm".to_string(), 1));
    assert_eq!(
        frame.to_text(),
        concat_text(&[
            r#"{"request_id":"abcdefghijklm","type":"control_request","request":{"subtype":"initialize","#,
            r#""hooks":{"PostToolUse":[{"hookCallbackIds":["hook_0"]}],"#,
            r#""TaskCreated":[{"hookCallbackIds":["hook_1"]}],"#,
            r#""TaskCompleted":[{"hookCallbackIds":["hook_2"]}]},"forwardSubagentText":false}}"#,
        ])
    );
}

fn concat_text(parts: &[&str]) -> String {
    parts.concat()
}

#[test]
fn initialize_holds_what_is_set() {
    let opts = InitializeOptions {
        system_prompt: Some(Json::text("p")),
        agents: Some(json("{}")),
        hooks: None,
        skills: Some(json("[]")),
        tool_aliases: Some(json("{}")),
        forward_subagent_text: true,
    };
    assert_eq!(
        opts.build_request().to_text(),
        r#"{"subtype":"initialize","systemPrompt":"p","agents":{},"skills":[],"toolAliases":{},"forwardSubagentText":true}"#
    );
}

#[test]
fn pending_permission_replayed() {
    let mut control = Control::new();
    let response = json(
        r#"{"type": "control_response", "response": {"subtype": "success", "request_id": "abc",
            "response": {"models": [], "commands": [], "pending_permission_requests": [
                {"type": "control_request", "request_id": "ppr-1",
                 "request": {"subtype": "can_use_tool", "tool_name": "Bash"}}]}}}"#,
    );
    let info = parse_initialize_response(&response);
    assert_eq!(info.pending_permission_requests.len(), 1);
    let actions = control.replay_pending_permissions(&info.pending_permission_requests, 5);
    assert_eq!(actions.len(), 1);
    match &actions[0] {
        ControlAction::Handle { task, request_id, frame } => {
            assert_eq!(*task, 5);
            assert_eq!(request_id, "ppr-1");
            assert_eq!(value(frame)["request"]["subtype"], "can_use_tool");
        }
        _ => panic!("expected the request to be handled"),
    }
    // It can be withdrawn like any other.
    match control.route_inbound(json(r#"{"type":"control_cancel_request","request_id":"ppr-1"}"#), 6) {
        ControlAction::Abort { task } => assert_eq!(task, 5),
        _ => panic!("expected the handler to be aborted"),
    }
}

#[test]
fn initialize_response_without_fields_is_empty() {
    let info = parse_initialize_response(&json("{}"));
    assert!(info.commands.is_empty() && info.models.is_empty());
    assert!(info.account.is_none() && info.pending_permission_requests.is_empty());
    let info = parse_initialize_response(&json(
        r#"{"response":{"response":{"commands":[{"name":"a"}],"models":[1,2],"account":{"x":1}}}}"#,
    ));
    assert_eq!(info.commands.len(), 1);
    assert_eq!(info.models.len(), 2);
    assert_eq!(info.account.map(|a| a.to_text()), Some(r#"{"x":1}"#.to_string()));
}

#[test]
fn unknown_subtype_errors() {
    let mut control = Control::new();
    let action = control.route_inbound(
        json(r#"{"type":"control_request","request_id":"req-9","request":{"subtype":"bogus_subtype"}}"#),
        1,
    );
    let id = match action {
        ControlAction::Handle { request_id, .. } => request_id,
        _ => panic!("expected the request to be handled"),
    };
    let frame = value(&written(control.send_response(respond_error(&id))));
    assert_eq!(frame["type"], "control_response");
    assert_eq!(frame["response"]["subtype"], "error");
    assert_eq!(frame["response"]["request_id"], "req-9");
}

#[test]
fn slow_outbound_does_not_block_inbound() {
    let mut control = Control::new();
    // A request whose response never arrives.
    let frame = written(control.send_request(
        json(r#"{"subtype":"get_context_usage"}"#),
        request_id(1, 0),
        1,
    ));
    assert_eq!(frame.get_str("type"), Some("control_request"));
    // Meanwhile other frames are handled.
    assert!(is_idle(&control.route_inbound(json(r#"{"type":"keep_alive"}"#), 2)));
    let action = control.route_inbound(
        json(r#"{"type":"control_request","request_id":"req-7","request":{"subtype":"unknown"}}"#),
        2,
    );
    let id = match action {
        ControlAction::Handle { request_id, .. } => request_id,
        _ => panic!("expected the request to be handled"),
    };
    let response = value(&written(control.on_outbound(Outbound::Response(respond_error(&id)))));
    assert_eq!(response["type"], "control_response");
    assert_eq!(response["response"]["subtype"], "error");
}

#[test]
fn request_ids_have_their_shape_and_differ() {
    let mut seen = Vec::new();
    for counter in 0..1000u64 {
        let id = request_id(1_790_000_000_000_000_000, counter);
        assert_eq!(id.len(), 13);
        assert!(id.bytes().all(|b| b.is_ascii_digit() || b.is_ascii_lowercase()), "{id}");
        assert!(!seen.contains(&id));
        seen.push(id);
    }
    assert_eq!(request_id(0, 0), "0000000000000");
    assert_eq!(request_id(36 * 36 + 35, 0), "z010000000000");
}

#[test]
fn control_errors_are_described() {
    assert_eq!(ControlError::Closed.describe(), "control channel closed");
    assert_eq!(
        ControlError::Stdin("e".into()).describe(),
        "failed to write a frame to child stdin: e"
    );
    assert_eq!(ControlError::Serialize("e".into()).describe(), "failed to serialise a frame: e");
}
