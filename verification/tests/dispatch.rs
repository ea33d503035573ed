//! Where lines go, and in what order.

use acp_adapter::dispatch::{route, run_dispatch, ControlFlow, Recorder, Route, StreamMsg, TurnView};
use acp_adapter::json::Json;

fn msg(text: &str) -> StreamMsg {
    StreamMsg::new(Json::parse_str(text).expect("valid JSON"))
}

#[test]
fn inv_13_dispatch_order() {
    let total: usize = 1000;
    let mut msgs = Vec::new();
    for i in 0..total {
        let kind = if i % 2 == 0 { "user" } else { "result" };
        msgs.push(msg(&format!("{{\"type\":\"{kind}\",\"i\":{i}}}")));
    }
    let mut recorder = Recorder::new();
    assert_eq!(run_dispatch(msgs, &mut recorder), ControlFlow::Continue);
    let seen = recorder.seen();
    assert_eq!(seen.len(), total, "every message must arrive exactly once");
    for (idx, (msg, route)) in seen.iter().enumerate() {
        let expected = if idx % 2 == 0 { "user" } else { "result" };
        assert_eq!(msg.frame_type(), expected, "message at index {idx}");
        assert_eq!(msg.line.get_u64("i"), Some(idx as u64));
        assert_eq!(*route, Route::Session);
    }
}

#[test]
fn routes_by_type() {
    let view = TurnView::default();
    let busy = TurnView { has_active_turn: true };
    for (text, expected) in [
        (r#"{"type":"keep_alive"}"#, Route::Control),
        (r#"{"type":"control_response"}"#, Route::Control),
        (r#"{"type":"control_request"}"#, Route::Control),
        (r#"{"type":"control_cancel_request"}"#, Route::Control),
        (r#"{"type":"user"}"#, Route::Session),
        (r#"{"type":"assistant"}"#, Route::Session),
        (r#"{"type":"result"}"#, Route::Session),
        (r#"{"type":"system"}"#, Route::Session),
        (r#"{"type":"stream_event"}"#, Route::Session),
        (r#"{"type":"other"}"#, Route::Ignore),
        (r#"{"type":7}"#, Route::Ignore),
        (r#"{}"#, Route::Ignore),
        (r#"[]"#, Route::Ignore),
    ] {
        assert_eq!(route(&msg(text), &view), expected, "{text}");
        assert_eq!(route(&msg(text), &busy), expected, "{text}");
    }
}
