//! Prompts of a session: one at a time, in order.

use acp_adapter::dispatch::StreamMsg;
use acp_adapter::feed::{settled_reply, total_fits};
use acp_adapter::json::Json;
use acp_adapter::session::{Session, SessionError};
use acp_adapter::turn::{FailureKind, StopReason, Usage};

fn json(text: &str) -> Json {
    Json::parse_str(text).expect("valid JSON")
}

#[test]
fn inv_14_one_active_turn() {
    let mut session = Session::new();
    let total: u64 = 25;
    let mut fed = Vec::new();
    for i in 0..total {
        let frame = session.prompt(i, json(&format!(r#"{{"type":"user","text":"{i}"}}"#)));
        // Only the first is fed to the child at once.
        assert_eq!(frame.is_some(), i == 0);
        fed.extend(frame);
    }
    let mut resolved = Vec::new();
    for i in 0..total {
        let done = session.complete().expect("a prompt is active");
        assert_eq!(done.ticket, i, "prompts resolve in order");
        fed.extend(done.next);
        resolved.push(done.reply.stop_reason);
    }
    assert!(session.complete().is_none());
    assert_eq!(resolved.len(), total as usize);
    assert_eq!(session.high_water(), 1, "at most one active turn per session");
    assert!(resolved.iter().all(|r| r == "end_turn"));
    let texts: Vec<&str> = fed.iter().map(|f| f.get_str("text").unwrap_or("")).collect();
    let expected: Vec<String> = (0..total).map(|i| i.to_string()).collect();
    assert_eq!(texts, expected);
}

#[test]
fn inv_15_cancel_loses_nothing() {
    let mut session = Session::new();
    let total: usize = 200;
    let mut msgs = Vec::new();
    for i in 0..total {
        msgs.push(StreamMsg::new(json(&format!(r#"{{"type":"user","i":{i}}}"#))));
    }
    // Some are dispatched before the session ends, the rest when it does.
    let rest = msgs.split_off(77);
    for msg in msgs {
        assert!(session.dispatch_stream(msg).is_none());
    }
    session.cancel();
    assert!(session.drain(rest).is_empty());
    assert_eq!(session.processed_stream(), total, "no queued message is lost");
}

#[test]
fn control_lines_are_handed_on_in_order() {
    let mut session = Session::new();
    let first = session.dispatch_stream(StreamMsg::new(json(r#"{"type":"control_request","n":0}"#)));
    assert_eq!(first.map(|f| f.to_text()), Some(r#"{"type":"control_request","n":0}"#.to_string()));
    let out = session.drain(vec![
        StreamMsg::new(json(r#"{"type":"user"}"#)),
        StreamMsg::new(json(r#"{"type":"keep_alive","n":1}"#)),
        StreamMsg::new(json(r#"{"type":"odd"}"#)),
        StreamMsg::new(json(r#"{"type":"control_response","n":2}"#)),
    ]);
    let order: Vec<Option<u64>> = out.iter().map(|f| f.get_u64("n")).collect();
    assert_eq!(order, vec![Some(1), Some(2)]);
    assert_eq!(session.processed_stream(), 5);
}

#[test]
fn prompt_after_completion_is_active_again() {
    let mut session = Session::new();
    assert_eq!(session.high_water(), 0);
    assert!(session.prompt(1, Json::Null).is_some());
    assert!(session.complete().expect("active").next.is_none());
    assert!(session.prompt(2, Json::Null).is_some());
    assert_eq!(session.complete().expect("active").ticket, 2);
}

#[test]
fn reply_of_a_settled_turn() {
    let usage = Usage { input_tokens: 1, output_tokens: 2, cached_read_tokens: 3, cached_write_tokens: 4 };
    assert!(total_fits(&usage));
    let reply = settled_reply(StopReason::MaxTokens, &usage, true);
    assert_eq!(reply.stop_reason, "max_tokens");
    assert_eq!(reply.usage.map(|u| u.total_tokens), Some(10));
    // A turn that never ran reports no usage.
    assert!(settled_reply(StopReason::Cancelled, &usage, false).usage.is_none());
    let huge = Usage { input_tokens: u64::MAX, output_tokens: 1, ..Usage::default() };
    assert!(!total_fits(&huge));
}

#[test]
fn session_errors_are_described() {
    assert_eq!(SessionError::Closed.describe(), "session closed");
    assert_eq!(SessionError::Start("no".into()).describe(), "no");
    let failed = SessionError::PromptFailed {
        kind: FailureKind::NoResult,
        message: "went idle".into(),
    };
    assert_eq!(failed.describe(), "went idle");
}
