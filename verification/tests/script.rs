//! Scripts, and the order in which they are carried out.

use acp_adapter::agent::RpcError;
use acp_adapter::frames::{Direction, Frame};
use acp_adapter::json::Json;
use acp_adapter::recorder::{
    finish, parse_agent, reply_permission, wait_for_updates, AgentCommand, LineSource,
    PermissionOption,
    PermissionOptionKind, PermissionReply, RecordError, Recording, RunAction, RunEvent, ScriptRun,
    Wait, POST_CREATE_SETTLE, UPDATE_POLL_INTERVAL, UPDATE_WAIT_TIMEOUT,
};
use acp_adapter::script::{PermissionPolicy, Script, ScriptError, Step};

fn json(text: &str) -> Json {
    Json::parse_str(text).expect("valid JSON")
}

#[test]
fn parses_ordered_calls_and_policy() {
    let script = Script::parse(
        r#"{
            "permission": "deny",
            "steps": [
                {"call": "initialize"},
                {"call": "session/new", "cwd": "/tmp"},
                {"call": "session/prompt", "text": "hello"},
                {"call": "session/cancel"}
            ]
        }"#,
    )
    .unwrap();

    assert_eq!(script.permission, PermissionPolicy::Deny);
    assert_eq!(script.steps.len(), 4);
    assert_eq!(script.steps[0], Step::Initialize);
    assert_eq!(
        script.steps[1],
        Step::NewSession {
            cwd: Some("/tmp".to_string())
        }
    );
    assert_eq!(
        script.steps[2],
        Step::Prompt {
            text: "hello".to_string(),
            cancel_after_updates: None
        }
    );
    assert_eq!(script.steps[3], Step::Cancel);
}

#[test]
fn defaults_permission_to_allow() {
    let script = Script::parse(r#"{"steps": [{"call": "initialize"}]}"#).unwrap();
    assert_eq!(script.permission, PermissionPolicy::Allow);
}

#[test]
fn parses_cancel_after_updates() {
    let script = Script::parse(
        r#"{"steps": [{"call": "session/prompt", "text": "x", "cancel_after_updates": 5}]}"#,
    )
    .unwrap();
    assert_eq!(
        script.steps[0],
        Step::Prompt {
            text: "x".to_string(),
            cancel_after_updates: Some(5)
        }
    );
}

#[test]
fn rejects_unknown_call() {
    assert!(Script::parse(r#"{"steps": [{"call": "session/bogus"}]}"#).is_err());
}

#[test]
fn script_round_trip() {
    let script = Script::parse(r#"{"steps":[{"call":"initialize"}]}"#).unwrap();
    assert_eq!(script.steps.len(), 1);
}

#[test]
fn scripts_of_other_shapes() {
    assert_eq!(Script::parse("{"), Err(ScriptError::NotJson));
    for text in [
        r#"{}"#,
        r#"3"#,
        r#"{"steps":{}}"#,
        r#"{"steps":[{}]}"#,
        r#"{"steps":[{"call":1}]}"#,
        r#"{"steps":[{"call":"session/prompt"}]}"#,
        r#"{"steps":[{"call":"session/prompt","text":1}]}"#,
        r#"{"steps":[{"call":"session/prompt","text":"x","cancel_after_updates":-1}]}"#,
        r#"{"steps":[{"call":"session/prompt","text":"x","cancel_after_updates":1.0}]}"#,
        r#"{"steps":[{"call":"session/new","cwd":1}]}"#,
        r#"{"steps":[{"call":"session/load"}]}"#,
        r#"{"permission":"maybe","steps":[]}"#,
        r#"{"permission":null,"steps":[]}"#,
        r#"["allow"]"#,
        r#"["allow",[],1]"#,
        r#"{"steps":[["initialize",1]]}"#,
        r#"{"steps":["initialize"]}"#,
    ] {
        assert_eq!(Script::parse(text), Err(ScriptError::NotScript), "{text}");
    }
    // Fields can be null, unknown, or given as a list.
    let script = Script::parse(
        r#"["deny",[["initialize"],["session/new"],["session/new","/a"],["session/load","s","/b"],
            ["session/prompt","t",2],["session/cancel"],
            {"call":"session/new","cwd":null,"more":1},
            {"call":"session/load","session_id":"s"}]]"#,
    )
    .unwrap();
    assert_eq!(script.permission, PermissionPolicy::Deny);
    assert_eq!(
        script.steps,
        vec![
            Step::Initialize,
            Step::NewSession { cwd: None },
            Step::NewSession { cwd: Some("/a".into()) },
            Step::LoadSession { session_id: "s".into(), cwd: Some("/b".into()) },
            Step::Prompt { text: "t".into(), cancel_after_updates: Some(2) },
            Step::Cancel,
            Step::NewSession { cwd: None },
            Step::LoadSession { session_id: "s".into(), cwd: None },
        ]
    );
    let script = Script::parse(r#"{"permission":{"deny":null},"steps":[]}"#).unwrap();
    assert_eq!(script.permission, PermissionPolicy::Deny);
}

fn option(id: &str, kind: PermissionOptionKind) -> PermissionOption {
    PermissionOption { option_id: id.to_string(), kind }
}

#[test]
fn allow_selects_first_option() {
    let options = vec![
        option("allow", PermissionOptionKind::AllowOnce),
        option("reject", PermissionOptionKind::RejectOnce),
    ];
    assert_eq!(
        reply_permission(&options, PermissionPolicy::Allow),
        PermissionReply::Selected("allow".to_string())
    );
}

#[test]
fn deny_selects_reject_option() {
    let options = vec![
        option("allow", PermissionOptionKind::AllowOnce),
        option("reject", PermissionOptionKind::RejectAlways),
    ];
    assert_eq!(
        reply_permission(&options, PermissionPolicy::Deny),
        PermissionReply::Selected("reject".to_string())
    );
}

#[test]
fn deny_with_no_reject_cancels() {
    let options = vec![option("allow", PermissionOptionKind::AllowOnce)];
    assert_eq!(
        reply_permission(&options, PermissionPolicy::Deny),
        PermissionReply::Cancelled
    );
}

#[test]
fn allow_takes_the_first_option_whatever_it_does() {
    let options = vec![
        option("no", PermissionOptionKind::RejectOnce),
        option("always", PermissionOptionKind::AllowAlways),
        option("once", PermissionOptionKind::AllowOnce),
    ];
    assert_eq!(
        reply_permission(&options, PermissionPolicy::Allow),
        PermissionReply::Selected("no".to_string())
    );
    let options = vec![option("no", PermissionOptionKind::RejectOnce)];
    assert_eq!(
        reply_permission(&options, PermissionPolicy::Allow),
        PermissionReply::Selected("no".to_string())
    );
    assert_eq!(reply_permission(&vec![], PermissionPolicy::Allow), PermissionReply::Cancelled);
}

#[test]
fn wait_for_updates_returns_when_target_reached() {
    assert_eq!(wait_for_updates(3, 3, 0, 1_000), Wait::Reached);
    assert_eq!(wait_for_updates(3, 3, 2_000, 1_000), Wait::Reached);
}

#[test]
fn wait_for_updates_gives_up_after_timeout() {
    let deadline: u64 = 50;
    let mut now: u64 = 0;
    let mut looks = 0;
    let outcome = loop {
        looks += 1;
        match wait_for_updates(0, usize::MAX, now, deadline) {
            Wait::Again => now += UPDATE_POLL_INTERVAL,
            other => break other,
        }
    };
    assert_eq!(outcome, Wait::GaveUp);
    assert_eq!(looks, 6);
}

#[test]
fn post_create_settle_is_positive() {
    assert!(POST_CREATE_SETTLE > 0);
    assert!(POST_CREATE_SETTLE < 1_000);
    assert_eq!(UPDATE_WAIT_TIMEOUT, 30_000);
}

#[test]
fn finish_keeps_frames_on_script_error() {
    let frames = vec![Frame::recv(json(
        r#"{"jsonrpc": "2.0", "id": 0, "error": {"code": -32603, "message": "Internal error: boom"}}"#,
    ))];
    let result = finish(Err("boom".to_string()), frames);
    assert!(result.is_ok(), "captured frames survive a script-level error");
    assert_eq!(result.map(|f| f.len()).unwrap_or(0), 1);
}

#[test]
fn finish_fails_when_no_frames_captured() {
    match finish(Err("no frames".to_string()), vec![]) {
        Err(RecordError::Protocol(why)) => assert_eq!(why, "no frames"),
        _ => panic!("expected a protocol error"),
    }
    assert_eq!(RecordError::Protocol("x".into()).describe(), "ACP protocol error: x");
    assert_eq!(
        RecordError::AgentCommand("x".into()).describe(),
        "failed to parse agent command: x"
    );
}

#[test]
fn finish_ok_passes_frames_through() {
    let frames = vec![Frame::send(json(r#"{"method": "initialize"}"#))];
    assert_eq!(finish(Ok(()), frames).map(|f| f.len()).unwrap_or(0), 1);
    assert_eq!(finish(Ok(()), vec![]).map(|f| f.len()).unwrap_or(9), 0);
}

#[test]
fn inv_24_recorder_initialize_order() {
    let mut recording = Recording::new();
    recording.on_line(r#"{"jsonrpc":"2.0","id":1,"method":"initialize"}"#, LineSource::Stdin);
    recording.on_line("starting up", LineSource::Stdout);
    recording.on_line(r#"{"log":true}"#, LineSource::Stderr);
    recording.on_line(r#"{"jsonrpc":"2.0","id":1,"result":{"protocolVersion":1}}"#, LineSource::Stdout);
    recording.on_update();
    assert_eq!(recording.updates(), 1);
    let frames = match recording.finish(Ok(())) {
        Ok(frames) => frames,
        Err(e) => panic!("{}", e.describe()),
    };
    assert_eq!(frames.len(), 2);
    assert_eq!(frames[0].direction, Direction::Send, "first frame is the request");
    assert_eq!(frames[0].json.get_str("method"), Some("initialize"));
    assert_eq!(frames[1].direction, Direction::Recv, "second frame is the response");
    assert_eq!(frames[1].json.get_u64("id"), frames[0].json.get_u64("id"));
    assert!(frames[1].json.get("result").is_some());
}

fn start(text: &str) -> (ScriptRun, RunAction) {
    ScriptRun::start(Script::parse(text).expect("script"), "/here".to_string())
}

fn name(action: &RunAction) -> String {
    match action {
        RunAction::Initialize => "initialize".into(),
        RunAction::NewSession { cwd } => format!("new {cwd}"),
        RunAction::LoadSession { session_id, cwd } => format!("load {session_id} {cwd}"),
        RunAction::Settle => "settle".into(),
        RunAction::Prompt { session_id, text } => format!("prompt {session_id} {text}"),
        RunAction::WaitUpdates { target } => format!("wait {target}"),
        RunAction::Cancel { session_id } => format!("cancel {session_id}"),
        RunAction::AwaitAnswer => "answer".into(),
        RunAction::Done => "done".into(),
        RunAction::Fail(e) => {
            format!("fail {} {}", e.code, e.data.as_ref().map(|d| d.to_text()).unwrap_or_default())
        }
    }
}

fn step(run: &mut ScriptRun, event: RunEvent) -> String {
    assert!(run.expects(&event));
    name(&run.next(event))
}

#[test]
fn script_is_carried_out_in_order() {
    let (mut run, first) = start(
        r#"{"steps":[{"call":"initialize"},{"call":"session/new"},{"call":"session/prompt","text":"hi"},
            {"call":"session/load","session_id":"old","cwd":"/x"},
            {"call":"session/prompt","text":"stop","cancel_after_updates":3},{"call":"session/cancel"}]}"#,
    );
    assert_eq!(name(&first), "initialize");
    assert_eq!(step(&mut run, RunEvent::Answered), "new /here");
    assert_eq!(step(&mut run, RunEvent::Created { session_id: "s1".into() }), "settle");
    assert_eq!(step(&mut run, RunEvent::Paused), "prompt s1 hi");
    assert_eq!(step(&mut run, RunEvent::Sent { updates: 1 }), "answer");
    assert_eq!(step(&mut run, RunEvent::Answered), "load old /x");
    assert_eq!(step(&mut run, RunEvent::Answered), "settle");
    assert_eq!(step(&mut run, RunEvent::Paused), "prompt old stop");
    assert_eq!(step(&mut run, RunEvent::Sent { updates: 4 }), "wait 7");
    assert_eq!(step(&mut run, RunEvent::Reached), "cancel old");
    assert_eq!(step(&mut run, RunEvent::Sent { updates: 7 }), "answer");
    assert_eq!(step(&mut run, RunEvent::Answered), "cancel old");
    assert_eq!(step(&mut run, RunEvent::Sent { updates: 9 }), "done");
    // Nothing can follow.
    assert!(!run.expects(&RunEvent::Answered));
}

#[test]
fn script_stops_where_it_has_to() {
    let (_, first) = start(r#"{"steps":[{"call":"session/prompt","text":"hi"}]}"#);
    assert_eq!(name(&first), "fail -32602 \"session/prompt before any session/new\"");
    let (_, first) = start(r#"{"steps":[{"call":"session/cancel"}]}"#);
    assert_eq!(name(&first), "fail -32602 \"session/cancel before any session/new\"");
    let (_, first) = start(r#"{"steps":[]}"#);
    assert_eq!(name(&first), "done");

    let (mut run, _) = start(
        r#"{"steps":[{"call":"session/new","cwd":"/d"},{"call":"session/prompt","text":"x","cancel_after_updates":12}]}"#,
    );
    step(&mut run, RunEvent::Created { session_id: "s".into() });
    assert_eq!(step(&mut run, RunEvent::Paused), "prompt s x");
    assert_eq!(step(&mut run, RunEvent::Sent { updates: 0 }), "wait 12");
    assert_eq!(
        step(&mut run, RunEvent::TimedOut),
        "fail -32603 \"timed out waiting for 12 updates before cancel\""
    );

    let (mut run, _) = start(r#"{"steps":[{"call":"initialize"},{"call":"initialize"}]}"#);
    let error = RpcError { code: 7, message: "m".into(), data: None };
    assert_eq!(step(&mut run, RunEvent::Failed(error)), "fail 7 ");
    // A count that cannot be reached is not expected.
    let (mut run, _) = start(
        r#"{"steps":[{"call":"session/new"},{"call":"session/prompt","text":"x","cancel_after_updates":2}]}"#,
    );
    step(&mut run, RunEvent::Created { session_id: "s".into() });
    step(&mut run, RunEvent::Paused);
    assert!(!run.expects(&RunEvent::Sent { updates: usize::MAX }));
    assert!(run.expects(&RunEvent::Sent { updates: usize::MAX - 2 }));
}

#[test]
fn field_given_twice_is_refused() {
    for text in [
        r#"{"steps":[],"steps":[]}"#,
        r#"{"permission":"allow","steps":[],"permission":"allow"}"#,
        r#"{"permission":{"deny":null,"deny":null},"steps":[]}"#,
        r#"[{"deny":null,"deny":null},[]]"#,
        r#"{"steps":[{"call":"initialize"},{"call":"initialize","call":"initialize"}]}"#,
        r#"{"steps":[{"call":"session/new","cwd":"/a","cwd":"/a"}]}"#,
        r#"{"steps":[{"text":"a","call":"session/prompt","t\u0065xt":"b"}]}"#,
        "[\"allow\" , [ {\"call\" :\n\"session/prompt\",\t\"text\":\"a\",\"cancel_after_updates\":1 , \"cancel_after_updates\":1} ] ]",
    ] {
        assert_eq!(Script::parse(text), Err(ScriptError::NotScript), "{text}");
    }
    // A field that is not known may be repeated, and so may one that another call has.
    let script = Script::parse(
        r#" { "note":1, "note":{"steps":[]}, "steps":[{"call":"session/cancel","text":"a","text":"b"},{"call":"session/new"}] } "#,
    )
    .expect("a script");
    assert_eq!(script.steps, vec![Step::Cancel, Step::NewSession { cwd: None }]);
}

#[test]
fn agent_command_is_read() {
    let texts = |v: &[&str]| -> Vec<String> { v.iter().map(|s| s.to_string()).collect() };
    assert_eq!(
        parse_agent("  B=2 A=1 python 'my agent.py' --verbose "),
        Ok(AgentCommand {
            command: "python".to_string(),
            args: texts(&["my agent.py", "--verbose"]),
            env: vec![
                ("A".to_string(), "1".to_string()),
                ("B".to_string(), "2".to_string())
            ],
        })
    );
    assert_eq!(
        parse_agent(r#"{"command":"node","args":["a b"],"env":{"K":"v"}}"#),
        Ok(AgentCommand {
            command: "node".to_string(),
            args: texts(&["a b"]),
            env: vec![("K".to_string(), "v".to_string())],
        })
    );
    for text in ["", "A=1", "python 'open", "{", r#"{"cmd":1}"#] {
        let why = text.parse::<agent_client_protocol::AcpAgent>().unwrap_err().to_string();
        assert_eq!(parse_agent(text), Err(RecordError::AgentCommand(why)), "{text}");
    }
}
