//! What the requests of a client lead to.

use acp_adapter::agent::{
    format_uri_as_link, handle_notification, handle_request, initialize_response,
    is_local_only_command, options_from_meta, prompt_response, prompt_to_claude, resume_from_argv,
    rpc_error, session_error_to_rpc, session_failed, session_id_from_argv, session_spawn_options,
    session_started, AgentAction, AgentContext, ServeOptions,
};
use acp_adapter::control::parse_initialize_response;
use acp_adapter::json::Json;
use acp_adapter::process::{build_argv, SpawnOptions};
use acp_adapter::session::{PromptReply, ReplyUsage, SessionError};
use acp_adapter::strmap::StrSet;
use acp_adapter::turn::{FailureKind, SESSION_ENDED_MESSAGE};
use acp_adapter::uuid::uuid_v4;
use agent_client_protocol::schema::v1::StopReason;
use serde_json::Value;

fn json(text: &str) -> Json {
    Json::parse_str(text).expect("valid JSON")
}

fn value(j: &Json) -> Value {
    serde_json::from_str(&j.to_text()).expect("printed JSON")
}

fn context() -> AgentContext {
    AgentContext {
        options: ServeOptions::default(),
        agent_name: "an-agent".to_string(),
        agent_title: "An Agent".to_string(),
        process_cwd: Some("/here".to_string()),
    }
}

fn set(ids: &[&str]) -> StrSet {
    let mut s = StrSet::new();
    for id in ids {
        s.insert(id);
    }
    s
}

fn request(sessions: &[&str], running: &[&str], method: &str, params: &str) -> AgentAction {
    handle_request(
        &set(sessions),
        &set(running),
        method,
        &json(params),
        &context(),
        "fresh-uuid".to_string(),
    )
}

#[test]
fn uuid_is_v4_shaped() {
    let u = uuid_v4(1_790_000_000_123_456_789, 0, 4321);
    let bytes: Vec<u8> = u
        .chars()
        .filter(|c| *c != '-')
        .collect::<String>()
        .into_bytes();
    assert_eq!(bytes.len(), 32);
    assert_eq!(u.as_bytes()[14], b'4');
    assert_eq!(u.as_bytes()[19] as char, '8', "variant bits (8/9/a/b)");
}

#[test]
fn uuid_is_made_of_its_number() {
    assert_eq!(uuid_v4(0, 0, 0), "00000000-0000-4000-8000-000000000000");
    assert_eq!(
        uuid_v4(0x0f0e_0d0c_0b0a_0908_0706_0504_0302_0100, 0, 0),
        "00010203-0405-4607-8809-0a0b0c0d0e0f"
    );
    assert_eq!(uuid_v4(0, 1, 2), "00000000-0000-4000-8100-000002000000");
    assert_eq!(uuid_v4(u128::MAX, 0, 0), "ffffffff-ffff-4fff-bfff-ffffffffffff");
}

#[test]
fn is_local_only_command_detects_context() {
    assert!(is_local_only_command("/context"));
    assert!(is_local_only_command("/context with args"));
    assert!(!is_local_only_command("hello"));
    assert!(!is_local_only_command("/clear"));
}

#[test]
fn local_only_commands_are_whole_words() {
    assert!(is_local_only_command("/heapdump"));
    assert!(is_local_only_command("/extra-usage\tnow"));
    assert!(!is_local_only_command("/contextual"));
    assert!(!is_local_only_command(" /context"));
    assert!(!is_local_only_command("/"));
    assert!(!is_local_only_command(""));
}

#[test]
fn prompt_to_claude_maps_blocks() {
    // text
    let params = json(r#"{"sessionId":"s1","prompt":[{"type":"text","text":"hi"}]}"#);
    let frame = value(&prompt_to_claude(&params, "s1", "uuid-1"));
    assert_eq!(frame["message"]["role"], "user");
    assert_eq!(frame["uuid"], "uuid-1");
    assert_eq!(frame["message"]["content"][0]["text"], "hi");
    assert_eq!(frame["origin"]["kind"], "human");

    // image
    let params = json(r#"{"prompt":[{"type":"image","data":"QUJD","mimeType":"image/png"}]}"#);
    let frame = value(&prompt_to_claude(&params, "s1", "u"));
    assert_eq!(frame["message"]["content"][0]["source"]["type"], "base64");
    assert_eq!(frame["message"]["content"][0]["source"]["data"], "QUJD");

    // resource_link
    let params = json(r#"{"prompt":[{"type":"resource_link","uri":"file:///a.txt"}]}"#);
    let frame = value(&prompt_to_claude(&params, "s1", "u"));
    assert!(frame["message"]["content"][0]["text"]
        .as_str()
        .unwrap()
        .contains("[a.txt]"));

    // resource with text -> content + context
    let params =
        json(r#"{"prompt":[{"type":"resource","resource":{"uri":"file:///b.txt","text":"body"}}]}"#);
    let frame = value(&prompt_to_claude(&params, "s1", "u"));
    let content = frame["message"]["content"].as_array().unwrap();
    assert!(content
        .iter()
        .any(|c| c["text"].as_str().unwrap().contains("[b.txt]")));
    assert!(content
        .iter()
        .any(|c| c["text"].as_str().unwrap().contains("body")));
}

#[test]
fn context_goes_behind_the_content() {
    let params = json(
        r#"{"prompt":[{"type":"resource","resource":{"uri":"u/","text":"body"}},{"type":"text","text":"t"},
            {"type":"resource","resource":{"uri":"x","blob":"AA"}},{"type":"odd"},
            {"type":"image","uri":"https://x/y.png"},{"type":"image","uri":"ftp://x"}]}"#,
    );
    assert_eq!(
        prompt_to_claude(&params, "s", "u").to_text(),
        [
            r#"{"type":"user","session_id":"s","uuid":"u","message":{"role":"user","content":["#,
            r#"{"type":"text","text":"[u/](u/)"},{"type":"text","text":"t"},"#,
            r#"{"type":"image","source":{"type":"url","url":"https://x/y.png"}},"#,
            r#"{"type":"text","text":"\n<context ref=\"u/\">\nbody\n</context>"}]},"#,
            r#""parent_tool_use_id":null,"origin":{"kind":"human"}}"#,
        ]
        .concat()
    );
    assert_eq!(
        value(&prompt_to_claude(&json("{}"), "s", "u"))["message"]["content"],
        Value::Array(vec![])
    );
}

#[test]
fn links_are_named_by_their_last_segment() {
    assert_eq!(format_uri_as_link("file:///a/b.txt"), "[b.txt](file:///a/b.txt)");
    assert_eq!(format_uri_as_link("plain"), "[plain](plain)");
    assert_eq!(format_uri_as_link("a/"), "[a/](a/)");
    assert_eq!(format_uri_as_link(""), "[]()");
}

#[test]
fn session_spawn_options_map_model_permission_session_id() {
    let serve = ServeOptions {
        claude_path: Some("/fake".to_string()),
        ..Default::default()
    };
    let spawn = session_spawn_options(
        &serve,
        None,
        "uu-1234".to_string(),
        Some("sonnet-4-5".to_string()),
        Some("acceptEdits".to_string()),
        None,
    );
    let argv = build_argv(&spawn);
    assert_eq!(session_id_from_argv(&argv).as_deref(), Some("uu-1234"));
    assert!(
        argv.windows(2).any(|w| w == ["--model", "sonnet-4-5"]),
        "model -> --model: {argv:?}"
    );
    assert!(
        argv.windows(2)
            .any(|w| w == ["--permission-mode", "acceptEdits"]),
        "permission mode -> --permission-mode: {argv:?}"
    );
    assert_eq!(spawn.claude_path.as_deref(), Some("/fake"));
}

#[test]
fn resume_maps_to_resume_flag() {
    let serve = ServeOptions::default();
    let mut spawn =
        session_spawn_options(&serve, None, "sess-id".to_string(), None, None, None);
    spawn.resume = Some("sess-id".to_string());
    spawn.session_id = None;
    let argv = build_argv(&spawn);
    assert_eq!(resume_from_argv(&argv).as_deref(), Some("sess-id"));
    assert!(session_id_from_argv(&argv).is_none());
}

#[test]
fn working_directory_falls_back() {
    let serve = ServeOptions::from_env(None, Some("/default".to_string()));
    let cwd = |request: Option<&str>, serve: &ServeOptions, process: Option<&str>| {
        session_spawn_options(
            serve,
            request.map(String::from),
            "s".to_string(),
            None,
            None,
            process.map(String::from),
        )
        .default_cwd
    };
    assert_eq!(cwd(Some("/asked"), &serve, Some("/here")).as_deref(), Some("/asked"));
    assert_eq!(cwd(None, &serve, Some("/here")).as_deref(), Some("/default"));
    assert_eq!(cwd(None, &ServeOptions::default(), Some("/here")).as_deref(), Some("/here"));
    assert_eq!(cwd(None, &ServeOptions::default(), None), None);
}

#[test]
fn options_are_read_from_the_meta_data() {
    let params = json(r#"{"_meta":{"claudeCode":{"options":{"model":"m","permissionMode":"plan"}}}}"#);
    assert_eq!(options_from_meta(&params), (Some("m".to_string()), Some("plan".to_string())));
    assert_eq!(options_from_meta(&json(r#"{"_meta":{"claudeCode":{"options":{"model":1}}}}"#)), (None, None));
    assert_eq!(options_from_meta(&json("{}")), (None, None));
}

#[test]
fn inv_unhandled_method_returns_method_not_found() {
    match request(&[], &[], "session/bogus", "{}") {
        AgentAction::Reject(e) => {
            assert_eq!(e.code, -32601, "unhandled method must return -32601");
            assert_eq!(e.message, "Method not found");
            assert_eq!(
                e.data.map(|d| d.to_text()),
                Some("\"method session/bogus not found\"".to_string())
            );
        }
        _ => panic!("unhandled method must error"),
    }
}

#[test]
fn refusals_are_those_of_the_protocol() {
    let as_value = |e: agent_client_protocol::Error| serde_json::to_value(e).expect("an error");
    let reject = |action: AgentAction| match action {
        AgentAction::Reject(e) => {
            let mut v = agent_client_protocol::Error::new(e.code, e.message);
            if let Some(d) = e.data {
                v = v.data(value(&d));
            }
            as_value(v)
        }
        _ => panic!("expected a refusal"),
    };
    assert_eq!(
        reject(request(&[], &[], "x", "{}")),
        as_value(agent_client_protocol::Error::method_not_found().data("method x not found"))
    );
    assert_eq!(
        reject(request(&[], &[], "session/prompt", r#"{"sessionId":"s"}"#)),
        as_value(agent_client_protocol::Error::invalid_params().data("no such session"))
    );
}

#[test]
fn initialize_is_answered_at_once() {
    match request(&[], &[], "initialize", r#"{"protocolVersion":1}"#) {
        AgentAction::Respond(j) => {
            assert_eq!(j.to_text(), initialize_response("an-agent", "An Agent").to_text());
            let v = value(&j);
            assert_eq!(v["protocolVersion"], 1);
            assert_eq!(
                v["agentInfo"].to_string(),
                r#"{"name":"an-agent","title":"An Agent","version":"0.70.0"}"#
            );
            assert_eq!(v["agentCapabilities"]["_meta"]["claudeCode"]["promptQueueing"], true);
            assert_eq!(v["agentCapabilities"]["promptCapabilities"]["embeddedContext"], true);
            assert_eq!(v["agentCapabilities"]["sessionCapabilities"].as_object().unwrap().len(), 6);
            assert_eq!(v["_meta"]["steering"]["supported"], true);
            assert_eq!(v["_meta"]["goal"]["actions"][1], "clear");
            assert_eq!(v["authMethods"], Value::Array(vec![]));
        }
        _ => panic!("expected an answer"),
    }
}

#[test]
fn inv_session_new_model_permission_and_uuid() {
    let action = request(
        &[],
        &[],
        "session/new",
        r#"{"cwd":"/root","_meta":{"claudeCode":{"options":{"model":"sonnet-4-5","permissionMode":"acceptEdits"}}}}"#,
    );
    let (session_id, spawn) = match action {
        AgentAction::Start { session_id, spawn } => (session_id, spawn),
        _ => panic!("expected a session to be started"),
    };
    let argv = build_argv(&spawn);
    assert!(argv.windows(2).any(|w| w == ["--model", "sonnet-4-5"]), "{argv:?}");
    assert!(argv.windows(2).any(|w| w == ["--permission-mode", "acceptEdits"]), "{argv:?}");
    assert_eq!(
        session_id_from_argv(&argv),
        Some(session_id),
        "the returned sessionId equals the --session-id=<uuid>: {argv:?}"
    );
    assert!(resume_from_argv(&argv).is_none());
    assert_eq!(spawn.default_cwd.as_deref(), Some("/root"));
    assert!(spawn.replay_user_messages && spawn.include_partial_messages);
}

#[test]
fn inv_session_load_foreign_id_resumes() {
    let foreign = "some-terminal-started-session-id";
    let action = request(
        &[],
        &[],
        "session/load",
        &format!(r#"{{"sessionId":"{foreign}","cwd":"/root"}}"#),
    );
    let (session_id, spawn) = match action {
        AgentAction::Start { session_id, spawn } => (session_id, spawn),
        _ => panic!("expected a session to be started"),
    };
    assert_eq!(session_id, foreign, "session/load returns the requested id");
    let argv = build_argv(&spawn);
    assert!(argv.iter().any(|a| a == &format!("--resume={foreign}")), "{argv:?}");
    assert!(
        !argv.iter().any(|a| a.starts_with("--session-id=")),
        "a resumed session must NOT spawn --session-id: {argv:?}"
    );
}

#[test]
fn started_session_is_answered_and_its_commands_are_told() {
    let info = parse_initialize_response(&json(
        r#"{"response":{"response":{"commands":[{"name":"review","description":"d"},{"name":"login"}]}}}"#,
    ));
    let (response, commands) = session_started("s1", &info);
    let v = value(&response);
    assert_eq!(v["sessionId"], "s1");
    assert_eq!(v["modes"]["currentModeId"], "default");
    assert_eq!(v["modes"]["availableModes"].as_array().unwrap().len(), 5);
    assert_eq!(v["modes"]["availableModes"][2]["name"], "Plan Mode");
    assert_eq!(v["configOptions"], Value::Array(vec![]));
    let names: Vec<&str> = commands.iter().map(|c| c.name.as_str()).collect();
    assert_eq!(names, vec!["review"]);
}

#[test]
fn prompt_is_given_to_its_session() {
    match request(
        &["s1"],
        &[],
        "session/prompt",
        r#"{"sessionId":"s1","prompt":[{"type":"text","text":"/context"}]}"#,
    ) {
        AgentAction::Prompt { session_id, uuid, frame, is_local_only } => {
            assert_eq!(session_id, "s1");
            assert_eq!(uuid, "fresh-uuid");
            assert!(is_local_only);
            let v = value(&frame);
            assert_eq!(v["uuid"], "fresh-uuid");
            assert_eq!(v["message"]["content"][0]["text"], "/context");
        }
        _ => panic!("expected a prompt"),
    }
    match request(&["s1"], &[], "session/prompt", r#"{"sessionId":"s1","prompt":[]}"#) {
        AgentAction::Prompt { is_local_only, .. } => assert!(!is_local_only),
        _ => panic!("expected a prompt"),
    }
    match request(&["s1"], &[], "session/prompt", r#"{"sessionId":"s2"}"#) {
        AgentAction::Reject(e) => assert_eq!(e.code, -32602),
        _ => panic!("expected a refusal"),
    }
}

#[test]
fn inv_steering_end_to_end() {
    // Idle (no turn yet) + promptRequired opt-in -> promptRequired.
    let wanted = r#"{"sessionId":"s1","prompt":[{"type":"text","text":"follow up"}],
        "_meta":{"steering":{"idleBehavior":"promptRequired"}}}"#;
    match request(&["s1"], &[], "_session/steering", wanted) {
        AgentAction::Respond(j) => assert_eq!(
            j.to_text(),
            r#"{"outcome":"promptRequired","reason":"noRunningTurn"}"#,
            "idle + promptRequired must yield promptRequired"
        ),
        _ => panic!("expected an answer"),
    }
    // Bad idleBehavior -> invalidParams.
    for bad in [
        r#"{"sessionId":"s1","_meta":{"steering":{"idleBehavior":"x"}}}"#,
        r#"{"sessionId":"s1","_meta":{"steering":{"idleBehavior":null}}}"#,
    ] {
        match request(&["s1"], &["s1"], "_session/steering", bad) {
            AgentAction::Reject(e) => assert_eq!(e.code, -32602, "bad idleBehavior must be invalidParams"),
            _ => panic!("bad idleBehavior must error"),
        }
    }
    // A turn in flight -> injected.
    match request(&["s1"], &["s1"], "_session/steering", wanted) {
        AgentAction::Inject { session_id, frame, response } => {
            assert_eq!(session_id, "s1");
            assert_eq!(response.to_text(), r#"{"outcome":"injected"}"#);
            assert_eq!(value(&frame)["message"]["content"][0]["text"], "follow up");
        }
        _ => panic!("a turn in flight must inject"),
    }
    // Without the opt-in there is nothing to do for an idle session.
    match request(&["s1"], &[], "_session/steering", r#"{"sessionId":"s1"}"#) {
        AgentAction::Reject(e) => assert_eq!(e.code, -32601),
        _ => panic!("expected a refusal"),
    }
    match request(&[], &[], "_session/steering", wanted) {
        AgentAction::Reject(e) => assert_eq!(e.code, -32602),
        _ => panic!("expected a refusal"),
    }
}

#[test]
fn only_a_cancel_of_a_known_session_cancels() {
    let sessions = set(&["s1"]);
    let params = json(r#"{"sessionId":"s1"}"#);
    assert_eq!(handle_notification(&sessions, "session/cancel", &params).as_deref(), Some("s1"));
    assert_eq!(handle_notification(&sessions, "session/other", &params), None);
    assert_eq!(handle_notification(&sessions, "session/cancel", &json(r#"{"sessionId":"s2"}"#)), None);
    assert_eq!(handle_notification(&sessions, "session/cancel", &json("{}")), None);
}

#[test]
fn failures_are_told_flat() {
    let failed = |kind| SessionError::PromptFailed { kind, message: "why".to_string() };
    for (kind, name) in [
        (FailureKind::ProviderError, "provider_error"),
        (FailureKind::BudgetExhausted, "budget_exhausted"),
        (FailureKind::ContextExhausted, "context_exhausted"),
        (FailureKind::NoResult, "no_result"),
    ] {
        let (message, data) = session_error_to_rpc(&failed(kind));
        assert_eq!(message, "Internal error: why");
        assert_eq!(data.map(|d| d.to_text()), Some(format!(r#"{{"errorKind":"{name}"}}"#)));
    }
    let (message, data) = session_error_to_rpc(&failed(FailureKind::AuthRequired));
    assert_eq!(message, "Internal error: authRequired: why");
    assert!(data.is_none());
    let (message, data) = session_error_to_rpc(&failed(FailureKind::SessionEnded));
    assert_eq!((message.as_str(), data.is_none()), ("Internal error: why", true));
    let closed = session_failed(&SessionError::Closed);
    assert_eq!(closed.code, -32603);
    assert_eq!(closed.message, format!("Internal error: {SESSION_ENDED_MESSAGE}"));
    let start = rpc_error(session_error_to_rpc(&SessionError::Start("no".to_string())));
    assert_eq!(start.message, "Internal error: no");
    assert!(start.data.is_none());
}

#[test]
fn prompt_answer_holds_stop_reason_and_usage() {
    let reply = |reason: &str| PromptReply { stop_reason: reason.to_string(), usage: None };
    for reason in ["end_turn", "max_tokens", "refusal", "max_turn_requests", "cancelled"] {
        assert_eq!(
            prompt_response(&reply(reason)).to_text(),
            format!(r#"{{"stopReason":"{reason}"}}"#)
        );
    }
    assert_eq!(prompt_response(&reply("odd")).to_text(), r#"{"stopReason":"end_turn"}"#);
    let usage = ReplyUsage {
        input_tokens: 1,
        output_tokens: 2,
        cached_read_tokens: 3,
        cached_write_tokens: 4,
        total_tokens: 10,
    };
    let reply = PromptReply { stop_reason: "end_turn".to_string(), usage: Some(usage) };
    assert_eq!(
        prompt_response(&reply).to_text(),
        r#"{"stopReason":"end_turn","usage":{"inputTokens":1,"outputTokens":2,"cachedReadTokens":3,"cachedWriteTokens":4,"totalTokens":10}}"#
    );
}

#[test]
fn stop_reasons_are_spelled_as_in_the_protocol() {
    for (reason, spelled) in [
        (StopReason::EndTurn, "end_turn"),
        (StopReason::MaxTokens, "max_tokens"),
        (StopReason::MaxTurnRequests, "max_turn_requests"),
        (StopReason::Refusal, "refusal"),
        (StopReason::Cancelled, "cancelled"),
    ] {
        assert_eq!(serde_json::to_value(reason).unwrap(), spelled);
    }
}

#[test]
fn session_is_read_back_from_the_arguments() {
    let opts = SpawnOptions {
        session_id: Some("fresh".to_string()),
        resume: Some("before".to_string()),
        model: Some("m".to_string()),
        permission_mode: Some("plan".to_string()),
        disallowed_tools: vec!["A".to_string(), "B".to_string()],
        tools: Some(vec!["Read".to_string()]),
        permission_prompt_tool: true,
        allow_dangerously_skip_permissions: true,
        ..Default::default()
    };
    let argv = build_argv(&opts);
    assert_eq!(session_id_from_argv(&argv), Some("fresh".to_string()));
    assert_eq!(resume_from_argv(&argv), Some("before".to_string()));
    let argv = build_argv(&SpawnOptions::default());
    assert_eq!(session_id_from_argv(&argv), None);
    assert_eq!(resume_from_argv(&argv), None);
}
