//! Requests for permission, and what is made of their answers.

use acp_adapter::acp::SessionUpdate;
use acp_adapter::json::Json;
use acp_adapter::map::MapState;
use acp_adapter::permission::{
    allow_always_control_response, allow_control_response, build_request_permission,
    build_tool_call, control_answer, deny_control_response, ensure_tool_call_emitted,
    is_can_use_tool, map_outcome,
    parse_can_use_tool, permission_metadata_for_always_allow, Outcome,
};
use serde_json::Value;

fn json(text: &str) -> Json {
    Json::parse_str(text).expect("valid JSON")
}

fn value(j: &Json) -> Value {
    serde_json::from_str(&j.to_text()).expect("printed JSON")
}

fn parsed(text: &str) -> Value {
    serde_json::from_str(text).expect("valid JSON")
}


#[test]
fn inv_20_permission_after_toolcall() {
    let mut state = MapState::default();
    let input = json(r##"{"command": "echo hi"}"##);
    let first = ensure_tool_call_emitted("Bash", &input, "toolu_01PERM", None, &mut state);
    assert!(
        matches!(&first, Some(SessionUpdate::ToolCall(tc)) if tc.tool_call_id.to_string() == "toolu_01PERM"),
        "an unseen tool id must first emit a ToolCall"
    );
    let second = ensure_tool_call_emitted("Bash", &input, "toolu_01PERM", None, &mut state);
    assert!(
        second.is_none(),
        "a re-emission for an already-surfaced id must be a no-op (the streamed path refines)"
    );
}

#[test]
fn inv_21_deny_payload_and_continue() {
    let denied = map_outcome(&json(r##"{"outcome": "selected", "optionId": "reject"}"##));
    assert_eq!(denied, Outcome::Deny);
    let cancelled = map_outcome(&json(r##"{"outcome": "cancelled"}"##));
    assert_eq!(cancelled, Outcome::Cancelled);
    let response = value(&deny_control_response("permreq1"));
    assert_eq!(
        response,
        parsed(r##"{ "type": "control_response", "response": { "subtype": "success", "request_id": "permreq1", "response": { "behavior": "deny", "message": "User refused permission to run tool" } } }"##)
    );
    assert!(
        response["response"]["response"]["interrupt"].is_null(),
        "the denial must not carry an interrupt"
    );
}

#[test]
fn subagent_permission_attributed_to_parent() {
    let tc = value(&build_tool_call(
        "Bash",
        &json(r##"{"command":"ls"}"##),
        "toolu_SUB",
        Some("toolu_PARENT"),
    ));
    assert_eq!(
        tc["_meta"]["claudeCode"]["parentToolUseId"],
        "toolu_PARENT"
    );
    assert_eq!(tc["_meta"]["claudeCode"]["toolName"], "Bash");

    let mut state = MapState::default();
    let emitted = ensure_tool_call_emitted(
        "Bash",
        &json(r##"{"command":"ls"}"##),
        "toolu_SUB",
        Some("toolu_PARENT"),
        &mut state,
    );
    let SessionUpdate::ToolCall(tc) = emitted.unwrap() else {
        panic!("expected a ToolCall");
    };
    let meta = value(&tc.meta);
    assert_eq!(
        meta["claudeCode"]["parentToolUseId"],
        "toolu_PARENT",
        "a subagent tool_call must be attributed to its parent"
    );
}

#[test]
fn allow_always_emits_permission_rule_additions() {
    let meta = value(&permission_metadata_for_always_allow(&json(r##"[]"##), "Bash"));
    assert_eq!(meta["version"], 1);
    let change = &meta["changes"][0];
    assert_eq!(change["type"], "policy_rule");
    assert_eq!(change["operation"], "add");
    assert_eq!(change["ruleBehavior"], "allow");
    assert_eq!(change["description"], "Allow all Bash calls");
    assert_eq!(change["lifetime"], parsed(r##"{"scope": "session"}"##));
    assert_eq!(
        change["targets"],
        parsed(r##"[{"type": "tool", "toolName": "Bash"}]"##)
    );

    let response =
        value(&allow_always_control_response("r1", &json(r##"{"command":"ls"}"##), "Bash", &json(r##"[]"##)));
    assert_eq!(response["response"]["response"]["behavior"], "allow");
    assert_eq!(
        response["response"]["response"]["updatedPermissions"],
        parsed(r##"[{ "type": "addRules", "rules": [{ "toolName": "Bash" }], "behavior": "allow", "destination": "session" }]"##)
    );

    let params = value(&build_request_permission(
        "sess1",
        build_tool_call("Bash", &json(r##"{"command":"ls"}"##), "toolu_1", None),
        "Bash",
        &json(r##"[]"##),
    ));
    assert_eq!(params["options"][2]["optionId"], "allow_always");
    assert_eq!(
        params["options"][2]["_meta"]["permission"], meta,
        "the Always Allow option carries the _meta.permission rule additions"
    );
}

#[test]
fn outcomes_that_do_not_allow_are_denials() {
    assert_eq!(map_outcome(&json(r##"{"outcome":"selected","optionId":"allow"}"##)), Outcome::Allow);
    assert_eq!(
        map_outcome(&json(r##"{"outcome":"selected","optionId":"allow_always"}"##)),
        Outcome::AllowAlways
    );
    for text in [
        r##"{"outcome":"selected"}"##,
        r##"{"outcome":"selected","optionId":"whatever"}"##,
        r##"{"outcome":"bogus","optionId":"allow"}"##,
        r##"{}"##,
        r##"null"##,
        r##"["selected"]"##,
    ] {
        assert_eq!(map_outcome(&json(text)), Outcome::Deny, "{text}");
    }
}

#[test]
fn suggestions_become_changes() {
    let suggestions = json(
        r##"[
        {"type":"addRules","behavior":"deny","destination":"project","rules":[
            {"toolName":"Bash","ruleContent":"rm *"},{"toolName":"Read"}]},
        {"type":"removeRules","rules":[{"toolName":"Bash"}],"destination":"user"},
        {"type":"replaceRules","behavior":"ask","rules":[],"destination":"workspace"},
        {"type":"addDirectories","directories":["/a","/b"],"destination":"localSettings"},
        {"type":"removeDirectories","directories":["/a"]},
        {"type":"setMode","mode":"plan"},
        {"type":"unknown"}]"##,
    );
    let meta = value(&permission_metadata_for_always_allow(&suggestions, "Bash"));
    let expected = parsed(
        r##"{"version":1,"changes":[
        {"type":"policy_rule","operation":"add","ruleBehavior":"deny",
         "description":"Deny Bash calls matching rm *, all Read calls",
         "lifetime":{"scope":"persistent","storage":"project"},
         "targets":[{"type":"tool","toolName":"Bash","matcher":{"type":"provider_rule","provider":"claudeCode","value":"rm *"}},
                    {"type":"tool","toolName":"Read"}]},
        {"type":"policy_rule","operation":"remove","ruleBehavior":"allow",
         "description":"Remove allow rules for all Bash calls","lifetime":{"scope":"user"},
         "targets":[{"type":"tool","toolName":"Bash"}]},
        {"type":"policy_rule","operation":"replace","ruleBehavior":"ask",
         "description":"Replace ask rules with ","lifetime":{"scope":"workspace"},"targets":[]},
        {"type":"policy_rule","operation":"add","ruleBehavior":"allow",
         "description":"Allow filesystem access under /a, /b",
         "lifetime":{"scope":"persistent","storage":"project_local"},
         "targets":[{"type":"filesystem","matcher":{"type":"directory","path":"/a"}},
                    {"type":"filesystem","matcher":{"type":"directory","path":"/b"}}]},
        {"type":"policy_rule","operation":"remove","ruleBehavior":"allow",
         "description":"Remove additional filesystem access under /a",
         "lifetime":{"scope":"session"},
         "targets":[{"type":"filesystem","matcher":{"type":"directory","path":"/a"}}]},
        {"type":"permission_mode","operation":"set","provider":"claudeCode","mode":"plan",
         "description":"Set permission mode to plan","lifetime":{"scope":"session"}}]}"##,
    );
    assert_eq!(meta, expected);
}

#[test]
fn request_is_read_with_its_defaults() {
    let request = parse_can_use_tool(&json(
        r##"{"request_id":"r1","request":{"tool_name":"Bash","input":{"command":"ls"},
            "tool_use_id":"t1","agent_id":"a1","permission_suggestions":[1]}}"##,
    ));
    assert_eq!(request.tool_name, "Bash");
    assert_eq!(request.tool_input.to_text(), r##"{"command":"ls"}"##);
    assert_eq!(request.tool_use_id, "t1");
    assert_eq!(request.agent_id.as_deref(), Some("a1"));
    assert_eq!(request.suggestions.to_text(), "[1]");
    assert_eq!(request.request_id, "r1");

    let request = parse_can_use_tool(&json(r##"{"request":{"agent_id":""}}"##));
    assert_eq!(request.tool_name, "Other");
    assert!(request.tool_input.is_null());
    assert_eq!(request.tool_use_id, "");
    assert_eq!(request.agent_id, None);
    assert_eq!(request.suggestions.to_text(), "[]");
    assert_eq!(request.request_id, "");
}

#[test]
fn answer_follows_the_outcome() {
    let request = parse_can_use_tool(&json(
        r##"{"request_id":"r1","request":{"tool_name":"Bash","input":{"command":"ls"},"tool_use_id":"t1"}}"##,
    ));
    let allow = value(&control_answer(Outcome::Allow, &request));
    assert_eq!(allow["response"]["response"]["behavior"], "allow");
    assert_eq!(allow["response"]["response"]["updatedInput"]["command"], "ls");
    assert!(allow["response"]["response"].get("updatedPermissions").is_none());
    let always = value(&control_answer(Outcome::AllowAlways, &request));
    assert_eq!(always["response"]["response"]["updatedPermissions"][0]["type"], "addRules");
    for outcome in [Outcome::Deny, Outcome::Cancelled] {
        let denied = value(&control_answer(outcome, &request));
        assert_eq!(denied, value(&deny_control_response("r1")));
    }
    assert_eq!(
        value(&allow_control_response("r1", &json("{}"))),
        parsed(r##"{"type":"control_response","response":{"subtype":"success","request_id":"r1","response":{"behavior":"allow","updatedInput":{}}}}"##)
    );
}

#[test]
fn tool_call_of_a_request_is_shaped_like_the_streamed_one() {
    let tc = value(&build_tool_call("Read", &json(r##"{"file_path":"/a","offset":4}"##), "t1", None));
    assert_eq!(
        tc,
        parsed(
            r##"{"toolCallId":"t1","rawInput":{"file_path":"/a","offset":4},"kind":"read",
                 "title":"Read /a","content":[],"locations":[{"path":"/a","line":4}]}"##
        )
    );
}

#[test]
fn only_can_use_tool_asks_for_permission() {
    assert!(is_can_use_tool(&json(
        r#"{"type":"control_request","request_id":"r","request":{"subtype":"can_use_tool"}}"#
    )));
    assert!(!is_can_use_tool(&json(
        r#"{"type":"control_request","request_id":"r","request":{"subtype":"mcp_message"}}"#
    )));
    assert!(!is_can_use_tool(&json(r#"{"type":"control_request","request_id":"r"}"#)));
}
