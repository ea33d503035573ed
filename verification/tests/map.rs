//! Messages of the agent, as the client sees them.

use acp_adapter::acp::{
    contents_to_json, ContentBlock, PlanEntryStatus, SessionUpdate, ToolCallStatus, ToolKind,
};
use acp_adapter::json::Json;
use acp_adapter::map::{
    map_commands_changed, map_consolidated, map_mode_update, map_stream_event, MapState, MsgRole,
};

fn json(text: &str) -> Json {
    Json::parse_str(text).expect("valid JSON")
}

fn fragment(partial: &str) -> Json {
    Json::object().with("type", Json::text("stream_event")).with(
        "event",
        Json::object()
            .with("type", Json::text("content_block_delta"))
            .with("index", Json::uint(0))
            .with(
                "delta",
                Json::object()
                    .with("type", Json::text("input_json_delta"))
                    .with("partial_json", Json::text(partial)),
            ),
    )
}


fn kind(u: &SessionUpdate) -> &'static str {
    match u {
        SessionUpdate::UserMessageChunk(_) => "user_message_chunk",
        SessionUpdate::AgentMessageChunk(_) => "agent_message_chunk",
        SessionUpdate::AgentThoughtChunk(_) => "agent_thought_chunk",
        SessionUpdate::ToolCall(_) => "tool_call",
        SessionUpdate::ToolCallUpdate(_) => "tool_call_update",
        SessionUpdate::Plan(_) => "plan",
        SessionUpdate::AvailableCommandsUpdate(_) => "available_commands_update",
        SessionUpdate::CurrentModeUpdate(_) => "current_mode_update",
    }
}

#[test]
fn inv_18_variant_mapping() {
    let cases: Vec<(&str, Json, MsgRole, &'static str)> = vec![
        (
            "assistant text",
            json(r##"[{"type": "text", "text": "hi"}]"##),
            MsgRole::Assistant,
            "agent_message_chunk",
        ),
        (
            "user text",
            json(r##"[{"type": "text", "text": "hi"}]"##),
            MsgRole::User,
            "user_message_chunk",
        ),
        (
            "thinking",
            json(r##"[{"type": "thinking", "thinking": "reasoning"}]"##),
            MsgRole::Assistant,
            "agent_thought_chunk",
        ),
        (
            "tool_use",
            json(r##"[{"type": "tool_use", "id": "t1", "name": "Bash", "input": {"command": "ls"}}]"##),
            MsgRole::Assistant,
            "tool_call",
        ),
        (
            "tool_result",
            json(r##"[{"type": "tool_result", "tool_use_id": "t1", "content": "out"}]"##),
            MsgRole::Assistant,
            "tool_call_update",
        ),
        (
            "todo_write plan",
            json(r##"[{"type": "tool_use", "id": "t2", "name": "TodoWrite", "input": {"todos": [{"content": "a", "status": "pending"}]}}]"##),
            MsgRole::Assistant,
            "plan",
        ),
    ];

    for (desc, content, role, expected) in cases {
        let mut state = MapState::default();
        let updates = map_consolidated(&content, role, &mut state);
        assert_eq!(
            updates.len(),
            1,
            "{desc}: expected exactly one update, got {}",
            updates.len()
        );
        assert_eq!(
            kind(&updates[0]),
            expected,
            "{desc}: wrong variant"
        );
    }

    // The two remaining emitted variants are produced by their own pure
    // entry points.
    let mode = map_mode_update("plan");
    assert_eq!(kind(&mode), "current_mode_update");
    let commands =
        map_commands_changed(&json(r##"[{"name": "x", "description": "d"}]"##), &json(r##"[]"##));
    assert_eq!(
        kind(&SessionUpdate::AvailableCommandsUpdate(commands)),
        "available_commands_update"
    );

    // Frames about the session, its options and its usage, and blocks of other
    // kinds, give no update at all.
    let discarded_inputs = vec![
        json(r##"{"type": "system", "subtype": "session_info", "title": "t"}"##),
        json(r##"{"type": "system", "subtype": "config_option", "configId": "c"}"##),
        json(r##"{"type": "system", "subtype": "usage", "input": 1}"##),
        json(r##"[{"type": "compaction", "id": "c1"}]"##),
        json(r##"[{"type": "document", "source": {}}]"##),
        json(r##"[{"type": "redacted_thinking", "data": "x"}]"##),
    ];
    for input in discarded_inputs {
        let mut state = MapState::default();
        assert!(map_consolidated(&input, MsgRole::Assistant, &mut state).is_empty());
    }
}

#[test]
fn inv_19_partial_input_refines() {
    let mut state = MapState::default();

    // content_block_start surfaces the tool_call.
    let start = json(r##"{ "type": "stream_event", "event": { "type": "content_block_start", "index": 0, "content_block": {"type": "tool_use", "id": "t1", "name": "Bash", "input": {}} } }"##);
    let updates = map_stream_event(&start, &mut state);
    assert_eq!(updates.len(), 1, "start surfaces one update");
    assert_eq!(kind(&updates[0]), "tool_call");

    // 5 fragments of `{"command":"ls","description":"list"}`.
    let fragments = [
        r#"{"com"#,
        r#"mand":"ls""#,
        r#","#,
        r#"description":"list""#,
        r#"}"#,
    ];
    let mut tool_calls = 1;
    let mut tool_call_updates = 0;
    for frag in fragments {
        let delta = fragment(frag);
        let produced = map_stream_event(&delta, &mut state);
        for u in produced {
            match u {
                SessionUpdate::ToolCall(_) => tool_calls += 1,
                SessionUpdate::ToolCallUpdate(_) => tool_call_updates += 1,
                other => panic!("unexpected update kind: {:?}", kind(&other)),
            }
        }
    }

    assert_eq!(
        tool_calls, 1,
        "exactly one ToolCall across the whole stream, never a duplicate"
    );
    assert!(
        tool_call_updates >= 1,
        "the fragments must yield at least one refining ToolCallUpdate"
    );
}

#[test]
fn dedupe_stream_and_consolidated_emits_once() {
    let mut state = MapState::default();

    // 1. The streamed path surfaces the tool_call first.
    let start = json(r##"{ "type": "stream_event", "event": { "type": "content_block_start", "index": 0, "content_block": {"type": "tool_use", "id": "t1", "name": "Read", "input": {"file_path": "a"}} } }"##);
    let first = map_stream_event(&start, &mut state);
    assert_eq!(kind(&first[0]), "tool_call");

    // 2. The consolidated assistant message carries the same block. The
    //    dedupe rule must refine it, not emit a second tool_call.
    let consolidated = json(r##"[ {"type": "tool_use", "id": "t1", "name": "Read", "input": {"file_path": "a", "limit": 10}} ]"##);
    let second = map_consolidated(&consolidated, MsgRole::Assistant, &mut state);
    assert_eq!(second.len(), 1, "consolidated dedupes to one update");
    assert_eq!(
        kind(&second[0]),
        "tool_call_update",
        "a block in both stream_event and consolidated emits once (no duplicate tool_call)"
    );

    let total_tool_calls = first
        .iter()
        .filter(|u| matches!(u, SessionUpdate::ToolCall(_)))
        .count()
        + second
            .iter()
            .filter(|u| matches!(u, SessionUpdate::ToolCall(_)))
            .count();
    assert_eq!(
        total_tool_calls, 1,
        "the block must be surfaced as exactly one ToolCall across both paths"
    );
}

fn start_tool(id: &str, name: &str) -> Json {
    json(&format!(
        r##"{{"type":"stream_event","event":{{"type":"content_block_start","index":0,"content_block":{{"type":"tool_use","id":"{id}","name":"{name}","input":{{}}}}}}}}"##
    ))
}

#[test]
fn whole_message_text_is_one_chunk() {
    let mut state = MapState::default();
    let updates = map_consolidated(&Json::text("hello"), MsgRole::User, &mut state);
    assert_eq!(updates.len(), 1);
    match &updates[0] {
        SessionUpdate::UserMessageChunk(ContentBlock::Text { text }) => assert_eq!(text, "hello"),
        other => panic!("unexpected update: {}", kind(other)),
    }
    assert!(map_consolidated(&Json::text(""), MsgRole::User, &mut state).is_empty());
    assert!(map_consolidated(&Json::Null, MsgRole::User, &mut state).is_empty());
}

#[test]
fn empty_text_blocks_are_not_shown() {
    let mut state = MapState::default();
    let blocks = json(r##"[{"type": "text", "text": ""}, {"type": "text"}]"##);
    assert!(map_consolidated(&blocks, MsgRole::Assistant, &mut state).is_empty());
    // A thought is shown even if it is empty.
    let blocks = json(r##"[{"type": "thinking", "thinking": ""}]"##);
    assert_eq!(map_consolidated(&blocks, MsgRole::Assistant, &mut state).len(), 1);
}

#[test]
fn only_inline_images_are_shown() {
    let mut state = MapState::default();
    let blocks = json(
        r##"[{"type": "image", "source": {"type": "base64", "data": "QUJD", "media_type": "image/png"}},
             {"type": "image", "source": {"type": "url", "url": "http://x"}},
             {"type": "image"}]"##,
    );
    let updates = map_consolidated(&blocks, MsgRole::User, &mut state);
    assert_eq!(updates.len(), 1);
    match &updates[0] {
        SessionUpdate::AgentMessageChunk(ContentBlock::Image { data, mime_type }) => {
            assert_eq!(data, "QUJD");
            assert_eq!(mime_type, "image/png");
        }
        other => panic!("unexpected update: {}", kind(other)),
    }
}

#[test]
fn task_tools_are_not_shown_when_called() {
    for name in ["TaskCreate", "TaskUpdate", "TaskList", "TaskGet"] {
        let mut state = MapState::default();
        let block = json(&format!(
            r##"[{{"type":"tool_use","id":"t","name":"{name}","input":{{}}}}]"##
        ));
        assert!(map_consolidated(&block, MsgRole::Assistant, &mut state).is_empty());
        assert!(!state.has_emitted("t"));
    }
}

#[test]
fn plan_shows_the_active_form_while_in_progress() {
    let mut state = MapState::default();
    let block = json(
        r##"[{"type":"tool_use","id":"t","name":"TodoWrite","input":{"todos":[
            {"content":"a","status":"in_progress","activeForm":"doing a"},
            {"content":"b","status":"in_progress"},
            {"content":"c","status":"completed","activeForm":"doing c"},
            {"content":"d"}]}}]"##,
    );
    let updates = map_consolidated(&block, MsgRole::Assistant, &mut state);
    match &updates[0] {
        SessionUpdate::Plan(entries) => {
            let seen: Vec<(&str, PlanEntryStatus)> =
                entries.iter().map(|e| (e.content.as_str(), e.status)).collect();
            assert_eq!(
                seen,
                vec![
                    ("doing a", PlanEntryStatus::InProgress),
                    ("b", PlanEntryStatus::InProgress),
                    ("c", PlanEntryStatus::Completed),
                    ("d", PlanEntryStatus::Pending),
                ]
            );
        }
        other => panic!("unexpected update: {}", kind(other)),
    }
}

#[test]
fn result_completes_the_call_and_forgets_it() {
    let mut state = MapState::default();
    map_consolidated(
        &json(r##"[{"type":"tool_use","id":"t1","name":"Bash","input":{"command":"ls"}}]"##),
        MsgRole::Assistant,
        &mut state,
    );
    assert!(state.has_emitted("t1"));
    let updates = map_consolidated(
        &json(r##"[{"type":"tool_result","tool_use_id":"t1","content":"out\n","is_error":true}]"##),
        MsgRole::User,
        &mut state,
    );
    assert!(!state.has_emitted("t1"));
    match &updates[0] {
        SessionUpdate::ToolCallUpdate(u) => {
            assert_eq!(u.tool_call_id, "t1");
            assert_eq!(u.status, Some(ToolCallStatus::Failed));
            assert_eq!(u.raw_output.as_ref().map(|j| j.to_text()), Some("\"out\\n\"".to_string()));
            assert_eq!(u.meta.to_text(), r##"{"claudeCode":{"toolName":"Bash"}}"##);
            assert!(u.title.is_none() && u.kind.is_none() && u.locations.is_none());
            let content = u.content.as_ref().expect("content");
            assert_eq!(
                contents_to_json(content).to_text(),
                r##"[{"type":"content","content":{"type":"text","text":"```console\nout\n```"}}]"##
            );
        }
        other => panic!("unexpected update: {}", kind(other)),
    }
    // The result of a call that is not known.
    let updates = map_consolidated(
        &json(r##"[{"type":"tool_result","tool_use_id":"gone","content":"x"}]"##),
        MsgRole::User,
        &mut state,
    );
    match &updates[0] {
        SessionUpdate::ToolCallUpdate(u) => {
            assert_eq!(u.status, Some(ToolCallStatus::Completed));
            assert_eq!(u.meta.to_text(), r##"{"claudeCode":{"toolName":"Other"}}"##);
        }
        other => panic!("unexpected update: {}", kind(other)),
    }
}

#[test]
fn result_of_a_plan_is_not_shown() {
    let mut state = MapState::default();
    state.mark_emitted("t2", json(r##"{"name":"TodoWrite"}"##));
    let updates = map_consolidated(
        &json(r##"[{"type":"tool_result","tool_use_id":"t2","content":"x"}]"##),
        MsgRole::User,
        &mut state,
    );
    assert!(updates.is_empty());
    // Only the call is forgotten, so that it is never shown again.
    assert!(state.has_emitted("t2"));
}

#[test]
fn streamed_input_is_refined_at_top_level_commas() {
    let mut state = MapState::default();
    map_stream_event(&start_tool("t1", "Read"), &mut state);
    assert!(map_stream_event(&fragment(r##"{"file_path":"a,b""##), &mut state).is_empty());
    let updates = map_stream_event(&fragment(r##","x":[1,2]"##), &mut state);
    assert_eq!(updates.len(), 1);
    match &updates[0] {
        SessionUpdate::ToolCallUpdate(u) => {
            assert_eq!(u.title.as_deref(), Some("Read a,b"));
            assert_eq!(u.kind, Some(ToolKind::Read));
            assert_eq!(u.raw_input.as_ref().map(|j| j.to_text()), Some(r##"{"file_path":"a,b"}"##.into()));
            assert!(u.content.is_none(), "content of partial input is not shown");
            assert_eq!(u.locations.as_ref().map(|l| l.len()), Some(1));
        }
        other => panic!("unexpected update: {}", kind(other)),
    }
    // The same comma is not used twice, and the end of the input gives nothing.
    assert!(map_stream_event(&fragment("  "), &mut state).is_empty());
    assert!(map_stream_event(&fragment("}"), &mut state).is_empty());
    // After the end the input is forgotten.
    assert!(map_stream_event(&fragment(r##","y":1,"##), &mut state).is_empty());
}

#[test]
fn message_boundary_drops_partial_input() {
    let mut state = MapState::default();
    map_stream_event(&start_tool("t1", "Bash"), &mut state);
    map_stream_event(&fragment(r##"{"command":"ls""##), &mut state);
    let stop = json(r##"{"type":"stream_event","event":{"type":"content_block_stop","index":0}}"##);
    assert!(map_stream_event(&stop, &mut state).is_empty());
    assert!(map_stream_event(&fragment(r##","a":1"##), &mut state).is_empty());
}

#[test]
fn fragments_only_refine_what_was_shown() {
    let mut state = MapState::default();
    map_stream_event(&start_tool("t1", "Bash"), &mut state);
    for piece in [r##"{"a":"##, r##"1,"##, r##""b":2,"##, r##""c":"}""##, r##","d":[{}],"##, "}"] {
        for u in map_stream_event(&fragment(piece), &mut state) {
            assert_eq!(kind(&u), "tool_call_update");
        }
        assert!(state.has_emitted("t1"));
    }
}

#[test]
fn commands_are_filtered_renamed_and_hinted() {
    let list = json(
        r##"[{"name":"clear","description":"x"},
             {"name":"deploy (MCP)","description":"d","argumentHint":["a","b"]},
             {"name":"vim"},
             {"description":"nameless"},
             {"name":"review","argumentHint":"[pr]"},
             {"name":"plain","argumentHint":""}]"##,
    );
    let commands = map_commands_changed(&list, &json(r##"[{"name":"vim"}]"##));
    let seen: Vec<(&str, &str, Option<&str>)> = commands
        .iter()
        .map(|c| (c.name.as_str(), c.description.as_str(), c.hint.as_deref()))
        .collect();
    assert_eq!(
        seen,
        vec![
            ("mcp:deploy", "d", Some("a b")),
            ("review", "", Some("[pr]")),
            ("plain", "", None),
        ]
    );
    assert!(map_commands_changed(&Json::Null, &Json::Null).is_empty());
}
