//! What a tool call and its result look like to the client.

use acp_adapter::acp::{ToolCallContent, ToolKind};
use acp_adapter::json::Json;
use acp_adapter::tools::{claude_code_meta, tool_result_content, tool_shape};
use serde_json::Value;

fn json(text: &str) -> Json {
    Json::parse_str(text).expect("valid JSON")
}

fn value(j: &Json) -> Value {
    serde_json::from_str(&j.to_text()).expect("printed JSON")
}


fn kind_of(content: &ToolCallContent) -> &'static str {
    match content {
        ToolCallContent::Content { .. } => "content",
        ToolCallContent::Diff { .. } => "diff",
    }
}

#[test]
fn inv_24_tool_shapes_table() {
    struct Case {
        name: &'static str,
        input: Json,
        kind: ToolKind,
        title: &'static str,
        locations: usize,
    }
    let cases = vec![
        Case {
            name: "Agent",
            input: json(r##"{"description": "Do a subtask", "prompt": "go"}"##),
            kind: ToolKind::Think,
            title: "Do a subtask",
            locations: 0,
        },
        Case {
            name: "Task",
            input: json(r##"{"description": "Do a subtask", "prompt": "go"}"##),
            kind: ToolKind::Think,
            title: "Do a subtask",
            locations: 0,
        },
        Case {
            name: "Bash",
            input: json(r##"{"command": "echo hi"}"##),
            kind: ToolKind::Execute,
            title: "echo hi",
            locations: 0,
        },
        Case {
            name: "Read",
            input: json(r##"{"file_path": "/tmp/a.txt", "offset": 3, "limit": 2}"##),
            kind: ToolKind::Read,
            title: "Read /tmp/a.txt (3 - 4)",
            locations: 1,
        },
        Case {
            name: "Write",
            input: json(r##"{"file_path": "/tmp/a.txt", "content": "hi"}"##),
            kind: ToolKind::Edit,
            title: "Write /tmp/a.txt",
            locations: 1,
        },
        Case {
            name: "Edit",
            input: json(r##"{"file_path": "/tmp/a.txt", "old_string": "a", "new_string": "b"}"##),
            kind: ToolKind::Edit,
            title: "Edit /tmp/a.txt",
            locations: 1,
        },
        Case {
            name: "Glob",
            input: json(r##"{"path": "/tmp", "pattern": "**/*.rs"}"##),
            kind: ToolKind::Search,
            title: "Find `/tmp` `**/*.rs`",
            locations: 1,
        },
        Case {
            name: "Grep",
            input: json(r##"{"pattern": "foo", "path": "/tmp", "-i": true}"##),
            kind: ToolKind::Search,
            title: "grep -i \"foo\" /tmp",
            locations: 0,
        },
        Case {
            name: "WebFetch",
            input: json(r##"{"url": "https://x.com", "prompt": "summarize"}"##),
            kind: ToolKind::Fetch,
            title: "Fetch https://x.com",
            locations: 0,
        },
        Case {
            name: "WebSearch",
            input: json(r##"{"query": "rust"}"##),
            kind: ToolKind::Fetch,
            title: "\"rust\"",
            locations: 0,
        },
        Case {
            name: "TodoWrite",
            input: json(r##"{"todos": [{"content": "a"}, {"content": "b"}]}"##),
            kind: ToolKind::Think,
            title: "Update TODOs: a, b",
            locations: 0,
        },
        Case {
            name: "ReportFindings",
            input: json(r##"{"findings": [{"file": "a.rs", "line": 2, "summary": "s"}]}"##),
            kind: ToolKind::Think,
            title: "Report 1 finding",
            locations: 0,
        },
        Case {
            name: "TaskCreate",
            input: json(r##"{"subject": "thing"}"##),
            kind: ToolKind::Think,
            title: "Create task: thing",
            locations: 0,
        },
        Case {
            name: "TaskUpdate",
            input: json(r##"{"subject": "thing"}"##),
            kind: ToolKind::Think,
            title: "Update task: thing",
            locations: 0,
        },
        Case {
            name: "TaskList",
            input: json(r##"{}"##),
            kind: ToolKind::Think,
            title: "List tasks",
            locations: 0,
        },
        Case {
            name: "TaskGet",
            input: json(r##"{}"##),
            kind: ToolKind::Think,
            title: "Get task",
            locations: 0,
        },
        Case {
            name: "ExitPlanMode",
            input: json(r##"{"plan": "do it"}"##),
            kind: ToolKind::SwitchMode,
            title: "Ready to code?",
            locations: 0,
        },
        Case {
            name: "Skill",
            input: json(r##"{"skill": "coding"}"##),
            kind: ToolKind::Other,
            title: "Load skill: coding",
            locations: 0,
        },
        Case {
            name: "AskUserQuestion",
            input: json(r##"{"questions": [{"question": "ok?"}]}"##),
            kind: ToolKind::Other,
            title: "ok?",
            locations: 0,
        },
    ];

    for c in &cases {
        let shape = tool_shape(c.name, &c.input);
        assert_eq!(shape.kind, c.kind, "{}: kind", c.name);
        assert_eq!(shape.title, c.title, "{}: title", c.name);
        assert_eq!(shape.locations.len(), c.locations, "{}: locations", c.name);
    }

    // Content spot-checks on the tools that carry it.
    let agent = tool_shape("Agent", &json(r##"{"description": "d", "prompt": "go"}"##));
    assert_eq!(agent.content.len(), 1);
    assert_eq!(kind_of(&agent.content[0]), "content");

    let write = tool_shape("Write", &json(r##"{"file_path": "/tmp/a", "content": "hi"}"##));
    assert_eq!(kind_of(&write.content[0]), "diff");

    let edit = tool_shape(
        "Edit",
        &json(r##"{"file_path": "/tmp/a", "old_string": "x", "new_string": "y"}"##),
    );
    assert_eq!(kind_of(&edit.content[0]), "diff");
}

#[test]
fn inv_24_unknown_tool_falls_back() {
    let shape = tool_shape("DefinitelyNotATool", &json(r##"{"a": 1}"##));
    assert_eq!(shape.kind, ToolKind::Other);
    assert_eq!(shape.title, "DefinitelyNotATool");
    assert!(shape.content.is_empty());

    // The `Other` tool itself renders its input as a json code block.
    let other = tool_shape("Other", &json(r##"{"a": 1}"##));
    assert_eq!(other.kind, ToolKind::Other);
    assert_eq!(other.title, "Other");
    assert_eq!(other.content.len(), 1);
    assert_eq!(kind_of(&other.content[0]), "content");

    // A hostile/broken name must never panic.
    let _ = tool_shape("", &json(r##"null"##));
    let _ = tool_shape("Other", &json(r##""not-an-object""##));
}

#[test]
fn claude_code_meta_shapes() {
    let bash = value(&claude_code_meta("Bash", &json(r##"{"description": "run ls"}"##)));
    assert_eq!(bash["toolName"], "Bash");
    assert_eq!(bash["title"], "run ls");
    assert!(bash.get("subagent").is_none());

    let task = value(&claude_code_meta("Task", &json(r##"{}"##)));
    assert_eq!(task["subagent"], true);

    let skill = value(&claude_code_meta("Skill", &json(r##"{"skill": "coding"}"##)));
    assert_eq!(skill["skill"], "coding");
}

#[test]
fn tool_result_content_shapes() {
    let bash = tool_result_content("Bash", &json(r##""echo hi""##), false).unwrap();
    assert_eq!(kind_of(&bash[0]), "content");

    let read = tool_result_content("Read", &json(r##""line one\nline two""##), false).unwrap();
    assert_eq!(kind_of(&read[0]), "content");

    // Empty Bash output surfaces nothing.
    assert!(tool_result_content("Bash", &json(r##""  ""##), false).is_none());

    // Edit/Write/Skill results surface no content.
    assert!(tool_result_content("Edit", &json(r##""x""##), false).is_none());
    assert!(tool_result_content("Write", &json(r##""x""##), false).is_none());
    assert!(tool_result_content("Skill", &json(r##""x""##), false).is_none());
}

fn text_of(content: &ToolCallContent) -> String {
    value(&content.to_json())["content"]["text"].as_str().unwrap_or("").to_string()
}

fn title(name: &str, input: &str) -> String {
    tool_shape(name, &json(input)).title
}

#[test]
fn titles_without_input() {
    for (name, expected) in [
        ("Agent", "Task"),
        ("Bash", "Terminal"),
        ("Read", "Read File"),
        ("Write", "Preparing file…"),
        ("Edit", "Edit"),
        ("Glob", "Find"),
        ("Grep", "grep"),
        ("WebFetch", "Fetch"),
        ("WebSearch", "Web search"),
        ("TodoWrite", "Update TODOs"),
        ("ReportFindings", "Report findings: none found"),
        ("TaskCreate", "Create task"),
        ("TaskUpdate", "Update task"),
        ("Skill", "Load skill"),
        ("AskUserQuestion", "Asking for your input"),
    ] {
        assert_eq!(title(name, "{}"), expected, "{name}");
    }
}

#[test]
fn read_title_names_the_lines() {
    assert_eq!(title("Read", r#"{"file_path":"/a","limit":10}"#), "Read /a (1 - 10)");
    assert_eq!(title("Read", r#"{"file_path":"/a","limit":0}"#), "Read /a (from line 1)");
    assert_eq!(title("Read", r#"{"file_path":"/a","limit":0,"offset":7}"#), "Read /a (from line 7)");
    assert_eq!(title("Read", r#"{"file_path":"/a","offset":7}"#), "Read /a");
    assert_eq!(title("Read", r#"{"limit":2}"#), "Read File (1 - 2)");
    let shape = tool_shape("Read", &json(r#"{"file_path":"/a","offset":4294967297}"#));
    assert_eq!(shape.locations[0].line, Some(1), "the line is cut to 32 bits");
}

#[test]
fn grep_title_holds_every_option() {
    let input = r#"{"-i":true,"-n":true,"-A":1,"-B":2,"-C":3,"output_mode":"count","head_limit":5,
        "glob":"*.rs","type":"rust","multiline":true,"pattern":"p","path":"/d"}"#;
    assert_eq!(
        title("Grep", input),
        "grep -i -n -A 1 -B 2 -C 3 -c | head -5 --include=\"*.rs\" --type=rust -P \"p\" /d"
    );
    assert_eq!(title("Grep", r#"{"output_mode":"files_with_matches","-i":false}"#), "grep -l");
    assert_eq!(title("Grep", r#"{"output_mode":"content","-A":"x"}"#), "grep -A \"x\"");
}

#[test]
fn web_search_title_holds_the_domains() {
    assert_eq!(
        title("WebSearch", r#"{"query":"q","allowed_domains":["a","b",1],"blocked_domains":["c"]}"#),
        "\"q\" (allowed: a, b) (blocked: c)"
    );
    assert_eq!(title("WebSearch", r#"{"query":"q","allowed_domains":[]}"#), "\"q\"");
}

#[test]
fn findings_are_counted_and_listed() {
    let shape = tool_shape(
        "ReportFindings",
        &json(r#"{"findings":[{"file":"a.rs","line":2,"summary":"s"},{"file":"b.rs"},{"line":1}]}"#),
    );
    assert_eq!(shape.title, "Report 3 findings");
    let texts: Vec<String> = shape.content.iter().map(text_of).collect();
    assert_eq!(texts, vec!["**a.rs:2** — s", "**b.rs** — "]);
}

#[test]
fn questions_are_listed() {
    let shape = tool_shape(
        "AskUserQuestion",
        &json(r#"{"questions":[{"question":"a?"},{"question":"b?"},{}]}"#),
    );
    assert_eq!(shape.title, "Asking for your input");
    let texts: Vec<String> = shape.content.iter().map(text_of).collect();
    assert_eq!(texts, vec!["a?", "b?"]);
}

#[test]
fn edits_show_what_changes() {
    let content = |input: &str| value(&acp_adapter::acp::contents_to_json(&tool_shape("Edit", &json(input)).content));
    assert_eq!(
        content(r#"{"file_path":"/a","old_string":"x","new_string":"y"}"#),
        serde_json::from_str::<Value>(r#"[{"type":"diff","path":"/a","oldText":"x","newText":"y"}]"#).unwrap()
    );
    assert_eq!(
        content(r#"{"file_path":"/a","old_string":"x"}"#),
        serde_json::from_str::<Value>(r#"[{"type":"diff","path":"/a","oldText":"x","newText":""}]"#).unwrap()
    );
    assert_eq!(content(r#"{"file_path":"/a","old_string":"","new_string":""}"#), Value::Array(vec![]));
    assert_eq!(content(r#"{"file_path":"/a"}"#), Value::Array(vec![]));
    assert_eq!(content(r#"{"new_string":"y"}"#), Value::Array(vec![]));
    let write = tool_shape("Write", &json(r#"{"file_path":"/a"}"#));
    assert_eq!(write.content[0].to_json().to_text(), r#"{"type":"diff","path":"/a","newText":""}"#);
    let write = tool_shape("Write", &json(r#"{"content":"c"}"#));
    assert_eq!(text_of(&write.content[0]), "c");
}

#[test]
fn other_tool_prints_its_input() {
    let shape = tool_shape("Other", &json(r#"{"a":1}"#));
    assert_eq!(text_of(&shape.content[0]), "```json\n{\n  \"a\": 1\n}\n```");
    let shape = tool_shape("Other", &json("3"));
    assert_eq!(text_of(&shape.content[0]), "```json\n{}\n```");
}

#[test]
fn read_result_gets_a_fence_that_is_long_enough() {
    let shown = |text: &str| text_of(&tool_result_content("Read", &Json::text(text), false).unwrap()[0]);
    assert_eq!(shown("a"), "```\na\n```");
    assert_eq!(shown("a\n"), "```\na\n```");
    assert_eq!(shown("  ```rust\nx\n```\n"), "````\n  ```rust\nx\n```\n````");
    assert_eq!(shown("`````"), "``````\n`````\n``````");
    assert_eq!(shown("a ````` b"), "```\na ````` b\n```");
    assert!(tool_result_content("Read", &Json::text(""), false).is_none());
    assert!(tool_result_content("Read", &json(r#"[{"type":"image"}]"#), false).is_none());
    let blocks = json(r#"[{"text":"a"},{"x":1},{"text":"b"}]"#);
    assert_eq!(text_of(&tool_result_content("Read", &blocks, false).unwrap()[0]), "```\na\nb\n```");
}

#[test]
fn other_results_are_shown_block_by_block() {
    let shown = tool_result_content("Task", &Json::text("boom"), true).unwrap();
    assert_eq!(text_of(&shown[0]), "```\nboom\n```");
    let shown = tool_result_content("Task", &Json::text("fine"), false).unwrap();
    assert_eq!(text_of(&shown[0]), "fine");
    let blocks = json(
        r#"[{"type":"text","text":"a"},{"type":"image","source":{"type":"base64","data":"QUJD","media_type":"image/png"}},
            {"type":"image","source":{"type":"url"}},{"type":"image"},{"type":"odd"}]"#,
    );
    let shown = tool_result_content("Anything", &blocks, false).unwrap();
    assert_eq!(
        value(&acp_adapter::acp::contents_to_json(&shown)),
        serde_json::from_str::<Value>(
            r#"[{"type":"content","content":{"type":"text","text":"a"}},
                {"type":"content","content":{"type":"image","data":"QUJD","mimeType":"image/png"}},
                {"type":"content","content":{"type":"text","text":"[image: url]"}},
                {"type":"content","content":{"type":"text","text":"[image: file reference]"}}]"#
        )
        .unwrap()
    );
    assert!(tool_result_content("Anything", &json("[]"), false).is_none());
    assert!(tool_result_content("Anything", &Json::text(""), false).is_none());
    assert!(tool_result_content("Anything", &json("{}"), false).is_none());
    assert!(tool_result_content("ExitPlanMode", &Json::text("x"), false).is_none());
    assert_eq!(tool_result_content("Anything", &json(r#"[{"type":"odd"}]"#), false).unwrap().len(), 0);
}

#[test]
fn meta_is_wrapped() {
    assert_eq!(
        acp_adapter::tools::tool_meta("Bash", &json(r#"{"description":"d"}"#)).to_text(),
        r#"{"claudeCode":{"toolName":"Bash","title":"d"}}"#
    );
}
