//! Transcripts, and how they are played back.

use acp_adapter::json::Json;
use acp_adapter::replay::{
    is_initialize, record_argv_env, record_frame, replay, Output, Played, Replay, ReplayError,
};
use acp_adapter::transcript::{
    field_of, subset_match, substitute, Transcript, TranscriptError,
};
use serde_json::Value;

fn json(text: &str) -> Json {
    Json::parse_str(text).expect("valid JSON")
}

fn transcript(text: &str) -> Transcript {
    match Transcript::parse(text) {
        Ok(t) => t,
        Err(e) => panic!("{}", e.describe()),
    }
}

fn lines_of(played: &Played) -> Vec<Value> {
    played
        .outputs
        .iter()
        .filter_map(|o| match o {
            Output::Line(line) => {
                assert!(line.ends_with('\n'));
                Some(serde_json::from_str(line).expect("a line is JSON"))
            }
            Output::Sleep(_) => None,
        })
        .collect()
}

#[test]
fn parses_transcript_with_keep_alive_option() {
    let text = "{\"keep_alive_every_ms\": 500}\n{\"expect\": {\"type\": \"user\"}, \"emit\": [{\"type\": \"result\", \"subtype\": \"success\"}]}\n";
    let transcript = transcript(text);
    assert_eq!(transcript.steps.len(), 1);
    assert!(transcript.keep_alive_interval().is_some());
    assert_eq!(transcript.keep_alive_interval(), Some(500));
}

#[test]
fn subset_match_is_recursive() {
    let expect = json(r#"{"type": "user", "message": {"role": "user"}}"#);
    let frame = json(
        r#"{"type": "user", "uuid": "abc",
            "message": {"role": "user", "content": [{"type": "text", "text": "hi"}]}}"#,
    );
    assert!(subset_match(&expect, &frame));
}

#[test]
fn subset_match_misses_on_differing_value() {
    let expect = json(r#"{"type": "result", "subtype": "success"}"#);
    let frame = json(r#"{"type": "result", "subtype": "error"}"#);
    assert!(!subset_match(&expect, &frame));
}

#[test]
fn subset_match_fails_on_missing_field() {
    let expect = json(r#"{"type": "user", "uuid": "x"}"#);
    let frame = json(r#"{"type": "user"}"#);
    assert!(!subset_match(&expect, &frame));
}

#[test]
fn subset_match_compares_lists_and_scalars() {
    for (expect, frame, holds) in [
        ("[1]", "[1,2]", true),
        ("[1,2]", "[1]", false),
        ("[]", "[]", true),
        ("[2]", "[1,2]", false),
        ("null", "null", true),
        ("null", "false", false),
        ("1", "1", true),
        ("1", "1.0", false),
        ("-1", "-1", true),
        ("0.0", "-0.0", true),
        ("1.5", "1.5", true),
        ("1.5", "1.25", false),
        ("true", "true", true),
        ("\"a\"", "\"a\"", true),
        ("\"a\"", "\"b\"", false),
        ("{}", "{\"a\":1}", true),
        ("{}", "[]", false),
    ] {
        assert_eq!(subset_match(&json(expect), &json(frame)), holds, "{expect} in {frame}");
    }
}

#[test]
fn match_is_reflexive_and_transitive() {
    let a = json(r#"{"a":[1]}"#);
    let b = json(r#"{"b":2,"a":[1,{"x":null}]}"#);
    let c = json(r#"{"a":[1,{"x":null,"y":0.5},3],"b":2,"c":"d"}"#);
    for j in [&a, &b, &c] {
        assert!(subset_match(j, j));
    }
    assert!(subset_match(&a, &b) && subset_match(&b, &c) && subset_match(&a, &c));
    assert!(!subset_match(&c, &a));
}

#[test]
fn sleep_marker_pauses_without_writing_a_frame() {
    let text = "{\"expect\":{\"type\":\"user\"},\"emit\":[{\"type\":\"assistant\",\"n\":1},{\"sleep_ms\":1},{\"type\":\"result\",\"n\":2}]}\n";
    let played = replay(&transcript(text), r#"{"type":"user","uuid":"u","message":{}}"#);
    assert_eq!(played.result, Ok(1));
    let frames = lines_of(&played);
    assert_eq!(frames.len(), 2, "sleep marker must not be written as a frame");
    assert_eq!(frames[0]["n"], 1);
    assert_eq!(frames[1]["n"], 2);
    assert_eq!(played.outputs[1], Output::Sleep(1), "sleep marker must pause replay");
}

#[test]
fn unexpected_stdin_frame_fails_with_frame_in_stderr() {
    let transcript = transcript(
        r#"{"expect":{"type":"control_request","subtype":"initialize"},"emit":[{"type":"control_response","response":{"subtype":"success","request_id":"$REQ"}}]}"#,
    );
    // The transcript expects a control_request but receives a `user` frame.
    let played = replay(&transcript, "{\"type\":\"user\",\"uuid\":\"abc\"}\n");
    let err = played.result.expect_err("a mismatched frame must fail");
    let message = err.describe();
    assert!(
        message.contains("\"type\":\"user\""),
        "the unexpected frame must appear in stderr, got: {message}"
    );
    assert_eq!(
        err,
        ReplayError::Mismatch {
            expected: r#"{"type":"control_request","subtype":"initialize"}"#.to_string(),
            actual: r#"{"type":"user","uuid":"abc"}"#.to_string(),
        }
    );
    assert!(played.outputs.is_empty());
}

#[test]
fn match_substitution_from_matched_frame() {
    let t = transcript(
        r#"{"expect":{"type":"control_request","request":{"subtype":"initialize"}},"emit":[{"type":"control_response","response":{"subtype":"success","request_id":"$REQ"}}]}"#,
    );
    let played = replay(
        &t,
        "{\"type\":\"control_request\",\"request_id\":\"REQID-123\",\"request\":{\"subtype\":\"initialize\"}}\n",
    );
    assert_eq!(played.result, Ok(1), "initialize step must match");
    assert_eq!(
        lines_of(&played)[0]["response"]["request_id"], "REQID-123",
        "$REQ must equal the matched frame's request_id"
    );

    let t = transcript(
        r#"{"expect":{"type":"user"},"emit":[{"type":"user","uuid":"$MATCH.uuid","isReplay":true}]}"#,
    );
    let played = replay(
        &t,
        "{\"type\":\"user\",\"uuid\":\"11111111-1111-1111-1111-111111111111\",\"message\":{}}\n",
    );
    assert_eq!(played.result, Ok(1), "user step must match");
    assert_eq!(
        lines_of(&played)[0]["uuid"], "11111111-1111-1111-1111-111111111111",
        "$MATCH.uuid must echo the matched frame's uuid"
    );
}

#[test]
fn nested_substitution_across_fields() {
    let t = transcript(
        r#"{"expect":{"type":"control_request"},"emit":[{"type":"x","req":"$REQ","u":"$MATCH.uuid"}]}"#,
    );
    let played =
        replay(&t, "{\"type\":\"control_request\",\"request_id\":\"A\",\"uuid\":\"B\"}\n");
    assert_eq!(played.result, Ok(1), "must match");
    let out = &lines_of(&played)[0];
    assert_eq!(out["req"], "A");
    assert_eq!(out["u"], "B");
}

#[test]
fn fields_are_found_by_their_path() {
    let frame = json(r#"{"a":{"b":{"c":[1]},"":5},"d":"x"}"#);
    assert_eq!(field_of(&frame, "a.b.c").to_text(), "[1]");
    assert_eq!(field_of(&frame, "d").to_text(), "\"x\"");
    assert_eq!(field_of(&frame, "a.").to_text(), "5");
    assert_eq!(field_of(&frame, "a.x").to_text(), "null");
    assert_eq!(field_of(&frame, "d.x").to_text(), "null");
    let filled = substitute(
        &json(r#"{"k":["$MATCH.a.b","$MATCH.","$MATCH.zz","$REQ","$OTHER",7],"$REQ":null}"#),
        &frame,
    );
    assert_eq!(filled.to_text(), r#"{"k":[{"c":[1]},null,null,null,"$OTHER",7],"$REQ":null}"#);
    let plain = json(r#"{"a":[1,"b",{"c":null}]}"#);
    assert_eq!(substitute(&plain, &frame).to_text(), plain.to_text());
}

#[test]
fn playback_waits_ends_and_ignores_what_is_late() {
    let text = "\n{\"expect\":{\"n\":1},\"emit\":[{\"a\":1}],\"keep_alive\":true}\n\n[{\"n\":2},[{\"a\":2}]]\n";
    let t = transcript(text);
    let played = replay(&t, " {\"n\":1} \r\n\n{\"n\":2}\nnot json\n{\"n\":9}\n");
    assert_eq!(played.result, Ok(2));
    assert_eq!(
        played.outputs,
        vec![
            Output::Line("{\"a\":1}\n".to_string()),
            Output::Line("{\"type\":\"keep_alive\"}\n".to_string()),
            Output::Line("{\"a\":2}\n".to_string()),
        ]
    );
    // The input ends too early.
    let played = replay(&t, "{\"n\":1}\n");
    assert_eq!(played.result, Err(ReplayError::Eof { remaining: 1 }));
    assert_eq!(played.outputs.len(), 2);
    // A line that is no JSON document.
    let played = replay(&t, "nope\n");
    let source = serde_json::from_str::<Value>("nope").unwrap_err().to_string();
    let bad = ReplayError::BadFrame { frame: "nope".to_string(), source: source.clone() };
    assert_eq!(bad.describe(), format!("failed to parse stdin line `nope`: {source}"));
    assert_eq!(played.result, Err(bad));
    // A step can end the playback.
    let t = transcript("{\"expect\":{},\"exit\":true}\n{\"expect\":{}}\n");
    let played = replay(&t, "{}\nnot even read\n");
    assert_eq!(played.result, Ok(1));
    assert_eq!(replay(&transcript(""), "anything\n").result, Ok(0));
}

#[test]
fn first_initialize_is_handed_out_once() {
    let t = transcript("{\"expect\":{}}\n{\"expect\":{}}\n{\"expect\":{}}\n");
    let input = "{\"type\":\"user\"}\n{\"type\":\"control_request\",\"request\":{\"subtype\":\"initialize\"},\"n\":1}\n{\"type\":\"control_request\",\"request\":{\"subtype\":\"initialize\"},\"n\":2}\n";
    let played = replay(&t, input);
    assert_eq!(played.init.and_then(|f| f.get_u64("n")), Some(1));
    let mut state = Replay::new();
    let mut handed = 0;
    for line in input.lines() {
        match state.on_line(&t, line) {
            Ok(answered) => handed += usize::from(answered.init.is_some()),
            Err(e) => panic!("{}", e.describe()),
        }
    }
    assert_eq!(handed, 1);
    assert_eq!(state.played(), 3);
    assert!(!state.is_over());
    assert_eq!(state.on_eof(&t), Ok(3));
}

#[test]
fn initialize_is_recognised() {
    assert!(is_initialize(&json(r#"{"type":"control_request","request":{"subtype":"initialize"}}"#)));
    assert!(!is_initialize(&json(r#"{"type":"control_request","request":{"subtype":"other"}}"#)));
    assert!(!is_initialize(&json(r#"{"type":"control_request"}"#)));
    assert!(!is_initialize(&json(r#"{"type":"user","request":{"subtype":"initialize"}}"#)));
}

#[test]
fn bad_transcript_lines_are_named() {
    let value = |text: &str| serde_json::from_str::<Value>(text).unwrap();
    let no_json = serde_json::from_str::<Value>("nope").unwrap_err().to_string();
    let no_list = |text: &str| {
        serde_json::from_value::<Vec<Value>>(value(text)).unwrap_err().to_string()
    };
    let no_flag = |text: &str| serde_json::from_value::<bool>(value(text)).unwrap_err().to_string();
    for (text, line, source) in [
        ("nope", 0usize, no_json),
        (
            "{\"expect\":1}\n\n{\"emit\":[]}",
            2,
            <serde_json::Error as serde::de::Error>::missing_field("expect").to_string(),
        ),
        ("{\"expect\":1,\"emit\":3}", 0, no_list("3")),
        ("{\"expect\":1,\"emit\":-3}", 0, no_list("-3")),
        ("{\"expect\":1,\"emit\":2.5e3}", 0, no_list("2.5e3")),
        ("{\"expect\":1,\"emit\":1e300}", 0, no_list("1e300")),
        ("{\"expect\":1,\"emit\":-4.5e-310}", 0, no_list("-4.5e-310")),
        ("{\"expect\":1,\"emit\":1e16}", 0, no_list("1e16")),
        ("{\"expect\":1,\"emit\":0.000001}", 0, no_list("0.000001")),
        ("{\"expect\":1,\"emit\":-0.0}", 0, no_list("-0.0")),
        ("{\"expect\":1,\"emit\":{}}", 0, no_list("{}")),
        ("{\"expect\":1,\"keep_alive\":\"y\\\"\\n\"}", 0, no_flag("\"y\\\"\\n\"")),
        ("{\"expect\":1,\"keep_alive\":[]}", 0, no_flag("[]")),
        ("{\"expect\":1,\"exit\":null}", 0, no_flag("null")),
        // The first field of the wrong type is named.
        ("{\"exit\":0,\"emit\":true,\"expect\":1}", 0, no_flag("0")),
        ("{\"emit\":true,\"exit\":0}", 0, no_list("true")),
        ("[]", 0, "invalid length 0, expected struct Step with 4 elements".to_string()),
        ("[1,[],0]", 0, no_flag("0")),
        ("[1,[],true,false,1]", 0, "invalid length 5, expected fewer elements in array".to_string()),
        ("7", 0, "invalid type: integer `7`, expected struct Step".to_string()),
    ] {
        match Transcript::parse(text) {
            Err(e) => assert_eq!(e, TranscriptError::Parse { line, source }, "{text}"),
            Ok(_) => panic!("{text} is no transcript"),
        }
    }
    assert_eq!(
        TranscriptError::Parse { line: 12, source: "why".to_string() }.describe(),
        "failed to parse transcript line 12: why"
    );
    // The last interval counts.
    let t = transcript("{\"keep_alive_every_ms\":1}\n{\"keep_alive_every_ms\":2,\"expect\":3}\n");
    assert_eq!(t.keep_alive_interval(), Some(2));
    assert!(t.steps.is_empty());
}

#[test]
fn records_argv_to_arg_out() {
    let argv = vec!["--replay-user-messages".to_string(), "--session-id=abc".to_string()];
    let text = record_argv_env(&argv, true, Some("1"), false);
    let record: Value = serde_json::from_str(&text).unwrap();
    assert_eq!(record["argv"][0], "--replay-user-messages");
    assert_eq!(record["argv"][1], "--session-id=abc");
    // Only two variables are ever named, one of them without its value.
    let env = record["env"].as_object().unwrap();
    assert_eq!(env.len(), 2);
    assert_eq!(env["CLAUDE_CODE_ENTRYPOINT"], "$ENTRYPOINT");
    assert_eq!(env["CLAUDE_CODE_EMIT_SESSION_STATE_EVENTS"], "1");
    assert_eq!(record["node_options_present"], false);
    assert_eq!(
        record_argv_env(&vec![], false, None, true),
        "{\n  \"argv\": [],\n  \"env\": {},\n  \"node_options_present\": true\n}"
    );
}

#[test]
fn records_initialize_to_init_out() {
    let t = transcript(
        r#"{"expect":{"type":"control_request","request":{"subtype":"initialize"}},"emit":[]}"#,
    );
    let played = replay(
        &t,
        r#"{"type":"control_request","request_id":"R1","request":{"subtype":"initialize","systemPrompt":"x"}}"#,
    );
    let init = played.init.expect("the frame is handed out");
    let record: Value = serde_json::from_str(&record_frame(&init)).unwrap();
    assert_eq!(record["request"]["subtype"], "initialize");
    assert!(record_frame(&init).contains("\n  \"request_id\": \"R1\""));
}
