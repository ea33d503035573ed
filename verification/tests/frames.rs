//! Frames, their lines, and the recorder's arguments.

use acp_adapter::frames::{parse_args, render_frames, Direction, Frame, FrameLine};
use acp_adapter::json::Json;
use serde_json::Value;

fn json(text: &str) -> Json {
    Json::parse_str(text).expect("valid JSON")
}

#[test]
fn smoke() {
    assert_eq!(2 + 2, 4);
}

#[test]
fn frame_line_preserves_direction_and_json() {
    let frame = Frame::send(json(r#"{"method": "initialize"}"#));
    let line = FrameLine::from(&frame);
    assert_eq!(line.direction, Direction::Send);
    assert_eq!(line.frame.to_text(), r#"{"method":"initialize"}"#);
}

#[test]
fn direction_serializes_lowercase() {
    let send = FrameLine::from(&Frame::send(Json::Null)).to_json();
    let recv = FrameLine::from(&Frame::recv(Json::Null)).to_json();
    assert_eq!(send.get("direction").map(|d| d.to_text()), Some(r#""send""#.to_string()));
    assert_eq!(recv.get("direction").map(|d| d.to_text()), Some(r#""recv""#.to_string()));
}

#[test]
fn parses_three_arguments() {
    let args = vec![
        "echo-agent".to_string(),
        "script.json".to_string(),
        "out.jsonl".to_string(),
    ];
    assert_eq!(
        parse_args(&args),
        Some(("echo-agent", "script.json", "out.jsonl"))
    );
}

#[test]
fn rejects_wrong_argument_count() {
    assert_eq!(parse_args(&vec![]), None);
    assert_eq!(parse_args(&vec!["a".to_string()]), None);
    assert_eq!(
        parse_args(&vec![
            "a".to_string(),
            "b".to_string(),
            "c".to_string(),
            "d".to_string()
        ]),
        None
    );
}

#[test]
fn renders_frames_as_jsonl() {
    let frames = vec![
        Frame::send(json(r#"{"method": "initialize", "id": 1}"#)),
        Frame::recv(json(r#"{"id": 1, "result": {"protocolVersion": 1}}"#)),
    ];
    let text = render_frames(&frames);
    let mut lines = text.lines();
    let first: Value = serde_json::from_str(lines.next().unwrap()).unwrap();
    let expected: Value = serde_json::from_str(
        r#"{"direction": "send", "frame": {"method": "initialize", "id": 1}}"#,
    )
    .unwrap();
    assert_eq!(first, expected);
    let second: Value = serde_json::from_str(lines.next().unwrap()).unwrap();
    let expected: Value = serde_json::from_str(
        r#"{"direction": "recv", "frame": {"id": 1, "result": {"protocolVersion": 1}}}"#,
    )
    .unwrap();
    assert_eq!(second, expected);
    assert!(lines.next().is_none());
}

#[test]
fn newlines_in_a_frame_do_not_break_its_line() {
    let text = render_frames(&vec![Frame::recv(Json::text("a\nb\r\n")), Frame::send(Json::uint(3))]);
    assert_eq!(
        text,
        "{\"direction\":\"recv\",\"frame\":\"a\\nb\\r\\n\"}\n{\"direction\":\"send\",\"frame\":3}\n"
    );
    assert_eq!(render_frames(&vec![]), "");
}
