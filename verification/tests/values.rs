//! Texts, maps and JSON values, and the protocol's types in JSON.

use acp_adapter::acp::{ContentBlock, ToolCallContent, ToolCallLocation, ToolKind};
use acp_adapter::json::{Json, Object};
use acp_adapter::strmap::{StrMap, StrSet};
use acp_adapter::strs::{
    contains, decimal_text, is_whitespace, join, lines, split, starts_with, strip_prefix,
    strip_suffix, trim, trim_end, word,
};
use agent_client_protocol::schema::v1 as protocol;
use serde_json::Value;

fn json(text: &str) -> Json {
    Json::parse_str(text).expect("valid JSON")
}

#[test]
fn white_space_is_that_of_the_standard_library() {
    for c in '\0'..=char::MAX {
        assert_eq!(is_whitespace(c), c.is_whitespace(), "{:?}", c);
    }
}

#[test]
fn text_functions_agree_with_the_standard_library() {
    let samples = [
        "", " ", "a", " a ", "\u{3000}a b\t\n", "a\nb\r\nc", "\n\n", "\r\n", "x:y::z:", "/a/b/", "äöü",
    ];
    for s in samples {
        assert_eq!(trim(s), s.trim());
        assert_eq!(trim_end(s), s.trim_end());
        assert_eq!(word(s), s.split_whitespace().next().unwrap_or(""));
        assert_eq!(lines(s), s.lines().collect::<Vec<_>>());
        assert_eq!(split(s, ':'), s.split(':').collect::<Vec<_>>());
        for t in samples {
            assert_eq!(contains(s, t), s.contains(t), "{s:?} {t:?}");
            assert_eq!(starts_with(s, t), s.starts_with(t));
            assert_eq!(strip_prefix(s, t).as_deref(), s.strip_prefix(t));
            assert_eq!(strip_suffix(s, t).as_deref(), s.strip_suffix(t));
        }
    }
    assert_eq!(join(&vec!["a".into(), "b".into(), "".into()], ", "), "a, b, ");
    assert_eq!(join(&vec![], ", "), "");
    assert_eq!(decimal_text(0), "0");
    assert_eq!(decimal_text(u128::MAX), u128::MAX.to_string());
}

#[test]
fn maps_and_sets_of_texts() {
    let mut map: StrMap<u64> = StrMap::new();
    map.insert("a", 1);
    map.insert("b", 2);
    map.insert("a", 3);
    assert_eq!(map.get("a"), Some(&3));
    assert!(map.contains("b") && !map.contains("c"));
    assert_eq!(map.remove("a"), Some(3));
    assert_eq!(map.remove("a"), None);
    assert_eq!(map.get("b"), Some(&2));
    map.clear();
    assert!(!map.contains("b"));
    let mut set = StrSet::new();
    assert!(set.insert("x"));
    assert!(!set.insert("x"));
    assert!(set.contains("x"));
    set.remove("x");
    assert!(!set.contains("x"));
}

#[test]
fn json_is_read_and_printed() {
    for text in [
        "null",
        "true",
        "-3",
        "18446744073709551615",
        "1.5",
        "-0.0",
        "1e300",
        r#""a\"\\\n\u0001ü""#,
        "[]",
        r#"[1,[2,{"a":null}]]"#,
        r#"{"z":1,"a":{"b":[true,false]},"m":"x"}"#,
    ] {
        let expected: Value = serde_json::from_str(text).expect("valid JSON");
        assert_eq!(json(text).to_text(), expected.to_string(), "{text}");
        assert_eq!(
            json(text).to_pretty(),
            serde_json::to_string_pretty(&expected).unwrap(),
            "{text}"
        );
        // Reading what was printed gives the same.
        assert_eq!(json(&json(text).to_text()).to_text(), expected.to_string());
    }
    for text in ["", "{", "[1,]", "nul", "1 2", "{\"a\":1,}", "\"\n\""] {
        assert!(Json::parse_str(text).is_none(), "{text}");
        assert!(serde_json::from_str::<Value>(text).is_err());
    }
    assert!(Json::parse(&[0xff]).is_none());
    assert!(Json::parse(b" {\"a\" : 1 } ").is_some());
    // The last of two entries under one key counts, in the place of the first.
    assert_eq!(json(r#"{"a":1,"b":2,"a":3}"#).to_text(), r#"{"a":3,"b":2}"#);
}

#[test]
fn json_numbers_are_read_as_they_are() {
    assert_eq!(json("3").as_u64(), Some(3));
    assert_eq!(json("3").as_i64(), Some(3));
    assert_eq!(json("-3").as_u64(), None);
    assert_eq!(json("-3").as_i64(), Some(-3));
    assert_eq!(json("3.0").as_u64(), None);
    assert_eq!(json("9223372036854775808").as_i64(), None);
    assert_eq!(json("9223372036854775808").as_u64(), Some(9223372036854775808));
    assert_eq!(Json::uint(7).to_text(), "7");
    assert_eq!(Json::signed(-7).to_text(), "-7");
    assert_eq!(Json::signed(7).as_u64(), Some(7));
}

#[test]
fn stored_entries_are_found() {
    let mut object = Object::new();
    object.insert("a", Json::uint(1));
    object.insert("b", Json::uint(2));
    object.insert("a", Json::text("x"));
    assert_eq!(object.len(), 2);
    assert_eq!(object.key_at(0), "a");
    assert_eq!(object.get("a").and_then(|j| j.as_str()), Some("x"));
    assert_eq!(object.get("b").and_then(|j| j.as_u64()), Some(2));
    assert!(object.get("c").is_none());
    let j = Json::Object(object).with("c", Json::Bool(true));
    assert_eq!(j.to_text(), r#"{"a":"x","b":2,"c":true}"#);
    assert_eq!(j.copy().to_text(), j.to_text());
    assert_eq!(j.get_bool("c"), Some(true));
    assert_eq!(Json::text("not an object").get("a").map(|_| ()), None);
}

#[test]
fn tool_kinds_are_spelled_as_in_the_protocol() {
    for (ours, theirs) in [
        (ToolKind::Read, protocol::ToolKind::Read),
        (ToolKind::Edit, protocol::ToolKind::Edit),
        (ToolKind::Search, protocol::ToolKind::Search),
        (ToolKind::Execute, protocol::ToolKind::Execute),
        (ToolKind::Think, protocol::ToolKind::Think),
        (ToolKind::Fetch, protocol::ToolKind::Fetch),
        (ToolKind::SwitchMode, protocol::ToolKind::SwitchMode),
        (ToolKind::Other, protocol::ToolKind::Other),
    ] {
        assert_eq!(serde_json::to_value(theirs).unwrap(), ours.as_str());
    }
}

#[test]
fn content_and_locations_are_printed_as_in_the_protocol() {
    let text = ToolCallContent::Content { content: ContentBlock::Text { text: "t".into() } };
    let theirs = protocol::ToolCallContent::Content(protocol::Content::new(
        protocol::ContentBlock::Text(protocol::TextContent::new("t")),
    ));
    assert_eq!(text.to_json().to_text(), serde_json::to_value(theirs).unwrap().to_string());

    let image = ToolCallContent::Content {
        content: ContentBlock::Image { data: "QUJD".into(), mime_type: "image/png".into() },
    };
    let theirs = protocol::ToolCallContent::Content(protocol::Content::new(
        protocol::ContentBlock::Image(protocol::ImageContent::new("QUJD", "image/png")),
    ));
    assert_eq!(image.to_json().to_text(), serde_json::to_value(theirs).unwrap().to_string());

    for old in [None, Some("o")] {
        let diff = ToolCallContent::Diff {
            path: "/a".into(),
            old_text: old.map(String::from),
            new_text: "n".into(),
        };
        let theirs = protocol::ToolCallContent::Diff(
            protocol::Diff::new("/a", "n").old_text(old.map(String::from)),
        );
        assert_eq!(diff.to_json().to_text(), serde_json::to_value(theirs).unwrap().to_string());
    }

    for line in [None, Some(3)] {
        let location = ToolCallLocation { path: "/a".into(), line };
        let theirs = protocol::ToolCallLocation::new("/a").line(line);
        assert_eq!(location.to_json().to_text(), serde_json::to_value(theirs).unwrap().to_string());
    }
}
