//! Lines of JSON, read from bytes that come in any pieces.

use acp_adapter::codec::{encode_frame, parse_line, parse_lines, CodecError, LineCodec};
use acp_adapter::json::Json;

#[test]
fn inv_01_garbage_line_skipped() {
    let mut codec = LineCodec::new();
    let mut out = Vec::new();
    codec.push(b"this is not json\n{\"type\":\"result\"}\n", &mut out);
    assert_eq!(out.len(), 2);
    // Garbage line -> skipped.
    assert!(parse_line(&out[0]).is_none());
    // Next valid line parses.
    let value = parse_line(&out[1]).expect("valid line parses");
    assert_eq!(value.get_str("type"), Some("result"));
}

#[test]
fn inv_02_partial_and_huge_lines() {
    // A message split across 3 reads reassembles.
    let mut codec = LineCodec::new();
    let mut out = Vec::new();
    codec.push(b"{\"a\":", &mut out);
    codec.push(b"[1,2,", &mut out);
    codec.push(b"3]}\n", &mut out);
    assert_eq!(out.len(), 1);
    let value = parse_line(&out[0]).expect("reassembled line parses");
    assert_eq!(value.get("a").map(|a| a.to_text()), Some("[1,2,3]".to_string()));

    // A 10 MB single line parses.
    let payload = "x".repeat(10 * 1024 * 1024);
    let mut big = Vec::new();
    big.extend_from_slice(b"{\"type\":\"user\",\"big\":\"");
    big.extend_from_slice(payload.as_bytes());
    big.extend_from_slice(b"\"}\n");
    let mut codec2 = LineCodec::new();
    let mut out2 = Vec::new();
    codec2.push(&big, &mut out2);
    assert_eq!(out2.len(), 1);
    let value = parse_line(&out2[0]).expect("10 MB line parses");
    assert_eq!(value.get_str("big").map(str::len), Some(payload.len()));
}

#[test]
fn inv_03_utf8_split() {
    // U+1F600 GRINNING FACE is a 4-byte UTF-8 sequence: f0 9f 98 80.
    let bytes = "{\"emoji\":\"\u{1F600}\"}".as_bytes();
    assert_eq!(bytes[9..13].len(), 4);

    let mut codec = LineCodec::new();
    let mut out = Vec::new();
    // Split the 4-byte char across 3 reads (and split mid-line generally).
    codec.push(&bytes[..9], &mut out); // up to but not incl. first emoji byte
    codec.push(&bytes[9..11], &mut out); // f0 9f
    codec.push(&bytes[11..], &mut out); // 98 80 } and newline
    codec.push(b"\n", &mut out);
    assert_eq!(out.len(), 1);
    let value = parse_line(&out[0]).expect("utf8 line parses");
    assert_eq!(value.get_str("emoji"), Some("\u{1F600}"));
}

#[test]
fn inv_32_codec_cancel_safe() {
    let total: u64 = 200;
    let mut input = Vec::new();
    for i in 0..total {
        input.extend_from_slice(format!("{{\"i\":{i}}}\n").as_bytes());
    }
    // The reader stops after each few bytes, whatever it is in the middle of,
    // and goes on later: every line arrives, in order, none lost.
    let mut codec = LineCodec::new();
    let mut lines: Vec<Vec<u8>> = Vec::new();
    for piece in input.chunks(7) {
        codec.push(piece, &mut lines);
    }
    codec.finish(&mut lines);
    let seen: Vec<u64> =
        parse_lines(&lines).iter().map(|v| v.get_u64("i").expect("i is an int")).collect();
    assert_eq!(seen, (0..total).collect::<Vec<u64>>());
}

#[test]
fn carriage_returns_and_blank_lines_go() {
    let mut codec = LineCodec::new();
    let mut out = Vec::new();
    codec.push(b"{\"a\":1}\r\n\n\r\n{\"b\":2}", &mut out);
    assert_eq!(parse_lines(&out).len(), 1);
    assert!(!codec.is_empty());
    codec.finish(&mut out);
    assert!(codec.is_empty());
    let values = parse_lines(&out);
    assert_eq!(values.len(), 2);
    assert_eq!(values[1].get_u64("b"), Some(2));
    // Finishing again gives nothing more.
    let before = out.len();
    codec.finish(&mut out);
    assert_eq!(out.len(), before);
}

#[test]
fn pieces_do_not_matter() {
    let input: &[u8] = b"{\"a\":1}\nnope\r\n{\"b\":\"x\\ny\"}\n{\"c\"";
    let mut whole = LineCodec::default();
    let mut expected = Vec::new();
    whole.push(input, &mut expected);
    for size in 1..input.len() {
        let mut codec = LineCodec::new();
        let mut out = Vec::new();
        for piece in input.chunks(size) {
            codec.push(piece, &mut out);
        }
        assert_eq!(out, expected, "pieces of {size} bytes");
        assert_eq!(codec.is_empty(), whole.is_empty());
    }
}

#[test]
fn written_frame_is_one_line_and_is_read_back() {
    let frame = Json::object()
        .with("text", Json::text("line one\nline two\r\u{1F600}\""))
        .with("n", Json::signed(-3))
        .with("list", Json::array(vec![Json::Null, Json::Bool(true)]));
    let bytes = encode_frame(&frame);
    assert_eq!(bytes.iter().filter(|b| **b == b'\n').count(), 1);
    assert_eq!(bytes.last(), Some(&b'\n'));
    let mut codec = LineCodec::new();
    let mut out = Vec::new();
    codec.push(&bytes, &mut out);
    codec.push(b"{\"next\":1}\n", &mut out);
    let values = parse_lines(&out);
    assert_eq!(values.len(), 2);
    assert_eq!(values[0].to_text(), frame.to_text());
}

#[test]
fn read_error_is_described() {
    assert_eq!(
        CodecError::Read("broken".to_string()).describe(),
        "failed to read child stdout: broken"
    );
}
