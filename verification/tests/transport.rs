use ai_dx_mcp::gate_runner::IoErrorKind;
use ai_dx_mcp::transport::{
    content_length_header, decode_at_eof, decode_step, detect_mode, find_header_end, find_subslice,
    is_retryable_read_error, parse_usize, take_content_length_frame, take_ndjson_line, trim_leading_ascii_ws,
    DecodeStep, NdjsonFrame, MODE_CONTENT_LENGTH, MODE_NDJSON, MODE_UNKNOWN,
};

#[test]
fn header_end_detects_both_styles() {
    assert_eq!(find_header_end(b"Content-Length: 5\r\n\r\n{\"a\":1}"), Some((17, 4)));
    assert_eq!(find_header_end(b"Content-Length: 5\n\n{\"a\":1}"), Some((17, 2)));
}

#[test]
fn trim_leading_ws_works() {
    assert_eq!(trim_leading_ascii_ws(b"  \n\tabc"), b"abc");
    assert_eq!(trim_leading_ascii_ws(b"abc"), b"abc");
}

#[test]
fn retryable_read_errors_cover_wouldblock_and_interrupted() {
    assert!(is_retryable_read_error(IoErrorKind::WouldBlock, None));
    assert!(is_retryable_read_error(IoErrorKind::Interrupted, None));
    assert!(!is_retryable_read_error(IoErrorKind::BrokenPipe, None));
}

#[test]
fn retryable_read_errors_cover_raw_eagain_and_eintr() {
    assert!(is_retryable_read_error(IoErrorKind::Other, Some(11)));
    assert!(is_retryable_read_error(IoErrorKind::Other, Some(4)));
    assert!(!is_retryable_read_error(IoErrorKind::Other, Some(5)));
}

#[test]
fn find_subslice_finds_first_occurrence() {
    assert_eq!(find_subslice(b"abcabc", b"bc"), Some(1));
    assert_eq!(find_subslice(b"abc", b""), None);
    assert_eq!(find_subslice(b"ab", b"abc"), None);
}

#[test]
fn detect_mode_by_first_bytes() {
    assert_eq!(detect_mode(b"  content-LENGTH: 3"), Some(MODE_CONTENT_LENGTH));
    assert_eq!(detect_mode(b"\n{\"jsonrpc\":\"2.0\"}"), Some(MODE_NDJSON));
    assert_eq!(detect_mode(b"[1]"), Some(MODE_NDJSON));
    assert_eq!(detect_mode(b"   "), None);
    assert_eq!(detect_mode(b"hello"), None);
}

#[test]
fn content_length_frame_roundtrip() {
    let payload = b"{\"a\":1}".to_vec();
    let mut buf = content_length_header(payload.len()).into_bytes();
    buf.extend_from_slice(&payload);
    buf.extend_from_slice(b"rest");
    let body = take_content_length_frame(&mut buf).unwrap().unwrap();
    assert_eq!(body, payload);
    assert_eq!(buf, b"rest".to_vec());
}

#[test]
fn content_length_frame_waits_for_whole_body() {
    let mut buf = b"Content-Length: 10\r\n\r\nabc".to_vec();
    assert_eq!(take_content_length_frame(&mut buf).unwrap(), None);
    assert_eq!(buf, b"Content-Length: 10\r\n\r\nabc".to_vec());
}

#[test]
fn content_length_frame_errors() {
    let mut missing = b"X-Other: 1\r\n\r\n{}".to_vec();
    assert_eq!(
        take_content_length_frame(&mut missing).unwrap_err(),
        "missing Content-Length header in MCP frame"
    );
    let mut bad = b"content-length: 1x\n\n{}".to_vec();
    assert_eq!(
        take_content_length_frame(&mut bad).unwrap_err(),
        "invalid Content-Length value: invalid digit found in string"
    );
    let mut bad_utf8 = vec![0xffu8, b'\n', b'\n'];
    let err = take_content_length_frame(&mut bad_utf8).unwrap_err();
    assert!(err.starts_with("invalid content-length header utf8: "), "{err}");
}

#[test]
fn parse_usize_matches_std() {
    for s in ["0", "42", "+7", "", "+", "-1", "1x", "99999999999999999999999"] {
        let ours = parse_usize(s);
        let std = s.parse::<usize>().map_err(|e| e.to_string());
        assert_eq!(ours, std, "{s}");
    }
}

#[test]
fn ndjson_lines_are_taken_one_by_one() {
    let mut buf = b"{\"a\":1}\r\n  \n{\"b\":2}".to_vec();
    match take_ndjson_line(&mut buf) {
        NdjsonFrame::Line(l) => assert_eq!(l, b"{\"a\":1}".to_vec()),
        other => panic!("unexpected {other:?}"),
    }
    assert!(matches!(take_ndjson_line(&mut buf), NdjsonFrame::Blank));
    assert!(matches!(take_ndjson_line(&mut buf), NdjsonFrame::Incomplete));
    assert_eq!(buf, b"{\"b\":2}".to_vec());
}

#[test]
fn decode_step_switches_mode_then_reads() {
    let mut buf = b"{\"x\":1}\n".to_vec();
    match decode_step(MODE_UNKNOWN, &mut buf) {
        DecodeStep::SwitchMode(m) => assert_eq!(m, MODE_NDJSON),
        other => panic!("unexpected {other:?}"),
    }
    match decode_step(MODE_NDJSON, &mut buf) {
        DecodeStep::Message(m) => assert_eq!(m, b"{\"x\":1}".to_vec()),
        other => panic!("unexpected {other:?}"),
    }
    assert!(buf.is_empty());
}

#[test]
fn decode_at_eof_takes_trailing_line() {
    let mut buf = b"{\"y\":2}\n".to_vec();
    assert_eq!(decode_at_eof(MODE_UNKNOWN, &mut buf), Some(b"{\"y\":2}".to_vec()));
    let mut broken = b"Content-Length: x\n\n".to_vec();
    assert_eq!(decode_at_eof(MODE_CONTENT_LENGTH, &mut broken), None);
}

#[test]
fn content_length_header_format() {
    assert_eq!(content_length_header(12), "Content-Length: 12\r\n\r\n");
}
