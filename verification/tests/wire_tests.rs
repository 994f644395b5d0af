use accepted::wire::{encode_frame, parse_dec_bytes, split_header_line, HeaderAccum, HeaderStep};

#[test]
fn parse_dec_reads_plain_numbers() {
    assert_eq!(parse_dec_bytes(b"0"), Some(0));
    assert_eq!(parse_dec_bytes(b"42"), Some(42));
    assert_eq!(parse_dec_bytes(b"18446744073709551615"), Some(u64::MAX));
}

#[test]
fn parse_dec_rejects_empty_garbage_and_overflow() {
    assert_eq!(parse_dec_bytes(b""), None);
    assert_eq!(parse_dec_bytes(b"12a"), None);
    assert_eq!(parse_dec_bytes(b" 12"), None);
    assert_eq!(parse_dec_bytes(b"18446744073709551616"), None);
}

#[test]
fn encode_frame_produces_exact_framing() {
    let payload = b"{\"jsonrpc\":\"2.0\"}".to_vec();
    let framed = encode_frame(&payload);
    let expected = format!("Content-Length: {}\r\n\r\n{{\"jsonrpc\":\"2.0\"}}", payload.len());
    assert_eq!(framed, expected.into_bytes());
}

#[test]
fn encode_frame_empty_payload() {
    let framed = encode_frame(&Vec::new());
    assert_eq!(framed, b"Content-Length: 0\r\n\r\n".to_vec());
}

#[test]
fn split_header_line_splits_once() {
    let r = split_header_line(b"Content-Length: 18").unwrap();
    assert_eq!(r.0, b"Content-Length".to_vec());
    assert_eq!(r.1, b"18".to_vec());
}

#[test]
fn split_header_line_rejects_no_or_double_separator() {
    assert!(split_header_line(b"Content-Length18").is_none());
    assert!(split_header_line(b"a: b: c").is_none());
}

#[test]
fn header_block_yields_body_length() {
    let mut acc = HeaderAccum::new();
    assert_eq!(acc.feed_line(b"Content-Length: 7"), HeaderStep::Continue);
    assert_eq!(acc.feed_line(b"Content-Type: application/json"), HeaderStep::Continue);
    assert_eq!(acc.feed_line(b""), HeaderStep::Body(7));
}

#[test]
fn header_block_without_length_is_malformed() {
    let mut acc = HeaderAccum::new();
    assert_eq!(acc.feed_line(b"Content-Type: application/json"), HeaderStep::Continue);
    assert_eq!(acc.feed_line(b""), HeaderStep::Malformed);
}

#[test]
fn header_block_bad_length_is_malformed() {
    let mut acc = HeaderAccum::new();
    assert_eq!(acc.feed_line(b"Content-Length: x7"), HeaderStep::Malformed);
    let mut acc2 = HeaderAccum::new();
    assert_eq!(acc2.feed_line(b"NoSeparatorHere"), HeaderStep::Malformed);
}
