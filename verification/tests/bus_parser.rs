use micyou_voice_typing::bus_parser::parse_wdis_payload;

fn payload(start: i64, end: i64, text: &[u8]) -> Vec<u8> {
    let mut d = b"WDIS".to_vec();
    d.extend_from_slice(&start.to_le_bytes());
    d.extend_from_slice(&end.to_le_bytes());
    d.extend_from_slice(text);
    d
}

#[test]
fn decodes_times_and_text() {
    let m = parse_wdis_payload(&payload(1_700_000_000_123, -5, "你好 world".as_bytes())).unwrap();
    assert_eq!(m.start_ms, 1_700_000_000_123);
    assert_eq!(m.end_ms, -5);
    assert_eq!(m.text, "你好 world");
}

#[test]
fn empty_text_is_allowed() {
    let m = parse_wdis_payload(&payload(1, 2, b"")).unwrap();
    assert_eq!(m.text, "");
}

#[test]
fn invalid_utf8_is_replaced() {
    let m = parse_wdis_payload(&payload(1, 2, &[b'a', 0xff, b'b'])).unwrap();
    assert_eq!(m.text, "a\u{FFFD}b");
}

#[test]
fn short_or_foreign_payloads_are_refused() {
    assert!(parse_wdis_payload(&payload(1, 2, b"")[..19]).is_none());
    let mut d = payload(1, 2, b"x");
    d[0] = b'w';
    assert!(parse_wdis_payload(&d).is_none());
    assert!(parse_wdis_payload(&[]).is_none());
}

#[test]
fn extreme_times_round_trip() {
    for &(a, b) in &[(i64::MIN, i64::MAX), (-1, 0), (0x0102_0304_0506_0708, -256)] {
        let m = parse_wdis_payload(&payload(a, b, b"ok")).unwrap();
        assert_eq!(m.start_ms, a);
        assert_eq!(m.end_ms, b);
        assert_eq!(m.text, "ok");
    }
}
