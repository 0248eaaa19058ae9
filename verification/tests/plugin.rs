use micyou_voice_typing::hotkey::{parse_combo, TriggerMode, DEFAULT_HOTKEY};
use micyou_voice_typing::plugin::{
    classify_message, config_value, host_reply_text, resolve_combo, retry_len,
    settings_from_config, volume_percent, HostMessage, MPL_ERR_BUFFER_TOO_SMALL, MPL_OK,
};

#[test]
fn settings_topics_reload() {
    assert!(matches!(classify_message("config:changed", &[]), HostMessage::ReloadSettings));
    assert!(matches!(classify_message("ui:apply", b"WDIS"), HostMessage::ReloadSettings));
}

#[test]
fn transcripts_are_recognised() {
    let mut d = b"WDIS".to_vec();
    d.extend_from_slice(&5i64.to_le_bytes());
    d.extend_from_slice(&9i64.to_le_bytes());
    d.extend_from_slice(b"hello");
    match classify_message("wdis:sentence", &d) {
        HostMessage::Transcript(m) => {
            assert_eq!((m.start_ms, m.end_ms, m.text.as_str()), (5, 9, "hello"));
        }
        _ => panic!("expected a transcript"),
    }
    assert!(matches!(classify_message("", &d[..19]), HostMessage::Ignore));
}

#[test]
fn host_buffers_are_read_to_the_reported_size() {
    assert_eq!(retry_len(MPL_ERR_BUFFER_TOO_SMALL, 5000), Some(5001));
    assert_eq!(retry_len(MPL_OK, 5000), None);
    assert_eq!(host_reply_text(MPL_OK, b"abcdef", 3).unwrap(), "abc");
    assert_eq!(host_reply_text(MPL_OK, b"ab", 9).unwrap(), "ab");
    assert!(host_reply_text(1, b"ab", 2).is_none());
}

#[test]
fn config_values_lose_whitespace_and_quotes() {
    assert_eq!(config_value("  \"toggle\"\n"), "toggle");
    assert_eq!(config_value("\"\""), "");
    assert_eq!(config_value("80"), "80");
}

#[test]
fn refused_combo_falls_back_with_a_warning() {
    let fallback = parse_combo(DEFAULT_HOTKEY).unwrap();
    let (c, warn) = resolve_combo("ctrl+nope", fallback);
    assert!(c == fallback);
    assert_eq!(
        warn.unwrap(),
        "无效快捷键 [ctrl+nope]：无法识别的键名: nope；沿用 [lctrl+lshift]"
    );
    let (c, warn) = resolve_combo("alt+f4", fallback);
    assert_eq!(c.main_vk, 0x73);
    assert!(warn.is_none());
}

#[test]
fn configuration_selects_settings() {
    let fallback = parse_combo("ctrl+f9").unwrap();
    let (s, warn) = settings_from_config(None, Some("   ".to_string()), fallback);
    assert_eq!(s.mode, TriggerMode::Toggle);
    assert!(s.combo == parse_combo(DEFAULT_HOTKEY).unwrap());
    assert!(warn.is_none());
    let (s, warn) =
        settings_from_config(Some("push_to_talk".to_string()), Some("a".to_string()), fallback);
    assert_eq!(s.mode, TriggerMode::PushToTalk);
    assert!(s.combo == fallback);
    assert!(warn.is_some());
}

#[test]
fn volume_configuration_is_clamped_to_percent() {
    assert_eq!(volume_percent(None), 100);
    assert_eq!(volume_percent(Some("80".to_string())), 80);
    assert_eq!(volume_percent(Some("0".to_string())), 0);
    assert_eq!(volume_percent(Some("250".to_string())), 100);
    assert_eq!(volume_percent(Some("99999999999".to_string())), 100);
    assert_eq!(volume_percent(Some("-5".to_string())), 0);
    assert_eq!(volume_percent(Some("loud".to_string())), 100);
    assert_eq!(volume_percent(Some("".to_string())), 100);
}
