use micyou_voice_typing::hotkey::{
    key_to_vk, parse_combo, Combo, Cue, HotkeyEngine, Settings, TriggerMode, DEFAULT_HOTKEY, VK_LCONTROL,
    VK_LSHIFT, VK_RCONTROL, WM_KEYDOWN, WM_KEYUP,
};
use micyou_voice_typing::state_machine::TimeWindowStateMachine;

#[test]
fn parses_default_modifier_only_combo() {
    let c = parse_combo("lctrl+lshift").unwrap();
    assert_eq!(c.main_vk, 0);
    assert_eq!(c.mod_count(), 2);
    assert!(c.exact_mods.contains(&VK_LCONTROL));
    assert!(c.exact_mods.contains(&VK_LSHIFT));
    assert_eq!(c.to_string(), "lctrl+lshift");
}

#[test]
fn parses_mixed_mods_and_main_key() {
    let c = parse_combo("Ctrl + Shift + F8").unwrap();
    assert!(c.any_ctrl && c.any_shift);
    assert_eq!(c.main_vk, 0x77); // VK_F8
    let c2 = parse_combo("alt+space").unwrap();
    assert_eq!(c2.main_vk, 0x20);
    let c3 = parse_combo("lalt+rwin+a").unwrap();
    assert_eq!(c3.main_vk, 0x41);
}

#[test]
fn bare_fkey_allowed_bare_letter_rejected() {
    assert!(parse_combo("f13").is_ok());
    assert!(parse_combo("a").is_err());
    assert!(parse_combo("space").is_err());
    assert!(parse_combo("ctrl+a").is_ok());
}

#[test]
fn single_modifier_only_combo_rejected() {
    assert!(parse_combo("lctrl").is_err());
    assert!(parse_combo("shift").is_err());
    assert!(parse_combo("lctrl+rctrl").is_ok());
}

#[test]
fn invalid_inputs_rejected() {
    assert!(parse_combo("").is_err());
    assert!(parse_combo("  +  ").is_err());
    assert!(parse_combo("ctrl+nope").is_err());
    assert!(parse_combo("ctrl+a+b").is_err());
    assert!(parse_combo("mouse4").is_err());
}

#[test]
fn duplicate_tokens_are_idempotent() {
    assert_eq!(parse_combo("lctrl+lctrl+lshift").unwrap().mod_count(), 2);
}

#[test]
fn default_hotkey_constant_parses() {
    assert!(parse_combo(DEFAULT_HOTKEY).is_ok());
}

// ─────────────── further cases ───────────────

#[test]
fn error_messages_name_the_fault() {
    assert_eq!(parse_combo("").unwrap_err(), "快捷键不能为空");
    assert_eq!(parse_combo("ctrl+nope").unwrap_err(), "无法识别的键名: nope");
    assert_eq!(
        parse_combo("ctrl+a+B").unwrap_err(),
        "快捷键只能有一个主键（多余 token: b）"
    );
    assert_eq!(parse_combo("x2").unwrap_err(), "鼠标侧键暂不支持：本插件仅监听键盘");
    assert_eq!(
        parse_combo("space").unwrap_err(),
        "字母/数字/普通键作主键时必须搭配至少一个修饰键（ctrl/alt/shift/win）；无修饰键时仅支持 F1-F24"
    );
    assert_eq!(
        parse_combo("lctrl").unwrap_err(),
        "纯修饰键组合至少需要两个修饰键（如 lctrl+lshift），避免误触"
    );
}

#[test]
fn key_names_map_to_virtual_keys() {
    assert_eq!(parse_combo("ctrl+9").unwrap().main_vk, 0x39);
    assert_eq!(parse_combo("ctrl+f1").unwrap().main_vk, 0x70);
    assert_eq!(parse_combo("f24").unwrap().main_vk, 0x87);
    assert_eq!(parse_combo("f024").unwrap().main_vk, 0x87);
    assert!(parse_combo("f25").is_err());
    assert!(parse_combo("f0").is_err());
    assert_eq!(parse_combo("ctrl+return").unwrap().main_vk, 0x0D);
    assert_eq!(parse_combo("ctrl+grave").unwrap().main_vk, 0xC0);
    assert_eq!(parse_combo("command+Dot").unwrap().main_vk, 0xBE);
}

#[test]
fn display_round_trips() {
    for text in [
        "lctrl+lshift",
        "ctrl+shift+f8",
        "alt+space",
        "lalt+rwin+a",
        "rctrl+lctrl+win+backquote",
        "f13",
        "shift+0",
    ] {
        let c = parse_combo(text).unwrap();
        let shown = c.to_string();
        assert_eq!(shown, text);
        assert!(parse_combo(&shown).unwrap() == c);
    }
    assert_eq!(parse_combo("Control+Option+Esc").unwrap().to_string(), "ctrl+alt+esc");
}

#[test]
fn unusual_key_codes_display_in_hex() {
    let mut c = parse_combo("ctrl+a").unwrap();
    c.main_vk = 0x07;
    assert_eq!(c.to_string(), "ctrl+vk:0x07");
    c.main_vk = 0x1ff;
    assert_eq!(c.to_string(), "ctrl+vk:0x1ff");
}

#[test]
fn trigger_mode_parse_and_text() {
    assert_eq!(TriggerMode::parse(" push_to_talk "), TriggerMode::PushToTalk);
    assert_eq!(TriggerMode::parse("toggle"), TriggerMode::Toggle);
    assert_eq!(TriggerMode::parse("anything"), TriggerMode::Toggle);
    assert_eq!(TriggerMode::parse(TriggerMode::PushToTalk.as_str()), TriggerMode::PushToTalk);
    assert_eq!(TriggerMode::Toggle.as_str(), "toggle");
}

fn engine(combo: &str, mode: TriggerMode) -> HotkeyEngine {
    let mut e = HotkeyEngine::new();
    e.attach(TimeWindowStateMachine::new(1500), Settings { combo: parse_combo(combo).unwrap(), mode });
    e
}

#[test]
fn toggle_press_release_press_makes_one_session() {
    let mut e = engine("lctrl+lshift", TriggerMode::Toggle);
    assert_eq!(e.press_edge(TriggerMode::Toggle, 100), Some(Cue::Start));
    assert_eq!(e.press_edge(TriggerMode::Toggle, 150), None); // auto-repeat
    assert_eq!(e.release_edge(TriggerMode::Toggle, 200), None);
    assert_eq!(e.press_edge(TriggerMode::Toggle, 900), Some(Cue::End));
    let sm = e.sm.unwrap();
    assert!(!sm.is_active);
    assert_eq!((sm.last_session_start, sm.last_session_end), (100, 900));
}

#[test]
fn push_to_talk_ends_on_release() {
    let mut e = engine("lctrl+lshift", TriggerMode::PushToTalk);
    assert_eq!(e.press_edge(TriggerMode::PushToTalk, 10), Some(Cue::Start));
    assert_eq!(e.release_edge(TriggerMode::PushToTalk, 70), Some(Cue::End));
    let sm = e.sm.unwrap();
    assert_eq!((sm.last_session_start, sm.last_session_end), (10, 70));
}

#[test]
fn main_key_is_swallowed_modifier_only_is_not() {
    let mut e = engine("ctrl+shift+f8", TriggerMode::Toggle);
    let held = vec![VK_RCONTROL, 0xA0, 0x77];
    let v = e.key_event(0x77, WM_KEYDOWN, &held, 5);
    assert!(v.swallow);
    assert_eq!(v.cue, Some(Cue::Start));
    let v = e.key_event(0x77, WM_KEYUP, &vec![VK_RCONTROL, 0xA0], 6);
    assert!(v.swallow);
    assert_eq!(v.cue, None);

    let mut m = engine("lctrl+lshift", TriggerMode::Toggle);
    let v = m.key_event(VK_LSHIFT, WM_KEYDOWN, &vec![VK_LCONTROL, VK_LSHIFT], 5);
    assert!(!v.swallow);
    assert_eq!(v.cue, Some(Cue::Start));
    assert!(m.sm.unwrap().is_active);
}

#[test]
fn inert_engine_never_triggers() {
    let mut e = HotkeyEngine::new();
    e.attach(TimeWindowStateMachine::new(1500), e.current_settings());
    let v = e.key_event(VK_LCONTROL, WM_KEYDOWN, &vec![VK_LCONTROL, VK_LSHIFT], 1);
    assert!(!v.swallow);
    assert_eq!(v.cue, None);
    assert!(!e.sm.unwrap().is_active);
}

#[test]
fn update_settings_ends_push_to_talk_session() {
    let mut e = engine("lctrl+lshift", TriggerMode::PushToTalk);
    e.press_edge(TriggerMode::PushToTalk, 10);
    let new = Settings { combo: parse_combo("ctrl+f9").unwrap(), mode: TriggerMode::Toggle };
    let (cue, log) = e.update_settings(new, 40);
    assert_eq!(cue, Some(Cue::End));
    assert_eq!(log.unwrap(), "hotkey settings applied: [ctrl+f9] mode=toggle");
    assert!(!e.combo_held && !e.swallowed_main);
    let (cue, log) = e.update_settings(new, 50);
    assert_eq!(cue, None);
    assert!(log.is_none());
}

#[test]
fn watched_keys_cover_the_combo() {
    let c: Combo = parse_combo("lalt+shift+f8").unwrap();
    let mut keys = c.watched_keys();
    keys.sort();
    assert_eq!(keys, vec![0x77, 0xA0, 0xA1, 0xA4]);
    assert!(c.is_down(&keys));
    assert!(!c.is_down(&vec![0x77, 0xA4]));
    assert!(c.mods_down(&vec![0xA1, 0xA4]));
}

#[test]
fn disarm_makes_combo_inert() {
    let mut e = engine("ctrl+a", TriggerMode::Toggle);
    e.disarm();
    assert!(e.current_settings().combo.is_empty());
}


fn chars(s: &str) -> Vec<char> {
    s.chars().collect()
}

#[test]
fn fkey_number_reads_like_u16_from_str() {
    assert_eq!(key_to_vk(&chars("f8")), Some(0x77));
    assert_eq!(key_to_vk(&chars("f+8")), Some(0x77));
    assert_eq!(key_to_vk(&chars("f008")), Some(0x77));
    assert_eq!(key_to_vk(&chars("f+24")), Some(0x87));
    assert_eq!(key_to_vk(&chars("f+")), None);
    assert_eq!(key_to_vk(&chars("f++8")), None);
    assert_eq!(key_to_vk(&chars("f-8")), None);
    assert_eq!(key_to_vk(&chars("f+0")), None);
    assert_eq!(key_to_vk(&chars("f25")), None);
    assert_eq!(key_to_vk(&chars("f99999")), None);
}
