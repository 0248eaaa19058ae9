use micyou_voice_typing::typer::Typer;

#[test]
fn types_utf16_units_and_separates_alphanumeric_runs() {
    let mut t = Typer::new();
    assert_eq!(t.inject("Hi"), vec![0x48, 0x69]);
    assert!(t.last_char_was_alphanumeric);
    assert_eq!(t.inject("you"), vec![0x20, 0x79, 0x6F, 0x75]);
    assert_eq!(t.inject(", ok."), vec![0x2C, 0x20, 0x6F, 0x6B, 0x2E]);
    assert!(!t.last_char_was_alphanumeric);
    assert_eq!(t.inject("go"), vec![0x67, 0x6F]);
}

#[test]
fn astral_characters_become_surrogate_pairs() {
    let mut t = Typer::new();
    assert_eq!(t.inject("😀"), vec![0xD83D, 0xDE00]);
    assert_eq!(t.inject("中"), vec![0x4E2D]);
    assert!(t.last_char_was_alphanumeric);
}

#[test]
fn empty_text_keeps_the_state() {
    let mut t = Typer::new();
    t.inject("a");
    assert!(t.inject("").is_empty());
    assert!(t.last_char_was_alphanumeric);
}
