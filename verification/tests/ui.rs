use micyou_voice_typing::ui::{overlay_placement, Placement, ACTIVE_COLOR, IDLE_COLOR};

#[test]
fn marker_goes_below_the_caret() {
    let p = overlay_placement(Some((300, 400)), (0, 0), 1920, true);
    assert_eq!(p, Placement { x: 300, y: 405, color: ACTIVE_COLOR });
}

#[test]
fn marker_follows_the_cursor_without_caret() {
    let p = overlay_placement(None, (50, 60), 1920, false);
    assert_eq!(p, Placement { x: 60, y: 80, color: IDLE_COLOR });
}

#[test]
fn marker_stays_on_screen() {
    let p = overlay_placement(Some((1900, 10)), (0, 0), 1920, false);
    assert_eq!(p.x, 1820);
}
