use micyou_voice_typing::state_machine::{TimeWindowStateMachine, GRACE_PERIOD_MS};

#[test]
fn new_machine_types_nothing() {
    let sm = TimeWindowStateMachine::new(GRACE_PERIOD_MS);
    assert!(!sm.is_active);
    assert!(!sm.has_finished_session);
    assert!(!sm.should_inject(0, 0));
    assert!(!sm.should_inject(1500, 2000));
    assert!(!sm.should_inject(i64::MIN, i64::MAX));
}

#[test]
fn copies_are_independent_machines() {
    let sm = TimeWindowStateMachine::new(GRACE_PERIOD_MS);
    let mut other = sm;
    other.on_activate(5);
    assert!(other.is_active);
    assert!(!sm.is_active);
}

#[test]
fn running_session_accepts_sentences_ending_after_its_start() {
    let mut sm = TimeWindowStateMachine::new(1500);
    sm.on_activate(10_000);
    assert!(sm.should_inject(9_000, 10_000));
    assert!(!sm.should_inject(9_000, 9_999));
    sm.on_activate(20_000); // second activation keeps the start
    assert_eq!(sm.current_session_start, 10_000);
}

#[test]
fn finished_session_has_a_grace_period() {
    let mut sm = TimeWindowStateMachine::new(1500);
    sm.on_activate(10_000);
    sm.on_deactivate(12_000);
    assert!(sm.should_inject(13_500, 14_000));
    assert!(!sm.should_inject(13_501, 14_000));
    assert!(!sm.should_inject(8_000, 9_999));
    assert!(sm.should_inject(8_000, 10_000));
    sm.on_deactivate(50_000); // no session running: nothing changes
    assert_eq!((sm.last_session_start, sm.last_session_end), (10_000, 12_000));
}

#[test]
fn grace_window_does_not_overflow() {
    let mut sm = TimeWindowStateMachine::new(i64::MAX);
    sm.on_activate(0);
    sm.on_deactivate(i64::MAX);
    assert!(sm.should_inject(i64::MAX, i64::MAX));
}
