use bevy::input::keyboard::KeyCode;
use inlet::org::{ClashSettings, InputHandler, InputStateKind, PollResult};
use inlet::time::{Duration, Instant};
use inlet::{BevyInputKind, InputValue};

fn key(k: KeyCode) -> BevyInputKind {
    k.into()
}

fn wait_millis(ms: u64) {
    let start = Instant::now();
    while start.elapsed().as_millis() < ms as u128 {}
}

#[test]
fn org_settings_and_defaults() {
    assert!(ClashSettings::Unbuffered.needs_sorting());
    assert!(!ClashSettings::Buffered(None).needs_sorting());
    let mut h = InputHandler::default();
    assert_eq!(*h.settings(), ClashSettings::Buffered(Some(Duration::from_millis(10))));
    assert!(h.should_rescan());
    h.signal_rescan();
    assert!(h.should_rescan());
    assert_eq!(h.frame(), 0);
    assert_ne!(PollResult::RePoll, PollResult::Nothing);
    assert_eq!(PollResult::Use(InputValue::Pressed(true)), PollResult::Use(InputValue::Pressed(true)));
}

#[test]
fn org_state_kind_helpers() {
    assert!(InputStateKind::clashing(2).repoll());
    assert!(!InputStateKind::released(2).repoll());
    assert!(InputStateKind::clashable().is_clashable());
    assert!(!InputStateKind::default().is_clashable());
    assert!(matches!(InputStateKind::buffered(3), InputStateKind::Buffered(_, 3)));
    let t = Instant::from_nanos(7);
    let mut k = InputStateKind::buffered_with_instant(4, t);
    assert_eq!(k, InputStateKind::Buffered(t, 4));
    k.replace(InputStateKind::Unclashable);
    assert_eq!(k, InputStateKind::Unclashable);
}

#[test]
fn org_update_list_marks_shared_inputs() {
    let a = key(KeyCode::KeyA);
    let b = key(KeyCode::KeyB);
    let mut h = InputHandler::default();
    h.update_list(&[a, b, a]);
    assert_eq!(h.input_kinds().len(), 2);
    assert_eq!(h.state_of(&a).unwrap().kind, InputStateKind::Clashable);
    assert_eq!(h.state_of(&b).unwrap().kind, InputStateKind::Unclashable);
}

#[test]
fn org_poll_counts_pressed_inputs_from_one() {
    let a = key(KeyCode::KeyA);
    let x = key(KeyCode::KeyX);
    let mut h = InputHandler::default();
    h.update_list(&[a, a]);
    h.set_value(&a, InputValue::Pressed(true));
    assert_eq!(h.poll(&[]), Some(InputValue::Pressed(false)));
    // one pressed input counted from one does not reach a chord of one
    assert_eq!(h.poll(&[a]), Some(InputValue::Pressed(false)));
    assert_eq!(h.state_of(&a).unwrap().kind, InputStateKind::Clashable);
    // it reaches a chord of two whose other input is unknown: the input is buffered
    assert_eq!(h.poll(&[a, x]), Some(InputValue::Pressed(false)));
    assert!(matches!(h.state_of(&a).unwrap().kind, InputStateKind::Buffered(_, 2)));
    assert!(h.state_of(&x).is_none());
}

#[test]
fn org_buffer_releases_after_delay() {
    let a = key(KeyCode::KeyA);
    let x = key(KeyCode::KeyX);
    let mut h = InputHandler::default();
    h.update_list(&[a, a]);
    h.set_value(&a, InputValue::Pressed(true));
    assert_eq!(h.poll(&[a, x]), Some(InputValue::Pressed(false)));
    assert_eq!(h.repoll(&[a, x]), InputValue::Pressed(false));
    wait_millis(15);
    h.tick();
    assert_eq!(h.state_of(&a).unwrap().kind, InputStateKind::Released(2));
    assert_eq!(h.poll(&[a, x]), Some(InputValue::Pressed(true)));
    assert_eq!(h.repoll(&[a, x]), InputValue::Pressed(true));
    // a shorter chord does not see an input released to a longer one
    assert_eq!(h.repoll(&[a]), InputValue::Pressed(false));
}

#[test]
fn org_tick_makes_unpolled_inputs_clashable() {
    let a = key(KeyCode::KeyA);
    let b = key(KeyCode::KeyB);
    let mut h = InputHandler::default();
    h.update_list(&[a, a, b]);
    h.tick();
    assert_eq!(h.state_of(&b).unwrap().kind, InputStateKind::Unclashable);
    h.tick();
    assert_eq!(h.state_of(&b).unwrap().kind, InputStateKind::Clashable);
    assert_eq!(h.state_of(&a).unwrap().kind, InputStateKind::Clashable);
    assert_eq!(h.frame(), 2);
}
