use bevy::input::keyboard::KeyCode;
use inlet::clash_manager::{ClashSettings, InputHandler, InputStateKind};
use inlet::{BevyInputKind, InputValue};

fn key(k: KeyCode) -> BevyInputKind {
    k.into()
}

fn handler(settings: ClashSettings, kinds: &[BevyInputKind]) -> InputHandler {
    let mut h = InputHandler::from(settings);
    h.update_list(kinds);
    h
}

#[test]
fn clash_manager_settings_constructors() {
    assert_eq!(ClashSettings::default(), ClashSettings::Unbuffered);
    assert_eq!(ClashSettings::new_unbuffered(), ClashSettings::Unbuffered);
    assert_eq!(ClashSettings::new_buffered(None), ClashSettings::BufferClashing(None));
    let h = InputHandler::default();
    assert_eq!(*h.settings(), ClashSettings::Unbuffered);
    assert_eq!(h.frame(), 0);
    let mut h = InputHandler::from(ClashSettings::BufferAll(None));
    assert_eq!(*h.settings(), ClashSettings::BufferAll(None));
    h.set_settings(ClashSettings::Unbuffered);
    assert_eq!(*h.settings(), ClashSettings::Unbuffered);
}

#[test]
fn clash_manager_update_list_marks_shared_inputs() {
    let a = key(KeyCode::KeyA);
    let b = key(KeyCode::KeyB);
    let h = handler(ClashSettings::Unbuffered, &[a, b, a]);
    assert_eq!(h.input_kinds().len(), 2);
    assert_eq!(h.state_of(&a).unwrap().kind, InputStateKind::Inactive);
    assert_eq!(h.state_of(&b).unwrap().kind, InputStateKind::NoClash);
    assert_eq!(h.state_of(&b).unwrap().value, InputValue::Pressed(false));
}

#[test]
fn clash_manager_empty_and_unpressed_chords() {
    let a = key(KeyCode::KeyA);
    let mut h = handler(ClashSettings::Unbuffered, &[a, a]);
    assert_eq!(h.poll(&[]), Some(InputValue::Pressed(false)));
    assert_eq!(h.poll(&[a]), Some(InputValue::Pressed(false)));
    assert_eq!(h.state_of(&a).unwrap().kind, InputStateKind::Inactive);
    assert_eq!(h.repoll(&[]), InputValue::Pressed(false));
}

#[test]
fn clash_manager_input_bound_once_is_shown_at_once() {
    let b = key(KeyCode::KeyB);
    let mut h = handler(ClashSettings::new_buffered(None), &[b]);
    h.set_value(&b, InputValue::Pressed(true));
    assert_eq!(h.poll(&[b]), Some(InputValue::Pressed(true)));
    assert_eq!(h.state_of(&b).unwrap().kind, InputStateKind::NoClash);
    assert_eq!(h.repoll(&[b]), InputValue::Pressed(true));
}

#[test]
fn clash_manager_buffer_all_holds_back_inputs_bound_once() {
    let b = key(KeyCode::KeyB);
    let mut h = handler(ClashSettings::BufferAll(None), &[b]);
    h.set_value(&b, InputValue::Pressed(true));
    assert_eq!(h.poll(&[b]), Some(InputValue::Pressed(false)));
    assert!(matches!(h.state_of(&b).unwrap().kind, InputStateKind::Buffered(_, 1)));
    h.tick();
    assert_eq!(h.state_of(&b).unwrap().kind, InputStateKind::Active(1));
    assert_eq!(h.poll(&[b]), Some(InputValue::Pressed(true)));
}

#[test]
fn clash_manager_unbuffered_clash_resolves_to_longest_chord() {
    let a = key(KeyCode::KeyA);
    let s = key(KeyCode::KeyS);
    let mut h = handler(ClashSettings::Unbuffered, &[a, a, s]);
    h.set_value(&a, InputValue::Pressed(true));
    h.set_value(&s, InputValue::Pressed(true));
    // the short chord clashes and must look again
    assert_eq!(h.poll(&[a]), None);
    assert_eq!(h.state_of(&a).unwrap().kind, InputStateKind::Clashing(1));
    // the long chord claims the shared input, and also looks again
    assert_eq!(h.poll(&[a, s]), None);
    assert_eq!(h.state_of(&a).unwrap().kind, InputStateKind::Clashing(2));
    // on the second look only the longest chord sees the input
    assert_eq!(h.repoll(&[a, s]), InputValue::Pressed(true));
    assert_eq!(h.repoll(&[a]), InputValue::Pressed(false));
    h.tick();
    assert_eq!(h.state_of(&a).unwrap().kind, InputStateKind::Active(2));
    // the captured input stays hidden from the shorter chord
    assert_eq!(h.poll(&[a]), Some(InputValue::Pressed(false)));
    assert_eq!(h.poll(&[a, s]), Some(InputValue::Pressed(true)));
}

#[test]
fn clash_manager_buffering_hides_first_press() {
    let a = key(KeyCode::KeyA);
    let mut h = handler(ClashSettings::new_buffered(None), &[a, a]);
    h.set_value(&a, InputValue::Pressed(true));
    assert_eq!(h.poll(&[a]), Some(InputValue::Pressed(false)));
    assert!(matches!(h.state_of(&a).unwrap().kind, InputStateKind::Buffered(_, 1)));
    h.tick();
    assert_eq!(h.state_of(&a).unwrap().kind, InputStateKind::Active(1));
    assert_eq!(h.poll(&[a]), Some(InputValue::Pressed(true)));
}

#[test]
fn clash_manager_tick_deactivates_unpolled_inputs() {
    let a = key(KeyCode::KeyA);
    let b = key(KeyCode::KeyB);
    let mut h = handler(ClashSettings::Unbuffered, &[a, a, b]);
    h.set_value(&a, InputValue::Pressed(true));
    assert_eq!(h.poll(&[a]), None);
    h.tick();
    assert_eq!(h.state_of(&a).unwrap().kind, InputStateKind::Active(1));
    h.tick();
    assert_eq!(h.state_of(&a).unwrap().kind, InputStateKind::Inactive);
    assert_eq!(h.state_of(&b).unwrap().kind, InputStateKind::NoClash);
    assert_eq!(h.frame(), 2);
}

#[test]
fn clash_manager_state_kind_helpers() {
    assert_eq!(InputStateKind::default(), InputStateKind::NoClash);
    assert_eq!(InputStateKind::inactive(), InputStateKind::Inactive);
    assert_eq!(InputStateKind::clashing(3), InputStateKind::Clashing(3));
    assert_eq!(InputStateKind::active(2), InputStateKind::Active(2));
    assert!(matches!(InputStateKind::buffered(4), InputStateKind::Buffered(_, 4)));
    let t = inlet::time::Instant::from_nanos(9);
    let mut k = InputStateKind::buffered_with_instant(5, t);
    assert_eq!(k, InputStateKind::Buffered(t, 5));
    k.replace(InputStateKind::Inactive);
    assert_eq!(k, InputStateKind::Inactive);
}
