use bevy::input::keyboard::KeyCode;
use inlet::manager::{ClashSettings, ClashStrategy, ComboSettings, InputHandler, InputStateKind};
use inlet::time::Duration;
use inlet::{AxisValue, BevyInputKind, InputValue};

fn key(k: KeyCode) -> BevyInputKind {
    k.into()
}

fn handler_with(kinds: &[BevyInputKind]) -> InputHandler {
    let mut h = InputHandler::default();
    h.update_list(kinds);
    h
}

#[test]
fn empty_chord_polls_unpressed() {
    let mut h = InputHandler::new();
    let settings = ClashSettings::default();
    assert_eq!(h.poll(&[], &settings), Some(InputValue::Pressed(false)));
    assert!(h.input_kinds().is_empty());
    assert_eq!(h.repoll(&[]), InputValue::Pressed(false));
}

#[test]
fn update_list_registers_each_input_once() {
    let a = key(KeyCode::KeyA);
    let b = key(KeyCode::KeyB);
    let mut h = handler_with(&[a, b, a]);
    assert_eq!(h.input_kinds().len(), 2);
    let st = h.state_of(&a).unwrap();
    assert_eq!(st.kind, InputStateKind::Inactive);
    assert_eq!(st.frame, 0);
    assert_eq!(st.value, InputValue::Pressed(false));
    h.set_value(&a, InputValue::Pressed(true));
    h.update_list(&[a]);
    // the list replaces the registered inputs and resets their states
    assert_eq!(h.state_of(&a).unwrap().value, InputValue::Pressed(false));
    assert!(h.state_of(&b).is_none());
    assert!(h.state_of(&key(KeyCode::KeyC)).is_none());
}

#[test]
fn update_list_resets_captured_inputs() {
    let a = key(KeyCode::KeyA);
    let mut h = handler_with(&[a]);
    h.set_value(&a, InputValue::Pressed(true));
    let settings = ClashSettings::from(ClashStrategy::Disabled);
    assert_eq!(h.poll(&[a], &settings), Some(InputValue::Pressed(true)));
    assert!(matches!(h.state_of(&a).unwrap().kind, InputStateKind::Active { .. }));
    h.tick(&settings);
    h.update_list(&[a]);
    let st = h.state_of(&a).unwrap();
    assert_eq!(st.kind, InputStateKind::Inactive);
    assert_eq!(st.value, InputValue::Pressed(false));
    assert_eq!(st.frame, 1);
}

#[test]
fn settings_defaults_are_unbuffered_without_regression() {
    let c = ClashSettings::default();
    assert!(!c.chord_regretion());
    assert_eq!(c.clash_strategy(), ClashStrategy::Unbuffered);
    assert_eq!(ClashStrategy::default(), ClashStrategy::new_unbuffered());
    assert!(!ClashStrategy::default().is_disabled());
    assert!(!ClashStrategy::new_buffered(None).is_disabled());
}

#[test]
fn unpressed_chord_is_hidden_and_changes_nothing() {
    let a = key(KeyCode::KeyA);
    let b = key(KeyCode::KeyB);
    let mut h = handler_with(&[a, b]);
    h.set_value(&a, InputValue::Pressed(true));
    let before_a = h.state_of(&a).unwrap();
    let settings = ClashSettings::from(ClashStrategy::Disabled);
    assert_eq!(h.poll(&[a, b], &settings), Some(InputValue::Pressed(false)));
    assert_eq!(h.state_of(&a).unwrap(), before_a);
    assert_eq!(h.state_of(&b).unwrap().kind, InputStateKind::Inactive);
}

#[test]
fn disabled_strategy_shows_presses_at_once() {
    let a = key(KeyCode::KeyA);
    let mut h = handler_with(&[a]);
    h.set_value(&a, InputValue::Value(AxisValue::from_bits(0.5f32.to_bits())));
    let settings = ClashSettings::from(ClashStrategy::Disabled);
    assert_eq!(h.poll(&[a], &settings), Some(InputValue::Value(AxisValue::from_bits(0.5f32.to_bits()))));
    assert_eq!(h.state_of(&a).unwrap().kind, InputStateKind::Active { chord_len: 1, last_chord_len: 1 });
}

#[test]
fn buffering_hides_the_first_frame_of_a_press() {
    let a = key(KeyCode::KeyA);
    let mut h = handler_with(&[a]);
    h.set_value(&a, InputValue::Pressed(true));
    let settings = ClashSettings::from(ClashStrategy::new_buffered(None));
    assert_eq!(h.poll(&[a], &settings), Some(InputValue::Pressed(false)));
    assert!(matches!(h.state_of(&a).unwrap().kind, InputStateKind::Buffered { chord_len: 1, count: 1, .. }));
    h.tick(&settings);
    assert_eq!(h.frame(), 1);
    assert_eq!(h.state_of(&a).unwrap().kind, InputStateKind::Active { chord_len: 1, last_chord_len: 1 });
    assert_eq!(h.poll(&[a], &settings), Some(InputValue::Pressed(true)));
}

#[test]
fn buffer_all_with_long_delay_keeps_hiding() {
    let a = key(KeyCode::KeyA);
    let b = key(KeyCode::KeyB);
    let mut h = handler_with(&[a, b]);
    h.set_value(&a, InputValue::Pressed(true));
    h.set_value(&b, InputValue::Pressed(true));
    let settings = ClashSettings::new(ClashStrategy::BufferAll(Some(Duration::from_secs(3600))), false);
    assert_eq!(h.poll(&[a], &settings), Some(InputValue::Pressed(false)));
    assert_eq!(h.poll(&[a, b], &settings), Some(InputValue::Pressed(false)));
    h.tick(&settings);
    match h.state_of(&a).unwrap().kind {
        InputStateKind::Buffered { chord_len, last_chord_len, count, .. } => {
            assert_eq!((chord_len, last_chord_len, count), (2, 2, 0));
        }
        other => panic!("expected a buffered input, found {other:?}"),
    }
    assert_eq!(h.poll(&[a, b], &settings), Some(InputValue::Pressed(false)));
}

#[test]
fn longer_chord_captures_a_shared_input() {
    let a = key(KeyCode::KeyA);
    let b = key(KeyCode::KeyB);
    let mut h = handler_with(&[a, b]);
    h.set_value(&a, InputValue::Pressed(true));
    h.set_value(&b, InputValue::Pressed(true));
    let settings = ClashSettings::default();
    assert_eq!(h.poll(&[a], &settings), None);
    assert_eq!(h.poll(&[a, b], &settings), None);
    assert_eq!(h.state_of(&a).unwrap().kind, InputStateKind::Clashing(2));
    assert_eq!(h.repoll(&[a]), InputValue::Pressed(false));
    assert_eq!(h.repoll(&[a, b]), InputValue::Pressed(true));
    h.tick(&settings);
    assert_eq!(h.state_of(&a).unwrap().kind, InputStateKind::Active { chord_len: 2, last_chord_len: 2 });
    assert_eq!(h.poll(&[a], &settings), Some(InputValue::Pressed(false)));
    assert_eq!(h.poll(&[a, b], &settings), Some(InputValue::Pressed(true)));
}

#[test]
fn chord_regression_hands_input_back_to_shorter_chords() {
    let a = key(KeyCode::KeyA);
    let b = key(KeyCode::KeyB);
    let mut h = handler_with(&[a, b]);
    h.set_value(&a, InputValue::Pressed(true));
    h.set_value(&b, InputValue::Pressed(true));
    let settings = ClashSettings::default().with_chord_regretion(true);
    assert_eq!(h.poll(&[a, b], &settings), None);
    h.tick(&settings);
    assert_eq!(h.state_of(&a).unwrap().kind, InputStateKind::Active { chord_len: 2, last_chord_len: 2 });
    h.set_value(&b, InputValue::Pressed(false));
    assert_eq!(h.poll(&[a, b], &settings), Some(InputValue::Pressed(false)));
    assert_eq!(h.poll(&[a], &settings), Some(InputValue::Pressed(false)));
    h.tick(&settings);
    assert_eq!(h.state_of(&a).unwrap().kind, InputStateKind::Active { chord_len: 0, last_chord_len: 2 });
    assert_eq!(h.poll(&[a], &settings), Some(InputValue::Pressed(false)));
    h.tick(&settings);
    assert_eq!(h.state_of(&a).unwrap().kind, InputStateKind::Active { chord_len: 0, last_chord_len: 1 });
    assert_eq!(h.poll(&[a], &settings), Some(InputValue::Pressed(true)));
}

#[test]
fn tick_turns_unpolled_inputs_inactive() {
    let a = key(KeyCode::KeyA);
    let mut h = handler_with(&[a]);
    h.set_value(&a, InputValue::Pressed(true));
    let settings = ClashSettings::from(ClashStrategy::Disabled);
    h.poll(&[a], &settings);
    h.tick(&settings);
    assert!(matches!(h.state_of(&a).unwrap().kind, InputStateKind::Active { .. }));
    h.tick(&settings);
    assert_eq!(h.state_of(&a).unwrap().kind, InputStateKind::Inactive);
    assert_eq!(h.frame(), 2);
}

#[test]
fn poll_registers_unknown_inputs() {
    let a = key(KeyCode::KeyA);
    let mut h = InputHandler::new();
    let settings = ClashSettings::default();
    // An input seen for the first time is registered as released, but does not hide the chord:
    // under the unbuffered strategy it starts clashing and asks for a repoll.
    assert_eq!(h.poll(&[a], &settings), None);
    assert_eq!(h.state_of(&a).unwrap().kind, InputStateKind::Clashing(1));
    assert_eq!(h.state_of(&a).unwrap().value, InputValue::Pressed(false));
}

#[test]
fn interrupts_come_from_other_inputs_pressed_this_frame() {
    let a = key(KeyCode::KeyA);
    let b = key(KeyCode::KeyB);
    let mut h = handler_with(&[a, b]);
    h.set_value(&b, InputValue::Pressed(true));
    assert!(h.poll_interupt(&[a], false));
    assert!(!h.poll_interupt(&[a, b], true));
    h.set_value(&b, InputValue::Value(AxisValue::from_bits(1.0f32.to_bits())));
    assert!(!h.poll_interupt(&[a], false));
    assert!(h.poll_interupt(&[a], true));
}

#[test]
fn manager_settings_builders() {
    let s = ClashSettings::new(ClashStrategy::new_unbuffered(), true);
    assert!(s.chord_regretion());
    let mut s = s.with_clash_strategy(ClashStrategy::Disabled);
    assert!(s.clash_strategy().is_disabled());
    s.set_chord_regretion(false);
    s.set_clash_strategy(ClashStrategy::new_buffered(Some(Duration::from_millis(5))));
    assert_eq!(s.clash_strategy(), ClashStrategy::BufferClashing(Some(Duration::from_millis(5))));
    assert!(!s.chord_regretion());
    let c = ComboSettings::default();
    assert_eq!(c.tolerence().as_nanos(), 250_000_000);
    let c = c.with_tolerence(Duration::from_millis(100));
    assert_eq!(c.tolerence().as_nanos(), 100_000_000);
}

#[test]
fn manager_state_kind_helpers() {
    assert_eq!(InputStateKind::inactive(), InputStateKind::Inactive);
    assert_eq!(InputStateKind::clashing(2), InputStateKind::Clashing(2));
    assert_eq!(InputStateKind::active(3), InputStateKind::Active { chord_len: 3, last_chord_len: 3 });
    assert!(matches!(
        InputStateKind::buffered(2),
        InputStateKind::Buffered { chord_len: 2, last_chord_len: 2, count: 1, .. }
    ));
    let mut k = InputStateKind::Clashing(1);
    k.replace(InputStateKind::Inactive);
    assert_eq!(k, InputStateKind::Inactive);
    let _marker: inlet::manager::DisableInputManager<u8, u8> = Default::default();
}

fn wait_millis(ms: u64) {
    let start = inlet::time::Instant::now();
    while start.elapsed().as_millis() < ms as u128 {}
}

fn buffered_start(h: &InputHandler, k: &BevyInputKind) -> u128 {
    match h.state_of(k).unwrap().kind {
        InputStateKind::Buffered { start, .. } => start.as_nanos(),
        other => panic!("expected a buffered input, found {other:?}"),
    }
}

#[test]
fn buffered_inputs_of_a_chord_share_the_oldest_start() {
    let a = key(KeyCode::KeyA);
    let b = key(KeyCode::KeyB);
    let mut h = handler_with(&[a, b]);
    h.set_value(&a, InputValue::Pressed(true));
    h.set_value(&b, InputValue::Pressed(true));
    let settings = ClashSettings::new(ClashStrategy::BufferAll(Some(Duration::from_secs(3600))), false);
    assert_eq!(h.poll(&[a], &settings), Some(InputValue::Pressed(false)));
    wait_millis(2);
    assert_eq!(h.poll(&[b], &settings), Some(InputValue::Pressed(false)));
    let (start_a, start_b) = (buffered_start(&h, &a), buffered_start(&h, &b));
    assert!(start_a < start_b);
    assert_eq!(h.poll(&[a, b], &settings), Some(InputValue::Pressed(false)));
    assert_eq!(buffered_start(&h, &a), start_a);
    assert_eq!(buffered_start(&h, &b), start_a);
}

#[test]
fn unbuffered_clash_is_never_shown_at_once() {
    let a = key(KeyCode::KeyA);
    let mut h = handler_with(&[a]);
    h.set_value(&a, InputValue::Pressed(true));
    let settings = ClashSettings::from(ClashStrategy::Unbuffered);
    assert_eq!(h.poll(&[a], &settings), None);
    assert_eq!(h.poll(&[a], &settings), None);
    assert_eq!(h.repoll(&[a]), InputValue::Pressed(true));
}

#[test]
fn begin_frame_ticks_or_registers_afresh() {
    let a = key(KeyCode::KeyA);
    let b = key(KeyCode::KeyB);
    let settings = ClashSettings::default();
    let mut h = InputHandler::new();
    h.begin_frame(&[a], true, &settings, inlet::time::Instant::now());
    assert_eq!(h.frame(), 0);
    assert_eq!(h.state_of(&a).unwrap().kind, InputStateKind::Inactive);
    h.begin_frame(&[b], false, &settings, inlet::time::Instant::now());
    assert_eq!(h.frame(), 1);
    assert!(h.state_of(&b).is_none());
    h.begin_frame(&[b], true, &settings, inlet::time::Instant::now());
    assert!(h.state_of(&a).is_none());
    assert_eq!(h.state_of(&b).unwrap().frame, 1);
}
