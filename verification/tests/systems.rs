use bevy::input::keyboard::KeyCode;
use inlet::button::{ButtonBinding, ButtonBindingKind, ButtonChord};
use inlet::manager::{ClashSettings, ClashStrategy, InputHandler};
use inlet::systems::{poll_action_bindings, repoll_action_bindings};
use inlet::{BevyInputKind, InputValue};

fn key(k: KeyCode) -> BevyInputKind {
    k.into()
}

fn single(k: KeyCode) -> ButtonBinding {
    ButtonBinding::Single(k.into())
}

fn chord(keys: &[KeyCode]) -> ButtonBinding {
    let kinds: Vec<ButtonBindingKind> = keys.iter().map(|k| (*k).into()).collect();
    ButtonBinding::Chord(ButtonChord::new(kinds))
}

#[test]
fn action_is_pressed_when_a_binding_sees_its_inputs() {
    let a = key(KeyCode::KeyA);
    let b = key(KeyCode::KeyB);
    let mut h = InputHandler::new();
    h.update_list(&[a, b]);
    let settings = ClashSettings::from(ClashStrategy::Disabled);
    let bindings = vec![chord(&[KeyCode::KeyA, KeyCode::KeyB]), single(KeyCode::KeyA)];
    assert_eq!(poll_action_bindings(&mut h, &bindings, false, &settings), (false, vec![]));
    h.set_value(&a, InputValue::Pressed(true));
    assert_eq!(poll_action_bindings(&mut h, &bindings, false, &settings), (true, vec![]));
}

#[test]
fn mocked_action_is_pressed() {
    let mut h = InputHandler::new();
    let settings = ClashSettings::default();
    assert_eq!(poll_action_bindings(&mut h, &[], true, &settings), (true, vec![]));
    assert_eq!(poll_action_bindings(&mut h, &[], false, &settings), (false, vec![]));
    assert!(!repoll_action_bindings(&h, &[], &[]));
}

#[test]
fn clashing_bindings_look_again_and_the_longest_chord_wins() {
    let a = key(KeyCode::KeyA);
    let b = key(KeyCode::KeyB);
    let mut h = InputHandler::new();
    h.update_list(&[a, b]);
    h.set_value(&a, InputValue::Pressed(true));
    h.set_value(&b, InputValue::Pressed(true));
    let settings = ClashSettings::default();
    let bindings = vec![single(KeyCode::KeyA), chord(&[KeyCode::KeyA, KeyCode::KeyB])];
    let (pressed, repoll) = poll_action_bindings(&mut h, &bindings, false, &settings);
    assert!(!pressed);
    assert_eq!(repoll, vec![0, 1]);
    assert!(!repoll_action_bindings(&h, &bindings, &[0]));
    assert!(repoll_action_bindings(&h, &bindings, &[1]));
    assert!(repoll_action_bindings(&h, &bindings, &repoll));
}
