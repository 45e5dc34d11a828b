use bevy::input::gamepad::GamepadButton;
use bevy::input::keyboard::KeyCode;
use inlet::axis::{MouseAxis, ValueState};
use inlet::button::{
    ActionBinding, ActionableState, ActionableStateTick, BevyAxisButton, ButtonBinding, ButtonBindingKind, ButtonChord,
    ButtonCombo, ButtonComboRules, ButtonEventBinding, ButtonState, EventTrigger,
};
use inlet::time::{Duration, Instant};
use inlet::{AxisValue, BevyAxisKind, BevyInputKind, InputValue};
use ActionableState::{JustPressed, JustReleased, Pressed, Released};

fn axis(v: f32) -> InputValue {
    InputValue::Value(AxisValue::from_bits(v.to_bits()))
}

fn state(kind: ActionableState) -> ButtonState {
    ButtonState::from_parts(kind, Instant::now())
}

const FOREVER: u64 = u64::MAX;

fn wait_millis(ms: u64) {
    let start = Instant::now();
    while start.elapsed().as_millis() < ms as u128 {}
}

#[test]
fn tick_follows_the_documented_table() {
    let cases = [
        (Released, true, JustPressed, ActionableStateTick::Transitioned),
        (JustReleased, true, JustPressed, ActionableStateTick::Transitioned),
        (JustPressed, true, Pressed, ActionableStateTick::Changed),
        (Pressed, true, Pressed, ActionableStateTick::Unchanged),
        (Pressed, false, JustReleased, ActionableStateTick::Transitioned),
        (JustPressed, false, JustReleased, ActionableStateTick::Transitioned),
        (JustReleased, false, Released, ActionableStateTick::Changed),
        (Released, false, Released, ActionableStateTick::Unchanged),
    ];
    for (start, pressed, end, outcome) in cases {
        let mut s = start;
        assert_eq!(s.tick(pressed), outcome);
        assert_eq!(s, end);
    }
}

#[test]
fn tick_twice_settles_whatever_the_start() {
    for start in [Released, JustPressed, Pressed, JustReleased] {
        let mut s = start;
        s.tick(true);
        s.tick(true);
        assert_eq!(s, Pressed);
        let mut s = start;
        s.tick(false);
        s.tick(false);
        assert_eq!(s, Released);
    }
}

#[test]
fn actionable_state_predicates() {
    assert!(JustPressed.is_pressed() && Pressed.is_pressed());
    assert!(!Released.is_pressed() && !JustReleased.is_pressed());
    assert!(Released.is_released() && JustReleased.is_released());
    assert!(JustPressed.is_just_pressed() && !Pressed.is_just_pressed());
    assert!(JustReleased.is_just_released() && !Released.is_just_released());
    assert_eq!(ActionableState::default(), Released);
}

#[test]
fn button_state_feed_reports_changes() {
    let mut s = ButtonState::default();
    assert!(s.released());
    assert!(s.feed(true));
    assert!(s.just_pressed());
    assert!(s.feed(true));
    assert!(s.pressed() && !s.just_pressed());
    assert!(!s.feed(true));
    assert!(s.feed(false));
    assert!(s.just_released());
    assert!(s.feed(false));
    assert!(!s.feed(false));
    assert_eq!(*s.kind(), ActionableState::Released);
}

#[test]
fn button_state_hold_queries() {
    let pressed = state(ActionableState::Pressed);
    let just = state(ActionableState::JustPressed);
    assert!(pressed.held_for(&Duration::zero()));
    assert!(!pressed.held_for(&Duration::from_secs(FOREVER)));
    assert!(!just.held_for(&Duration::zero()));
    assert!(pressed.held_range(&Duration::zero(), &Duration::from_secs(FOREVER)));
    assert!(!pressed.held_range(&Duration::from_secs(FOREVER), &Duration::from_secs(FOREVER)));
    assert!(!just.held_range(&Duration::zero(), &Duration::from_secs(FOREVER)));
    assert!(pressed.try_get_held_duration().is_some());
    assert!(just.try_get_held_duration().is_none());
    assert!(state(ActionableState::Released).try_get_held_duration().is_none());
}

#[test]
fn value_state_and_action_state_round_trip() {
    for kind in [Released, JustPressed, Pressed, JustReleased] {
        let s = state(kind);
        let v = s.value_state();
        assert_eq!(*v.action_state().kind(), kind);
    }
    let v = state(JustPressed).value_state();
    assert_eq!(f32::from_bits(v.previous().to_bits()), 0.0);
    assert_eq!(f32::from_bits(v.current().to_bits()), 1.0);
}

#[test]
fn value_state_feed_follows_button_machine() {
    let mut v = ValueState::default();
    assert!(v.released() && !v.just_pressed());
    v.feed(AxisValue::from_bits(0.5f32.to_bits()));
    assert!(v.just_pressed());
    assert_eq!(*v.action_state().kind(), ActionableState::JustPressed);
    v.feed(AxisValue::from_bits((-0.3f32).to_bits()));
    assert!(v.pressed() && !v.just_pressed());
    assert_eq!(*v.action_state().kind(), ActionableState::Pressed);
    assert!(v.held_for(&Duration::zero()));
    assert!(v.try_get_held_duration().is_some());
    v.feed(AxisValue::from_bits((-0.0f32).to_bits()));
    assert!(v.just_released());
    assert_eq!(*v.action_state().kind(), ActionableState::JustReleased);
    v.feed(AxisValue::zero());
    assert_eq!(*v.action_state().kind(), ActionableState::Released);
    assert!(v.try_get_held_duration().is_none());
    assert!(!v.held_range(&Duration::zero(), &Duration::from_secs(FOREVER)));
}

#[test]
fn event_bindings_fire_on_their_conditions() {
    let jp = state(ActionableState::JustPressed);
    let p = state(ActionableState::Pressed);
    let jr = state(ActionableState::JustReleased);
    let r = state(ActionableState::Released);
    let mut b = ButtonEventBinding::when_pressed(1u32);
    assert_eq!(b.try_get_event(&jp), Some(EventTrigger::Fire(1)));
    assert_eq!(b.try_get_event(&p), None);
    let mut b = ButtonEventBinding::while_pressed(2u32);
    assert_eq!(b.try_get_event(&jp), Some(EventTrigger::Fire(2)));
    assert_eq!(b.try_get_event(&p), Some(EventTrigger::Fire(2)));
    assert_eq!(b.try_get_event(&r), None);
    let mut b = ButtonEventBinding::when_released(3u32);
    assert_eq!(b.try_get_event(&jr), Some(EventTrigger::Fire(3)));
    assert_eq!(b.try_get_event(&r), None);
    let mut b = ButtonEventBinding::while_released(4u32);
    assert_eq!(b.try_get_event(&jr), Some(EventTrigger::Fire(4)));
    assert_eq!(b.try_get_event(&r), Some(EventTrigger::Fire(4)));
    assert_eq!(b.try_get_event(&p), None);
    let mut b = ButtonEventBinding::<u32>::none();
    assert!(b.is_none());
    assert_eq!(b.try_get_event(&jp), None);
    let mut b = ButtonEventBinding::while_pressed_for(5u32, Duration::zero());
    assert_eq!(b.try_get_event(&p), Some(EventTrigger::Fire(5)));
    assert_eq!(b.try_get_event(&jp), None);
    let mut b = ButtonEventBinding::pressed_range(6u32, Duration::zero(), Duration::from_secs(FOREVER));
    assert_eq!(b.try_get_event(&p), Some(EventTrigger::Fire(6)));
    let mut b = ButtonEventBinding::pressed_range(6u32, Duration::from_secs(FOREVER), Duration::from_secs(FOREVER));
    assert_eq!(b.try_get_event(&p), None);
    let mut b = ButtonEventBinding::capture_press_duration(7u32);
    assert!(matches!(b.try_get_event(&p), Some(EventTrigger::FireWithDuration(7, _))));
    assert_eq!(b.try_get_event(&jp), None);
}

#[test]
fn when_pressed_for_fires_once_per_hold() {
    let p = state(ActionableState::Pressed);
    let r = state(ActionableState::Released);
    let mut b = ButtonEventBinding::when_pressed_for(9u32, Duration::zero());
    assert_eq!(b.try_get_event(&p), Some(EventTrigger::Fire(9)));
    assert_eq!(b, ButtonEventBinding::WhenPressedFor(Duration::zero(), 9, true));
    assert_eq!(b.try_get_event(&p), None);
    assert_eq!(b.try_get_event(&r), None);
    assert_eq!(b, ButtonEventBinding::WhenPressedFor(Duration::zero(), 9, false));
    assert_eq!(b.try_get_event(&p), Some(EventTrigger::Fire(9)));
}

#[test]
fn combo_completes_on_last_hit_and_starts_over() {
    let combo_bindings: Vec<ButtonBindingKind> = vec![KeyCode::KeyW.into(), KeyCode::KeyS.into(), KeyCode::KeyD.into()];
    let mut combo = ButtonCombo::new(combo_bindings.clone(), ButtonComboRules::NoRestriction);
    assert_eq!(combo.rules(), ButtonComboRules::NoRestriction);
    assert_eq!(combo.tolerance().as_nanos(), 250_000_000);
    assert_eq!(*combo.expected_binding(), combo_bindings[0]);
    assert_eq!(combo.previous_binding(), None);
    assert_eq!(combo.next_binding(), Some(&combo_bindings[1]));
    assert!(!combo.hit());
    assert_eq!(*combo.expected_binding(), combo_bindings[1]);
    assert_eq!(combo.previous_binding(), Some(&combo_bindings[0]));
    assert!(!combo.hit());
    assert_eq!(combo.next_binding(), None);
    assert!(combo.hit());
    assert_eq!(*combo.expected_binding(), combo_bindings[0]);
    assert_eq!(combo.bindings(), &combo_bindings[..]);
}

#[test]
fn combo_times_out_back_to_first_step() {
    let combo_bindings: Vec<ButtonBindingKind> = vec![KeyCode::KeyA.into(), KeyCode::KeyB.into()];
    let mut combo = ButtonCombo::new_with_tolerance_default_rules(combo_bindings.clone(), Duration::zero());
    assert_eq!(combo.rules(), ButtonComboRules::NextMustBeReleased);
    assert!(!combo.hit());
    wait_millis(2);
    assert_eq!(*combo.expected_binding(), combo_bindings[0]);
    assert_eq!(*combo.expected_binding_mut(), combo_bindings[0]);
    assert_eq!(combo.previous_binding_mut(), None);
    let combo = combo.with_tolerance(Duration::from_secs(5)).with_rules(ButtonComboRules::PreviousMustBeReleased);
    assert_eq!(combo.tolerance().as_nanos(), 5_000_000_000);
    assert_eq!(combo.rules(), ButtonComboRules::PreviousMustBeReleased);
}

#[test]
fn combo_mutable_accessors_reach_neighbours() {
    let mut combo = ButtonCombo::new_default_rules(vec![KeyCode::KeyA.into(), KeyCode::KeyB.into(), KeyCode::KeyC.into()]);
    assert!(!combo.hit());
    *combo.next_binding_mut().unwrap() = KeyCode::KeyZ.into();
    *combo.previous_binding_mut().unwrap() = KeyCode::KeyY.into();
    let kinds = combo.input_kinds();
    assert_eq!(kinds, vec![KeyCode::KeyY.into(), KeyCode::KeyB.into(), KeyCode::KeyZ.into()]);
}

#[test]
fn chords_read_their_first_binding() {
    let chord = ButtonChord::new(vec![
        ButtonBindingKind::Axis(BevyAxisButton::new_positive_only(BevyAxisKind::MouseAxis(MouseAxis::ScrollY))),
        KeyCode::ShiftLeft.into(),
    ]);
    assert_eq!(chord.len(), 2);
    assert!(chord.apply(axis(1.0)));
    assert!(!chord.apply(axis(-1.0)));
    assert_eq!(
        chord.input_kinds(),
        vec![BevyInputKind::Axis(BevyAxisKind::MouseAxis(MouseAxis::ScrollY)), KeyCode::ShiftLeft.into()]
    );
    let empty = ButtonChord::new(vec![]);
    assert!(empty.apply(InputValue::Pressed(true)));
    assert!(!empty.apply(InputValue::Pressed(false)));
}

#[test]
fn axis_buttons_apply_their_rule() {
    let standard = BevyAxisButton::new_standard(BevyAxisKind::MouseAxis(MouseAxis::MotionX));
    let negative = BevyAxisButton::new_negative_only(BevyAxisKind::MouseAxis(MouseAxis::MotionX));
    let positive = BevyAxisButton::new_positive_only(BevyAxisKind::MouseAxis(MouseAxis::MotionX));
    assert!(standard.apply(axis(-0.5)) && standard.apply(axis(0.5)) && !standard.apply(axis(-0.0)));
    assert!(negative.apply(axis(-0.5)) && !negative.apply(axis(-0.0)) && !negative.apply(axis(0.0)) && !negative.apply(axis(0.5)));
    assert!(positive.apply(axis(0.5)) && !positive.apply(axis(0.0)) && !positive.apply(axis(f32::NAN)));
    assert!(standard.apply(InputValue::Pressed(true)));
    assert!(!negative.apply(InputValue::Pressed(true)));
    assert_eq!(BevyAxisButton::from(GamepadButton::LeftTrigger2).axis(), BevyAxisKind::GamepadButton(GamepadButton::LeftTrigger2));
    let k: ButtonBindingKind = KeyCode::Space.into();
    assert!(k.apply(InputValue::Pressed(true)));
    assert_eq!(k.kind(), KeyCode::Space.into());
}

#[test]
fn button_bindings_list_their_inputs() {
    let single: ButtonBinding = GamepadButton::South.into();
    assert_eq!(single.input_kinds(), vec![GamepadButton::South.into()]);
    let chord: ButtonBinding = ButtonChord::new(vec![KeyCode::KeyQ.into(), KeyCode::KeyE.into()]).into();
    assert_eq!(chord.input_kinds(), vec![KeyCode::KeyQ.into(), KeyCode::KeyE.into()]);
    let action = ActionBinding::new(vec![single, chord], ButtonEventBinding::when_pressed(1u8));
    assert_eq!(
        action.input_kinds(),
        vec![GamepadButton::South.into(), KeyCode::KeyQ.into(), KeyCode::KeyE.into()]
    );
    assert_eq!(action.bindings().len(), 2);
}

#[test]
fn action_binding_feed_fires_when_pressed() {
    let mut action = ActionBinding::new(vec![KeyCode::Space.into()], ButtonEventBinding::when_pressed('j'));
    assert!(action.released());
    assert_eq!(action.feed(true), Some(EventTrigger::Fire('j')));
    assert!(action.just_pressed());
    assert_eq!(action.feed(true), None);
    assert!(action.pressed());
    assert!(action.held_for(&Duration::zero()));
    assert!(action.held_range(&Duration::zero(), &Duration::from_secs(FOREVER)));
    assert!(action.try_get_held_duration().is_some());
    assert_eq!(action.feed(true), None);
    assert_eq!(action.feed(false), None);
    assert!(action.just_released());
    assert_eq!(*action.state().kind(), ActionableState::JustReleased);
}

#[test]
fn action_binding_mock_flag() {
    let mut action = ActionBinding::<u8>::new_no_event(vec![KeyCode::KeyM.into()]);
    assert!(!action.mocked());
    action.mock(true);
    assert!(action.mocked());
    action.mock_clear();
    assert!(!action.mocked());
    action.bindings_mut()[0] = KeyCode::KeyN.into();
    assert_eq!(action.input_kinds(), vec![KeyCode::KeyN.into()]);
    assert_eq!(action.feed(true), None);
}
