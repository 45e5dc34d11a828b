use bevy::input::gamepad::GamepadButton;
use bevy::input::keyboard::KeyCode;
use bevy::input::mouse::MouseButton;
use inlet::axis::MouseAxis;
use inlet::time::{Duration, Instant};
use inlet::{
    contains_kind, pressed_to_value, value_to_press, AxisValue, BevyAxisKind, BevyButtonKind, BevyInputKind, InputValue,
};

fn axis(v: f32) -> AxisValue {
    AxisValue::from_bits(v.to_bits())
}

#[test]
fn press_round_trip_holds_for_both_presses() {
    assert!(value_to_press(pressed_to_value(true)));
    assert!(!value_to_press(pressed_to_value(false)));
    assert_eq!(f32::from_bits(pressed_to_value(true).to_bits()), 1.0);
    assert_eq!(f32::from_bits(pressed_to_value(false).to_bits()), 0.0);
}

#[test]
fn value_to_press_follows_float_comparison_with_zero() {
    assert!(!value_to_press(axis(0.0)));
    assert!(!value_to_press(axis(-0.0)));
    assert!(value_to_press(axis(0.25)));
    assert!(value_to_press(axis(-1.0)));
    assert!(value_to_press(axis(f32::NAN)));
    assert!(value_to_press(axis(f32::INFINITY)));
}

#[test]
fn axis_value_sign_and_positivity() {
    assert!(!axis(-0.0).is_negative());
    assert!(!axis(0.0).is_negative());
    assert!(axis(-2.0).is_negative());
    assert!(axis(f32::NEG_INFINITY).is_negative());
    assert!(!axis(-f32::NAN).is_negative());
    assert!(!axis(2.0).is_negative());
    assert!(axis(2.0).is_positive());
    assert!(axis(f32::INFINITY).is_positive());
    assert!(!axis(0.0).is_positive());
    assert!(!axis(-0.5).is_positive());
    assert!(!axis(f32::NAN).is_positive());
    assert!(axis(-0.0).is_zero());
    assert_eq!(AxisValue::one().to_bits(), 1.0f32.to_bits());
    assert_eq!(AxisValue::zero().to_bits(), 0.0f32.to_bits());
}

#[test]
fn input_value_press_and_value() {
    assert!(InputValue::Pressed(true).is_pressed());
    assert!(!InputValue::Pressed(false).is_pressed());
    assert!(InputValue::Value(axis(0.5)).is_pressed());
    assert!(!InputValue::Value(axis(-0.0)).is_pressed());
    assert_eq!(f32::from_bits(InputValue::Pressed(true).get_value().to_bits()), 1.0);
    assert_eq!(f32::from_bits(InputValue::Value(axis(-0.75)).get_value().to_bits()), -0.75);
    assert!(InputValue::Pressed(false).is_button());
    assert!(!InputValue::Value(axis(1.0)).is_button());
    assert_eq!(InputValue::default(), InputValue::Pressed(false));
    assert_eq!(InputValue::default_value(), InputValue::Pressed(false));
    assert_eq!(InputValue::from(true), InputValue::Pressed(true));
    assert_eq!(InputValue::from(axis(0.5)), InputValue::Value(axis(0.5)));
}

#[test]
fn input_kinds_compare_by_their_bevy_input() {
    let a = BevyInputKind::Button(BevyButtonKind::KeyCode(KeyCode::KeyA));
    let a2: BevyInputKind = KeyCode::KeyA.into();
    let b = BevyInputKind::Button(BevyButtonKind::KeyCode(KeyCode::KeyB));
    let m = BevyInputKind::Button(BevyButtonKind::MouseButton(MouseButton::Left));
    let g = BevyInputKind::Button(BevyButtonKind::GamepadButton(GamepadButton::South));
    let ga = BevyInputKind::Axis(BevyAxisKind::GamepadButton(GamepadButton::South));
    let s = BevyInputKind::Axis(BevyAxisKind::MouseAxis(MouseAxis::ScrollY));
    assert!(a.same(&a2));
    assert!(!a.same(&b));
    assert!(!a.same(&m));
    assert!(m.same(&m));
    assert!(g.same(&g));
    assert!(!g.same(&ga));
    assert!(s.same(&BevyInputKind::from(MouseAxis::ScrollY)));
    assert!(!s.same(&BevyInputKind::from(MouseAxis::ScrollX)));
    assert!(contains_kind(&[b, m, a], &a2));
    assert!(!contains_kind(&[b, m], &a));
    assert!(!contains_kind(&[], &a));
}

#[test]
fn durations_convert_between_units() {
    assert_eq!(Duration::from_millis(250).as_nanos(), 250_000_000);
    assert_eq!(Duration::from_secs(2).as_millis(), 2_000);
    assert_eq!(Duration::from_micros(3).as_nanos(), 3_000);
    assert_eq!(Duration::from_nanos(7).as_nanos(), 7);
    assert_eq!(Duration::zero().as_nanos(), 0);
}

#[test]
fn instants_order_and_measure_spans() {
    let early = Instant::from_nanos(1_000);
    let late = Instant::from_nanos(4_500);
    assert!(early.is_before(&late));
    assert!(!late.is_before(&early));
    assert_eq!(late.duration_since(&early).as_nanos(), 3_500);
    assert_eq!(early.duration_since(&late).as_nanos(), 0);
    let now = Instant::now();
    assert!(now.as_nanos() > 1_600_000_000_000_000_000);
    assert!(!Instant::now().is_before(&now));
}
