use bevy::input::gamepad::{GamepadAxis, GamepadButton};
use bevy::input::keyboard::KeyCode;
use inlet::axis::{clashables_of_axes, AxisBindingButton, AxisBindingKind, MouseAxis};
use inlet::button::{ActionBinding, ActionableState, ButtonBinding, ButtonChord, ButtonEventBinding};
use inlet::clash::{clashables_of, ClashableKind};
use inlet::{AxisValue, BevyAxisKind, BevyButtonKind, BevyInputKind};

fn keys_axis(plus: KeyCode, minus: KeyCode) -> AxisBindingKind {
    AxisBindingKind::Buttons {
        plus: Some(AxisBindingButton::from_binding(ButtonBinding::Single(plus.into()))),
        minus: Some(AxisBindingButton::from_binding(ButtonBinding::Single(minus.into()))),
    }
}

#[test]
fn axis_kinds_list_their_inputs() {
    let da = keys_axis(KeyCode::KeyD, KeyCode::KeyA);
    assert_eq!(
        da.input_kinds(),
        vec![
            BevyInputKind::Button(BevyButtonKind::KeyCode(KeyCode::KeyD)),
            BevyInputKind::Button(BevyButtonKind::KeyCode(KeyCode::KeyA)),
        ]
    );
    assert_eq!(da.clashables(), vec![ClashableKind::Keyboard(KeyCode::KeyD), ClashableKind::Keyboard(KeyCode::KeyA)]);
    let only_plus = AxisBindingKind::Buttons {
        plus: Some(AxisBindingButton::from_binding(ButtonBinding::Single(KeyCode::Equal.into()))),
        minus: None,
    };
    assert_eq!(only_plus.clashables(), vec![ClashableKind::Keyboard(KeyCode::Equal)]);
    assert_eq!(
        AxisBindingKind::Mouse(MouseAxis::ScrollY).clashables(),
        vec![ClashableKind::MouseAxis(MouseAxis::ScrollY)]
    );
    assert_eq!(
        AxisBindingKind::GamepadAxis(GamepadAxis::LeftStickX).clashables(),
        vec![ClashableKind::GamepadAxis(GamepadAxis::LeftStickX)]
    );
    assert_eq!(
        AxisBindingKind::GamepadButton(GamepadButton::LeftTrigger2).clashables(),
        vec![ClashableKind::GamepadButton(GamepadButton::LeftTrigger2)]
    );
    assert!(AxisBindingKind::Mock(AxisValue::one()).clashables().is_empty());
}

#[test]
fn axes_clashables_follow_one_another() {
    let axes = vec![AxisBindingKind::Mouse(MouseAxis::MotionX), keys_axis(KeyCode::KeyW, KeyCode::KeyS)];
    assert_eq!(
        clashables_of_axes(&axes),
        vec![
            ClashableKind::MouseAxis(MouseAxis::MotionX),
            ClashableKind::Keyboard(KeyCode::KeyW),
            ClashableKind::Keyboard(KeyCode::KeyS),
        ]
    );
    assert!(clashables_of_axes(&[]).is_empty());
}

#[test]
fn clashable_kinds_stand_for_bevy_inputs() {
    let kinds = [
        BevyInputKind::Button(BevyButtonKind::GamepadButton(GamepadButton::South)),
        BevyInputKind::Axis(BevyAxisKind::GamepadButton(GamepadButton::South)),
        BevyInputKind::Axis(BevyAxisKind::MouseAxis(MouseAxis::MotionY)),
    ];
    assert_eq!(
        clashables_of(&kinds),
        vec![
            ClashableKind::Gamepad(GamepadButton::South),
            ClashableKind::GamepadButton(GamepadButton::South),
            ClashableKind::MouseAxis(MouseAxis::MotionY),
        ]
    );
}

#[test]
fn action_bindings_convert_from_their_parts() {
    let a: ActionBinding<u8> = KeyCode::KeyA.into();
    assert_eq!(a.bindings().len(), 1);
    assert_eq!(a.input_kinds(), vec![BevyInputKind::Button(BevyButtonKind::KeyCode(KeyCode::KeyA))]);
    assert_eq!(*a.state().kind(), ActionableState::Released);
    assert!(!a.mocked());
    let chord = ButtonChord::new(vec![KeyCode::KeyA.into(), KeyCode::KeyB.into()]);
    let c: ActionBinding<u8> = chord.into();
    assert_eq!(c.input_kinds().len(), 2);
    let with_event: ActionBinding<u8> =
        (vec![ButtonBinding::Single(KeyCode::Space.into())], ButtonEventBinding::when_pressed(7u8)).into();
    assert!(!with_event.bindings().is_empty());
    let from_vec: ActionBinding<u8> = vec![ButtonBinding::Single(KeyCode::KeyQ.into())].into();
    assert_eq!(from_vec.bindings().len(), 1);
}
