use bevy::input::keyboard::KeyCode;
use inlet::axis::ValueState;
use inlet::button::{
    ActionBinding, ButtonBinding, ActionableState, ButtonBindingKind, ButtonCombo, ButtonComboRules, ButtonEventBinding, ButtonState,
    EventTrigger,
};
use inlet::systems::poll_action_bindings_at;
use inlet::time::{Duration, Instant};
use inlet::{clash, clash_manager, manager, org};
use inlet::{AxisValue, BevyInputKind, InputValue};

fn at(nanos: u128) -> Instant {
    Instant::from_nanos(nanos)
}

fn nanos(n: u64) -> Duration {
    Duration::from_nanos(n)
}

#[test]
fn span_since_counts_from_the_earlier_point() {
    assert_eq!(at(350).duration_since(&at(100)).as_nanos(), 250);
    assert_eq!(at(100).duration_since(&at(350)).as_nanos(), 0);
}

#[test]
fn button_state_timing_reads_the_given_clock() {
    let pressed = ButtonState::from_parts(ActionableState::Pressed, at(100));
    assert_eq!(pressed.last_transition_at(at(350)).as_nanos(), 250);
    assert!(pressed.held_for_at(&nanos(250), at(350)));
    assert!(!pressed.held_for_at(&nanos(251), at(350)));
    assert!(pressed.held_range_at(&nanos(200), &nanos(251), at(350)));
    assert!(!pressed.held_range_at(&nanos(200), &nanos(250), at(350)));
    assert!(!pressed.held_range_at(&nanos(300), &nanos(200), at(350)));
    assert_eq!(pressed.try_get_held_duration_at(at(350)).map(|d| d.as_nanos()), Some(250));
    // a reading before the transition counts as no time at all
    assert_eq!(pressed.try_get_held_duration_at(at(50)).map(|d| d.as_nanos()), Some(0));

    let just = ButtonState::from_parts(ActionableState::JustPressed, at(100));
    assert!(!just.held_for_at(&Duration::zero(), at(1_000)));
    assert!(!just.held_range_at(&Duration::zero(), &nanos(5_000), at(1_000)));
    assert_eq!(just.try_get_held_duration_at(at(1_000)), None);
    let released = ButtonState::from_parts(ActionableState::Released, at(100));
    assert_eq!(released.try_get_held_duration_at(at(1_000)), None);
}

#[test]
fn button_state_feed_at_moves_the_start_only_on_a_transition() {
    let mut s = ButtonState::from_parts(ActionableState::Released, at(100));
    assert!(s.feed_at(true, at(500)));
    assert_eq!(*s.kind(), ActionableState::JustPressed);
    assert_eq!(s.value_state().transition_instant().as_nanos(), 500);
    assert!(s.feed_at(true, at(700)));
    assert_eq!(*s.kind(), ActionableState::Pressed);
    assert_eq!(s.value_state().transition_instant().as_nanos(), 500);
    assert!(!s.feed_at(true, at(900)));
    assert_eq!(s.value_state().transition_instant().as_nanos(), 500);
    assert_eq!(s.last_transition_at(at(900)).as_nanos(), 400);
    // the hold counts from the press, not from the later feed
    assert_eq!(s.try_get_held_duration_at(at(900)).map(|d| d.as_nanos()), Some(400));
    assert!(s.feed_at(false, at(1_000)));
    assert_eq!(*s.kind(), ActionableState::JustReleased);
    assert_eq!(s.value_state().transition_instant().as_nanos(), 1_000);
}

#[test]
fn value_state_timing_reads_the_given_clock() {
    let mut v = ValueState::new(AxisValue::zero(), AxisValue::zero(), at(10));
    v.feed_at(AxisValue::one(), at(40));
    assert_eq!(v.transition_instant().as_nanos(), 40);
    v.feed_at(AxisValue::one(), at(90));
    assert_eq!(v.transition_instant().as_nanos(), 40);
    assert_eq!(v.last_transition_at(at(100)).as_nanos(), 60);
    assert!(v.held_for_at(&nanos(60), at(100)));
    assert!(!v.held_for_at(&nanos(61), at(100)));
    assert!(v.held_range_at(&nanos(10), &nanos(61), at(100)));
    assert!(!v.held_range_at(&nanos(10), &nanos(60), at(100)));
    assert_eq!(v.try_get_held_duration_at(at(100)).map(|d| d.as_nanos()), Some(60));
    v.feed_at(AxisValue::zero(), at(120));
    assert_eq!(v.transition_instant().as_nanos(), 120);
    assert_eq!(v.try_get_held_duration_at(at(200)), None);
    assert!(!v.held_for_at(&Duration::zero(), at(200)));
}

#[test]
fn capture_press_duration_reports_the_time_held() {
    let pressed = ButtonState::from_parts(ActionableState::Pressed, at(100));
    let mut b = ButtonEventBinding::capture_press_duration(7u32);
    match b.try_get_event_at(&pressed, at(350)) {
        Some(EventTrigger::FireWithDuration(7, d)) => assert_eq!(d.as_nanos(), 250),
        other => panic!("expected a fire with a duration, found {other:?}"),
    }
    let mut b = ButtonEventBinding::while_pressed_for(5u32, nanos(300));
    assert_eq!(b.try_get_event_at(&pressed, at(350)), None);
    assert_eq!(b.try_get_event_at(&pressed, at(400)), Some(EventTrigger::Fire(5)));
    let mut b = ButtonEventBinding::when_pressed_for(9u32, nanos(300));
    assert_eq!(b.try_get_event_at(&pressed, at(350)), None);
    assert_eq!(b.try_get_event_at(&pressed, at(400)), Some(EventTrigger::Fire(9)));
    assert_eq!(b.try_get_event_at(&pressed, at(500)), None);
    let mut b = ButtonEventBinding::pressed_range(6u32, nanos(100), nanos(200));
    assert_eq!(b.try_get_event_at(&pressed, at(150)), None);
    assert_eq!(b.try_get_event_at(&pressed, at(250)), Some(EventTrigger::Fire(6)));
    assert_eq!(b.try_get_event_at(&pressed, at(300)), None);
}

#[test]
fn action_binding_timing_reads_the_given_clock() {
    let mut action = ActionBinding::new(vec![KeyCode::Space.into()], ButtonEventBinding::while_pressed_for('w', nanos(100)));
    assert_eq!(action.feed_at(true, at(1_000)), None);
    assert!(action.just_pressed());
    assert_eq!(action.state().value_state().transition_instant().as_nanos(), 1_000);
    assert_eq!(action.feed_at(true, at(1_050)), None);
    assert!(action.pressed());
    assert!(!action.held_for_at(&nanos(100), at(1_050)));
    assert!(action.held_for_at(&nanos(100), at(1_100)));
    assert!(action.held_range_at(&nanos(100), &nanos(200), at(1_150)));
    assert!(!action.held_range_at(&nanos(100), &nanos(200), at(1_200)));
    assert_eq!(action.try_get_held_duration_at(at(1_150)).map(|d| d.as_nanos()), Some(150));
    assert_eq!(action.feed_at(false, at(1_300)), None);
    assert!(action.just_released());
    assert_eq!(action.state().value_state().transition_instant().as_nanos(), 1_300);
}

#[test]
fn action_binding_fires_with_the_duration_at_the_given_clock() {
    let mut action = ActionBinding::new(vec![KeyCode::KeyK.into()], ButtonEventBinding::capture_press_duration(3u8));
    assert_eq!(action.feed_at(true, at(10)), None);
    match action.feed_at(true, at(40)) {
        Some(EventTrigger::FireWithDuration(3, d)) => assert_eq!(d.as_nanos(), 30),
        other => panic!("expected a fire with a duration, found {other:?}"),
    }
}

#[test]
fn combo_tolerance_counts_from_the_last_hit() {
    let bindings: Vec<ButtonBindingKind> = vec![KeyCode::KeyA.into(), KeyCode::KeyB.into(), KeyCode::KeyC.into()];
    let mut combo = ButtonCombo::new_with_tolerance_at(bindings.clone(), ButtonComboRules::NoRestriction, nanos(100), at(0));
    assert_eq!(*combo.expected_binding_at(at(5_000)), bindings[0]);
    assert!(!combo.hit_at(at(1_000)));
    // within the tolerance the combo expects the next binding
    assert_eq!(*combo.expected_binding_at(at(1_100)), bindings[1]);
    // past it the combo starts over
    assert_eq!(*combo.expected_binding_at(at(1_101)), bindings[0]);
    assert_eq!(*combo.expected_binding_mut_at(at(1_050)), bindings[1]);
    let z: ButtonBindingKind = KeyCode::KeyZ.into();
    *combo.expected_binding_mut_at(at(2_000)) = z.clone();
    assert_eq!(combo.bindings()[0], z);
    // the late look started the combo over
    assert_eq!(*combo.expected_binding_at(at(1_050)), z);
    assert!(!combo.hit_at(at(3_000)));
    assert!(!combo.hit_at(at(3_050)));
    assert!(combo.hit_at(at(3_100)));
    assert_eq!(*combo.expected_binding_at(at(3_100)), z);
}

#[test]
fn manager_poll_at_and_tick_at_follow_the_given_clock() {
    let a: BevyInputKind = KeyCode::KeyA.into();
    let b: BevyInputKind = KeyCode::KeyB.into();
    let settings = manager::ClashSettings::new(manager::ClashStrategy::BufferAll(Some(Duration::from_nanos(1_000))), false);
    let mut h = manager::InputHandler::default();
    h.update_list(&[a, b]);
    h.set_value(&a, InputValue::Pressed(true));
    h.set_value(&b, InputValue::Pressed(true));
    assert_eq!(h.poll_at(&[a, b], &settings, at(5_000)), Some(InputValue::Pressed(false)));
    for k in [a, b] {
        match h.state_of(&k).unwrap().kind {
            manager::InputStateKind::Buffered { start, chord_len: 2, .. } => assert_eq!(start.as_nanos(), 5_000),
            other => panic!("expected a buffered input, found {other:?}"),
        }
    }
    h.tick_at(&settings, at(5_999));
    assert!(matches!(h.state_of(&a).unwrap().kind, manager::InputStateKind::Buffered { chord_len: 2, .. }));
    assert!(matches!(h.state_of(&b).unwrap().kind, manager::InputStateKind::Buffered { chord_len: 2, .. }));
    // a later poll keeps the start of the buffering
    assert_eq!(h.poll_at(&[a, b], &settings, at(5_500)), Some(InputValue::Pressed(false)));
    match h.state_of(&a).unwrap().kind {
        manager::InputStateKind::Buffered { start, .. } => assert_eq!(start.as_nanos(), 5_000),
        other => panic!("expected a buffered input, found {other:?}"),
    }
    h.tick_at(&settings, at(6_000));
    assert!(matches!(h.state_of(&a).unwrap().kind, manager::InputStateKind::Active { chord_len: 2, .. }));
    assert!(matches!(h.state_of(&b).unwrap().kind, manager::InputStateKind::Active { chord_len: 2, .. }));
    assert_eq!(h.poll_at(&[a, b], &settings, at(6_100)), Some(InputValue::Pressed(true)));
    assert_eq!(h.frame(), 2);
}

#[test]
fn action_bindings_poll_at_the_given_clock() {
    let a: BevyInputKind = KeyCode::KeyA.into();
    let mut h = manager::InputHandler::default();
    h.update_list(&[a]);
    h.set_value(&a, InputValue::Pressed(true));
    let settings = manager::ClashSettings::from(manager::ClashStrategy::new_buffered(Some(Duration::from_nanos(10))));
    let bindings = vec![ButtonBinding::Single(KeyCode::KeyA.into())];
    assert_eq!(poll_action_bindings_at(&mut h, &bindings, false, &settings, at(77)), (false, vec![]));
    match h.state_of(&a).unwrap().kind {
        manager::InputStateKind::Buffered { start, .. } => assert_eq!(start.as_nanos(), 77),
        other => panic!("expected a buffered input, found {other:?}"),
    }
}

#[test]
fn clash_handler_poll_at_and_tick_at_follow_the_given_clock() {
    let a = clash::ClashableKind::Keyboard(KeyCode::KeyA);
    let mut h = clash::ClashHandler::new();
    h.update_clash_list(&[a, a]);
    assert!(!h.poll_clash_at(&a, 1, true, at(100)));
    // the default delay is ten milliseconds
    h.tick_at(at(100 + 9_999_999));
    assert!(!h.poll_clash_at(&a, 1, true, at(200)));
    h.tick_at(at(100 + 10_000_000));
    assert!(h.poll_clash_at(&a, 1, true, at(300)));
}

#[test]
fn clash_manager_poll_at_and_tick_at_follow_the_given_clock() {
    let b: BevyInputKind = KeyCode::KeyB.into();
    let fresh = || {
        let mut h = clash_manager::InputHandler::from(clash_manager::ClashSettings::BufferAll(Some(Duration::from_nanos(1_000))));
        h.update_list(&[b]);
        h.set_value(&b, InputValue::Pressed(true));
        assert_eq!(h.poll_at(&[b], at(40)), Some(InputValue::Pressed(false)));
        assert_eq!(h.state_of(&b).unwrap().kind, clash_manager::InputStateKind::Buffered(at(40), 1));
        h
    };
    let mut h = fresh();
    h.tick_at(at(1_039));
    assert_eq!(h.state_of(&b).unwrap().kind, clash_manager::InputStateKind::Buffered(at(40), 1));
    let mut h = fresh();
    h.tick_at(at(1_040));
    assert_eq!(h.state_of(&b).unwrap().kind, clash_manager::InputStateKind::Active(1));
}

#[test]
fn org_poll_at_and_tick_at_follow_the_given_clock() {
    let a: BevyInputKind = KeyCode::KeyA.into();
    let x: BevyInputKind = KeyCode::KeyX.into();
    let fresh = || {
        let mut h = org::InputHandler::default();
        h.update_list(&[a, a]);
        h.set_value(&a, InputValue::Pressed(true));
        assert_eq!(h.poll_at(&[a, x], at(500)), Some(InputValue::Pressed(false)));
        assert_eq!(h.state_of(&a).unwrap().kind, org::InputStateKind::Buffered(at(500), 2));
        h
    };
    // the default delay is ten milliseconds
    let mut h = fresh();
    h.tick_at(at(500 + 9_999_999));
    assert_eq!(h.state_of(&a).unwrap().kind, org::InputStateKind::Buffered(at(500), 2));
    let mut h = fresh();
    h.tick_at(at(500 + 10_000_000));
    assert_eq!(h.state_of(&a).unwrap().kind, org::InputStateKind::Released(2));
}
