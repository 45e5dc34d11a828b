use bevy::input::keyboard::KeyCode;
use inlet::clash::{ClashHandler, ClashSettings, ClashStateKind, ClashableKind};
use inlet::time::Instant;

#[test]
fn clash_list_keeps_only_shared_inputs() {
    let mut h = ClashHandler::default();
    assert!(h.should_rescan());
    let a = ClashableKind::Keyboard(KeyCode::KeyA);
    let b = ClashableKind::Keyboard(KeyCode::KeyB);
    h.update_clash_list(&[a, b, a]);
    assert!(h.poll_clash(&b, 1, true));
    assert!(!h.poll_clash(&b, 1, false));
    assert!(!h.poll_clash(&a, 1, true));
}

#[test]
fn buffered_clash_releases_on_let_go() {
    let mut h = ClashHandler::new();
    assert_eq!(*h.settings(), ClashSettings::Buffered(Some(inlet::time::Duration::from_millis(10))));
    assert!(!h.settings().needs_sorting());
    let a = ClashableKind::Keyboard(KeyCode::KeyA);
    h.update_clash_list(&[a, a]);
    assert!(!h.poll_clash(&a, 1, true));
    assert!(!h.poll_clash(&a, 2, true));
    assert!(h.poll_clash(&a, 2, false));
    assert!(!h.poll_clash(&a, 1, false));
    h.tick();
    h.tick();
    assert!(h.poll_clash(&a, 1, false));
}

#[test]
fn buffered_clash_releases_after_delay() {
    let mut h = ClashHandler::new();
    let a = ClashableKind::Keyboard(KeyCode::KeyA);
    h.update_clash_list(&[a, a]);
    assert!(!h.poll_clash(&a, 1, true));
    wait_millis(15);
    h.tick();
    assert!(h.poll_clash(&a, 1, true));
    h.signal_rescan();
    assert!(h.should_rescan());
}

#[test]
fn clash_state_kinds_allow_matching_chords() {
    assert!(ClashStateKind::none().allowed_to_take_input(3));
    assert!(ClashStateKind::clashing(2).allowed_to_take_input(2));
    assert!(!ClashStateKind::clashing(2).allowed_to_take_input(1));
    assert!(!ClashStateKind::buffered(2).allowed_to_take_input(2));
    assert!(!ClashStateKind::buffered_with_instant(1, Instant::from_nanos(5)).allowed_to_take_input(1));
    assert!(ClashStateKind::released(1).allowed_to_take_input(1));
    assert!(ClashStateKind::none().is_none());
    let mut k = ClashStateKind::none();
    k.replace(ClashStateKind::released(4));
    assert_eq!(k, ClashStateKind::Released(4));
    assert!(ClashSettings::Sorted.needs_sorting());
    assert!(ClashableKind::Keyboard(KeyCode::KeyA).same(&ClashableKind::Keyboard(KeyCode::KeyA)));
    assert!(!ClashableKind::Keyboard(KeyCode::KeyA).same(&ClashableKind::Keyboard(KeyCode::KeyB)));
}

fn wait_millis(ms: u64) {
    let start = Instant::now();
    while start.elapsed().as_millis() < ms as u128 {}
}
