use inlet::settings::{
    ClashSettings, ClashStrategy, ComboInterruptSettings, ComboProgressionSettings, ComboSettings, DefaultClashSettings,
    DefaultComboSettings,
};
use inlet::time::Duration;

#[test]
fn clash_settings_default_to_unbuffered_without_regression() {
    let s = ClashSettings::default();
    assert_eq!(s.clash_strategy(), ClashStrategy::Unbuffered);
    assert!(!s.chord_regression());
    assert_eq!(ClashStrategy::new_unbuffered(), ClashStrategy::Unbuffered);
    assert_eq!(ClashStrategy::new_buffered(None), ClashStrategy::BufferClashing(None));
    assert!(ClashStrategy::Disabled.is_disabled());
    assert!(!ClashStrategy::BufferAll(None).is_disabled());
}

#[test]
fn clash_settings_setters_touch_one_field() {
    let mut s = ClashSettings::new(ClashStrategy::BufferAll(Some(Duration::from_millis(20))), false);
    s.set_chord_regression(true);
    assert!(s.chord_regression());
    assert_eq!(s.clash_strategy(), ClashStrategy::BufferAll(Some(Duration::from_millis(20))));
    s.set_clash_strategy(ClashStrategy::Disabled);
    assert_eq!(s.clash_strategy(), ClashStrategy::Disabled);
    assert!(s.chord_regression());
    let t = s.with_chord_regression(false).with_clash_strategy(ClashStrategy::Unbuffered);
    assert_eq!(t, ClashSettings::from(ClashStrategy::Unbuffered));
    let d = DefaultClashSettings(t);
    assert_eq!(*d, t);
}

#[test]
fn combo_settings_defaults_and_builders() {
    let c = ComboSettings::default();
    assert_eq!(*c.interrupt_settings(), ComboInterruptSettings::ButtonsBreak);
    assert_eq!(*c.progression_settings(), ComboProgressionSettings::NextMustBeReleased);
    assert_eq!(c.tolerance().as_nanos(), 250_000_000);
    let mut c = c
        .with_interrupt_settings(ComboInterruptSettings::NoBreak)
        .with_progression_settings(ComboProgressionSettings::NoRestriction)
        .with_tolerance(Duration::from_millis(400));
    assert_eq!(*c.interrupt_settings(), ComboInterruptSettings::NoBreak);
    assert_eq!(*c.progression_settings(), ComboProgressionSettings::NoRestriction);
    assert_eq!(c.tolerance().as_nanos(), 400_000_000);
    c.set_interrupt_settings(ComboInterruptSettings::AnythingBreaks);
    c.set_progression_settings(ComboProgressionSettings::PreviousMustBeReleased);
    c.set_tolerance(Duration::zero());
    assert_eq!(*c.interrupt_settings(), ComboInterruptSettings::AnythingBreaks);
    assert_eq!(*c.progression_settings(), ComboProgressionSettings::PreviousMustBeReleased);
    assert_eq!(c.tolerance().as_nanos(), 0);
    let d = DefaultComboSettings(c);
    assert_eq!(*d, c);
}

#[test]
fn clash_strategy_default_is_unbuffered_and_enabled() {
    assert_eq!(ClashStrategy::default(), ClashStrategy::new_unbuffered());
    assert!(!ClashStrategy::default().is_disabled());
    assert!(!ClashStrategy::new_buffered(None).is_disabled());
    assert!(ClashStrategy::Disabled.is_disabled());
}
