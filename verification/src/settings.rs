//! Settings for clash resolution and combos.
use vstd::prelude::*;

use crate::time::Duration;

verus! {

/// Defines default [`ClashSettings`] for input handlers that don't define their own.
#[derive(Clone, Copy, Debug)]
pub struct DefaultClashSettings(pub ClashSettings);

impl core::ops::Deref for DefaultClashSettings {
    type Target = ClashSettings;

    fn deref(&self) -> (r: &ClashSettings)
        ensures
            *r == self.0,
    {
        &self.0
    }
}

/// The settings to use for resolving clashing inputs.
///
/// attach to an entity to override global clash settings.
#[derive(Clone, Copy, Debug, PartialEq, Eq, Structural)]
pub struct ClashSettings {
    strategy: ClashStrategy,
    /// Reset the chord length on tick so that smaller chords can become active
    /// after releasing a larger chord.
    chord_regression: bool,
}

impl Default for ClashSettings {
    fn default() -> (r: Self)
        ensures
            r.strategy_spec() == ClashStrategy::Unbuffered,
            !r.chord_regression_spec(),
    {
        ClashSettings { strategy: ClashStrategy::Unbuffered, chord_regression: false }
    }
}

impl ClashSettings {
    pub closed spec fn strategy_spec(&self) -> ClashStrategy {
        self.strategy
    }

    pub closed spec fn chord_regression_spec(&self) -> bool {
        self.chord_regression
    }

    pub fn new(strategy: ClashStrategy, chord_regression: bool) -> (r: Self)
        ensures
            r.strategy_spec() == strategy,
            r.chord_regression_spec() == chord_regression,
    {
        ClashSettings { strategy, chord_regression }
    }

    /// Whether to reset the chord length on tick so that smaller chords can become
    /// active after releasing a larger chord.
    pub fn chord_regression(&self) -> (r: bool)
        ensures
            r == self.chord_regression_spec(),
    {
        self.chord_regression
    }

    /// Whether to reset the chord length on tick so that smaller chords can become
    /// active after releasing a larger chord.
    pub fn set_chord_regression(&mut self, chord_regression: bool)
        ensures
            final(self).chord_regression_spec() == chord_regression,
            final(self).strategy_spec() == old(self).strategy_spec(),
    {
        self.chord_regression = chord_regression;
    }

    /// Whether to reset the chord length on tick so that smaller chords can become
    /// active after releasing a larger chord.
    pub fn with_chord_regression(self, chord_regression: bool) -> (r: Self)
        ensures
            r.chord_regression_spec() == chord_regression,
            r.strategy_spec() == self.strategy_spec(),
    {
        let mut s = self;
        s.chord_regression = chord_regression;
        s
    }

    /// Returns the current [`ClashStrategy`].
    pub fn clash_strategy(&self) -> (r: ClashStrategy)
        ensures
            r == self.strategy_spec(),
    {
        self.strategy
    }

    /// Sets the [`ClashStrategy`].
    pub fn set_clash_strategy(&mut self, strategy: ClashStrategy)
        ensures
            final(self).strategy_spec() == strategy,
            final(self).chord_regression_spec() == old(self).chord_regression_spec(),
    {
        self.strategy = strategy;
    }

    /// Sets the [`ClashStrategy`].
    pub fn with_clash_strategy(self, strategy: ClashStrategy) -> (r: Self)
        ensures
            r.strategy_spec() == strategy,
            r.chord_regression_spec() == self.chord_regression_spec(),
    {
        let mut s = self;
        s.strategy = strategy;
        s
    }
}

/// Settings with the given strategy and without chord regression.
impl From<ClashStrategy> for ClashSettings {
    fn from(value: ClashStrategy) -> (r: Self)
        ensures
            r.strategy_spec() == value,
            !r.chord_regression_spec(),
    {
        ClashSettings { strategy: value, chord_regression: false }
    }
}

impl vstd::std_specs::convert::FromSpecImpl<ClashStrategy> for ClashSettings {
    open spec fn obeys_from_spec() -> bool {
        true
    }

    closed spec fn from_spec(value: ClashStrategy) -> Self {
        ClashSettings { strategy: value, chord_regression: false }
    }
}

/// The settings to use for resolving clashing inputs.
#[derive(Clone, Copy, Debug, PartialEq, Eq, Structural)]
pub enum ClashStrategy {
    /// Does not buffer inputs, just detects clashes. Inputs that may clash will be re-checked after all inputs
    /// have had a chance to assert their priority.
    ///
    /// # Rules
    ///
    /// - If a high priority binding captures a button, that button must be released before a lower priority
    ///   binding can see it again.
    ///
    Unbuffered,
    /// Buffers inputs that can clash until a timer runs out or unpressed.
    ///
    /// # Rules
    ///
    /// - An input will NEVER be active/shown the first frame it is pressed. Unlike Unbuffered re-checks
    ///   are not necessary because every binding will have a chance to be prioritized for chords.
    /// - If a wait duration is provided the input will be inactive/hidden to all bindings until the button has been
    ///   active for at least that long.
    /// - If the timer runs out or the button is unpressed: the chord with the most active parts will be activated.
    /// - If a high priority binding captures a button, that button must be released before a lower priority
    ///   binding can see it again.
    /// - If a chord has multiple buffered inputs, all inputs start times will be set the the oldest.
    BufferClashing(Option<Duration>),
    /// Buffers all inputs until a timer runs out or unpressed.
    ///
    /// # Rules
    ///
    /// - An input will NEVER be active/shown the first frame it is pressed. Unlike Unbuffered re-checks
    ///   are not necessary because every binding will have a chance to be prioritized for chords.
    /// - If a wait duration is provided the input will be inactive/hidden to all bindings until the button has been
    ///   active for at least that long.
    /// - If the timer runs out or the button is unpressed: the chord with the most active parts will be activated.
    /// - If a high priority binding captures a button, that button must be released before a lower priority
    ///   binding can see it again.
    /// - If a chord has multiple buffered inputs, all inputs start times will be set the the oldest.
    BufferAll(Option<Duration>),
    /// Disables Clash Detection. All presses will become active immediately.
    Disabled,
}

impl Default for ClashStrategy {
    fn default() -> (r: Self)
        ensures
            r == ClashStrategy::Unbuffered,
    {
        ClashStrategy::Unbuffered
    }
}

impl ClashStrategy {
    /// Return new settings that use buffered clash resolution where `delay` is the amount of time to wait before
    /// resolving; if `delay` is `None` input will buffer for 1 frame.
    pub fn new_buffered(delay: Option<Duration>) -> (r: Self)
        ensures
            r == ClashStrategy::BufferClashing(delay),
    {
        ClashStrategy::BufferClashing(delay)
    }

    /// Returns new settings that use un-buffered clash resolution where inputs that might clash re-check after all
    /// bindings have been checked at least once.
    pub fn new_unbuffered() -> (r: Self)
        ensures
            r == ClashStrategy::Unbuffered,
    {
        ClashStrategy::Unbuffered
    }

    pub fn is_disabled(&self) -> (r: bool)
        ensures
            r == (*self is Disabled),
    {
        match self {
            ClashStrategy::Disabled => true,
            _ => false,
        }
    }
}

/// Defines default [`ComboSettings`] for input handlers that don't define their own.
#[derive(Clone, Copy, Debug)]
pub struct DefaultComboSettings(pub ComboSettings);

impl core::ops::Deref for DefaultComboSettings {
    type Target = ComboSettings;

    fn deref(&self) -> (r: &ComboSettings)
        ensures
            *r == self.0,
    {
        &self.0
    }
}

/// Settings pertaining to [`ButtonCombos`](crate::button::ButtonCombo).
///
/// ## Interrupt
///
/// see [`ComboInterruptSettings`]
///
/// ## Progression
///
/// see [`ComboProgressionSettings`]
///
/// ## Tolerance
///
/// The maximum allowed time between button presses before the combo resets to expecting the first button in the combo.
#[derive(Debug, Clone, Copy, PartialEq, Eq, Structural)]
pub struct ComboSettings {
    interrupt: ComboInterruptSettings,
    tolerance: Duration,
    progression: ComboProgressionSettings,
}

impl ComboSettings {
    pub closed spec fn interrupt_spec(&self) -> ComboInterruptSettings {
        self.interrupt
    }

    pub closed spec fn tolerance_spec(&self) -> Duration {
        self.tolerance
    }

    pub closed spec fn progression_spec(&self) -> ComboProgressionSettings {
        self.progression
    }

    /// The default settings: combos break on wrong buttons, allow 250 milliseconds between presses
    /// and need the next button released.
    pub fn new_default() -> (r: Self)
        ensures
            r.interrupt_spec() == ComboInterruptSettings::ButtonsBreak,
            r.tolerance_spec()@ == 250_000_000,
            r.progression_spec() == ComboProgressionSettings::NextMustBeReleased,
    {
        ComboSettings {
            interrupt: ComboInterruptSettings::ButtonsBreak,
            tolerance: Duration::from_millis(250),
            progression: ComboProgressionSettings::NextMustBeReleased,
        }
    }

    pub fn interrupt_settings(&self) -> (r: &ComboInterruptSettings)
        ensures
            *r == self.interrupt_spec(),
    {
        &self.interrupt
    }

    pub fn with_interrupt_settings(self, settings: ComboInterruptSettings) -> (r: Self)
        ensures
            r.interrupt_spec() == settings,
            r.tolerance_spec() == self.tolerance_spec(),
            r.progression_spec() == self.progression_spec(),
    {
        let mut s = self;
        s.interrupt = settings;
        s
    }

    pub fn set_interrupt_settings(&mut self, settings: ComboInterruptSettings)
        ensures
            final(self).interrupt_spec() == settings,
            final(self).tolerance_spec() == old(self).tolerance_spec(),
            final(self).progression_spec() == old(self).progression_spec(),
    {
        self.interrupt = settings;
    }

    pub fn tolerance(&self) -> (r: &Duration)
        ensures
            *r == self.tolerance_spec(),
    {
        &self.tolerance
    }

    pub fn with_tolerance(self, settings: Duration) -> (r: Self)
        ensures
            r.tolerance_spec() == settings,
            r.interrupt_spec() == self.interrupt_spec(),
            r.progression_spec() == self.progression_spec(),
    {
        let mut s = self;
        s.tolerance = settings;
        s
    }

    pub fn set_tolerance(&mut self, settings: Duration)
        ensures
            final(self).tolerance_spec() == settings,
            final(self).interrupt_spec() == old(self).interrupt_spec(),
            final(self).progression_spec() == old(self).progression_spec(),
    {
        self.tolerance = settings;
    }

    pub fn progression_settings(&self) -> (r: &ComboProgressionSettings)
        ensures
            *r == self.progression_spec(),
    {
        &self.progression
    }

    pub fn with_progression_settings(self, settings: ComboProgressionSettings) -> (r: Self)
        ensures
            r.progression_spec() == settings,
            r.interrupt_spec() == self.interrupt_spec(),
            r.tolerance_spec() == self.tolerance_spec(),
    {
        let mut s = self;
        s.progression = settings;
        s
    }

    pub fn set_progression_settings(&mut self, settings: ComboProgressionSettings)
        ensures
            final(self).progression_spec() == settings,
            final(self).interrupt_spec() == old(self).interrupt_spec(),
            final(self).tolerance_spec() == old(self).tolerance_spec(),
    {
        self.progression = settings;
    }
}

impl Default for ComboSettings {
    fn default() -> (r: Self)
        ensures
            r.interrupt_spec() == ComboInterruptSettings::ButtonsBreak,
            r.tolerance_spec()@ == 250_000_000,
            r.progression_spec() == ComboProgressionSettings::NextMustBeReleased,
    {
        ComboSettings::new_default()
    }
}

#[derive(Debug, Clone, Copy, PartialEq, Eq, Structural)]
pub enum ComboInterruptSettings {
    /// Combos don't get cancelled by incorrect inputs.
    NoBreak,
    /// Combos will cancel if a button that isn't the expected button is pressed.
    ButtonsBreak,
    /// Any incorrect input (buttons or axis) will cancel a combo.
    AnythingBreaks,
}

impl Default for ComboInterruptSettings {
    fn default() -> (r: Self)
        ensures
            r == ComboInterruptSettings::ButtonsBreak,
    {
        ComboInterruptSettings::ButtonsBreak
    }
}

/// Rules for how to determine if a [`ButtonCombo`](crate::button::ButtonCombo) can progress.
#[derive(Debug, Clone, Copy, PartialEq, Eq, Structural)]
pub enum ComboProgressionSettings {
    NoRestriction,
    PreviousMustBeReleased,
    NextMustBeReleased,
}

impl Default for ComboProgressionSettings {
    fn default() -> (r: Self)
        ensures
            r == ComboProgressionSettings::NextMustBeReleased,
    {
        ComboProgressionSettings::NextMustBeReleased
    }
}

} // verus!
