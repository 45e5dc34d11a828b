//! Button-like bindings: chords, combos, and the press state machine.
use vstd::prelude::*;

use bevy::input::gamepad::GamepadButton;
use bevy::input::keyboard::KeyCode;
use bevy::input::mouse::MouseButton;

use crate::axis::ValueState;
use crate::time::{Duration, Instant, span_between};
use crate::{
    AxisValue, BevyAxisKind, BevyButtonKind, BevyInputKind, InputValue, ONE_BITS, bits_are_positive,
    bits_are_negative, bits_are_zero,
};

verus! {

/// How an axis reading counts as a press.
#[derive(Debug, Clone, Copy, PartialEq, Eq, Hash, Structural)]
pub enum AxisPressRule {
    /// Any non-zero reading is a press.
    NonZero,
    /// A reading less than zero is a press.
    Negative,
    /// A reading greater than zero is a press.
    Positive,
}

/// Whether a reading with bit pattern `bits` is a press under `rule`.
pub open spec fn rule_pressed(rule: AxisPressRule, bits: u32) -> bool {
    match rule {
        AxisPressRule::NonZero => !bits_are_zero(bits),
        AxisPressRule::Negative => bits_are_negative(bits),
        AxisPressRule::Positive => bits_are_positive(bits),
    }
}

/// An axis used as a button.
#[derive(Debug, Clone, Copy, PartialEq)]
pub struct BevyAxisButton {
    axis: BevyAxisKind,
    rule: AxisPressRule,
}

impl BevyAxisButton {
    pub closed spec fn axis_spec(&self) -> BevyAxisKind {
        self.axis
    }

    pub closed spec fn rule_spec(&self) -> AxisPressRule {
        self.rule
    }

    /// The button that counts any non-zero reading of `axis` as a press.
    pub closed spec fn standard_spec(axis: BevyAxisKind) -> Self {
        BevyAxisButton { axis, rule: AxisPressRule::NonZero }
    }

    /// Returns a new `BevyAxisButton` where zero is unpressed and any other value is pressed.
    pub fn new_standard(axis: BevyAxisKind) -> (r: Self)
        ensures
            r.axis_spec() == axis,
            r.rule_spec() == AxisPressRule::NonZero,
            r == Self::standard_spec(axis),
    {
        BevyAxisButton { axis, rule: AxisPressRule::NonZero }
    }

    /// Returns a new `BevyAxisButton` where negative values are pressed otherwise unpressed.
    pub fn new_negative_only(axis: BevyAxisKind) -> (r: Self)
        ensures
            r.axis_spec() == axis,
            r.rule_spec() == AxisPressRule::Negative,
    {
        BevyAxisButton { axis, rule: AxisPressRule::Negative }
    }

    /// Returns a new `BevyAxisButton` where positive non-zero values are pressed otherwise unpressed.
    pub fn new_positive_only(axis: BevyAxisKind) -> (r: Self)
        ensures
            r.axis_spec() == axis,
            r.rule_spec() == AxisPressRule::Positive,
    {
        BevyAxisButton { axis, rule: AxisPressRule::Positive }
    }

    /// The axis read by this button.
    pub fn axis(&self) -> (r: BevyAxisKind)
        ensures
            r == self.axis_spec(),
    {
        self.axis
    }

    /// Whether `value` is a press of this button.
    pub fn apply(&self, value: InputValue) -> (r: bool)
        ensures
            r == rule_pressed(self.rule_spec(), value.value_spec()),
    {
        let v = value.get_value();
        match self.rule {
            AxisPressRule::NonZero => !v.is_zero(),
            AxisPressRule::Negative => v.is_negative(),
            AxisPressRule::Positive => v.is_positive(),
        }
    }
}

#[derive(Debug, Clone, Copy, PartialEq)]
pub enum ButtonBindingKind {
    Standard(BevyButtonKind),
    Axis(BevyAxisButton),
}

impl ButtonBindingKind {
    /// The input that this binding reads.
    pub open spec fn kind_spec(self) -> BevyInputKind {
        match self {
            ButtonBindingKind::Standard(b) => BevyInputKind::Button(b),
            ButtonBindingKind::Axis(a) => BevyInputKind::Axis(a.axis_spec()),
        }
    }

    /// Whether `value` is a press of this binding.
    pub open spec fn apply_spec(self, value: InputValue) -> bool {
        match self {
            ButtonBindingKind::Standard(_) => value.pressed_spec(),
            ButtonBindingKind::Axis(a) => rule_pressed(a.rule_spec(), value.value_spec()),
        }
    }

    pub fn kind(&self) -> (r: BevyInputKind)
        ensures
            r == self.kind_spec(),
    {
        match self {
            ButtonBindingKind::Standard(bevy_button_kind) => BevyInputKind::Button(*bevy_button_kind),
            ButtonBindingKind::Axis(bevy_axis_button) => BevyInputKind::Axis(bevy_axis_button.axis()),
        }
    }

    pub fn apply(&self, value: InputValue) -> (r: bool)
        ensures
            r == self.apply_spec(value),
    {
        match self {
            ButtonBindingKind::Standard(_) => value.is_pressed(),
            ButtonBindingKind::Axis(bevy_axis_button) => bevy_axis_button.apply(value),
        }
    }
}

/// The inputs read by a list of bindings, in order.
pub open spec fn kinds_of(bindings: Seq<ButtonBindingKind>) -> Seq<BevyInputKind> {
    bindings.map_values(|b: ButtonBindingKind| b.kind_spec())
}

/// Collects the input read by each binding.
fn collect_kinds(bindings: &Vec<ButtonBindingKind>) -> (r: Vec<BevyInputKind>)
    ensures
        r@ == kinds_of(bindings@),
{
    let mut out: Vec<BevyInputKind> = Vec::new();
    let mut i: usize = 0;
    while i < bindings.len()
        invariant
            i <= bindings@.len(),
            out@ == kinds_of(bindings@.subrange(0, i as int)),
        decreases bindings@.len() - i,
    {
        out.push(bindings[i].kind());
        assert(bindings@.subrange(0, i + 1) == bindings@.subrange(0, i as int).push(bindings@[i as int]));
        i = i + 1;
    }
    assert(bindings@.subrange(0, bindings@.len() as int) == bindings@);
    out
}

/// A set of buttons that must all be pressed at once to be considered active.
#[derive(Debug, Clone, PartialEq)]
pub struct ButtonChord {
    actions: Vec<ButtonBindingKind>,
}

impl ButtonChord {
    pub closed spec fn bindings_spec(&self) -> Seq<ButtonBindingKind> {
        self.actions@
    }

    pub fn bindings(&self) -> (r: &[ButtonBindingKind])
        ensures
            r@ == self.bindings_spec(),
    {
        self.actions.as_slice()
    }

    pub fn len(&self) -> (r: usize)
        ensures
            r == self.bindings_spec().len(),
    {
        self.actions.len()
    }

    pub fn input_kinds(&self) -> (r: Vec<BevyInputKind>)
        ensures
            r@ == kinds_of(self.bindings_spec()),
    {
        collect_kinds(&self.actions)
    }

    pub fn new(bindings: Vec<ButtonBindingKind>) -> (r: Self)
        ensures
            r.bindings_spec() == bindings@,
    {
        ButtonChord { actions: bindings }
    }

    /// Whether `value` is a press of the chord's first binding (of any press, for an empty chord).
    pub fn apply(&self, value: InputValue) -> (r: bool)
        ensures
            r == if self.bindings_spec().len() == 0 {
                value.pressed_spec()
            } else {
                self.bindings_spec()[0].apply_spec(value)
            },
    {
        if self.actions.len() == 0 {
            value.is_pressed()
        } else {
            self.actions[0].apply(value)
        }
    }
}

#[derive(Debug, Clone, Copy, PartialEq, Eq, Structural)]
pub enum ButtonComboRules {
    NoRestriction,
    PreviousMustBeReleased,
    NextMustBeReleased,
}

impl Default for ButtonComboRules {
    fn default() -> (r: Self)
        ensures
            r == ButtonComboRules::NextMustBeReleased,
    {
        ButtonComboRules::NextMustBeReleased
    }
}

/// The step of a combo that is expected next, given how long ago the last step was hit: a combo
/// whose last hit lies further back than its tolerance starts over.
pub open spec fn expected_index(current: nat, elapsed: nat, tolerance: nat) -> nat {
    if current != 0 && elapsed > tolerance {
        0
    } else {
        current
    }
}

/// A set of buttons that must all be pressed one after another to become active.
#[derive(Debug, Clone, PartialEq)]
pub struct ButtonCombo {
    actions: Vec<ButtonBindingKind>,
    current_index: usize,
    last_hit: Instant,
    tolerance: Duration,
    rules: ButtonComboRules,
}

impl ButtonCombo {
    pub closed spec fn bindings_spec(&self) -> Seq<ButtonBindingKind> {
        self.actions@
    }

    pub closed spec fn index_spec(&self) -> nat {
        self.current_index as nat
    }

    pub closed spec fn last_hit_spec(&self) -> Instant {
        self.last_hit
    }

    pub closed spec fn tolerance_spec(&self) -> Duration {
        self.tolerance
    }

    pub closed spec fn rules_spec(&self) -> ButtonComboRules {
        self.rules
    }

    /// The step index lies within the combo (an empty combo only counts its hits).
    pub open spec fn wf(&self) -> bool {
        self.index_spec() < self.bindings_spec().len() || self.bindings_spec().len() == 0
    }

    pub fn bindings(&self) -> (r: &[ButtonBindingKind])
        ensures
            r@ == self.bindings_spec(),
    {
        self.actions.as_slice()
    }

    pub fn input_kinds(&self) -> (r: Vec<BevyInputKind>)
        ensures
            r@ == kinds_of(self.bindings_spec()),
    {
        collect_kinds(&self.actions)
    }

    pub fn rules(&self) -> (r: ButtonComboRules)
        ensures
            r == self.rules_spec(),
    {
        self.rules
    }

    /// Creates a new button combo bindings whose last hit lies at the clock reading `now`.
    pub fn new_with_tolerance_at(
        bindings: Vec<ButtonBindingKind>,
        rules: ButtonComboRules,
        tolerance: Duration,
        now: Instant,
    ) -> (r: Self)
        ensures
            r.wf(),
            r.bindings_spec() == bindings@,
            r.index_spec() == 0,
            r.rules_spec() == rules,
            r.tolerance_spec() == tolerance,
            r.last_hit_spec() == now,
    {
        ButtonCombo { actions: bindings, current_index: 0, last_hit: now, tolerance, rules }
    }

    /// Creates a new button combo bindings.
    pub fn new_with_tolerance(bindings: Vec<ButtonBindingKind>, rules: ButtonComboRules, tolerance: Duration) -> (r: Self)
        ensures
            r.wf(),
            r.bindings_spec() == bindings@,
            r.index_spec() == 0,
            r.rules_spec() == rules,
            r.tolerance_spec() == tolerance,
    {
        Self::new_with_tolerance_at(bindings, rules, tolerance, Instant::now())
    }

    /// Creates a new button combo bindings with default [`ButtonComboRules`].
    pub fn new_with_tolerance_default_rules(bindings: Vec<ButtonBindingKind>, tolerance: Duration) -> (r: Self)
        ensures
            r.wf(),
            r.bindings_spec() == bindings@,
            r.index_spec() == 0,
            r.rules_spec() == ButtonComboRules::NextMustBeReleased,
            r.tolerance_spec() == tolerance,
    {
        Self::new_with_tolerance(bindings, ButtonComboRules::NextMustBeReleased, tolerance)
    }

    /// Creates a new button combo bindings with a tolerance of 250 milliseconds (quarter second).
    pub fn new(bindings: Vec<ButtonBindingKind>, rules: ButtonComboRules) -> (r: Self)
        ensures
            r.wf(),
            r.bindings_spec() == bindings@,
            r.index_spec() == 0,
            r.rules_spec() == rules,
            r.tolerance_spec()@ == 250_000_000,
    {
        Self::new_with_tolerance(bindings, rules, Duration::from_millis(250))
    }

    /// Creates a new button combo bindings with a tolerance of 250 milliseconds (quarter second).
    pub fn new_default_rules(bindings: Vec<ButtonBindingKind>) -> (r: Self)
        ensures
            r.wf(),
            r.bindings_spec() == bindings@,
            r.index_spec() == 0,
            r.rules_spec() == ButtonComboRules::NextMustBeReleased,
            r.tolerance_spec()@ == 250_000_000,
    {
        Self::new_with_tolerance(bindings, ButtonComboRules::NextMustBeReleased, Duration::from_millis(250))
    }

    /// Returns the amount of time allowed to pass before the combo gets reset.
    pub fn tolerance(&self) -> (r: Duration)
        ensures
            r == self.tolerance_spec(),
    {
        self.tolerance
    }

    /// Sets the amount of time allowed to pass before the combo gets reset.
    pub fn with_tolerance(self, tolerance: Duration) -> (r: Self)
        ensures
            r.tolerance_spec() == tolerance,
            r.bindings_spec() == self.bindings_spec(),
            r.index_spec() == self.index_spec(),
            r.last_hit_spec() == self.last_hit_spec(),
            r.rules_spec() == self.rules_spec(),
    {
        let mut s = self;
        s.tolerance = tolerance;
        s
    }

    /// Sets the rules.
    pub fn with_rules(self, rules: ButtonComboRules) -> (r: Self)
        ensures
            r.rules_spec() == rules,
            r.bindings_spec() == self.bindings_spec(),
            r.index_spec() == self.index_spec(),
            r.last_hit_spec() == self.last_hit_spec(),
            r.tolerance_spec() == self.tolerance_spec(),
    {
        let mut s = self;
        s.rules = rules;
        s
    }

    /// The binding expected next at the clock reading `now`: the first one once the time since
    /// the last hit exceeds the tolerance.
    pub fn expected_binding_at(&self, now: Instant) -> (r: &ButtonBindingKind)
        requires
            self.wf(),
            self.bindings_spec().len() > 0,
        ensures
            *r == self.bindings_spec()[expected_index(
                self.index_spec(),
                span_between(self.last_hit_spec()@, now@),
                self.tolerance_spec()@,
            ) as int],
    {
        let elapsed = now.duration_since(&self.last_hit);
        let i = if self.current_index != 0 && elapsed.as_nanos() > self.tolerance.as_nanos() {
            0
        } else {
            self.current_index
        };
        &self.actions[i]
    }

    /// Grabs the expected button binding that would need to happen in order for the combo to be progressed.
    ///
    /// # Warning
    ///
    /// If the timer between expected presses ran out, it will return the first binding.
    pub fn expected_binding(&self) -> (r: &ButtonBindingKind)
        requires
            self.wf(),
            self.bindings_spec().len() > 0,
        ensures
            exists|now: Instant|
                *r == self.bindings_spec()[expected_index(
                    self.index_spec(),
                    #[trigger] span_between(self.last_hit_spec()@, now@),
                    self.tolerance_spec()@,
                ) as int],
    {
        let now = Instant::now();
        self.expected_binding_at(now)
    }

    /// Grabs the binding after [`Self::expected_binding`] or `None` if the [`Self::expected_binding`] is the last
    /// binding to expect.
    pub fn next_binding(&self) -> (r: Option<&ButtonBindingKind>)
        requires
            self.wf(),
            self.bindings_spec().len() > 0,
        ensures
            self.index_spec() + 1 == self.bindings_spec().len() ==> r is None,
            self.index_spec() + 1 < self.bindings_spec().len() ==> r == Some(
                &self.bindings_spec()[self.index_spec() + 1 as int],
            ),
    {
        let len = self.actions.len();
        let i = self.current_index + 1;
        if i == len {
            None
        } else {
            Some(&self.actions[i])
        }
    }

    /// Grabs the binding before [`Self::expected_binding`] or `None` if the [`Self::expected_binding`] is the first
    /// binding to expect.
    pub fn previous_binding(&self) -> (r: Option<&ButtonBindingKind>)
        requires
            self.wf(),
            self.index_spec() == 0 || self.bindings_spec().len() > 0,
        ensures
            self.index_spec() == 0 ==> r is None,
            self.index_spec() > 0 ==> r == Some(&self.bindings_spec()[self.index_spec() - 1]),
    {
        if self.current_index == 0 {
            None
        } else {
            Some(&self.actions[self.current_index - 1])
        }
    }

    /// The binding expected next at the clock reading `now`, to change; the combo starts over
    /// first when the time since the last hit exceeds the tolerance.
    pub fn expected_binding_mut_at(&mut self, now: Instant) -> (r: &mut ButtonBindingKind)
        requires
            old(self).wf(),
            old(self).bindings_spec().len() > 0,
        ensures
            final(self).index_spec() == expected_index(
                old(self).index_spec(),
                span_between(old(self).last_hit_spec()@, now@),
                old(self).tolerance_spec()@,
            ),
            *r == old(self).bindings_spec()[final(self).index_spec() as int],
            final(self).bindings_spec() == old(self).bindings_spec().update(final(self).index_spec() as int, *final(r)),
            final(self).wf(),
            final(self).tolerance_spec() == old(self).tolerance_spec(),
            final(self).rules_spec() == old(self).rules_spec(),
            final(self).last_hit_spec() == old(self).last_hit_spec(),
    {
        let elapsed = now.duration_since(&self.last_hit);
        if self.current_index != 0 && elapsed.as_nanos() > self.tolerance.as_nanos() {
            self.current_index = 0;
        }
        let i = self.current_index;
        &mut self.actions[i]
    }

    /// Grabs the expected button binding that would need to happen in order for the combo to be progressed.
    ///
    /// # Warning
    ///
    /// This will update the state of the combo if the timer between expected presses has run out.
    ///
    /// If the duration between the last time `self.hit()` and the call of this function is greater than `self.tolerance`
    /// the combo will reset to the beginning of the combo.
    pub fn expected_binding_mut(&mut self) -> (r: &mut ButtonBindingKind)
        requires
            old(self).wf(),
            old(self).bindings_spec().len() > 0,
        ensures
            exists|now: Instant|
                final(self).index_spec() == expected_index(
                    old(self).index_spec(),
                    #[trigger] span_between(old(self).last_hit_spec()@, now@),
                    old(self).tolerance_spec()@,
                ),
            *r == old(self).bindings_spec()[final(self).index_spec() as int],
            final(self).bindings_spec() == old(self).bindings_spec().update(final(self).index_spec() as int, *final(r)),
            final(self).wf(),
            final(self).tolerance_spec() == old(self).tolerance_spec(),
            final(self).rules_spec() == old(self).rules_spec(),
            final(self).last_hit_spec() == old(self).last_hit_spec(),
    {
        let now = Instant::now();
        self.expected_binding_mut_at(now)
    }

    /// Grabs the binding after [`Self::expected_binding`] or `None` if the [`Self::expected_binding`] is the last
    /// binding to expect.
    pub fn next_binding_mut(&mut self) -> (r: Option<&mut ButtonBindingKind>)
        requires
            old(self).wf(),
            old(self).bindings_spec().len() > 0,
        ensures
            final(self).index_spec() == old(self).index_spec(),
            final(self).tolerance_spec() == old(self).tolerance_spec(),
            final(self).rules_spec() == old(self).rules_spec(),
            final(self).last_hit_spec() == old(self).last_hit_spec(),
            old(self).index_spec() + 1 == old(self).bindings_spec().len() ==> r is None && final(self).bindings_spec()
                == old(self).bindings_spec(),
            old(self).index_spec() + 1 < old(self).bindings_spec().len() ==> r is Some && *r->0 == old(
                self,
            ).bindings_spec()[old(self).index_spec() + 1 as int] && final(self).bindings_spec() == old(
                self,
            ).bindings_spec().update(old(self).index_spec() + 1 as int, *final(r->0)),
    {
        let len = self.actions.len();
        let i = self.current_index + 1;
        if i == len {
            None
        } else {
            Some(&mut self.actions[i])
        }
    }

    /// Grabs the binding before [`Self::expected_binding`] or `None` if the [`Self::expected_binding`] is the first
    /// binding to expect.
    pub fn previous_binding_mut(&mut self) -> (r: Option<&mut ButtonBindingKind>)
        requires
            old(self).wf(),
            old(self).index_spec() == 0 || old(self).bindings_spec().len() > 0,
        ensures
            final(self).index_spec() == old(self).index_spec(),
            final(self).tolerance_spec() == old(self).tolerance_spec(),
            final(self).rules_spec() == old(self).rules_spec(),
            final(self).last_hit_spec() == old(self).last_hit_spec(),
            old(self).index_spec() == 0 ==> r is None && final(self).bindings_spec() == old(self).bindings_spec(),
            old(self).index_spec() > 0 ==> r is Some && *r->0 == old(self).bindings_spec()[old(self).index_spec() - 1]
                && final(self).bindings_spec() == old(self).bindings_spec().update(
                old(self).index_spec() - 1,
                *final(r->0),
            ),
    {
        if self.current_index == 0 {
            None
        } else {
            let i = self.current_index - 1;
            Some(&mut self.actions[i])
        }
    }

    /// Tells the combo that the next expected button was pressed "on time", at the clock reading
    /// `now`. Returns `true` if the combo was completed, which also indicates that the combo will
    /// reset to expect the first button press.
    pub fn hit_at(&mut self, now: Instant) -> (r: bool)
        requires
            old(self).wf(),
            old(self).bindings_spec().len() > 0 || old(self).index_spec() < usize::MAX,
        ensures
            final(self).wf(),
            r == (old(self).index_spec() + 1 == old(self).bindings_spec().len()),
            final(self).index_spec() == if r { 0 } else { old(self).index_spec() + 1 },
            final(self).bindings_spec() == old(self).bindings_spec(),
            final(self).tolerance_spec() == old(self).tolerance_spec(),
            final(self).rules_spec() == old(self).rules_spec(),
            final(self).last_hit_spec() == now,
    {
        let len = self.actions.len();
        self.last_hit = now;
        let next = self.current_index + 1;
        let out = next == len;
        if out {
            self.current_index = 0;
        } else {
            self.current_index = next;
        }
        out
    }

    /// Tells the combo that the next expected button was pressed "on time". Returns `true` if the combo was
    /// completed, which also indicates that the combo will reset to expect the first button press.
    pub fn hit(&mut self) -> (r: bool)
        requires
            old(self).wf(),
            old(self).bindings_spec().len() > 0 || old(self).index_spec() < usize::MAX,
        ensures
            final(self).wf(),
            r == (old(self).index_spec() + 1 == old(self).bindings_spec().len()),
            final(self).index_spec() == if r { 0 } else { old(self).index_spec() + 1 },
            final(self).bindings_spec() == old(self).bindings_spec(),
            final(self).tolerance_spec() == old(self).tolerance_spec(),
            final(self).rules_spec() == old(self).rules_spec(),
    {
        let now = Instant::now();
        self.hit_at(now)
    }
}

#[derive(Debug, Clone, PartialEq)]
pub enum ButtonBinding {
    /// A set of [`ButtonBinding`] that must all be active at once to be active.
    Chord(ButtonChord),
    /// A set of [`ButtonBinding`] that must be pressed one after another to become active.
    Combo(ButtonCombo),
    /// standard button from bevy inputs
    Single(ButtonBindingKind),
}

impl ButtonBinding {
    /// The inputs read by this binding, in order.
    pub open spec fn kinds_spec(self) -> Seq<BevyInputKind> {
        match self {
            ButtonBinding::Chord(c) => kinds_of(c.bindings_spec()),
            ButtonBinding::Combo(c) => kinds_of(c.bindings_spec()),
            ButtonBinding::Single(input) => seq![input.kind_spec()],
        }
    }

    pub fn input_kinds(&self) -> (r: Vec<BevyInputKind>)
        ensures
            r@ == self.kinds_spec(),
    {
        match self {
            ButtonBinding::Chord(button_chord) => button_chord.input_kinds(),
            ButtonBinding::Combo(button_combo) => button_combo.input_kinds(),
            ButtonBinding::Single(input) => {
                let mut out: Vec<BevyInputKind> = Vec::new();
                out.push(input.kind());
                assert(out@ == seq![input.kind_spec()]);
                out
            },
        }
    }
}

impl From<GamepadButton> for BevyAxisButton {
    fn from(value: GamepadButton) -> Self {
        BevyAxisButton::new_standard(BevyAxisKind::GamepadButton(value))
    }
}

impl vstd::std_specs::convert::FromSpecImpl<GamepadButton> for BevyAxisButton {
    open spec fn obeys_from_spec() -> bool {
        true
    }

    open spec fn from_spec(value: GamepadButton) -> Self {
        BevyAxisButton::standard_spec(BevyAxisKind::GamepadButton(value))
    }
}

impl From<BevyAxisKind> for BevyAxisButton {
    fn from(value: BevyAxisKind) -> Self {
        BevyAxisButton::new_standard(value)
    }
}

impl vstd::std_specs::convert::FromSpecImpl<BevyAxisKind> for BevyAxisButton {
    open spec fn obeys_from_spec() -> bool {
        true
    }

    open spec fn from_spec(value: BevyAxisKind) -> Self {
        BevyAxisButton::standard_spec(value)
    }
}

impl From<KeyCode> for ButtonBindingKind {
    fn from(value: KeyCode) -> Self {
        ButtonBindingKind::Standard(BevyButtonKind::KeyCode(value))
    }
}

impl vstd::std_specs::convert::FromSpecImpl<KeyCode> for ButtonBindingKind {
    open spec fn obeys_from_spec() -> bool {
        true
    }

    open spec fn from_spec(value: KeyCode) -> Self {
        ButtonBindingKind::Standard(BevyButtonKind::KeyCode(value))
    }
}

impl From<MouseButton> for ButtonBindingKind {
    fn from(value: MouseButton) -> Self {
        ButtonBindingKind::Standard(BevyButtonKind::MouseButton(value))
    }
}

impl vstd::std_specs::convert::FromSpecImpl<MouseButton> for ButtonBindingKind {
    open spec fn obeys_from_spec() -> bool {
        true
    }

    open spec fn from_spec(value: MouseButton) -> Self {
        ButtonBindingKind::Standard(BevyButtonKind::MouseButton(value))
    }
}

impl From<GamepadButton> for ButtonBindingKind {
    fn from(value: GamepadButton) -> Self {
        ButtonBindingKind::Standard(BevyButtonKind::GamepadButton(value))
    }
}

impl vstd::std_specs::convert::FromSpecImpl<GamepadButton> for ButtonBindingKind {
    open spec fn obeys_from_spec() -> bool {
        true
    }

    open spec fn from_spec(value: GamepadButton) -> Self {
        ButtonBindingKind::Standard(BevyButtonKind::GamepadButton(value))
    }
}

impl From<BevyButtonKind> for ButtonBindingKind {
    fn from(value: BevyButtonKind) -> Self {
        ButtonBindingKind::Standard(value)
    }
}

impl vstd::std_specs::convert::FromSpecImpl<BevyButtonKind> for ButtonBindingKind {
    open spec fn obeys_from_spec() -> bool {
        true
    }

    open spec fn from_spec(value: BevyButtonKind) -> Self {
        ButtonBindingKind::Standard(value)
    }
}

impl From<BevyAxisKind> for ButtonBindingKind {
    fn from(value: BevyAxisKind) -> Self {
        ButtonBindingKind::Axis(BevyAxisButton::new_standard(value))
    }
}

impl vstd::std_specs::convert::FromSpecImpl<BevyAxisKind> for ButtonBindingKind {
    open spec fn obeys_from_spec() -> bool {
        true
    }

    open spec fn from_spec(value: BevyAxisKind) -> Self {
        ButtonBindingKind::Axis(BevyAxisButton::standard_spec(value))
    }
}

impl From<BevyInputKind> for ButtonBindingKind {
    fn from(value: BevyInputKind) -> Self {
        match value {
            BevyInputKind::Axis(bevy_axis_kind) => ButtonBindingKind::Axis(BevyAxisButton::new_standard(bevy_axis_kind)),
            BevyInputKind::Button(bevy_button_kind) => ButtonBindingKind::Standard(bevy_button_kind),
        }
    }
}

impl vstd::std_specs::convert::FromSpecImpl<BevyInputKind> for ButtonBindingKind {
    open spec fn obeys_from_spec() -> bool {
        true
    }

    open spec fn from_spec(value: BevyInputKind) -> Self {
        match value {
            BevyInputKind::Axis(bevy_axis_kind) => ButtonBindingKind::Axis(BevyAxisButton::standard_spec(bevy_axis_kind)),
            BevyInputKind::Button(bevy_button_kind) => ButtonBindingKind::Standard(bevy_button_kind),
        }
    }
}

impl From<BevyAxisButton> for ButtonBindingKind {
    fn from(value: BevyAxisButton) -> Self {
        ButtonBindingKind::Axis(value)
    }
}

impl vstd::std_specs::convert::FromSpecImpl<BevyAxisButton> for ButtonBindingKind {
    open spec fn obeys_from_spec() -> bool {
        true
    }

    open spec fn from_spec(value: BevyAxisButton) -> Self {
        ButtonBindingKind::Axis(value)
    }
}

impl From<KeyCode> for ButtonBinding {
    fn from(value: KeyCode) -> Self {
        ButtonBinding::Single(ButtonBindingKind::Standard(BevyButtonKind::KeyCode(value)))
    }
}

impl vstd::std_specs::convert::FromSpecImpl<KeyCode> for ButtonBinding {
    open spec fn obeys_from_spec() -> bool {
        true
    }

    open spec fn from_spec(value: KeyCode) -> Self {
        ButtonBinding::Single(ButtonBindingKind::Standard(BevyButtonKind::KeyCode(value)))
    }
}

impl From<MouseButton> for ButtonBinding {
    fn from(value: MouseButton) -> Self {
        ButtonBinding::Single(ButtonBindingKind::Standard(BevyButtonKind::MouseButton(value)))
    }
}

impl vstd::std_specs::convert::FromSpecImpl<MouseButton> for ButtonBinding {
    open spec fn obeys_from_spec() -> bool {
        true
    }

    open spec fn from_spec(value: MouseButton) -> Self {
        ButtonBinding::Single(ButtonBindingKind::Standard(BevyButtonKind::MouseButton(value)))
    }
}

impl From<GamepadButton> for ButtonBinding {
    fn from(value: GamepadButton) -> Self {
        ButtonBinding::Single(ButtonBindingKind::Standard(BevyButtonKind::GamepadButton(value)))
    }
}

impl vstd::std_specs::convert::FromSpecImpl<GamepadButton> for ButtonBinding {
    open spec fn obeys_from_spec() -> bool {
        true
    }

    open spec fn from_spec(value: GamepadButton) -> Self {
        ButtonBinding::Single(ButtonBindingKind::Standard(BevyButtonKind::GamepadButton(value)))
    }
}

impl From<ButtonCombo> for ButtonBinding {
    fn from(value: ButtonCombo) -> Self {
        ButtonBinding::Combo(value)
    }
}

impl vstd::std_specs::convert::FromSpecImpl<ButtonCombo> for ButtonBinding {
    open spec fn obeys_from_spec() -> bool {
        true
    }

    open spec fn from_spec(value: ButtonCombo) -> Self {
        ButtonBinding::Combo(value)
    }
}

impl From<ButtonChord> for ButtonBinding {
    fn from(value: ButtonChord) -> Self {
        ButtonBinding::Chord(value)
    }
}

impl vstd::std_specs::convert::FromSpecImpl<ButtonChord> for ButtonBinding {
    open spec fn obeys_from_spec() -> bool {
        true
    }

    open spec fn from_spec(value: ButtonChord) -> Self {
        ButtonBinding::Chord(value)
    }
}

impl From<BevyButtonKind> for ButtonBinding {
    fn from(value: BevyButtonKind) -> Self {
        ButtonBinding::Single(ButtonBindingKind::Standard(value))
    }
}

impl vstd::std_specs::convert::FromSpecImpl<BevyButtonKind> for ButtonBinding {
    open spec fn obeys_from_spec() -> bool {
        true
    }

    open spec fn from_spec(value: BevyButtonKind) -> Self {
        ButtonBinding::Single(ButtonBindingKind::Standard(value))
    }
}

impl From<BevyInputKind> for ButtonBinding {
    fn from(value: BevyInputKind) -> Self {
        ButtonBinding::Single(match value {
            BevyInputKind::Axis(bevy_axis_kind) => ButtonBindingKind::Axis(BevyAxisButton::new_standard(bevy_axis_kind)),
            BevyInputKind::Button(bevy_button_kind) => ButtonBindingKind::Standard(bevy_button_kind),
        })
    }
}

impl vstd::std_specs::convert::FromSpecImpl<BevyInputKind> for ButtonBinding {
    open spec fn obeys_from_spec() -> bool {
        true
    }

    open spec fn from_spec(value: BevyInputKind) -> Self {
        ButtonBinding::Single(match value {
            BevyInputKind::Axis(bevy_axis_kind) => ButtonBindingKind::Axis(BevyAxisButton::standard_spec(bevy_axis_kind)),
            BevyInputKind::Button(bevy_button_kind) => ButtonBindingKind::Standard(bevy_button_kind),
        })
    }
}

/// Describes if the state of a [`ActionableState`] changed and how.
#[derive(Debug, Clone, Copy, PartialEq, Eq, Structural)]
pub enum ActionableStateTick {
    /// No change
    Unchanged,
    /// The state changed state but did not transition.
    Changed,
    /// The state became [`ActionableState::JustPressed`] or [`ActionableState::JustReleased`]
    Transitioned,
}

/// Describes the state of a button.
#[derive(Debug, Hash, Copy, Clone, PartialEq, Eq, Structural)]
pub enum ActionableState {
    /// Button is not pressed.
    Released,
    /// Button was pressed this frame.
    JustPressed,
    /// Button has been pressed for more than one frame.
    Pressed,
    /// Button was `Pressed` or `JustPressed` before this frame but is no longer pressed.
    JustReleased,
}

impl Default for ActionableState {
    fn default() -> (r: Self)
        ensures
            r == ActionableState::Released,
    {
        ActionableState::Released
    }
}

impl ActionableState {
    pub open spec fn is_pressed_spec(self) -> bool {
        self is JustPressed || self is Pressed
    }

    pub open spec fn is_released_spec(self) -> bool {
        self is JustReleased || self is Released
    }

    /// The state after one frame in which the button was `pressed` or not.
    pub open spec fn ticked(self, pressed: bool) -> ActionableState {
        if pressed {
            match self {
                ActionableState::Released | ActionableState::JustReleased => ActionableState::JustPressed,
                _ => ActionableState::Pressed,
            }
        } else {
            match self {
                ActionableState::Pressed | ActionableState::JustPressed => ActionableState::JustReleased,
                _ => ActionableState::Released,
            }
        }
    }

    /// How a frame in which the button was `pressed` or not changes the state.
    pub open spec fn tick_outcome(self, pressed: bool) -> ActionableStateTick {
        if pressed != self.is_pressed_spec() {
            ActionableStateTick::Transitioned
        } else if self is JustPressed || self is JustReleased {
            ActionableStateTick::Changed
        } else {
            ActionableStateTick::Unchanged
        }
    }

    /// Updates `self` to appropriate state using `pressed` to drive the simple state of the input.
    ///
    /// if:
    ///   - `pressed == true && self.is_pressed && !self.is_just_pressed` => No Change.
    ///   - `pressed == true && self.is_just_pressed` => Change to `ActionableState::Pressed`.
    ///   - `pressed == true && self.is_released` => Transition to `ActionableState::JustPressed`.
    ///   - `pressed == false && self.is_released && !self.is_just_release` => No Change.
    ///   - `pressed == false && self.is_just_release` => Change to `ActionableState::Released`.
    ///   - `pressed == false && self.is_pressed` => Transition to `ActionableState::JustReleased`.
    pub fn tick(&mut self, pressed: bool) -> (r: ActionableStateTick)
        ensures
            *final(self) == old(self).ticked(pressed),
            r == old(self).tick_outcome(pressed),
    {
        if pressed {
            match self {
                ActionableState::Released | ActionableState::JustReleased => {
                    *self = ActionableState::JustPressed;
                    ActionableStateTick::Transitioned
                },
                ActionableState::JustPressed => {
                    *self = ActionableState::Pressed;
                    ActionableStateTick::Changed
                },
                _ => ActionableStateTick::Unchanged,
            }
        } else {
            match self {
                ActionableState::Pressed | ActionableState::JustPressed => {
                    *self = ActionableState::JustReleased;
                    ActionableStateTick::Transitioned
                },
                ActionableState::Released => ActionableStateTick::Unchanged,
                ActionableState::JustReleased => {
                    *self = ActionableState::Released;
                    ActionableStateTick::Changed
                },
            }
        }
    }

    pub fn is_released(&self) -> (r: bool)
        ensures
            r == self.is_released_spec(),
    {
        match self {
            ActionableState::JustReleased | ActionableState::Released => true,
            _ => false,
        }
    }

    pub fn is_pressed(&self) -> (r: bool)
        ensures
            r == self.is_pressed_spec(),
    {
        match self {
            ActionableState::JustPressed | ActionableState::Pressed => true,
            _ => false,
        }
    }

    pub fn is_just_pressed(&self) -> (r: bool)
        ensures
            r == (*self is JustPressed),
    {
        match self {
            ActionableState::JustPressed => true,
            _ => false,
        }
    }

    pub fn is_just_released(&self) -> (r: bool)
        ensures
            r == (*self is JustReleased),
    {
        match self {
            ActionableState::JustReleased => true,
            _ => false,
        }
    }
}

/// Whether a button in state `kind`, pressed `elapsed` ago, has been held for `duration`.
pub open spec fn held_for_spec(kind: ActionableState, elapsed: nat, duration: nat) -> bool {
    kind is Pressed && elapsed >= duration
}

/// Whether a button in state `kind`, pressed `elapsed` ago, has been held for at least `start`
/// and less than `stop`.
pub open spec fn held_range_spec(kind: ActionableState, elapsed: nat, start: nat, stop: nat) -> bool {
    kind is Pressed && elapsed >= start && elapsed < stop
}

/// The start of a button in state `kind`, last transitioned at `start`, after it is fed
/// `pressed` at the clock reading `now`: a transition starts at `now`.
pub open spec fn start_after_feed(kind: ActionableState, pressed: bool, start: Instant, now: Instant) -> Instant {
    if kind.tick_outcome(pressed) == ActionableStateTick::Transitioned {
        now
    } else {
        start
    }
}

/// A stored [`ActionableState`] and the [`Instant`] of [`Self::feed`] changed the state to
/// [`ActionableState::JustPressed`] or [`ActionableState::JustReleased`].
#[derive(Debug, Hash, Copy, Clone, PartialEq, Eq, Structural)]
pub struct ButtonState {
    kind: ActionableState,
    start: Instant,
}

impl ButtonState {
    pub closed spec fn kind_spec(&self) -> ActionableState {
        self.kind
    }

    pub closed spec fn start_spec(&self) -> Instant {
        self.start
    }

    /// A state of the given kind, last transitioned at `start`.
    pub fn from_parts(kind: ActionableState, start: Instant) -> (r: Self)
        ensures
            r.kind_spec() == kind,
            r.start_spec() == start,
    {
        ButtonState { kind, start }
    }

    /// The button an axis reading stands for: pressed when some of `values` is non-zero,
    /// released when all are zero, last transitioned at `start`.
    pub fn from_axes(values: &[AxisValue], start: Instant) -> (r: Self)
        ensures
            r.kind_spec() == (if exists|i: int| 0 <= i < values@.len() && !bits_are_zero(#[trigger] values@[i]@) {
                ActionableState::Pressed
            } else {
                ActionableState::Released
            }),
            r.start_spec() == start,
    {
        let mut pressed = false;
        let mut i: usize = 0;
        while i < values.len()
            invariant
                i <= values@.len(),
                pressed == exists|j: int| 0 <= j < i && !bits_are_zero(#[trigger] values@[j]@),
            decreases values@.len() - i,
        {
            if !values[i].is_zero() {
                pressed = true;
            }
            i = i + 1;
        }
        ButtonState { kind: if pressed { ActionableState::Pressed } else { ActionableState::Released }, start }
    }

    /// A released state that transitioned now.
    pub fn new_released() -> (r: Self)
        ensures
            r.kind_spec() == ActionableState::Released,
    {
        ButtonState { kind: ActionableState::Released, start: Instant::now() }
    }

    /// The axis readings this state stands for: `1.0` while pressed, `0.0` while released, for the
    /// previous and the current frame.
    pub fn value_state(&self) -> (r: ValueState)
        ensures
            r.previous_spec()@ == pressed_bits_of(!(self.kind_spec() is Released || self.kind_spec() is JustPressed)),
            r.current_spec()@ == pressed_bits_of(self.kind_spec().is_pressed_spec()),
            r.last_transition_spec() == self.start_spec(),
    {
        let (previous, current) = match self.kind {
            ActionableState::Released => (AxisValue::zero(), AxisValue::zero()),
            ActionableState::JustPressed => (AxisValue::zero(), AxisValue::one()),
            ActionableState::Pressed => (AxisValue::one(), AxisValue::one()),
            ActionableState::JustReleased => (AxisValue::one(), AxisValue::zero()),
        };
        ValueState::new(previous, current, self.start)
    }

    pub fn kind(&self) -> (r: &ActionableState)
        ensures
            *r == self.kind_spec(),
    {
        &self.kind
    }

    /// For a pressed state, the time from its last transition to the clock reading `now`; `None`
    /// otherwise.
    pub open spec fn held_duration_at(self, now: Instant) -> Option<Duration> {
        if self.kind_spec() is Pressed {
            Some(now.span_since(self.start_spec()))
        } else {
            None
        }
    }

    /// The time passed between the clock reading `now` and the last time the internal state
    /// was changed to [`ActionableState::JustPressed`] or [`ActionableState::JustReleased`].
    pub fn last_transition_at(&self, now: Instant) -> (r: Duration)
        ensures
            r@ == span_between(self.start_spec()@, now@),
            r == now.span_since(self.start_spec()),
    {
        now.duration_since(&self.start)
    }

    /// The amount of time passed between now and the last time the internal state
    /// was changed to [`ActionableState::JustPressed`] or [`ActionableState::JustReleased`].
    pub fn last_transition(&self) -> (r: Duration)
        ensures
            exists|now: Instant| r@ == #[trigger] span_between(self.start_spec()@, now@),
    {
        let now = Instant::now();
        self.last_transition_at(now)
    }

    /// Returns `true` if the internal [`ActionableState`] is `JustPressed`.
    pub fn just_pressed(&self) -> (r: bool)
        ensures
            r == (self.kind_spec() is JustPressed),
    {
        self.kind.is_just_pressed()
    }

    /// Returns `true` if the internal [`ActionableState`] is `JustPressed` or `Pressed`.
    pub fn pressed(&self) -> (r: bool)
        ensures
            r == self.kind_spec().is_pressed_spec(),
    {
        self.kind.is_pressed()
    }

    /// Returns `true` if the internal [`ActionableState`] is `Pressed` and the time since the last
    /// transition at the clock reading `now` is greater than or equal to `duration`.
    ///
    /// Note that a state of `JustPressed` will always return `false`.
    pub fn held_for_at(&self, duration: &Duration, now: Instant) -> (r: bool)
        ensures
            r == held_for_spec(self.kind_spec(), span_between(self.start_spec()@, now@), duration@),
    {
        match self.kind {
            ActionableState::Pressed => {
                let elapsed = self.last_transition_at(now);
                elapsed.as_nanos() >= duration.as_nanos()
            },
            _ => false,
        }
    }

    /// Returns `true` if the internal [`ActionableState`] is `Pressed` and the result of [`Self::last_transition`]
    /// is greater than or equal to `duration`.
    ///
    /// Note that a state of `JustPressed` will always return `false`.
    pub fn held_for(&self, duration: &Duration) -> (r: bool)
        ensures
            exists|now: Instant|
                r == held_for_spec(self.kind_spec(), #[trigger] span_between(self.start_spec()@, now@), duration@),
    {
        let now = Instant::now();
        self.held_for_at(duration, now)
    }

    /// Returns `true` if the internal [`ActionableState`] is `Pressed` and the time since the last
    /// transition at the clock reading `now` is at least `start` and less than `stop`.
    pub fn held_range_at(&self, start: &Duration, stop: &Duration, now: Instant) -> (r: bool)
        ensures
            r == held_range_spec(self.kind_spec(), span_between(self.start_spec()@, now@), start@, stop@),
    {
        let elapsed = self.last_transition_at(now);
        self.kind.is_pressed() && !self.kind.is_just_pressed() && elapsed.as_nanos() >= start.as_nanos()
            && elapsed.as_nanos() < stop.as_nanos()
    }

    /// Returns `true` if the internal [`ActionableState`] is `Pressed` and the result of [`Self::last_transition`]
    /// is greater than or equal to `start` and less than `stop`.
    pub fn held_range(&self, start: &Duration, stop: &Duration) -> (r: bool)
        ensures
            exists|now: Instant|
                r == held_range_spec(self.kind_spec(), #[trigger] span_between(self.start_spec()@, now@), start@, stop@),
    {
        let now = Instant::now();
        self.held_range_at(start, stop, now)
    }

    /// For a pressed state, the time since the last transition at the clock reading `now`;
    /// `None` otherwise.
    pub fn try_get_held_duration_at(&self, now: Instant) -> (r: Option<Duration>)
        ensures
            r == self.held_duration_at(now),
    {
        match self.kind {
            ActionableState::Pressed => Some(self.last_transition_at(now)),
            _ => None,
        }
    }

    /// Returns time elapsed for a pressed state or `None`.
    pub fn try_get_held_duration(&self) -> (r: Option<Duration>)
        ensures
            r is Some <==> self.kind_spec() is Pressed,
            exists|now: Instant| r == #[trigger] self.held_duration_at(now),
    {
        let now = Instant::now();
        self.try_get_held_duration_at(now)
    }

    /// Returns `true` if the internal [`ActionableState`] is `JustReleased`.
    pub fn just_released(&self) -> (r: bool)
        ensures
            r == (self.kind_spec() is JustReleased),
    {
        self.kind.is_just_released()
    }

    /// Returns `true` if the internal [`ActionableState`] is `JustReleased` or `Released`.
    pub fn released(&self) -> (r: bool)
        ensures
            r == self.kind_spec().is_released_spec(),
    {
        self.kind.is_released()
    }

    /// `pressed` will feed the internal state at the clock reading `now`; a transition into
    /// `JustPressed` or `JustReleased` records `now` as its start.
    ///
    /// Returning `true` signifies that the internal state has changed.
    pub fn feed_at(&mut self, pressed: bool, now: Instant) -> (r: bool)
        ensures
            final(self).kind_spec() == old(self).kind_spec().ticked(pressed),
            r == (old(self).kind_spec().tick_outcome(pressed) != ActionableStateTick::Unchanged),
            r == (final(self).kind_spec() != old(self).kind_spec()),
            final(self).start_spec() == start_after_feed(old(self).kind_spec(), pressed, old(self).start_spec(), now),
    {
        match self.kind.tick(pressed) {
            ActionableStateTick::Unchanged => false,
            ActionableStateTick::Changed => true,
            ActionableStateTick::Transitioned => {
                self.start = now;
                true
            },
        }
    }

    /// `pressed` will feed the internal state `true` meaning that the action is being held.
    ///
    /// Returning `true` signifies that the internal state has changed.
    pub fn feed(&mut self, pressed: bool) -> (r: bool)
        ensures
            final(self).kind_spec() == old(self).kind_spec().ticked(pressed),
            r == (old(self).kind_spec().tick_outcome(pressed) != ActionableStateTick::Unchanged),
            r == (final(self).kind_spec() != old(self).kind_spec()),
            exists|now: Instant|
                final(self).start_spec() == #[trigger] start_after_feed(old(self).kind_spec(), pressed, old(self).start_spec(), now),
    {
        let now = Instant::now();
        self.feed_at(pressed, now)
    }
}

/// The bit pattern of `1.0` for `true` and of `0.0` for `false`.
pub open spec fn pressed_bits_of(pressed: bool) -> u32 {
    if pressed { ONE_BITS } else { 0 }
}

impl Default for ButtonState {
    fn default() -> (r: Self)
        ensures
            r.kind_spec() == ActionableState::Released,
    {
        ButtonState::new_released()
    }
}

/// What a [`ButtonEventBinding`] asks for when it fires: its event, and for
/// [`ButtonEventBinding::CapturePressDuration`] how long the button has been held.
#[derive(Clone, Copy, Debug, PartialEq, Eq, Structural)]
pub enum EventTrigger<E> {
    /// Produce the event.
    Fire(E),
    /// Produce the event from the duration the button has been held.
    FireWithDuration(E, Duration),
}

/// Conditionals for a [`ActionBinding`] to emit an event.
///
/// `E` is what the binding hands back when it fires, usually the function that builds the
/// message.
#[derive(Clone, Copy, Debug, PartialEq)]
pub enum ButtonEventBinding<E> {
    /// When the state transitions to `JustPressed`.
    WhenPressed(E),
    /// While the state is `Pressed`.
    WhilePressed(E),
    /// When the state is `Pressed` for a duration.
    WhenPressedFor(Duration, E, bool),
    /// While the state is `Pressed` for a duration.
    WhilePressedFor(Duration, E),
    /// While the state is `Pressed` for a duration between `start` sand `stop`.
    PressedRange { start: Duration, end: Duration, event: E },
    /// Passes the [`Duration`] the state has been Pressed into your function allowing you to optionally return
    /// a message if you want it sent.
    CapturePressDuration(E),
    /// When the state transitions to `JustReleased`.
    WhenReleased(E),
    /// While the state is `Released`.
    WhileReleased(E),
    /// Never send messages
    Never,
}

impl<E: Copy> ButtonEventBinding<E> {
    /// The binding after it looks at a button in state `kind` whose last transition lies
    /// `elapsed` back, and what it fires.
    pub open spec fn step(self, kind: ActionableState, elapsed: Duration) -> (Self, Option<EventTrigger<E>>) {
        match self {
            ButtonEventBinding::WhenPressed(ev) => (
                self,
                if kind is JustPressed { Some(EventTrigger::Fire(ev)) } else { None },
            ),
            ButtonEventBinding::WhilePressed(ev) => (
                self,
                if kind.is_pressed_spec() { Some(EventTrigger::Fire(ev)) } else { None },
            ),
            ButtonEventBinding::WhenPressedFor(d, ev, activated) => if held_for_spec(kind, elapsed@, d@) {
                if !activated {
                    (ButtonEventBinding::WhenPressedFor(d, ev, true), Some(EventTrigger::Fire(ev)))
                } else {
                    (self, None)
                }
            } else {
                (ButtonEventBinding::WhenPressedFor(d, ev, false), None)
            },
            ButtonEventBinding::WhilePressedFor(d, ev) => (
                self,
                if held_for_spec(kind, elapsed@, d@) { Some(EventTrigger::Fire(ev)) } else { None },
            ),
            ButtonEventBinding::PressedRange { start, end, event } => (
                self,
                if held_range_spec(kind, elapsed@, start@, end@) {
                    Some(EventTrigger::Fire(event))
                } else {
                    None
                },
            ),
            ButtonEventBinding::CapturePressDuration(ev) => (
                self,
                if kind is Pressed { Some(EventTrigger::FireWithDuration(ev, elapsed)) } else { None },
            ),
            ButtonEventBinding::WhenReleased(ev) => (
                self,
                if kind is JustReleased { Some(EventTrigger::Fire(ev)) } else { None },
            ),
            ButtonEventBinding::WhileReleased(ev) => (
                self,
                if kind.is_released_spec() { Some(EventTrigger::Fire(ev)) } else { None },
            ),
            ButtonEventBinding::Never => (self, None),
        }
    }

    pub fn is_none(&self) -> (r: bool)
        ensures
            r == (*self is Never),
    {
        match self {
            ButtonEventBinding::Never => true,
            _ => false,
        }
    }

    /// Looks at `state` at the clock reading `now` and returns what fires, if anything. Only
    /// [`ButtonEventBinding::WhenPressedFor`] changes: it remembers whether it fired during the
    /// current hold.
    pub fn try_get_event_at(&mut self, state: &ButtonState, now: Instant) -> (r: Option<EventTrigger<E>>)
        ensures
            (*final(self), r) == old(self).step(state.kind_spec(), now.span_since(state.start_spec())),
    {
        let elapsed = state.last_transition_at(now);
        proof {
            now.lemma_span_since(state.start_spec());
        }
        match *self {
            ButtonEventBinding::WhenPressed(event) => {
                if state.just_pressed() { Some(EventTrigger::Fire(event)) } else { None }
            },
            ButtonEventBinding::WhilePressed(event) => {
                if state.pressed() { Some(EventTrigger::Fire(event)) } else { None }
            },
            ButtonEventBinding::WhenPressedFor(duration, event, activated) => {
                let held = state.held_for_at(&duration, now);
                if held {
                    if !activated {
                        *self = ButtonEventBinding::WhenPressedFor(duration, event, true);
                        Some(EventTrigger::Fire(event))
                    } else {
                        None
                    }
                } else {
                    *self = ButtonEventBinding::WhenPressedFor(duration, event, false);
                    None
                }
            },
            ButtonEventBinding::WhilePressedFor(duration, event) => {
                if state.held_for_at(&duration, now) { Some(EventTrigger::Fire(event)) } else { None }
            },
            ButtonEventBinding::PressedRange { start, end, event } => {
                if state.held_range_at(&start, &end, now) { Some(EventTrigger::Fire(event)) } else { None }
            },
            ButtonEventBinding::CapturePressDuration(event) => {
                match state.kind() {
                    ActionableState::Pressed => Some(EventTrigger::FireWithDuration(event, elapsed)),
                    _ => None,
                }
            },
            ButtonEventBinding::WhenReleased(event) => {
                if state.just_released() { Some(EventTrigger::Fire(event)) } else { None }
            },
            ButtonEventBinding::WhileReleased(event) => {
                if state.released() { Some(EventTrigger::Fire(event)) } else { None }
            },
            ButtonEventBinding::Never => None,
        }
    }

    /// Looks at `state` and returns what fires, if anything. Only
    /// [`ButtonEventBinding::WhenPressedFor`] changes: it remembers whether it fired during the
    /// current hold.
    pub fn try_get_event(&mut self, state: &ButtonState) -> (r: Option<EventTrigger<E>>)
        ensures
            exists|now: Instant|
                (*final(self), r) == old(self).step(state.kind_spec(), #[trigger] now.span_since(state.start_spec())),
    {
        let now = Instant::now();
        self.try_get_event_at(state, now)
    }

    pub fn none() -> (r: Self)
        ensures
            r is Never,
    {
        ButtonEventBinding::Never
    }

    pub fn when_pressed(event: E) -> (r: Self)
        ensures
            r == ButtonEventBinding::WhenPressed(event),
    {
        ButtonEventBinding::WhenPressed(event)
    }

    pub fn while_pressed(event: E) -> (r: Self)
        ensures
            r == ButtonEventBinding::WhilePressed(event),
    {
        ButtonEventBinding::WhilePressed(event)
    }

    pub fn when_released(event: E) -> (r: Self)
        ensures
            r == ButtonEventBinding::WhenReleased(event),
    {
        ButtonEventBinding::WhenReleased(event)
    }

    pub fn while_released(event: E) -> (r: Self)
        ensures
            r == ButtonEventBinding::WhileReleased(event),
    {
        ButtonEventBinding::WhileReleased(event)
    }

    pub fn when_pressed_for(event: E, duration: Duration) -> (r: Self)
        ensures
            r == ButtonEventBinding::WhenPressedFor(duration, event, false),
    {
        ButtonEventBinding::WhenPressedFor(duration, event, false)
    }

    pub fn while_pressed_for(event: E, duration: Duration) -> (r: Self)
        ensures
            r == ButtonEventBinding::WhilePressedFor(duration, event),
    {
        ButtonEventBinding::WhilePressedFor(duration, event)
    }

    pub fn pressed_range(event: E, start: Duration, end: Duration) -> (r: Self)
        ensures
            r == (ButtonEventBinding::PressedRange { start, end, event }),
    {
        ButtonEventBinding::PressedRange { start, end, event }
    }

    pub fn capture_press_duration(event: E) -> (r: Self)
        ensures
            r == ButtonEventBinding::CapturePressDuration(event),
    {
        ButtonEventBinding::CapturePressDuration(event)
    }
}

/// The inputs read by a list of button bindings, one binding after another.
pub open spec fn action_kinds(bindings: Seq<ButtonBinding>) -> Seq<BevyInputKind>
    decreases bindings.len(),
{
    if bindings.len() == 0 {
        seq![]
    } else {
        action_kinds(bindings.drop_last()) + bindings.last().kinds_spec()
    }
}

/// An Action or Button with an [`ActionableState`], one or many [`ButtonBinding`], and a [`ButtonEventBinding<E>`].
pub struct ActionBinding<E> {
    bindings: Vec<ButtonBinding>,
    event: ButtonEventBinding<E>,
    state: ButtonState,
    mocked: bool,
}

impl<E: Copy> ActionBinding<E> {
    pub closed spec fn bindings_spec(&self) -> Seq<ButtonBinding> {
        self.bindings@
    }

    pub closed spec fn event_spec(&self) -> ButtonEventBinding<E> {
        self.event
    }

    pub closed spec fn state_spec(&self) -> ButtonState {
        self.state
    }

    pub closed spec fn mocked_spec(&self) -> bool {
        self.mocked
    }

    pub fn input_kinds(&self) -> (r: Vec<BevyInputKind>)
        ensures
            r@ == action_kinds(self.bindings_spec()),
    {
        let mut out: Vec<BevyInputKind> = Vec::new();
        let mut i: usize = 0;
        while i < self.bindings.len()
            invariant
                i <= self.bindings@.len(),
                out@ == action_kinds(self.bindings@.subrange(0, i as int)),
            decreases self.bindings@.len() - i,
        {
            let mut kinds = self.bindings[i].input_kinds();
            out.append(&mut kinds);
            assert(self.bindings@.subrange(0, i + 1).drop_last() == self.bindings@.subrange(0, i as int));
            i = i + 1;
        }
        assert(self.bindings@.subrange(0, self.bindings@.len() as int) == self.bindings@);
        out
    }

    pub fn bindings(&self) -> (r: &[ButtonBinding])
        ensures
            r@ == self.bindings_spec(),
    {
        self.bindings.as_slice()
    }

    pub fn bindings_mut(&mut self) -> (r: &mut [ButtonBinding])
        ensures
            r@ == old(self).bindings_spec(),
            final(self).bindings_spec() == final(r)@,
            final(self).event_spec() == old(self).event_spec(),
            final(self).state_spec() == old(self).state_spec(),
            final(self).mocked_spec() == old(self).mocked_spec(),
    {
        self.bindings.as_mut_slice()
    }

    /// Returns `true` if the internal [`ActionableState`] is `JustPressed`.
    pub fn just_pressed(&self) -> (r: bool)
        ensures
            r == (self.state_spec().kind_spec() is JustPressed),
    {
        self.state.just_pressed()
    }

    /// Returns `true` if the internal [`ActionableState`] is `JustPressed` or `Pressed`.
    pub fn pressed(&self) -> (r: bool)
        ensures
            r == self.state_spec().kind_spec().is_pressed_spec(),
    {
        self.state.pressed()
    }

    /// Returns `true` if the internal [`ActionableState`] is `Pressed` and the time since its last
    /// transition, at the clock reading `now`, is greater than or equal to `duration`.
    pub fn held_for_at(&self, duration: &Duration, now: Instant) -> (r: bool)
        ensures
            r == held_for_spec(self.state_spec().kind_spec(), span_between(self.state_spec().start_spec()@, now@), duration@),
    {
        self.state.held_for_at(duration, now)
    }

    /// Returns `true` if the internal [`ActionableState`] is `Pressed` and the time since its last
    /// transition is greater than or equal to `duration`.
    ///
    /// Note that a state of `JustPressed` will always return `false`.
    pub fn held_for(&self, duration: &Duration) -> (r: bool)
        ensures
            exists|now: Instant|
                r == held_for_spec(
                    self.state_spec().kind_spec(),
                    #[trigger] span_between(self.state_spec().start_spec()@, now@),
                    duration@,
                ),
    {
        self.state.held_for(duration)
    }

    /// Returns `true` if the internal [`ActionableState`] is `Pressed` and the time since its last
    /// transition, at the clock reading `now`, is at least `start` and less than `stop`.
    pub fn held_range_at(&self, start: &Duration, stop: &Duration, now: Instant) -> (r: bool)
        ensures
            r == held_range_spec(
                self.state_spec().kind_spec(),
                span_between(self.state_spec().start_spec()@, now@),
                start@,
                stop@,
            ),
    {
        self.state.held_range_at(start, stop, now)
    }

    /// Returns `true` if the internal [`ActionableState`] is `Pressed` and the time since its last
    /// transition is greater than or equal to `start` and less than `stop`.
    pub fn held_range(&self, start: &Duration, stop: &Duration) -> (r: bool)
        ensures
            exists|now: Instant|
                r == held_range_spec(
                    self.state_spec().kind_spec(),
                    #[trigger] span_between(self.state_spec().start_spec()@, now@),
                    start@,
                    stop@,
                ),
    {
        self.state.held_range(start, stop)
    }

    /// For a pressed state, the time since its last transition at the clock reading `now`;
    /// `None` otherwise.
    pub fn try_get_held_duration_at(&self, now: Instant) -> (r: Option<Duration>)
        ensures
            r == self.state_spec().held_duration_at(now),
    {
        self.state.try_get_held_duration_at(now)
    }

    /// Returns time elapsed for a pressed state or `None`.
    pub fn try_get_held_duration(&self) -> (r: Option<Duration>)
        ensures
            r is Some <==> self.state_spec().kind_spec() is Pressed,
            exists|now: Instant| r == #[trigger] self.state_spec().held_duration_at(now),
    {
        self.state.try_get_held_duration()
    }

    /// Returns `true` if the internal [`ActionableState`] is `JustReleased`.
    pub fn just_released(&self) -> (r: bool)
        ensures
            r == (self.state_spec().kind_spec() is JustReleased),
    {
        self.state.just_released()
    }

    /// Returns `true` if the internal [`ActionableState`] is `JustReleased` or `Released`.
    pub fn released(&self) -> (r: bool)
        ensures
            r == self.state_spec().kind_spec().is_released_spec(),
    {
        self.state.released()
    }

    pub fn new(bindings: Vec<ButtonBinding>, event: ButtonEventBinding<E>) -> (r: Self)
        ensures
            r.bindings_spec() == bindings@,
            r.event_spec() == event,
            r.state_spec().kind_spec() == ActionableState::Released,
            !r.mocked_spec(),
    {
        ActionBinding { bindings, event, state: ButtonState::new_released(), mocked: false }
    }

    pub fn new_no_event(bindings: Vec<ButtonBinding>) -> (r: Self)
        ensures
            r.bindings_spec() == bindings@,
            r.event_spec() is Never,
            r.state_spec().kind_spec() == ActionableState::Released,
            !r.mocked_spec(),
    {
        ActionBinding { bindings, event: ButtonEventBinding::Never, state: ButtonState::new_released(), mocked: false }
    }

    /// Returns a reference to the current state of the binding.
    pub fn state(&self) -> (r: &ButtonState)
        ensures
            *r == self.state_spec(),
    {
        &self.state
    }

    /// What feeding `pressed` at the clock reading `now` does to the state start and the event
    /// binding of `before`, giving `after` and firing `r`: a transition starts at `now`, and the
    /// event binding looks at the new state only when the state changed.
    pub open spec fn fed_at(before: Self, after: Self, pressed: bool, now: Instant, r: Option<EventTrigger<E>>) -> bool {
        &&& after.state_spec().start_spec() == start_after_feed(
            before.state_spec().kind_spec(),
            pressed,
            before.state_spec().start_spec(),
            now,
        )
        &&& after.state_spec().kind_spec() == before.state_spec().kind_spec() ==> {
            &&& r is None
            &&& after.event_spec() == before.event_spec()
        }
        &&& after.state_spec().kind_spec() != before.state_spec().kind_spec() ==> (after.event_spec(), r)
            == before.event_spec().step(after.state_spec().kind_spec(), now.span_since(after.state_spec().start_spec()))
    }

    /// Feeds the state of the binding at the clock reading `now` and returns what its event
    /// binding fires, if the state changed.
    pub fn feed_at(&mut self, pressed: bool, now: Instant) -> (r: Option<EventTrigger<E>>)
        ensures
            final(self).state_spec().kind_spec() == old(self).state_spec().kind_spec().ticked(pressed),
            final(self).bindings_spec() == old(self).bindings_spec(),
            final(self).mocked_spec() == old(self).mocked_spec(),
            Self::fed_at(*old(self), *final(self), pressed, now, r),
    {
        if self.state.feed_at(pressed, now) {
            self.event.try_get_event_at(&self.state, now)
        } else {
            None
        }
    }

    /// Feeds the state of the binding and returns what its event binding fires, if the state
    /// changed.
    pub fn feed(&mut self, pressed: bool) -> (r: Option<EventTrigger<E>>)
        ensures
            final(self).state_spec().kind_spec() == old(self).state_spec().kind_spec().ticked(pressed),
            final(self).bindings_spec() == old(self).bindings_spec(),
            final(self).mocked_spec() == old(self).mocked_spec(),
            exists|now: Instant| #[trigger] Self::fed_at(*old(self), *final(self), pressed, now, r),
    {
        let now = Instant::now();
        self.feed_at(pressed, now)
    }

    /// Marks the binding as pressed (or not) by default.
    pub fn mock(&mut self, pressed: bool)
        ensures
            final(self).mocked_spec() == pressed,
            final(self).bindings_spec() == old(self).bindings_spec(),
            final(self).event_spec() == old(self).event_spec(),
            final(self).state_spec() == old(self).state_spec(),
    {
        self.mocked = pressed;
    }

    /// Clears the mocked press.
    pub fn mock_clear(&mut self)
        ensures
            !final(self).mocked_spec(),
            final(self).bindings_spec() == old(self).bindings_spec(),
            final(self).event_spec() == old(self).event_spec(),
            final(self).state_spec() == old(self).state_spec(),
    {
        self.mocked = false;
    }

    /// Whether the binding is marked as pressed by default.
    pub fn mocked(&self) -> (r: bool)
        ensures
            r == self.mocked_spec(),
    {
        self.mocked
    }
}

/// An action binding holds a `Vec`, which no spec value builds, so each conversion below is
/// stated by the `ensures` of its `from` alone.
impl<E: Copy> From<(ButtonBinding, ButtonEventBinding<E>)> for ActionBinding<E> {
    fn from(value: (ButtonBinding, ButtonEventBinding<E>)) -> (r: Self)
        ensures
            r.bindings_spec() == seq![value.0],
            r.event_spec() == value.1,
            r.state_spec().kind_spec() == ActionableState::Released,
            !r.mocked_spec(),
    {
        ActionBinding::new(vec![value.0], value.1)
    }
}

impl<E: Copy> vstd::std_specs::convert::FromSpecImpl<(ButtonBinding, ButtonEventBinding<E>)> for ActionBinding<E> {
    open spec fn obeys_from_spec() -> bool {
        false
    }

    open spec fn from_spec(value: (ButtonBinding, ButtonEventBinding<E>)) -> Self {
        arbitrary()
    }
}

impl<E: Copy> From<ButtonBinding> for ActionBinding<E> {
    fn from(value: ButtonBinding) -> (r: Self)
        ensures
            r.bindings_spec() == seq![value],
            r.event_spec() is Never,
            r.state_spec().kind_spec() == ActionableState::Released,
            !r.mocked_spec(),
    {
        ActionBinding::new_no_event(vec![value])
    }
}

impl<E: Copy> vstd::std_specs::convert::FromSpecImpl<ButtonBinding> for ActionBinding<E> {
    open spec fn obeys_from_spec() -> bool {
        false
    }

    open spec fn from_spec(value: ButtonBinding) -> Self {
        arbitrary()
    }
}

impl<E: Copy> From<KeyCode> for ActionBinding<E> {
    fn from(value: KeyCode) -> (r: Self)
        ensures
            r.bindings_spec() == seq![ButtonBinding::Single(ButtonBindingKind::Standard(BevyButtonKind::KeyCode(value)))],
            r.event_spec() is Never,
            r.state_spec().kind_spec() == ActionableState::Released,
            !r.mocked_spec(),
    {
        ActionBinding::new_no_event(vec![ButtonBinding::Single(ButtonBindingKind::from(value))])
    }
}

impl<E: Copy> vstd::std_specs::convert::FromSpecImpl<KeyCode> for ActionBinding<E> {
    open spec fn obeys_from_spec() -> bool {
        false
    }

    open spec fn from_spec(value: KeyCode) -> Self {
        arbitrary()
    }
}

impl<E: Copy> From<MouseButton> for ActionBinding<E> {
    fn from(value: MouseButton) -> (r: Self)
        ensures
            r.bindings_spec() == seq![ButtonBinding::Single(ButtonBindingKind::Standard(BevyButtonKind::MouseButton(value)))],
            r.event_spec() is Never,
            r.state_spec().kind_spec() == ActionableState::Released,
            !r.mocked_spec(),
    {
        ActionBinding::new_no_event(vec![ButtonBinding::Single(ButtonBindingKind::from(value))])
    }
}

impl<E: Copy> vstd::std_specs::convert::FromSpecImpl<MouseButton> for ActionBinding<E> {
    open spec fn obeys_from_spec() -> bool {
        false
    }

    open spec fn from_spec(value: MouseButton) -> Self {
        arbitrary()
    }
}

impl<E: Copy> From<GamepadButton> for ActionBinding<E> {
    fn from(value: GamepadButton) -> (r: Self)
        ensures
            r.bindings_spec() == seq![ButtonBinding::Single(ButtonBindingKind::Standard(BevyButtonKind::GamepadButton(value)))],
            r.event_spec() is Never,
            r.state_spec().kind_spec() == ActionableState::Released,
            !r.mocked_spec(),
    {
        ActionBinding::new_no_event(vec![ButtonBinding::Single(ButtonBindingKind::from(value))])
    }
}

impl<E: Copy> vstd::std_specs::convert::FromSpecImpl<GamepadButton> for ActionBinding<E> {
    open spec fn obeys_from_spec() -> bool {
        false
    }

    open spec fn from_spec(value: GamepadButton) -> Self {
        arbitrary()
    }
}

impl<E: Copy> From<Vec<ButtonBinding>> for ActionBinding<E> {
    fn from(value: Vec<ButtonBinding>) -> (r: Self)
        ensures
            r.bindings_spec() == value@,
            r.event_spec() is Never,
            r.state_spec().kind_spec() == ActionableState::Released,
            !r.mocked_spec(),
    {
        ActionBinding::new_no_event(value)
    }
}

impl<E: Copy> vstd::std_specs::convert::FromSpecImpl<Vec<ButtonBinding>> for ActionBinding<E> {
    open spec fn obeys_from_spec() -> bool {
        false
    }

    open spec fn from_spec(value: Vec<ButtonBinding>) -> Self {
        arbitrary()
    }
}

impl<E: Copy> From<(Vec<ButtonBinding>, ButtonEventBinding<E>)> for ActionBinding<E> {
    fn from(value: (Vec<ButtonBinding>, ButtonEventBinding<E>)) -> (r: Self)
        ensures
            r.bindings_spec() == value.0@,
            r.event_spec() == value.1,
            r.state_spec().kind_spec() == ActionableState::Released,
            !r.mocked_spec(),
    {
        ActionBinding::new(value.0, value.1)
    }
}

impl<E: Copy> vstd::std_specs::convert::FromSpecImpl<(Vec<ButtonBinding>, ButtonEventBinding<E>)> for ActionBinding<E> {
    open spec fn obeys_from_spec() -> bool {
        false
    }

    open spec fn from_spec(value: (Vec<ButtonBinding>, ButtonEventBinding<E>)) -> Self {
        arbitrary()
    }
}

impl<E: Copy> From<ButtonChord> for ActionBinding<E> {
    fn from(value: ButtonChord) -> (r: Self)
        ensures
            r.bindings_spec() == seq![ButtonBinding::Chord(value)],
            r.event_spec() is Never,
            r.state_spec().kind_spec() == ActionableState::Released,
            !r.mocked_spec(),
    {
        ActionBinding::new_no_event(vec![ButtonBinding::Chord(value)])
    }
}

impl<E: Copy> vstd::std_specs::convert::FromSpecImpl<ButtonChord> for ActionBinding<E> {
    open spec fn obeys_from_spec() -> bool {
        false
    }

    open spec fn from_spec(value: ButtonChord) -> Self {
        arbitrary()
    }
}

impl<E: Copy> From<ButtonCombo> for ActionBinding<E> {
    fn from(value: ButtonCombo) -> (r: Self)
        ensures
            r.bindings_spec() == seq![ButtonBinding::Combo(value)],
            r.event_spec() is Never,
            r.state_spec().kind_spec() == ActionableState::Released,
            !r.mocked_spec(),
    {
        ActionBinding::new_no_event(vec![ButtonBinding::Combo(value)])
    }
}

impl<E: Copy> vstd::std_specs::convert::FromSpecImpl<ButtonCombo> for ActionBinding<E> {
    open spec fn obeys_from_spec() -> bool {
        false
    }

    open spec fn from_spec(value: ButtonCombo) -> Self {
        arbitrary()
    }
}

/// The step index of a combo of `len` bindings after one hit at step `index`.
pub open spec fn combo_next_index(index: nat, len: nat) -> nat {
    if index + 1 == len {
        0
    } else {
        index + 1
    }
}

/// The step index of a combo of `len` bindings after `hits` hits from the first step.
pub open spec fn combo_index_after(hits: nat, len: nat) -> nat
    decreases hits,
{
    if hits == 0 {
        0
    } else {
        combo_next_index(combo_index_after((hits - 1) as nat, len), len)
    }
}

/// A button fed the same press twice settles: held buttons end `Pressed`, released ones
/// `Released`, whatever the state before.
pub proof fn lemma_tick_settles(state: ActionableState, pressed: bool)
    ensures
        state.ticked(pressed).ticked(pressed) == if pressed {
            ActionableState::Pressed
        } else {
            ActionableState::Released
        },
{
}

/// After a tick the state is pressed exactly when the button was, and the tick is a transition
/// exactly when that differs from before.
pub proof fn lemma_tick_tracks_press(state: ActionableState, pressed: bool)
    ensures
        state.ticked(pressed).is_pressed_spec() == pressed,
        state.ticked(pressed).is_released_spec() == !pressed,
        (state.tick_outcome(pressed) == ActionableStateTick::Transitioned) == (state.is_pressed_spec() != pressed),
        state.ticked(pressed) is JustPressed ==> state.is_released_spec(),
        state.ticked(pressed) is JustReleased ==> state.is_pressed_spec(),
{
}

/// A combo of `len` bindings walks through its steps in order and completes on the `len`-th hit,
/// where it starts over.
pub proof fn lemma_combo_walks_steps(len: nat, hits: nat)
    requires
        len > 0,
        hits <= len,
    ensures
        combo_index_after(hits, len) == if hits == len { 0 } else { hits },
    decreases hits,
{
    if hits > 0 {
        lemma_combo_walks_steps(len, (hits - 1) as nat);
    }
}

/// [`ButtonEventBinding::WhenPressedFor`] fires once per hold: right after it fires, the next
/// look fires nothing, held or not; a look at a button that is not held re-arms it.
pub proof fn lemma_when_pressed_for_fires_once<E: Copy>(
    binding: ButtonEventBinding<E>,
    kind: ActionableState,
    elapsed: Duration,
    next_kind: ActionableState,
    next_elapsed: Duration,
)
    requires
        binding is WhenPressedFor,
        binding.step(kind, elapsed).1 is Some,
    ensures
        binding.step(kind, elapsed).0.step(next_kind, next_elapsed).1 is None,
        !held_for_spec(next_kind, next_elapsed@, binding->WhenPressedFor_0@) ==> binding.step(kind, elapsed).0.step(
            next_kind,
            next_elapsed,
        ).0 == ButtonEventBinding::WhenPressedFor(binding->WhenPressedFor_0, binding->WhenPressedFor_1, false),
{
}


/// Feeding a button moves its start to the clock reading exactly when the state changes into
/// [`ActionableState::JustPressed`] or [`ActionableState::JustReleased`]; otherwise the start stays.
pub proof fn lemma_feed_restarts_on_transition(kind: ActionableState, pressed: bool, start: Instant, now: Instant)
    ensures
        (kind.ticked(pressed) != kind && (kind.ticked(pressed) is JustPressed || kind.ticked(pressed) is JustReleased))
            ==> start_after_feed(kind, pressed, start, now) == now,
        !(kind.ticked(pressed) != kind && (kind.ticked(pressed) is JustPressed || kind.ticked(pressed) is JustReleased))
            ==> start_after_feed(kind, pressed, start, now) == start,
{
}

/// A released button pressed at `first` and still pressed at `second` is held, and the time it
/// has been held at any later clock reading `now` counts from `first`.
pub proof fn lemma_hold_counts_from_the_press(
    before: ButtonState,
    mid: ButtonState,
    after: ButtonState,
    first: Instant,
    second: Instant,
    now: Instant,
)
    requires
        before.kind_spec().is_released_spec(),
        mid.kind_spec() == before.kind_spec().ticked(true),
        mid.start_spec() == start_after_feed(before.kind_spec(), true, before.start_spec(), first),
        after.kind_spec() == mid.kind_spec().ticked(true),
        after.start_spec() == start_after_feed(mid.kind_spec(), true, mid.start_spec(), second),
    ensures
        mid.kind_spec() is JustPressed,
        after.kind_spec() is Pressed,
        after.held_duration_at(now) == Some(now.span_since(first)),
        after.held_duration_at(now).unwrap()@ == span_between(first@, now@),
{
    now.lemma_span_since(first);
}

/// A combo whose last hit lies further back than its tolerance expects its first binding again;
/// within the tolerance it expects the binding it stands at.
pub proof fn lemma_combo_times_out(current: nat, elapsed: nat, tolerance: nat)
    ensures
        elapsed > tolerance ==> expected_index(current, elapsed, tolerance) == 0,
        elapsed <= tolerance ==> expected_index(current, elapsed, tolerance) == current,
{
}


/// What each event binding fires on a button in state `kind` whose last transition lies
/// `elapsed` back: `WhenPressed` on the frame of the press, `WhilePressed` while held,
/// `WhenReleased` on the frame of the release, `WhileReleased` while not held, the timed
/// bindings only once the press has settled and lasted long enough, `CapturePressDuration` with
/// the time held, and `Never` nothing. Only `WhenPressedFor` changes.
pub proof fn lemma_event_fires_on_its_condition<E: Copy>(binding: ButtonEventBinding<E>, kind: ActionableState, elapsed: Duration)
    ensures
        binding matches ButtonEventBinding::WhenPressed(e) ==> binding.step(kind, elapsed) == (
            binding,
            if kind == ActionableState::JustPressed { Some(EventTrigger::Fire(e)) } else { None },
        ),
        binding matches ButtonEventBinding::WhilePressed(e) ==> binding.step(kind, elapsed) == (
            binding,
            if kind == ActionableState::JustPressed || kind == ActionableState::Pressed {
                Some(EventTrigger::Fire(e))
            } else {
                None
            },
        ),
        binding matches ButtonEventBinding::WhenReleased(e) ==> binding.step(kind, elapsed) == (
            binding,
            if kind == ActionableState::JustReleased { Some(EventTrigger::Fire(e)) } else { None },
        ),
        binding matches ButtonEventBinding::WhileReleased(e) ==> binding.step(kind, elapsed) == (
            binding,
            if kind == ActionableState::JustReleased || kind == ActionableState::Released {
                Some(EventTrigger::Fire(e))
            } else {
                None
            },
        ),
        binding matches ButtonEventBinding::WhilePressedFor(d, e) ==> binding.step(kind, elapsed) == (
            binding,
            if kind == ActionableState::Pressed && elapsed@ >= d@ { Some(EventTrigger::Fire(e)) } else { None },
        ),
        binding matches ButtonEventBinding::PressedRange { start, end, event } ==> binding.step(kind, elapsed) == (
            binding,
            if kind == ActionableState::Pressed && start@ <= elapsed@ && elapsed@ < end@ {
                Some(EventTrigger::Fire(event))
            } else {
                None
            },
        ),
        binding matches ButtonEventBinding::CapturePressDuration(e) ==> binding.step(kind, elapsed) == (
            binding,
            if kind == ActionableState::Pressed { Some(EventTrigger::FireWithDuration(e, elapsed)) } else { None },
        ),
        binding matches ButtonEventBinding::WhenPressedFor(d, e, fired) ==> binding.step(kind, elapsed) == if kind
            == ActionableState::Pressed && elapsed@ >= d@ {
            if fired {
                (binding, None)
            } else {
                (ButtonEventBinding::WhenPressedFor(d, e, true), Some(EventTrigger::Fire(e)))
            }
        } else {
            (ButtonEventBinding::WhenPressedFor(d, e, false), None)
        },
        binding is Never ==> binding.step(kind, elapsed) == (binding, None::<EventTrigger<E>>),
{
}

} // verus!
