//! Axis-like state.
use vstd::prelude::*;

use crate::button::{ActionableState, ButtonBinding, ButtonState};
use crate::clash::{ClashableKind, clashable_of, clashables_of};
use crate::time::{Duration, Instant, span_between};
use crate::{AxisValue, BevyAxisKind, BevyInputKind, bits_are_zero};

verus! {

#[derive(Debug, Clone, Copy, PartialEq, Eq, PartialOrd, Ord, Hash, Structural)]
pub enum MouseAxis {
    MotionX,
    MotionY,
    ScrollX,
    ScrollY,
}

/// A button whose state drives one direction of an axis.
#[derive(Debug, Clone, PartialEq)]
pub struct AxisBindingButton {
    pub binding: ButtonBinding,
    pub state: ButtonState,
}

impl AxisBindingButton {
    /// Wraps `binding` with a fresh, released state.
    pub fn from_binding(binding: ButtonBinding) -> (r: Self)
        ensures
            r.binding == binding,
            r.state.kind_spec() == ActionableState::Released,
    {
        AxisBindingButton { binding, state: ButtonState::new_released() }
    }
}

/// The input that drives an axis binding.
#[derive(Debug, Clone, PartialEq)]
pub enum AxisBindingKind {
    Mouse(MouseAxis),
    GamepadAxis(bevy::input::gamepad::GamepadAxis),
    GamepadButton(bevy::input::gamepad::GamepadButton),
    Buttons { plus: Option<AxisBindingButton>, minus: Option<AxisBindingButton> },
    Mock(AxisValue),
}

/// The inputs read by the button behind one direction of an axis, if there is one.
pub open spec fn direction_kinds(button: Option<AxisBindingButton>) -> Seq<BevyInputKind> {
    match button {
        Some(b) => b.binding.kinds_spec(),
        None => seq![],
    }
}

impl AxisBindingKind {
    /// The inputs of `bevy_input` this axis reads, in order.
    pub open spec fn input_kinds_spec(&self) -> Seq<BevyInputKind> {
        match self {
            AxisBindingKind::Mouse(m) => seq![BevyInputKind::Axis(BevyAxisKind::MouseAxis(*m))],
            AxisBindingKind::GamepadAxis(a) => seq![BevyInputKind::Axis(BevyAxisKind::GamepadAxis(*a))],
            AxisBindingKind::GamepadButton(b) => seq![BevyInputKind::Axis(BevyAxisKind::GamepadButton(*b))],
            AxisBindingKind::Buttons { plus, minus } => direction_kinds(*plus) + direction_kinds(*minus),
            AxisBindingKind::Mock(_) => seq![],
        }
    }

    /// The clashable inputs this axis reads, in order.
    pub open spec fn clashables_spec(&self) -> Seq<ClashableKind> {
        self.input_kinds_spec().map_values(|k: BevyInputKind| clashable_of(k))
    }

    /// The inputs of `bevy_input` this axis reads, in order.
    pub fn input_kinds(&self) -> (r: Vec<BevyInputKind>)
        ensures
            r@ == self.input_kinds_spec(),
    {
        let mut out: Vec<BevyInputKind> = Vec::new();
        match self {
            AxisBindingKind::Mouse(m) => out.push(BevyInputKind::Axis(BevyAxisKind::MouseAxis(*m))),
            AxisBindingKind::GamepadAxis(a) => out.push(BevyInputKind::Axis(BevyAxisKind::GamepadAxis(*a))),
            AxisBindingKind::GamepadButton(b) => out.push(BevyInputKind::Axis(BevyAxisKind::GamepadButton(*b))),
            AxisBindingKind::Buttons { plus, minus } => {
                match plus {
                    Some(p) => {
                        let mut kinds = p.binding.input_kinds();
                        out.append(&mut kinds);
                    },
                    None => {},
                }
                match minus {
                    Some(m) => {
                        let mut kinds = m.binding.input_kinds();
                        out.append(&mut kinds);
                    },
                    None => {},
                }
            },
            AxisBindingKind::Mock(_) => {},
        }
        assert(out@ =~= self.input_kinds_spec());
        out
    }

    /// The clashable inputs this axis reads, in order.
    pub fn clashables(&self) -> (r: Vec<ClashableKind>)
        ensures
            r@ == self.clashables_spec(),
    {
        let kinds = self.input_kinds();
        clashables_of(kinds.as_slice())
    }
}

/// The clashable inputs read by the axes `kinds`, one axis after the other.
pub open spec fn axes_clashables(kinds: Seq<AxisBindingKind>) -> Seq<ClashableKind>
    decreases kinds.len(),
{
    if kinds.len() == 0 {
        seq![]
    } else {
        axes_clashables(kinds.drop_last()) + kinds.last().clashables_spec()
    }
}

/// The clashable inputs read by the axes `kinds`, one axis after the other.
pub fn clashables_of_axes(kinds: &[AxisBindingKind]) -> (r: Vec<ClashableKind>)
    ensures
        r@ == axes_clashables(kinds@),
{
    let mut out: Vec<ClashableKind> = Vec::new();
    let mut i: usize = 0;
    while i < kinds.len()
        invariant
            i <= kinds@.len(),
            out@ == axes_clashables(kinds@.subrange(0, i as int)),
        decreases kinds@.len() - i,
    {
        let mut more = kinds[i].clashables();
        out.append(&mut more);
        assert(kinds@.subrange(0, i + 1).drop_last() == kinds@.subrange(0, i as int));
        i = i + 1;
    }
    assert(kinds@.subrange(0, kinds@.len() as int) == kinds@);
    out
}

/// Whether an axis whose current reading has bit pattern `current`, moved `elapsed` ago, has
/// been non-zero for `duration`.
pub open spec fn value_held_for(current: u32, elapsed: nat, duration: nat) -> bool {
    !bits_are_zero(current) && elapsed >= duration
}

/// Whether such an axis has been non-zero for at least `start` and less than `stop`.
pub open spec fn value_held_range(current: u32, elapsed: nat, start: nat, stop: nat) -> bool {
    !bits_are_zero(current) && elapsed >= start && elapsed < stop
}

/// The transition point of an axis read `current`, last moved at `last`, after it reads `value`
/// at the clock reading `now`: crossing between zero and non-zero moves it to `now`.
pub open spec fn transition_after_feed(current: u32, value: u32, last: Instant, now: Instant) -> Instant {
    if bits_are_zero(current) != bits_are_zero(value) {
        now
    } else {
        last
    }
}

/// The last two readings of an axis and the point in time at which it last moved between zero
/// and non-zero.
pub struct ValueState {
    previous: AxisValue,
    /// The last value feed into this binding.
    current: AxisValue,
    /// Last instant that the value transitioned from zero to a non-zero value or a non-zero value to zero.
    last_transition: Instant,
}

/// The button state that an axis with readings `previous` then `current` stands for.
pub open spec fn axis_actionable_state(previous: u32, current: u32) -> ActionableState {
    if !bits_are_zero(current) {
        if bits_are_zero(previous) {
            ActionableState::JustPressed
        } else {
            ActionableState::Pressed
        }
    } else {
        if bits_are_zero(previous) {
            ActionableState::Released
        } else {
            ActionableState::JustReleased
        }
    }
}

impl ValueState {
    pub closed spec fn previous_spec(&self) -> AxisValue {
        self.previous
    }

    pub closed spec fn current_spec(&self) -> AxisValue {
        self.current
    }

    pub closed spec fn last_transition_spec(&self) -> Instant {
        self.last_transition
    }

    /// A state with the given readings and transition point.
    pub fn new(previous: AxisValue, current: AxisValue, last_transition: Instant) -> (r: Self)
        ensures
            r.previous_spec() == previous,
            r.current_spec() == current,
            r.last_transition_spec() == last_transition,
    {
        ValueState { previous, current, last_transition }
    }

    /// The button state this axis stands for: non-zero readings are presses.
    pub fn action_state(&self) -> (r: ButtonState)
        ensures
            r.kind_spec() == axis_actionable_state(self.previous_spec()@, self.current_spec()@),
            r.start_spec() == self.last_transition_spec(),
    {
        let kind = if self.pressed() {
            if self.previous.is_zero() {
                ActionableState::JustPressed
            } else {
                ActionableState::Pressed
            }
        } else {
            if self.previous.is_zero() {
                ActionableState::Released
            } else {
                ActionableState::JustReleased
            }
        };
        ButtonState::from_parts(kind, self.last_transition)
    }

    pub fn current(&self) -> (r: AxisValue)
        ensures
            r == self.current_spec(),
    {
        self.current
    }

    pub fn previous(&self) -> (r: AxisValue)
        ensures
            r == self.previous_spec(),
    {
        self.previous
    }

    /// The time passed between the clock reading `now` and the last time the reading moved
    /// between zero and non-zero.
    pub fn last_transition_at(&self, now: Instant) -> (r: Duration)
        ensures
            r@ == span_between(self.last_transition_spec()@, now@),
            r == now.span_since(self.last_transition_spec()),
    {
        now.duration_since(&self.last_transition)
    }

    /// The amount of time passed between now and the last time the internal state transitioned from:
    /// - 0 to a non-zero value.
    /// - A non-zero value to 0.
    pub fn last_transition(&self) -> (r: Duration)
        ensures
            exists|now: Instant| r@ == #[trigger] span_between(self.last_transition_spec()@, now@),
    {
        let now = Instant::now();
        self.last_transition_at(now)
    }

    /// Returns `true` if the previous reading was zero and the current one is not.
    pub fn just_pressed(&self) -> (r: bool)
        ensures
            r == (bits_are_zero(self.previous_spec()@) && !bits_are_zero(self.current_spec()@)),
    {
        self.previous.is_zero() && !self.current.is_zero()
    }

    /// Returns `true` if the current reading is non-zero.
    pub fn pressed(&self) -> (r: bool)
        ensures
            r == !bits_are_zero(self.current_spec()@),
    {
        !self.current.is_zero()
    }

    /// Returns `true` if, at the clock reading `now`, the reading has been non-zero for `duration`.
    pub fn held_for_at(&self, duration: &Duration, now: Instant) -> (r: bool)
        ensures
            r == value_held_for(self.current_spec()@, span_between(self.last_transition_spec()@, now@), duration@),
    {
        let elapsed = self.last_transition_at(now);
        self.pressed() && elapsed.as_nanos() >= duration.as_nanos()
    }

    /// Returns `true` if the internal state has been a non-zero value for `duration`, otherwise `false`.
    pub fn held_for(&self, duration: &Duration) -> (r: bool)
        ensures
            exists|now: Instant|
                r == value_held_for(
                    self.current_spec()@,
                    #[trigger] span_between(self.last_transition_spec()@, now@),
                    duration@,
                ),
    {
        let now = Instant::now();
        self.held_for_at(duration, now)
    }

    /// Returns `true` if, at the clock reading `now`, the reading has been non-zero for at least
    /// `start` but less than `stop`.
    pub fn held_range_at(&self, start: &Duration, stop: &Duration, now: Instant) -> (r: bool)
        ensures
            r == value_held_range(
                self.current_spec()@,
                span_between(self.last_transition_spec()@, now@),
                start@,
                stop@,
            ),
    {
        let elapsed = self.last_transition_at(now);
        self.pressed() && elapsed.as_nanos() >= start.as_nanos() && elapsed.as_nanos() < stop.as_nanos()
    }

    /// Returns `true` if the internal state has been a non-zero value for at least `start` but less than `stop`.
    pub fn held_range(&self, start: &Duration, stop: &Duration) -> (r: bool)
        ensures
            exists|now: Instant|
                r == value_held_range(
                    self.current_spec()@,
                    #[trigger] span_between(self.last_transition_spec()@, now@),
                    start@,
                    stop@,
                ),
    {
        let now = Instant::now();
        self.held_range_at(start, stop, now)
    }

    /// For a non-zero reading, the time since the last transition at the clock reading `now`;
    /// `None` otherwise.
    pub open spec fn held_duration_at(self, now: Instant) -> Option<Duration> {
        if !bits_are_zero(self.current_spec()@) {
            Some(now.span_since(self.last_transition_spec()))
        } else {
            None
        }
    }

    /// For a non-zero reading, the time since the last transition at the clock reading `now`;
    /// `None` otherwise.
    pub fn try_get_held_duration_at(&self, now: Instant) -> (r: Option<Duration>)
        ensures
            r == self.held_duration_at(now),
    {
        if self.pressed() {
            Some(self.last_transition_at(now))
        } else {
            None
        }
    }

    /// Returns time elapsed for the internal state being a non-zero value state or `None`.
    pub fn try_get_held_duration(&self) -> (r: Option<Duration>)
        ensures
            r is Some <==> !bits_are_zero(self.current_spec()@),
            exists|now: Instant| r == #[trigger] self.held_duration_at(now),
    {
        let now = Instant::now();
        self.try_get_held_duration_at(now)
    }

    /// Returns `true` if the previous reading was non-zero and the current one is zero.
    pub fn just_released(&self) -> (r: bool)
        ensures
            r == (!bits_are_zero(self.previous_spec()@) && bits_are_zero(self.current_spec()@)),
    {
        !self.previous.is_zero() && self.current.is_zero()
    }

    /// Returns `true` if the current reading is zero.
    pub fn released(&self) -> (r: bool)
        ensures
            r == bits_are_zero(self.current_spec()@),
    {
        self.current.is_zero()
    }

    /// `value` will feed the internal current state at the clock reading `now`: the transition
    /// point moves to `now` when the reading crosses between zero and non-zero.
    pub fn feed_at(&mut self, value: AxisValue, now: Instant)
        ensures
            final(self).previous_spec() == old(self).current_spec(),
            final(self).current_spec() == value,
            final(self).last_transition_spec() == transition_after_feed(
                old(self).current_spec()@,
                value@,
                old(self).last_transition_spec(),
                now,
            ),
    {
        let cur_zero = self.current.is_zero();
        let new_zero = value.is_zero();
        if (cur_zero && !new_zero) || (!cur_zero && new_zero) {
            self.last_transition = now;
        }
        self.previous = self.current;
        self.current = value;
    }

    /// `value` will feed the internal current state and update necessary values.
    ///
    /// The transition point is moved to the current time when the reading crosses between zero
    /// and non-zero.
    pub fn feed(&mut self, value: AxisValue)
        ensures
            final(self).previous_spec() == old(self).current_spec(),
            final(self).current_spec() == value,
            exists|now: Instant|
                final(self).last_transition_spec() == #[trigger] transition_after_feed(
                    old(self).current_spec()@,
                    value@,
                    old(self).last_transition_spec(),
                    now,
                ),
    {
        let now = Instant::now();
        self.feed_at(value, now)
    }

    /// The point in time at which the reading last moved between zero and non-zero.
    pub fn transition_instant(&self) -> (r: Instant)
        ensures
            r == self.last_transition_spec(),
    {
        self.last_transition
    }

    /// A state with both readings zero, transitioned now.
    pub fn new_zero() -> (r: Self)
        ensures
            r.previous_spec()@ == 0,
            r.current_spec()@ == 0,
    {
        ValueState { previous: AxisValue::zero(), current: AxisValue::zero(), last_transition: Instant::now() }
    }
}

impl Default for ValueState {
    fn default() -> (r: Self)
        ensures
            r.previous_spec()@ == 0,
            r.current_spec()@ == 0,
    {
        ValueState::new_zero()
    }
}

/// Reading a button state as axis values and back as a button state gives the same state.
pub proof fn lemma_value_state_round_trip(kind: ActionableState)
    ensures
        axis_actionable_state(
            crate::button::pressed_bits_of(!(kind is Released || kind is JustPressed)),
            crate::button::pressed_bits_of(kind.is_pressed_spec()),
        ) == kind,
{
}

/// An axis fed through a [`ValueState`] follows the button state machine: after reading `next`,
/// its button state is the previous one ticked with whether `next` is non-zero.
pub proof fn lemma_axis_follows_tick(previous: u32, current: u32, next: u32)
    ensures
        axis_actionable_state(current, next) == axis_actionable_state(previous, current).ticked(!bits_are_zero(next)),
{
}

} // verus!
