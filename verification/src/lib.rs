//! Action bindings for game input: button state machines, chords, combos and the
//! clash resolution that decides which binding may see a shared input.
pub mod axis;
pub mod bevy_types;
pub mod button;
pub mod clash;
pub mod clash_manager;
pub mod manager;
pub mod org;
pub mod settings;
pub mod systems;
pub mod time;

use vstd::prelude::*;

use crate::axis::MouseAxis;
use bevy::input::gamepad::{GamepadAxis, GamepadButton};
use bevy::input::keyboard::KeyCode;
use bevy::input::mouse::MouseButton;

verus! {

/// The bit pattern of `1.0_f32`.
pub const ONE_BITS: u32 = 0x3f80_0000;

/// The bit pattern of `-0.0_f32`.
pub const NEGATIVE_ZERO_BITS: u32 = 0x8000_0000;

/// The bit pattern of positive infinity; every larger pattern below the sign bit is a NaN.
pub const POSITIVE_INFINITY_BITS: u32 = 0x7f80_0000;

/// The bit pattern of negative infinity; every larger pattern is a NaN.
pub const NEGATIVE_INFINITY_BITS: u32 = 0xff80_0000;

/// An axis reading, held as the IEEE-754 bit pattern of an `f32`.
///
/// Only the comparisons the binding logic needs are offered here; arithmetic on readings
/// stays with the caller.
#[derive(Clone, Copy, Debug, PartialEq, Eq, Structural)]
pub struct AxisValue {
    bits: u32,
}

/// An `f32` compares equal to zero exactly when its bits are those of `0.0` or `-0.0`.
pub open spec fn bits_are_zero(bits: u32) -> bool {
    bits == 0 || bits == NEGATIVE_ZERO_BITS
}

/// An `f32` is greater than zero exactly when its sign bit is clear, it is not zero and it is
/// not a NaN.
pub open spec fn bits_are_positive(bits: u32) -> bool {
    0 < bits <= POSITIVE_INFINITY_BITS
}

/// An `f32` is less than zero exactly when its sign bit is set, it is not `-0.0` and it is
/// not a NaN.
pub open spec fn bits_are_negative(bits: u32) -> bool {
    NEGATIVE_ZERO_BITS < bits <= NEGATIVE_INFINITY_BITS
}

impl View for AxisValue {
    type V = u32;

    closed spec fn view(&self) -> u32 {
        self.bits
    }
}

impl AxisValue {
    /// The reading whose `f32` bit pattern is `bits`.
    pub fn from_bits(bits: u32) -> (r: Self)
        ensures
            r@ == bits,
    {
        AxisValue { bits }
    }

    /// The `f32` bit pattern of this reading.
    pub fn to_bits(&self) -> (r: u32)
        ensures
            r == self@,
    {
        self.bits
    }

    /// The reading `0.0`.
    pub fn zero() -> (r: Self)
        ensures
            r@ == 0,
    {
        AxisValue { bits: 0 }
    }

    /// The reading `1.0`.
    pub fn one() -> (r: Self)
        ensures
            r@ == ONE_BITS,
    {
        AxisValue { bits: ONE_BITS }
    }

    /// `true` when the reading compares equal to `0.0` (so `-0.0` is zero and a NaN is not).
    pub fn is_zero(&self) -> (r: bool)
        ensures
            r == bits_are_zero(self@),
    {
        self.bits == 0 || self.bits == NEGATIVE_ZERO_BITS
    }

    /// `true` when the reading is greater than `0.0`.
    pub fn is_positive(&self) -> (r: bool)
        ensures
            r == bits_are_positive(self@),
    {
        0 < self.bits && self.bits <= POSITIVE_INFINITY_BITS
    }

    /// `true` when the reading is less than `0.0`.
    pub fn is_negative(&self) -> (r: bool)
        ensures
            r == bits_are_negative(self@),
    {
        NEGATIVE_ZERO_BITS < self.bits && self.bits <= NEGATIVE_INFINITY_BITS
    }
}

/// Default logic for converting a axis value to a button press.
///
/// non-zero value are `true`, zero returns `false`.
pub fn value_to_press(val: AxisValue) -> (r: bool)
    ensures
        r == !bits_are_zero(val@),
{
    !val.is_zero()
}

/// The bit pattern that `pressed_to_value` gives for `pressed`.
pub open spec fn pressed_bits(pressed: bool) -> u32 {
    if pressed { ONE_BITS } else { 0 }
}

/// Default logic for converting a button press to axis value.
///
/// when `pressed` is `true` `1.0` will be returned, otherwise `0.0` is returned.
pub fn pressed_to_value(pressed: bool) -> (r: AxisValue)
    ensures
        r@ == pressed_bits(pressed),
{
    if pressed {
        AxisValue::one()
    } else {
        AxisValue::zero()
    }
}

/// A value from any input.
#[derive(Debug, Clone, Copy, PartialEq, Eq, Structural)]
pub enum InputValue {
    /// Input was a button.
    Pressed(bool),
    /// Input was a axis.
    Value(AxisValue),
}

impl InputValue {
    /// Whether the input counts as pressed.
    pub open spec fn pressed_spec(self) -> bool {
        match self {
            InputValue::Pressed(p) => p,
            InputValue::Value(v) => !bits_are_zero(v@),
        }
    }

    /// The bit pattern of the input's axis value.
    pub open spec fn value_spec(self) -> u32 {
        match self {
            InputValue::Pressed(p) => pressed_bits(p),
            InputValue::Value(v) => v@,
        }
    }

    /// The value of an input that reports nothing: an unpressed button.
    pub fn default_value() -> (r: Self)
        ensures
            r == InputValue::Pressed(false),
    {
        InputValue::Pressed(false)
    }

    /// Returns true if `self` is:
    /// - `Self::Pressed(true)`.
    /// - `Self::Value(val)` where `val != 0`.
    pub fn is_pressed(&self) -> (r: bool)
        ensures
            r == self.pressed_spec(),
    {
        match self {
            InputValue::Pressed(p) => *p,
            InputValue::Value(val) => value_to_press(*val),
        }
    }

    /// Returns:
    /// - `1.0` if `Self::Pressed(true)`, `0.0` if `Self::Pressed(false)`.
    /// - `val` when `Self::Value(val)`.
    pub fn get_value(&self) -> (r: AxisValue)
        ensures
            r@ == self.value_spec(),
    {
        match self {
            InputValue::Pressed(p) => pressed_to_value(*p),
            InputValue::Value(val) => *val,
        }
    }

    /// `true` when the input came from a button rather than an axis.
    pub fn is_button(&self) -> (r: bool)
        ensures
            r == (self is Pressed),
    {
        match self {
            InputValue::Pressed(_) => true,
            InputValue::Value(_) => false,
        }
    }
}

impl Default for InputValue {
    fn default() -> (r: Self)
        ensures
            r == InputValue::Pressed(false),
    {
        InputValue::Pressed(false)
    }
}

/// A enum of all supported `bevy_input` types that can be used as axis-like bindings.
#[derive(PartialEq, Eq, Hash, Clone, Copy, Debug)]
pub enum BevyAxisKind {
    MouseAxis(MouseAxis),
    GamepadAxis(GamepadAxis),
    GamepadButton(GamepadButton),
}

/// A enum of all supported `bevy_input` types that can be used as button-like bindings.
#[derive(PartialEq, Eq, Hash, Clone, Copy, Debug)]
pub enum BevyButtonKind {
    GamepadButton(GamepadButton),
    KeyCode(KeyCode),
    MouseButton(MouseButton),
}

/// A enum of all supported `bevy_input` types that can be used as bindings.
#[derive(PartialEq, Eq, Hash, Clone, Copy, Debug)]
pub enum BevyInputKind {
    /// An button-kind from `bevy_input`.
    Button(BevyButtonKind),
    /// An axis-kind from `bevy_input`.
    Axis(BevyAxisKind),
}

impl BevyAxisKind {
    /// Compares two axis kinds.
    pub fn same(&self, other: &Self) -> (r: bool)
        ensures
            r == (*self == *other),
    {
        match (self, other) {
            (BevyAxisKind::MouseAxis(a), BevyAxisKind::MouseAxis(b)) => *a == *b,
            (BevyAxisKind::GamepadAxis(a), BevyAxisKind::GamepadAxis(b)) => crate::bevy_types::gamepad_axis_eq(a, b),
            (BevyAxisKind::GamepadButton(a), BevyAxisKind::GamepadButton(b)) => crate::bevy_types::gamepad_button_eq(a, b),
            _ => false,
        }
    }
}

impl BevyButtonKind {
    /// Compares two button kinds.
    pub fn same(&self, other: &Self) -> (r: bool)
        ensures
            r == (*self == *other),
    {
        match (self, other) {
            (BevyButtonKind::GamepadButton(a), BevyButtonKind::GamepadButton(b)) => crate::bevy_types::gamepad_button_eq(a, b),
            (BevyButtonKind::KeyCode(a), BevyButtonKind::KeyCode(b)) => crate::bevy_types::key_code_eq(a, b),
            (BevyButtonKind::MouseButton(a), BevyButtonKind::MouseButton(b)) => crate::bevy_types::mouse_button_eq(a, b),
            _ => false,
        }
    }
}

impl BevyInputKind {
    /// Compares two input kinds.
    pub fn same(&self, other: &Self) -> (r: bool)
        ensures
            r == (*self == *other),
    {
        match (self, other) {
            (BevyInputKind::Button(a), BevyInputKind::Button(b)) => a.same(b),
            (BevyInputKind::Axis(a), BevyInputKind::Axis(b)) => a.same(b),
            _ => false,
        }
    }
}

impl From<AxisValue> for InputValue {
    fn from(value: AxisValue) -> Self {
        InputValue::Value(value)
    }
}

impl vstd::std_specs::convert::FromSpecImpl<AxisValue> for InputValue {
    open spec fn obeys_from_spec() -> bool {
        true
    }

    open spec fn from_spec(value: AxisValue) -> Self {
        InputValue::Value(value)
    }
}

impl From<bool> for InputValue {
    fn from(value: bool) -> Self {
        InputValue::Pressed(value)
    }
}

impl vstd::std_specs::convert::FromSpecImpl<bool> for InputValue {
    open spec fn obeys_from_spec() -> bool {
        true
    }

    open spec fn from_spec(value: bool) -> Self {
        InputValue::Pressed(value)
    }
}

impl From<MouseAxis> for BevyAxisKind {
    fn from(value: MouseAxis) -> Self {
        BevyAxisKind::MouseAxis(value)
    }
}

impl vstd::std_specs::convert::FromSpecImpl<MouseAxis> for BevyAxisKind {
    open spec fn obeys_from_spec() -> bool {
        true
    }

    open spec fn from_spec(value: MouseAxis) -> Self {
        BevyAxisKind::MouseAxis(value)
    }
}

impl From<GamepadAxis> for BevyAxisKind {
    fn from(value: GamepadAxis) -> Self {
        BevyAxisKind::GamepadAxis(value)
    }
}

impl vstd::std_specs::convert::FromSpecImpl<GamepadAxis> for BevyAxisKind {
    open spec fn obeys_from_spec() -> bool {
        true
    }

    open spec fn from_spec(value: GamepadAxis) -> Self {
        BevyAxisKind::GamepadAxis(value)
    }
}

impl From<GamepadButton> for BevyAxisKind {
    fn from(value: GamepadButton) -> Self {
        BevyAxisKind::GamepadButton(value)
    }
}

impl vstd::std_specs::convert::FromSpecImpl<GamepadButton> for BevyAxisKind {
    open spec fn obeys_from_spec() -> bool {
        true
    }

    open spec fn from_spec(value: GamepadButton) -> Self {
        BevyAxisKind::GamepadButton(value)
    }
}

impl From<GamepadButton> for BevyButtonKind {
    fn from(value: GamepadButton) -> Self {
        BevyButtonKind::GamepadButton(value)
    }
}

impl vstd::std_specs::convert::FromSpecImpl<GamepadButton> for BevyButtonKind {
    open spec fn obeys_from_spec() -> bool {
        true
    }

    open spec fn from_spec(value: GamepadButton) -> Self {
        BevyButtonKind::GamepadButton(value)
    }
}

impl From<KeyCode> for BevyButtonKind {
    fn from(value: KeyCode) -> Self {
        BevyButtonKind::KeyCode(value)
    }
}

impl vstd::std_specs::convert::FromSpecImpl<KeyCode> for BevyButtonKind {
    open spec fn obeys_from_spec() -> bool {
        true
    }

    open spec fn from_spec(value: KeyCode) -> Self {
        BevyButtonKind::KeyCode(value)
    }
}

impl From<MouseButton> for BevyButtonKind {
    fn from(value: MouseButton) -> Self {
        BevyButtonKind::MouseButton(value)
    }
}

impl vstd::std_specs::convert::FromSpecImpl<MouseButton> for BevyButtonKind {
    open spec fn obeys_from_spec() -> bool {
        true
    }

    open spec fn from_spec(value: MouseButton) -> Self {
        BevyButtonKind::MouseButton(value)
    }
}

impl From<BevyButtonKind> for BevyInputKind {
    fn from(value: BevyButtonKind) -> Self {
        BevyInputKind::Button(value)
    }
}

impl vstd::std_specs::convert::FromSpecImpl<BevyButtonKind> for BevyInputKind {
    open spec fn obeys_from_spec() -> bool {
        true
    }

    open spec fn from_spec(value: BevyButtonKind) -> Self {
        BevyInputKind::Button(value)
    }
}

impl From<BevyAxisKind> for BevyInputKind {
    fn from(value: BevyAxisKind) -> Self {
        BevyInputKind::Axis(value)
    }
}

impl vstd::std_specs::convert::FromSpecImpl<BevyAxisKind> for BevyInputKind {
    open spec fn obeys_from_spec() -> bool {
        true
    }

    open spec fn from_spec(value: BevyAxisKind) -> Self {
        BevyInputKind::Axis(value)
    }
}

impl From<MouseAxis> for BevyInputKind {
    fn from(value: MouseAxis) -> Self {
        BevyInputKind::Axis(BevyAxisKind::MouseAxis(value))
    }
}

impl vstd::std_specs::convert::FromSpecImpl<MouseAxis> for BevyInputKind {
    open spec fn obeys_from_spec() -> bool {
        true
    }

    open spec fn from_spec(value: MouseAxis) -> Self {
        BevyInputKind::Axis(BevyAxisKind::MouseAxis(value))
    }
}

impl From<GamepadAxis> for BevyInputKind {
    fn from(value: GamepadAxis) -> Self {
        BevyInputKind::Axis(BevyAxisKind::GamepadAxis(value))
    }
}

impl vstd::std_specs::convert::FromSpecImpl<GamepadAxis> for BevyInputKind {
    open spec fn obeys_from_spec() -> bool {
        true
    }

    open spec fn from_spec(value: GamepadAxis) -> Self {
        BevyInputKind::Axis(BevyAxisKind::GamepadAxis(value))
    }
}

impl From<GamepadButton> for BevyInputKind {
    fn from(value: GamepadButton) -> Self {
        BevyInputKind::Button(BevyButtonKind::GamepadButton(value))
    }
}

impl vstd::std_specs::convert::FromSpecImpl<GamepadButton> for BevyInputKind {
    open spec fn obeys_from_spec() -> bool {
        true
    }

    open spec fn from_spec(value: GamepadButton) -> Self {
        BevyInputKind::Button(BevyButtonKind::GamepadButton(value))
    }
}

impl From<KeyCode> for BevyInputKind {
    fn from(value: KeyCode) -> Self {
        BevyInputKind::Button(BevyButtonKind::KeyCode(value))
    }
}

impl vstd::std_specs::convert::FromSpecImpl<KeyCode> for BevyInputKind {
    open spec fn obeys_from_spec() -> bool {
        true
    }

    open spec fn from_spec(value: KeyCode) -> Self {
        BevyInputKind::Button(BevyButtonKind::KeyCode(value))
    }
}

impl From<MouseButton> for BevyInputKind {
    fn from(value: MouseButton) -> Self {
        BevyInputKind::Button(BevyButtonKind::MouseButton(value))
    }
}

impl vstd::std_specs::convert::FromSpecImpl<MouseButton> for BevyInputKind {
    open spec fn obeys_from_spec() -> bool {
        true
    }

    open spec fn from_spec(value: MouseButton) -> Self {
        BevyInputKind::Button(BevyButtonKind::MouseButton(value))
    }
}

/// `true` when `kinds` holds `kind`.
pub fn contains_kind(kinds: &[BevyInputKind], kind: &BevyInputKind) -> (r: bool)
    ensures
        r == kinds@.contains(*kind),
{
    let mut i: usize = 0;
    while i < kinds.len()
        invariant
            i <= kinds@.len(),
            forall|j: int| 0 <= j < i ==> kinds@[j] != *kind,
        decreases kinds@.len() - i,
    {
        if kinds[i].same(kind) {
            assert(kinds@[i as int] == *kind);
            return true;
        }
        i = i + 1;
    }
    false
}

/// Converting a press to an axis value and back gives the press: `1.0` is pressed, `0.0` is not.
pub proof fn lemma_press_round_trip(pressed: bool)
    ensures
        !bits_are_zero(pressed_bits(pressed)) == pressed,
{
}

/// An input counts as pressed exactly when its axis value is non-zero.
pub proof fn lemma_pressed_iff_value_non_zero(value: InputValue)
    ensures
        value.pressed_spec() == !bits_are_zero(value.value_spec()),
{
}

} // verus!
