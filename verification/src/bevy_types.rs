//! The `bevy_input` key types that bindings name, and their comparisons.
use vstd::prelude::*;


verus! {

#[verifier::external_type_specification]
#[verifier::external_body]
pub struct ExKeyCode(bevy::input::keyboard::KeyCode);

#[verifier::external_type_specification]
#[verifier::external_body]
pub struct ExMouseButton(bevy::input::mouse::MouseButton);

#[verifier::external_type_specification]
#[verifier::external_body]
pub struct ExGamepadButton(bevy::input::gamepad::GamepadButton);

#[verifier::external_type_specification]
#[verifier::external_body]
pub struct ExGamepadAxis(bevy::input::gamepad::GamepadAxis);

/// Calls `PartialEq::eq` of `bevy_input`'s `KeyCode`, which is derived: the contract claims it
/// holds exactly for equal keys.
#[verifier::external_body]
pub(crate) fn key_code_eq(a: &bevy::input::keyboard::KeyCode, b: &bevy::input::keyboard::KeyCode) -> (r: bool)
    ensures
        r == (*a == *b),
{
    a == b
}

/// Calls `PartialEq::eq` of `bevy_input`'s `MouseButton`, which is derived: the contract claims
/// it holds exactly for equal buttons.
#[verifier::external_body]
pub(crate) fn mouse_button_eq(a: &bevy::input::mouse::MouseButton, b: &bevy::input::mouse::MouseButton) -> (r: bool)
    ensures
        r == (*a == *b),
{
    a == b
}

/// Calls `PartialEq::eq` of `bevy_input`'s `GamepadButton`, which is derived: the contract
/// claims it holds exactly for equal buttons.
#[verifier::external_body]
pub(crate) fn gamepad_button_eq(a: &bevy::input::gamepad::GamepadButton, b: &bevy::input::gamepad::GamepadButton) -> (r: bool)
    ensures
        r == (*a == *b),
{
    a == b
}

/// Calls `PartialEq::eq` of `bevy_input`'s `GamepadAxis`, which is derived: the contract claims
/// it holds exactly for equal axes.
#[verifier::external_body]
pub(crate) fn gamepad_axis_eq(a: &bevy::input::gamepad::GamepadAxis, b: &bevy::input::gamepad::GamepadAxis) -> (r: bool)
    ensures
        r == (*a == *b),
{
    a == b
}

} // verus!

verus! {

/// `GamepadButton` is `Copy` and its `Clone` is derived: the clone equals the original.
pub assume_specification[ <bevy::input::gamepad::GamepadButton as Clone>::clone ](b: &bevy::input::gamepad::GamepadButton) -> (r: bevy::input::gamepad::GamepadButton)
    ensures
        r == *b,
;

/// `GamepadAxis` is `Copy` and its `Clone` is derived: the clone equals the original.
pub assume_specification[ <bevy::input::gamepad::GamepadAxis as Clone>::clone ](a: &bevy::input::gamepad::GamepadAxis) -> (r: bevy::input::gamepad::GamepadAxis)
    ensures
        r == *a,
;

} // verus!

verus! {

#[verifier::external_type_specification]
#[verifier::external_body]
pub struct ExFixedHasher(bevy::platform::hash::FixedHasher);

#[verifier::external_type_specification]
#[verifier::external_body]
#[verifier::reject_recursive_types(K)]
#[verifier::reject_recursive_types(V)]
#[verifier::reject_recursive_types(S)]
pub struct ExHashMap<K, V, S>(bevy::platform::collections::HashMap<K, V, S>);

} // verus!
