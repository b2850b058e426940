//! Key events as the host delivers them.

use vstd::prelude::*;

verus! {

/// Key symbol of the left Shift key.
pub const SHIFT_L: u32 = 0xffe1;

/// Key symbol of the right Shift key.
pub const SHIFT_R: u32 = 0xffe2;

/// Key symbol of the left Control key.
pub const CONTROL_L: u32 = 0xffe3;

/// Key symbol of the right Control key.
pub const CONTROL_R: u32 = 0xffe4;

/// Key symbol of Caps Lock.
pub const CAPS_LOCK: u32 = 0xffe5;

/// Key symbol of the left Meta key.
pub const META_L: u32 = 0xffe7;

/// Key symbol of the right Meta key.
pub const META_R: u32 = 0xffe8;

/// Key symbol of the left Alt key.
pub const ALT_L: u32 = 0xffe9;

/// Key symbol of the right Alt key.
pub const ALT_R: u32 = 0xffea;

/// A key press: the symbol of the key and the modifiers held with it.
#[derive(Debug, Clone, Copy, PartialEq, Eq, Structural)]
pub struct KeyEvent {
    /// The key symbol, as the windowing system numbers it.
    pub keyval: u32,
    /// The modifier mask at the time of the press.
    pub state: u32,
}

/// Whether `keyval` names a modifier key: Caps Lock, or a Control, Shift,
/// Alt or Meta key of either side.
pub open spec fn is_modifier_keyval(keyval: u32) -> bool {
    ||| keyval == CAPS_LOCK
    ||| keyval == CONTROL_L
    ||| keyval == CONTROL_R
    ||| keyval == SHIFT_L
    ||| keyval == SHIFT_R
    ||| keyval == ALT_L
    ||| keyval == ALT_R
    ||| keyval == META_L
    ||| keyval == META_R
}

/// Whether the event is the press of a modifier key alone.
pub fn is_modifier_key_event(ev: &KeyEvent) -> (modifier: bool)
    ensures
        modifier == is_modifier_keyval(ev.keyval),
{
    let keyval: u32 = ev.keyval;
    keyval == CAPS_LOCK || keyval == CONTROL_L || keyval == CONTROL_R || keyval == SHIFT_L
        || keyval == SHIFT_R || keyval == ALT_L || keyval == ALT_R || keyval == META_L
        || keyval == META_R
}

} // verus!
