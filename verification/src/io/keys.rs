//! Key input bits (active low in KEYINPUT register).
use vstd::prelude::*;

verus! {

pub const A: u16 = 0x0001;
pub const B: u16 = 0x0002;
pub const SELECT: u16 = 0x0004;
pub const START: u16 = 0x0008;
pub const RIGHT: u16 = 0x0010;
pub const LEFT: u16 = 0x0020;
pub const UP: u16 = 0x0040;
pub const DOWN: u16 = 0x0080;
pub const R: u16 = 0x0100;
pub const L: u16 = 0x0200;

/// KEYINPUT with every key released.
pub const ALL_RELEASED: u16 = 0x03FF;

/// KEYINPUT for a set of pressed keys: a pressed key's bit is cleared.
pub open spec fn keyinput_spec(pressed: u16) -> u16 {
    ALL_RELEASED & !pressed
}

/// The KEYINPUT value for the keys in `pressed` (a mask of key bits):
/// released keys read 1, pressed keys 0.
pub fn keyinput_for(pressed: u16) -> (r: u16)
    ensures
        r == keyinput_spec(pressed),
{
    ALL_RELEASED & !pressed
}

} // verus!
