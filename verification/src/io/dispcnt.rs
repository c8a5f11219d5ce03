//! DISPCNT (display control) bits.
use vstd::prelude::*;

verus! {

pub const MODE_MASK: u16 = 0x07;
pub const FRAME_SELECT: u16 = 0x0010;
pub const HBLANK_FREE: u16 = 0x0020;
pub const OBJ_1D: u16 = 0x0040;
pub const FORCED_BLANK: u16 = 0x0080;
pub const BG0_ENABLE: u16 = 0x0100;
pub const BG1_ENABLE: u16 = 0x0200;
pub const BG2_ENABLE: u16 = 0x0400;
pub const BG3_ENABLE: u16 = 0x0800;
pub const OBJ_ENABLE: u16 = 0x1000;
pub const WIN0_ENABLE: u16 = 0x2000;
pub const WIN1_ENABLE: u16 = 0x4000;
pub const WINOBJ_ENABLE: u16 = 0x8000;

} // verus!
