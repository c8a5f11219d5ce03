//! DMA control (CNT_H) bits.
use vstd::prelude::*;

verus! {

/// Destination address control (bits 5-6).
pub const DST_CTRL: u16 = 0x0060;
/// Source address control (bits 7-8).
pub const SRC_CTRL: u16 = 0x0180;
/// Repeat at every start condition.
pub const REPEAT: u16 = 0x0200;
/// 32-bit units (else 16-bit).
pub const WORD: u16 = 0x0400;
/// Start timing (bits 12-13).
pub const TIMING: u16 = 0x3000;
pub const TIMING_IMMEDIATE: u16 = 0x0000;
pub const TIMING_VBLANK: u16 = 0x1000;
pub const TIMING_HBLANK: u16 = 0x2000;
/// Raise an IRQ at the end of the transfer.
pub const IRQ: u16 = 0x4000;
/// Channel enable.
pub const ENABLE: u16 = 0x8000;

} // verus!
