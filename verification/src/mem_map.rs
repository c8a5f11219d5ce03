//! The GBA memory map as a function of the bus state: what a byte read
//! returns and what a byte write changes, for every address.
//!
//! 0x00000000 - 0x00003FFF  BIOS ROM (16 KB)
//! 0x02000000 - 0x0203FFFF  EWRAM - External Work RAM (256 KB)
//! 0x03000000 - 0x03007FFF  IWRAM - Internal Work RAM (32 KB)
//! 0x04000000 - 0x040003FE  I/O Registers
//! 0x05000000 - 0x050003FF  Palette RAM (1 KB)
//! 0x06000000 - 0x06017FFF  VRAM (96 KB)
//! 0x07000000 - 0x070003FF  OAM - Object Attribute Memory (1 KB)
//! 0x08000000 - 0x0DFFFFFF  ROM (three 32 MB wait-state mirrors)
//! 0x0E000000 - 0x0E00FFFF  SRAM (64 KB)
use vstd::prelude::*;
use crate::ppu::{PpuView, VDRAW_LINES};
use crate::bits::lemma_word_bits;

verus! {

pub const EWRAM_SIZE: usize = 0x40000;
pub const IWRAM_SIZE: usize = 0x8000;
pub const IO_SIZE: usize = 0x400;
pub const SRAM_SIZE: usize = 0x10000;

/// Everything that byte reads and writes on the bus touch.
#[verifier::ext_equal]
pub ghost struct MemView {
    pub bios: Option<Seq<u8>>,
    pub ewram: Seq<u8>,
    pub iwram: Seq<u8>,
    pub io_regs: Seq<u8>,
    pub rom: Seq<u8>,
    pub sram: Seq<u8>,
    pub ppu: PpuView,
    pub ime: bool,
    pub ie: u16,
    pub irf: u16,
    pub halt: bool,
    pub keyinput: u16,
}

impl MemView {
    /// Every memory has its fixed size.
    pub open spec fn wf(self) -> bool {
        &&& self.ewram.len() == EWRAM_SIZE
        &&& self.iwram.len() == IWRAM_SIZE
        &&& self.io_regs.len() == IO_SIZE
        &&& self.sram.len() == SRAM_SIZE
        &&& self.ppu.wf()
    }
}

/// The 16 MB region an address falls in.
pub open spec fn region(addr: u32) -> u32 {
    addr >> 24u32
}

/// Offset into VRAM: 128 KB mirrors, the upper 32 KB mirroring the OBJ area.
pub open spec fn vram_offset(addr: u32) -> u32 {
    let o = addr & 0x1FFFFu32;
    if o >= 0x18000 { (o - 0x8000) as u32 } else { o }
}

/// A byte read from the I/O registers.
#[verifier::opaque]
pub open spec fn io_read8(m: MemView, addr: u32) -> u8 {
    let reg = addr & 0x3FFu32;
    if reg <= 0x001 {
        m.io_regs[reg as int]
    } else if reg == 0x004 {
        // DISPSTAT: V-blank, H-blank and V-counter status bits
        let v0 = m.io_regs[0x004];
        let v1: u8 = if m.ppu.vcount >= VDRAW_LINES { v0 | 0x01 } else { v0 };
        let v2: u8 = if m.ppu.in_hblank { v1 | 0x02 } else { v1 };
        if m.ppu.vcount == m.ppu.vcount_target { v2 | 0x04 } else { v2 }
    } else if reg == 0x005 {
        m.io_regs[0x005]
    } else if reg == 0x006 {
        m.ppu.vcount as u8
    } else if reg == 0x007 {
        0
    } else if reg == 0x130 {
        m.keyinput as u8
    } else if reg == 0x131 {
        (m.keyinput >> 8u16) as u8
    } else if reg == 0x200 {
        m.ie as u8
    } else if reg == 0x201 {
        (m.ie >> 8u16) as u8
    } else if reg == 0x202 {
        m.irf as u8
    } else if reg == 0x203 {
        (m.irf >> 8u16) as u8
    } else if reg == 0x208 {
        if m.ime { 1 } else { 0 }
    } else if reg == 0x209 {
        0
    } else if reg < m.io_regs.len() {
        m.io_regs[reg as int]
    } else {
        0
    }
}

/// A byte read anywhere on the bus; unmapped addresses read 0.
#[verifier::opaque]
pub open spec fn mem_read8(m: MemView, addr: u32) -> u8 {
    let r = region(addr);
    if r == 0x00 {
        match m.bios {
            Some(b) => {
                let idx = (addr & 0x3FFFu32) as int;
                if idx < b.len() { b[idx] } else { 0 }
            },
            None => 0,
        }
    } else if r == 0x02 {
        m.ewram[(addr & 0x3FFFFu32) as int]
    } else if r == 0x03 {
        m.iwram[(addr & 0x7FFFu32) as int]
    } else if r == 0x04 {
        io_read8(m, addr)
    } else if r == 0x05 {
        m.ppu.palette[(addr & 0x3FFu32) as int]
    } else if r == 0x06 {
        m.ppu.vram[vram_offset(addr) as int]
    } else if r == 0x07 {
        m.ppu.oam[(addr & 0x3FFu32) as int]
    } else if 0x08 <= r <= 0x0D {
        let off = (addr & 0x01FF_FFFFu32) as int;
        if off < m.rom.len() { m.rom[off] } else { 0 }
    } else if r == 0x0E || r == 0x0F {
        m.sram[(addr & 0xFFFFu32) as int]
    } else {
        0
    }
}

/// A little-endian halfword read; the address is forced to alignment.
#[verifier::opaque]
pub open spec fn mem_read16(m: MemView, addr: u32) -> u16 {
    let a = addr & !1u32;
    (mem_read8(m, a) as u16) | ((mem_read8(m, (a + 1) as u32) as u16) << 8u16)
}

/// A little-endian word read; the address is forced to alignment.
#[verifier::opaque]
pub open spec fn mem_read32(m: MemView, addr: u32) -> u32 {
    let a = addr & !3u32;
    (mem_read8(m, a) as u32)
        | ((mem_read8(m, (a + 1) as u32) as u32) << 8u32)
        | ((mem_read8(m, (a + 2) as u32) as u32) << 16u32)
        | ((mem_read8(m, (a + 3) as u32) as u32) << 24u32)
}

/// A byte write to the I/O registers that start no DMA: DISPSTAT keeps its
/// status bits, IF bits are acknowledged by writing 1, HALTCNT halts.
#[verifier::opaque]
pub open spec fn io_write8(m: MemView, addr: u32, val: u8) -> MemView {
    let reg = addr & 0x3FFu32;
    if reg <= 0x001 {
        MemView { io_regs: m.io_regs.update(reg as int, val), ..m }
    } else if reg == 0x004 {
        MemView { io_regs: m.io_regs.update(0x004, (m.io_regs[0x004] & !0x38u8) | (val & 0x38u8)), ..m }
    } else if reg == 0x005 {
        MemView {
            io_regs: m.io_regs.update(0x005, val),
            ppu: PpuView { vcount_target: val as u16, ..m.ppu },
            ..m
        }
    } else if 0x008 <= reg <= 0x05F {
        MemView { io_regs: m.io_regs.update(reg as int, val), ..m }
    } else if reg == 0x200 {
        MemView { ie: (m.ie & 0xFF00u16) | (val as u16), ..m }
    } else if reg == 0x201 {
        MemView { ie: (m.ie & 0x00FFu16) | ((val as u16) << 8u16), ..m }
    } else if reg == 0x202 {
        MemView { irf: m.irf & !(val as u16), ..m }
    } else if reg == 0x203 {
        MemView { irf: m.irf & !((val as u16) << 8u16), ..m }
    } else if reg == 0x208 {
        MemView { ime: val & 1u8 != 0, ..m }
    } else if reg == 0x301 {
        MemView { halt: true, ..m }
    } else if reg < m.io_regs.len() {
        MemView { io_regs: m.io_regs.update(reg as int, val), ..m }
    } else {
        m
    }
}

/// A byte write to everything but the I/O registers. BIOS, ROM and OAM
/// ignore byte writes; palette and VRAM byte writes fill both bytes of the
/// halfword.
#[verifier::opaque]
pub open spec fn ram_write8(m: MemView, addr: u32, val: u8) -> MemView {
    let r = region(addr);
    if r == 0x02 {
        MemView { ewram: m.ewram.update((addr & 0x3FFFFu32) as int, val), ..m }
    } else if r == 0x03 {
        MemView { iwram: m.iwram.update((addr & 0x7FFFu32) as int, val), ..m }
    } else if r == 0x05 {
        let al = (addr & 0x3FEu32) as int;
        MemView { ppu: PpuView { palette: m.ppu.palette.update(al, val).update(al + 1, val), ..m.ppu }, ..m }
    } else if r == 0x06 {
        let al = (vram_offset(addr) & !1u32) as int;
        let v1 = m.ppu.vram.update(al, val);
        let v2 = if al + 1 < v1.len() { v1.update(al + 1, val) } else { v1 };
        MemView { ppu: PpuView { vram: v2, ..m.ppu }, ..m }
    } else if r == 0x0E || r == 0x0F {
        MemView { sram: m.sram.update((addr & 0xFFFFu32) as int, val), ..m }
    } else {
        m
    }
}

/// A byte write anywhere on a bus without DMA.
#[verifier::opaque]
pub open spec fn mem_write8(m: MemView, addr: u32, val: u8) -> MemView {
    if region(addr) == 0x04 { io_write8(m, addr, val) } else { ram_write8(m, addr, val) }
}

/// Palette RAM, VRAM and OAM: the regions written a halfword at a time.
pub open spec fn is_video(addr: u32) -> bool {
    region(addr) == 0x05 || region(addr) == 0x06 || region(addr) == 0x07
}

/// A halfword stored into palette RAM, VRAM or OAM at the halfword that
/// `addr` falls in.
#[verifier::opaque]
pub open spec fn video_write16(m: MemView, addr: u32, val: u16) -> MemView {
    let r = region(addr);
    let lo = val as u8;
    let hi = (val >> 8u16) as u8;
    if r == 0x05 {
        let al = (addr & 0x3FEu32) as int;
        MemView { ppu: PpuView { palette: m.ppu.palette.update(al, lo).update(al + 1, hi), ..m.ppu }, ..m }
    } else if r == 0x06 {
        let al = (vram_offset(addr) & !1u32) as int;
        let v1 = m.ppu.vram.update(al, lo);
        let v2 = if al + 1 < v1.len() { v1.update(al + 1, hi) } else { v1 };
        MemView { ppu: PpuView { vram: v2, ..m.ppu }, ..m }
    } else {
        let al = (addr & 0x3FEu32) as int;
        MemView { ppu: PpuView { oam: m.ppu.oam.update(al, lo).update(al + 1, hi), ..m.ppu }, ..m }
    }
}

/// A halfword write: palette RAM, VRAM and OAM store the halfword; elsewhere
/// two byte writes at the aligned address.
#[verifier::opaque]
pub open spec fn mem_write16(m: MemView, addr: u32, val: u16) -> MemView {
    let a = addr & !1u32;
    if is_video(a) {
        video_write16(m, a, val)
    } else {
        mem_write8(mem_write8(m, a, val as u8), (a + 1) as u32, (val >> 8u16) as u8)
    }
}

/// A word write: palette RAM, VRAM and OAM store two halfwords; elsewhere
/// four byte writes at the aligned address.
#[verifier::opaque]
pub open spec fn mem_write32(m: MemView, addr: u32, val: u32) -> MemView {
    let a = addr & !3u32;
    if is_video(a) {
        video_write16(video_write16(m, a, val as u16), (a + 2) as u32, (val >> 16u32) as u16)
    } else {
        let m1 = mem_write8(m, a, val as u8);
        let m2 = mem_write8(m1, (a + 1) as u32, (val >> 8u32) as u8);
        let m3 = mem_write8(m2, (a + 2) as u32, (val >> 16u32) as u8);
        mem_write8(m3, (a + 3) as u32, (val >> 24u32) as u8)
    }
}

/// Bounds of the address masks the memory map uses.
pub proof fn lemma_masks(addr: u32)
    by (bit_vector)
    ensures
        addr & 0x3FFFu32 <= 0x3FFF,
        addr & 0x3FFFFu32 <= 0x3FFFF,
        addr & 0x7FFFu32 <= 0x7FFF,
        addr & 0x3FFu32 <= 0x3FF,
        addr & 0x3FEu32 <= 0x3FE,
        addr & 0x1FFFFu32 <= 0x1FFFF,
        addr & 0xFFFFu32 <= 0xFFFF,
        addr & !1u32 < 0xFFFF_FFFF,
        addr & !3u32 <= 0xFFFF_FFFC,
{
}

/// The work-RAM or SRAM cell an address selects, if any: (memory, index).
pub open spec fn ram_cell(addr: u32) -> Option<(int, int)> {
    let r = region(addr);
    if r == 0x02 {
        Some((2, (addr & 0x3FFFFu32) as int))
    } else if r == 0x03 {
        Some((3, (addr & 0x7FFFu32) as int))
    } else if r == 0x0E || r == 0x0F {
        Some((0xE, (addr & 0xFFFFu32) as int))
    } else {
        None
    }
}

/// The work-RAM window of a region: 256 KB of EWRAM or 32 KB of IWRAM.
pub open spec fn ram_window(base: u32, msk: u32) -> bool {
    (region(base) == 0x02 && msk == 0x3FFFF) || (region(base) == 0x03 && msk == 0x7FFF)
}

/// The offset mask of the work-RAM window an address falls in: 256 KB of
/// EWRAM, else 32 KB of IWRAM.
pub open spec fn ram_mask(a: u32) -> u32 {
    if region(a) == 0x02 { 0x3FFFF } else { 0x7FFF }
}

/// Whether `x` selects no cell of memory `tag` in `[off, off + len)`.
pub open spec fn outside_ram_block(x: u32, tag: int, off: int, len: int) -> bool {
    match ram_cell(x) {
        Some((t, i)) => t != tag || i < off || i >= off + len,
        None => true,
    }
}

/// A byte written to EWRAM, IWRAM, palette RAM, VRAM or SRAM reads back as
/// the value written.
pub proof fn lemma_read8_after_write8(m: MemView, addr: u32, val: u8)
    requires
        m.wf(),
        region(addr) == 0x02 || region(addr) == 0x03 || region(addr) == 0x05 || region(addr) == 0x06
            || region(addr) == 0x0E || region(addr) == 0x0F,
    ensures
        mem_read8(mem_write8(m, addr, val), addr) == val,
{
    reveal(mem_read8);
    reveal(mem_write8);
    reveal(ram_write8);
    lemma_masks(addr);
    lemma_word_bits(addr);
    lemma_word_bits(vram_offset(addr));
}

/// A byte write to work RAM or SRAM changes exactly the cell it addresses:
/// reads of that cell (through any mirror) return the value written, and
/// every other address reads as before.
pub proof fn lemma_ram_write8_frame(m: MemView, addr: u32, val: u8, other: u32)
    requires
        m.wf(),
        ram_cell(addr) is Some,
    ensures
        mem_write8(m, addr, val).wf(),
        mem_read8(mem_write8(m, addr, val), other) == if ram_cell(other) == ram_cell(addr) {
            val
        } else {
            mem_read8(m, other)
        },
{
    reveal(mem_read8);
    reveal(mem_write8);
    reveal(ram_write8);
    reveal(io_read8);
    lemma_masks(addr);
    lemma_masks(other);
}

/// BIOS, ROM, OAM and unmapped addresses ignore byte writes.
pub proof fn lemma_write8_ignored(m: MemView, addr: u32, val: u8)
    requires
        region(addr) == 0x00 || region(addr) == 0x01 || region(addr) == 0x07 || 0x08 <= region(addr) <= 0x0D
            || region(addr) >= 0x10,
    ensures
        mem_write8(m, addr, val) == m,
{
    reveal(mem_write8);
    reveal(ram_write8);
}

/// Facts about consecutive byte addresses of an aligned halfword or word.
pub(crate) proof fn lemma_aligned_bytes(addr: u32, a: u32, h: u32)
    by (bit_vector)
    requires
        a == addr & !3u32,
        h == addr & !1u32,
    ensures
        a <= 0xFFFF_FFFC,
        ((a + 1) as u32) >> 24u32 == a >> 24u32,
        ((a + 2) as u32) >> 24u32 == a >> 24u32,
        ((a + 3) as u32) >> 24u32 == a >> 24u32,
        a >> 24u32 == addr >> 24u32,
        ((a + 1) as u32) & 0x3FFFFu32 == (a & 0x3FFFFu32) + 1,
        ((a + 2) as u32) & 0x3FFFFu32 == (a & 0x3FFFFu32) + 2,
        ((a + 3) as u32) & 0x3FFFFu32 == (a & 0x3FFFFu32) + 3,
        ((a + 1) as u32) & 0x7FFFu32 == (a & 0x7FFFu32) + 1,
        ((a + 2) as u32) & 0x7FFFu32 == (a & 0x7FFFu32) + 2,
        ((a + 3) as u32) & 0x7FFFu32 == (a & 0x7FFFu32) + 3,
        ((a + 1) as u32) & 0xFFFFu32 == (a & 0xFFFFu32) + 1,
        ((a + 2) as u32) & 0xFFFFu32 == (a & 0xFFFFu32) + 2,
        ((a + 3) as u32) & 0xFFFFu32 == (a & 0xFFFFu32) + 3,
        h < 0xFFFF_FFFF,
        ((h + 1) as u32) >> 24u32 == h >> 24u32,
        h >> 24u32 == addr >> 24u32,
        ((h + 1) as u32) & 0x3FFFFu32 == (h & 0x3FFFFu32) + 1,
        ((h + 1) as u32) & 0x7FFFu32 == (h & 0x7FFFu32) + 1,
        ((h + 1) as u32) & 0xFFFFu32 == (h & 0xFFFFu32) + 1,
{
}

/// A halfword written to work RAM or SRAM reads back as written.
pub proof fn lemma_read16_after_write16(m: MemView, addr: u32, val: u16)
    requires
        m.wf(),
        ram_cell(addr) is Some,
    ensures
        mem_read16(mem_write16(m, addr, val), addr) == val,
{
    reveal(mem_read16);
    reveal(mem_write16);
    let h = addr & !1u32;
    lemma_aligned_bytes(addr, addr & !3u32, h);
    let h1 = (h + 1) as u32;
    let b0 = val as u8;
    let b1 = (val >> 8u16) as u8;
    let m1 = mem_write8(m, h, b0);
    lemma_ram_write8_frame(m, h, b0, h);
    lemma_ram_write8_frame(m1, h1, b1, h);
    lemma_ram_write8_frame(m1, h1, b1, h1);
    assert((b0 as u16) | ((b1 as u16) << 8u16) == val) by (bit_vector)
        requires b0 == val as u8, b1 == (val >> 8u16) as u8;
}

/// A word written to work RAM or SRAM reads back as written.
pub proof fn lemma_read32_after_write32(m: MemView, addr: u32, val: u32)
    requires
        m.wf(),
        ram_cell(addr) is Some,
    ensures
        mem_read32(mem_write32(m, addr, val), addr) == val,
{
    reveal(mem_read32);
    reveal(mem_write32);
    let a = addr & !3u32;
    lemma_aligned_bytes(addr, a, addr & !1u32);
    let a1 = (a + 1) as u32;
    let a2 = (a + 2) as u32;
    let a3 = (a + 3) as u32;
    let b0 = val as u8;
    let b1 = (val >> 8u32) as u8;
    let b2 = (val >> 16u32) as u8;
    let b3 = (val >> 24u32) as u8;
    let m1 = mem_write8(m, a, b0);
    let m2 = mem_write8(m1, a1, b1);
    let m3 = mem_write8(m2, a2, b2);
    lemma_ram_write8_frame(m, a, b0, a);
    lemma_ram_write8_frame(m1, a1, b1, a);
    lemma_ram_write8_frame(m1, a1, b1, a1);
    lemma_ram_write8_frame(m2, a2, b2, a);
    lemma_ram_write8_frame(m2, a2, b2, a1);
    lemma_ram_write8_frame(m2, a2, b2, a2);
    lemma_ram_write8_frame(m3, a3, b3, a);
    lemma_ram_write8_frame(m3, a3, b3, a1);
    lemma_ram_write8_frame(m3, a3, b3, a2);
    lemma_ram_write8_frame(m3, a3, b3, a3);
    assert((b0 as u32) | ((b1 as u32) << 8u32) | ((b2 as u32) << 16u32) | ((b3 as u32) << 24u32) == val)
        by (bit_vector)
        requires
            b0 == val as u8,
            b1 == (val >> 8u32) as u8,
            b2 == (val >> 16u32) as u8,
            b3 == (val >> 24u32) as u8,
    ;
}


/// Halfword and word reads ignore the low address bits.
pub proof fn lemma_aligned_reads(m: MemView, addr: u32)
    ensures
        mem_read16(m, addr) == mem_read16(m, addr & !1u32),
        mem_read32(m, addr) == mem_read32(m, addr & !3u32),
{
    reveal(mem_read16);
    reveal(mem_read32);
    lemma_align_idem(addr);
}

proof fn lemma_align_idem(addr: u32)
    by (bit_vector)
    ensures
        (addr & !1u32) & !1u32 == addr & !1u32,
        (addr & !3u32) & !3u32 == addr & !3u32,
{
}

/// Mirrors: two addresses that select the same work-RAM or SRAM cell, or
/// the same ROM offset in any of the three wait-state windows, read alike.
pub proof fn lemma_mirrors(m: MemView, a: u32, b: u32)
    requires
        (ram_cell(a) is Some && ram_cell(a) == ram_cell(b))
            || (0x08 <= region(a) <= 0x0D && 0x08 <= region(b) <= 0x0D
                && a & 0x01FF_FFFFu32 == b & 0x01FF_FFFFu32),
    ensures
        mem_read8(m, a) == mem_read8(m, b),
{
    reveal(mem_read8);
}

/// Writing the IF register acknowledges: the request bits written as 1 are
/// cleared, the others kept, and nothing else on the bus changes.
pub proof fn lemma_acknowledge_irq(m: MemView, val: u8)
    ensures
        mem_write8(m, 0x0400_0202, val) == (MemView { irf: m.irf & !(val as u16), ..m }),
        mem_read8(mem_write8(m, 0x0400_0202, val), 0x0400_0202) == ((m.irf & !(val as u16)) as u8),
{
    reveal(mem_write8);
    reveal(io_write8);
    reveal(mem_read8);
    reveal(io_read8);
    assert(region(0x0400_0202) == 0x04 && 0x0400_0202u32 & 0x3FFu32 == 0x202) by (bit_vector);
}

/// A byte written to palette RAM fills both bytes of its halfword.
pub proof fn lemma_palette_byte_write(m: MemView, addr: u32, val: u8)
    requires
        m.wf(),
        region(addr) == 0x05,
    ensures
        mem_read16(mem_write8(m, addr, val), addr) == (val as u16) | ((val as u16) << 8u16),
{
    reveal(mem_read16);
    reveal(mem_read8);
    reveal(mem_write8);
    reveal(ram_write8);
    lemma_palette_halfword(addr);
    lemma_masks(addr);
}

proof fn lemma_palette_halfword(addr: u32)
    by (bit_vector)
    ensures
        (addr & !1u32) >> 24u32 == addr >> 24u32,
        (((addr & !1u32) + 1) as u32) >> 24u32 == addr >> 24u32,
        (addr & !1u32) & 0x3FFu32 == addr & 0x3FEu32,
        (((addr & !1u32) + 1) as u32) & 0x3FFu32 == (addr & 0x3FEu32) + 1,
{
}


/// A halfword write to work RAM or SRAM changes exactly the two cells of its
/// aligned halfword; every other address reads as before.
pub proof fn lemma_ram_write16_frame(m: MemView, addr: u32, val: u16, other: u32)
    requires
        m.wf(),
        ram_cell(addr) is Some,
    ensures
        mem_write16(m, addr, val).wf(),
        ram_cell(other) != ram_cell(addr & !1u32) && ram_cell(other) != ram_cell(((addr & !1u32) + 1) as u32)
            ==> mem_read8(mem_write16(m, addr, val), other) == mem_read8(m, other),
{
    reveal(mem_write16);
    let h = addr & !1u32;
    let h1 = (h + 1) as u32;
    lemma_aligned_bytes(addr, addr & !3u32, h);
    lemma_masks(addr);
    let m1 = mem_write8(m, h, val as u8);
    lemma_ram_write8_frame(m, h, val as u8, other);
    lemma_ram_write8_frame(m1, h1, (val >> 8u16) as u8, other);
}


/// A word write to work RAM or SRAM stores its four bytes little-endian in
/// the four cells of its aligned word; every other address reads as before.
pub proof fn lemma_ram_write32_frame(m: MemView, addr: u32, val: u32, other: u32)
    requires
        m.wf(),
        ram_cell(addr) is Some,
    ensures
        ({
            let a = addr & !3u32;
            let w = mem_write32(m, addr, val);
            &&& w.wf()
            &&& mem_read8(w, a) == val as u8
            &&& mem_read8(w, (a + 1) as u32) == (val >> 8u32) as u8
            &&& mem_read8(w, (a + 2) as u32) == (val >> 16u32) as u8
            &&& mem_read8(w, (a + 3) as u32) == (val >> 24u32) as u8
            &&& (ram_cell(other) != ram_cell(a) && ram_cell(other) != ram_cell((a + 1) as u32)
                && ram_cell(other) != ram_cell((a + 2) as u32) && ram_cell(other) != ram_cell((a + 3) as u32))
                ==> mem_read8(w, other) == mem_read8(m, other)
        }),
{
    reveal(mem_write32);
    let a = addr & !3u32;
    lemma_aligned_bytes(addr, a, addr & !1u32);
    lemma_masks(addr);
    let a1 = (a + 1) as u32;
    let a2 = (a + 2) as u32;
    let a3 = (a + 3) as u32;
    let m1 = mem_write8(m, a, val as u8);
    let m2 = mem_write8(m1, a1, (val >> 8u32) as u8);
    let m3 = mem_write8(m2, a2, (val >> 16u32) as u8);
    lemma_ram_write8_frame(m, a, val as u8, other);
    lemma_ram_write8_frame(m1, a1, (val >> 8u32) as u8, other);
    lemma_ram_write8_frame(m2, a2, (val >> 16u32) as u8, other);
    lemma_ram_write8_frame(m3, a3, (val >> 24u32) as u8, other);
    lemma_ram_write8_frame(m, a, val as u8, a);
    lemma_ram_write8_frame(m1, a1, (val >> 8u32) as u8, a);
    lemma_ram_write8_frame(m1, a1, (val >> 8u32) as u8, a1);
    lemma_ram_write8_frame(m2, a2, (val >> 16u32) as u8, a);
    lemma_ram_write8_frame(m2, a2, (val >> 16u32) as u8, a1);
    lemma_ram_write8_frame(m2, a2, (val >> 16u32) as u8, a2);
    lemma_ram_write8_frame(m3, a3, (val >> 24u32) as u8, a);
    lemma_ram_write8_frame(m3, a3, (val >> 24u32) as u8, a1);
    lemma_ram_write8_frame(m3, a3, (val >> 24u32) as u8, a2);
    lemma_ram_write8_frame(m3, a3, (val >> 24u32) as u8, a3);
}


/// The cell of work RAM, SRAM, palette RAM, VRAM or OAM that an address
/// selects, if any: (region, index).
pub open spec fn mem_cell(addr: u32) -> Option<(int, int)> {
    let r = region(addr);
    if r == 0x05 {
        Some((5, (addr & 0x3FFu32) as int))
    } else if r == 0x06 {
        Some((6, vram_offset(addr) as int))
    } else if r == 0x07 {
        Some((7, (addr & 0x3FFu32) as int))
    } else {
        ram_cell(addr)
    }
}

/// The two bytes of an aligned halfword in palette RAM, VRAM or OAM.
proof fn lemma_video_halfword(addr: u32, h: u32)
    by (bit_vector)
    requires
        h == addr & !1u32,
    ensures
        h >> 24u32 == addr >> 24u32,
        ((h + 1) as u32) >> 24u32 == addr >> 24u32,
        h & 0x3FEu32 == h & 0x3FFu32,
        ((h + 1) as u32) & 0x3FFu32 == (h & 0x3FFu32) + 1,
        h & 0x3FFu32 <= 0x3FE,
        vram_offset(h) & !1u32 == vram_offset(h),
        vram_offset((h + 1) as u32) == vram_offset(h) + 1,
        vram_offset(h) < 0x17FFF,
        h < 0xFFFF_FFFF,
{
}

/// A halfword written to work RAM, SRAM, palette RAM, VRAM or OAM reads
/// back as written, and every byte outside its aligned halfword (and the
/// mirrors of that halfword) reads as before.
pub proof fn lemma_write16_frame(m: MemView, addr: u32, val: u16, other: u32)
    requires
        m.wf(),
        mem_cell(addr) is Some,
    ensures
        mem_write16(m, addr, val).wf(),
        mem_read16(mem_write16(m, addr, val), addr) == val,
        mem_cell(other) != mem_cell(addr & !1u32) && mem_cell(other) != mem_cell(((addr & !1u32) + 1) as u32)
            ==> mem_read8(mem_write16(m, addr, val), other) == mem_read8(m, other),
{
    let h = addr & !1u32;
    lemma_video_halfword(addr, h);
    lemma_aligned_bytes(addr, addr & !3u32, h);
    lemma_masks(addr);
    if ram_cell(addr) is Some {
        lemma_read16_after_write16(m, addr, val);
        lemma_ram_write16_frame(m, addr, val, other);
        assert(mem_cell(h) == ram_cell(h));
        assert(mem_cell((h + 1) as u32) == ram_cell((h + 1) as u32));
        if ram_cell(other) is Some {
            assert(mem_cell(other) == ram_cell(other));
        }
    } else {
        reveal(mem_write16);
        reveal(video_write16);
        reveal(mem_read16);
        reveal(mem_read8);
        reveal(io_read8);
        assert(is_video(h));
        assert((val as u8) as u16 | (((val >> 8u16) as u8) as u16) << 8u16 == val) by (bit_vector);
        let w = mem_write16(m, addr, val);
        if mem_cell(other) != mem_cell(h) && mem_cell(other) != mem_cell((h + 1) as u32) {
            lemma_masks(other);
            let ro = region(other);
            if ro == 0x04 {
                assert(io_read8(w, other) == io_read8(m, other));
            } else if ro == 0x05 || ro == 0x06 || ro == 0x07 {
                assert(mem_read8(w, other) == mem_read8(m, other));
            }
        }
    }
}

} // verus!
