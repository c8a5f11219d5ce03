//! A system bus without DMA: memory map, I/O registers, interrupts and timers.
use vstd::prelude::*;
use crate::mem_map::{
    MemView, EWRAM_SIZE, IWRAM_SIZE, IO_SIZE, SRAM_SIZE, mem_read8, mem_read16, mem_read32,
    io_read8, io_write8, mem_write8, mem_write16, mem_write32, vram_offset, region, lemma_masks, ram_write8,
    lemma_aligned_bytes, is_video, video_write16,
};
use crate::ppu::{Ppu, PpuView, VDRAW_LINES, ppu_run};
use crate::memory::{run_timers, timers_fit, timer_count, prescaler_of, timer_ticks_bound};

pub use crate::memory::Timer;

verus! {

pub struct Bus {
    pub bios: Option<Vec<u8>>,
    pub ewram: Vec<u8>,      // 256 KB
    pub iwram: Vec<u8>,      // 32 KB
    pub io_regs: Vec<u8>,    // I/O registers
    pub rom: Vec<u8>,
    pub sram: Vec<u8>,       // 64 KB
    pub ppu: Ppu,
    // Interrupt / DMA / Timer state
    pub ime: bool,           // Interrupt Master Enable
    pub ie: u16,             // Interrupt Enable
    pub irf: u16,            // Interrupt Request Flags
    pub halt: bool,
    pub dma: [DmaChannel; 4],
    pub timers: [Timer; 4],
    pub keyinput: u16,       // Joypad state (active low)
}

#[derive(Clone, Copy, Default)]
pub struct DmaChannel {
    pub src: u32,
    pub dst: u32,
    pub count: u16,
    pub control: u16,
    // Internal latches
    pub internal_src: u32,
    pub internal_dst: u32,
    pub internal_count: u32,
}


impl Bus {
    /// The memory-mapped state of the bus.
    pub open spec fn mem(&self) -> MemView {
        MemView {
            bios: match self.bios {
                Some(b) => Some(b@),
                None => None,
            },
            ewram: self.ewram@,
            iwram: self.iwram@,
            io_regs: self.io_regs@,
            rom: self.rom@,
            sram: self.sram@,
            ppu: self.ppu@,
            ime: self.ime,
            ie: self.ie,
            irf: self.irf,
            halt: self.halt,
            keyinput: self.keyinput,
        }
    }

    /// Every memory has its fixed size and the PPU counters are in range.
    pub open spec fn wf(&self) -> bool {
        self.mem().wf()
    }

    /// A bus at power-on: cleared RAM, all keys released, nothing enabled.
    pub fn new(rom: Vec<u8>, bios: Option<Vec<u8>>) -> (b: Self)
        ensures
            b.wf(),
            b.rom@ == rom@,
            b.bios == bios,
            b.ewram@ == Seq::new(EWRAM_SIZE as nat, |i: int| 0u8),
            b.iwram@ == Seq::new(IWRAM_SIZE as nat, |i: int| 0u8),
            b.io_regs@ == Seq::new(IO_SIZE as nat, |i: int| 0u8),
            b.sram@ == Seq::new(SRAM_SIZE as nat, |i: int| 0u8),
            b.ppu@.vram == Seq::new(0x18000, |i: int| 0u8),
            b.ppu@.palette == Seq::new(0x400, |i: int| 0u8),
            b.ppu@.oam == Seq::new(0x400, |i: int| 0u8),
            b.ppu@.framebuffer == Seq::new(38400, |i: int| 0xFF00_0000u32),
            b.ppu.vcount == 0 && b.ppu.vcount_target == 0 && !b.ppu.in_hblank && b.ppu@.dot_counter == 0,
            !b.ime && b.ie == 0 && b.irf == 0 && !b.halt,
            b.keyinput == 0x03FF,
            forall|i: int| 0 <= i < 4 ==> (#[trigger] b.dma@[i]).src == 0 && b.dma@[i].dst == 0
                && b.dma@[i].count == 0 && b.dma@[i].control == 0 && b.dma@[i].internal_src == 0
                && b.dma@[i].internal_dst == 0 && b.dma@[i].internal_count == 0,
            forall|i: int| 0 <= i < 4 ==> (#[trigger] b.timers@[i]).reload == 0 && b.timers@[i].counter == 0
                && b.timers@[i].control == 0 && b.timers@[i].internal == 0,
    {
        let d = DmaChannel {
            src: 0,
            dst: 0,
            count: 0,
            control: 0,
            internal_src: 0,
            internal_dst: 0,
            internal_count: 0,
        };
        let t = Timer { reload: 0, counter: 0, control: 0, internal: 0 };
        let b = Self {
            bios,
            ewram: vec![0; 256 * 1024],
            iwram: vec![0; 32 * 1024],
            io_regs: vec![0; 0x400],
            rom,
            sram: vec![0; 64 * 1024],
            ppu: Ppu::new(),
            ime: false,
            ie: 0,
            irf: 0,
            halt: false,
            dma: [d, d, d, d],
            timers: [t, t, t, t],
            keyinput: 0x03FF, // All buttons released (active low)
        };
        assert(b.ewram@ =~= Seq::new(EWRAM_SIZE as nat, |i: int| 0u8));
        assert(b.iwram@ =~= Seq::new(IWRAM_SIZE as nat, |i: int| 0u8));
        assert(b.io_regs@ =~= Seq::new(IO_SIZE as nat, |i: int| 0u8));
        assert(b.sram@ =~= Seq::new(SRAM_SIZE as nat, |i: int| 0u8));
        b
    }

    /// Read a byte from the memory map.
    pub fn read8(&self, addr: u32) -> (r: u8)
        requires
            self.wf(),
        ensures
            r == mem_read8(self.mem(), addr),
    {
        reveal(mem_read8);
        proof { lemma_masks(addr); }
        let r = addr >> 24u32;
        if r == 0x00 {
            // BIOS
            match &self.bios {
                Some(bios) => {
                    let idx = (addr & 0x3FFF) as usize;
                    if idx < bios.len() { bios[idx] } else { 0 }
                },
                None => 0,
            }
        } else if r == 0x02 {
            // EWRAM (mirrored every 256KB)
            self.ewram[(addr & 0x3FFFF) as usize]
        } else if r == 0x03 {
            // IWRAM (mirrored every 32KB)
            self.iwram[(addr & 0x7FFF) as usize]
        } else if r == 0x04 {
            // I/O Registers
            self.read_io(addr)
        } else if r == 0x05 {
            // Palette RAM
            self.ppu.palette[(addr & 0x3FF) as usize]
        } else if r == 0x06 {
            // VRAM (mirrored, 96KB)
            let offset = addr & 0x1FFFF;
            let offset = if offset >= 0x18000 { offset - 0x8000 } else { offset };
            self.ppu.vram[offset as usize]
        } else if r == 0x07 {
            // OAM
            self.ppu.oam[(addr & 0x3FF) as usize]
        } else if 0x08 <= r && r <= 0x0D {
            // ROM (mirrored across wait states)
            let offset = (addr & 0x01FF_FFFF) as usize;
            if offset < self.rom.len() { self.rom[offset] } else { 0 }
        } else if r == 0x0E || r == 0x0F {
            // SRAM
            self.sram[(addr & 0xFFFF) as usize]
        } else {
            // Open bus / unused
            0
        }
    }

    /// Read a 16-bit halfword (little-endian, force aligned).
    pub fn read16(&self, addr: u32) -> (r: u16)
        requires
            self.wf(),
        ensures
            r == mem_read16(self.mem(), addr),
    {
        reveal(mem_read16);
        proof { lemma_masks(addr); }
        let addr = addr & !1u32; // Force align
        let lo = self.read8(addr) as u16;
        let hi = self.read8(addr + 1) as u16;
        lo | (hi << 8u16)
    }

    /// Read a 32-bit word (little-endian, force aligned).
    pub fn read32(&self, addr: u32) -> (r: u32)
        requires
            self.wf(),
        ensures
            r == mem_read32(self.mem(), addr),
    {
        reveal(mem_read32);
        proof { lemma_masks(addr); }
        let addr = addr & !3u32; // Force align
        let b0 = self.read8(addr) as u32;
        let b1 = self.read8(addr + 1) as u32;
        let b2 = self.read8(addr + 2) as u32;
        let b3 = self.read8(addr + 3) as u32;
        b0 | (b1 << 8u32) | (b2 << 16u32) | (b3 << 24u32)
    }

    /// Write a byte.
    pub fn write8(&mut self, addr: u32, val: u8)
        requires
            old(self).wf(),
        ensures
            final(self).wf(),
            final(self).mem() == mem_write8(old(self).mem(), addr, val),
            final(self).dma == old(self).dma,
            final(self).timers == old(self).timers,
    {
        reveal(mem_write8);
        reveal(ram_write8);
        proof { lemma_masks(addr); }
        let r = addr >> 24u32;
        if r == 0x02 {
            self.ewram[(addr & 0x3FFFF) as usize] = val;
        } else if r == 0x03 {
            self.iwram[(addr & 0x7FFF) as usize] = val;
        } else if r == 0x04 {
            self.write_io(addr, val);
        } else if r == 0x05 {
            // Palette RAM - 8-bit writes write the byte to both bytes of the halfword
            let aligned = (addr & 0x3FE) as usize;
            self.ppu.palette[aligned] = val;
            self.ppu.palette[aligned + 1] = val;
        } else if r == 0x06 {
            // VRAM - 8-bit writes similar to palette
            let offset = addr & 0x1FFFF;
            let offset = if offset >= 0x18000 { offset - 0x8000 } else { offset };
            proof { crate::bits::lemma_word_bits(offset); }
            let aligned = (offset & !1u32) as usize;
            self.ppu.vram[aligned] = val;
            if aligned + 1 < self.ppu.vram.len() {
                self.ppu.vram[aligned + 1] = val;
            }
        } else if r == 0x07 {
            // OAM ignores 8-bit writes
        } else if r == 0x0E || r == 0x0F {
            self.sram[(addr & 0xFFFF) as usize] = val;
        }
        proof {
            assert(final(self).mem() =~= mem_write8(old(self).mem(), addr, val));
        }
    }

    /// Write a 16-bit halfword.
    pub fn write16(&mut self, addr: u32, val: u16)
        requires
            old(self).wf(),
        ensures
            final(self).wf(),
            final(self).mem() == mem_write16(old(self).mem(), addr, val),
            final(self).dma == old(self).dma,
            final(self).timers == old(self).timers,
    {
        reveal(mem_write16);
        proof { lemma_masks(addr); }
        let addr = addr & !1u32;
        let r = addr >> 24u32;
        if r == 0x05 || r == 0x06 || r == 0x07 {
            // Palette RAM, VRAM and OAM take the whole halfword
            self.write_video16(addr, val);
        } else {
            self.write8(addr, val as u8);
            self.write8(addr + 1, (val >> 8u16) as u8);
        }
    }

    /// Write a 32-bit word.
    pub fn write32(&mut self, addr: u32, val: u32)
        requires
            old(self).wf(),
        ensures
            final(self).wf(),
            final(self).mem() == mem_write32(old(self).mem(), addr, val),
            final(self).dma == old(self).dma,
            final(self).timers == old(self).timers,
    {
        reveal(mem_write32);
        proof { lemma_masks(addr); lemma_aligned_bytes(addr, addr & !3u32, addr & !1u32); }
        let addr = addr & !3u32;
        let r = addr >> 24u32;
        if r == 0x05 || r == 0x06 || r == 0x07 {
            // Palette RAM, VRAM and OAM take the word as two halfwords
            self.write_video16(addr, val as u16);
            self.write_video16(addr + 2, (val >> 16u32) as u16);
        } else {
            self.write8(addr, val as u8);
            self.write8(addr + 1, (val >> 8u32) as u8);
            self.write8(addr + 2, (val >> 16u32) as u8);
            self.write8(addr + 3, (val >> 24u32) as u8);
        }
    }

    /// Store a halfword into palette RAM, VRAM or OAM.
    fn write_video16(&mut self, a: u32, val: u16)
        requires
            old(self).wf(),
            is_video(a),
        ensures
            final(self).wf(),
            final(self).mem() == video_write16(old(self).mem(), a, val),
            final(self).dma == old(self).dma,
            final(self).timers == old(self).timers,
    {
        reveal(video_write16);
        proof { lemma_masks(a); }
        let lo = val as u8;
        let hi = (val >> 8u16) as u8;
        let r = a >> 24u32;
        if r == 0x05 {
            let al = (a & 0x3FE) as usize;
            self.ppu.palette[al] = lo;
            self.ppu.palette[al + 1] = hi;
        } else if r == 0x06 {
            let offset = a & 0x1FFFF;
            let offset = if offset >= 0x18000 { offset - 0x8000 } else { offset };
            proof { crate::bits::lemma_word_bits(offset); }
            let al = (offset & !1u32) as usize;
            self.ppu.vram[al] = lo;
            if al + 1 < self.ppu.vram.len() {
                self.ppu.vram[al + 1] = hi;
            }
        } else {
            let al = (a & 0x3FE) as usize;
            self.ppu.oam[al] = lo;
            self.ppu.oam[al + 1] = hi;
        }
        proof {
            assert(final(self).mem() =~= video_write16(old(self).mem(), a, val));
        }
    }

    /// Read from I/O registers.
    fn read_io(&self, addr: u32) -> (r: u8)
        requires
            self.wf(),
        ensures
            r == io_read8(self.mem(), addr),
    {
        reveal(io_read8);
        proof { lemma_masks(addr); }
        let reg = addr & 0x3FF;
        if reg <= 0x001 {
            // DISPCNT
            self.io_regs[reg as usize]
        } else if reg == 0x004 {
            // DISPSTAT
            let mut val = self.io_regs[0x004];
            // V-blank flag
            if self.ppu.vcount >= VDRAW_LINES { val = val | 0x01; }
            // H-blank flag (simplified)
            if self.ppu.in_hblank { val = val | 0x02; }
            // V-counter flag
            if self.ppu.vcount == self.ppu.vcount_target { val = val | 0x04; }
            val
        } else if reg == 0x005 {
            self.io_regs[0x005]
        } else if reg == 0x006 {
            // VCOUNT
            self.ppu.vcount as u8
        } else if reg == 0x007 {
            0
        } else if reg == 0x130 {
            // KEYINPUT
            self.keyinput as u8
        } else if reg == 0x131 {
            (self.keyinput >> 8u16) as u8
        } else if reg == 0x200 {
            // IE
            self.ie as u8
        } else if reg == 0x201 {
            (self.ie >> 8u16) as u8
        } else if reg == 0x202 {
            // IF
            self.irf as u8
        } else if reg == 0x203 {
            (self.irf >> 8u16) as u8
        } else if reg == 0x208 {
            // IME
            if self.ime { 1 } else { 0 }
        } else if reg == 0x209 {
            0
        } else if (reg as usize) < self.io_regs.len() {
            self.io_regs[reg as usize]
        } else {
            0
        }
    }

    /// Write to I/O registers.
    fn write_io(&mut self, addr: u32, val: u8)
        requires
            old(self).wf(),
        ensures
            final(self).wf(),
            final(self).mem() == io_write8(old(self).mem(), addr, val),
            final(self).dma == old(self).dma,
            final(self).timers == old(self).timers,
    {
        reveal(io_write8);
        proof { lemma_masks(addr); }
        proof { lemma_masks(addr); }
        let reg = addr & 0x3FF;
        if reg <= 0x001 {
            // DISPCNT
            self.io_regs[reg as usize] = val;
        } else if reg == 0x004 {
            // DISPSTAT: only bits 3-5 are writable (interrupt enables + vcount target low)
            self.io_regs[0x004] = (self.io_regs[0x004] & !0x38u8) | (val & 0x38);
        } else if reg == 0x005 {
            self.io_regs[0x005] = val;
            self.ppu.vcount_target = val as u16;
        } else if 0x008 <= reg && reg <= 0x05F {
            // BG control, scroll, etc. - store directly
            self.io_regs[reg as usize] = val;
        } else if reg == 0x200 {
            // IE
            self.ie = (self.ie & 0xFF00) | val as u16;
        } else if reg == 0x201 {
            self.ie = (self.ie & 0x00FF) | ((val as u16) << 8u16);
        } else if reg == 0x202 {
            // IF - write 1 to acknowledge/clear
            self.irf = self.irf & !(val as u16);
        } else if reg == 0x203 {
            self.irf = self.irf & !((val as u16) << 8u16);
        } else if reg == 0x208 {
            // IME
            self.ime = val & 1 != 0;
        } else if reg == 0x301 {
            // HALTCNT
            self.halt = true;
        } else if (reg as usize) < self.io_regs.len() {
            self.io_regs[reg as usize] = val;
        }
        proof {
            assert(final(self).mem() =~= io_write8(old(self).mem(), addr, val));
        }
    }

    /// Tick hardware components (PPU, timers).
    pub fn tick(&mut self, cycles: u32)
        requires
            old(self).wf(),
            old(self).ppu@.dot_counter + cycles <= u32::MAX,
            timers_fit(old(self).timers@, cycles),
        ensures
            final(self).wf(),
            ({
                let (p, irf1) = ppu_run(
                    PpuView { dot_counter: (old(self).ppu@.dot_counter + cycles) as u32, ..old(self).ppu@ },
                    old(self).irf,
                );
                let (ts, irf2) = run_timers(old(self).timers@, irf1, cycles, 0, false);
                &&& final(self).mem() == (MemView { ppu: p, irf: irf2, ..old(self).mem() })
                &&& final(self).timers@ == ts
            }),
            final(self).dma == old(self).dma,
    {
        self.ppu.tick(cycles, &mut self.irf);
        self.tick_timers(cycles);
    }

    fn tick_timers(&mut self, cycles: u32)
        requires
            timers_fit(old(self).timers@, cycles),
        ensures
            (final(self).timers@, final(self).irf) == run_timers(old(self).timers@, old(self).irf, cycles, 0, false),
            final(self).mem() == (MemView { irf: final(self).irf, ..old(self).mem() }),
            final(self).dma == old(self).dma,
    {
        let ghost target = run_timers(self.timers@, self.irf, cycles, 0, false);
        let mut overflow = false;
        let mut i: usize = 0;
        while i < 4
            invariant
                0 <= i <= 4,
                run_timers(self.timers@, self.irf, cycles, i as int, overflow) == target,
                forall|j: int| i <= j < 4 ==> self.timers@[j] == old(self).timers@[j],
                timers_fit(old(self).timers@, cycles),
                self.mem() == (MemView { irf: self.irf, ..old(self).mem() }),
                self.dma == old(self).dma,
            decreases 4 - i,
        {
            let enabled = self.timers[i].control & 0x80 != 0;
            if !enabled {
                overflow = false;
                i = i + 1;
                continue;
            }
            let cascade = self.timers[i].control & 0x04 != 0;
            let sel = self.timers[i].control & 0x03;
            let prescaler: u32 = if sel == 0 { 1 } else if sel == 1 { 64 } else if sel == 2 { 256 } else { 1024 };
            let ticks: u32 = if i > 0 && cascade {
                if overflow { 1 } else { 0 }
            } else {
                cycles
            };
            overflow = false;
            if ticks == 0 {
                i = i + 1;
                continue;
            }
            assert(timer_ticks_bound(old(self).timers@[i as int], i as int, cycles) >= ticks);
            let ghost ts0 = self.timers@;
            self.timers[i].internal = self.timers[i].internal + ticks;
            let irq_bit: u16 = 1u16 << (3 + i) as u16;
            let ghost inner = timer_count(self.timers@[i as int], prescaler, self.irf, irq_bit, false);
            assert(inner == timer_count(
                Timer { internal: (old(self).timers@[i as int].internal + ticks) as u32, ..old(self).timers@[i as int] },
                prescaler_of(old(self).timers@[i as int].control), self.irf, irq_bit, false));
            while self.timers[i].internal >= prescaler
                invariant
                    0 <= i < 4,
                    prescaler >= 1,
                    timer_count(self.timers@[i as int], prescaler, self.irf, irq_bit, overflow) == inner,
                    self.timers@ == ts0.update(i as int, self.timers@[i as int]),
                    ts0.len() == 4,
                    self.mem() == (MemView { irf: self.irf, ..old(self).mem() }),
                    self.dma == old(self).dma,
                decreases self.timers[i as int].internal,
            {
                self.timers[i].internal = self.timers[i].internal - prescaler;
                if self.timers[i].counter == 0xFFFF {
                    self.timers[i].counter = self.timers[i].reload;
                    overflow = true;
                    // Timer IRQ
                    if self.timers[i].control & 0x40 != 0 {
                        self.irf = self.irf | irq_bit;
                    }
                } else {
                    self.timers[i].counter = self.timers[i].counter + 1;
                }
            }
            assert(self.timers@ =~= ts0.update(i as int, inner.0));
            i = i + 1;
        }
    }
}

} // verus!
