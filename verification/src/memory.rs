//! The system bus with DMA: the memory map, I/O registers, interrupts,
//! timers, and four DMA channels started immediately, at V-blank or at
//! H-blank.
use vstd::prelude::*;
use crate::mem_map::{
    MemView, EWRAM_SIZE, IWRAM_SIZE, IO_SIZE, SRAM_SIZE, mem_read8, mem_read16, mem_read32,
    io_read8, io_write8, mem_write8, vram_offset, region, lemma_masks, ram_write8, ram_cell,
    lemma_ram_write16_frame, lemma_aligned_bytes, is_video, video_write16, mem_cell, lemma_write16_frame,
    ram_window, ram_mask, outside_ram_block,
};
use crate::ppu::{Ppu, PpuView, VDRAW_LINES, ppu_run};
use crate::io::dma_cnt;

verus! {

pub struct Bus {
    pub bios: Option<Vec<u8>>,
    pub ewram: Vec<u8>,      // 256 KB
    pub iwram: Vec<u8>,      // 32 KB
    pub io_regs: Vec<u8>,    // I/O registers
    pub rom: Vec<u8>,
    pub sram: Vec<u8>,       // 64 KB
    pub ppu: Ppu,
    // Interrupt / DMA / Timer state
    pub ime: bool,           // Interrupt Master Enable
    pub ie: u16,             // Interrupt Enable
    pub irf: u16,            // Interrupt Request Flags
    pub halt: bool,
    pub dma: [DmaChannel; 4],
    pub timers: [Timer; 4],
    pub keyinput: u16,       // Joypad state (active low)
}

#[derive(Clone, Copy, Default)]
pub struct DmaChannel {
    pub src: u32,
    pub dst: u32,
    pub count: u16,
    pub control: u16,
    // Internal latches
    pub internal_src: u32,
    pub internal_dst: u32,
    pub internal_count: u32,
    pub pending: bool,   // armed, waiting for its trigger event
}

#[derive(Clone, Copy, Default)]
pub struct Timer {
    pub reload: u16,
    pub counter: u16,
    pub control: u16,
    pub internal: u32,   // Internal prescaler counter
}

/// Cycles per counter step for the prescaler selection in a timer's
/// control bits 0-1.
pub open spec fn prescaler_of(control: u16) -> u32 {
    let sel = control & 3u16;
    if sel == 0 { 1 } else if sel == 1 { 64 } else if sel == 2 { 256 } else { 1024 }
}

/// A timer consumes its prescaler count while it can: each step adds one
/// to the counter; a counter that passes 0xFFFF takes the reload value,
/// marks an overflow and, with IRQ enable (control bit 6), raises `irq_bit`.
pub open spec fn timer_count(t: Timer, ps: u32, irf: u16, irq_bit: u16, ovf: bool) -> (Timer, u16, bool)
    decreases t.internal,
{
    if ps == 0 || t.internal < ps {
        (t, irf, ovf)
    } else {
        let t1 = Timer { internal: (t.internal - ps) as u32, ..t };
        if t.counter == 0xFFFF {
            let irf1: u16 = if t.control & 0x40u16 != 0 { irf | irq_bit } else { irf };
            timer_count(Timer { counter: t.reload, ..t1 }, ps, irf1, irq_bit, true)
        } else {
            timer_count(Timer { counter: (t.counter + 1) as u16, ..t1 }, ps, irf, irq_bit, ovf)
        }
    }
}

/// A running timer turns its prescaler count into counter steps, one per
/// `ps` cycles, and keeps the remainder. If the steps do not carry the
/// counter past 0xFFFF it goes up by their number and nothing else
/// happens; if they do, the counter restarts from the reload value each
/// time it passes 0xFFFF (ending at the reload value plus the steps beyond
/// 0xFFFF, modulo the 0x10000 - reload steps of a period), the timer
/// reports an overflow and, when its IRQ enable bit (control bit 6) is
/// set, raises its request bit. Reload and control values are kept.
pub proof fn lemma_timer_count(t: Timer, ps: u32, irf: u16, irq_bit: u16, ovf: bool)
    requires
        ps > 0,
    ensures
        ({
            let r = timer_count(t, ps, irf, irq_bit, ovf);
            let steps = t.internal / ps;
            &&& r.0.internal == t.internal % ps
            &&& r.0.reload == t.reload && r.0.control == t.control
            &&& t.counter + steps <= 0xFFFF ==> r.0.counter == t.counter + steps && r.1 == irf && r.2 == ovf
            &&& t.counter + steps > 0xFFFF ==> r.2
                && r.1 == (if t.control & 0x40u16 != 0 { irf | irq_bit } else { irf })
                && r.0.counter == t.reload + (t.counter + steps - 0x1_0000) % (0x1_0000 - t.reload)
        }),
    decreases t.internal,
{
    if t.internal >= ps {
        let i = t.internal as int;
        let p = ps as int;
        assert((i - p) / p == i / p - 1 && (i - p) % p == i % p && i / p >= 1) by (nonlinear_arith)
            requires i >= p, p > 0;
        let t1 = Timer { internal: (t.internal - ps) as u32, ..t };
        if t.counter == 0xFFFF {
            let irf1: u16 = if t.control & 0x40u16 != 0 { irf | irq_bit } else { irf };
            lemma_timer_count(Timer { counter: t.reload, ..t1 }, ps, irf1, irq_bit, true);
            assert((irf | irq_bit) | irq_bit == irf | irq_bit) by (bit_vector);
            let e = i / p - 1;
            let period = 0x1_0000 - t.reload;
            assert(e >= period ==> (e - period) % period == e % period) by (nonlinear_arith)
                requires period > 0;
            assert(e < period ==> e % period == e) by (nonlinear_arith)
                requires period > 0, e >= 0;
        } else {
            lemma_timer_count(Timer { counter: (t.counter + 1) as u16, ..t1 }, ps, irf, irq_bit, ovf);
        }
    } else {
        assert(t.internal / ps == 0 && t.internal % ps == t.internal) by (nonlinear_arith)
            requires t.internal < ps, ps > 0;
    }
}

/// Timers `i..4` after `cycles` cycles, given whether timer `i - 1`
/// overflowed: enabled timers (control bit 7) count cycles, or in cascade
/// mode (bit 2, not timer 0) one step per overflow of the previous timer.
pub open spec fn run_timers(ts: Seq<Timer>, irf: u16, cycles: u32, i: int, ovf: bool) -> (Seq<Timer>, u16)
    decreases 4 - i,
{
    if i >= 4 || i < 0 {
        (ts, irf)
    } else {
        let t = ts[i];
        if t.control & 0x80u16 == 0 {
            run_timers(ts, irf, cycles, i + 1, false)
        } else {
            let cascade = t.control & 0x04u16 != 0;
            let ticks: u32 = if i > 0 && cascade { if ovf { 1 } else { 0 } } else { cycles };
            if ticks == 0 {
                run_timers(ts, irf, cycles, i + 1, false)
            } else {
                let (t2, irf2, o2) = timer_count(
                    Timer { internal: (t.internal + ticks) as u32, ..t },
                    prescaler_of(t.control),
                    irf,
                    (1u16 << (3 + i) as u16),
                    false,
                );
                run_timers(ts.update(i, t2), irf2, cycles, i + 1, o2)
            }
        }
    }
}

/// No timer's prescaler counter overflows when `cycles` are added.
pub open spec fn timers_fit(ts: Seq<Timer>, cycles: u32) -> bool {
    forall|i: int| 0 <= i < 4 ==> ts[i].internal + (#[trigger] timer_ticks_bound(ts[i], i, cycles)) <= u32::MAX
}

/// The most cycles timer `i` can be handed in one tick.
pub open spec fn timer_ticks_bound(t: Timer, i: int, cycles: u32) -> u32 {
    if i > 0 && t.control & 0x04u16 != 0 { 1 } else { cycles }
}

/// Every interrupt request set in `a` is still set in `b`.
pub open spec fn keeps_requests(a: u16, b: u16) -> bool {
    a & b == a
}

proof fn lemma_keeps_requests(a: u16, b: u16, c: u16, k: u16)
    by (bit_vector)
    ensures
        keeps_requests(a, a),
        keeps_requests(a, a | k),
        keeps_requests(a, b) && keeps_requests(b, c) ==> keeps_requests(a, c),
{
}

proof fn lemma_ppu_run_keeps(v: PpuView, irf: u16)
    ensures
        keeps_requests(irf, ppu_run(v, irf).1),
    decreases v.dot_counter,
{
    lemma_keeps_requests(irf, irf, irf, 0);
    if v.dot_counter >= crate::ppu::SCANLINE_CYCLES {
        let w = PpuView { dot_counter: (v.dot_counter - crate::ppu::SCANLINE_CYCLES) as u32, ..v };
        let (v1, irf1) = crate::ppu::end_of_line(w, irf);
        lemma_keeps_requests(irf, irf | 1, irf1, 1);
        lemma_keeps_requests(irf | 1, irf | 1, irf1, 4);
        lemma_keeps_requests(irf, irf, irf, 4);
        lemma_keeps_requests(irf, irf | 1, (irf | 1) | 4, 4);
        assert(keeps_requests(irf, irf1));
        lemma_ppu_run_keeps(v1, irf1);
        lemma_keeps_requests(irf, irf1, ppu_run(v1, irf1).1, 0);
    }
}

proof fn lemma_timer_count_keeps(t: Timer, ps: u32, irf: u16, irq_bit: u16, ovf: bool)
    ensures
        keeps_requests(irf, timer_count(t, ps, irf, irq_bit, ovf).1),
    decreases t.internal,
{
    lemma_keeps_requests(irf, irf, irf, irq_bit);
    if !(ps == 0 || t.internal < ps) {
        let t1 = Timer { internal: (t.internal - ps) as u32, ..t };
        if t.counter == 0xFFFF {
            let irf1: u16 = if t.control & 0x40u16 != 0 { irf | irq_bit } else { irf };
            let r = timer_count(Timer { counter: t.reload, ..t1 }, ps, irf1, irq_bit, true).1;
            lemma_timer_count_keeps(Timer { counter: t.reload, ..t1 }, ps, irf1, irq_bit, true);
            lemma_keeps_requests(irf, irf1, r, irq_bit);
        } else {
            lemma_timer_count_keeps(Timer { counter: (t.counter + 1) as u16, ..t1 }, ps, irf, irq_bit, ovf);
        }
    }
}

proof fn lemma_run_timers_keeps(ts: Seq<Timer>, irf: u16, cycles: u32, i: int, ovf: bool)
    ensures
        keeps_requests(irf, run_timers(ts, irf, cycles, i, ovf).1),
    decreases 4 - i,
{
    lemma_keeps_requests(irf, irf, irf, 0);
    if 0 <= i < 4 {
        let t = ts[i];
        if t.control & 0x80u16 == 0 {
            lemma_run_timers_keeps(ts, irf, cycles, i + 1, false);
        } else {
            let cascade = t.control & 0x04u16 != 0;
            let ticks: u32 = if i > 0 && cascade { if ovf { 1 } else { 0 } } else { cycles };
            if ticks == 0 {
                lemma_run_timers_keeps(ts, irf, cycles, i + 1, false);
            } else {
                let t0 = Timer { internal: (t.internal + ticks) as u32, ..t };
                let bit = (1u16 << (3 + i) as u16);
                let (t2, irf2, o2) = timer_count(t0, prescaler_of(t.control), irf, bit, false);
                lemma_timer_count_keeps(t0, prescaler_of(t.control), irf, bit, false);
                lemma_run_timers_keeps(ts.update(i, t2), irf2, cycles, i + 1, o2);
                lemma_keeps_requests(irf, irf2, run_timers(ts.update(i, t2), irf2, cycles, i + 1, o2).1, 0);
            }
        }
    }
}

/// Ticking the PPU and the timers only ever raises interrupt requests:
/// every request bit set before the tick is still set after it.
pub proof fn lemma_tick_keeps_requests(p: PpuView, ts: Seq<Timer>, irf: u16, cycles: u32)
    ensures
        ({
            let (p1, irf1) = ppu_run(p, irf);
            let (ts2, irf2) = run_timers(ts, irf1, cycles, 0, false);
            keeps_requests(irf, irf2)
        }),
{
    let irf1 = ppu_run(p, irf).1;
    lemma_ppu_run_keeps(p, irf);
    lemma_run_timers_keeps(ts, irf1, cycles, 0, false);
    lemma_keeps_requests(irf, irf1, run_timers(ts, irf1, cycles, 0, false).1, 0);
}

/// The high byte of a channel's CNT_H register: writing it (re)configures
/// the channel.
pub open spec fn is_dma_trigger(addr: u32) -> bool {
    let reg = addr & 0x3FFu32;
    region(addr) == 0x04 && (reg == 0x0BB || reg == 0x0C7 || reg == 0x0D3 || reg == 0x0DF)
}

/// The channel whose CNT_H high byte `addr` is.
pub open spec fn trigger_channel(addr: u32) -> int {
    let reg = addr & 0x3FFu32;
    if reg == 0x0BB { 0 } else if reg == 0x0C7 { 1 } else if reg == 0x0D3 { 2 } else { 3 }
}

/// Transfer units: 4 bytes for 32-bit transfers, else 2.
pub open spec fn unit_size(is32: bool) -> int {
    if is32 { 4 } else { 2 }
}

/// The destination step selected by the control word.
pub open spec fn dst_step(control: u16, is32: bool) -> int {
    let d = (control & dma_cnt::DST_CTRL) as u32;
    if d == 0 { unit_size(is32) } else if d == 1 { -unit_size(is32) } else if d == 2 { 0 } else { unit_size(is32) }
}

/// The source step selected by the control word.
pub open spec fn src_step(control: u16, is32: bool) -> int {
    let s = ((control & dma_cnt::SRC_CTRL) >> 2u16) as u32;
    if s == 0 { unit_size(is32) } else if s == 1 { -unit_size(is32) } else { 0 }
}

/// The number of units a count field selects: 0 means the maximum.
pub open spec fn count_of(cnt_l: u16, ch: int) -> u32 {
    if cnt_l == 0 { if ch == 3 { 0x10000 } else { 0x4000 } } else { cnt_l as u32 }
}

/// `n` transfer units, each a read at `src` and a write at `dst`, the
/// addresses moving by their steps; gives the memory and final addresses.
pub open spec fn dma_units(m: MemView, src: u32, dst: u32, n: nat, is32: bool, ss: int, ds: int) -> (MemView, u32, u32)
    decreases n,
{
    if n == 0 {
        (m, src, dst)
    } else {
        let m1 = if is32 {
            crate::mem_map::mem_write32(m, dst, mem_read32(m, src))
        } else {
            crate::mem_map::mem_write16(m, dst, mem_read16(m, src))
        };
        dma_units(m1, wrap32(src + ss), wrap32(dst + ds), (n - 1) as nat, is32, ss, ds)
    }
}

/// The word an integer leaves in a 32-bit register.
pub open spec fn wrap32(v: int) -> u32 {
    (v % 0x1_0000_0000) as u32
}

/// A little-endian word of the I/O registers.
pub open spec fn io_le32(m: MemView, at: int) -> u32 {
    (m.io_regs[at] as u32) | ((m.io_regs[at + 1] as u32) << 8u32) | ((m.io_regs[at + 2] as u32) << 16u32)
        | ((m.io_regs[at + 3] as u32) << 24u32)
}

/// A little-endian halfword of the I/O registers.
pub open spec fn io_le16(m: MemView, at: int) -> u16 {
    (m.io_regs[at] as u16) | ((m.io_regs[at + 1] as u16) << 8u16)
}

/// The channel as configured from its registers; on a 0 -> 1 enable
/// transition, with its internal source, destination and count latched.
pub open spec fn configured(m: MemView, d: Seq<DmaChannel>, ch: int) -> DmaChannel {
    let base = 0x0B0 + ch * 12;
    let sad = io_le32(m, base);
    let dad = io_le32(m, base + 4);
    let cnt_l = io_le16(m, base + 8);
    let cnt_h = io_le16(m, base + 10);
    let was_enabled = d[ch].control & dma_cnt::ENABLE != 0;
    let now_enabled = cnt_h & dma_cnt::ENABLE != 0;
    let c1 = DmaChannel { src: sad, dst: dad, count: cnt_l, control: cnt_h, ..d[ch] };
    if !was_enabled && now_enabled {
        DmaChannel { internal_src: sad, internal_dst: dad, internal_count: count_of(cnt_l, ch), pending: true, ..c1 }
    } else if !now_enabled {
        DmaChannel { pending: false, ..c1 }
    } else {
        c1
    }
}

/// Whether writing the CNT_H high byte starts an immediate transfer.
pub open spec fn starts_now(m: MemView, d: Seq<DmaChannel>, ch: int) -> bool {
    let cnt_h = io_le16(m, 0x0B0 + ch * 12 + 10);
    d[ch].control & dma_cnt::ENABLE == 0 && cnt_h & dma_cnt::ENABLE != 0
        && cnt_h & dma_cnt::TIMING == dma_cnt::TIMING_IMMEDIATE
}

/// After a transfer that started with control word `ctrl` and count field
/// `cnt` and ended at `src` / `dst`: reload the channel for its next start
/// (repeat, not immediate) or disable it, and raise its IRQ if asked.
pub open spec fn dma_finish(m: MemView, d: Seq<DmaChannel>, ch: int, ctrl: u16, cnt: u16, src: u32, dst: u32) -> (MemView, Seq<DmaChannel>) {
    let c = d[ch];
    let c1 = DmaChannel { internal_src: src, internal_dst: dst, ..c };
    let (m2, c2) = if ctrl & dma_cnt::REPEAT != 0 && ctrl & dma_cnt::TIMING != dma_cnt::TIMING_IMMEDIATE {
        (m, DmaChannel {
            internal_count: count_of(cnt, ch),
            internal_dst: if (ctrl & dma_cnt::DST_CTRL) as u32 == 3 { c.dst } else { dst },
            pending: true,
            ..c1
        })
    } else {
        let ctl = c.control & !dma_cnt::ENABLE;
        let base = 0x0B0 + ch * 12;
        (MemView { io_regs: m.io_regs.update(base + 10, ctl as u8).update(base + 11, (ctl >> 8u16) as u8), ..m },
         DmaChannel { control: ctl, pending: false, ..c1 })
    };
    let m3 = if ctrl & dma_cnt::IRQ != 0 { MemView { irf: m2.irf | (1u16 << (8 + ch) as u16), ..m2 } } else { m2 };
    (m3, d.update(ch, c2))
}

/// A byte write on the bus: the memory map, plus DMA (re)configuration when
/// a CNT_H high byte is written, with transfers started from inside
/// transfers up to `f` levels deep. The flag says whether the chain of
/// nested starts ended within those levels.
pub open spec fn dma_write8f(m: MemView, d: Seq<DmaChannel>, addr: u32, val: u8, f: nat) -> (MemView, Seq<DmaChannel>, bool)
    decreases f, 4nat, 0nat,
{
    let m1 = mem_write8(m, addr, val);
    if is_dma_trigger(addr) { cnt_h_writtenf(m1, d, trigger_channel(addr), f) } else { (m1, d, true) }
}

/// The effect of writing a channel's CNT_H high byte: reconfigure it, and
/// run it now when it was just enabled for an immediate start.
pub open spec fn cnt_h_writtenf(m: MemView, d: Seq<DmaChannel>, ch: int, f: nat) -> (MemView, Seq<DmaChannel>, bool)
    decreases f, 2nat, 0nat,
{
    let d1 = d.update(ch, configured(m, d, ch));
    if starts_now(m, d, ch) {
        if f == 0 { (m, d1, false) } else { dma_runf(m, d1, ch, (f - 1) as nat) }
    } else {
        (m, d1, true)
    }
}

/// Run channel `ch`'s latched transfer, then finish it.
pub open spec fn dma_runf(m: MemView, d: Seq<DmaChannel>, ch: int, f: nat) -> (MemView, Seq<DmaChannel>, bool)
    decreases f, 7nat, 0nat,
{
    let c = d[ch];
    let is32 = c.control & dma_cnt::WORD != 0;
    let r = dma_unitsf(m, d, c.internal_src, c.internal_dst, c.internal_count as nat, is32,
        src_step(c.control, is32), dst_step(c.control, is32), f);
    let (m2, d2) = dma_finish(r.0, r.1, ch, c.control, c.count, r.2, r.3);
    (m2, d2, r.4)
}

/// `n` transfer units, each a read at `src` and a bus write at `dst` (which
/// may itself reconfigure or start a channel), the addresses moving by
/// their steps; gives memory, channels, final addresses and the flag.
pub open spec fn dma_unitsf(m: MemView, d: Seq<DmaChannel>, src: u32, dst: u32, n: nat, is32: bool, ss: int, ds: int, f: nat)
    -> (MemView, Seq<DmaChannel>, u32, u32, bool)
    decreases f, 6nat, n,
{
    if n == 0 {
        (m, d, src, dst, true)
    } else {
        let w = if is32 {
            dma_write32f(m, d, dst, mem_read32(m, src), f)
        } else {
            dma_write16f(m, d, dst, mem_read16(m, src), f)
        };
        let r = dma_unitsf(w.0, w.1, wrap32(src + ss), wrap32(dst + ds), (n - 1) as nat, is32, ss, ds, f);
        (r.0, r.1, r.2, r.3, w.2 && r.4)
    }
}

/// A halfword write: palette RAM, VRAM and OAM store the halfword;
/// elsewhere two byte writes at the aligned address.
pub open spec fn dma_write16f(m: MemView, d: Seq<DmaChannel>, addr: u32, val: u16, f: nat) -> (MemView, Seq<DmaChannel>, bool)
    decreases f, 5nat, 0nat,
{
    let a = addr & !1u32;
    if is_video(a) {
        (video_write16(m, a, val), d, true)
    } else {
        let w1 = dma_write8f(m, d, a, val as u8, f);
        let w2 = dma_write8f(w1.0, w1.1, (a + 1) as u32, (val >> 8u16) as u8, f);
        (w2.0, w2.1, w1.2 && w2.2)
    }
}

/// A word write: palette RAM, VRAM and OAM store two halfwords; elsewhere
/// four byte writes at the aligned address.
pub open spec fn dma_write32f(m: MemView, d: Seq<DmaChannel>, addr: u32, val: u32, f: nat) -> (MemView, Seq<DmaChannel>, bool)
    decreases f, 5nat, 0nat,
{
    let a = addr & !3u32;
    if is_video(a) {
        (video_write16(video_write16(m, a, val as u16), (a + 2) as u32, (val >> 16u32) as u16), d, true)
    } else {
        let w1 = dma_write8f(m, d, a, val as u8, f);
        let w2 = dma_write8f(w1.0, w1.1, (a + 1) as u32, (val >> 8u32) as u8, f);
        let w3 = dma_write8f(w2.0, w2.1, (a + 2) as u32, (val >> 16u32) as u8, f);
        let w4 = dma_write8f(w3.0, w3.1, (a + 3) as u32, (val >> 24u32) as u8, f);
        (w4.0, w4.1, w1.2 && w2.2 && w3.2 && w4.2)
    }
}

/// How many levels of transfers started from inside transfers the bus
/// follows. A chain that would go deeper (more nested calls than any stack
/// holds) has its deepest start configured but not run.
pub const DMA_DEPTH: u32 = 0xFFFF_FFFF;

/// A byte write on the bus.
pub open spec fn dma_write8(m: MemView, d: Seq<DmaChannel>, addr: u32, val: u8) -> (MemView, Seq<DmaChannel>) {
    let r = dma_write8f(m, d, addr, val, DMA_DEPTH as nat);
    (r.0, r.1)
}

/// A halfword write whose chain of nested DMA starts ends within
/// `DMA_DEPTH` levels.
pub open spec fn write16_ok(m: MemView, d: Seq<DmaChannel>, addr: u32, val: u16) -> bool {
    dma_write16f(m, d, addr, val, DMA_DEPTH as nat).2
}

/// A halfword write on the bus.
pub open spec fn dma_write16(m: MemView, d: Seq<DmaChannel>, addr: u32, val: u16) -> (MemView, Seq<DmaChannel>) {
    let r = dma_write16f(m, d, addr, val, DMA_DEPTH as nat);
    (r.0, r.1)
}

/// A word write whose chain of nested DMA starts ends within `DMA_DEPTH`
/// levels.
pub open spec fn write32_ok(m: MemView, d: Seq<DmaChannel>, addr: u32, val: u32) -> bool {
    dma_write32f(m, d, addr, val, DMA_DEPTH as nat).2
}

/// A word write on the bus.
pub open spec fn dma_write32(m: MemView, d: Seq<DmaChannel>, addr: u32, val: u32) -> (MemView, Seq<DmaChannel>) {
    let r = dma_write32f(m, d, addr, val, DMA_DEPTH as nat);
    (r.0, r.1)
}

/// The bus seen as values: the memory map, the DMA channels and the
/// timers.
#[verifier::ext_equal]
pub ghost struct BusView {
    pub mem: MemView,
    pub dma: Seq<DmaChannel>,
    pub timers: Seq<Timer>,
}

/// A byte write as instructions see it.
pub open spec fn bus_write8(b: BusView, addr: u32, val: u8) -> BusView {
    let (m, d) = dma_write8(b.mem, b.dma, addr, val);
    BusView { mem: m, dma: d, ..b }
}

/// A halfword write as instructions see it.
pub open spec fn bus_write16(b: BusView, addr: u32, val: u16) -> BusView {
    let (m, d) = dma_write16(b.mem, b.dma, addr, val);
    BusView { mem: m, dma: d, ..b }
}

/// A word write as instructions see it.
pub open spec fn bus_write32(b: BusView, addr: u32, val: u32) -> BusView {
    let (m, d) = dma_write32(b.mem, b.dma, addr, val);
    BusView { mem: m, dma: d, ..b }
}

impl View for Bus {
    type V = BusView;

    open spec fn view(&self) -> BusView {
        BusView { mem: self.mem(), dma: self.dma@, timers: self.timers@ }
    }
}

/// Moving an even work-RAM address up by an even amount that stays inside
/// its window.
proof fn lemma_window_offset(a: u32, t: u32, msk: u32)
    by (bit_vector)
    requires
        (a >> 24u32 == 2 && msk == 0x3FFFFu32) || (a >> 24u32 == 3 && msk == 0x7FFFu32),
        a & 1u32 == 0,
        t % 2 == 0,
        (a & msk) + t + 2 <= msk + 1,
    ensures
        a + t <= 0xFFFF_FFFF,
        ((a + t) as u32) >> 24u32 == a >> 24u32,
        ((a + t) as u32) & msk == (a & msk) + t,
        ((a + t) as u32) & 1u32 == 0,
        ((a + t) as u32) & !1u32 == (a + t) as u32,
        (((a + t) as u32) + 1) as u32 >> 24u32 == a >> 24u32,
        (((a + t) as u32) + 1) as u32 & msk == (a & msk) + t + 1,
{
}

/// Whether the `len`-byte blocks at `a` and `b`, each in its work-RAM
/// window, share no cell.
pub open spec fn blocks_apart(a: u32, b: u32, len: int) -> bool {
    ||| region(a) != region(b)
    ||| (a & ram_mask(a)) + len <= (b & ram_mask(b))
    ||| (b & ram_mask(b)) + len <= (a & ram_mask(a))
}

/// Incrementing halfword units written to a work-RAM block change no byte
/// outside that block.
proof fn lemma_units_frame(m: MemView, src: u32, dst: u32, n: nat, x: u32, msk: u32)
    requires
        m.wf(),
        ram_window(dst, msk),
        dst & 1u32 == 0,
        (dst & msk) + 2 * n <= msk + 1,
        outside_ram_block(x, region(dst) as int, (dst & msk) as int, (2 * n) as int),
    ensures
        dma_units(m, src, dst, n, false, 2, 2).0.wf(),
        mem_read8(dma_units(m, src, dst, n, false, 2, 2).0, x) == mem_read8(m, x),
    decreases n,
{
    if n > 0 {
        let m1 = crate::mem_map::mem_write16(m, dst, mem_read16(m, src));
        let off = (dst & msk) as int;
        let tag = region(dst) as int;
        lemma_window_offset(dst, 0, msk);
        assert(ram_cell(dst & !1u32) == Some((tag, off)));
        assert(ram_cell(((dst & !1u32) + 1) as u32) == Some((tag, off + 1)));
        lemma_ram_write16_frame(m, dst, mem_read16(m, src), x);
        assert(dma_units(m, src, dst, n, false, 2, 2)
            == dma_units(m1, wrap32(src + 2), wrap32(dst + 2), (n - 1) as nat, false, 2, 2));
        if n > 1 {
            lemma_window_offset(dst, 2, msk);
            assert(wrap32(dst + 2) == (dst + 2) as u32);
            lemma_units_frame(m1, wrap32(src + 2), wrap32(dst + 2), (n - 1) as nat, x, msk);
        } else {
            assert(dma_units(m1, wrap32(src + 2), wrap32(dst + 2), 0, false, 2, 2).0 == m1);
        }
    }
}

/// Plain incrementing halfword writes from one work-RAM block to another
/// that shares no cell with it copy the block.
proof fn lemma_plain_copies(m: MemView, src: u32, dst: u32, n: nat, k: nat, smsk: u32, dmsk: u32)
    requires
        m.wf(),
        ram_window(src, smsk),
        ram_window(dst, dmsk),
        src & 1u32 == 0,
        dst & 1u32 == 0,
        (src & smsk) + 2 * n <= smsk + 1,
        (dst & dmsk) + 2 * n <= dmsk + 1,
        blocks_apart(src, dst, (2 * n) as int),
        k < n,
    ensures
        mem_read16(dma_units(m, src, dst, n, false, 2, 2).0, (dst + 2 * k) as u32) == mem_read16(m, (src + 2 * k) as u32),
    decreases n,
{
    let v = mem_read16(m, src);
    let m1 = crate::mem_map::mem_write16(m, dst, v);
    let off = (dst & dmsk) as int;
    let dtag = region(dst) as int;
    lemma_window_offset(dst, 0, dmsk);
    lemma_window_offset(src, 0, smsk);
    assert(ram_cell(dst & !1u32) == Some((dtag, off)));
    assert(ram_cell(((dst & !1u32) + 1) as u32) == Some((dtag, off + 1)));
    lemma_ram_write16_frame(m, dst, v, dst);
    let res = dma_units(m, src, dst, n, false, 2, 2).0;
    let s1 = wrap32(src + 2);
    let d1 = wrap32(dst + 2);
    assert(dma_units(m, src, dst, n, false, 2, 2) == dma_units(m1, s1, d1, (n - 1) as nat, false, 2, 2));
    if k == 0 {
        crate::mem_map::lemma_read16_after_write16(m, dst, v);
        if n > 1 {
            lemma_window_offset(dst, 2, dmsk);
            assert(d1 == (dst + 2) as u32);
            lemma_units_frame(m1, s1, d1, (n - 1) as nat, dst, dmsk);
            lemma_units_frame(m1, s1, d1, (n - 1) as nat, (dst + 1) as u32, dmsk);
            reveal(mem_read16);
            assert(mem_read16(res, dst) == mem_read16(m1, dst));
        } else {
            assert(res == m1);
        }
        assert((dst + 2 * k) as u32 == dst);
        assert((src + 2 * k) as u32 == src);
    } else {
        lemma_window_offset(dst, 2, dmsk);
        lemma_window_offset(src, 2, smsk);
        assert(d1 == (dst + 2) as u32);
        assert(s1 == (src + 2) as u32);
        let t = (2 * k) as u32;
        lemma_window_offset(src, t, smsk);
        let sa = (src + t) as u32;
        let stag = region(src) as int;
        let soff = ((src & smsk) + t) as int;
        assert(ram_cell(sa) == Some((stag, soff)));
        assert(ram_cell((sa + 1) as u32) == Some((stag, soff + 1)));
        assert(ram_mask(src) == smsk && ram_mask(dst) == dmsk);
        lemma_ram_write16_frame(m, dst, v, sa);
        lemma_ram_write16_frame(m, dst, v, (sa + 1) as u32);
        reveal(mem_read16);
        assert(mem_read16(m1, sa) == mem_read16(m, sa));
        assert(ram_mask(s1) == smsk && ram_mask(d1) == dmsk);
        assert(blocks_apart(s1, d1, 2 * (n - 1)));
        lemma_plain_copies(m1, s1, d1, (n - 1) as nat, (k - 1) as nat, smsk, dmsk);
        assert((d1 + 2 * (k - 1)) as u32 == (dst + 2 * k) as u32);
        assert((s1 + 2 * (k - 1)) as u32 == sa);
    }
}

/// Halfword units written into a work-RAM block touch no DMA register: the
/// transfer is a plain run of memory writes and leaves the channels alone.
proof fn lemma_units_plain(m: MemView, d: Seq<DmaChannel>, src: u32, dst: u32, n: nat, f: nat, msk: u32)
    requires
        ram_window(dst, msk),
        dst & 1u32 == 0,
        (dst & msk) + 2 * n <= msk + 1,
    ensures
        ({
            let p = dma_units(m, src, dst, n, false, 2, 2);
            dma_unitsf(m, d, src, dst, n, false, 2, 2, f) == (p.0, d, p.1, p.2, true)
        }),
    decreases n,
{
    if n > 0 {
        lemma_window_offset(dst, 0, msk);
        let v = mem_read16(m, src);
        reveal(crate::mem_map::mem_write16);
        assert(!is_video(dst));
        assert(!is_dma_trigger(dst) && !is_dma_trigger((dst + 1) as u32));
        assert(dma_write16f(m, d, dst, v, f) == (crate::mem_map::mem_write16(m, dst, v), d, true));
        let m1 = crate::mem_map::mem_write16(m, dst, v);
        let s1 = wrap32(src + 2);
        let d1 = wrap32(dst + 2);
        let r = dma_unitsf(m1, d, s1, d1, (n - 1) as nat, false, 2, 2, f);
        assert(dma_unitsf(m, d, src, dst, n, false, 2, 2, f) == (r.0, r.1, r.2, r.3, true && r.4));
        assert(dma_units(m, src, dst, n, false, 2, 2) == dma_units(m1, s1, d1, (n - 1) as nat, false, 2, 2));
        if n > 1 {
            lemma_window_offset(dst, 2, msk);
            assert(d1 == (dst + 2) as u32);
            lemma_units_plain(m1, d, s1, d1, (n - 1) as nat, f, msk);
        }
    }
}

/// An incrementing halfword transfer from one work-RAM block to another
/// (EWRAM or IWRAM, each block inside its window, the two sharing no cell)
/// copies the source block and leaves the DMA channels alone: the `k`-th
/// destination halfword reads as the `k`-th source halfword read before the
/// transfer.
pub proof fn lemma_dma_copies(m: MemView, d: Seq<DmaChannel>, src: u32, dst: u32, n: nat, k: nat, f: nat)
    requires
        m.wf(),
        region(src) == 0x02 || region(src) == 0x03,
        region(dst) == 0x02 || region(dst) == 0x03,
        src & 1u32 == 0,
        dst & 1u32 == 0,
        (src & ram_mask(src)) + 2 * n <= ram_mask(src) + 1,
        (dst & ram_mask(dst)) + 2 * n <= ram_mask(dst) + 1,
        blocks_apart(src, dst, (2 * n) as int),
        k < n,
    ensures
        mem_read16(dma_unitsf(m, d, src, dst, n, false, 2, 2, f).0, (dst + 2 * k) as u32)
            == mem_read16(m, (src + 2 * k) as u32),
        dma_unitsf(m, d, src, dst, n, false, 2, 2, f).1 == d,
        dma_unitsf(m, d, src, dst, n, false, 2, 2, f).4,
{
    lemma_units_plain(m, d, src, dst, n, f, ram_mask(dst));
    lemma_plain_copies(m, src, dst, n, k, ram_mask(src), ram_mask(dst));
}

/// A word written to work RAM or SRAM through the bus is a plain memory
/// write: it starts no transfer and leaves channels and timers alone.
pub proof fn lemma_bus_write32_ram(b: BusView, addr: u32, val: u32)
    requires
        ram_cell(addr) is Some,
    ensures
        write32_ok(b.mem, b.dma, addr, val),
        bus_write32(b, addr, val) == (BusView { mem: crate::mem_map::mem_write32(b.mem, addr, val), ..b }),
{
    let a = addr & !3u32;
    lemma_aligned_bytes(addr, a, addr & !1u32);
    lemma_masks(addr);
    reveal(crate::mem_map::mem_write32);
    assert(!is_video(a));
    assert(!is_dma_trigger(a) && !is_dma_trigger((a + 1) as u32) && !is_dma_trigger((a + 2) as u32)
        && !is_dma_trigger((a + 3) as u32));
    assert forall|f: nat| #[trigger] dma_write32f(b.mem, b.dma, addr, val, f)
        == (crate::mem_map::mem_write32(b.mem, addr, val), b.dma, true) by {}
    assert(dma_write32f(b.mem, b.dma, addr, val, 0).2);
}

/// A halfword written through the bus to work RAM, SRAM, palette RAM, VRAM
/// or OAM starts no transfer, leaves channels and timers alone, reads back
/// as written, and every byte outside its aligned halfword (and the mirrors
/// of that halfword) reads as before.
pub proof fn lemma_bus_write16(b: BusView, addr: u32, val: u16, other: u32)
    requires
        b.mem.wf(),
        mem_cell(addr) is Some,
    ensures
        write16_ok(b.mem, b.dma, addr, val),
        bus_write16(b, addr, val) == (BusView { mem: crate::mem_map::mem_write16(b.mem, addr, val), ..b }),
        mem_read16(bus_write16(b, addr, val).mem, addr) == val,
        mem_cell(other) != mem_cell(addr & !1u32) && mem_cell(other) != mem_cell(((addr & !1u32) + 1) as u32)
            ==> mem_read8(bus_write16(b, addr, val).mem, other) == mem_read8(b.mem, other),
{
    let a = addr & !1u32;
    lemma_aligned_bytes(addr, addr & !3u32, a);
    lemma_masks(addr);
    reveal(crate::mem_map::mem_write16);
    reveal(video_write16);
    assert(!is_dma_trigger(a) && !is_dma_trigger((a + 1) as u32));
    assert forall|f: nat| #[trigger] dma_write16f(b.mem, b.dma, addr, val, f)
        == (crate::mem_map::mem_write16(b.mem, addr, val), b.dma, true) by {}
    assert(dma_write16f(b.mem, b.dma, addr, val, 0).2);
    lemma_write16_frame(b.mem, addr, val, other);
}

/// Channels `ch..4` fired for a start event `timing`: enabled, pending
/// channels with that start timing run in channel order, with nested starts
/// up to `f` levels deep.
pub open spec fn dma_trigger_fromf(m: MemView, d: Seq<DmaChannel>, timing: u16, ch: int, f: nat) -> (MemView, Seq<DmaChannel>, bool)
    decreases 4 - ch,
{
    if ch >= 4 || ch < 0 {
        (m, d, true)
    } else {
        let c = d[ch];
        let w = if c.control & dma_cnt::ENABLE != 0 && c.control & dma_cnt::TIMING == timing && c.pending {
            dma_runf(m, d, ch, f)
        } else {
            (m, d, true)
        };
        let r = dma_trigger_fromf(w.0, w.1, timing, ch + 1, f);
        (r.0, r.1, w.2 && r.2)
    }
}

/// The channels waiting for `timing` run.
pub open spec fn dma_trigger(m: MemView, d: Seq<DmaChannel>, timing: u16) -> (MemView, Seq<DmaChannel>) {
    let r = dma_trigger_fromf(m, d, timing, 0, DMA_DEPTH as nat);
    (r.0, r.1)
}

impl Bus {
    /// The memory-mapped state of the bus.
    pub open spec fn mem(&self) -> MemView {
        MemView {
            bios: match self.bios {
                Some(b) => Some(b@),
                None => None,
            },
            ewram: self.ewram@,
            iwram: self.iwram@,
            io_regs: self.io_regs@,
            rom: self.rom@,
            sram: self.sram@,
            ppu: self.ppu@,
            ime: self.ime,
            ie: self.ie,
            irf: self.irf,
            halt: self.halt,
            keyinput: self.keyinput,
        }
    }

    /// Every memory has its fixed size and the PPU counters are in range.
    pub open spec fn wf(&self) -> bool {
        self.mem().wf()
    }

    /// A bus at power-on: cleared RAM, all keys released, no DMA or timer enabled.
    pub fn new(rom: Vec<u8>, bios: Option<Vec<u8>>) -> (b: Self)
        ensures
            b.wf(),
            b.rom@ == rom@,
            b.bios == bios,
            b.ewram@ == Seq::new(EWRAM_SIZE as nat, |i: int| 0u8),
            b.iwram@ == Seq::new(IWRAM_SIZE as nat, |i: int| 0u8),
            b.io_regs@ == Seq::new(IO_SIZE as nat, |i: int| 0u8),
            b.sram@ == Seq::new(SRAM_SIZE as nat, |i: int| 0u8),
            b.ppu@.vram == Seq::new(0x18000, |i: int| 0u8),
            b.ppu@.palette == Seq::new(0x400, |i: int| 0u8),
            b.ppu@.oam == Seq::new(0x400, |i: int| 0u8),
            b.ppu@.framebuffer == Seq::new(38400, |i: int| 0xFF00_0000u32),
            b.ppu.vcount == 0 && b.ppu.vcount_target == 0 && !b.ppu.in_hblank && b.ppu@.dot_counter == 0,
            !b.ime && b.ie == 0 && b.irf == 0 && !b.halt,
            b.keyinput == 0x03FF,
            forall|i: int| 0 <= i < 4 ==> (#[trigger] b.dma@[i]).src == 0 && b.dma@[i].dst == 0
                && b.dma@[i].count == 0 && b.dma@[i].control == 0 && b.dma@[i].internal_src == 0
                && b.dma@[i].internal_dst == 0 && b.dma@[i].internal_count == 0 && !b.dma@[i].pending,
            forall|i: int| 0 <= i < 4 ==> (#[trigger] b.timers@[i]).reload == 0 && b.timers@[i].counter == 0
                && b.timers@[i].control == 0 && b.timers@[i].internal == 0,
    {
        let d = DmaChannel {
            src: 0,
            dst: 0,
            count: 0,
            control: 0,
            internal_src: 0,
            internal_dst: 0,
            internal_count: 0,
            pending: false,
        };
        let t = Timer { reload: 0, counter: 0, control: 0, internal: 0 };
        let b = Self {
            bios,
            ewram: vec![0; 256 * 1024],
            iwram: vec![0; 32 * 1024],
            io_regs: vec![0; 0x400],
            rom,
            sram: vec![0; 64 * 1024],
            ppu: Ppu::new(),
            ime: false,
            ie: 0,
            irf: 0,
            halt: false,
            dma: [d, d, d, d],
            timers: [t, t, t, t],
            keyinput: 0x03FF, // All buttons released (active low)
        };
        assert(b.ewram@ =~= Seq::new(EWRAM_SIZE as nat, |i: int| 0u8));
        assert(b.iwram@ =~= Seq::new(IWRAM_SIZE as nat, |i: int| 0u8));
        assert(b.io_regs@ =~= Seq::new(IO_SIZE as nat, |i: int| 0u8));
        assert(b.sram@ =~= Seq::new(SRAM_SIZE as nat, |i: int| 0u8));
        b
    }

    /// Read a byte from the memory map.
    pub fn read8(&self, addr: u32) -> (r: u8)
        requires
            self.wf(),
        ensures
            r == mem_read8(self.mem(), addr),
    {
        reveal(mem_read8);
        proof { lemma_masks(addr); }
        let r = addr >> 24u32;
        if r == 0x00 {
            // BIOS
            match &self.bios {
                Some(bios) => {
                    let idx = (addr & 0x3FFF) as usize;
                    if idx < bios.len() { bios[idx] } else { 0 }
                },
                None => 0,
            }
        } else if r == 0x02 {
            // EWRAM (mirrored every 256KB)
            self.ewram[(addr & 0x3FFFF) as usize]
        } else if r == 0x03 {
            // IWRAM (mirrored every 32KB)
            self.iwram[(addr & 0x7FFF) as usize]
        } else if r == 0x04 {
            // I/O Registers
            self.read_io(addr)
        } else if r == 0x05 {
            // Palette RAM
            self.ppu.palette[(addr & 0x3FF) as usize]
        } else if r == 0x06 {
            // VRAM (mirrored, 96KB)
            let offset = addr & 0x1FFFF;
            let offset = if offset >= 0x18000 { offset - 0x8000 } else { offset };
            self.ppu.vram[offset as usize]
        } else if r == 0x07 {
            // OAM
            self.ppu.oam[(addr & 0x3FF) as usize]
        } else if 0x08 <= r && r <= 0x0D {
            // ROM (mirrored across wait states)
            let offset = (addr & 0x01FF_FFFF) as usize;
            if offset < self.rom.len() { self.rom[offset] } else { 0 }
        } else if r == 0x0E || r == 0x0F {
            // SRAM
            self.sram[(addr & 0xFFFF) as usize]
        } else {
            // Open bus / unused
            0
        }
    }

    /// Read a 16-bit halfword (little-endian, force aligned).
    pub fn read16(&self, addr: u32) -> (r: u16)
        requires
            self.wf(),
        ensures
            r == mem_read16(self.mem(), addr),
    {
        reveal(mem_read16);
        proof { lemma_masks(addr); }
        let addr = addr & !1u32; // Force align
        let lo = self.read8(addr) as u16;
        let hi = self.read8(addr + 1) as u16;
        lo | (hi << 8u16)
    }

    /// Read a 32-bit word (little-endian, force aligned).
    pub fn read32(&self, addr: u32) -> (r: u32)
        requires
            self.wf(),
        ensures
            r == mem_read32(self.mem(), addr),
    {
        reveal(mem_read32);
        proof { lemma_masks(addr); }
        let addr = addr & !3u32; // Force align
        let b0 = self.read8(addr) as u32;
        let b1 = self.read8(addr + 1) as u32;
        let b2 = self.read8(addr + 2) as u32;
        let b3 = self.read8(addr + 3) as u32;
        b0 | (b1 << 8u32) | (b2 << 16u32) | (b3 << 24u32)
    }

    /// Write a byte.
    pub fn write8(&mut self, addr: u32, val: u8)
        requires
            old(self).wf(),
        ensures
            final(self).wf(),
            (final(self).mem(), final(self).dma@) == dma_write8(old(self).mem(), old(self).dma@, addr, val),
            final(self)@ == bus_write8(old(self)@, addr, val),
            final(self).timers == old(self).timers,
    {
        self.write8_nested(addr, val, DMA_DEPTH);
    }

    /// A byte write allowed `depth` levels of nested transfer starts;
    /// returns whether the chain of nested starts ended within them.
    fn write8_nested(&mut self, addr: u32, val: u8, depth: u32) -> (ok: bool)
        requires
            old(self).wf(),
        ensures
            final(self).wf(),
            (final(self).mem(), final(self).dma@, ok) == dma_write8f(old(self).mem(), old(self).dma@, addr, val, depth as nat),
            final(self).timers == old(self).timers,
        decreases depth, 4nat, 0nat,
    {
        reveal(mem_write8);
        reveal(ram_write8);
        proof { lemma_masks(addr); }
        let r = addr >> 24u32;
        if r == 0x02 {
            self.ewram[(addr & 0x3FFFF) as usize] = val;
        } else if r == 0x03 {
            self.iwram[(addr & 0x7FFF) as usize] = val;
        } else if r == 0x04 {
            return self.write_io(addr, val, depth);
        } else if r == 0x05 {
            // Palette RAM - 8-bit writes write the byte to both bytes of the halfword
            let aligned = (addr & 0x3FE) as usize;
            self.ppu.palette[aligned] = val;
            self.ppu.palette[aligned + 1] = val;
        } else if r == 0x06 {
            // VRAM - 8-bit writes similar to palette
            let offset = addr & 0x1FFFF;
            let offset = if offset >= 0x18000 { offset - 0x8000 } else { offset };
            proof { crate::bits::lemma_word_bits(offset); }
            let aligned = (offset & !1u32) as usize;
            self.ppu.vram[aligned] = val;
            if aligned + 1 < self.ppu.vram.len() {
                self.ppu.vram[aligned + 1] = val;
            }
        } else if r == 0x07 {
            // OAM ignores 8-bit writes
        } else if r == 0x0E || r == 0x0F {
            self.sram[(addr & 0xFFFF) as usize] = val;
        }
        proof {
            assert(self.mem() =~= mem_write8(old(self).mem(), addr, val));
        }
        true
    }

    /// Write a 16-bit halfword.
    pub fn write16(&mut self, addr: u32, val: u16)
        requires
            old(self).wf(),
        ensures
            final(self).wf(),
            (final(self).mem(), final(self).dma@) == dma_write16(old(self).mem(), old(self).dma@, addr, val),
            final(self)@ == bus_write16(old(self)@, addr, val),
            final(self).timers == old(self).timers,
    {
        self.write16_nested(addr, val, DMA_DEPTH);
    }

    /// A halfword write allowed `f` levels of nested transfer starts.
    fn write16_nested(&mut self, addr: u32, val: u16, depth: u32) -> (ok: bool)
        requires
            old(self).wf(),
        ensures
            final(self).wf(),
            (final(self).mem(), final(self).dma@, ok) == dma_write16f(old(self).mem(), old(self).dma@, addr, val, depth as nat),
            final(self).timers == old(self).timers,
        decreases depth, 5nat, 0nat,
    {
        proof { lemma_masks(addr); }
        let a = addr & !1u32;
        let r = a >> 24u32;
        if r == 0x05 || r == 0x06 || r == 0x07 {
            // Palette RAM, VRAM and OAM take the whole halfword
            self.write_video16(a, val);
            true
        } else {
            let ok1 = self.write8_nested(a, val as u8, depth);
            let ok2 = self.write8_nested(a + 1, (val >> 8u16) as u8, depth);
            ok1 && ok2
        }
    }

    /// Write a 32-bit word.
    pub fn write32(&mut self, addr: u32, val: u32)
        requires
            old(self).wf(),
        ensures
            final(self).wf(),
            (final(self).mem(), final(self).dma@) == dma_write32(old(self).mem(), old(self).dma@, addr, val),
            final(self)@ == bus_write32(old(self)@, addr, val),
            final(self).timers == old(self).timers,
    {
        self.write32_nested(addr, val, DMA_DEPTH);
    }

    /// A word write allowed `f` levels of nested transfer starts.
    fn write32_nested(&mut self, addr: u32, val: u32, depth: u32) -> (ok: bool)
        requires
            old(self).wf(),
        ensures
            final(self).wf(),
            (final(self).mem(), final(self).dma@, ok) == dma_write32f(old(self).mem(), old(self).dma@, addr, val, depth as nat),
            final(self).timers == old(self).timers,
        decreases depth, 5nat, 0nat,
    {
        proof { lemma_masks(addr); }
        let a = addr & !3u32;
        proof { lemma_aligned_bytes(addr, a, addr & !1u32); }
        let r = a >> 24u32;
        if r == 0x05 || r == 0x06 || r == 0x07 {
            // Palette RAM, VRAM and OAM take the word as two halfwords
            self.write_video16(a, val as u16);
            self.write_video16(a + 2, (val >> 16u32) as u16);
            true
        } else {
            let ok1 = self.write8_nested(a, val as u8, depth);
            let ok2 = self.write8_nested(a + 1, (val >> 8u32) as u8, depth);
            let ok3 = self.write8_nested(a + 2, (val >> 16u32) as u8, depth);
            let ok4 = self.write8_nested(a + 3, (val >> 24u32) as u8, depth);
            ok1 && ok2 && ok3 && ok4
        }
    }

    /// Store a halfword into palette RAM, VRAM or OAM.
    fn write_video16(&mut self, a: u32, val: u16)
        requires
            old(self).wf(),
            is_video(a),
        ensures
            final(self).wf(),
            final(self).mem() == video_write16(old(self).mem(), a, val),
            final(self).dma == old(self).dma,
            final(self).timers == old(self).timers,
    {
        reveal(video_write16);
        proof { lemma_masks(a); }
        let lo = val as u8;
        let hi = (val >> 8u16) as u8;
        let r = a >> 24u32;
        if r == 0x05 {
            let al = (a & 0x3FE) as usize;
            self.ppu.palette[al] = lo;
            self.ppu.palette[al + 1] = hi;
        } else if r == 0x06 {
            let offset = a & 0x1FFFF;
            let offset = if offset >= 0x18000 { offset - 0x8000 } else { offset };
            proof { crate::bits::lemma_word_bits(offset); }
            let al = (offset & !1u32) as usize;
            self.ppu.vram[al] = lo;
            if al + 1 < self.ppu.vram.len() {
                self.ppu.vram[al + 1] = hi;
            }
        } else {
            let al = (a & 0x3FE) as usize;
            self.ppu.oam[al] = lo;
            self.ppu.oam[al + 1] = hi;
        }
        proof {
            assert(final(self).mem() =~= video_write16(old(self).mem(), a, val));
        }
    }

    /// Read from I/O registers.
    fn read_io(&self, addr: u32) -> (r: u8)
        requires
            self.wf(),
        ensures
            r == io_read8(self.mem(), addr),
    {
        reveal(io_read8);
        proof { lemma_masks(addr); }
        let reg = addr & 0x3FF;
        if reg <= 0x001 {
            // DISPCNT
            self.io_regs[reg as usize]
        } else if reg == 0x004 {
            // DISPSTAT
            let mut val = self.io_regs[0x004];
            // V-blank flag
            if self.ppu.vcount >= VDRAW_LINES { val = val | 0x01; }
            // H-blank flag (simplified)
            if self.ppu.in_hblank { val = val | 0x02; }
            // V-counter flag
            if self.ppu.vcount == self.ppu.vcount_target { val = val | 0x04; }
            val
        } else if reg == 0x005 {
            self.io_regs[0x005]
        } else if reg == 0x006 {
            // VCOUNT
            self.ppu.vcount as u8
        } else if reg == 0x007 {
            0
        } else if reg == 0x130 {
            // KEYINPUT
            self.keyinput as u8
        } else if reg == 0x131 {
            (self.keyinput >> 8u16) as u8
        } else if reg == 0x200 {
            // IE
            self.ie as u8
        } else if reg == 0x201 {
            (self.ie >> 8u16) as u8
        } else if reg == 0x202 {
            // IF
            self.irf as u8
        } else if reg == 0x203 {
            (self.irf >> 8u16) as u8
        } else if reg == 0x208 {
            // IME
            if self.ime { 1 } else { 0 }
        } else if reg == 0x209 {
            0
        } else if (reg as usize) < self.io_regs.len() {
            self.io_regs[reg as usize]
        } else {
            0
        }
    }

    /// Write to I/O registers.
    fn write_io(&mut self, addr: u32, val: u8, depth: u32) -> (ok: bool)
        requires
            old(self).wf(),
            region(addr) == 0x04,
        ensures
            final(self).wf(),
            (final(self).mem(), final(self).dma@, ok) == dma_write8f(old(self).mem(), old(self).dma@, addr, val, depth as nat),
            final(self).timers == old(self).timers,
        decreases depth, 3nat, 0nat,
    {
        reveal(io_write8);
        reveal(mem_write8);
        proof { lemma_masks(addr); }
        let reg = addr & 0x3FF;
        if reg <= 0x001 {
            // DISPCNT
            self.io_regs[reg as usize] = val;
        } else if reg == 0x004 {
            // DISPSTAT: only bits 3-5 are writable (interrupt enables + vcount target low)
            self.io_regs[0x004] = (self.io_regs[0x004] & !0x38u8) | (val & 0x38);
        } else if reg == 0x005 {
            self.io_regs[0x005] = val;
            self.ppu.vcount_target = val as u16;
        } else if 0x008 <= reg && reg <= 0x05F {
            // BG control, scroll, etc. - store directly
            self.io_regs[reg as usize] = val;
        } else if reg == 0x200 {
            // IE
            self.ie = (self.ie & 0xFF00) | val as u16;
        } else if reg == 0x201 {
            self.ie = (self.ie & 0x00FF) | ((val as u16) << 8u16);
        } else if reg == 0x202 {
            // IF - write 1 to acknowledge/clear
            self.irf = self.irf & !(val as u16);
        } else if reg == 0x203 {
            self.irf = self.irf & !((val as u16) << 8u16);
        } else if reg == 0x208 {
            // IME
            self.ime = val & 1 != 0;
        } else if 0x0B0 <= reg && reg <= 0x0DF {
            // DMA registers: per channel i, base = 0x0B0 + i*12:
            // +0..+3 SAD, +4..+7 DAD, +8..+9 CNT_L, +10..+11 CNT_H
            if (reg as usize) < self.io_regs.len() {
                self.io_regs[reg as usize] = val;
            }
            proof {
                assert(self.mem() =~= io_write8(old(self).mem(), addr, val));
            }
            if reg == 0x0BB {
                return self.on_dma_cnt_h_write(0, depth);
            } else if reg == 0x0C7 {
                return self.on_dma_cnt_h_write(1, depth);
            } else if reg == 0x0D3 {
                return self.on_dma_cnt_h_write(2, depth);
            } else if reg == 0x0DF {
                return self.on_dma_cnt_h_write(3, depth);
            }
            return true;
        } else if reg == 0x301 {
            // HALTCNT
            self.halt = true;
        } else if (reg as usize) < self.io_regs.len() {
            self.io_regs[reg as usize] = val;
        }
        proof {
            assert(self.mem() =~= io_write8(old(self).mem(), addr, val));
        }
        true
    }

    /// Called when the CNT_H high byte of DMA channel `ch` is written.
    /// Latches internal registers on a 0->1 enable transition and fires
    /// an immediate DMA right away.
    fn on_dma_cnt_h_write(&mut self, ch: usize, depth: u32) -> (ok: bool)
        requires
            old(self).wf(),
            ch < 4,
        ensures
            final(self).wf(),
            (final(self).mem(), final(self).dma@, ok) == cnt_h_writtenf(old(self).mem(), old(self).dma@, ch as int, depth as nat),
            final(self).timers == old(self).timers,
        decreases depth, 2nat, 0nat,
    {
        let base = 0x0B0 + ch * 12;
        let sad = (self.io_regs[base] as u32) | ((self.io_regs[base + 1] as u32) << 8u32)
            | ((self.io_regs[base + 2] as u32) << 16u32) | ((self.io_regs[base + 3] as u32) << 24u32);
        let dad = (self.io_regs[base + 4] as u32) | ((self.io_regs[base + 5] as u32) << 8u32)
            | ((self.io_regs[base + 6] as u32) << 16u32) | ((self.io_regs[base + 7] as u32) << 24u32);
        let cnt_l = (self.io_regs[base + 8] as u16) | ((self.io_regs[base + 9] as u16) << 8u16);
        let cnt_h = (self.io_regs[base + 10] as u16) | ((self.io_regs[base + 11] as u16) << 8u16);
        let was_enabled = self.dma[ch].control & dma_cnt::ENABLE != 0;
        let now_enabled = cnt_h & dma_cnt::ENABLE != 0;
        self.dma[ch].src = sad;
        self.dma[ch].dst = dad;
        self.dma[ch].count = cnt_l;
        self.dma[ch].control = cnt_h;
        if !was_enabled && now_enabled {
            // Latch internal registers on enable transition
            self.dma[ch].internal_src = sad;
            self.dma[ch].internal_dst = dad;
            // Count of 0 means maximum: 0x4000 for ch0-2, 0x10000 for ch3
            self.dma[ch].internal_count = if cnt_l == 0 {
                if ch == 3 { 0x10000 } else { 0x4000 }
            } else {
                cnt_l as u32
            };
            self.dma[ch].pending = true;
            assert(self.dma@ =~= old(self).dma@.update(ch as int, configured(old(self).mem(), old(self).dma@, ch as int)));
            // Immediate DMA fires right now
            if cnt_h & dma_cnt::TIMING == dma_cnt::TIMING_IMMEDIATE {
                if depth == 0 {
                    // The chain of nested starts goes deeper than followed
                    return false;
                }
                return self.run_dma(ch, depth - 1);
            }
        } else if !now_enabled {
            self.dma[ch].pending = false;
            assert(self.dma@ =~= old(self).dma@.update(ch as int, configured(old(self).mem(), old(self).dma@, ch as int)));
        } else {
            assert(self.dma@ =~= old(self).dma@.update(ch as int, configured(old(self).mem(), old(self).dma@, ch as int)));
        }
        true
    }

    /// Execute a DMA transfer for channel `ch`.
    fn run_dma(&mut self, ch: usize, depth: u32) -> (ok: bool)
        requires
            old(self).wf(),
            ch < 4,
        ensures
            final(self).wf(),
            (final(self).mem(), final(self).dma@, ok) == dma_runf(old(self).mem(), old(self).dma@, ch as int, depth as nat),
            final(self).timers == old(self).timers,
        decreases depth, 7nat, 0nat,
    {
        // Copy channel state to locals: nested transfers may change the channel
        let ctrl = self.dma[ch].control;
        let count = self.dma[ch].internal_count;
        let raw_count = self.dma[ch].count;
        let src = self.dma[ch].internal_src;
        let dst = self.dma[ch].internal_dst;
        let is_32bit = ctrl & dma_cnt::WORD != 0;
        let unit: i32 = if is_32bit { 4 } else { 2 };
        let dst_ctrl = (ctrl & dma_cnt::DST_CTRL) as u32;
        let src_ctrl = ((ctrl & dma_cnt::SRC_CTRL) >> 2u16) as u32;
        let dst_step: i32 = if dst_ctrl == 0 {
            unit
        } else if dst_ctrl == 1 {
            -unit
        } else if dst_ctrl == 2 {
            0 // fixed
        } else {
            unit // 3 = inc+reload: increment during transfer, reload after
        };
        let src_step: i32 = if src_ctrl == 0 {
            unit
        } else if src_ctrl == 1 {
            -unit
        } else {
            0 // fixed or prohibited
        };
        let (src, dst, ok) = self.dma_transfer(src, dst, count, is_32bit, src_step, dst_step, depth);
        self.dma_finish(ch, ctrl, raw_count, src, dst);
        ok
    }

    /// `count` units from `src` to `dst`; returns the final addresses.
    fn dma_transfer(&mut self, src: u32, dst: u32, count: u32, is_32bit: bool, src_step: i32, dst_step: i32, depth: u32) -> (r: (u32, u32, bool))
        requires
            old(self).wf(),
        ensures
            final(self).wf(),
            (final(self).mem(), final(self).dma@, r.0, r.1, r.2)
                == dma_unitsf(old(self).mem(), old(self).dma@, src, dst, count as nat, is_32bit, src_step as int, dst_step as int, depth as nat),
            final(self).timers == old(self).timers,
        decreases depth, 6nat, 0nat,
    {
        let mut src = src;
        let mut dst = dst;
        let mut ok = true;
        let ghost target = dma_unitsf(self.mem(), self.dma@, src, dst, count as nat, is_32bit, src_step as int, dst_step as int, depth as nat);
        let mut i: u32 = 0;
        while i < count
            invariant
                i <= count,
                self.wf(),
                ({
                    let q = dma_unitsf(self.mem(), self.dma@, src, dst, (count - i) as nat, is_32bit, src_step as int,
                        dst_step as int, depth as nat);
                    (q.0, q.1, q.2, q.3, ok && q.4) == target
                }),
                self.timers == old(self).timers,
            decreases count - i,
        {
            let w = if is_32bit {
                let v = self.read32(src);
                self.write32_nested(dst, v, depth)
            } else {
                let v = self.read16(src);
                self.write16_nested(dst, v, depth)
            };
            ok = ok && w;
            src = src.wrapping_add_signed(src_step);
            dst = dst.wrapping_add_signed(dst_step);
            i = i + 1;
        }
        (src, dst, ok)
    }

    /// Finish a transfer that started with control word `ctrl` and count
    /// field `raw_count` and ended at `src` / `dst`.
    fn dma_finish(&mut self, ch: usize, ctrl: u16, raw_count: u16, src: u32, dst: u32)
        requires
            old(self).wf(),
            ch < 4,
        ensures
            final(self).wf(),
            (final(self).mem(), final(self).dma@) == dma_finish(old(self).mem(), old(self).dma@, ch as int, ctrl, raw_count, src, dst),
            final(self).timers == old(self).timers,
    {
        let dst_ctrl = (ctrl & dma_cnt::DST_CTRL) as u32;
        // Write back updated internal addresses
        self.dma[ch].internal_src = src;
        self.dma[ch].internal_dst = dst;
        // Determine next state: repeat (timed only) or complete
        let repeat = ctrl & dma_cnt::REPEAT != 0;
        let timing = ctrl & dma_cnt::TIMING;
        if repeat && timing != dma_cnt::TIMING_IMMEDIATE {
            // Reload count for next trigger
            self.dma[ch].internal_count = if raw_count == 0 {
                if ch == 3 { 0x10000 } else { 0x4000 }
            } else {
                raw_count as u32
            };
            // dst_ctrl == 3 means reload destination address too
            if dst_ctrl == 3 {
                self.dma[ch].internal_dst = self.dma[ch].dst;
            }
            self.dma[ch].pending = true;
        } else {
            // Transfer complete - clear enable bit and sync back to io_regs
            self.dma[ch].control = self.dma[ch].control & !dma_cnt::ENABLE;
            self.dma[ch].pending = false;
            let base = 0x0B0 + ch * 12;
            self.io_regs[base + 10] = self.dma[ch].control as u8;
            self.io_regs[base + 11] = (self.dma[ch].control >> 8u16) as u8;
        }
        // Fire IRQ if the channel requested it
        if ctrl & dma_cnt::IRQ != 0 {
            self.irf = self.irf | (1u16 << (8 + ch) as u16); // DMA0=bit8 .. DMA3=bit11
        }
        proof {
            assert(self.dma@ =~= dma_finish(old(self).mem(), old(self).dma@, ch as int, ctrl, raw_count, src, dst).1);
            assert(self.mem() =~= dma_finish(old(self).mem(), old(self).dma@, ch as int, ctrl, raw_count, src, dst).0);
        }
    }
}

/// The PPU state and interrupt requests after `cycles` cycles.
pub open spec fn ppu_after(b: BusView, cycles: u32) -> (PpuView, u16) {
    ppu_run(PpuView { dot_counter: (b.mem.ppu.dot_counter + cycles) as u32, ..b.mem.ppu }, b.mem.irf)
}

/// V-blank rising edge: the line counter crosses into V-blank.
pub open spec fn vblank_edge(b: BusView, cycles: u32) -> bool {
    b.mem.ppu.vcount < VDRAW_LINES && ppu_after(b, cycles).0.vcount >= VDRAW_LINES
}

/// H-blank rising edge, on a visible line.
pub open spec fn hblank_edge(b: BusView, cycles: u32) -> bool {
    let p = ppu_after(b, cycles).0;
    !b.mem.ppu.in_hblank && p.in_hblank && p.vcount < VDRAW_LINES
}

/// The memory after the PPU and the timers have run for `cycles` cycles,
/// and the timers.
pub open spec fn timed(b: BusView, cycles: u32) -> (MemView, Seq<Timer>) {
    let (p, irf1) = ppu_after(b, cycles);
    let (ts, irf2) = run_timers(b.timers, irf1, cycles, 0, false);
    (MemView { ppu: p, irf: irf2, ..b.mem }, ts)
}

/// The memory and channels once the V-blank transfers of a tick have run.
pub open spec fn after_vblank(b: BusView, cycles: u32) -> (MemView, Seq<DmaChannel>) {
    let m1 = timed(b, cycles).0;
    if vblank_edge(b, cycles) { dma_trigger(m1, b.dma, dma_cnt::TIMING_VBLANK) } else { (m1, b.dma) }
}

/// Whether a tick of `cycles` keeps the line and prescaler counters in
/// range.
pub open spec fn tick_ok(b: BusView, cycles: u32) -> bool {
    &&& b.mem.ppu.dot_counter + cycles <= u32::MAX
    &&& timers_fit(b.timers, cycles)
}

/// The bus after `cycles` cycles of hardware time: the PPU runs (drawing
/// lines, raising V-blank and V-counter requests), then the timers, then
/// the DMA channels waiting for a V-blank or H-blank edge that occurred.
pub open spec fn ticked(b: BusView, cycles: u32) -> BusView {
    let (m2, d2) = after_vblank(b, cycles);
    let (m3, d3) = if hblank_edge(b, cycles) { dma_trigger(m2, d2, dma_cnt::TIMING_HBLANK) } else { (m2, d2) };
    BusView { mem: m3, dma: d3, timers: timed(b, cycles).1 }
}

/// IE, IME and the line counter are as they were.
pub open spec fn keeps_control(a: MemView, b: MemView) -> bool {
    a.ie == b.ie && a.ime == b.ime && a.ppu.vcount == b.ppu.vcount
}

/// Running the PPU keeps its line counter in range.
proof fn lemma_ppu_run_line(v: PpuView, irf: u16)
    requires
        v.vcount < crate::ppu::TOTAL_LINES,
    ensures
        ppu_run(v, irf).0.vcount < crate::ppu::TOTAL_LINES,
    decreases v.dot_counter,
{
    if v.dot_counter >= crate::ppu::SCANLINE_CYCLES {
        let w = PpuView { dot_counter: (v.dot_counter - crate::ppu::SCANLINE_CYCLES) as u32, ..v };
        let (v1, irf1) = crate::ppu::end_of_line(w, irf);
        lemma_ppu_run_line(v1, irf1);
    }
}

/// Whether a byte written at `addr` leaves IE, IF and IME alone and starts
/// no transfer: it lies outside the I/O registers, or its register is none
/// of IE, IF, IME and the four DMA start bytes.
pub open spec fn byte_spares_irq(addr: u32) -> bool {
    let reg = addr & 0x3FFu32;
    region(addr) != 0x04 || !(0x200 <= reg <= 0x203 || reg == 0x208 || is_dma_trigger(addr))
}

/// Whether every byte of the transfer unit written at `addr` (a word or a
/// halfword) spares the interrupt registers and starts nothing.
pub open spec fn unit_spares_irq(addr: u32, is32: bool) -> bool {
    if is32 {
        let a = addr & !3u32;
        byte_spares_irq(a) && byte_spares_irq((a + 1) as u32) && byte_spares_irq((a + 2) as u32)
            && byte_spares_irq((a + 3) as u32)
    } else {
        let a = addr & !1u32;
        byte_spares_irq(a) && byte_spares_irq((a + 1) as u32)
    }
}

/// Whether each of `n` transfer units written from `dst`, moving by `ds`,
/// spares the interrupt registers and starts nothing.
pub open spec fn units_spare_irq(dst: u32, n: nat, is32: bool, ds: int) -> bool
    decreases n,
{
    n == 0 || (unit_spares_irq(dst, is32) && units_spare_irq(wrap32(dst + ds), (n - 1) as nat, is32, ds))
}

/// A channel whose latched transfer writes none of IE, IF, IME and the DMA
/// start bytes.
pub open spec fn channel_spares_irq(c: DmaChannel) -> bool {
    let is32 = c.control & dma_cnt::WORD != 0;
    units_spare_irq(c.internal_dst, c.internal_count as nat, is32, dst_step(c.control, is32))
}

/// A byte write that spares the interrupt registers is a plain memory
/// write that keeps the requests, IE, IME and the line counter.
proof fn lemma_byte_spares_irq(m: MemView, d: Seq<DmaChannel>, addr: u32, v: u8, f: nat)
    requires
        byte_spares_irq(addr),
    ensures
        dma_write8f(m, d, addr, v, f) == (mem_write8(m, addr, v), d, true),
        mem_write8(m, addr, v).irf == m.irf,
        keeps_control(m, mem_write8(m, addr, v)),
{
    reveal(mem_write8);
    reveal(ram_write8);
    reveal(io_write8);
}

/// A unit that spares the interrupt registers starts nothing, leaves the
/// channels alone and keeps the interrupt requests.
proof fn lemma_write_avoids_io(m: MemView, d: Seq<DmaChannel>, addr: u32, v: u32, is32: bool, f: nat)
    requires
        unit_spares_irq(addr, is32),
    ensures
        ({
            let w = if is32 { dma_write32f(m, d, addr, v, f) } else { dma_write16f(m, d, addr, v as u16, f) };
            w.1 == d && w.2 && w.0.irf == m.irf && keeps_control(m, w.0)
        }),
{
    reveal(video_write16);
    if is32 {
        let a = addr & !3u32;
        if !is_video(a) {
            let m1 = mem_write8(m, a, v as u8);
            let m2 = mem_write8(m1, (a + 1) as u32, (v >> 8u32) as u8);
            let m3 = mem_write8(m2, (a + 2) as u32, (v >> 16u32) as u8);
            lemma_byte_spares_irq(m, d, a, v as u8, f);
            lemma_byte_spares_irq(m1, d, (a + 1) as u32, (v >> 8u32) as u8, f);
            lemma_byte_spares_irq(m2, d, (a + 2) as u32, (v >> 16u32) as u8, f);
            lemma_byte_spares_irq(m3, d, (a + 3) as u32, (v >> 24u32) as u8, f);
        }
    } else {
        let a = addr & !1u32;
        let h = v as u16;
        if !is_video(a) {
            let m1 = mem_write8(m, a, h as u8);
            lemma_byte_spares_irq(m, d, a, h as u8, f);
            lemma_byte_spares_irq(m1, d, (a + 1) as u32, (h >> 8u16) as u8, f);
        }
    }
}

proof fn lemma_units_avoid_io(m: MemView, d: Seq<DmaChannel>, src: u32, dst: u32, n: nat, is32: bool, ss: int, ds: int, f: nat)
    requires
        units_spare_irq(dst, n, is32, ds),
    ensures
        ({
            let r = dma_unitsf(m, d, src, dst, n, is32, ss, ds, f);
            r.1 == d && r.4 && r.0.irf == m.irf && keeps_control(m, r.0)
        }),
    decreases n,
{
    if n > 0 {
        let w = if is32 {
            dma_write32f(m, d, dst, mem_read32(m, src), f)
        } else {
            dma_write16f(m, d, dst, mem_read16(m, src), f)
        };
        if is32 {
            lemma_write_avoids_io(m, d, dst, mem_read32(m, src), true, f);
        } else {
            lemma_write_avoids_io(m, d, dst, mem_read16(m, src) as u32, false, f);
            assert((mem_read16(m, src) as u32) as u16 == mem_read16(m, src));
        }
        lemma_units_avoid_io(w.0, w.1, wrap32(src + ss), wrap32(dst + ds), (n - 1) as nat, is32, ss, ds, f);
    }
}

/// Running a channel whose transfer spares the interrupt registers changes only that
/// channel, keeps its start timing and only raises interrupt requests.
proof fn lemma_run_avoids_io(m: MemView, d: Seq<DmaChannel>, ch: int, f: nat)
    requires
        0 <= ch < 4,
        d.len() == 4,
        channel_spares_irq(d[ch]),
    ensures
        ({
            let r = dma_runf(m, d, ch, f);
            &&& r.2
            &&& r.1.len() == 4
            &&& forall|j: int| 0 <= j < 4 && j != ch ==> #[trigger] r.1[j] == d[j]
            &&& r.1[ch].control & dma_cnt::TIMING == d[ch].control & dma_cnt::TIMING
            &&& keeps_requests(m.irf, r.0.irf)
            &&& keeps_control(m, r.0)
        }),
{
    let c = d[ch];
    let is32 = c.control & dma_cnt::WORD != 0;
    lemma_units_avoid_io(m, d, c.internal_src, c.internal_dst, c.internal_count as nat, is32,
        src_step(c.control, is32), dst_step(c.control, is32), f);
    let x = c.control;
    assert((x & !0x8000u16) & 0x3000u16 == x & 0x3000u16) by (bit_vector);
    lemma_keeps_requests(m.irf, m.irf, m.irf, (1u16 << (8 + ch) as u16));
}

proof fn lemma_trigger_avoids_io(m: MemView, d: Seq<DmaChannel>, timing: u16, ch: int, f: nat)
    requires
        0 <= ch <= 4,
        d.len() == 4,
        forall|j: int| ch <= j < 4 && (#[trigger] d[j]).control & dma_cnt::ENABLE != 0
            && d[j].control & dma_cnt::TIMING == timing && d[j].pending ==> channel_spares_irq(d[j]),
    ensures
        ({
            let r = dma_trigger_fromf(m, d, timing, ch, f);
            &&& r.2
            &&& r.1.len() == 4
            &&& forall|j: int| 0 <= j < 4 && d[j].control & dma_cnt::TIMING != timing ==> #[trigger] r.1[j] == d[j]
            &&& forall|j: int| 0 <= j < 4 ==> (#[trigger] r.1[j]).control & dma_cnt::TIMING
                == d[j].control & dma_cnt::TIMING
            &&& keeps_requests(m.irf, r.0.irf)
            &&& keeps_control(m, r.0)
        }),
    decreases 4 - ch,
{
    lemma_keeps_requests(m.irf, m.irf, m.irf, 0);
    if ch < 4 {
        let c = d[ch];
        if c.control & dma_cnt::ENABLE != 0 && c.control & dma_cnt::TIMING == timing && c.pending {
            let w = dma_runf(m, d, ch, f);
            lemma_run_avoids_io(m, d, ch, f);
            lemma_trigger_avoids_io(w.0, w.1, timing, ch + 1, f);
            let r = dma_trigger_fromf(w.0, w.1, timing, ch + 1, f);
            lemma_keeps_requests(m.irf, w.0.irf, r.0.irf, 0);
        } else {
            lemma_trigger_avoids_io(m, d, timing, ch + 1, f);
        }
    }
}

/// A tick whose armed V-blank and H-blank transfers write none of IE, IF,
/// IME and the DMA start bytes only ever raises interrupt requests: every
/// request set before is set after. It leaves IE and IME as they were and
/// the line counter in its range.
pub proof fn lemma_tick_only_raises(b: BusView, cycles: u32)
    requires
        b.dma.len() == 4,
        b.mem.ppu.vcount < crate::ppu::TOTAL_LINES,
        forall|j: int| 0 <= j < 4 && (#[trigger] b.dma[j]).control & dma_cnt::ENABLE != 0 && b.dma[j].pending
            && (b.dma[j].control & dma_cnt::TIMING == dma_cnt::TIMING_VBLANK
                || b.dma[j].control & dma_cnt::TIMING == dma_cnt::TIMING_HBLANK)
            ==> channel_spares_irq(b.dma[j]),
    ensures
        keeps_requests(b.mem.irf, ticked(b, cycles).mem.irf),
        ticked(b, cycles).mem.ie == b.mem.ie,
        ticked(b, cycles).mem.ime == b.mem.ime,
        ticked(b, cycles).mem.ppu.vcount < crate::ppu::TOTAL_LINES,
{
    let p0 = PpuView { dot_counter: (b.mem.ppu.dot_counter + cycles) as u32, ..b.mem.ppu };
    lemma_tick_keeps_requests(p0, b.timers, b.mem.irf, cycles);
    lemma_ppu_run_line(p0, b.mem.irf);
    let m1 = timed(b, cycles).0;
    let (m2, d2) = after_vblank(b, cycles);
    lemma_keeps_requests(b.mem.irf, b.mem.irf, b.mem.irf, 0);
    if vblank_edge(b, cycles) {
        let f = DMA_DEPTH as nat;
        lemma_trigger_avoids_io(m1, b.dma, dma_cnt::TIMING_VBLANK, 0, f);
        lemma_keeps_requests(b.mem.irf, m1.irf, m2.irf, 0);
    }
    if hblank_edge(b, cycles) {
        let f = DMA_DEPTH as nat;
        assert forall|j: int| 0 <= j < 4 && (#[trigger] d2[j]).control & dma_cnt::ENABLE != 0
            && d2[j].control & dma_cnt::TIMING == dma_cnt::TIMING_HBLANK && d2[j].pending
            implies channel_spares_irq(d2[j]) by {
            if vblank_edge(b, cycles) {
                assert(d2[j].control & dma_cnt::TIMING == b.dma[j].control & dma_cnt::TIMING);
                assert(d2[j] == b.dma[j]);
            }
        }
        lemma_trigger_avoids_io(m2, d2, dma_cnt::TIMING_HBLANK, 0, f);
        let m3 = dma_trigger(m2, d2, dma_cnt::TIMING_HBLANK).0;
        lemma_keeps_requests(b.mem.irf, m2.irf, m3.irf, 0);
    }
}

impl Bus {
    /// Whether `cycles` cycles of hardware time fit the bus's counters:
    /// the PPU's dot counter and every timer's prescaler count stay within
    /// 32 bits, which is what `tick` asks of its caller.
    pub fn tick_fits(&self, cycles: u32) -> (r: bool)
        ensures
            r == tick_ok(self@, cycles),
    {
        if self.ppu.dot_counter > u32::MAX - cycles {
            return false;
        }
        let mut i: usize = 0;
        while i < 4
            invariant
                i <= 4,
                self.timers@.len() == 4,
                forall|j: int| 0 <= j < i ==> self.timers@[j].internal + (#[trigger] timer_ticks_bound(self.timers@[j], j, cycles)) <= u32::MAX,
            decreases 4 - i,
        {
            let t = self.timers[i];
            let step: u32 = if i > 0 && t.control & 0x04u16 != 0 { 1 } else { cycles };
            assert(step == timer_ticks_bound(self.timers@[i as int], i as int, cycles));
            if t.internal > u32::MAX - step {
                return false;
            }
            i = i + 1;
        }
        true
    }

    /// Tick hardware components (PPU, timers, DMA).
    pub fn tick(&mut self, cycles: u32)
        requires
            old(self).wf(),
            tick_ok(old(self)@, cycles),
        ensures
            final(self).wf(),
            final(self)@ == ticked(old(self)@, cycles),
    {
        let vcount_before = self.ppu.vcount;
        let hblank_before = self.ppu.in_hblank;
        self.ppu.tick(cycles, &mut self.irf);
        self.tick_timers(cycles);
        let vcount_after = self.ppu.vcount;
        let hblank_after = self.ppu.in_hblank;
        // VBlank rising edge: vcount just crossed into the vblank period
        if vcount_before < VDRAW_LINES && vcount_after >= VDRAW_LINES {
            self.tick_dma_trigger(dma_cnt::TIMING_VBLANK, DMA_DEPTH);
        }
        // HBlank rising edge (only during active display lines)
        if !hblank_before && hblank_after && vcount_after < VDRAW_LINES {
            self.tick_dma_trigger(dma_cnt::TIMING_HBLANK, DMA_DEPTH);
        }
    }

    /// Fire all pending DMA channels that match the given start timing.
    fn tick_dma_trigger(&mut self, timing_val: u16, depth: u32) -> (ok: bool)
        requires
            old(self).wf(),
        ensures
            final(self).wf(),
            (final(self).mem(), final(self).dma@, ok) == dma_trigger_fromf(old(self).mem(), old(self).dma@, timing_val, 0, depth as nat),
            final(self).timers == old(self).timers,
    {
        let ghost target = dma_trigger_fromf(self.mem(), self.dma@, timing_val, 0, depth as nat);
        let mut ok = true;
        let mut ch: usize = 0;
        while ch < 4
            invariant
                ch <= 4,
                self.wf(),
                ({
                    let q = dma_trigger_fromf(self.mem(), self.dma@, timing_val, ch as int, depth as nat);
                    (q.0, q.1, ok && q.2) == target
                }),
                self.timers == old(self).timers,
            decreases 4 - ch,
        {
            let ctrl = self.dma[ch].control;
            if ctrl & dma_cnt::ENABLE != 0 && (ctrl & dma_cnt::TIMING) == timing_val && self.dma[ch].pending {
                let w = self.run_dma(ch, depth);
                ok = ok && w;
            }
            ch = ch + 1;
        }
        ok
    }

    fn tick_timers(&mut self, cycles: u32)
        requires
            timers_fit(old(self).timers@, cycles),
        ensures
            (final(self).timers@, final(self).irf) == run_timers(old(self).timers@, old(self).irf, cycles, 0, false),
            final(self).mem() == (MemView { irf: final(self).irf, ..old(self).mem() }),
            final(self).dma == old(self).dma,
    {
        let ghost target = run_timers(self.timers@, self.irf, cycles, 0, false);
        let mut overflow = false;
        let mut i: usize = 0;
        while i < 4
            invariant
                0 <= i <= 4,
                run_timers(self.timers@, self.irf, cycles, i as int, overflow) == target,
                forall|j: int| i <= j < 4 ==> self.timers@[j] == old(self).timers@[j],
                timers_fit(old(self).timers@, cycles),
                self.mem() == (MemView { irf: self.irf, ..old(self).mem() }),
                self.dma == old(self).dma,
            decreases 4 - i,
        {
            let enabled = self.timers[i].control & 0x80 != 0;
            if !enabled {
                overflow = false;
                i = i + 1;
                continue;
            }
            let cascade = self.timers[i].control & 0x04 != 0;
            let sel = self.timers[i].control & 0x03;
            let prescaler: u32 = if sel == 0 { 1 } else if sel == 1 { 64 } else if sel == 2 { 256 } else { 1024 };
            let ticks: u32 = if i > 0 && cascade {
                if overflow { 1 } else { 0 }
            } else {
                cycles
            };
            overflow = false;
            if ticks == 0 {
                i = i + 1;
                continue;
            }
            assert(timer_ticks_bound(old(self).timers@[i as int], i as int, cycles) >= ticks);
            let ghost ts0 = self.timers@;
            self.timers[i].internal = self.timers[i].internal + ticks;
            let irq_bit: u16 = 1u16 << (3 + i) as u16;
            let ghost inner = timer_count(self.timers@[i as int], prescaler, self.irf, irq_bit, false);
            assert(inner == timer_count(
                Timer { internal: (old(self).timers@[i as int].internal + ticks) as u32, ..old(self).timers@[i as int] },
                prescaler_of(old(self).timers@[i as int].control), self.irf, irq_bit, false));
            while self.timers[i].internal >= prescaler
                invariant
                    0 <= i < 4,
                    prescaler >= 1,
                    timer_count(self.timers@[i as int], prescaler, self.irf, irq_bit, overflow) == inner,
                    self.timers@ == ts0.update(i as int, self.timers@[i as int]),
                    ts0.len() == 4,
                    self.mem() == (MemView { irf: self.irf, ..old(self).mem() }),
                    self.dma == old(self).dma,
                decreases self.timers[i as int].internal,
            {
                self.timers[i].internal = self.timers[i].internal - prescaler;
                if self.timers[i].counter == 0xFFFF {
                    self.timers[i].counter = self.timers[i].reload;
                    overflow = true;
                    // Timer IRQ
                    if self.timers[i].control & 0x40 != 0 {
                        self.irf = self.irf | irq_bit;
                    }
                } else {
                    self.timers[i].counter = self.timers[i].counter + 1;
                }
            }
            assert(self.timers@ =~= ts0.update(i as int, inner.0));
            i = i + 1;
        }
    }
}

} // verus!
