//! The emulated machine: CPU steps interleaved with hardware time, one
//! video frame at a time.
use vstd::prelude::*;
use crate::cpu::arm7tdmi::{Cpu, CpuView, cpu_step};
use crate::memory::{Bus, BusView, tick_ok, ticked};

verus! {

/// CPU cycles in one video frame: 228 lines of 1232 cycles.
pub const CYCLES_PER_FRAME: u32 = 280896;

/// Cycles still to run in a frame after `done`.
pub open spec fn cycles_left(done: u32) -> nat {
    if done >= CYCLES_PER_FRAME { 0 } else { (CYCLES_PER_FRAME - done) as nat }
}

/// Steps from `done` cycles into a frame until the frame's cycles have run:
/// each step executes one instruction (or waits while halted) and then
/// hands its cycles to the hardware. The flag says whether every step and
/// tick stayed within what the bus supports: every step took at least one
/// cycle and the counters fit.
pub open spec fn frame_from(c: CpuView, b: BusView, done: u32) -> (CpuView, BusView, bool)
    decreases cycles_left(done),
{
    if done >= CYCLES_PER_FRAME {
        (c, b, true)
    } else {
        let (c1, b1, r) = cpu_step(c, b);
        if r == 0 || !tick_ok(b1, r) || done + r > u32::MAX {
            (c1, b1, false)
        } else {
            frame_from(c1, ticked(b1, r), (done + r) as u32)
        }
    }
}

/// Run one video frame worth of CPU cycles.
pub fn run_frame(cpu: &mut Cpu, bus: &mut Bus)
    requires
        old(bus).wf(),
        frame_from(old(cpu)@, old(bus)@, 0).2,
    ensures
        final(bus).wf(),
        (final(cpu)@, final(bus)@, true) == frame_from(old(cpu)@, old(bus)@, 0),
{
    let ghost target = frame_from(cpu@, bus@, 0);
    let mut frame_cycles: u32 = 0;
    while frame_cycles < CYCLES_PER_FRAME
        invariant
            bus.wf(),
            frame_from(cpu@, bus@, frame_cycles) == target,
            target.2,
        decreases cycles_left(frame_cycles),
    {
        let cycles = cpu.step(bus);
        bus.tick(cycles);
        frame_cycles = frame_cycles + cycles;
    }
}

/// Run one video frame, checking before each tick what `run_frame` asks of
/// its caller: that the step took at least one cycle and that the bus's
/// counters hold the tick. Where a check fails the frame stops there, after
/// that step and before its tick, and `false` is returned.
pub fn try_run_frame(cpu: &mut Cpu, bus: &mut Bus) -> (ok: bool)
    requires
        old(bus).wf(),
    ensures
        final(bus).wf(),
        (final(cpu)@, final(bus)@, ok) == frame_from(old(cpu)@, old(bus)@, 0),
{
    let ghost target = frame_from(cpu@, bus@, 0);
    let mut frame_cycles: u32 = 0;
    while frame_cycles < CYCLES_PER_FRAME
        invariant
            bus.wf(),
            frame_from(cpu@, bus@, frame_cycles) == target,
            target == frame_from(old(cpu)@, old(bus)@, 0),
        decreases cycles_left(frame_cycles),
    {
        let ghost c0 = cpu@;
        let ghost b0 = bus@;
        let cycles = cpu.step(bus);
        if cycles == 0 || !bus.tick_fits(cycles) || frame_cycles > u32::MAX - cycles {
            assert(frame_from(c0, b0, frame_cycles) == (cpu@, bus@, false));
            return false;
        }
        bus.tick(cycles);
        frame_cycles = frame_cycles + cycles;
    }
    true
}

} // verus!
