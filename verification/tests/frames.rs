use gba_emu::cpu::arm7tdmi::Cpu;
use gba_emu::memory::Bus;
use gba_emu::system::{run_frame, try_run_frame, CYCLES_PER_FRAME};

#[test]
fn one_frame_of_skipped_instructions() {
    // An empty ROM reads as zeros: ANDEQ, skipped in one cycle with Z clear.
    let mut bus = Bus::new(vec![], None);
    let mut cpu = Cpu::new();
    cpu.skip_bios(&mut bus);
    run_frame(&mut cpu, &mut bus);
    assert_eq!(CYCLES_PER_FRAME, 228 * 1232);
    assert_eq!(bus.ppu.vcount, 0);
    assert_eq!(bus.irf & 0x0005, 0x0005);
    assert_eq!(cpu.pc(), 0x0800_0008 + 4 * CYCLES_PER_FRAME);
}

#[test]
fn frame_with_vblank_interrupt_enters_irq_mode() {
    let mut bus = Bus::new(vec![], None);
    let mut cpu = Cpu::new();
    cpu.skip_bios(&mut bus);
    bus.ime = true;
    bus.ie = 1;
    run_frame(&mut cpu, &mut bus);
    assert_eq!(cpu.cpsr.mode(), gba_emu::cpu::arm7tdmi::Mode::Irq);
    assert!(cpu.cpsr.i());
}

#[test]
fn checked_frame_matches_unchecked_frame() {
    let mut bus_a = Bus::new(vec![], None);
    let mut cpu_a = Cpu::new();
    cpu_a.skip_bios(&mut bus_a);
    let mut bus_b = Bus::new(vec![], None);
    let mut cpu_b = Cpu::new();
    cpu_b.skip_bios(&mut bus_b);
    run_frame(&mut cpu_a, &mut bus_a);
    assert!(try_run_frame(&mut cpu_b, &mut bus_b));
    assert_eq!(cpu_a.pc(), cpu_b.pc());
    assert_eq!(bus_a.irf, bus_b.irf);
    assert_eq!(bus_a.ppu.vcount, bus_b.ppu.vcount);
}

#[test]
fn checked_frame_stops_before_a_timer_overflow() {
    let mut bus = Bus::new(vec![], None);
    let mut cpu = Cpu::new();
    cpu.skip_bios(&mut bus);
    // Timer 0 enabled with its prescaler count one short of overflowing.
    bus.timers[0].control = 0x0080;
    bus.timers[0].internal = u32::MAX;
    assert!(!bus.tick_fits(1));
    assert!(!try_run_frame(&mut cpu, &mut bus));
    // One instruction ran; its cycles were not handed to the hardware.
    assert_eq!(cpu.pc(), 0x0800_0008 + 4);
    assert_eq!(bus.ppu.vcount, 0);
}

#[test]
fn tick_fits_checks_the_dot_counter() {
    let bus = Bus::new(vec![], None);
    assert!(bus.tick_fits(1232));
    assert!(bus.tick_fits(u32::MAX));
}
