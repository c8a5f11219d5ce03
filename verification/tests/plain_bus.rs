use gba_emu::bus::{Bus, Timer};

#[test]
fn plain_bus_round_trips_and_mirrors() {
    let mut b = Bus::new(vec![0x11, 0x22, 0x33, 0x44], None);
    b.write32(0x0200_0000, 0xCAFE_F00D);
    assert_eq!(b.read32(0x0200_0000), 0xCAFE_F00D);
    assert_eq!(b.read32(0x0204_0000), 0xCAFE_F00D);
    b.write16(0x0300_7FFE, 0x55AA);
    assert_eq!(b.read16(0x0300_FFFE), 0x55AA);
    assert_eq!(b.read32(0x0800_0000), 0x4433_2211);
    assert_eq!(b.read32(0x0C00_0000), 0x4433_2211);
    assert_eq!(b.read32(0x0D00_0000), 0);
}

#[test]
fn plain_bus_dma_registers_are_plain_storage() {
    let mut b = Bus::new(vec![], None);
    b.write16(0x0200_0000, 0xABCD);
    b.write32(0x0400_00D4, 0x0200_0000);
    b.write32(0x0400_00D8, 0x0300_0000);
    b.write16(0x0400_00DC, 1);
    b.write16(0x0400_00DE, 0x8000);
    assert_eq!(b.read16(0x0300_0000), 0);
    assert_eq!(b.read16(0x0400_00DE), 0x8000);
    assert_eq!(b.dma[3].control, 0);
}

#[test]
fn plain_bus_interrupt_acknowledge() {
    let mut b = Bus::new(vec![], None);
    b.irf = 0x00FF;
    b.write16(0x0400_0202, 0x000F);
    assert_eq!(b.irf, 0x00F0);
}

#[test]
fn plain_bus_tick_runs_ppu_and_timers() {
    let mut b = Bus::new(vec![], None);
    b.timers[3] = Timer { reload: 7, counter: 0xFFFF, control: 0xC3, internal: 1000 };
    b.tick(1232 * 160);
    assert_eq!(b.ppu.vcount, 160);
    assert_eq!(b.irf & 1, 1);
    assert_eq!(b.irf & 0x40, 0x40);
    assert!(b.timers[3].internal < 1024);
}
