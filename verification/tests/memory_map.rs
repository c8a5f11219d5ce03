use gba_emu::memory::{Bus, Timer};

fn bus() -> Bus {
    let mut rom = vec![0u8; 0x100];
    rom[0] = 0x12;
    rom[1] = 0x34;
    rom[2] = 0x56;
    rom[3] = 0x78;
    Bus::new(rom, None)
}

#[test]
fn new_bus_state() {
    let b = bus();
    assert_eq!(b.ewram.len(), 0x40000);
    assert_eq!(b.iwram.len(), 0x8000);
    assert_eq!(b.io_regs.len(), 0x400);
    assert_eq!(b.sram.len(), 0x10000);
    assert_eq!(b.keyinput, 0x03FF);
    assert!(!b.ime && b.ie == 0 && b.irf == 0 && !b.halt);
    assert_eq!(b.ppu.vcount, 0);
    assert!(b.dma.iter().all(|d| d.control == 0 && !d.pending));
}

#[test]
fn work_ram_round_trips() {
    let mut b = bus();
    b.write8(0x0200_0010, 0x5A);
    assert_eq!(b.read8(0x0200_0010), 0x5A);
    b.write16(0x0300_0020, 0xBEEF);
    assert_eq!(b.read16(0x0300_0020), 0xBEEF);
    b.write32(0x0E00_0040, 0xDEAD_BEEF);
    assert_eq!(b.read32(0x0E00_0040), 0xDEAD_BEEF);
    assert_eq!(b.read8(0x0E00_0040), 0xEF);
    assert_eq!(b.read8(0x0E00_0043), 0xDE);
}

#[test]
fn neighbouring_bytes_are_untouched() {
    let mut b = bus();
    b.write8(0x0200_0011, 0x77);
    assert_eq!(b.read8(0x0200_0010), 0);
    assert_eq!(b.read8(0x0200_0012), 0);
    assert_eq!(b.read8(0x0300_0011), 0);
}

#[test]
fn mirrors() {
    let mut b = bus();
    b.write8(0x0200_0010, 0x5A);
    assert_eq!(b.read8(0x0204_0010), 0x5A);
    b.write8(0x0300_0010, 0x6B);
    assert_eq!(b.read8(0x0300_8010), 0x6B);
    assert_eq!(b.read8(0x0800_0000), 0x12);
    assert_eq!(b.read8(0x0A00_0000), 0x12);
    assert_eq!(b.read8(0x0C00_0001), 0x34);
    b.write8(0x0E00_0005, 0x9C);
    assert_eq!(b.read8(0x0F01_0005), 0x9C);
}

#[test]
fn rom_reads_little_endian_and_past_end_as_zero() {
    let b = bus();
    assert_eq!(b.read32(0x0800_0000), 0x7856_3412);
    assert_eq!(b.read16(0x0800_0002), 0x7856);
    assert_eq!(b.read8(0x0800_0200), 0);
}

#[test]
fn reads_ignore_low_address_bits() {
    let b = bus();
    assert_eq!(b.read16(0x0800_0001), b.read16(0x0800_0000));
    assert_eq!(b.read32(0x0800_0003), 0x7856_3412);
}

#[test]
fn bios_absent_or_present() {
    let b = bus();
    assert_eq!(b.read8(0x0000_0000), 0);
    let with_bios = Bus::new(vec![], Some(vec![0xAA, 0xBB]));
    assert_eq!(with_bios.read8(0x0000_0001), 0xBB);
    assert_eq!(with_bios.read8(0x0000_0002), 0);
}

#[test]
fn read_only_and_unmapped_regions_ignore_byte_writes() {
    let mut b = bus();
    b.write8(0x0800_0000, 0xFF);
    assert_eq!(b.read8(0x0800_0000), 0x12);
    b.write8(0x0700_0000, 0xFF);
    assert_eq!(b.read8(0x0700_0000), 0);
    b.write8(0x1000_0000, 0xFF);
    assert_eq!(b.read8(0x1000_0000), 0);
    b.write8(0x0000_0000, 0xFF);
    assert_eq!(b.read8(0x0000_0000), 0);
}

#[test]
fn oam_takes_halfword_and_word_writes() {
    let mut b = bus();
    b.write16(0x0700_0002, 0x1234);
    b.write32(0x0700_0004, 0x1234_5678);
    assert_eq!(b.read16(0x0700_0002), 0x1234);
    assert_eq!(b.read32(0x0700_0004), 0x1234_5678);
    b.write8(0x0700_0002, 0xFF);
    assert_eq!(b.read16(0x0700_0002), 0x1234);
}

#[test]
fn palette_byte_write_fills_halfword() {
    let mut b = bus();
    b.write8(0x0500_0001, 0x7C);
    assert_eq!(b.read16(0x0500_0000), 0x7C7C);
}

#[test]
fn vram_byte_write_fills_halfword_and_mirrors() {
    let mut b = bus();
    b.write8(0x0600_0010, 0x11);
    assert_eq!(b.read16(0x0600_0010), 0x1111);
    b.write8(0x0601_8000, 0x22);
    assert_eq!(b.read16(0x0601_0000), 0x2222);
}

#[test]
fn interrupt_registers() {
    let mut b = bus();
    b.write16(0x0400_0200, 0x1234);
    assert_eq!(b.ie, 0x1234);
    assert_eq!(b.read16(0x0400_0200), 0x1234);
    b.irf = 0x0105;
    b.write8(0x0400_0202, 0x01);
    assert_eq!(b.irf, 0x0104);
    b.write8(0x0400_0203, 0x01);
    assert_eq!(b.irf, 0x0004);
    assert_eq!(b.read16(0x0400_0202), 0x0004);
    b.write8(0x0400_0208, 0x03);
    assert!(b.ime);
    assert_eq!(b.read8(0x0400_0208), 1);
    b.write8(0x0400_0301, 0);
    assert!(b.halt);
}

#[test]
fn keyinput_and_display_registers() {
    let mut b = bus();
    assert_eq!(b.read16(0x0400_0130), 0x03FF);
    b.write16(0x0400_0000, 0x0403);
    assert_eq!(b.read16(0x0400_0000), 0x0403);
    b.write8(0x0400_0005, 7);
    assert_eq!(b.ppu.vcount_target, 7);
    b.write8(0x0400_0004, 0xFF);
    assert_eq!(b.io_regs[4], 0x38);
    b.write8(0x0400_0004, 0xC0);
    assert_eq!(b.io_regs[4], 0x00);
    assert_eq!(b.read8(0x0400_0006), 0);
    assert_eq!(b.read8(0x0400_0007), 0);
}

#[test]
fn immediate_dma_copies_halfwords() {
    let mut b = bus();
    for i in 0..4u32 {
        b.write16(0x0200_0000 + 2 * i, 0x1000 + i as u16);
    }
    b.write32(0x0400_00D4, 0x0200_0000);
    b.write32(0x0400_00D8, 0x0300_0100);
    b.write16(0x0400_00DC, 4);
    b.write16(0x0400_00DE, 0x8000);
    for i in 0..4u32 {
        assert_eq!(b.read16(0x0300_0100 + 2 * i), 0x1000 + i as u16);
    }
    assert_eq!(b.read16(0x0300_0108), 0);
    assert_eq!(b.dma[3].control & 0x8000, 0);
    assert!(!b.dma[3].pending);
    assert_eq!(b.dma[3].internal_src, 0x0200_0008);
    assert_eq!(b.dma[3].internal_dst, 0x0300_0108);
    assert_eq!(b.io_regs[0xDF], 0);
}

#[test]
fn immediate_dma_copies_within_ewram_and_from_iwram() {
    let mut b = bus();
    for i in 0..3u32 {
        b.write16(0x0200_0010 + 2 * i, 0x2000 + i as u16);
        b.write16(0x0300_0040 + 2 * i, 0x3000 + i as u16);
    }
    // EWRAM to a later, separate EWRAM block.
    b.write32(0x0400_00D4, 0x0200_0010);
    b.write32(0x0400_00D8, 0x0200_0100);
    b.write16(0x0400_00DC, 3);
    b.write16(0x0400_00DE, 0x8000);
    // IWRAM to EWRAM.
    b.write32(0x0400_00D4, 0x0300_0040);
    b.write32(0x0400_00D8, 0x0200_0200);
    b.write16(0x0400_00DC, 3);
    b.write16(0x0400_00DE, 0x8000);
    for i in 0..3u32 {
        assert_eq!(b.read16(0x0200_0100 + 2 * i), 0x2000 + i as u16);
        assert_eq!(b.read16(0x0200_0200 + 2 * i), 0x3000 + i as u16);
    }
    assert_eq!(b.read16(0x0200_0106), 0);
    assert_eq!(b.read16(0x0200_0206), 0);
}

#[test]
fn dma_irq_on_completion() {
    let mut b = bus();
    b.write32(0x0400_00B0, 0x0200_0000);
    b.write32(0x0400_00B4, 0x0300_0000);
    b.write16(0x0400_00B8, 1);
    b.write16(0x0400_00BA, 0xC400); // enable, IRQ, 32-bit, immediate
    assert_eq!(b.irf & 0x0100, 0x0100);
}

#[test]
fn vblank_dma_waits_for_vblank() {
    let mut b = bus();
    b.write16(0x0200_0000, 0xABCD);
    b.write32(0x0400_00C8, 0x0200_0000);
    b.write32(0x0400_00CC, 0x0300_0000);
    b.write16(0x0400_00D0, 1);
    b.write16(0x0400_00D2, 0x9000); // enable, V-blank start
    assert!(b.dma[2].pending);
    assert_eq!(b.read16(0x0300_0000), 0);
    b.tick(1232 * 160);
    assert_eq!(b.ppu.vcount, 160);
    assert_eq!(b.read16(0x0300_0000), 0xABCD);
    assert!(!b.dma[2].pending);
}

#[test]
fn ppu_lines_and_vblank_request() {
    let mut b = bus();
    b.tick(1231);
    assert_eq!(b.ppu.vcount, 0);
    assert!(b.ppu.in_hblank);
    b.tick(1);
    assert_eq!(b.ppu.vcount, 1);
    assert!(!b.ppu.in_hblank);
    assert_eq!(b.irf & 1, 0);
    b.tick(1232 * 159);
    assert_eq!(b.ppu.vcount, 160);
    assert_eq!(b.irf & 1, 1);
    assert_eq!(b.read8(0x0400_0004) & 1, 1);
    assert_eq!(b.read8(0x0400_0006), 160);
}

#[test]
fn vcount_match_request() {
    let mut b = bus();
    b.write8(0x0400_0005, 3);
    b.tick(1232 * 3);
    assert_eq!(b.irf & 4, 4);
    assert_eq!(b.read8(0x0400_0004) & 4, 4);
}

#[test]
fn timer_overflow_reloads_and_requests() {
    let mut b = bus();
    b.timers[0] = Timer { reload: 0xFFF0, counter: 0xFFFF, control: 0xC0, internal: 0 };
    b.timers[1] = Timer { reload: 0, counter: 0, control: 0x84, internal: 0 };
    b.tick(1);
    assert_eq!(b.timers[0].counter, 0xFFF0);
    assert_eq!(b.irf & 0x08, 0x08);
    assert_eq!(b.timers[1].counter, 1);
}

#[test]
fn timer_prescaler_counts_every_64_cycles() {
    let mut b = bus();
    b.timers[2] = Timer { reload: 0, counter: 0, control: 0x81, internal: 0 };
    b.tick(200);
    assert_eq!(b.timers[2].counter, 3);
    assert_eq!(b.timers[2].internal, 8);
}

#[test]
fn tick_keeps_raised_requests() {
    let mut b = bus();
    b.irf = 0x2002;
    b.tick(5000);
    assert_eq!(b.irf & 0x2002, 0x2002);
}

#[test]
fn dma_count_zero_means_maximum() {
    let mut b = bus();
    b.write16(0x0400_00DE, 0x9000); // channel 3, V-blank start, count 0
    assert_eq!(b.dma[3].internal_count, 0x10000);
    b.write16(0x0400_00BA, 0x9000); // channel 0
    assert_eq!(b.dma[0].internal_count, 0x4000);
}

#[test]
fn dma_latches_only_on_enable() {
    let mut b = bus();
    b.write32(0x0400_00C8, 0x0200_0000);
    b.write16(0x0400_00D0, 5);
    b.write16(0x0400_00D2, 0x9000);
    assert_eq!(b.dma[2].internal_src, 0x0200_0000);
    assert_eq!(b.dma[2].internal_count, 5);
    b.write32(0x0400_00C8, 0x0200_0100);
    b.write16(0x0400_00D0, 9);
    b.write16(0x0400_00D2, 0x9000);
    assert_eq!(b.dma[2].src, 0x0200_0100);
    assert_eq!(b.dma[2].count, 9);
    assert_eq!(b.dma[2].internal_src, 0x0200_0000);
    assert_eq!(b.dma[2].internal_count, 5);
    b.write16(0x0400_00D2, 0x1000);
    assert!(!b.dma[2].pending);
}

#[test]
fn dma_writing_its_own_control_register_finishes() {
    let mut b = bus();
    b.write32(0x0400_00B0, 0x0200_0000); // source holds 0
    b.write32(0x0400_00B4, 0x0400_00BA); // destination: its own CNT_H
    b.write16(0x0400_00B8, 1);
    b.write16(0x0400_00BA, 0x8000);
    assert_eq!(b.dma[0].control, 0);
    assert!(!b.dma[0].pending);
    assert_eq!(b.dma[0].internal_dst, 0x0400_00BC);
    assert_eq!(b.read16(0x0400_00BA), 0);
}

#[test]
fn dma_started_from_inside_a_transfer() {
    let mut b = bus();
    b.write16(0x0200_0100, 0xBEEF);
    b.write32(0x0200_0000, 0x8000_0001); // CNT_L = 1, CNT_H = enable
    // channel 0: one halfword from EWRAM to IWRAM, configured but not enabled
    b.write32(0x0400_00B0, 0x0200_0100);
    b.write32(0x0400_00B4, 0x0300_0000);
    // channel 1: one word into channel 0's count and control registers
    b.write32(0x0400_00BC, 0x0200_0000);
    b.write32(0x0400_00C0, 0x0400_00B8);
    b.write16(0x0400_00C4, 1);
    b.write16(0x0400_00C6, 0x8400);
    assert_eq!(b.read16(0x0300_0000), 0xBEEF);
    assert_eq!(b.dma[0].control & 0x8000, 0);
    assert_eq!(b.dma[1].control & 0x8000, 0);
    assert_eq!(b.dma[0].internal_src, 0x0200_0102);
}

#[test]
fn tick_with_vblank_dma_only_raises_requests() {
    let mut b = bus();
    b.irf = 0x0022;
    b.write32(0x0400_00C8, 0x0200_0000);
    b.write32(0x0400_00CC, 0x0300_0000);
    b.write16(0x0400_00D0, 1);
    b.write16(0x0400_00D2, 0xD000); // enable, IRQ, V-blank start
    b.tick(1232 * 160);
    assert_eq!(b.irf & 0x0022, 0x0022);
    assert_eq!(b.irf & 0x0401, 0x0401);
}

#[test]
fn tick_keeps_ie_and_ime() {
    let mut b = bus();
    b.ie = 0x1234;
    b.ime = true;
    b.write16(0x0400_00D2, 0x9000);
    b.tick(1232 * 228);
    assert_eq!(b.ie, 0x1234);
    assert!(b.ime);
    assert!(b.ppu.vcount < 228);
}

#[test]
fn vblank_dma_into_scroll_registers_only_raises_requests() {
    let mut b = bus();
    for i in 0..8u32 {
        b.write16(0x0200_0000 + 2 * i, 0x0100 + i as u16);
    }
    b.irf = 0x0020;
    b.ie = 0x0001;
    b.write32(0x0400_00D4, 0x0200_0000);
    b.write32(0x0400_00D8, 0x0400_0010); // BG0HOFS onwards
    b.write16(0x0400_00DC, 8);
    b.write16(0x0400_00DE, 0x9000); // V-blank start
    b.tick(1232 * 160);
    assert_eq!(b.irf & 0x0021, 0x0021);
    assert_eq!(b.ie, 0x0001);
    assert_eq!(b.io_regs[0x10], 0x00);
    assert_eq!(b.io_regs[0x11], 0x01);
    assert_eq!(b.io_regs[0x1E], 0x07);
}

#[test]
fn dma_running_into_io_can_acknowledge_requests() {
    let mut b = bus();
    for i in 0..0x210u32 {
        b.write16(0x0200_0000 + 2 * i, 0xFFFF);
    }
    b.irf = 0x0020;
    b.write32(0x0400_00D4, 0x0200_0000);
    b.write32(0x0400_00D8, 0x03FF_FE00); // last IWRAM mirror, just below I/O
    b.write16(0x0400_00DC, 0x210);
    b.write16(0x0400_00DE, 0x9000); // V-blank start
    b.tick(1232 * 160);
    assert_eq!(b.irf & 0x0020, 0);
}

#[test]
fn halfword_writes_keep_neighbours() {
    let mut b = bus();
    b.write16(0x0500_0010, 0x1111);
    b.write16(0x0500_0012, 0x2222);
    b.write16(0x0600_0010, 0x3333);
    b.write16(0x0700_0010, 0x4444);
    assert_eq!(b.read16(0x0500_0010), 0x1111);
    assert_eq!(b.read16(0x0500_0012), 0x2222);
    assert_eq!(b.read16(0x0600_0010), 0x3333);
    assert_eq!(b.read16(0x0700_0010), 0x4444);
    assert_eq!(b.read16(0x0501_0410), 0x1111); // palette mirror
}
