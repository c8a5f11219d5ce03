use gba_emu::bits::{asr32, count_ones, ror32, sign_extend16, sign_extend8};
use gba_emu::io::keys;
use gba_emu::io::keys::keyinput_for;
use gba_emu::memory::Bus;
use gba_emu::ppu::{bgr555_to_rgba, Ppu};

#[test]
fn bgr555_conversion() {
    assert_eq!(bgr555_to_rgba(0x0000), 0xFF00_0000);
    assert_eq!(bgr555_to_rgba(0x001F), 0xFFF8_0000);
    assert_eq!(bgr555_to_rgba(0x03E0), 0xFF00_F800);
    assert_eq!(bgr555_to_rgba(0x7C00), 0xFF00_00F8);
    assert_eq!(bgr555_to_rgba(0x7FFF), 0xFFF8_F8F8);
    assert_eq!(bgr555_to_rgba(0xFFFF), 0xFFF8_F8F8);
}

#[test]
fn new_ppu_is_black() {
    let p = Ppu::new();
    let fb = p.get_framebuffer();
    assert_eq!(fb.len(), 240 * 160);
    assert!(fb.iter().all(|&px| px == 0xFF00_0000));
    assert_eq!(p.vram.len(), 96 * 1024);
    assert_eq!(p.palette.len(), 1024);
    assert_eq!(p.oam.len(), 1024);
}

#[test]
fn ppu_tick_counts_lines_and_raises_requests() {
    let mut p = Ppu::new();
    let mut irf: u16 = 0x0100;
    p.tick(1232 * 228, &mut irf);
    assert_eq!(p.vcount, 0);
    assert_eq!(irf, 0x0105);
    assert!(!p.in_hblank);
}

#[test]
fn mode3_line_is_drawn_from_vram() {
    let mut b = Bus::new(vec![], None);
    b.ppu.vram[0] = 0x1F;
    b.ppu.vram[2] = 0xFF;
    b.ppu.vram[3] = 0x7F;
    b.ppu.vram[0x1E0] = 0xE0; // line 1, pixel 0
    b.ppu.vram[0x1E1] = 0x03;
    b.tick(1232);
    let fb = b.ppu.get_framebuffer();
    assert_eq!(fb[0], 0xFFF8_0000);
    assert_eq!(fb[1], 0xFFF8_F8F8);
    assert_eq!(fb[2], 0xFF00_0000);
    assert_eq!(fb[240], 0xFF00_0000);
    b.tick(1232);
    assert_eq!(b.ppu.get_framebuffer()[240], 0xFF00_F800);
}

#[test]
fn keyinput_is_active_low() {
    assert_eq!(keyinput_for(0), 0x03FF);
    assert_eq!(keyinput_for(keys::A | keys::START), 0x03F6);
    assert_eq!(keyinput_for(keys::L | keys::R | keys::DOWN), 0x007F);
    assert_eq!(keyinput_for(0xFFFF), 0);
}

#[test]
fn bit_helpers() {
    assert_eq!(ror32(0x0000_00F0, 4), 0x0000_000F);
    assert_eq!(ror32(0x0000_0001, 1), 0x8000_0000);
    assert_eq!(ror32(0x1234_5678, 0), 0x1234_5678);
    assert_eq!(ror32(0x1234_5678, 32), 0x1234_5678);
    assert_eq!(asr32(0x8000_0000, 31), 0xFFFF_FFFF);
    assert_eq!(asr32(0x4000_0000, 30), 1);
    assert_eq!(sign_extend8(0x80), 0xFFFF_FF80);
    assert_eq!(sign_extend8(0x7F), 0x7F);
    assert_eq!(sign_extend16(0x8000), 0xFFFF_8000);
    assert_eq!(sign_extend16(0x1234), 0x1234);
    assert_eq!(count_ones(0), 0);
    assert_eq!(count_ones(0xFFFF), 16);
    assert_eq!(count_ones(0x8000_0001), 2);
}

#[test]
fn vram_and_palette_take_halfword_writes() {
    let mut b = Bus::new(vec![], None);
    b.write16(0x0600_0004, 0x1234);
    assert_eq!(b.read16(0x0600_0004), 0x1234);
    b.write16(0x0500_0010, 0xABCD);
    assert_eq!(b.read16(0x0500_0010), 0xABCD);
    b.write32(0x0600_0010, 0x1122_3344);
    assert_eq!(b.read32(0x0600_0010), 0x1122_3344);
}

#[test]
fn one_line_keeps_hblank_and_position() {
    let mut p = Ppu::new();
    let mut irf: u16 = 0;
    p.tick(1000, &mut irf);
    assert!(p.in_hblank);
    p.vcount_target = 1;
    p.tick(1232, &mut irf);
    assert!(p.in_hblank);
    assert_eq!(p.vcount, 1);
    assert_eq!(irf, 4);
}
