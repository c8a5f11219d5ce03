//! Picture processing unit: scanline timing, blanking flags and the
//! mode 3 / mode 4 bitmap renderers.
use vstd::prelude::*;

verus! {

/// GBA display: 240x160 pixels, 15-bit color (BGR555)
pub const SCREEN_WIDTH: usize = 240;
pub const SCREEN_HEIGHT: usize = 160;

/// PPU timing constants
pub const HDRAW_CYCLES: u32 = 960;     // H-draw: 240 dots * 4 cycles
pub const HBLANK_CYCLES: u32 = 272;    // H-blank: 68 dots * 4 cycles
pub const SCANLINE_CYCLES: u32 = 1232; // 1232 cycles per line
pub const VDRAW_LINES: u16 = 160;
pub const VBLANK_LINES: u16 = 68;
pub const TOTAL_LINES: u16 = 228;

pub const VRAM_SIZE: usize = 0x18000;
pub const PALETTE_SIZE: usize = 0x400;
pub const OAM_SIZE: usize = 0x400;
pub const FRAMEBUFFER_SIZE: usize = 38400;

/// The PPU's state seen as sequences.
#[verifier::ext_equal]
pub ghost struct PpuView {
    pub vram: Seq<u8>,
    pub palette: Seq<u8>,
    pub oam: Seq<u8>,
    pub vcount: u16,
    pub vcount_target: u16,
    pub in_hblank: bool,
    pub framebuffer: Seq<u32>,
    pub dot_counter: u32,
}

impl PpuView {
    /// Memory sizes are fixed, the counters stay inside one frame and the
    /// H-blank flag matches the position in the line.
    pub open spec fn wf(self) -> bool {
        &&& self.vram.len() == VRAM_SIZE
        &&& self.palette.len() == PALETTE_SIZE
        &&& self.oam.len() == OAM_SIZE
        &&& self.framebuffer.len() == FRAMEBUFFER_SIZE
        &&& self.dot_counter < SCANLINE_CYCLES
        &&& self.vcount < TOTAL_LINES
        &&& self.in_hblank == (self.dot_counter >= HDRAW_CYCLES)
    }
}

/// GBA BGR555 color as RGBA8888: each 5-bit channel scaled by 8, alpha 0xFF.
pub open spec fn rgba_of(color: u16) -> u32 {
    let r = ((color & 0x1F) as u32) << 3u32;
    let g = (((color >> 5u16) & 0x1F) as u32) << 3u32;
    let b = (((color >> 10u16) & 0x1F) as u32) << 3u32;
    0xFF00_0000u32 | (r << 16u32) | (g << 8u32) | b
}

/// The little-endian halfword at byte offset `off` of `mem`.
pub open spec fn halfword_at(mem: Seq<u8>, off: int) -> u16 {
    (mem[off] as u16) | ((mem[off + 1] as u16) << 8u16)
}

/// The framebuffer with line `y` drawn from the mode 3 bitmap in VRAM.
pub open spec fn mode3_line(fb: Seq<u32>, vram: Seq<u8>, y: int) -> Seq<u32> {
    Seq::new(fb.len(), |i: int|
        if y * 240 <= i < y * 240 + 240 && y * 480 + (i - y * 240) * 2 + 1 < vram.len() {
            rgba_of(halfword_at(vram, y * 480 + (i - y * 240) * 2))
        } else {
            fb[i]
        })
}

/// The framebuffer with line `y` drawn from page `page` of the mode 4
/// paletted bitmap.
pub open spec fn mode4_line(fb: Seq<u32>, vram: Seq<u8>, palette: Seq<u8>, y: int, page: int) -> Seq<u32> {
    Seq::new(fb.len(), |i: int|
        if y * 240 <= i < y * 240 + 240 {
            rgba_of(halfword_at(palette, vram[page * 0xA000 + y * 240 + (i - y * 240)] * 2))
        } else {
            fb[i]
        })
}

/// One scanline ends: a visible line is drawn, the line counter advances
/// (wrapping after the last V-blank line), and the V-blank (bit 0) and
/// V-counter (bit 2) requests are raised when the new line calls for them.
pub open spec fn end_of_line(v: PpuView, irf: u16) -> (PpuView, u16) {
    let fb = if v.vcount < VDRAW_LINES { mode3_line(v.framebuffer, v.vram, v.vcount as int) } else { v.framebuffer };
    let next: u16 = if v.vcount + 1 >= TOTAL_LINES { 0 } else { (v.vcount + 1) as u16 };
    let irf1: u16 = if next == VDRAW_LINES { irf | 1 } else { irf };
    let irf2: u16 = if next == v.vcount_target { irf1 | 4 } else { irf1 };
    (PpuView { framebuffer: fb, vcount: next, ..v }, irf2)
}

/// Run the PPU until fewer than a scanline's cycles are pending, then set
/// the H-blank flag from the position within the line.
pub open spec fn ppu_run(v: PpuView, irf: u16) -> (PpuView, u16)
    decreases v.dot_counter,
{
    if v.dot_counter < SCANLINE_CYCLES {
        (PpuView { in_hblank: v.dot_counter >= HDRAW_CYCLES, ..v }, irf)
    } else {
        let (v1, irf1) = end_of_line(PpuView { dot_counter: (v.dot_counter - SCANLINE_CYCLES) as u32, ..v }, irf);
        ppu_run(v1, irf1)
    }
}

/// One scanline's worth of cycles moves to the next line (wrapping after the
/// last), keeps the position in the line and with it the H-blank flag, and
/// raises V-blank on entering line 160 and V-counter on the target line.
pub proof fn lemma_one_line(v: PpuView, irf: u16)
    requires
        v.wf(),
    ensures
        ({
            let (w, irf2) = ppu_run(PpuView { dot_counter: (v.dot_counter + SCANLINE_CYCLES) as u32, ..v }, irf);
            let next = (v.vcount + 1) % (TOTAL_LINES as int);
            &&& w.vcount == next
            &&& w.dot_counter == v.dot_counter
            &&& w.in_hblank == v.in_hblank
            &&& irf2 == ((irf | (if next == VDRAW_LINES { 1u16 } else { 0u16 }))
                | (if next == v.vcount_target { 4u16 } else { 0u16 }))
        }),
{
    let u = PpuView { dot_counter: (v.dot_counter + SCANLINE_CYCLES) as u32, ..v };
    let (v1, irf1) = end_of_line(PpuView { dot_counter: v.dot_counter, ..u }, irf);
    assert(ppu_run(u, irf) == ppu_run(v1, irf1));
    assert(ppu_run(v1, irf1) == (PpuView { in_hblank: v1.dot_counter >= HDRAW_CYCLES, ..v1 }, irf1));
    assert(irf | 0u16 == irf && (irf | 1u16) | 0u16 == irf | 1u16) by (bit_vector);
}

pub struct Ppu {
    pub vram: Vec<u8>,      // 96 KB
    pub palette: Vec<u8>,   // 1 KB
    pub oam: Vec<u8>,       // 1 KB
    pub vcount: u16,        // Current scanline
    pub vcount_target: u16, // V-counter match value
    pub in_hblank: bool,
    /// Framebuffer: RGBA8888
    pub framebuffer: Vec<u32>,
    /// Cycles elapsed within the current scanline.
    pub dot_counter: u32,
}

impl View for Ppu {
    type V = PpuView;

    open spec fn view(&self) -> PpuView {
        PpuView {
            vram: self.vram@,
            palette: self.palette@,
            oam: self.oam@,
            vcount: self.vcount,
            vcount_target: self.vcount_target,
            in_hblank: self.in_hblank,
            framebuffer: self.framebuffer@,
            dot_counter: self.dot_counter,
        }
    }
}

impl Ppu {
    /// A PPU at the top of the frame with cleared memories and a black screen.
    pub fn new() -> (p: Self)
        ensures
            p@.wf(),
            p@.vram == Seq::new(VRAM_SIZE as nat, |i: int| 0u8),
            p@.palette == Seq::new(PALETTE_SIZE as nat, |i: int| 0u8),
            p@.oam == Seq::new(OAM_SIZE as nat, |i: int| 0u8),
            p@.framebuffer == Seq::new(FRAMEBUFFER_SIZE as nat, |i: int| 0xFF00_0000u32),
            p@.vcount == 0 && p@.vcount_target == 0 && !p@.in_hblank && p@.dot_counter == 0,
    {
        let p = Self {
            vram: vec![0; 96 * 1024],
            palette: vec![0; 1024],
            oam: vec![0; 1024],
            vcount: 0,
            vcount_target: 0,
            in_hblank: false,
            framebuffer: vec![0xFF00_0000; SCREEN_WIDTH * SCREEN_HEIGHT],
            dot_counter: 0,
        };
        assert(p@.vram =~= Seq::new(VRAM_SIZE as nat, |i: int| 0u8));
        assert(p@.palette =~= Seq::new(PALETTE_SIZE as nat, |i: int| 0u8));
        assert(p@.oam =~= Seq::new(OAM_SIZE as nat, |i: int| 0u8));
        assert(p@.framebuffer =~= Seq::new(FRAMEBUFFER_SIZE as nat, |i: int| 0xFF00_0000u32));
        p
    }

    /// Tick the PPU by the given number of CPU cycles.
    /// Updates scanline counter, h-blank/v-blank status, and fires interrupts.
    pub fn tick(&mut self, cycles: u32, irf: &mut u16)
        requires
            old(self)@.wf(),
            old(self)@.dot_counter + cycles <= u32::MAX,
        ensures
            final(self)@.wf(),
            (final(self)@, *final(irf)) == ppu_run(
                PpuView { dot_counter: (old(self)@.dot_counter + cycles) as u32, ..old(self)@ },
                *old(irf),
            ),
    {
        self.dot_counter = self.dot_counter + cycles;
        let ghost target = ppu_run(self@, *irf);
        while self.dot_counter >= SCANLINE_CYCLES
            invariant
                ppu_run(self@, *irf) == target,
                self.vram@.len() == VRAM_SIZE,
                self.palette@.len() == PALETTE_SIZE,
                self.oam@.len() == OAM_SIZE,
                self.framebuffer@.len() == FRAMEBUFFER_SIZE,
                self.vcount < TOTAL_LINES,
            decreases self.dot_counter,
        {
            self.dot_counter = self.dot_counter - SCANLINE_CYCLES;
            // Render this scanline if in visible range
            if self.vcount < VDRAW_LINES {
                self.render_scanline();
            }
            self.vcount = self.vcount + 1;
            if self.vcount >= TOTAL_LINES {
                self.vcount = 0;
            }
            // V-blank interrupt
            if self.vcount == VDRAW_LINES {
                *irf = *irf | 1;
            }
            // V-counter match interrupt
            if self.vcount == self.vcount_target {
                *irf = *irf | 4;
            }
        }
        // H-blank tracking (simplified)
        self.in_hblank = self.dot_counter >= HDRAW_CYCLES;
    }

    /// Render one scanline based on current DISPCNT mode.
    fn render_scanline(&mut self)
        requires
            old(self).vram@.len() == VRAM_SIZE,
            old(self).framebuffer@.len() == FRAMEBUFFER_SIZE,
        ensures
            final(self)@ == (PpuView {
                framebuffer: if old(self).vcount < 160 {
                    mode3_line(old(self).framebuffer@, old(self).vram@, old(self).vcount as int)
                } else {
                    old(self).framebuffer@
                },
                ..old(self)@
            }),
    {
        let y = self.vcount as usize;
        if y >= SCREEN_HEIGHT {
            return;
        }
        // Only mode 3 (240x160 bitmap, 16-bit color) is drawn.
        self.render_mode3_scanline(y);
    }

    /// Mode 3: 240x160, 16-bit color bitmap.
    fn render_mode3_scanline(&mut self, y: usize)
        requires
            y < SCREEN_HEIGHT,
            old(self).vram@.len() == VRAM_SIZE,
            old(self).framebuffer@.len() == FRAMEBUFFER_SIZE,
        ensures
            final(self)@ == (PpuView { framebuffer: mode3_line(old(self).framebuffer@, old(self).vram@, y as int), ..old(self)@ }),
    {
        let line_offset = y * SCREEN_WIDTH * 2;
        let ghost fb0 = self.framebuffer@;
        for x in 0..SCREEN_WIDTH
            invariant
                line_offset == y * 480,
                y < SCREEN_HEIGHT,
                self.vram@.len() == VRAM_SIZE,
                self.framebuffer@.len() == FRAMEBUFFER_SIZE,
                fb0.len() == FRAMEBUFFER_SIZE,
                fb0 == old(self).framebuffer@,
                self@ == (PpuView { framebuffer: self.framebuffer@, ..old(self)@ }),
                forall|i: int| 0 <= i < FRAMEBUFFER_SIZE ==> #[trigger] self.framebuffer@[i] == (
                    if y * 240 <= i < y * 240 + x { mode3_line(fb0, self.vram@, y as int)[i] } else { fb0[i] }),
        {
            let pixel_offset = line_offset + x * 2;
            if pixel_offset + 1 < self.vram.len() {
                let color16 = self.vram[pixel_offset] as u16 | ((self.vram[pixel_offset + 1] as u16) << 8u16);
                self.framebuffer[y * SCREEN_WIDTH + x] = bgr555_to_rgba(color16);
            }
        }
        assert(self.framebuffer@ =~= mode3_line(fb0, self.vram@, y as int));
    }

    /// Mode 4: 240x160, 8-bit paletted bitmap (two pages).
    fn render_mode4_scanline(&mut self, y: usize, page: usize)
        requires
            y < SCREEN_HEIGHT,
            page < 2,
            old(self).vram@.len() == VRAM_SIZE,
            old(self).palette@.len() == PALETTE_SIZE,
            old(self).framebuffer@.len() == FRAMEBUFFER_SIZE,
        ensures
            final(self)@ == (PpuView {
                framebuffer: mode4_line(old(self).framebuffer@, old(self).vram@, old(self).palette@, y as int, page as int),
                ..old(self)@
            }),
    {
        let base = page * 0xA000;
        let line_offset = base + y * SCREEN_WIDTH;
        let ghost fb0 = self.framebuffer@;
        for x in 0..SCREEN_WIDTH
            invariant
                line_offset == page * 0xA000 + y * 240,
                y < SCREEN_HEIGHT,
                page < 2,
                self.vram@.len() == VRAM_SIZE,
                self.palette@.len() == PALETTE_SIZE,
                self.framebuffer@.len() == FRAMEBUFFER_SIZE,
                fb0.len() == FRAMEBUFFER_SIZE,
                fb0 == old(self).framebuffer@,
                self@ == (PpuView { framebuffer: self.framebuffer@, ..old(self)@ }),
                forall|i: int| 0 <= i < FRAMEBUFFER_SIZE ==> #[trigger] self.framebuffer@[i] == (
                    if y * 240 <= i < y * 240 + x {
                        mode4_line(fb0, self.vram@, self.palette@, y as int, page as int)[i]
                    } else {
                        fb0[i]
                    }),
        {
            let palette_idx = self.vram[line_offset + x] as usize;
            let color16 = self.palette[palette_idx * 2] as u16 | ((self.palette[palette_idx * 2 + 1] as u16) << 8u16);
            self.framebuffer[y * SCREEN_WIDTH + x] = bgr555_to_rgba(color16);
        }
        assert(self.framebuffer@ =~= mode4_line(fb0, self.vram@, self.palette@, y as int, page as int));
    }

    /// Get the completed framebuffer (call after rendering a full frame).
    pub fn get_framebuffer(&self) -> (r: &[u32])
        ensures
            r@ == self.framebuffer@,
    {
        self.framebuffer.as_slice()
    }
}

/// Convert GBA BGR555 color to RGBA8888.
pub fn bgr555_to_rgba(color: u16) -> (r: u32)
    ensures
        r == rgba_of(color),
{
    let r = ((color & 0x1F) as u32) << 3u32;
    let g = (((color >> 5u16) & 0x1F) as u32) << 3u32;
    let b = (((color >> 10u16) & 0x1F) as u32) << 3u32;
    0xFF00_0000u32 | (r << 16u32) | (g << 8u32) | b
}

} // verus!
