use crate::cartridge::filled;
use crate::sprite_list::{
    new_sprite_list, push_sprite, sort_sprites, sprite_at, sprite_count, sprite_keys,
    MAX_SPRITES_PER_LINE,
};
use vstd::arithmetic::div_mod::{lemma_mod_multiples_vanish, lemma_small_mod as lemma_small_mod_nat};
use vstd::prelude::*;

verus! {

pub const SCREEN_WIDTH: usize = 160;

pub const SCREEN_HEIGHT: usize = 144;

/// Bytes in one RGBA frame.
pub const FRAME_BYTES: usize = 92160;

pub const VRAM_SIZE: usize = 0x4000;

pub const OAM_SIZE: usize = 160;

/// T-cycles in one scanline, and in one frame of 154 scanlines.
pub const LINE_CYCLES: i32 = 456;

pub const FRAME_CYCLES: u32 = 70224;

/// Frame position at which line 144, and so VBlank, begins.
pub const VBLANK_START: u32 = 65664;

pub const OAM_SCAN_CYCLES: i32 = 80;

pub const DRAWING_CYCLES: i32 = 172;

/// The first OAM scan after the LCD is switched on is this many cycles long.
pub const FIRST_OAM_SCAN_CYCLES: i32 = 76;

// LCDC bits.
pub const LCD_ENABLE: u8 = 0x80;

pub const WINDOW_TILE_MAP: u8 = 0x40;

pub const WINDOW_ENABLE: u8 = 0x20;

pub const TILE_DATA_UNSIGNED: u8 = 0x10;

pub const BG_TILE_MAP: u8 = 0x08;

pub const LARGE_SPRITES: u8 = 0x04;

pub const OBJECTS_ENABLED: u8 = 0x02;

pub const BG_ENABLE: u8 = 0x01;

// STAT interrupt-source bits.
pub const STAT_HBLANK_INT: u8 = 0x08;

pub const STAT_VBLANK_INT: u8 = 0x10;

pub const STAT_OAM_INT: u8 = 0x20;

pub const STAT_LYC_INT: u8 = 0x40;

/// The PPU's mode, in the order of its two-bit STAT encoding.
#[derive(Debug, Clone, Copy, PartialEq, Eq, Structural)]
pub enum Mode {
    HBlank,
    VBlank,
    OamScan,
    DrawingPixels,
}

impl Mode {
    pub open spec fn bits(self) -> u8 {
        match self {
            Mode::HBlank => 0,
            Mode::VBlank => 1,
            Mode::OamScan => 2,
            Mode::DrawingPixels => 3,
        }
    }

    pub fn to_bits(self) -> (r: u8)
        ensures
            r == self.bits(),
    {
        match self {
            Mode::HBlank => 0,
            Mode::VBlank => 1,
            Mode::OamScan => 2,
            Mode::DrawingPixels => 3,
        }
    }
}

/// How pixels are coloured: pure DMG, a CGB running a DMG game, or CGB.
#[derive(Debug, Clone, Copy, PartialEq, Eq, Structural)]
pub enum FunctionMode {
    Monochrome,
    Compatibility,
    Color,
}

#[derive(Debug, Clone, Copy, PartialEq, Eq, Structural)]
pub enum PpuRegister {
    Lcdc,
    Stat,
    Scy,
    Scx,
    Ly,
    Lyc,
    Bgp,
    Obp0,
    Obp1,
    Wy,
    Wx,
    Bcps,
    Bcpd,
    Ocps,
    Ocpd,
    Opri,
}

/// What a CPU access to the PPU reaches.
#[derive(Debug, Clone, Copy, PartialEq, Eq, Structural)]
pub enum PpuIO {
    PpuRegister(PpuRegister),
    Vram { address: u16 },
    VramBank,
    Oam { address: u16 },
}

/// Interrupt requests raised by the PPU.
#[derive(Debug, Clone, Copy, PartialEq, Eq, Structural)]
pub struct InterruptRequests {
    pub vblank: bool,
    pub lcd_stat: bool,
}

#[derive(Debug, Clone, Copy, PartialEq, Eq, Structural)]
pub struct Rgb {
    pub r: u8,
    pub g: u8,
    pub b: u8,
}

/// The four shades that DMG colour numbers 0..=3 are shown as.
#[derive(Debug, Clone, Copy, PartialEq, Eq, Structural)]
pub struct MonochromePaletteColors {
    pub shade0: Rgb,
    pub shade1: Rgb,
    pub shade2: Rgb,
    pub shade3: Rgb,
}

impl MonochromePaletteColors {
    pub open spec fn color(self, shade: int) -> Rgb {
        if shade == 0 {
            self.shade0
        } else if shade == 1 {
            self.shade1
        } else if shade == 2 {
            self.shade2
        } else {
            self.shade3
        }
    }

    pub fn get_color(&self, shade: u8) -> (r: Rgb)
        ensures
            r == self.color(shade as int),
    {
        if shade == 0 {
            self.shade0
        } else if shade == 1 {
            self.shade1
        } else if shade == 2 {
            self.shade2
        } else {
            self.shade3
        }
    }
}

/// CGB palette memory: 8 palettes of 4 RGB555 colours, and its index register.
pub struct PaletteRam {
    data: Vec<u8>,
    index: u8,
    auto_increment: bool,
}

/// Expands a five-bit channel to eight bits.
pub open spec fn expand5(c: int) -> int {
    c * 8 + c / 4
}

/// Colour `color` of palette `palette` in palette memory `data`.
pub open spec fn palette_color(data: Seq<u8>, palette: int, color: int) -> Rgb {
    let word = data[palette * 8 + color * 2] + 256 * data[palette * 8 + color * 2 + 1];
    Rgb {
        r: expand5(word % 32) as u8,
        g: expand5((word / 32) % 32) as u8,
        b: expand5((word / 1024) % 32) as u8,
    }
}

/// A write through `io` reaches palette memory or its index registers.
pub open spec fn is_palette_register(io: PpuIO) -> bool {
    io == PpuIO::PpuRegister(PpuRegister::Bcps) || io == PpuIO::PpuRegister(PpuRegister::Bcpd)
        || io == PpuIO::PpuRegister(PpuRegister::Ocps) || io == PpuIO::PpuRegister(
        PpuRegister::Ocpd,
    )
}

/// `after` is `before` once `val` has been written to its index register.
pub open spec fn palette_spec_written(before: PaletteRam, after: PaletteRam, val: u8) -> bool {
    &&& after.wf()
    &&& after.idx() == val % 64
    &&& after.auto_inc() == (val >= 0x80)
    &&& after.bytes() == before.bytes()
}

/// `after` is `before` once `val` has been written to its data register.
pub open spec fn palette_data_written(before: PaletteRam, after: PaletteRam, val: u8) -> bool {
    &&& after.wf()
    &&& after.bytes() == before.bytes().update(before.idx(), val)
    &&& after.auto_inc() == before.auto_inc()
    &&& after.idx() == if before.auto_inc() {
        (before.idx() + 1) % 64
    } else {
        before.idx()
    }
}

impl PaletteRam {
    pub closed spec fn bytes(&self) -> Seq<u8> {
        self.data@
    }

    pub closed spec fn idx(&self) -> int {
        self.index as int
    }

    pub closed spec fn auto_inc(&self) -> bool {
        self.auto_increment
    }

    pub closed spec fn wf(&self) -> bool {
        self.data@.len() == 64 && self.index < 64
    }

    pub fn new() -> (r: Self)
        ensures
            r.wf(),
            r.idx() == 0,
            !r.auto_inc(),
            forall|i: int| 0 <= i < 64 ==> r.bytes()[i] == 0xff,
    {
        let mut data: Vec<u8> = Vec::new();
        while data.len() < 64
            invariant
                data@.len() <= 64,
                forall|i: int| 0 <= i < data@.len() ==> data@[i] == 0xff,
            decreases 64 - data@.len(),
        {
            data.push(0xff);
        }
        PaletteRam { data, index: 0, auto_increment: false }
    }

    /// The index register as read back: auto-increment in bit 7, bit 6 set.
    pub fn spec_byte(&self) -> (r: u8)
        requires
            self.wf(),
        ensures
            r == (if self.auto_inc() { 0x80int } else { 0 }) + 0x40 + self.idx(),
    {
        (if self.auto_increment { 0x80u8 } else { 0 }) + 0x40 + self.index
    }

    pub fn set_spec(&mut self, val: u8)
        requires
            old(self).wf(),
        ensures
            final(self).wf(),
            final(self).idx() == val % 64,
            final(self).auto_inc() == (val >= 0x80),
            final(self).bytes() == old(self).bytes(),
    {
        self.index = val % 64;
        self.auto_increment = val >= 0x80;
    }

    pub fn data(&self) -> (r: u8)
        requires
            self.wf(),
        ensures
            r == self.bytes()[self.idx()],
    {
        self.data[self.index as usize]
    }

    /// Stores a byte at the index, then advances the index (mod 64) if
    /// auto-increment is on.
    pub fn set_data(&mut self, val: u8)
        requires
            old(self).wf(),
        ensures
            final(self).wf(),
            final(self).bytes() == old(self).bytes().update(old(self).idx(), val),
            final(self).auto_inc() == old(self).auto_inc(),
            final(self).idx() == if old(self).auto_inc() {
                (old(self).idx() + 1) % 64
            } else {
                old(self).idx()
            },
    {
        self.data.set(self.index as usize, val);
        if self.auto_increment {
            self.index = (self.index + 1) % 64;
        }
    }

    pub fn get_color(&self, palette: u8, color: u8) -> (r: Rgb)
        requires
            self.wf(),
            palette < 8,
            color < 4,
        ensures
            r == palette_color(self.bytes(), palette as int, color as int),
    {
        let at = palette as usize * 8 + color as usize * 2;
        let word: u32 = self.data[at] as u32 + 256 * self.data[at + 1] as u32;
        let r5 = word % 32;
        let g5 = (word / 32) % 32;
        let b5 = (word / 1024) % 32;
        Rgb { r: (r5 * 8 + r5 / 4) as u8, g: (g5 * 8 + g5 / 4) as u8, b: (b5 * 8 + b5 / 4) as u8 }
    }
}

/// The pixel-processing unit: registers, video memory, timing, and the frame.
pub struct Ppu {
    lcdc: u8,
    /// STAT's writable interrupt-source bits (0x78).
    stat_enables: u8,
    mode: Mode,
    scy: u8,
    scx: u8,
    ly: u8,
    lyc: u8,
    bgp: u8,
    obp0: u8,
    obp1: u8,
    wy: u8,
    wx: u8,
    opri: u8,
    vram: Vec<u8>,
    vram_bank: u8,
    oam: Vec<u8>,
    bg_palette: PaletteRam,
    obj_palette: PaletteRam,
    monochrome_palette_colors: MonochromePaletteColors,
    /// T-cycles left in the current mode.
    cycles: i32,
    /// Length of this scanline's drawing period.
    draw_len: i32,
    /// Previous value of the STAT interrupt line, for edge detection.
    stat_line: bool,
    /// Internal window line counter: lines on which the window was drawn.
    window_line: u8,
    pixel_data: Vec<u8>,
    is_frame_done: bool,
    do_render: bool,
}

/// What the STAT interrupt line is in a given state: the OR of the enabled
/// sources.
pub open spec fn stat_line_of(enables: u8, mode: Mode, ly: u8, lyc: u8) -> bool {
    (enables & STAT_HBLANK_INT != 0 && mode == Mode::HBlank) || (enables & STAT_VBLANK_INT != 0
        && mode == Mode::VBlank) || (enables & STAT_OAM_INT != 0 && mode == Mode::OamScan) || (
    enables & STAT_LYC_INT != 0 && ly == lyc)
}

impl Ppu {
    pub closed spec fn vram_bytes(&self) -> Seq<u8> {
        self.vram@
    }

    pub closed spec fn oam_bytes(&self) -> Seq<u8> {
        self.oam@
    }

    pub closed spec fn frame(&self) -> Seq<u8> {
        self.pixel_data@
    }

    pub closed spec fn current_mode(&self) -> Mode {
        self.mode
    }

    pub closed spec fn lcd_on(&self) -> bool {
        self.lcdc >= LCD_ENABLE
    }

    pub closed spec fn line(&self) -> int {
        self.ly as int
    }

    pub closed spec fn frame_done(&self) -> bool {
        self.is_frame_done
    }

    pub closed spec fn rendering(&self) -> bool {
        self.do_render
    }

    /// The state that mode changes read and write.
    pub closed spec fn line_state(&self) -> LineState {
        LineState {
            mode: self.mode,
            ly: self.ly as int,
            cycles: self.cycles as int,
            draw_len: self.draw_len as int,
            scx: self.scx,
            lyc: self.lyc,
            enables: self.stat_enables,
            stat_line: self.stat_line,
        }
    }

    /// The window's own line counter.
    pub closed spec fn window_line_count(&self) -> int {
        self.window_line as int
    }

    /// The STAT interrupt line as last evaluated.
    pub closed spec fn stored_stat_line(&self) -> bool {
        self.stat_line
    }

    /// Length of the current line's drawing period.
    pub closed spec fn draw_length(&self) -> int {
        self.draw_len as int
    }

    /// STAT's interrupt-source bits.
    pub closed spec fn stat_sources(&self) -> u8 {
        self.stat_enables
    }

    pub closed spec fn bg_palette_ram(&self) -> PaletteRam {
        self.bg_palette
    }

    pub closed spec fn obj_palette_ram(&self) -> PaletteRam {
        self.obj_palette
    }

    pub closed spec fn mono_colors(&self) -> MonochromePaletteColors {
        self.monochrome_palette_colors
    }

    pub closed spec fn vram_bank_spec(&self) -> int {
        self.vram_bank as int
    }

    /// Length of the segment of the scanline that the current mode covers.
    pub closed spec fn segment_len(&self) -> int {
        match self.mode {
            Mode::OamScan => OAM_SCAN_CYCLES as int,
            Mode::DrawingPixels => self.draw_len as int,
            Mode::HBlank => LINE_CYCLES - OAM_SCAN_CYCLES - self.draw_len,
            Mode::VBlank => LINE_CYCLES as int,
        }
    }

    /// Cycles into the scanline at which the current mode's segment ends.
    pub closed spec fn segment_end(&self) -> int {
        match self.mode {
            Mode::OamScan => OAM_SCAN_CYCLES as int,
            Mode::DrawingPixels => OAM_SCAN_CYCLES + self.draw_len,
            _ => LINE_CYCLES as int,
        }
    }

    /// The number of T-cycles since the start of the frame.
    pub closed spec fn frame_position(&self) -> int {
        self.ly * LINE_CYCLES + self.segment_end() - self.cycles
    }

    /// Frame position at which the current mode's segment began.
    pub closed spec fn segment_start(&self) -> int {
        self.ly * LINE_CYCLES + self.segment_end() - self.segment_len()
    }

    /// The mode and line fit each other and the draw length is in range.
    pub closed spec fn timing_shape(&self) -> bool {
        &&& DRAWING_CYCLES <= self.draw_len <= DRAWING_CYCLES + 7
        &&& match self.mode {
            Mode::VBlank => 144 <= self.ly <= 153,
            _ => self.ly < 144,
        }
    }

    pub closed spec fn wf(&self) -> bool {
        &&& self.vram@.len() == VRAM_SIZE
        &&& self.oam@.len() == OAM_SIZE
        &&& self.pixel_data@.len() == FRAME_BYTES
        &&& self.vram_bank < 2
        &&& self.bg_palette.wf()
        &&& self.obj_palette.wf()
        &&& self.timing_shape()
        &&& 0 < self.cycles <= self.segment_len()
    }

    /// `self` differs from `other` in VRAM contents at most.
    pub closed spec fn same_but_vram(&self, other: &Ppu) -> bool {
        *self == Ppu { vram: self.vram, ..*other }
    }

    pub proof fn lemma_same_but_vram_refl(a: Ppu)
        ensures
            a.same_but_vram(&a),
    {
    }

    pub proof fn lemma_same_but_vram_trans(a: Ppu, b: Ppu, c: Ppu)
        requires
            a.same_but_vram(&b),
            b.same_but_vram(&c),
        ensures
            a.same_but_vram(&c),
    {
    }

    /// The sizes that a well-formed PPU's memories have.
    pub proof fn lemma_wf_sizes(p: Ppu)
        requires
            p.wf(),
        ensures
            p.vram_bytes().len() == VRAM_SIZE,
            p.oam_bytes().len() == OAM_SIZE,
            0 <= p.vram_bank_spec() < 2,
    {
    }

    /// Two states that differ in VRAM contents at most agree on everything
    /// that a CPU read outside VRAM sees.
    pub proof fn lemma_same_but_vram(a: Ppu, b: Ppu)
        requires
            a.same_but_vram(&b),
            b.wf(),
            a.vram_bytes().len() == b.vram_bytes().len(),
        ensures
            a.wf(),
            a.oam_bytes() == b.oam_bytes(),
            a.current_mode() == b.current_mode(),
            a.vram_bank_spec() == b.vram_bank_spec(),
            forall|reg: PpuRegister| #[trigger] a.register_value(reg) == b.register_value(reg),
    {
    }

    /// The VRAM index that a CPU access at `address` reaches.
    pub open spec fn vram_index(&self, address: u16) -> int {
        self.vram_bank_spec() * 0x2000 + address % 0x2000
    }

    /// What a CPU read of VRAM at `address` returns.
    pub open spec fn vram_read_value(&self, address: u16) -> u8 {
        if self.current_mode() == Mode::DrawingPixels {
            0xff
        } else {
            self.vram_bytes()[self.vram_index(address)]
        }
    }

    /// What a CPU read of OAM at `address` returns.
    pub open spec fn oam_read_value(&self, address: u16) -> u8 {
        if self.current_mode() == Mode::OamScan || self.current_mode() == Mode::DrawingPixels
            || address % 256 >= 160 {
            0xff
        } else {
            self.oam_bytes()[address as int % 256]
        }
    }

    /// The contents of VRAM after a CPU write of `val` through `io`.
    pub open spec fn vram_after_write(&self, io: PpuIO, val: u8) -> Seq<u8> {
        match io {
            PpuIO::Vram { address } => if self.current_mode() == Mode::DrawingPixels {
                self.vram_bytes()
            } else {
                self.vram_bytes().update(self.vram_index(address), val)
            },
            _ => self.vram_bytes(),
        }
    }

    /// The contents of OAM after a CPU write of `val` through `io`.
    pub open spec fn oam_after_write(&self, io: PpuIO, val: u8) -> Seq<u8> {
        match io {
            PpuIO::Oam { address } => if self.current_mode() == Mode::OamScan
                || self.current_mode() == Mode::DrawingPixels || address % 256 >= 160 {
                self.oam_bytes()
            } else {
                self.oam_bytes().update(address as int % 256, val)
            },
            _ => self.oam_bytes(),
        }
    }

    /// A PPU with the LCD off, zeroed video memory and a white frame.
    pub fn new(monochrome_palette_colors: MonochromePaletteColors) -> (r: Self)
        ensures
            r.wf(),
            !r.lcd_on(),
            r.line() == 0,
            r.current_mode() == Mode::HBlank,
            !r.frame_done(),
            r.rendering(),
            forall|i: int| 0 <= i < VRAM_SIZE ==> r.vram_bytes()[i] == 0,
            forall|i: int| 0 <= i < OAM_SIZE ==> r.oam_bytes()[i] == 0,
            forall|i: int| 0 <= i < FRAME_BYTES ==> r.frame()[i] == 0xff,
            r.mono_colors() == monochrome_palette_colors,
            r.vram_bank_spec() == 0,
            r.window_line_count() == 0,
            !r.stored_stat_line(),
            r.stat_sources() == 0,
            forall|reg: PpuRegister|
                reg != PpuRegister::Stat && reg != PpuRegister::Opri && reg != PpuRegister::Bcps
                    && reg != PpuRegister::Bcpd && reg != PpuRegister::Ocps && reg
                    != PpuRegister::Ocpd ==> #[trigger] r.register_value(reg) == 0,
    {
        Ppu {
            lcdc: 0,
            stat_enables: 0,
            mode: Mode::HBlank,
            scy: 0,
            scx: 0,
            ly: 0,
            lyc: 0,
            bgp: 0,
            obp0: 0,
            obp1: 0,
            wy: 0,
            wx: 0,
            opri: 0,
            vram: filled(VRAM_SIZE, 0),
            vram_bank: 0,
            oam: filled(OAM_SIZE, 0),
            bg_palette: PaletteRam::new(),
            obj_palette: PaletteRam::new(),
            monochrome_palette_colors,
            cycles: OAM_SCAN_CYCLES,
            draw_len: DRAWING_CYCLES,
            stat_line: false,
            window_line: 0,
            pixel_data: filled(FRAME_BYTES, 0xff),
            is_frame_done: false,
            do_render: true,
        }
    }

    pub fn do_render(&mut self)
        ensures
            final(self).rendering(),
            Self::same_but_flags(*old(self), *final(self)),
            final(self).frame_done() == old(self).frame_done(),
    {
        self.do_render = true;
    }

    pub fn dont_render(&mut self)
        ensures
            !final(self).rendering(),
            Self::same_but_flags(*old(self), *final(self)),
            final(self).frame_done() == old(self).frame_done(),
    {
        self.do_render = false;
    }

    pub fn reset_frame_done(&mut self)
        requires
            old(self).wf(),
        ensures
            final(self).wf(),
            !final(self).frame_done(),
            final(self).frame() == old(self).frame(),
            Self::same_but_flags(*old(self), *final(self)),
            final(self).rendering() == old(self).rendering(),
    {
        self.is_frame_done = false;
    }

    pub fn is_frame_done(&self) -> (r: bool)
        ensures
            r == self.frame_done(),
    {
        self.is_frame_done
    }

    /// The finished RGBA frame.
    pub fn pixel_data(&self) -> (r: &[u8])
        ensures
            r@ == self.frame(),
    {
        self.pixel_data.as_slice()
    }

    /// The frame buffer, for a host that draws into it or clears it.
    pub fn mut_pixel_data(&mut self) -> (r: &mut Vec<u8>)
        ensures
            r@ == old(self).frame(),
    {
        &mut self.pixel_data
    }

    pub fn mode(&self) -> (r: Mode)
        ensures
            r == self.current_mode(),
    {
        self.mode
    }

    pub fn monochrome_palette_colors(&self) -> (r: MonochromePaletteColors)
        ensures
            r == self.mono_colors(),
    {
        self.monochrome_palette_colors
    }

    /// What a CPU read of `register` returns.
    pub closed spec fn register_value(&self, register: PpuRegister) -> u8 {
        match register {
            PpuRegister::Lcdc => self.lcdc,
            PpuRegister::Stat => 0x80 | self.stat_enables | (if self.ly == self.lyc {
                0x04u8
            } else {
                0
            }) | self.mode.bits(),
            PpuRegister::Scy => self.scy,
            PpuRegister::Scx => self.scx,
            PpuRegister::Ly => self.ly,
            PpuRegister::Lyc => self.lyc,
            PpuRegister::Bgp => self.bgp,
            PpuRegister::Obp0 => self.obp0,
            PpuRegister::Obp1 => self.obp1,
            PpuRegister::Wy => self.wy,
            PpuRegister::Wx => self.wx,
            PpuRegister::Bcps => ((if self.bg_palette.auto_inc() { 0x80int } else { 0 }) + 0x40
                + self.bg_palette.idx()) as u8,
            PpuRegister::Bcpd => self.bg_palette.bytes()[self.bg_palette.idx()],
            PpuRegister::Ocps => ((if self.obj_palette.auto_inc() { 0x80int } else { 0 }) + 0x40
                + self.obj_palette.idx()) as u8,
            PpuRegister::Ocpd => self.obj_palette.bytes()[self.obj_palette.idx()],
            PpuRegister::Opri => 0xfe | self.opri,
        }
    }

    fn read_register(&self, register: PpuRegister) -> (r: u8)
        requires
            self.wf(),
        ensures
            r == self.register_value(register),
    {
        match register {
            PpuRegister::Lcdc => self.lcdc,
            PpuRegister::Stat => {
                let coincidence: u8 = if self.ly == self.lyc { 0x04 } else { 0 };
                0x80 | self.stat_enables | coincidence | self.mode.to_bits()
            },
            PpuRegister::Scy => self.scy,
            PpuRegister::Scx => self.scx,
            PpuRegister::Ly => self.ly,
            PpuRegister::Lyc => self.lyc,
            PpuRegister::Bgp => self.bgp,
            PpuRegister::Obp0 => self.obp0,
            PpuRegister::Obp1 => self.obp1,
            PpuRegister::Wy => self.wy,
            PpuRegister::Wx => self.wx,
            PpuRegister::Bcps => self.bg_palette.spec_byte(),
            PpuRegister::Bcpd => self.bg_palette.data(),
            PpuRegister::Ocps => self.obj_palette.spec_byte(),
            PpuRegister::Ocpd => self.obj_palette.data(),
            PpuRegister::Opri => 0xfe | self.opri,
        }
    }

    /// A CPU read. VRAM reads 0xFF while pixels are drawn, OAM while it is
    /// scanned or pixels are drawn.
    pub fn read(&mut self, io: PpuIO) -> (r: u8)
        requires
            old(self).wf(),
        ensures
            *final(self) == *old(self),
            io matches PpuIO::Vram { address } ==> r == old(self).vram_read_value(address),
            io matches PpuIO::Oam { address } ==> r == old(self).oam_read_value(address),
            io is VramBank ==> r == 0xfe + old(self).vram_bank_spec(),
            io matches PpuIO::PpuRegister(reg) ==> r == old(self).register_value(reg),
            io == PpuIO::PpuRegister(PpuRegister::Ly) ==> r == old(self).line(),
    {
        match io {
            PpuIO::PpuRegister(register) => self.read_register(register),
            PpuIO::Vram { address } => {
                if self.mode == Mode::DrawingPixels {
                    0xff
                } else {
                    self.vram[self.vram_bank as usize * 0x2000 + address as usize % 0x2000]
                }
            },
            PpuIO::VramBank => 0xfe + self.vram_bank,
            PpuIO::Oam { address } => {
                let a = address as usize % 256;
                if self.mode == Mode::OamScan || self.mode == Mode::DrawingPixels || a >= 160 {
                    0xff
                } else {
                    self.oam[a]
                }
            },
        }
    }

    /// A DMA write to VRAM: dropped while pixels are drawn.
    pub fn vram_dma_write(&mut self, address: u16, val: u8)
        requires
            old(self).wf(),
        ensures
            final(self).wf(),
            final(self).vram_bytes() == old(self).vram_after_write(PpuIO::Vram { address }, val),
            final(self).oam_bytes() == old(self).oam_bytes(),
            final(self).current_mode() == old(self).current_mode(),
            final(self).frame_position() == old(self).frame_position(),
            final(self).same_but_vram(old(self)),
            final(self).mono_colors() == old(self).mono_colors(),
            forall|reg: PpuRegister| #[trigger] final(self).register_value(reg) == old(
                self,
            ).register_value(reg),
    {
        if self.mode != Mode::DrawingPixels {
            let i = self.vram_bank as usize * 0x2000 + address as usize % 0x2000;
            self.vram.set(i, val);
        }
    }

    /// An OAM DMA write: not gated by the PPU mode.
    pub fn oam_dma_write(&mut self, address: u8, val: u8)
        requires
            old(self).wf(),
        ensures
            final(self).wf(),
            final(self).mono_colors() == old(self).mono_colors(),
            Self::same_timing_view(*old(self), *final(self)),
            forall|reg: PpuRegister| #[trigger] final(self).register_value(reg) == old(
                self,
            ).register_value(reg),
            final(self).oam_bytes() == if address < 160 {
                old(self).oam_bytes().update(address as int, val)
            } else {
                old(self).oam_bytes()
            },
            final(self).vram_bytes() == old(self).vram_bytes(),
            final(self).current_mode() == old(self).current_mode(),
            final(self).frame_position() == old(self).frame_position(),
    {
        if address < 160 {
            self.oam.set(address as usize, val);
        }
    }
}


/// The part of the PPU state that mode changes read and write.
pub struct LineState {
    pub mode: Mode,
    pub ly: int,
    /// T-cycles left in the current mode.
    pub cycles: int,
    /// Length of the current line's drawing period.
    pub draw_len: int,
    pub scx: u8,
    pub lyc: u8,
    /// STAT's interrupt-source bits.
    pub enables: u8,
    /// The STAT interrupt line as last evaluated.
    pub stat_line: bool,
}

/// One mode change (section 4.7): OAM scan (80 cycles), then drawing
/// (172 + SCX % 8), then HBlank for the rest of the 456-cycle line; after
/// line 143 ten VBlank lines of 456 cycles; after line 153 line 0 again.
/// The STAT line is evaluated in the new state.
pub open spec fn next_line_state(v: LineState) -> LineState {
    let (mode, ly, add, draw_len) = match v.mode {
        Mode::OamScan => (
            Mode::DrawingPixels,
            v.ly,
            DRAWING_CYCLES + v.scx % 8,
            DRAWING_CYCLES + v.scx % 8,
        ),
        Mode::DrawingPixels => (
            Mode::HBlank,
            v.ly,
            LINE_CYCLES - OAM_SCAN_CYCLES - v.draw_len,
            v.draw_len,
        ),
        Mode::HBlank => if v.ly + 1 == 144 {
            (Mode::VBlank, 144int, LINE_CYCLES as int, v.draw_len)
        } else {
            (Mode::OamScan, v.ly + 1, OAM_SCAN_CYCLES as int, v.draw_len)
        },
        Mode::VBlank => if v.ly >= 153 {
            (Mode::OamScan, 0int, OAM_SCAN_CYCLES as int, v.draw_len)
        } else {
            (Mode::VBlank, v.ly + 1, LINE_CYCLES as int, v.draw_len)
        },
    };
    LineState {
        mode,
        ly,
        cycles: v.cycles + add,
        draw_len,
        stat_line: stat_line_of(v.enables, mode, ly as u8, v.lyc),
        ..v
    }
}

/// Mode changes taken while the current mode's cycles have run out: the
/// state reached, and whether the STAT line rose (false to true) on the way,
/// which is when LCD_STAT is requested.
pub open spec fn settle(v: LineState) -> (LineState, bool)
    decreases (if v.cycles <= 0 { 1 - v.cycles } else { 0 }),
{
    if v.cycles > 0 || !(DRAWING_CYCLES <= v.draw_len <= DRAWING_CYCLES + 7) {
        (v, false)
    } else {
        let w = next_line_state(v);
        let (r, rose) = settle(w);
        (r, rose || (w.stat_line && !v.stat_line))
    }
}

impl Ppu {
    /// The timing fields and video memory are as in `other`.
    closed spec fn same_timing(&self, other: &Ppu) -> bool {
        &&& self.mode == other.mode
        &&& self.ly == other.ly
        &&& self.cycles == other.cycles
        &&& self.draw_len == other.draw_len
        &&& self.is_frame_done == other.is_frame_done
    }

    /// The registers other than LCDC, STAT and LY, and the palettes, agree.
    closed spec fn same_registers(&self, other: &Ppu) -> bool {
        &&& self.scy == other.scy
        &&& self.scx == other.scx
        &&& self.lyc == other.lyc
        &&& self.wy == other.wy
        &&& self.wx == other.wx
        &&& self.bgp == other.bgp
        &&& self.obp0 == other.obp0
        &&& self.obp1 == other.obp1
        &&& self.opri == other.opri
        &&& self.bg_palette == other.bg_palette
        &&& self.obj_palette == other.obj_palette
        &&& self.stat_enables == other.stat_enables
        &&& self.lcdc == other.lcdc
    }

    /// All of `wf` but the positive cycle count, as holds between mode changes.
    closed spec fn settling(&self) -> bool {
        &&& self.vram@.len() == VRAM_SIZE
        &&& self.oam@.len() == OAM_SIZE
        &&& self.pixel_data@.len() == FRAME_BYTES
        &&& self.vram_bank < 2
        &&& self.bg_palette.wf()
        &&& self.obj_palette.wf()
        &&& self.timing_shape()
        &&& -256 < self.cycles <= self.segment_len()
    }

    /// What a CPU write of `val` through `io` does, from `before` to `after`.
    /// VRAM writes are dropped while pixels are drawn, OAM writes while it is
    /// scanned or pixels are drawn. Switching the LCD off resets the line to 0
    /// in HBlank; switching it on starts a frame with a short first OAM scan,
    /// a blank frame buffer and the window line counter at 0. LY is
    /// read-only. Only an LCDC write touches the timing.
    pub open spec fn write_effect(before: Ppu, after: Ppu, io: PpuIO, val: u8) -> bool {
        &&& after.wf()
        &&& after.vram_bytes() == before.vram_after_write(io, val)
        &&& after.oam_bytes() == before.oam_after_write(io, val)
        &&& after.frame_done() == before.frame_done()
        &&& after.rendering() == before.rendering()
        &&& after.mono_colors() == before.mono_colors()
        &&& (io is VramBank ==> after.vram_bank_spec() == val % 2)
        &&& (!(io is VramBank) ==> after.vram_bank_spec() == before.vram_bank_spec())
        &&& (io != PpuIO::PpuRegister(PpuRegister::Lcdc) || (before.lcd_on() && val
            >= LCD_ENABLE)) ==> Self::same_timing_view(before, after)
        &&& io != PpuIO::PpuRegister(PpuRegister::Lcdc) ==> {
            &&& after.lcd_on() == before.lcd_on()
            &&& after.window_line_count() == before.window_line_count()
            &&& after.stored_stat_line() == before.stored_stat_line()
        }
        &&& io == PpuIO::PpuRegister(PpuRegister::Lcdc) ==> {
            &&& after.lcd_on() == (val >= LCD_ENABLE)
            &&& after.register_value(PpuRegister::Lcdc) == val
            &&& (before.lcd_on() && val < LCD_ENABLE) ==> after.line() == 0
                && after.current_mode() == Mode::HBlank
            &&& (!before.lcd_on() && val >= LCD_ENABLE) ==> {
                &&& after.line() == 0
                &&& after.current_mode() == Mode::OamScan
                &&& after.frame_position() == OAM_SCAN_CYCLES - FIRST_OAM_SCAN_CYCLES
                &&& after.window_line_count() == 0
                &&& forall|i: int| 0 <= i < FRAME_BYTES ==> after.frame()[i] == 0xff
            }
        }
        &&& (io matches PpuIO::PpuRegister(reg) ==> (reg == PpuRegister::Scy || reg
            == PpuRegister::Scx || reg == PpuRegister::Lyc || reg == PpuRegister::Bgp || reg
            == PpuRegister::Obp0 || reg == PpuRegister::Obp1 || reg == PpuRegister::Wy || reg
            == PpuRegister::Wx) ==> after.register_value(reg) == val)
        &&& (io == PpuIO::PpuRegister(PpuRegister::Stat) ==> after.stat_sources() == val & 0x78)
        &&& (io != PpuIO::PpuRegister(PpuRegister::Stat) ==> after.stat_sources()
            == before.stat_sources())
        &&& (io == PpuIO::PpuRegister(PpuRegister::Opri) ==> after.register_value(
            PpuRegister::Opri,
        ) == 0xfe | (val % 2))
        &&& (io == PpuIO::PpuRegister(PpuRegister::Bcps) ==> palette_spec_written(
            before.bg_palette_ram(),
            after.bg_palette_ram(),
            val,
        ))
        &&& (io == PpuIO::PpuRegister(PpuRegister::Bcpd) ==> palette_data_written(
            before.bg_palette_ram(),
            after.bg_palette_ram(),
            val,
        ))
        &&& (io == PpuIO::PpuRegister(PpuRegister::Ocps) ==> palette_spec_written(
            before.obj_palette_ram(),
            after.obj_palette_ram(),
            val,
        ))
        &&& (io == PpuIO::PpuRegister(PpuRegister::Ocpd) ==> palette_data_written(
            before.obj_palette_ram(),
            after.obj_palette_ram(),
            val,
        ))
        &&& (!is_palette_register(io) ==> after.bg_palette_ram() == before.bg_palette_ram()
            && after.obj_palette_ram() == before.obj_palette_ram())
        &&& (!(io is PpuRegister) ==> forall|reg: PpuRegister| #[trigger] after.register_value(
            reg,
        ) == before.register_value(reg))
    }

    /// `v` with `cycles` more T-cycles elapsed.
    pub open spec fn after_cycles(v: LineState, cycles: int) -> LineState {
        LineState { cycles: v.cycles - cycles, ..v }
    }

    /// `after` is where the mode changes take `before` once `cycles`
    /// T-cycles have elapsed.
    pub open spec fn settles(before: LineState, cycles: int, after: LineState) -> bool {
        after == settle(Self::after_cycles(before, cycles)).0
    }

    /// Everything a caller can observe but the frame-done and rendering flags
    /// agrees.
    pub open spec fn same_but_flags(before: Ppu, after: Ppu) -> bool {
        &&& Self::same_timing_view(before, after)
        &&& after.lcd_on() == before.lcd_on()
        &&& after.vram_bytes() == before.vram_bytes()
        &&& after.oam_bytes() == before.oam_bytes()
        &&& after.frame() == before.frame()
        &&& after.mono_colors() == before.mono_colors()
        &&& after.vram_bank_spec() == before.vram_bank_spec()
        &&& after.window_line_count() == before.window_line_count()
        &&& after.stored_stat_line() == before.stored_stat_line()
        &&& after.line_state() == before.line_state()
        &&& forall|reg: PpuRegister| #[trigger] after.register_value(reg) == before.register_value(
            reg,
        )
    }

    /// Mode, line, position in the frame and drawing length agree.
    pub open spec fn same_timing_view(before: Ppu, after: Ppu) -> bool {
        &&& after.current_mode() == before.current_mode()
        &&& after.line() == before.line()
        &&& after.frame_position() == before.frame_position()
        &&& after.draw_length() == before.draw_length()
    }

    /// A CPU write; see `write_effect`.
    pub fn write(&mut self, io: PpuIO, val: u8)
        requires
            old(self).wf(),
        ensures
            Self::write_effect(*old(self), *final(self), io, val),
    {
        match io {
            PpuIO::PpuRegister(register) => self.write_register(register, val),
            PpuIO::Vram { address } => {
                if self.mode != Mode::DrawingPixels {
                    let i = self.vram_bank as usize * 0x2000 + address as usize % 0x2000;
                    self.vram.set(i, val);
                }
            },
            PpuIO::VramBank => self.vram_bank = val % 2,
            PpuIO::Oam { address } => {
                let a = address as usize % 256;
                if self.mode != Mode::OamScan && self.mode != Mode::DrawingPixels && a < 160 {
                    self.oam.set(a, val);
                }
            },
        }
    }

    fn write_register(&mut self, register: PpuRegister, val: u8)
        requires
            old(self).wf(),
        ensures
            final(self).wf(),
            final(self).vram == old(self).vram,
            final(self).oam == old(self).oam,
            final(self).vram_bank == old(self).vram_bank,
            final(self).is_frame_done == old(self).is_frame_done,
            register != PpuRegister::Lcdc ==> final(self).same_timing(old(self))
                && final(self).lcdc == old(self).lcdc && final(self).window_line == old(
                self,
            ).window_line,
            final(self).monochrome_palette_colors == old(self).monochrome_palette_colors,
            final(self).stat_line == old(self).stat_line,
            final(self).do_render == old(self).do_render,
            register != PpuRegister::Stat ==> final(self).stat_enables == old(self).stat_enables,
            !is_palette_register(PpuIO::PpuRegister(register)) ==> final(self).bg_palette
                == old(self).bg_palette && final(self).obj_palette == old(self).obj_palette,
            register == PpuRegister::Lcdc ==> {
                &&& final(self).lcdc == val
                &&& (old(self).lcd_on() && val >= LCD_ENABLE) ==> final(self).same_timing(old(self))
                &&& (old(self).lcd_on() && val < LCD_ENABLE) ==> final(self).ly == 0
                    && final(self).mode == Mode::HBlank
                &&& (!old(self).lcd_on() && val >= LCD_ENABLE) ==> {
                    &&& final(self).ly == 0
                    &&& final(self).mode == Mode::OamScan
                    &&& final(self).cycles == FIRST_OAM_SCAN_CYCLES
                    &&& final(self).window_line == 0
                    &&& forall|i: int| 0 <= i < FRAME_BYTES ==> final(self).pixel_data@[i] == 0xff
                }
            },
            (register == PpuRegister::Scy || register == PpuRegister::Scx || register
                == PpuRegister::Lyc || register == PpuRegister::Bgp || register
                == PpuRegister::Obp0 || register == PpuRegister::Obp1 || register
                == PpuRegister::Wy || register == PpuRegister::Wx) ==> final(self).register_value(
                register,
            ) == val,
            register == PpuRegister::Stat ==> final(self).stat_sources() == val & 0x78,
            register == PpuRegister::Opri ==> final(self).register_value(
                PpuRegister::Opri,
            ) == 0xfe | (val % 2),
            register == PpuRegister::Bcps ==> palette_spec_written(
                old(self).bg_palette_ram(),
                final(self).bg_palette_ram(),
                val,
            ),
            register == PpuRegister::Bcpd ==> palette_data_written(
                old(self).bg_palette_ram(),
                final(self).bg_palette_ram(),
                val,
            ),
            register == PpuRegister::Ocps ==> palette_spec_written(
                old(self).obj_palette_ram(),
                final(self).obj_palette_ram(),
                val,
            ),
            register == PpuRegister::Ocpd ==> palette_data_written(
                old(self).obj_palette_ram(),
                final(self).obj_palette_ram(),
                val,
            ),
    {
        match register {
            PpuRegister::Lcdc => {
                let was_on = self.lcdc >= LCD_ENABLE;
                let now_on = val >= LCD_ENABLE;
                self.lcdc = val;
                if was_on && !now_on {
                    self.ly = 0;
                    self.mode = Mode::HBlank;
                    self.cycles = OAM_SCAN_CYCLES;
                } else if !was_on && now_on {
                    self.ly = 0;
                    self.mode = Mode::OamScan;
                    self.cycles = FIRST_OAM_SCAN_CYCLES;
                    self.window_line = 0;
                    self.pixel_data = filled(FRAME_BYTES, 0xff);
                }
            },
            PpuRegister::Stat => self.stat_enables = val & 0x78,
            PpuRegister::Scy => self.scy = val,
            PpuRegister::Scx => self.scx = val,
            PpuRegister::Ly => {},
            PpuRegister::Lyc => self.lyc = val,
            PpuRegister::Bgp => self.bgp = val,
            PpuRegister::Obp0 => self.obp0 = val,
            PpuRegister::Obp1 => self.obp1 = val,
            PpuRegister::Wy => self.wy = val,
            PpuRegister::Wx => self.wx = val,
            PpuRegister::Bcps => self.bg_palette.set_spec(val),
            PpuRegister::Bcpd => self.bg_palette.set_data(val),
            PpuRegister::Ocps => self.obj_palette.set_spec(val),
            PpuRegister::Ocpd => self.obj_palette.set_data(val),
            PpuRegister::Opri => self.opri = val % 2,
        }
    }

    /// Recomputes the STAT interrupt line and requests LCD_STAT on a rising
    /// edge.
    fn update_stat_line(&mut self, ints: &mut InterruptRequests)
        ensures
            final(self).stat_line == stat_line_of(
                old(self).stat_enables,
                old(self).mode,
                old(self).ly,
                old(self).lyc,
            ),
            final(ints).lcd_stat == (old(ints).lcd_stat || (final(self).stat_line
                && !old(self).stat_line)),
            final(ints).vblank == old(ints).vblank,
            *final(self) == (Ppu { stat_line: final(self).stat_line, ..*old(self) }),
    {
        let line = (self.stat_enables & STAT_HBLANK_INT != 0 && self.mode == Mode::HBlank) || (
        self.stat_enables & STAT_VBLANK_INT != 0 && self.mode == Mode::VBlank) || (
        self.stat_enables & STAT_OAM_INT != 0 && self.mode == Mode::OamScan) || (
        self.stat_enables & STAT_LYC_INT != 0 && self.ly == self.lyc);
        if line && !self.stat_line {
            ints.lcd_stat = true;
        }
        self.stat_line = line;
    }

    /// One mode change, taken when the current mode's cycles have run out.
    /// Returns whether a frame was completed.
    #[verifier::spinoff_prover]
    fn step(&mut self, ints: &mut InterruptRequests, function_mode: FunctionMode) -> (wrapped: bool)
        requires
            old(self).settling(),
            old(self).cycles <= 0,
            old(self).lcd_on(),
        ensures
            final(self).settling(),
            final(self).lcd_on(),
            final(self).cycles > old(self).cycles,
            final(self).segment_len() > 0,
            final(self).frame_position() + (if wrapped { FRAME_CYCLES as int } else { 0 })
                == old(self).frame_position(),
            final(self).segment_start() + (if wrapped { FRAME_CYCLES as int } else { 0 })
                == old(self).segment_start() + old(self).segment_len(),
            wrapped ==> old(self).ly == 153 && old(self).mode == Mode::VBlank,
            final(self).is_frame_done == (old(self).is_frame_done || wrapped),
            final(ints).vblank == (old(ints).vblank || (old(self).mode == Mode::HBlank
                && old(self).ly == 143)),
            old(self).mode == Mode::DrawingPixels && old(self).do_render ==> forall|t: int|
                0 <= t < SCREEN_WIDTH ==> #[trigger] old(self).line_pixel_ok(
                    function_mode,
                    final(self).pixel_data@,
                    t,
                ),
            old(ints).lcd_stat ==> final(ints).lcd_stat,
            old(self).stat_enables == 0 ==> final(ints).lcd_stat == old(ints).lcd_stat,
            final(self).stat_enables == old(self).stat_enables,
            final(self).vram == old(self).vram,
            final(self).oam == old(self).oam,
            final(self).line_state() == next_line_state(old(self).line_state()),
            final(ints).lcd_stat == (old(ints).lcd_stat || (final(self).stat_line
                && !old(self).stat_line)),
            old(self).mode == Mode::HBlank && old(self).ly == 143 ==> final(self).window_line == 0,
            old(self).mode == Mode::VBlank ==> final(self).window_line == old(self).window_line,
            final(self).mode == Mode::DrawingPixels ==> final(self).draw_len == DRAWING_CYCLES
                + final(self).scx % 8,
            final(self).same_registers(old(self)),
            final(self).monochrome_palette_colors == old(self).monochrome_palette_colors,
            final(self).do_render == old(self).do_render,
            final(self).lcdc == old(self).lcdc,
    {
        let wrapped = match self.mode {
            Mode::OamScan => {
                self.mode = Mode::DrawingPixels;
                self.draw_len = DRAWING_CYCLES + (self.scx % 8) as i32;
                self.cycles = self.cycles + self.draw_len;
                false
            },
            Mode::DrawingPixels => {
                if self.do_render {
                    self.draw_scanline(function_mode);
                }
                self.mode = Mode::HBlank;
                self.cycles = self.cycles + (LINE_CYCLES - OAM_SCAN_CYCLES - self.draw_len);
                false
            },
            Mode::HBlank => {
                self.ly = self.ly + 1;
                if self.ly == 144 {
                    self.mode = Mode::VBlank;
                    self.cycles = self.cycles + LINE_CYCLES;
                    self.window_line = 0;
                    ints.vblank = true;
                } else {
                    self.mode = Mode::OamScan;
                    self.cycles = self.cycles + OAM_SCAN_CYCLES;
                }
                false
            },
            Mode::VBlank => {
                if self.ly >= 153 {
                    self.ly = 0;
                    self.mode = Mode::OamScan;
                    self.cycles = self.cycles + OAM_SCAN_CYCLES;
                    self.is_frame_done = true;
                    true
                } else {
                    self.ly = self.ly + 1;
                    self.cycles = self.cycles + LINE_CYCLES;
                    false
                }
            },
        };
        proof {
            assert(0u8 & STAT_HBLANK_INT == 0 && 0u8 & STAT_VBLANK_INT == 0 && 0u8 & STAT_OAM_INT
                == 0 && 0u8 & STAT_LYC_INT == 0) by (bit_vector);
        }
        self.update_stat_line(ints);
        wrapped
    }

    /// Advances the PPU by `cycles` T-cycles, taking every mode change that
    /// falls due. Nothing happens while the LCD is off.
    #[verifier::spinoff_prover]
    pub fn tick(&mut self, ints: &mut InterruptRequests, function_mode: FunctionMode, cycles: u8)
        requires
            old(self).wf(),
        ensures
            final(self).wf(),
            final(self).vram_bytes() == old(self).vram_bytes(),
            final(self).oam_bytes() == old(self).oam_bytes(),
            !old(self).lcd_on() ==> *final(self) == *old(self) && *final(ints) == *old(ints),
            old(self).lcd_on() ==> {
                let p = old(self).frame_position();
                &&& final(self).lcd_on()
                &&& final(self).frame_position() == (p + cycles) % (FRAME_CYCLES as int)
                &&& final(self).frame_done() == (old(self).frame_done() || p + cycles
                    >= FRAME_CYCLES)
                &&& final(ints).vblank == (old(ints).vblank || (p < VBLANK_START <= p + cycles))
                &&& old(ints).lcd_stat ==> final(ints).lcd_stat
                &&& old(self).stat_sources() == 0 ==> final(ints).lcd_stat == old(ints).lcd_stat
                &&& p < VBLANK_START <= p + cycles ==> final(self).window_line_count() == 0
                &&& Self::settles(old(self).line_state(), cycles as int, final(self).line_state())
                &&& final(ints).lcd_stat == (old(ints).lcd_stat || settle(
                    Self::after_cycles(old(self).line_state(), cycles as int),
                ).1)
                &&& final(ints).vblank == (old(ints).vblank || (p < VBLANK_START <= p + cycles))
                &&& (final(self).current_mode() == Mode::DrawingPixels && old(self).current_mode()
                    != Mode::DrawingPixels) ==> final(self).draw_length() == DRAWING_CYCLES
                    + final(self).register_value(PpuRegister::Scx) % 8
            },
            final(self).stat_sources() == old(self).stat_sources(),
            final(self).mono_colors() == old(self).mono_colors(),
            final(self).rendering() == old(self).rendering(),
            forall|reg: PpuRegister|
                reg != PpuRegister::Ly && reg != PpuRegister::Stat ==> #[trigger] final(self).register_value(reg)
                    == old(self).register_value(reg),
    {
        if self.lcdc < LCD_ENABLE {
            return;
        }
        proof {
            lemma_position_in_frame(*self);
        }
        let ghost start = self.frame_position();
        let ghost old_vblank = ints.vblank;
        let ghost old_stat = ints.lcd_stat;
        let ghost old_done = self.is_frame_done;
        let ghost vram0 = self.vram;
        let ghost oam0 = self.oam;
        let ghost mut wraps: int = 0;
        let ghost mut rose = false;
        let ghost mut steps: int = 0;
        let ghost old_mode = self.mode;
        let ghost target = settle(Self::after_cycles(self.line_state(), cycles as int));
        self.cycles = self.cycles - cycles as i32;
        while self.cycles <= 0
            invariant
                self.settling(),
                self.lcd_on(),
                0 <= start < FRAME_CYCLES,
                wraps == 0 || wraps == 1,
                self.frame_position() + wraps * FRAME_CYCLES == start + cycles,
                self.segment_start() + self.segment_len() + wraps * FRAME_CYCLES > start,
                self.segment_start() + wraps * FRAME_CYCLES <= start + cycles,
                self.is_frame_done == (old_done || wraps == 1),
                ints.vblank == (old_vblank || (start < VBLANK_START <= self.segment_start() + wraps
                    * FRAME_CYCLES)),
                old_stat ==> ints.lcd_stat,
                self.stat_enables == old(self).stat_enables,
                self.stat_enables == 0 ==> ints.lcd_stat == old_stat,
                self.vram == vram0,
                self.oam == oam0,
                settle(self.line_state()).0 == target.0,
                target.1 == (rose || settle(self.line_state()).1),
                ints.lcd_stat == (old_stat || rose),
                (start < VBLANK_START <= self.segment_start() + wraps * FRAME_CYCLES)
                    ==> self.window_line == 0,
                steps == 0 ==> self.mode == old_mode,
                steps > 0 && self.mode == Mode::DrawingPixels ==> self.draw_len == DRAWING_CYCLES
                    + self.scx % 8,
                self.same_registers(&*old(self)),
                self.monochrome_palette_colors == old(self).monochrome_palette_colors,
                self.do_render == old(self).do_render,
                steps >= 0,
            decreases (if self.cycles <= 0 { 1 - self.cycles } else { 0 }),
        {
            let ghost before = *self;
            let w = self.step(ints, function_mode);
            proof {
                lemma_segment_bounds(before);
                lemma_segment_bounds(*self);
                if w {
                    wraps = wraps + 1;
                }
                rose = rose || (self.stat_line && !before.stat_line);
                steps = steps + 1;
            }
        }
        proof {
            lemma_position_in_frame(*self);
            lemma_segment_bounds(*self);
        }
    }
}

proof fn lemma_segment_bounds(p: Ppu)
    requires
        p.timing_shape(),
    ensures
        p.segment_len() > 0,
        p.segment_end() <= LINE_CYCLES,
        p.segment_end() - p.segment_len() >= 0,
        p.mode == Mode::VBlank ==> p.segment_start() >= VBLANK_START,
        p.mode != Mode::VBlank ==> p.segment_start() + p.segment_len() <= VBLANK_START,
        p.mode == Mode::HBlank && p.ly == 143 ==> p.segment_start() + p.segment_len()
            == VBLANK_START,
        p.segment_start() + p.segment_len() == VBLANK_START ==> p.mode == Mode::HBlank && p.ly
            == 143,
        p.mode == Mode::VBlank && p.ly == 153 ==> p.segment_start() + p.segment_len()
            == FRAME_CYCLES,
        p.segment_start() + p.segment_len() <= FRAME_CYCLES,
{
}

/// Where each mode lies in a line: on lines 0..=143 OAM scan takes the first
/// 80 cycles, drawing the next `draw_length()` (172 + SCX % 8, fixed when
/// drawing starts), HBlank the rest of the 456; lines 144..=153 are VBlank.
pub proof fn lemma_mode_of_position(p: Ppu)
    requires
        p.wf(),
    ensures
        DRAWING_CYCLES <= p.draw_length() <= DRAWING_CYCLES + 7,
        p.line() < 144 ==> (p.current_mode() == Mode::OamScan <==> p.frame_position() % 456
            < OAM_SCAN_CYCLES),
        p.line() < 144 ==> (p.current_mode() == Mode::DrawingPixels <==> OAM_SCAN_CYCLES
            <= p.frame_position() % 456 < OAM_SCAN_CYCLES + p.draw_length()),
        p.line() < 144 ==> (p.current_mode() == Mode::HBlank <==> OAM_SCAN_CYCLES
            + p.draw_length() <= p.frame_position() % 456),
        p.line() >= 144 <==> p.current_mode() == Mode::VBlank,
{
    lemma_segment_bounds(p);
    lemma_position_in_frame(p);
    assert(p.frame_position() % 456 == p.frame_position() - p.line() * 456);
}

/// The frame position of a well-formed PPU lies inside the frame, in the
/// current line's stretch of 456 cycles.
pub proof fn lemma_position_in_frame(p: Ppu)
    requires
        p.wf(),
    ensures
        0 <= p.frame_position() < FRAME_CYCLES,
        p.line() == p.frame_position() / (LINE_CYCLES as int),
        p.line() < 144 <==> p.current_mode() != Mode::VBlank,
{
    lemma_segment_bounds(p);
}


/// How a background or window pixel ranks against sprites.
#[derive(Debug, Clone, Copy, PartialEq, Eq, Structural)]
pub enum PixelPriority {
    SpritesOnTop,
    BackgroundOnTop,
    Normal,
}

pub open spec fn two_to(k: int) -> int {
    if k <= 0 {
        1
    } else if k == 1 {
        2
    } else if k == 2 {
        4
    } else if k == 3 {
        8
    } else if k == 4 {
        16
    } else if k == 5 {
        32
    } else if k == 6 {
        64
    } else {
        128
    }
}

/// Bit `k` (0..=7) of `v`.
pub open spec fn bit_of(v: u8, k: int) -> int {
    (v as int / two_to(k)) % 2
}

/// The shade (0..=3) that DMG palette register `p` gives colour number `idx`.
pub open spec fn shade_of(p: u8, idx: int) -> int {
    (p as int / two_to(2 * idx)) % 4
}

fn pow2_u8(k: u8) -> (r: u8)
    requires
        k < 8,
    ensures
        r == two_to(k as int),
        r > 0,
{
    match k {
        0 => 1,
        1 => 2,
        2 => 4,
        3 => 8,
        4 => 16,
        5 => 32,
        6 => 64,
        _ => 128,
    }
}

fn bit(v: u8, k: u8) -> (r: u8)
    requires
        k < 8,
    ensures
        r == bit_of(v, k as int),
        r < 2,
{
    (v / pow2_u8(k)) % 2
}

fn shade(p: u8, idx: u8) -> (r: u8)
    requires
        idx < 4,
    ensures
        r == shade_of(p, idx as int),
        r < 4,
{
    (p / pow2_u8(2 * idx)) % 4
}

/// VRAM offset of tile `tile`'s data: unsigned from 0x8000, or signed
/// from 0x9000, per LCDC bit 4.
pub open spec fn tile_data_offset(lcdc: u8, tile: u8) -> int {
    if bit_of(lcdc, 4) == 1 || tile >= 128 {
        tile * 16
    } else {
        0x1000 + tile * 16
    }
}

/// `frame` shows colour `c`, opaque, at pixel `p`.
pub open spec fn shows(frame: Seq<u8>, p: int, c: Rgb) -> bool {
    &&& frame[4 * p] == c.r
    &&& frame[4 * p + 1] == c.g
    &&& frame[4 * p + 2] == c.b
    &&& frame[4 * p + 3] == 0xff
}

/// Pixel `p` of `a` and of `b` hold the same bytes.
pub open spec fn same_pixel(a: Seq<u8>, b: Seq<u8>, p: int) -> bool {
    &&& a[4 * p] == b[4 * p]
    &&& a[4 * p + 1] == b[4 * p + 1]
    &&& a[4 * p + 2] == b[4 * p + 2]
    &&& a[4 * p + 3] == b[4 * p + 3]
}

impl Ppu {
    pub closed spec fn lcdc_spec(&self) -> u8 {
        self.lcdc
    }

    /// Colour number and attribute byte of pixel (x, y) of the 256x256 plane
    /// whose tile map starts at VRAM offset `map_base`.
    pub closed spec fn map_pixel(&self, fm: FunctionMode, map_base: int, x: int, y: int) -> (
        int,
        u8,
    ) {
        let map_addr = map_base + (y / 8) * 32 + x / 8;
        let tile = self.vram@[map_addr];
        let attr = if fm == FunctionMode::Color {
            self.vram@[0x2000 + map_addr]
        } else {
            0u8
        };
        let line = (y % 8) * 2;
        let row = if bit_of(attr, 6) == 1 {
            14 - line
        } else {
            line
        };
        let bank = if bit_of(attr, 3) == 1 {
            0x2000int
        } else {
            0
        };
        let addr = bank + tile_data_offset(self.lcdc, tile) + row;
        let bit = if bit_of(attr, 5) == 1 {
            x % 8
        } else {
            7 - x % 8
        };
        (bit_of(self.vram@[addr + 1], bit) * 2 + bit_of(self.vram@[addr], bit), attr)
    }

    /// The colour that background/window colour number `idx` with attribute
    /// `attr` is shown in.
    pub closed spec fn bg_color(&self, fm: FunctionMode, idx: int, attr: u8) -> Rgb {
        match fm {
            FunctionMode::Monochrome => self.monochrome_palette_colors.color(
                shade_of(self.bgp, idx),
            ),
            FunctionMode::Compatibility => palette_color(
                self.bg_palette.bytes(),
                0,
                shade_of(self.bgp, idx),
            ),
            FunctionMode::Color => palette_color(self.bg_palette.bytes(), attr as int % 8, idx),
        }
    }

    pub open spec fn bg_priority_of(idx: int, attr: u8) -> PixelPriority {
        if idx == 0 {
            PixelPriority::SpritesOnTop
        } else if bit_of(attr, 7) == 1 {
            PixelPriority::BackgroundOnTop
        } else {
            PixelPriority::Normal
        }
    }

    /// Whether the background is drawn from VRAM; in DMG modes LCDC bit 0
    /// off forces it to colour 0.
    pub closed spec fn bg_enabled(&self, fm: FunctionMode) -> bool {
        fm == FunctionMode::Color || bit_of(self.lcdc, 0) == 1
    }

    /// Colour number and attribute of background pixel `i` of the current line.
    pub closed spec fn bg_pixel(&self, fm: FunctionMode, i: int) -> (int, u8) {
        if self.bg_enabled(fm) {
            let map_base = if bit_of(self.lcdc, 3) == 1 {
                0x1c00int
            } else {
                0x1800
            };
            self.map_pixel(fm, map_base, (i + self.scx) % 256, (self.ly + self.scy) % 256)
        } else {
            (0, 0u8)
        }
    }

    /// Whether the window shows on the current line.
    pub closed spec fn window_visible(&self, fm: FunctionMode) -> bool {
        &&& bit_of(self.lcdc, 5) == 1
        &&& self.bg_enabled(fm)
        &&& self.wy <= self.ly
        &&& self.wx <= 166
    }

    /// First screen column of the window: WX - 7, with WX below 7 taken as 7.
    pub closed spec fn window_start(&self) -> int {
        if self.wx < 7 {
            0
        } else {
            self.wx - 7
        }
    }

    /// Colour number and attribute of window pixel `i` of the current line.
    pub closed spec fn window_pixel(&self, fm: FunctionMode, i: int) -> (int, u8) {
        let map_base = if bit_of(self.lcdc, 6) == 1 {
            0x1c00int
        } else {
            0x1800
        };
        self.map_pixel(fm, map_base, i - self.window_start(), self.window_line as int)
    }

    closed spec fn render_ready(&self) -> bool {
        &&& self.vram@.len() == VRAM_SIZE
        &&& self.oam@.len() == OAM_SIZE
        &&& self.pixel_data@.len() == FRAME_BYTES
        &&& self.bg_palette.wf()
        &&& self.obj_palette.wf()
        &&& self.ly < 144
    }

    /// Fields that the renderer leaves alone.
    closed spec fn render_frame(&self, other: &Ppu) -> bool {
        &&& *self == Ppu { pixel_data: self.pixel_data, window_line: self.window_line, ..*other }
        &&& self.pixel_data@.len() == other.pixel_data@.len()
    }

    fn set_pixel(&mut self, p: usize, c: Rgb)
        requires
            old(self).pixel_data@.len() == FRAME_BYTES,
            p < SCREEN_WIDTH * SCREEN_HEIGHT,
        ensures
            final(self).render_frame(old(self)),
            final(self).window_line == old(self).window_line,
            shows(final(self).pixel_data@, p as int, c),
            forall|q: int|
                0 <= q < SCREEN_WIDTH * SCREEN_HEIGHT && q != p ==> same_pixel(
                    final(self).pixel_data@,
                    old(self).pixel_data@,
                    q,
                ),
    {
        self.pixel_data.set(4 * p, c.r);
        self.pixel_data.set(4 * p + 1, c.g);
        self.pixel_data.set(4 * p + 2, c.b);
        self.pixel_data.set(4 * p + 3, 0xff);
    }

    fn map_pixel_exec(&self, fm: FunctionMode, map_base: usize, x: u8, y: u8) -> (r: (u8, u8))
        requires
            self.render_ready(),
            map_base == 0x1800 || map_base == 0x1c00,
        ensures
            r.0 as int == self.map_pixel(fm, map_base as int, x as int, y as int).0,
            r.1 == self.map_pixel(fm, map_base as int, x as int, y as int).1,
            r.0 < 4,
    {
        let map_addr = map_base + (y as usize / 8) * 32 + x as usize / 8;
        let tile = self.vram[map_addr];
        let attr = if fm == FunctionMode::Color {
            self.vram[0x2000 + map_addr]
        } else {
            0u8
        };
        let line = (y as usize % 8) * 2;
        let row = if bit(attr, 6) == 1 {
            14 - line
        } else {
            line
        };
        let bank: usize = if bit(attr, 3) == 1 {
            0x2000
        } else {
            0
        };
        let offset: usize = if bit(self.lcdc, 4) == 1 || tile >= 128 {
            tile as usize * 16
        } else {
            0x1000 + tile as usize * 16
        };
        let addr = bank + offset + row;
        let b: u8 = if bit(attr, 5) == 1 {
            x % 8
        } else {
            7 - x % 8
        };
        (bit(self.vram[addr + 1], b) * 2 + bit(self.vram[addr], b), attr)
    }

    fn bg_color_exec(&self, fm: FunctionMode, idx: u8, attr: u8) -> (r: Rgb)
        requires
            self.bg_palette.wf(),
            idx < 4,
        ensures
            r == self.bg_color(fm, idx as int, attr),
    {
        match fm {
            FunctionMode::Monochrome => self.monochrome_palette_colors.get_color(
                shade(self.bgp, idx),
            ),
            FunctionMode::Compatibility => self.bg_palette.get_color(0, shade(self.bgp, idx)),
            FunctionMode::Color => self.bg_palette.get_color(attr % 8, idx),
        }
    }

    fn priority_exec(idx: u8, attr: u8) -> (r: PixelPriority)
        ensures
            r == Self::bg_priority_of(idx as int, attr),
    {
        if idx == 0 {
            PixelPriority::SpritesOnTop
        } else if bit(attr, 7) == 1 {
            PixelPriority::BackgroundOnTop
        } else {
            PixelPriority::Normal
        }
    }

    /// Draws the background of the current line and records each pixel's
    /// priority against sprites.
    #[verifier::spinoff_prover]
    #[verifier::rlimit(50)]
    fn draw_background(&mut self, fm: FunctionMode, bg_priority: &mut Vec<PixelPriority>)
        requires
            old(self).render_ready(),
            old(bg_priority)@.len() == SCREEN_WIDTH,
        ensures
            final(self).render_frame(old(self)),
            final(self).window_line == old(self).window_line,
            final(bg_priority)@.len() == SCREEN_WIDTH,
            forall|i: int|
                #![trigger old(self).bg_pixel(fm, i)]
                #![trigger final(bg_priority)@[i]]
                0 <= i < SCREEN_WIDTH ==> {
                    let (idx, attr) = old(self).bg_pixel(fm, i);
                    &&& shows(
                        final(self).pixel_data@,
                        old(self).ly * SCREEN_WIDTH + i,
                        old(self).bg_color(fm, idx, attr),
                    )
                    &&& final(bg_priority)@[i] == Self::bg_priority_of(idx, attr)
                },
            forall|q: int|
                0 <= q < SCREEN_WIDTH * SCREEN_HEIGHT && !(old(self).ly * SCREEN_WIDTH <= q
                    < old(self).ly * SCREEN_WIDTH + SCREEN_WIDTH) ==> same_pixel(
                    final(self).pixel_data@,
                    old(self).pixel_data@,
                    q,
                ),
    {
        let ghost s0 = *self;
        let enabled = fm == FunctionMode::Color || bit(self.lcdc, 0) == 1;
        let map_base: usize = if bit(self.lcdc, 3) == 1 {
            0x1c00
        } else {
            0x1800
        };
        let y = self.ly.wrapping_add(self.scy);
        let base = self.ly as usize * SCREEN_WIDTH;
        let mut i: usize = 0;
        while i < SCREEN_WIDTH
            invariant
                i <= SCREEN_WIDTH,
                base == s0.ly * SCREEN_WIDTH,
                s0.render_ready(),
                self.render_frame(&s0),
                self.window_line == s0.window_line,
                enabled == s0.bg_enabled(fm),
                map_base == (if bit_of(s0.lcdc, 3) == 1 { 0x1c00int } else { 0x1800 }),
                y == (s0.ly + s0.scy) % 256,
                bg_priority@.len() == SCREEN_WIDTH,
                forall|j: int|
                    #![trigger s0.bg_pixel(fm, j)]
                    #![trigger bg_priority@[j]]
                    0 <= j < i ==> {
                        let (idx, attr) = s0.bg_pixel(fm, j);
                        &&& shows(self.pixel_data@, base + j, s0.bg_color(fm, idx, attr))
                        &&& bg_priority@[j] == Self::bg_priority_of(idx, attr)
                    },
                forall|q: int|
                    0 <= q < SCREEN_WIDTH * SCREEN_HEIGHT && !(base <= q < base + i)
                        ==> same_pixel(self.pixel_data@, s0.pixel_data@, q),
            decreases SCREEN_WIDTH - i,
        {
            let (idx, attr) = if enabled {
                let x = (i as u8).wrapping_add(self.scx);
                assert(x == (i + s0.scx) % 256);
                self.map_pixel_exec(fm, map_base, x, y)
            } else {
                (0u8, 0u8)
            };
            assert((idx as int, attr) == s0.bg_pixel(fm, i as int));
            let color = self.bg_color_exec(fm, idx, attr);
            assert(color == s0.bg_color(fm, idx as int, attr));
            let ghost before = self.pixel_data@;
            self.set_pixel(base + i, color);
            bg_priority.set(i, Self::priority_exec(idx, attr));
            proof {
                assert forall|q: int|
                    0 <= q < SCREEN_WIDTH * SCREEN_HEIGHT && !(base <= q < base + i + 1) implies same_pixel(
                    self.pixel_data@,
                    s0.pixel_data@,
                    q,
                ) by {
                    assert(same_pixel(self.pixel_data@, before, q));
                    assert(same_pixel(before, s0.pixel_data@, q));
                }
                assert forall|j: int| 0 <= j < i implies shows(
                    self.pixel_data@,
                    base + j,
                    s0.bg_color(fm, s0.bg_pixel(fm, j).0, s0.bg_pixel(fm, j).1),
                ) by {
                    assert(same_pixel(self.pixel_data@, before, base + j));
                }
            }
            i = i + 1;
        }
    }

    /// Draws the window over the current line, if it shows there, and counts
    /// the line in the window's own line counter.
    #[verifier::spinoff_prover]
    fn draw_window(&mut self, fm: FunctionMode, bg_priority: &mut Vec<PixelPriority>)
        requires
            old(self).render_ready(),
            old(bg_priority)@.len() == SCREEN_WIDTH,
        ensures
            final(self).render_frame(old(self)),
            final(bg_priority)@.len() == SCREEN_WIDTH,
            final(self).window_line == if old(self).window_visible(fm) {
                ((old(self).window_line + 1) % 256) as u8
            } else {
                old(self).window_line
            },
            forall|i: int|
                #![trigger old(self).window_pixel(fm, i)]
                #![trigger final(bg_priority)@[i]]
                0 <= i < SCREEN_WIDTH ==> if old(self).window_visible(fm) && i >= old(
                    self,
                ).window_start() {
                    let (idx, attr) = old(self).window_pixel(fm, i);
                    &&& shows(
                        final(self).pixel_data@,
                        old(self).ly * SCREEN_WIDTH + i,
                        old(self).bg_color(fm, idx, attr),
                    )
                    &&& final(bg_priority)@[i] == Self::bg_priority_of(idx, attr)
                } else {
                    &&& same_pixel(
                        final(self).pixel_data@,
                        old(self).pixel_data@,
                        old(self).ly * SCREEN_WIDTH + i,
                    )
                    &&& final(bg_priority)@[i] == old(bg_priority)@[i]
                },
            forall|q: int|
                0 <= q < SCREEN_WIDTH * SCREEN_HEIGHT && !(old(self).ly * SCREEN_WIDTH <= q
                    < old(self).ly * SCREEN_WIDTH + SCREEN_WIDTH) ==> same_pixel(
                    final(self).pixel_data@,
                    old(self).pixel_data@,
                    q,
                ),
    {
        let ghost s0 = *self;
        let ghost prio0 = bg_priority@;
        assert(prio0.len() == SCREEN_WIDTH);
        let visible = bit(self.lcdc, 5) == 1 && (fm == FunctionMode::Color || bit(self.lcdc, 0)
            == 1) && self.wy <= self.ly && self.wx <= 166;
        if !visible {
            return;
        }
        let map_base: usize = if bit(self.lcdc, 6) == 1 {
            0x1c00
        } else {
            0x1800
        };
        let start: usize = if self.wx < 7 {
            0
        } else {
            self.wx as usize - 7
        };
        let y = self.window_line;
        let base = self.ly as usize * SCREEN_WIDTH;
        let mut i: usize = start;
        while i < SCREEN_WIDTH
            invariant
                start <= i <= SCREEN_WIDTH,
                start == s0.window_start(),
                base == s0.ly * SCREEN_WIDTH,
                s0.render_ready(),
                s0.window_visible(fm),
                self.render_frame(&s0),
                self.window_line == s0.window_line,
                y == s0.window_line,
                prio0.len() == SCREEN_WIDTH,
                map_base == (if bit_of(s0.lcdc, 6) == 1 { 0x1c00int } else { 0x1800 }),
                bg_priority@.len() == SCREEN_WIDTH,
                forall|j: int|
                    #![trigger s0.window_pixel(fm, j)]
                    #![trigger bg_priority@[j]]
                    0 <= j < SCREEN_WIDTH ==> if start <= j < i {
                        let (idx, attr) = s0.window_pixel(fm, j);
                        &&& shows(self.pixel_data@, base + j, s0.bg_color(fm, idx, attr))
                        &&& bg_priority@[j] == Self::bg_priority_of(idx, attr)
                    } else {
                        &&& same_pixel(self.pixel_data@, s0.pixel_data@, base + j)
                        &&& bg_priority@[j] == prio0[j]
                    },
                forall|q: int|
                    0 <= q < SCREEN_WIDTH * SCREEN_HEIGHT && !(base <= q < base + SCREEN_WIDTH)
                        ==> same_pixel(self.pixel_data@, s0.pixel_data@, q),
            decreases SCREEN_WIDTH - i,
        {
            let (idx, attr) = self.map_pixel_exec(fm, map_base, (i - start) as u8, y);
            let color = self.bg_color_exec(fm, idx, attr);
            let ghost before = self.pixel_data@;
            let ghost prio_before = bg_priority@;
            self.set_pixel(base + i, color);
            bg_priority.set(i, Self::priority_exec(idx, attr));
            proof {
                assert forall|q: int|
                    0 <= q < SCREEN_WIDTH * SCREEN_HEIGHT && !(base <= q < base + SCREEN_WIDTH) implies same_pixel(
                    self.pixel_data@,
                    s0.pixel_data@,
                    q,
                ) by {
                    assert(same_pixel(self.pixel_data@, before, q));
                    assert(same_pixel(before, s0.pixel_data@, q));
                }
                assert forall|j: int|
                    #![trigger bg_priority@[j]]
                    0 <= j < SCREEN_WIDTH && !(start <= j < i + 1) implies same_pixel(
                    self.pixel_data@,
                    s0.pixel_data@,
                    base + j,
                ) by {
                    assert(same_pixel(self.pixel_data@, before, base + j));
                    assert(prio_before[j] == prio0[j]);
                    assert(same_pixel(before, s0.pixel_data@, base + j));
                }
                assert forall|j: int| start <= j < i implies shows(
                    self.pixel_data@,
                    base + j,
                    s0.bg_color(fm, s0.window_pixel(fm, j).0, s0.window_pixel(fm, j).1),
                ) by {
                    assert(prio_before[j] == Self::bg_priority_of(
                        s0.window_pixel(fm, j).0,
                        s0.window_pixel(fm, j).1,
                    ));
                    assert(same_pixel(self.pixel_data@, before, base + j));
                }
            }
            i = i + 1;
        }
        self.window_line = self.window_line.wrapping_add(1);
    }
}


/// The first ten items of `s`, or all of them if there are fewer.
pub open spec fn take10(s: Seq<u16>) -> Seq<u16> {
    if s.len() <= MAX_SPRITES_PER_LINE {
        s
    } else {
        s.subrange(0, MAX_SPRITES_PER_LINE as int)
    }
}

pub open spec fn sprite_height(lcdc: u8) -> int {
    if bit_of(lcdc, 2) == 1 {
        16
    } else {
        8
    }
}

impl Ppu {
    /// The row of sprite `k` (0..40) that the current line crosses, counted
    /// from the sprite's top, if it is below the sprite's height.
    pub closed spec fn sprite_row(&self, k: int) -> int {
        (self.ly + 16 - self.oam@[4 * k]) % 256
    }

    /// Sprite `k` has a row on the current line.
    pub closed spec fn covers(&self, k: int) -> bool {
        self.sprite_row(k) < sprite_height(self.lcdc)
    }

    /// Sprites are ranked by X coordinate (DMG modes, or OPRI bit 0 set)
    /// rather than by OAM position alone.
    pub closed spec fn x_priority(&self, fm: FunctionMode) -> bool {
        fm != FunctionMode::Color || self.opri % 2 == 1
    }

    /// Rank of sprite `k`: the sprite with the smaller key is drawn on top.
    /// The key's low byte is `k`.
    pub closed spec fn sprite_key(&self, fm: FunctionMode, k: int) -> int {
        if self.x_priority(fm) {
            self.oam@[4 * k + 1] * 256 + k
        } else {
            k
        }
    }

    /// Keys of the sprites among the first `n` in OAM that cover the current
    /// line, in OAM order.
    pub closed spec fn covering_keys(&self, fm: FunctionMode, n: int) -> Seq<u16>
        decreases n,
    {
        if n <= 0 {
            Seq::empty()
        } else {
            let prev = self.covering_keys(fm, n - 1);
            if self.covers(n - 1) {
                prev.push(self.sprite_key(fm, n - 1) as u16)
            } else {
                prev
            }
        }
    }

    /// Keys of the sprites the current line shows: the first ten in OAM order
    /// that cover it.
    pub closed spec fn selected_keys(&self, fm: FunctionMode) -> Seq<u16> {
        take10(self.covering_keys(fm, 40))
    }

    /// Colour number of sprite `k` at screen column `t`; 0 off the sprite.
    pub closed spec fn sprite_pixel(&self, fm: FunctionMode, k: int, t: int) -> int {
        let j = t + 8 - self.oam@[4 * k + 1];
        if 0 <= j < 8 {
            let h = sprite_height(self.lcdc);
            let flags = self.oam@[4 * k + 3];
            let tile = if h == 16 {
                self.oam@[4 * k + 2] - self.oam@[4 * k + 2] % 2
            } else {
                self.oam@[4 * k + 2] as int
            };
            let row = if bit_of(flags, 6) == 1 {
                h - 1 - self.sprite_row(k)
            } else {
                self.sprite_row(k)
            };
            let bank = if fm == FunctionMode::Color && bit_of(flags, 3) == 1 {
                0x2000int
            } else {
                0
            };
            let addr = bank + tile * 16 + row * 2;
            let bit = if bit_of(flags, 5) == 1 {
                j
            } else {
                7 - j
            };
            bit_of(self.vram@[addr + 1], bit) * 2 + bit_of(self.vram@[addr], bit)
        } else {
            0
        }
    }

    /// In CGB mode with LCDC bit 0 clear, sprites are drawn over everything.
    pub closed spec fn master_priority(&self, fm: FunctionMode) -> bool {
        fm == FunctionMode::Color && bit_of(self.lcdc, 0) == 0
    }

    /// Sprite `k` puts a pixel at column `t` over a background pixel of
    /// priority `p`.
    pub closed spec fn sprite_writes(&self, fm: FunctionMode, k: int, t: int, p: PixelPriority) -> bool {
        let flags = self.oam@[4 * k + 3];
        &&& 0 <= t < SCREEN_WIDTH
        &&& self.sprite_pixel(fm, k, t) != 0
        &&& (self.master_priority(fm) || !(p == PixelPriority::BackgroundOnTop || (bit_of(flags, 7)
            == 1 && p == PixelPriority::Normal)))
    }

    /// The colour of sprite `k` at column `t`.
    pub closed spec fn sprite_color(&self, fm: FunctionMode, k: int, t: int) -> Rgb {
        let flags = self.oam@[4 * k + 3];
        let idx = self.sprite_pixel(fm, k, t);
        let dmg = if bit_of(flags, 4) == 1 {
            self.obp1
        } else {
            self.obp0
        };
        match fm {
            FunctionMode::Monochrome => self.monochrome_palette_colors.color(shade_of(dmg, idx)),
            FunctionMode::Compatibility => palette_color(
                self.obj_palette.bytes(),
                0,
                shade_of(dmg, idx),
            ),
            FunctionMode::Color => palette_color(self.obj_palette.bytes(), flags as int % 8, idx),
        }
    }

    /// Whether a sprite with key in `keys` writes column `t`.
    pub closed spec fn any_writer(
        &self,
        fm: FunctionMode,
        keys: Seq<u16>,
        t: int,
        p: PixelPriority,
    ) -> bool {
        exists|key: u16| keys.contains(key) && self.sprite_writes(fm, key as int % 256, t, p)
    }

    /// Column `t` shows the sprite with the smallest key among those in
    /// `keys` that write it.
    pub closed spec fn shows_top_sprite(
        &self,
        fm: FunctionMode,
        keys: Seq<u16>,
        t: int,
        p: PixelPriority,
        frame: Seq<u8>,
    ) -> bool {
        exists|key: u16|
            #![trigger keys.contains(key)]
            {
                &&& keys.contains(key)
                &&& self.sprite_writes(fm, key as int % 256, t, p)
                &&& forall|k2: u16|
                    keys.contains(k2) && self.sprite_writes(fm, k2 as int % 256, t, p) ==> key
                        <= k2
                &&& shows(frame, self.ly * SCREEN_WIDTH + t, self.sprite_color(fm, key as int % 256, t))
            }
    }

    /// Column `t` of the current line in `frame` is as it should be once the
    /// first `drawn` columns of sprite `k` have been drawn.
    closed spec fn sprite_column(
        &self,
        fm: FunctionMode,
        k: int,
        prio: Seq<PixelPriority>,
        frame: Seq<u8>,
        t: int,
        drawn: int,
    ) -> bool {
        if t + 8 - self.oam@[4 * k + 1] < drawn && self.sprite_writes(fm, k, t, prio[t]) {
            shows(frame, self.ly * SCREEN_WIDTH + t, self.sprite_color(fm, k, t))
        } else {
            same_pixel(frame, self.pixel_data@, self.ly * SCREEN_WIDTH + t)
        }
    }

    fn covers_exec(&self, k: usize) -> (r: bool)
        requires
            self.render_ready(),
            k < 40,
        ensures
            r == self.covers(k as int),
    {
        let row = self.ly.wrapping_add(16).wrapping_sub(self.oam[4 * k]);
        let h: u8 = if bit(self.lcdc, 2) == 1 {
            16
        } else {
            8
        };
        row < h
    }

    /// Draws sprite `k` on the current line.
    #[verifier::spinoff_prover]
    fn draw_sprite(&mut self, fm: FunctionMode, k: usize, bg_priority: &Vec<PixelPriority>)
        requires
            old(self).render_ready(),
            k < 40,
            old(self).covers(k as int),
            bg_priority@.len() == SCREEN_WIDTH,
        ensures
            final(self).render_frame(old(self)),
            final(self).window_line == old(self).window_line,
            forall|t: int|
                #![trigger bg_priority@[t]]
                0 <= t < SCREEN_WIDTH ==> if old(self).sprite_writes(fm, k as int, t, bg_priority@[t]) {
                    shows(
                        final(self).pixel_data@,
                        old(self).ly * SCREEN_WIDTH + t,
                        old(self).sprite_color(fm, k as int, t),
                    )
                } else {
                    same_pixel(
                        final(self).pixel_data@,
                        old(self).pixel_data@,
                        old(self).ly * SCREEN_WIDTH + t,
                    )
                },
            forall|q: int|
                0 <= q < SCREEN_WIDTH * SCREEN_HEIGHT && !(old(self).ly * SCREEN_WIDTH <= q
                    < old(self).ly * SCREEN_WIDTH + SCREEN_WIDTH) ==> same_pixel(
                    final(self).pixel_data@,
                    old(self).pixel_data@,
                    q,
                ),
    {
        let ghost s0 = *self;
        let ghost prio = bg_priority@;
        let large = bit(self.lcdc, 2) == 1;
        let h: u8 = if large {
            16
        } else {
            8
        };
        let y = self.oam[4 * k];
        let x = self.oam[4 * k + 1];
        let tile_index = self.oam[4 * k + 2];
        let flags = self.oam[4 * k + 3];
        let tile: usize = if large {
            (tile_index - tile_index % 2) as usize
        } else {
            tile_index as usize
        };
        let row0 = self.ly.wrapping_add(16).wrapping_sub(y);
        let row: usize = if bit(flags, 6) == 1 {
            (h - 1 - row0) as usize
        } else {
            row0 as usize
        };
        let bank: usize = if fm == FunctionMode::Color && bit(flags, 3) == 1 {
            0x2000
        } else {
            0
        };
        let addr = bank + tile * 16 + row * 2;
        let lo = self.vram[addr];
        let hi = self.vram[addr + 1];
        let master = fm == FunctionMode::Color && bit(self.lcdc, 0) == 0;
        let behind_bg = bit(flags, 7) == 1;
        let dmg_palette = if bit(flags, 4) == 1 {
            self.obp1
        } else {
            self.obp0
        };
        let base = self.ly as usize * SCREEN_WIDTH;
        let mut j: u8 = 0;
        while j < 8
            invariant
                j <= 8,
                s0.render_ready(),
                s0.covers(k as int),
                k < 40,
                self.render_frame(&s0),
                self.window_line == s0.window_line,
                base == s0.ly * SCREEN_WIDTH,
                prio.len() == SCREEN_WIDTH,
                prio == bg_priority@,
                x == s0.oam@[4 * k + 1],
                flags == s0.oam@[4 * k + 3],
                master == s0.master_priority(fm),
                behind_bg == (bit_of(flags, 7) == 1),
                dmg_palette == (if bit_of(flags, 4) == 1 { s0.obp1 } else { s0.obp0 }),
                addr == (if fm == FunctionMode::Color && bit_of(flags, 3) == 1 {
                    0x2000int
                } else {
                    0
                }) + (if sprite_height(s0.lcdc) == 16 {
                    s0.oam@[4 * k + 2] - s0.oam@[4 * k + 2] % 2
                } else {
                    s0.oam@[4 * k + 2] as int
                }) * 16 + (if bit_of(flags, 6) == 1 {
                    sprite_height(s0.lcdc) - 1 - s0.sprite_row(k as int)
                } else {
                    s0.sprite_row(k as int)
                }) * 2,
                addr + 1 < VRAM_SIZE,
                lo == s0.vram@[addr as int],
                hi == s0.vram@[addr + 1],
                forall|t: int|
                    0 <= t < SCREEN_WIDTH ==> #[trigger] s0.sprite_column(
                        fm,
                        k as int,
                        prio,
                        self.pixel_data@,
                        t,
                        j as int,
                    ),
                forall|q: int|
                    0 <= q < SCREEN_WIDTH * SCREEN_HEIGHT && !(base <= q < base + SCREEN_WIDTH)
                        ==> same_pixel(self.pixel_data@, s0.pixel_data@, q),
            decreases 8 - j,
        {
            let t: i32 = x as i32 - 8 + j as i32;
            let ghost frame_before = self.pixel_data@;
            if 0 <= t && t < SCREEN_WIDTH as i32 {
                let b = if bit(flags, 5) == 1 {
                    j
                } else {
                    7 - j
                };
                let idx = bit(hi, b) * 2 + bit(lo, b);
                let p = bg_priority[t as usize];
                let hidden = !master && (p == PixelPriority::BackgroundOnTop || (behind_bg && p
                    == PixelPriority::Normal));
                if idx != 0 && !hidden {
                    let color = match fm {
                        FunctionMode::Monochrome => self.monochrome_palette_colors.get_color(
                            shade(dmg_palette, idx),
                        ),
                        FunctionMode::Compatibility => self.obj_palette.get_color(
                            0,
                            shade(dmg_palette, idx),
                        ),
                        FunctionMode::Color => self.obj_palette.get_color(flags % 8, idx),
                    };
                    let ghost before = self.pixel_data@;
                    proof {
                        assert(s0.sprite_pixel(fm, k as int, t as int) == idx);
                        assert(color == s0.sprite_color(fm, k as int, t as int));
                    }
                    self.set_pixel(base + t as usize, color);
                    proof {
                        assert forall|q: int|
                            0 <= q < SCREEN_WIDTH * SCREEN_HEIGHT && !(base <= q < base
                                + SCREEN_WIDTH) implies same_pixel(
                            self.pixel_data@,
                            s0.pixel_data@,
                            q,
                        ) by {
                            assert(same_pixel(self.pixel_data@, before, q));
                            assert(same_pixel(before, s0.pixel_data@, q));
                        }
                        assert forall|u: int|
                            #![trigger prio[u]]
                            0 <= u < SCREEN_WIDTH && u != t implies same_pixel(
                            self.pixel_data@,
                            before,
                            base + u,
                        ) by {}
                    }
                }
                proof {
                    assert(s0.sprite_pixel(fm, k as int, t as int) == idx);
                    assert(s0.sprite_writes(fm, k as int, t as int, prio[t as int]) == (idx
                        != 0 && !hidden));
                }
            }
            proof {
                assert forall|u: int|
                    #![trigger prio[u]]
                    0 <= u < SCREEN_WIDTH && u != t implies same_pixel(
                    self.pixel_data@,
                    frame_before,
                    base + u,
                ) by {}
                assert forall|u: int| 0 <= u < SCREEN_WIDTH implies #[trigger] s0.sprite_column(
                    fm,
                    k as int,
                    prio,
                    self.pixel_data@,
                    u,
                    j + 1,
                ) by {
                    assert(s0.sprite_column(fm, k as int, prio, frame_before, u, j as int));
                    if u != t {
                        assert(same_pixel(self.pixel_data@, frame_before, base + u));
                    }
                }
            }
            j = j + 1;
        }
        proof {
            assert forall|t: int|
                #![trigger bg_priority@[t]]
                0 <= t < SCREEN_WIDTH implies (if s0.sprite_writes(fm, k as int, t, bg_priority@[t]) {
                shows(self.pixel_data@, base + t, s0.sprite_color(fm, k as int, t))
            } else {
                same_pixel(self.pixel_data@, s0.pixel_data@, base + t)
            }) by {
                assert(s0.sprite_column(fm, k as int, prio, self.pixel_data@, t, 8));
            }
        }
    }
}


impl Ppu {
    /// Column `t` of `frame` once the sprites with keys `keys[lo..]` have been
    /// drawn, last key first: it shows the first of them that writes it.
    closed spec fn sprites_column(
        &self,
        fm: FunctionMode,
        keys: Seq<u16>,
        lo: int,
        prio: Seq<PixelPriority>,
        frame: Seq<u8>,
        t: int,
    ) -> bool {
        if exists|m: int|
            lo <= m < keys.len() && #[trigger] self.sprite_writes(fm, keys[m] as int % 256, t, prio[t]) {
            exists|m: int|
                #![trigger keys[m]]
                {
                    &&& lo <= m < keys.len()
                    &&& self.sprite_writes(fm, keys[m] as int % 256, t, prio[t])
                    &&& forall|m2: int|
                        lo <= m2 < m ==> !#[trigger] self.sprite_writes(
                            fm,
                            keys[m2] as int % 256,
                            t,
                            prio[t],
                        )
                    &&& shows(
                        frame,
                        self.ly * SCREEN_WIDTH + t,
                        self.sprite_color(fm, keys[m] as int % 256, t),
                    )
                }
        } else {
            same_pixel(frame, self.pixel_data@, self.ly * SCREEN_WIDTH + t)
        }
    }

    /// Every key in the list names a sprite (its low byte) that covers the line.
    proof fn lemma_covering_keys(&self, fm: FunctionMode, n: int)
        requires
            self.oam@.len() == OAM_SIZE,
            0 <= n <= 40,
        ensures
            forall|i: int|
                0 <= i < self.covering_keys(fm, n).len() ==> {
                    let key = #[trigger] self.covering_keys(fm, n)[i] as int;
                    &&& key % 256 < 40
                    &&& self.covers(key % 256)
                    &&& key == self.sprite_key(fm, key % 256)
                },
        decreases n,
    {
        if n > 0 {
            self.lemma_covering_keys(fm, n - 1);
            let k = n - 1;
            let key = self.sprite_key(fm, k);
            if self.x_priority(fm) {
                lemma_mod_multiples_vanish(self.oam@[4 * k + 1] as int, k, 256);
            }
            lemma_small_mod_nat(k as nat, 256);
            assert(key % 256 == k);
            assert(0 <= key < 65536);
            let prev = self.covering_keys(fm, n - 1);
            if self.covers(k) {
                let c = prev.push(key as u16);
                assert(c[c.len() - 1] as int == key);
                assert forall|i: int| 0 <= i < c.len() implies {
                    let key2 = #[trigger] c[i] as int;
                    &&& key2 % 256 < 40
                    &&& self.covers(key2 % 256)
                    &&& key2 == self.sprite_key(fm, key2 % 256)
                } by {
                    if i < prev.len() {
                        assert(c[i] == prev[i]);
                    }
                }
            }
        }
    }

    /// Draws the sprites of the current line: the first ten in OAM order that
    /// cover it, each column showing the one with the smallest key that puts
    /// a visible pixel there.
    #[verifier::spinoff_prover]
    fn draw_sprites(&mut self, fm: FunctionMode, bg_priority: &Vec<PixelPriority>)
        requires
            old(self).render_ready(),
            bg_priority@.len() == SCREEN_WIDTH,
        ensures
            final(self).render_frame(old(self)),
            final(self).window_line == old(self).window_line,
            forall|t: int|
                #![trigger bg_priority@[t]]
                0 <= t < SCREEN_WIDTH ==> if bit_of(old(self).lcdc, 1) == 1 && old(
                    self,
                ).any_writer(fm, old(self).selected_keys(fm), t, bg_priority@[t]) {
                    old(self).shows_top_sprite(
                        fm,
                        old(self).selected_keys(fm),
                        t,
                        bg_priority@[t],
                        final(self).pixel_data@,
                    )
                } else {
                    same_pixel(
                        final(self).pixel_data@,
                        old(self).pixel_data@,
                        old(self).ly * SCREEN_WIDTH + t,
                    )
                },
            forall|q: int|
                0 <= q < SCREEN_WIDTH * SCREEN_HEIGHT && !(old(self).ly * SCREEN_WIDTH <= q
                    < old(self).ly * SCREEN_WIDTH + SCREEN_WIDTH) ==> same_pixel(
                    final(self).pixel_data@,
                    old(self).pixel_data@,
                    q,
                ),
    {
        let ghost s0 = *self;
        let ghost prio = bg_priority@;
        if bit(self.lcdc, 1) == 0 {
            return;
        }
        let x_priority = fm != FunctionMode::Color || self.opri % 2 == 1;
        let mut list = new_sprite_list();
        let mut k: usize = 0;
        while k < 40
            invariant
                k <= 40,
                *self == s0,
                s0.render_ready(),
                x_priority == s0.x_priority(fm),
                sprite_keys(list) == take10(s0.covering_keys(fm, k as int)),
            decreases 40 - k,
        {
            let ghost c = s0.covering_keys(fm, k as int);
            if self.covers_exec(k) {
                let key: u16 = if x_priority {
                    self.oam[4 * k + 1] as u16 * 256 + k as u16
                } else {
                    k as u16
                };
                if sprite_count(&list) < MAX_SPRITES_PER_LINE {
                    push_sprite(&mut list, key);
                }
                proof {
                    assert(s0.covering_keys(fm, k + 1) == c.push(key));
                    if c.len() >= 10 {
                        assert(c.push(key).subrange(0, 10) =~= c.subrange(0, 10));
                    }
                }
            }
            k = k + 1;
        }
        let ghost unsorted = sprite_keys(list);
        sort_sprites(&mut list);
        let ghost keys = sprite_keys(list);
        proof {
            s0.lemma_covering_keys(fm, 40);
            let c = s0.covering_keys(fm, 40);
            assert forall|i: int| 0 <= i < keys.len() implies {
                let key = #[trigger] keys[i] as int;
                &&& key % 256 < 40
                &&& s0.covers(key % 256)
                &&& unsorted.contains(keys[i])
            } by {
                vstd::seq_lib::to_multiset_contains(keys, keys[i]);
                vstd::seq_lib::to_multiset_contains(unsorted, keys[i]);
                assert(keys.contains(keys[i]));
                let m = choose|m: int| 0 <= m < unsorted.len() && unsorted[m] == keys[i];
                assert(unsorted[m] == c[m]);
            }
        }
        let n = sprite_count(&list);
        let base = self.ly as usize * SCREEN_WIDTH;
        let mut j: usize = n;
        while j > 0
            invariant
                j <= n,
                n == keys.len(),
                keys == sprite_keys(list),
                base == s0.ly * SCREEN_WIDTH,
                s0.render_ready(),
                self.render_frame(&s0),
                self.window_line == s0.window_line,
                prio == bg_priority@,
                prio.len() == SCREEN_WIDTH,
                forall|i: int|
                    0 <= i < keys.len() ==> (#[trigger] keys[i] as int) % 256 < 40 && s0.covers(
                        keys[i] as int % 256,
                    ),
                forall|t: int|
                    0 <= t < SCREEN_WIDTH ==> #[trigger] s0.sprites_column(
                        fm,
                        keys,
                        j as int,
                        prio,
                        self.pixel_data@,
                        t,
                    ),
                forall|q: int|
                    0 <= q < SCREEN_WIDTH * SCREEN_HEIGHT && !(base <= q < base + SCREEN_WIDTH)
                        ==> same_pixel(self.pixel_data@, s0.pixel_data@, q),
            decreases j,
        {
            j = j - 1;
            let key = sprite_at(&list, j);
            let sprite = (key % 256) as usize;
            let ghost frame_before = self.pixel_data@;
            let ghost cur = *self;
            assert(keys[j as int] as int % 256 < 40);
            self.draw_sprite(fm, sprite, bg_priority);
            proof {
                assert forall|q: int|
                    0 <= q < SCREEN_WIDTH * SCREEN_HEIGHT && !(base <= q < base + SCREEN_WIDTH) implies same_pixel(
                    self.pixel_data@,
                    s0.pixel_data@,
                    q,
                ) by {
                    assert(same_pixel(self.pixel_data@, frame_before, q));
                    assert(same_pixel(frame_before, s0.pixel_data@, q));
                }
                assert forall|t: int| 0 <= t < SCREEN_WIDTH implies #[trigger] s0.sprites_column(
                    fm,
                    keys,
                    j as int,
                    prio,
                    self.pixel_data@,
                    t,
                ) by {
                    assert(s0.sprites_column(fm, keys, j + 1, prio, frame_before, t));
                    assert(cur.sprite_writes(fm, sprite as int, t, prio[t]) == s0.sprite_writes(
                        fm,
                        sprite as int,
                        t,
                        prio[t],
                    ));
                    assert(cur.sprite_color(fm, sprite as int, t) == s0.sprite_color(
                        fm,
                        sprite as int,
                        t,
                    ));
                    assert(bg_priority@[t] == prio[t]);
                    if s0.sprite_writes(fm, sprite as int, t, prio[t]) {
                        assert(keys[j as int] as int % 256 == sprite);
                        assert(s0.sprite_writes(fm, keys[j as int] as int % 256, t, prio[t]));
                    } else {
                        assert(same_pixel(self.pixel_data@, frame_before, base + t));
                        if exists|m: int|
                            j + 1 <= m < keys.len() && #[trigger] s0.sprite_writes(
                                fm,
                                keys[m] as int % 256,
                                t,
                                prio[t],
                            ) {
                            let m = choose|m: int|
                                #![trigger keys[m]]
                                {
                                    &&& j + 1 <= m < keys.len()
                                    &&& s0.sprite_writes(fm, keys[m] as int % 256, t, prio[t])
                                    &&& forall|m2: int|
                                        j + 1 <= m2 < m ==> !#[trigger] s0.sprite_writes(
                                            fm,
                                            keys[m2] as int % 256,
                                            t,
                                            prio[t],
                                        )
                                    &&& shows(
                                        frame_before,
                                        s0.ly * SCREEN_WIDTH + t,
                                        s0.sprite_color(fm, keys[m] as int % 256, t),
                                    )
                                };
                            assert(forall|m2: int|
                                j <= m2 < m ==> !#[trigger] s0.sprite_writes(
                                    fm,
                                    keys[m2] as int % 256,
                                    t,
                                    prio[t],
                                ));
                        } else {
                            assert(!exists|m: int|
                                j <= m < keys.len() && #[trigger] s0.sprite_writes(
                                    fm,
                                    keys[m] as int % 256,
                                    t,
                                    prio[t],
                                ));
                        }
                    }
                }
            }
        }
        proof {
            let sel = s0.selected_keys(fm);
            assert(unsorted == sel);
            assert forall|t: int|
                #![trigger bg_priority@[t]]
                0 <= t < SCREEN_WIDTH implies (if s0.any_writer(fm, sel, t, bg_priority@[t]) {
                s0.shows_top_sprite(fm, sel, t, bg_priority@[t], self.pixel_data@)
            } else {
                same_pixel(self.pixel_data@, s0.pixel_data@, s0.ly * SCREEN_WIDTH + t)
            }) by {
                assert(s0.sprites_column(fm, keys, 0, prio, self.pixel_data@, t));
                assert(bg_priority@[t] == prio[t]);
                if s0.any_writer(fm, sel, t, prio[t]) {
                    let key = choose|key: u16|
                        sel.contains(key) && s0.sprite_writes(fm, key as int % 256, t, prio[t]);
                    vstd::seq_lib::to_multiset_contains(keys, key);
                    vstd::seq_lib::to_multiset_contains(sel, key);
                    let mk = choose|mk: int| 0 <= mk < keys.len() && keys[mk] == key;
                    assert(s0.sprite_writes(fm, keys[mk] as int % 256, t, prio[t]));
                    let m = choose|m: int|
                        #![trigger keys[m]]
                        {
                            &&& 0 <= m < keys.len()
                            &&& s0.sprite_writes(fm, keys[m] as int % 256, t, prio[t])
                            &&& forall|m2: int|
                                0 <= m2 < m ==> !#[trigger] s0.sprite_writes(
                                    fm,
                                    keys[m2] as int % 256,
                                    t,
                                    prio[t],
                                )
                            &&& shows(
                                self.pixel_data@,
                                s0.ly * SCREEN_WIDTH + t,
                                s0.sprite_color(fm, keys[m] as int % 256, t),
                            )
                        };
                    let top = keys[m];
                    vstd::seq_lib::to_multiset_contains(keys, top);
                    vstd::seq_lib::to_multiset_contains(sel, top);
                    assert(keys.contains(top));
                    assert forall|k2: u16|
                        sel.contains(k2) && s0.sprite_writes(
                            fm,
                            k2 as int % 256,
                            t,
                            prio[t],
                        ) implies top <= k2 by {
                        vstd::seq_lib::to_multiset_contains(keys, k2);
                        vstd::seq_lib::to_multiset_contains(sel, k2);
                        let m2 = choose|m2: int| 0 <= m2 < keys.len() && keys[m2] == k2;
                        assert(s0.sprite_writes(fm, keys[m2] as int % 256, t, prio[t]));
                        assert(m <= m2);
                    }
                    assert(sel.contains(top));
                } else {
                    if exists|m: int|
                        0 <= m < keys.len() && #[trigger] s0.sprite_writes(
                            fm,
                            keys[m] as int % 256,
                            t,
                            prio[t],
                        ) {
                        let m = choose|m: int|
                            0 <= m < keys.len() && #[trigger] s0.sprite_writes(
                                fm,
                                keys[m] as int % 256,
                                t,
                                prio[t],
                            );
                        vstd::seq_lib::to_multiset_contains(keys, keys[m]);
                        vstd::seq_lib::to_multiset_contains(sel, keys[m]);
                        assert(keys.contains(keys[m]));
                        assert(sel.contains(keys[m]));
                        assert(false);
                    }
                }
            }
        }
    }
}


impl Ppu {
    /// Colour number and attribute of the background or window pixel at
    /// column `t` of the current line.
    pub closed spec fn base_pixel(&self, fm: FunctionMode, t: int) -> (int, u8) {
        if self.window_visible(fm) && t >= self.window_start() {
            self.window_pixel(fm, t)
        } else {
            self.bg_pixel(fm, t)
        }
    }

    /// Column `t` of the current line in `frame` is as the three passes make it.
    pub closed spec fn line_pixel_ok(&self, fm: FunctionMode, frame: Seq<u8>, t: int) -> bool {
        let (idx, attr) = self.base_pixel(fm, t);
        let p = Self::bg_priority_of(idx, attr);
        if bit_of(self.lcdc, 1) == 1 && self.any_writer(fm, self.selected_keys(fm), t, p) {
            self.shows_top_sprite(fm, self.selected_keys(fm), t, p, frame)
        } else {
            shows(frame, self.ly * SCREEN_WIDTH + t, self.bg_color(fm, idx, attr))
        }
    }

    proof fn lemma_covering_keys_same(a: Ppu, b: Ppu, fm: FunctionMode, n: int)
        requires
            a.oam == b.oam,
            a.ly == b.ly,
            a.lcdc == b.lcdc,
            a.opri == b.opri,
        ensures
            a.covering_keys(fm, n) == b.covering_keys(fm, n),
        decreases n,
    {
        if n > 0 {
            Self::lemma_covering_keys_same(a, b, fm, n - 1);
        }
    }

    /// Composes one line of the frame: background, then window, then sprites.
    #[verifier::spinoff_prover]
    fn draw_scanline(&mut self, fm: FunctionMode)
        requires
            old(self).render_ready(),
        ensures
            final(self).render_frame(old(self)),
            final(self).window_line == if old(self).window_visible(fm) {
                ((old(self).window_line + 1) % 256) as u8
            } else {
                old(self).window_line
            },
            forall|t: int|
                0 <= t < SCREEN_WIDTH ==> #[trigger] old(self).line_pixel_ok(
                    fm,
                    final(self).pixel_data@,
                    t,
                ),
            forall|q: int|
                0 <= q < SCREEN_WIDTH * SCREEN_HEIGHT && !(old(self).ly * SCREEN_WIDTH <= q
                    < old(self).ly * SCREEN_WIDTH + SCREEN_WIDTH) ==> same_pixel(
                    final(self).pixel_data@,
                    old(self).pixel_data@,
                    q,
                ),
    {
        let ghost s0 = *self;
        let mut bg_priority: Vec<PixelPriority> = Vec::new();
        let mut i: usize = 0;
        while i < SCREEN_WIDTH
            invariant
                i <= SCREEN_WIDTH,
                bg_priority@.len() == i,
            decreases SCREEN_WIDTH - i,
        {
            bg_priority.push(PixelPriority::Normal);
            i = i + 1;
        }
        self.draw_background(fm, &mut bg_priority);
        let ghost s1 = *self;
        let ghost prio1 = bg_priority@;
        self.draw_window(fm, &mut bg_priority);
        let ghost s2 = *self;
        let ghost prio2 = bg_priority@;
        self.draw_sprites(fm, &bg_priority);
        proof {
            Self::lemma_covering_keys_same(s0, s2, fm, 40);
            assert(s0.selected_keys(fm) == s2.selected_keys(fm));
            assert forall|t: int| 0 <= t < SCREEN_WIDTH implies #[trigger] s0.line_pixel_ok(
                fm,
                self.pixel_data@,
                t,
            ) by {
                let base = s0.ly * SCREEN_WIDTH;
                assert(bg_priority@[t] == prio2[t]);
                let (idx, attr) = s0.base_pixel(fm, t);
                let p = Self::bg_priority_of(idx, attr);
                assert(s1.window_pixel(fm, t) == s0.window_pixel(fm, t));
                assert(s1.window_visible(fm) == s0.window_visible(fm));
                assert(s1.window_start() == s0.window_start());
                assert(s1.bg_color(fm, idx, attr) == s0.bg_color(fm, idx, attr));
                assert(prio2[t] == p);
                assert(shows(s2.pixel_data@, base + t, s0.bg_color(fm, idx, attr)));
                assert(s2.any_writer(fm, s2.selected_keys(fm), t, p) == s0.any_writer(
                    fm,
                    s0.selected_keys(fm),
                    t,
                    p,
                ));
                if bit_of(s0.lcdc, 1) == 1 && s0.any_writer(fm, s0.selected_keys(fm), t, p) {
                    assert(s2.shows_top_sprite(fm, s2.selected_keys(fm), t, p, self.pixel_data@)
                        == s0.shows_top_sprite(fm, s0.selected_keys(fm), t, p, self.pixel_data@));
                } else {
                    assert(same_pixel(self.pixel_data@, s2.pixel_data@, base + t));
                }
            }
            assert forall|q: int|
                0 <= q < SCREEN_WIDTH * SCREEN_HEIGHT && !(s0.ly * SCREEN_WIDTH <= q < s0.ly
                    * SCREEN_WIDTH + SCREEN_WIDTH) implies same_pixel(
                self.pixel_data@,
                s0.pixel_data@,
                q,
            ) by {
                assert(same_pixel(self.pixel_data@, s2.pixel_data@, q));
                assert(same_pixel(s2.pixel_data@, s1.pixel_data@, q));
                assert(same_pixel(s1.pixel_data@, s0.pixel_data@, q));
            }
        }
    }
}


/// The PPU registers as the CPU reads them.
#[derive(Debug, Clone, Copy, PartialEq, Eq, Structural)]
pub struct Registers {
    pub lcdc: u8,
    pub stat: u8,
    pub scy: u8,
    pub scx: u8,
    pub ly: u8,
    pub lyc: u8,
    pub bgp: u8,
    pub obp0: u8,
    pub obp1: u8,
    pub wy: u8,
    pub wx: u8,
}

impl Ppu {
    /// The register values, as `read` would return them.
    pub fn registers(&self) -> (r: Registers)
        requires
            self.wf(),
        ensures
            r.lcdc == self.register_value(PpuRegister::Lcdc),
            r.stat == self.register_value(PpuRegister::Stat),
            r.scy == self.register_value(PpuRegister::Scy),
            r.scx == self.register_value(PpuRegister::Scx),
            r.ly == self.register_value(PpuRegister::Ly),
            r.lyc == self.register_value(PpuRegister::Lyc),
            r.bgp == self.register_value(PpuRegister::Bgp),
            r.obp0 == self.register_value(PpuRegister::Obp0),
            r.obp1 == self.register_value(PpuRegister::Obp1),
            r.wy == self.register_value(PpuRegister::Wy),
            r.wx == self.register_value(PpuRegister::Wx),
    {
        Registers {
            lcdc: self.read_register(PpuRegister::Lcdc),
            stat: self.read_register(PpuRegister::Stat),
            scy: self.scy,
            scx: self.scx,
            ly: self.ly,
            lyc: self.lyc,
            bgp: self.bgp,
            obp0: self.obp0,
            obp1: self.obp1,
            wy: self.wy,
            wx: self.wx,
        }
    }
}

/// While pixels are drawn, no CPU write changes VRAM.
pub proof fn lemma_no_vram_write_while_drawing(p: Ppu, io: PpuIO, val: u8)
    requires
        p.current_mode() == Mode::DrawingPixels,
    ensures
        p.vram_after_write(io, val) == p.vram_bytes(),
{
}

/// `b` is what a tick of `d` T-cycles makes of `a` with the LCD on, as
/// `tick` states it.
pub open spec fn tick_relates(a: Ppu, b: Ppu, d: int) -> bool {
    &&& a.wf()
    &&& b.wf()
    &&& a.lcd_on()
    &&& 0 <= d < 256
    &&& b.frame_position() == (a.frame_position() + d) % (FRAME_CYCLES as int)
}

/// Total T-cycles of the first `k` ticks.
pub open spec fn elapsed(d: Seq<int>, k: int) -> int
    decreases k,
{
    if k <= 0 {
        0
    } else {
        elapsed(d, k - 1) + d[k - 1]
    }
}

/// How many of the first `k` ticks completed a frame.
pub open spec fn frames_completed(s: Seq<Ppu>, d: Seq<int>, k: int) -> int
    decreases k,
{
    if k <= 0 {
        0
    } else {
        frames_completed(s, d, k - 1) + if s[k - 1].frame_position() + d[k - 1]
            >= FRAME_CYCLES {
            1int
        } else {
            0
        }
    }
}

/// How many of the first `k` ticks requested VBLANK (reached line 144).
pub open spec fn vblanks_requested(s: Seq<Ppu>, d: Seq<int>, k: int) -> int
    decreases k,
{
    if k <= 0 {
        0
    } else {
        vblanks_requested(s, d, k - 1) + if s[k - 1].frame_position() < VBLANK_START
            <= s[k - 1].frame_position() + d[k - 1] {
            1int
        } else {
            0
        }
    }
}

/// Over any run of ticks with the LCD on, the frame position is the start
/// position plus the elapsed cycles, less 70224 for every completed frame:
/// a frame completes exactly every 70224 T-cycles. VBLANK is requested once
/// per frame: the requests and the completed frames differ only by whether
/// the start and end positions lie past line 144's start.
pub proof fn lemma_ticks_over_time(s: Seq<Ppu>, d: Seq<int>, k: int)
    requires
        s.len() == d.len() + 1,
        0 <= k <= d.len(),
        forall|i: int| 0 <= i < d.len() ==> tick_relates(s[i], s[i + 1], #[trigger] d[i]),
        s[0].wf(),
    ensures
        0 <= s[k].frame_position() < FRAME_CYCLES,
        s[k].frame_position() + FRAME_CYCLES * frames_completed(s, d, k) == s[0].frame_position()
            + elapsed(d, k),
        vblanks_requested(s, d, k) + (if s[0].frame_position() >= VBLANK_START {
            1int
        } else {
            0
        }) == frames_completed(s, d, k) + (if s[k].frame_position() >= VBLANK_START {
            1int
        } else {
            0
        }),
    decreases k,
{
    if k == 0 {
        lemma_position_in_frame(s[0]);
    } else {
        lemma_ticks_over_time(s, d, k - 1);
        assert(tick_relates(s[k - 1], s[k], d[k - 1]));
        lemma_position_in_frame(s[k]);
    }
}

/// A scanline shows at most ten sprites, each of which covers the line.
pub proof fn lemma_at_most_ten_sprites(p: Ppu, fm: FunctionMode)
    requires
        p.wf(),
    ensures
        p.selected_keys(fm).len() <= MAX_SPRITES_PER_LINE,
        forall|i: int|
            0 <= i < p.selected_keys(fm).len() ==> p.covers(
                #[trigger] p.selected_keys(fm)[i] as int % 256,
            ),
{
    p.lemma_covering_keys(fm, 40);
    let c = p.covering_keys(fm, 40);
    assert forall|i: int|
        0 <= i < p.selected_keys(fm).len() implies p.covers(
        #[trigger] p.selected_keys(fm)[i] as int % 256,
    ) by {
        assert(p.selected_keys(fm)[i] == c[i]);
    }
}


/// Tiles per row of the tile-data view.
pub const TILES_PER_WIDTH: usize = 16;

/// Width and height in pixels of the tile-data view: 384 tiles, 16 per row.
pub const TILE_VIEW_WIDTH: usize = 128;

pub const TILE_VIEW_HEIGHT: usize = 192;

impl Ppu {
    /// Colour of pixel (`i`, `j`) (row, column) of the view of all 384 tiles
    /// of VRAM bank `bank`, coloured with the background palette.
    pub closed spec fn tile_view_pixel(&self, fm: FunctionMode, bank: int, i: int, j: int) -> Rgb {
        let tile = (i / 8) * TILES_PER_WIDTH + j / 8;
        let addr = bank * 0x2000 + tile * 16 + (i % 8) * 2;
        let bit = 7 - j % 8;
        let idx = bit_of(self.vram@[addr + 1], bit) * 2 + bit_of(self.vram@[addr], bit);
        self.bg_color(fm, idx, 0)
    }

    /// Renders every tile of VRAM bank `bank` into a 128x192 RGBA image.
    pub fn draw_vram_tile_data(&self, function_mode: FunctionMode, bank: u8) -> (r: Vec<u8>)
        requires
            self.wf(),
            bank < 2,
        ensures
            r@.len() == TILE_VIEW_WIDTH * TILE_VIEW_HEIGHT * 4,
            forall|p: int|
                0 <= p < TILE_VIEW_WIDTH * TILE_VIEW_HEIGHT ==> #[trigger] shows(
                    r@,
                    p,
                    self.tile_view_pixel(
                        function_mode,
                        bank as int,
                        p / TILE_VIEW_WIDTH as int,
                        p % TILE_VIEW_WIDTH as int,
                    ),
                ),
    {
        let total = TILE_VIEW_WIDTH * TILE_VIEW_HEIGHT;
        let mut out: Vec<u8> = Vec::new();
        let mut p: usize = 0;
        while p < total
            invariant
                p <= total,
                total == TILE_VIEW_WIDTH * TILE_VIEW_HEIGHT,
                self.wf(),
                bank < 2,
                out@.len() == 4 * p,
                forall|q: int|
                    0 <= q < p ==> #[trigger] shows(
                        out@,
                        q,
                        self.tile_view_pixel(
                            function_mode,
                            bank as int,
                            q / TILE_VIEW_WIDTH as int,
                            q % TILE_VIEW_WIDTH as int,
                        ),
                    ),
            decreases total - p,
        {
            let i = p / TILE_VIEW_WIDTH;
            let j = p % TILE_VIEW_WIDTH;
            let tile = (i / 8) * TILES_PER_WIDTH + j / 8;
            let addr = bank as usize * 0x2000 + tile * 16 + (i % 8) * 2;
            let b = (7 - j % 8) as u8;
            let idx = bit(self.vram[addr + 1], b) * 2 + bit(self.vram[addr], b);
            let c = self.bg_color_exec(function_mode, idx, 0);
            proof {
                assert(c == self.tile_view_pixel(function_mode, bank as int, i as int, j as int));
            }
            let ghost before = out@;
            out.push(c.r);
            out.push(c.g);
            out.push(c.b);
            out.push(0xff);
            proof {
                assert forall|q: int| 0 <= q < p + 1 implies #[trigger] shows(
                    out@,
                    q,
                    self.tile_view_pixel(
                        function_mode,
                        bank as int,
                        q / TILE_VIEW_WIDTH as int,
                        q % TILE_VIEW_WIDTH as int,
                    ),
                ) by {
                    if q < p {
                        assert(shows(
                            before,
                            q,
                            self.tile_view_pixel(
                                function_mode,
                                bank as int,
                                q / TILE_VIEW_WIDTH as int,
                                q % TILE_VIEW_WIDTH as int,
                            ),
                        ));
                    }
                }
            }
            p = p + 1;
        }
        out
    }
}

} // verus!
