use ceres_core::{
    FunctionMode, InterruptRequests, Mode, MonochromePaletteColors, Ppu, PpuIO, PpuRegister, Rgb,
};

fn colors() -> MonochromePaletteColors {
    MonochromePaletteColors {
        shade0: Rgb { r: 255, g: 255, b: 255 },
        shade1: Rgb { r: 170, g: 170, b: 170 },
        shade2: Rgb { r: 85, g: 85, b: 85 },
        shade3: Rgb { r: 0, g: 0, b: 0 },
    }
}

fn no_ints() -> InterruptRequests {
    InterruptRequests { vblank: false, lcd_stat: false }
}

fn reg(ppu: &mut Ppu, r: PpuRegister, v: u8) {
    ppu.write(PpuIO::PpuRegister(r), v);
}

fn vram(ppu: &mut Ppu, address: u16, v: u8) {
    ppu.write(PpuIO::Vram { address }, v);
}

fn pixel(ppu: &Ppu, x: usize, y: usize) -> [u8; 4] {
    let p = (y * 160 + x) * 4;
    let d = ppu.pixel_data();
    [d[p], d[p + 1], d[p + 2], d[p + 3]]
}

fn shade(v: u8) -> [u8; 4] {
    [v, v, v, 0xff]
}

/// Ticks by 4 T-cycles until `done` holds; returns the cycles spent.
fn run_until(ppu: &mut Ppu, ints: &mut InterruptRequests, done: impl Fn(&Ppu) -> bool) -> u32 {
    let mut spent = 0;
    while !done(ppu) {
        ppu.tick(ints, FunctionMode::Monochrome, 4);
        spent += 4;
        assert!(spent < 1_000_000);
    }
    spent
}

fn ly(ppu: &mut Ppu) -> u8 {
    ppu.read(PpuIO::PpuRegister(PpuRegister::Ly))
}

#[test]
fn new_ppu_has_lcd_off_and_does_not_advance() {
    let mut ppu = Ppu::new(colors());
    let mut ints = no_ints();
    assert_eq!(ppu.mode(), Mode::HBlank);
    ppu.tick(&mut ints, FunctionMode::Monochrome, 200);
    assert_eq!(ppu.mode(), Mode::HBlank);
    assert_eq!(ly(&mut ppu), 0);
    assert!(!ints.vblank && !ints.lcd_stat);
    assert_eq!(ppu.monochrome_palette_colors(), colors());
}

#[test]
fn frame_takes_70224_cycles_after_a_short_first_one() {
    let mut ppu = Ppu::new(colors());
    let mut ints = no_ints();
    reg(&mut ppu, PpuRegister::Lcdc, 0x91);
    assert_eq!(ppu.mode(), Mode::OamScan);
    let first = run_until(&mut ppu, &mut ints, |p| p.is_frame_done());
    assert_eq!(first, 70220);
    for _ in 0..3 {
        ppu.reset_frame_done();
        let next = run_until(&mut ppu, &mut ints, |p| p.is_frame_done());
        assert_eq!(next, 70224);
    }
}

#[test]
fn frame_length_holds_with_uneven_ticks() {
    let mut ppu = Ppu::new(colors());
    let mut ints = no_ints();
    reg(&mut ppu, PpuRegister::Lcdc, 0x91);
    reg(&mut ppu, PpuRegister::Scx, 5);
    let mut spent: u32 = 0;
    while !ppu.is_frame_done() {
        ppu.tick(&mut ints, FunctionMode::Monochrome, 255);
        spent += 255;
    }
    // The frame ends within the last tick.
    assert!(spent >= 70220 && spent < 70220 + 255);
}

#[test]
fn ly_runs_through_every_line_in_order() {
    let mut ppu = Ppu::new(colors());
    let mut ints = no_ints();
    reg(&mut ppu, PpuRegister::Lcdc, 0x91);
    let mut seen = vec![ly(&mut ppu)];
    while !ppu.is_frame_done() {
        ppu.tick(&mut ints, FunctionMode::Monochrome, 4);
        let l = ly(&mut ppu);
        if *seen.last().unwrap() != l {
            seen.push(l);
        }
        let vblank = ppu.mode() == Mode::VBlank;
        assert_eq!(vblank, l >= 144);
    }
    let expected: Vec<u8> = (0..=153).chain(std::iter::once(0)).collect();
    assert_eq!(seen, expected);
}

#[test]
fn vblank_interrupt_once_per_frame_at_line_144() {
    let mut ppu = Ppu::new(colors());
    let mut ints = no_ints();
    reg(&mut ppu, PpuRegister::Lcdc, 0x91);
    let mut fired = 0;
    for _ in 0..(2 * 70224 / 4) {
        ppu.tick(&mut ints, FunctionMode::Monochrome, 4);
        if ints.vblank {
            fired += 1;
            assert_eq!(ly(&mut ppu), 144);
            ints.vblank = false;
        }
    }
    assert_eq!(fired, 2);
}

#[test]
fn lyc_match_raises_stat_interrupt() {
    let mut ppu = Ppu::new(colors());
    let mut ints = no_ints();
    reg(&mut ppu, PpuRegister::Lyc, 50);
    reg(&mut ppu, PpuRegister::Stat, 0x40);
    reg(&mut ppu, PpuRegister::Lcdc, 0x91);
    run_until(&mut ppu, &mut ints, |p| p.registers().ly == 50);
    assert!(ints.lcd_stat);
    let stat = ppu.read(PpuIO::PpuRegister(PpuRegister::Stat));
    assert_eq!(stat & 0x04, 0x04);
    assert_eq!(stat & 0x40, 0x40);
    // No second request while the line stays high.
    ints.lcd_stat = false;
    run_until(&mut ppu, &mut ints, |p| p.mode() == Mode::HBlank);
    assert!(!ints.lcd_stat);
}

#[test]
fn vram_writes_dropped_while_drawing() {
    let mut ppu = Ppu::new(colors());
    let mut ints = no_ints();
    vram(&mut ppu, 0x8000, 0x11);
    reg(&mut ppu, PpuRegister::Lcdc, 0x91);
    run_until(&mut ppu, &mut ints, |p| p.mode() == Mode::DrawingPixels);
    assert_eq!(ppu.read(PpuIO::Vram { address: 0x8000 }), 0xff);
    vram(&mut ppu, 0x8000, 0x22);
    ppu.vram_dma_write(0x8000, 0x33);
    run_until(&mut ppu, &mut ints, |p| p.mode() == Mode::HBlank);
    assert_eq!(ppu.read(PpuIO::Vram { address: 0x8000 }), 0x11);
    vram(&mut ppu, 0x8000, 0x44);
    assert_eq!(ppu.read(PpuIO::Vram { address: 0x8000 }), 0x44);
}

#[test]
fn oam_blocked_during_scan_and_drawing() {
    let mut ppu = Ppu::new(colors());
    let mut ints = no_ints();
    ppu.write(PpuIO::Oam { address: 0xfe00 }, 7);
    assert_eq!(ppu.read(PpuIO::Oam { address: 0xfe00 }), 7);
    reg(&mut ppu, PpuRegister::Lcdc, 0x91);
    assert_eq!(ppu.mode(), Mode::OamScan);
    assert_eq!(ppu.read(PpuIO::Oam { address: 0xfe00 }), 0xff);
    ppu.write(PpuIO::Oam { address: 0xfe00 }, 9);
    // DMA writes are not gated.
    ppu.oam_dma_write(1, 5);
    run_until(&mut ppu, &mut ints, |p| p.mode() == Mode::HBlank);
    assert_eq!(ppu.read(PpuIO::Oam { address: 0xfe00 }), 7);
    assert_eq!(ppu.read(PpuIO::Oam { address: 0xfe01 }), 5);
    assert_eq!(ppu.read(PpuIO::Oam { address: 0xfea0 }), 0xff);
}

#[test]
fn vram_bank_register() {
    let mut ppu = Ppu::new(colors());
    assert_eq!(ppu.read(PpuIO::VramBank), 0xfe);
    vram(&mut ppu, 0x8000, 1);
    ppu.write(PpuIO::VramBank, 3);
    assert_eq!(ppu.read(PpuIO::VramBank), 0xff);
    assert_eq!(ppu.read(PpuIO::Vram { address: 0x8000 }), 0);
    vram(&mut ppu, 0x8000, 2);
    ppu.write(PpuIO::VramBank, 0);
    assert_eq!(ppu.read(PpuIO::Vram { address: 0x8000 }), 1);
}

#[test]
fn palette_memory_auto_increments() {
    let mut ppu = Ppu::new(colors());
    reg(&mut ppu, PpuRegister::Bcps, 0x80);
    reg(&mut ppu, PpuRegister::Bcpd, 0x1f);
    reg(&mut ppu, PpuRegister::Bcpd, 0x00);
    assert_eq!(ppu.read(PpuIO::PpuRegister(PpuRegister::Bcps)), 0xc2);
    reg(&mut ppu, PpuRegister::Bcps, 0x00);
    assert_eq!(ppu.read(PpuIO::PpuRegister(PpuRegister::Bcpd)), 0x1f);
    reg(&mut ppu, PpuRegister::Ocps, 0xbf);
    reg(&mut ppu, PpuRegister::Ocpd, 0x12);
    // The index wraps from 63 to 0.
    assert_eq!(ppu.read(PpuIO::PpuRegister(PpuRegister::Ocps)), 0xc0);
}

#[test]
fn ly_is_read_only_and_lcd_off_resets() {
    let mut ppu = Ppu::new(colors());
    let mut ints = no_ints();
    reg(&mut ppu, PpuRegister::Lcdc, 0x91);
    run_until(&mut ppu, &mut ints, |p| p.registers().ly == 10);
    reg(&mut ppu, PpuRegister::Ly, 99);
    assert_eq!(ly(&mut ppu), 10);
    reg(&mut ppu, PpuRegister::Lcdc, 0x11);
    assert_eq!(ly(&mut ppu), 0);
    assert_eq!(ppu.mode(), Mode::HBlank);
    assert_eq!(ppu.registers().lcdc, 0x11);
}

#[test]
fn background_tile_is_drawn() {
    let mut ppu = Ppu::new(colors());
    let mut ints = no_ints();
    reg(&mut ppu, PpuRegister::Bgp, 0xe4);
    // Tile 0, row 0: colour 1 everywhere; the map is all tile 0.
    vram(&mut ppu, 0x8000, 0xff);
    vram(&mut ppu, 0x8001, 0x00);
    reg(&mut ppu, PpuRegister::Lcdc, 0x91);
    run_until(&mut ppu, &mut ints, |p| p.is_frame_done());
    assert_eq!(pixel(&ppu, 0, 0), shade(170));
    assert_eq!(pixel(&ppu, 159, 0), shade(170));
    assert_eq!(pixel(&ppu, 0, 1), shade(255));
    assert_eq!(pixel(&ppu, 0, 8), shade(170));
}

#[test]
fn scroll_x_shifts_the_background() {
    let mut ppu = Ppu::new(colors());
    let mut ints = no_ints();
    reg(&mut ppu, PpuRegister::Bgp, 0xe4);
    // Tile 1 (colour 3 on every row) at map column 1 of row 0.
    for row in 0..8u16 {
        vram(&mut ppu, 0x8010 + 2 * row, 0xff);
        vram(&mut ppu, 0x8011 + 2 * row, 0xff);
    }
    vram(&mut ppu, 0x9801, 1);
    reg(&mut ppu, PpuRegister::Scx, 4);
    reg(&mut ppu, PpuRegister::Lcdc, 0x91);
    run_until(&mut ppu, &mut ints, |p| p.is_frame_done());
    assert_eq!(pixel(&ppu, 3, 0), shade(255));
    assert_eq!(pixel(&ppu, 4, 0), shade(0));
    assert_eq!(pixel(&ppu, 11, 0), shade(0));
    assert_eq!(pixel(&ppu, 12, 0), shade(255));
}

#[test]
fn bg_disabled_shows_colour_zero() {
    let mut ppu = Ppu::new(colors());
    let mut ints = no_ints();
    reg(&mut ppu, PpuRegister::Bgp, 0xe7);
    vram(&mut ppu, 0x8000, 0xff);
    reg(&mut ppu, PpuRegister::Lcdc, 0x90);
    run_until(&mut ppu, &mut ints, |p| p.is_frame_done());
    // BGP maps colour 0 to shade 3.
    assert_eq!(pixel(&ppu, 0, 0), shade(0));
}

#[test]
fn at_most_ten_sprites_per_line() {
    let mut ppu = Ppu::new(colors());
    let mut ints = no_ints();
    reg(&mut ppu, PpuRegister::Bgp, 0xe4);
    reg(&mut ppu, PpuRegister::Obp0, 0xe4);
    // Tile 1: colour 3 on row 0.
    vram(&mut ppu, 0x8010, 0xff);
    vram(&mut ppu, 0x8011, 0xff);
    for i in 0..12u16 {
        let a = 0xfe00 + 4 * i;
        ppu.write(PpuIO::Oam { address: a }, 16);
        ppu.write(PpuIO::Oam { address: a + 1 }, (8 + 8 * i) as u8);
        ppu.write(PpuIO::Oam { address: a + 2 }, 1);
        ppu.write(PpuIO::Oam { address: a + 3 }, 0);
    }
    reg(&mut ppu, PpuRegister::Lcdc, 0x93);
    run_until(&mut ppu, &mut ints, |p| p.is_frame_done());
    for x in 0..80 {
        assert_eq!(pixel(&ppu, x, 0), shade(0), "column {}", x);
    }
    for x in 80..96 {
        assert_eq!(pixel(&ppu, x, 0), shade(255), "column {}", x);
    }
    // Row 1 of tile 1 is transparent.
    assert_eq!(pixel(&ppu, 0, 1), shade(255));
}

#[test]
fn overlapping_sprites_lower_x_wins_in_dmg_mode() {
    let mut ppu = Ppu::new(colors());
    let mut ints = no_ints();
    reg(&mut ppu, PpuRegister::Obp0, 0xe4);
    reg(&mut ppu, PpuRegister::Obp1, 0x00);
    vram(&mut ppu, 0x8010, 0xff);
    vram(&mut ppu, 0x8011, 0xff);
    // Sprite 0 at x = 12 with OBP1 (shade 0); sprite 1 at x = 10 with OBP0.
    let sprites = [(16u8, 20u8, 1u8, 0x10u8), (16, 18, 1, 0x00)];
    for (i, s) in sprites.iter().enumerate() {
        let a = 0xfe00 + 4 * i as u16;
        ppu.write(PpuIO::Oam { address: a }, s.0);
        ppu.write(PpuIO::Oam { address: a + 1 }, s.1);
        ppu.write(PpuIO::Oam { address: a + 2 }, s.2);
        ppu.write(PpuIO::Oam { address: a + 3 }, s.3);
    }
    reg(&mut ppu, PpuRegister::Bgp, 0xe4);
    reg(&mut ppu, PpuRegister::Lcdc, 0x93);
    run_until(&mut ppu, &mut ints, |p| p.is_frame_done());
    // Columns 12..18 are covered by both; the smaller X (sprite 1) is on top.
    assert_eq!(pixel(&ppu, 12, 0), shade(0));
    assert_eq!(pixel(&ppu, 17, 0), shade(0));
    // Columns 18..20 only by sprite 0, drawn with OBP1 = all shade 0.
    assert_eq!(pixel(&ppu, 18, 0), shade(255));
}

#[test]
fn window_line_counter_skips_disabled_lines() {
    let mut ppu = Ppu::new(colors());
    let mut ints = no_ints();
    reg(&mut ppu, PpuRegister::Bgp, 0xe4);
    // Tile 3: colour 1 on every row; tile 4: colour 2 on every row.
    for row in 0..8u16 {
        vram(&mut ppu, 0x8030 + 2 * row, 0xff);
        vram(&mut ppu, 0x8031 + 2 * row, 0x00);
        vram(&mut ppu, 0x8040 + 2 * row, 0x00);
        vram(&mut ppu, 0x8041 + 2 * row, 0xff);
    }
    // Window map rows 2 and 3.
    for col in 0..32u16 {
        vram(&mut ppu, 0x9c40 + col, 3);
        vram(&mut ppu, 0x9c60 + col, 4);
    }
    reg(&mut ppu, PpuRegister::Wy, 80);
    reg(&mut ppu, PpuRegister::Wx, 7);
    reg(&mut ppu, PpuRegister::Lcdc, 0xf1);
    run_until(&mut ppu, &mut ints, |p| p.registers().ly == 100);
    reg(&mut ppu, PpuRegister::Lcdc, 0xd1);
    run_until(&mut ppu, &mut ints, |p| p.registers().ly == 111);
    reg(&mut ppu, PpuRegister::Lcdc, 0xf1);
    run_until(&mut ppu, &mut ints, |p| p.registers().ly == 112);
    // Window row 20 (tile 3), not row 31 (tile 4).
    assert_eq!(pixel(&ppu, 0, 111), shade(170));
    // While the window was off, line 105 shows the background (colour 0).
    assert_eq!(pixel(&ppu, 0, 105), shade(255));
}

#[test]
fn dont_render_leaves_frame_alone() {
    let mut ppu = Ppu::new(colors());
    let mut ints = no_ints();
    reg(&mut ppu, PpuRegister::Bgp, 0xff);
    ppu.dont_render();
    reg(&mut ppu, PpuRegister::Lcdc, 0x91);
    run_until(&mut ppu, &mut ints, |p| p.is_frame_done());
    assert_eq!(pixel(&ppu, 0, 0), shade(255));
    ppu.do_render();
    ppu.reset_frame_done();
    run_until(&mut ppu, &mut ints, |p| p.is_frame_done());
    assert_eq!(pixel(&ppu, 0, 0), shade(0));
    assert_eq!(ppu.mut_pixel_data().len(), 160 * 144 * 4);
}

#[test]
fn color_mode_expands_rgb555() {
    let mut ppu = Ppu::new(colors());
    let mut ints = no_ints();
    // Palette 0, colour 1: r = 31, g = 0, b = 16 (0x401f).
    reg(&mut ppu, PpuRegister::Bcps, 0x82);
    reg(&mut ppu, PpuRegister::Bcpd, 0x1f);
    reg(&mut ppu, PpuRegister::Bcpd, 0x40);
    vram(&mut ppu, 0x8000, 0xff);
    reg(&mut ppu, PpuRegister::Lcdc, 0x91);
    while !ppu.is_frame_done() {
        ppu.tick(&mut ints, FunctionMode::Color, 4);
    }
    assert_eq!(pixel(&ppu, 0, 0), [255, 0, 132, 255]);
}

fn two_overlapping_sprites(opri: u8) -> Ppu {
    let mut ppu = Ppu::new(colors());
    let mut ints = no_ints();
    // Object palette 1, colour 3: black. Everything else stays white.
    reg(&mut ppu, PpuRegister::Ocps, 0x8e);
    reg(&mut ppu, PpuRegister::Ocpd, 0x00);
    reg(&mut ppu, PpuRegister::Ocpd, 0x00);
    reg(&mut ppu, PpuRegister::Opri, opri);
    vram(&mut ppu, 0x8010, 0xff);
    vram(&mut ppu, 0x8011, 0xff);
    // Sprite 0 at x = 20 with palette 0; sprite 1 at x = 18 with palette 1.
    let sprites = [(16u8, 20u8, 1u8, 0u8), (16, 18, 1, 1)];
    for (i, s) in sprites.iter().enumerate() {
        let a = 0xfe00 + 4 * i as u16;
        ppu.write(PpuIO::Oam { address: a }, s.0);
        ppu.write(PpuIO::Oam { address: a + 1 }, s.1);
        ppu.write(PpuIO::Oam { address: a + 2 }, s.2);
        ppu.write(PpuIO::Oam { address: a + 3 }, s.3);
    }
    reg(&mut ppu, PpuRegister::Lcdc, 0x93);
    while !ppu.is_frame_done() {
        ppu.tick(&mut ints, FunctionMode::Color, 4);
    }
    ppu
}

#[test]
fn cgb_sprites_ranked_by_oam_position() {
    let ppu = two_overlapping_sprites(0);
    // Sprite 0 comes first in OAM and is on top where both overlap.
    assert_eq!(pixel(&ppu, 12, 0), shade(255));
    // Only sprite 1 covers column 10.
    assert_eq!(pixel(&ppu, 10, 0), shade(0));
}

#[test]
fn cgb_sprites_ranked_by_x_with_opri_set() {
    let ppu = two_overlapping_sprites(1);
    assert_eq!(pixel(&ppu, 12, 0), shade(0));
    assert_eq!(pixel(&ppu, 18, 0), shade(255));
}
