use ceres_core::{
    BootRom, Cartridge, FunctionMode, Gb, InterruptRequests, Mode, Model, MonochromePaletteColors,
    Ppu, Rgb,
};

fn colors() -> MonochromePaletteColors {
    MonochromePaletteColors {
        shade0: Rgb { r: 255, g: 255, b: 255 },
        shade1: Rgb { r: 170, g: 170, b: 170 },
        shade2: Rgb { r: 85, g: 85, b: 85 },
        shade3: Rgb { r: 0, g: 0, b: 0 },
    }
}

/// A 32 KiB ROM without a controller; every byte past the header is 0x3c.
fn rom() -> Vec<u8> {
    let mut v = vec![0x3cu8; 0x8000];
    for b in v[0x134..0x150].iter_mut() {
        *b = 0;
    }
    let mut x: u8 = 0;
    for i in 0x134..=0x14c {
        x = x.wrapping_sub(v[i]).wrapping_sub(1);
    }
    v[0x14d] = x;
    v
}

fn gb(model: Model, boot: Vec<u8>) -> Gb {
    let cart = Cartridge::new(rom(), None).unwrap();
    Gb::new(model, cart, BootRom::new(boot), Ppu::new(colors()))
}

#[test]
fn wram_banks_and_echo() {
    let mut g = gb(Model::Cgb, vec![]);
    g.write_mem(0xc010, 9);
    assert_eq!(g.read_mem(0xe010), 9);
    g.write_mem(0xff70, 2);
    assert_eq!(g.read_mem(0xff70), 0xfa);
    g.write_mem(0xd000, 5);
    assert_eq!(g.read_mem(0xd000), 5);
    assert_eq!(g.read_mem(0xf000), 5);
    // SVBK 0 selects bank 1.
    g.write_mem(0xff70, 0);
    assert_eq!(g.read_mem(0xd000), 0);
    g.write_mem(0xff70, 1);
    assert_eq!(g.read_mem(0xd000), 0);
    g.write_mem(0xff70, 2);
    assert_eq!(g.read_bank_ram(0xd000), 5);
    assert_eq!(g.read_ram(0xc010), 9);
}

#[test]
fn boot_rom_unmaps_on_ff50() {
    let mut g = gb(Model::Dmg, vec![0xaa; 256]);
    assert_eq!(g.read_mem(0x0000), 0xaa);
    assert_eq!(g.read_mem(0x0100), 0x3c);
    // DMG maps only the first 256 bytes.
    assert_eq!(g.read_mem(0x0200), 0x3c);
    g.write_mem(0xff50, 1);
    assert_eq!(g.read_mem(0x0000), 0x3c);
}

#[test]
fn cgb_boot_rom_covers_0200_to_08ff() {
    let mut g = gb(Model::Cgb, vec![0x55; 0x900]);
    assert_eq!(g.read_mem(0x0200), 0x55);
    assert_eq!(g.read_mem(0x08ff), 0x55);
    assert_eq!(g.read_mem(0x0900), 0x3c);
}

#[test]
fn unusable_region_reads_ff() {
    let mut g = gb(Model::Dmg, vec![]);
    g.write_mem(0xfea0, 1);
    assert_eq!(g.read_mem(0xfea0), 0xff);
    assert_eq!(g.read_mem(0xa000), 0xff);
}

#[test]
fn hram_and_interrupt_registers() {
    let mut g = gb(Model::Dmg, vec![]);
    g.write_mem(0xff80, 3);
    g.write_mem(0xfffe, 4);
    assert_eq!(g.read_mem(0xff80), 3);
    assert_eq!(g.read_mem(0xfffe), 4);
    g.write_mem(0xffff, 0x1f);
    assert_eq!(g.read_mem(0xffff), 0x1f);
    g.write_mem(0xff0f, 0xff);
    assert_eq!(g.read_mem(0xff0f), 0xff);
    assert_eq!(g.ifr, 0x1f);
}

#[test]
fn cgb_registers_absent_on_dmg() {
    let mut g = gb(Model::Dmg, vec![]);
    g.write_mem(0xff70, 3);
    assert_eq!(g.read_mem(0xff70), 0xff);
    assert_eq!(g.read_mem(0xff55), 0xff);
    assert_eq!(g.read_mem(0xff4f), 0xff);
    assert_eq!(g.svbk_true, 1);
}

#[test]
fn key0_switches_to_compatibility_while_boot_rom_mapped() {
    let mut g = gb(Model::Cgb, vec![0; 0x900]);
    assert_eq!(g.function_mode, FunctionMode::Color);
    g.write_mem(0xff4c, 4);
    assert_eq!(g.function_mode, FunctionMode::Compatibility);
    let mut g = gb(Model::Cgb, vec![0; 0x900]);
    g.write_mem(0xff50, 1);
    g.write_mem(0xff4c, 4);
    assert_eq!(g.function_mode, FunctionMode::Color);
}

#[test]
fn joypad_reads_selected_group_active_low() {
    let mut g = gb(Model::Dmg, vec![]);
    g.joypad = 0x01 | 0x20;
    // Directions selected (bit 4 low): right pressed.
    g.write_mem(0xff00, 0x20);
    assert_eq!(g.read_mem(0xff00), 0xee);
    // Buttons selected (bit 5 low): button bit 1 pressed.
    g.write_mem(0xff00, 0x10);
    assert_eq!(g.read_mem(0xff00), 0xdd);
}

#[test]
fn ppu_registers_through_the_bus() {
    let mut g = gb(Model::Dmg, vec![]);
    g.write_mem(0xff42, 12);
    assert_eq!(g.read_mem(0xff42), 12);
    g.write_mem(0xff47, 0xe4);
    assert_eq!(g.read_mem(0xff47), 0xe4);
    g.write_mem(0x8000, 0x77);
    assert_eq!(g.read_mem(0x8000), 0x77);
}

#[test]
fn oam_dma_copies_wram_to_oam() {
    let mut g = gb(Model::Dmg, vec![]);
    for i in 0..160u16 {
        g.write_mem(0xc000 + i, i as u8 + 1);
    }
    g.write_mem(0xfe00, 0x99);
    g.write_mem(0xff46, 0xc0);
    assert_eq!(g.read_mem(0xff46), 0xc0);
    g.run_dma();
    // Within the warm-up OAM still reads its old contents.
    assert_eq!(g.read_mem(0xfe00), 0x99);
    for _ in 0..161 {
        g.run_dma();
    }
    assert!(!g.dma_active());
    for i in 0..160u16 {
        assert_eq!(g.read_mem(0xfe00 + i), i as u8 + 1);
    }
}

#[test]
fn oam_writes_dropped_during_dma() {
    let mut g = gb(Model::Dmg, vec![]);
    g.write_mem(0xff46, 0xc0);
    g.run_dma();
    g.run_dma();
    g.run_dma();
    assert!(g.dma_active());
    g.write_mem(0xfe9f, 0x42);
    assert_eq!(g.read_mem(0xfe9f), 0xff);
}

#[test]
fn hblank_hdma_through_the_bus() {
    let mut g = gb(Model::Cgb, vec![]);
    for i in 0..0x100u16 {
        g.write_mem(0xc000 + i, (i % 251) as u8 + 1);
    }
    g.write_mem(0xff51, 0xc0);
    g.write_mem(0xff52, 0x00);
    g.write_mem(0xff53, 0x00);
    g.write_mem(0xff54, 0x00);
    g.write_mem(0xff55, 0x8f);
    assert!(g.hdma_on());
    g.write_mem(0xff40, 0x91);
    let mut ints = InterruptRequests { vblank: false, lcd_stat: false };
    let mut hblanks = 0;
    let mut prev = g.ppu.mode();
    while hblanks < 10 {
        g.ppu.tick(&mut ints, FunctionMode::Color, 4);
        let m = g.ppu.mode();
        if m == Mode::HBlank && prev != Mode::HBlank {
            hblanks += 1;
        }
        g.run_hdma();
        prev = m;
    }
    assert_eq!(g.read_mem(0xff55), 5);
    for i in 0..0xa0u16 {
        assert_eq!(g.read_mem(0x8000 + i), (i % 251) as u8 + 1);
    }
    assert_eq!(g.read_mem(0x80a0), 0);
    g.write_mem(0xff55, 0x00);
    assert!(!g.hdma_on());
    while hblanks < 13 {
        g.ppu.tick(&mut ints, FunctionMode::Color, 4);
        let m = g.ppu.mode();
        if m == Mode::HBlank && prev != Mode::HBlank {
            hblanks += 1;
        }
        g.run_hdma();
        prev = m;
    }
    assert_eq!(g.read_mem(0x80a0), 0);
}

#[test]
fn tile_data_view() {
    let mut ppu = Ppu::new(colors());
    ppu.write(ceres_core::PpuIO::PpuRegister(ceres_core::PpuRegister::Bgp), 0xe4);
    // Tile 1, row 0: leftmost pixel colour 1.
    ppu.write(ceres_core::PpuIO::Vram { address: 0x8010 }, 0x80);
    let view = ppu.draw_vram_tile_data(FunctionMode::Monochrome, 0);
    assert_eq!(view.len(), 128 * 192 * 4);
    let at = |x: usize, y: usize| {
        let p = (y * 128 + x) * 4;
        [view[p], view[p + 1], view[p + 2], view[p + 3]]
    };
    assert_eq!(at(8, 0), [170, 170, 170, 255]);
    assert_eq!(at(9, 0), [255, 255, 255, 255]);
    assert_eq!(at(0, 0), [255, 255, 255, 255]);
}

#[test]
fn boot_rom_length_is_checked_per_model() {
    assert!(ceres_core::load_boot_rom(Model::Dmg, vec![0; 256]).is_ok());
    assert!(ceres_core::load_boot_rom(Model::Cgb, vec![0; 0x900]).is_ok());
    assert_eq!(
        ceres_core::load_boot_rom(Model::Dmg, vec![0; 0x900]).err(),
        Some(ceres_core::Error::BootRomSize { expected: 256, got: 0x900 })
    );
    assert_eq!(
        ceres_core::load_boot_rom(Model::Cgb, vec![0; 10]).err(),
        Some(ceres_core::Error::BootRomSize { expected: 0x900, got: 10 })
    );
}

#[test]
fn oam_dma_reads_echo_ram_as_work_ram() {
    let mut g = gb(Model::Dmg, vec![]);
    g.write_mem(0xc005, 0x5a);
    g.write_mem(0xff46, 0xe0);
    for _ in 0..162 {
        g.run_dma();
    }
    assert_eq!(g.read_mem(0xfe05), 0x5a);
}
