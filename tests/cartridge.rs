use ceres_core::{BootRom, Cartridge, CgbFlag, Error, Header};

/// A ROM image of `0x8000 << size_byte` bytes with the given header bytes and
/// a valid header checksum. Even bytes of each 16 KiB bank hold the low byte
/// of the bank number and odd bytes its high byte, so reads show which bank
/// is mapped.
fn rom(size_byte: u8, mbc_byte: u8, ram_byte: u8) -> Vec<u8> {
    let len = 0x8000usize << size_byte;
    let mut v = vec![0u8; len];
    for (i, b) in v.iter_mut().enumerate() {
        let bank = i / 0x4000;
        *b = if i % 2 == 0 { bank as u8 } else { (bank >> 8) as u8 };
    }
    for b in v[0x134..0x150].iter_mut() {
        *b = 0;
    }
    v[0x134..0x138].copy_from_slice(b"TEST");
    v[0x143] = 0x80;
    v[0x147] = mbc_byte;
    v[0x148] = size_byte;
    v[0x149] = ram_byte;
    let mut x: u8 = 0;
    for i in 0x134..=0x14c {
        x = x.wrapping_sub(v[i]).wrapping_sub(1);
    }
    v[0x14d] = x;
    v
}

#[test]
fn header_fields() {
    let r = rom(1, 0x1b, 3);
    let h = Header::new(&r).unwrap();
    assert_eq!(h.title, b"TEST".to_vec());
    assert_eq!(h.cgb_flag, CgbFlag::CgbCompatible);
    assert_eq!(h.rom_size, 0x10000);
    assert_eq!(h.ram_size, 0x8000);
    assert!(h.has_battery);
    assert!(!h.has_rumble);
    assert!(h.checksum_valid);
}

#[test]
fn header_checksum_mismatch_is_reported_not_fatal() {
    let mut r = rom(0, 0x00, 0);
    r[0x14d] = r[0x14d].wrapping_add(1);
    let h = Header::new(&r).unwrap();
    assert!(!h.checksum_valid);
}

#[test]
fn header_cgb_only() {
    let mut r = rom(0, 0x00, 0);
    r[0x143] = 0xc0;
    assert_eq!(Header::new(&r).unwrap().cgb_flag, CgbFlag::CgbOnly);
    r[0x143] = 0x00;
    assert_eq!(Header::new(&r).unwrap().cgb_flag, CgbFlag::NoCgb);
}

#[test]
fn invalid_rom_size() {
    let mut r = rom(1, 0x00, 0);
    r[0x148] = 9;
    assert_eq!(Header::new(&r).err(), Some(Error::InvalidRomSize { byte: 9 }));
    // A 64 KiB image that declares 32 KiB.
    let mut r = rom(1, 0x00, 0);
    r[0x148] = 0;
    assert_eq!(Header::new(&r).err(), Some(Error::InvalidRomSize { byte: 0 }));
    assert_eq!(
        Cartridge::new(vec![0u8; 0x100], None).err(),
        Some(Error::InvalidRomSize { byte: 0 })
    );
}

#[test]
fn invalid_ram_size() {
    let r = rom(0, 0x00, 6);
    assert_eq!(Header::new(&r).err(), Some(Error::InvalidRamSize { byte: 6 }));
}

#[test]
fn invalid_and_unsupported_mbc() {
    assert_eq!(
        Cartridge::new(rom(0, 0x04, 0), None).err(),
        Some(Error::InvalidMbc { byte: 0x04 })
    );
    assert_eq!(
        Cartridge::new(rom(0, 0xfe, 0), None).err(),
        Some(Error::UnsupportedMbc { byte: 0xfe })
    );
}

#[test]
fn ram_size_mismatch() {
    let r = rom(0, 0x03, 2);
    assert_eq!(
        Cartridge::new(r, Some(vec![0u8; 100])).err(),
        Some(Error::RamSizeMismatch { expected: 0x2000, got: 100 })
    );
}

#[test]
fn rom_only_reads_two_fixed_banks() {
    let mut c = Cartridge::new(rom(0, 0x00, 0), None).unwrap();
    assert_eq!(c.read_rom(0x0000), 0);
    assert_eq!(c.read_rom(0x4000), 1);
    c.write_rom(0x2000, 5);
    assert_eq!(c.read_rom(0x4000), 1);
    assert_eq!(c.read_ram(0xa000), 0xff);
    assert!(!c.has_battery());
    assert!(matches!(c.header_info().mbc_byte, 0x00));
}

#[test]
fn mbc1_bank_switching_and_zero_remap() {
    // 1 MiB: 64 banks.
    let mut c = Cartridge::new(rom(5, 0x01, 0), None).unwrap();
    assert!(matches!(c.header_info().rom_size, 0x100000));
    c.write_rom(0x2100, 0x05);
    assert_eq!(c.read_rom(0x4000), 5);
    assert_eq!(c.read_rom(0x7ffe), 5);
    c.write_rom(0x2100, 0x00);
    assert_eq!(c.read_rom(0x4000), 1);
    // The low five bits of 0x20 are 0, so bank 1 again.
    c.write_rom(0x2100, 0x20);
    assert_eq!(c.read_rom(0x4000), 1);
    // Upper bits come from 0x4000..0x6000: bank 0x20 | 1.
    c.write_rom(0x4000, 0x01);
    assert_eq!(c.read_rom(0x4000), 0x21);
    // Mode 0: the lower region stays bank 0.
    assert_eq!(c.read_rom(0x0000), 0);
    // Mode 1: the lower region shows bank 0x20.
    c.write_rom(0x6000, 0x01);
    assert_eq!(c.read_rom(0x0000), 0x20);
}

#[test]
fn mbc1_bank_wraps_to_rom_size() {
    // 64 KiB: 4 banks; bank 5 wraps to bank 1.
    let mut c = Cartridge::new(rom(1, 0x01, 0), None).unwrap();
    c.write_rom(0x2000, 0x05);
    assert_eq!(c.read_rom(0x4000), 1);
    c.write_rom(0x2000, 0x03);
    assert_eq!(c.read_rom(0x4000), 3);
}

#[test]
fn mbc1_ram_enable_and_banks() {
    let mut c = Cartridge::new(rom(0, 0x03, 3), None).unwrap();
    assert!(c.has_battery());
    c.write_ram(0xa000, 0x42);
    assert_eq!(c.read_ram(0xa000), 0xff);
    assert_eq!(c.ram()[0], 0);
    c.write_rom(0x0000, 0x0a);
    c.write_ram(0xa000, 0x42);
    assert_eq!(c.read_ram(0xa000), 0x42);
    c.write_rom(0x6000, 1);
    c.write_rom(0x4000, 2);
    assert_eq!(c.ram_address(0xa001), 0x4001);
    assert_eq!(c.ram_addr(0xa001), 0x4001);
    c.write_ram(0xa001, 0x99);
    assert_eq!(c.ram()[0x4001], 0x99);
    c.write_rom(0x0000, 0x00);
    assert_eq!(c.read_ram(0xa001), 0xff);
}

#[test]
fn mbc_write_ram_respects_flag() {
    let mut c = Cartridge::new(rom(0, 0x03, 2), None).unwrap();
    c.mbc_write_ram(false, 0xa010, 7);
    assert_eq!(c.ram()[0x10], 0);
    c.mbc_write_ram(true, 0xa010, 7);
    assert_eq!(c.ram()[0x10], 7);
}

#[test]
fn mbc2_bank_select_and_nibble_ram() {
    let mut c = Cartridge::new(rom(2, 0x06, 0), None).unwrap();
    assert_eq!(c.ram().len(), 0x200);
    // Address bit 8 set: ROM bank.
    c.write_rom(0x2100, 0x03);
    assert_eq!(c.read_rom(0x4000), 3);
    // Address bit 8 clear: RAM enable.
    c.write_rom(0x0000, 0x0a);
    c.write_ram(0xa005, 0xab);
    assert_eq!(c.read_ram(0xa005), 0xfb);
    // The 512 cells repeat across the window.
    assert_eq!(c.read_ram(0xa205), 0xfb);
}

#[test]
fn mbc3_ram_banks_and_clock_latch() {
    let mut c = Cartridge::new(rom(2, 0x10, 3), None).unwrap();
    c.write_rom(0x2000, 0x00);
    assert_eq!(c.read_rom(0x4000), 1);
    c.write_rom(0x2000, 0x06);
    assert_eq!(c.read_rom(0x4000), 6);
    c.write_rom(0x0000, 0x0a);
    c.write_rom(0x4000, 0x02);
    c.write_ram(0xa000, 0x55);
    assert_eq!(c.ram()[0x4000], 0x55);
    // Select the seconds register, set it, latch with 0 then 1.
    c.write_rom(0x4000, 0x08);
    c.write_ram(0xa000, 30);
    assert_eq!(c.read_ram(0xa000), 0);
    c.write_rom(0x6000, 0);
    c.write_rom(0x6000, 1);
    assert_eq!(c.read_ram(0xa000), 30);
    // Further writes reach the live register, not the latched copy.
    c.write_ram(0xa000, 31);
    assert_eq!(c.read_ram(0xa000), 30);
}

#[test]
fn mbc5_bank_zero_and_ninth_bit() {
    // 8 MiB: 512 banks.
    let mut c = Cartridge::new(rom(8, 0x19, 0), None).unwrap();
    c.write_rom(0x2000, 0x00);
    assert_eq!(c.read_rom(0x4000), 0);
    c.write_rom(0x2000, 0x07);
    c.write_rom(0x3000, 0x01);
    // Bank 0x107.
    assert_eq!(c.read_rom(0x4000), 0x07);
    assert_eq!(c.read_rom(0x4001), 0x01);
    c.write_rom(0x3000, 0x00);
    assert_eq!(c.read_rom(0x4001), 0x00);
}

#[test]
fn mbc5_rumble_uses_three_ram_bank_bits() {
    let mut c = Cartridge::new(rom(0, 0x1e, 4), None).unwrap();
    c.write_rom(0x0000, 0x0a);
    c.write_rom(0x4000, 0x0b);
    c.write_ram(0xa000, 9);
    assert_eq!(c.ram()[3 * 0x2000], 9);
}

#[test]
fn snapshot_reload_round_trip() {
    let mut c = Cartridge::new(rom(0, 0x1b, 2), None).unwrap();
    c.write_rom(0x0000, 0x0a);
    c.write_ram(0xa123, 0x77);
    let snap = c.ram_snapshot();
    c.write_ram(0xa123, 0x00);
    assert_eq!(c.reload_ram(snap.clone()), Ok(()));
    assert_eq!(c.ram_snapshot(), snap);
    assert_eq!(
        c.reload_ram(vec![1, 2, 3]),
        Err(Error::RamSizeMismatch { expected: 0x2000, got: 3 })
    );
    assert_eq!(c.ram_snapshot(), snap);
}

#[test]
fn cartridge_loads_saved_ram() {
    let save = vec![5u8; 0x2000];
    let mut c = Cartridge::new(rom(0, 0x03, 2), Some(save.clone())).unwrap();
    c.write_rom(0x0000, 0x0a);
    assert_eq!(c.read_ram(0xa000), 5);
    assert_eq!(c.ram(), &save[..]);
}

#[test]
fn boot_rom_maps_until_deactivated() {
    let mut b = BootRom::new(vec![1, 2, 3]);
    assert!(b.is_active());
    assert_eq!(b.read(1), 2);
    assert_eq!(b.read(10), 0xff);
    b.deactivate();
    assert!(!b.is_active());
}

#[test]
fn checksum_check_reports_invalid_checksum() {
    let r = rom(0, 0x00, 0);
    assert_eq!(Header::new(&r).unwrap().check_checksum(), Ok(()));
    let mut r = rom(0, 0x00, 0);
    r[0x14d] ^= 0xff;
    assert_eq!(Header::new(&r).unwrap().check_checksum(), Err(Error::InvalidChecksum));
}

#[test]
fn reads_stay_in_bounds_after_any_controller_writes() {
    let kinds: [(u8, u8, u8); 6] =
        [(0x00, 0, 0), (0x03, 2, 3), (0x06, 1, 0), (0x13, 3, 5), (0x1b, 4, 4), (0x1e, 0, 1)];
    for (mbc, size, ram) in kinds {
        let r = rom(size, mbc, ram);
        let len = r.len();
        let mut c = Cartridge::new(r, None).unwrap();
        let mut val: u8 = 0;
        for addr in (0u32..0x8000).step_by(0x0fff) {
            for _ in 0..4 {
                val = val.wrapping_mul(31).wrapping_add(17);
                c.write_rom(addr as u16, val);
                for read_at in [0x0000u16, 0x3fff, 0x4000, 0x7fff] {
                    let bank_lo = c.read_rom(read_at & !1) as usize;
                    let bank_hi = c.read_rom(read_at | 1) as usize;
                    assert!((bank_hi << 8 | bank_lo) * 0x4000 < len);
                }
                c.write_ram(0xa000 + (val as u16) * 31, val);
                let _ = c.read_ram(0xbfff);
            }
        }
    }
}

/// Writes clock register `reg` (0..5) of an MBC3 cart with RAM enabled.
fn set_clock(c: &mut Cartridge, reg: u8, v: u8) {
    c.write_rom(0x4000, 0x08 + reg);
    c.write_ram(0xa000, v);
}

fn latched(c: &mut Cartridge, reg: u8) -> u8 {
    c.write_rom(0x6000, 0);
    c.write_rom(0x6000, 1);
    c.write_rom(0x4000, 0x08 + reg);
    c.read_ram(0xa000)
}

#[test]
fn rtc_advances_with_rollover() {
    let mut c = Cartridge::new(rom(0, 0x10, 2), None).unwrap();
    c.write_rom(0x0000, 0x0a);
    set_clock(&mut c, 0, 59);
    set_clock(&mut c, 1, 59);
    set_clock(&mut c, 2, 5);
    c.advance_rtc(1);
    assert_eq!(latched(&mut c, 0), 0);
    assert_eq!(latched(&mut c, 1), 0);
    assert_eq!(latched(&mut c, 2), 6);
    c.advance_rtc(3 * 86400 + 61);
    assert_eq!(latched(&mut c, 0), 1);
    assert_eq!(latched(&mut c, 1), 1);
    assert_eq!(latched(&mut c, 3), 3);
}

#[test]
fn rtc_day_counter_overflow_sets_carry() {
    let mut c = Cartridge::new(rom(0, 0x10, 2), None).unwrap();
    c.write_rom(0x0000, 0x0a);
    set_clock(&mut c, 0, 59);
    set_clock(&mut c, 1, 59);
    set_clock(&mut c, 2, 23);
    set_clock(&mut c, 3, 0xff);
    set_clock(&mut c, 4, 0x01);
    c.advance_rtc(1);
    assert_eq!(latched(&mut c, 3), 0);
    assert_eq!(latched(&mut c, 4), 0x80);
}

#[test]
fn rtc_halted_does_not_advance() {
    let mut c = Cartridge::new(rom(0, 0x10, 2), None).unwrap();
    c.write_rom(0x0000, 0x0a);
    set_clock(&mut c, 4, 0x40);
    c.advance_rtc(100);
    assert_eq!(latched(&mut c, 0), 0);
    assert_eq!(latched(&mut c, 4), 0x40);
}

#[test]
fn rtc_save_round_trip() {
    let mut c = Cartridge::new(rom(0, 0x10, 2), None).unwrap();
    c.write_rom(0x0000, 0x0a);
    set_clock(&mut c, 0, 12);
    set_clock(&mut c, 2, 7);
    let _ = latched(&mut c, 0);
    let save = c.rtc_save(0x0102030405060708);
    assert_eq!(save.len(), 48);
    assert_eq!(save[0], 12);
    assert_eq!(save[8], 7);
    assert_eq!(save[20], 12);
    assert_eq!(&save[40..48], &[8, 7, 6, 5, 4, 3, 2, 1]);
    let mut d = Cartridge::new(rom(0, 0x10, 2), None).unwrap();
    assert_eq!(d.load_rtc_save(&save), Ok(()));
    d.write_rom(0x0000, 0x0a);
    d.write_rom(0x4000, 0x08);
    assert_eq!(d.read_ram(0xa000), 12);
    assert_eq!(d.rtc_save(0x0102030405060708), save);
    assert_eq!(
        d.load_rtc_save(&save[..10]),
        Err(Error::RamSizeMismatch { expected: 48, got: 10 })
    );
    let mut e = Cartridge::new(rom(0, 0x03, 2), None).unwrap();
    assert!(e.load_rtc_save(&save).is_err());
    assert!(e.rtc_save(0).is_empty());
}
