use vstd::arithmetic::div_mod::{lemma_add_mod_noop, lemma_mod_bound, lemma_small_mod};
use vstd::prelude::*;

verus! {

pub const ROM_BANK_SIZE: usize = 0x4000;

pub const RAM_BANK_SIZE: usize = 0x2000;

/// Bytes of clock state that may follow the RAM in a save: ten 32-bit
/// little-endian registers (live seconds, minutes, hours, day low, day high,
/// then the latched copies) and a 64-bit timestamp.
pub const RTC_SAVE_LEN: usize = 48;

/// Size of the MBC2 chip's built-in RAM (512 four-bit cells, one per byte).
pub const MBC2_RAM_SIZE: usize = 0x200;

/// Why a cartridge or a save could not be loaded.
#[derive(Debug, Clone, Copy, PartialEq, Eq, Structural)]
pub enum Error {
    /// The image is not exactly as long as its size byte declares, or the
    /// byte names no known size (the byte is 0 when the image has no header).
    InvalidRomSize { byte: u8 },
    InvalidRamSize { byte: u8 },
    InvalidChecksum,
    /// The cartridge-type byte names no known controller.
    InvalidMbc { byte: u8 },
    /// The cartridge-type byte names a controller this emulator lacks.
    UnsupportedMbc { byte: u8 },
    RamSizeMismatch { expected: usize, got: usize },
    BootRomSize { expected: usize, got: usize },
}

#[derive(Debug, Clone, Copy, PartialEq, Eq, Structural)]
pub enum CgbFlag {
    NoCgb,
    CgbCompatible,
    CgbOnly,
}

/// Metadata read from bytes 0x0100..0x0150 of a ROM image.
pub struct Header {
    /// The title bytes, up to the first NUL.
    pub title: Vec<u8>,
    pub cgb_flag: CgbFlag,
    /// The cartridge-type byte (0x0147).
    pub mbc_byte: u8,
    pub rom_size: usize,
    pub ram_size: usize,
    pub has_battery: bool,
    pub has_rumble: bool,
    pub has_rtc: bool,
    /// Whether byte 0x014D matches the checksum of 0x0134..=0x014C.
    pub checksum_valid: bool,
}

/// ROM length declared by size byte `b`: 32 KiB doubled `b` times.
pub open spec fn rom_size_of(b: u8) -> int {
    0x8000 * pow2_nat(b as nat)
}

pub open spec fn pow2_nat(n: nat) -> int
    decreases n,
{
    if n == 0 {
        1
    } else {
        2 * pow2_nat((n - 1) as nat)
    }
}

/// RAM length declared by size byte `b`, if the byte is known.
pub open spec fn ram_size_of(b: u8) -> Option<int> {
    if b == 0 {
        Some(0)
    } else if b == 1 {
        Some(0x800)
    } else if b == 2 {
        Some(0x2000)
    } else if b == 3 {
        Some(0x8000)
    } else if b == 4 {
        Some(0x20000)
    } else if b == 5 {
        Some(0x10000)
    } else {
        None
    }
}

/// The controller family (0, 1, 2, 3 or 5) named by a cartridge-type byte.
pub open spec fn mbc_family(b: u8) -> Option<int> {
    if b == 0x00 {
        Some(0)
    } else if 0x01 <= b <= 0x03 {
        Some(1)
    } else if b == 0x05 || b == 0x06 {
        Some(2)
    } else if 0x0f <= b <= 0x13 {
        Some(3)
    } else if 0x19 <= b <= 0x1e {
        Some(5)
    } else {
        None
    }
}

/// Cartridge-type bytes of real controllers that this emulator lacks.
pub open spec fn mbc_unsupported(b: u8) -> bool {
    b == 0x08 || b == 0x09 || b == 0x0b || b == 0x0c || b == 0x0d || b == 0x20 || b == 0x22
        || b >= 0xfc
}

pub open spec fn battery_of(b: u8) -> bool {
    b == 0x03 || b == 0x06 || b == 0x0f || b == 0x10 || b == 0x13 || b == 0x1b || b == 0x1e
}

pub open spec fn rumble_of(b: u8) -> bool {
    0x1c <= b <= 0x1e
}

pub open spec fn rtc_of(b: u8) -> bool {
    b == 0x0f || b == 0x10
}

pub open spec fn cgb_flag_of(b: u8) -> CgbFlag {
    if b == 0xc0 {
        CgbFlag::CgbOnly
    } else if b >= 0x80 {
        CgbFlag::CgbCompatible
    } else {
        CgbFlag::NoCgb
    }
}

/// The header checksum over bytes 0x0134..i: each byte is subtracted, plus one.
pub open spec fn checksum_upto(rom: Seq<u8>, i: int) -> int
    decreases i - 0x134,
{
    if i <= 0x134 {
        0
    } else {
        (checksum_upto(rom, i - 1) - rom[i - 1] - 1) % 256
    }
}

/// The title ends at the first NUL in 0x0134..0x0144, or at 0x0144.
pub open spec fn is_title_end(rom: Seq<u8>, e: int) -> bool {
    &&& 0x134 <= e <= 0x144
    &&& (e == 0x144 || rom[e] == 0)
    &&& forall|j: int| 0x134 <= j < e ==> rom[j] != 0
}

/// The RAM length a cartridge gets: MBC2 carries its own 512 cells.
pub open spec fn cart_ram_size(mbc_byte: u8, ram_byte: u8) -> int {
    if mbc_family(mbc_byte) == Some(2int) {
        MBC2_RAM_SIZE as int
    } else {
        ram_size_of(ram_byte).unwrap()
    }
}

/// The error, if any, that loading `rom` gives (checks in header order).
pub open spec fn header_error(rom: Seq<u8>) -> Option<Error> {
    if rom.len() < 0x8000 {
        Some(Error::InvalidRomSize { byte: if rom.len() > 0x148 { rom[0x148] } else { 0 } })
    } else if rom[0x148] > 8 || rom.len() != rom_size_of(rom[0x148]) {
        Some(Error::InvalidRomSize { byte: rom[0x148] })
    } else if ram_size_of(rom[0x149]) is None {
        Some(Error::InvalidRamSize { byte: rom[0x149] })
    } else if mbc_family(rom[0x147]) is None {
        if mbc_unsupported(rom[0x147]) {
            Some(Error::UnsupportedMbc { byte: rom[0x147] })
        } else {
            Some(Error::InvalidMbc { byte: rom[0x147] })
        }
    } else {
        None
    }
}

impl Header {
    /// The header fields are those that `rom` declares.
    pub open spec fn describes(&self, rom: Seq<u8>) -> bool {
        &&& rom.len() >= 0x8000
        &&& self.cgb_flag == cgb_flag_of(rom[0x143])
        &&& self.mbc_byte == rom[0x147]
        &&& self.rom_size == rom.len()
        &&& rom[0x148] <= 8
        &&& self.rom_size == rom_size_of(rom[0x148])
        &&& ram_size_of(rom[0x149]) == Some(self.ram_size as int)
        &&& mbc_family(rom[0x147]) is Some
        &&& self.has_battery == battery_of(rom[0x147])
        &&& self.has_rumble == rumble_of(rom[0x147])
        &&& self.has_rtc == rtc_of(rom[0x147])
        &&& self.checksum_valid == (checksum_upto(rom, 0x14d) == rom[0x14d])
        &&& is_title_end(rom, 0x134 + self.title@.len() as int)
        &&& self.title@ == rom.subrange(0x134, 0x134 + self.title@.len() as int)
    }

    /// Reads and validates the header of a ROM image.
    pub fn new(rom: &[u8]) -> (r: Result<Header, Error>)
        ensures
            header_error(rom@) is None <==> r is Ok,
            r matches Ok(h) ==> h.describes(rom@),
            r matches Err(e) ==> header_error(rom@) == Some(e),
    {
        let len = rom.len();
        if len < 0x8000 {
            let byte = if len > 0x148 { rom[0x148] } else { 0 };
            return Err(Error::InvalidRomSize { byte });
        }
        let size_byte = rom[0x148];
        if size_byte > 8 {
            return Err(Error::InvalidRomSize { byte: size_byte });
        }
        let rom_size = rom_size_from_byte(size_byte);
        if len != rom_size {
            return Err(Error::InvalidRomSize { byte: size_byte });
        }
        let ram_size = match ram_size_from_byte(rom[0x149]) {
            Some(s) => s,
            None => return Err(Error::InvalidRamSize { byte: rom[0x149] }),
        };
        let mbc_byte = rom[0x147];
        if !((mbc_byte == 0x00) || (0x01 <= mbc_byte && mbc_byte <= 0x03) || mbc_byte == 0x05
            || mbc_byte == 0x06 || (0x0f <= mbc_byte && mbc_byte <= 0x13) || (0x19 <= mbc_byte
            && mbc_byte <= 0x1e)) {
            if mbc_byte == 0x08 || mbc_byte == 0x09 || mbc_byte == 0x0b || mbc_byte == 0x0c
                || mbc_byte == 0x0d || mbc_byte == 0x20 || mbc_byte == 0x22 || mbc_byte >= 0xfc {
                return Err(Error::UnsupportedMbc { byte: mbc_byte });
            }
            return Err(Error::InvalidMbc { byte: mbc_byte });
        }
        let cgb = rom[0x143];
        let cgb_flag = if cgb == 0xc0 {
            CgbFlag::CgbOnly
        } else if cgb >= 0x80 {
            CgbFlag::CgbCompatible
        } else {
            CgbFlag::NoCgb
        };
        let has_battery = mbc_byte == 0x03 || mbc_byte == 0x06 || mbc_byte == 0x0f || mbc_byte
            == 0x10 || mbc_byte == 0x13 || mbc_byte == 0x1b || mbc_byte == 0x1e;
        let has_rumble = 0x1c <= mbc_byte && mbc_byte <= 0x1e;
        let has_rtc = mbc_byte == 0x0f || mbc_byte == 0x10;
        let checksum_valid = header_checksum(rom) == rom[0x14d];
        let title = read_title(rom);
        Ok(Header {
            title,
            cgb_flag,
            mbc_byte,
            rom_size,
            ram_size,
            has_battery,
            has_rumble,
            has_rtc,
            checksum_valid,
        })
    }

    /// `InvalidChecksum` when byte 0x014D does not match the header bytes.
    pub fn check_checksum(&self) -> (r: Result<(), Error>)
        ensures
            self.checksum_valid <==> r is Ok,
            r matches Err(e) ==> e == Error::InvalidChecksum,
    {
        if self.checksum_valid {
            Ok(())
        } else {
            Err(Error::InvalidChecksum)
        }
    }
}

fn rom_size_from_byte(b: u8) -> (r: usize)
    requires
        b <= 8,
    ensures
        r == rom_size_of(b),
{
    let mut size: usize = 0x8000;
    let mut i: u8 = 0;
    while i < b
        invariant
            i <= b <= 8,
            size == 0x8000 * pow2_nat(i as nat),
            size <= 0x8000 * 256,
        decreases b - i,
    {
        proof {
            assert(pow2_nat((i + 1) as nat) == 2 * pow2_nat(i as nat));
            lemma_pow2_bound(i as nat);
        }
        size = size * 2;
        i = i + 1;
    }
    size
}

proof fn lemma_pow2_bound(n: nat)
    requires
        n <= 8,
    ensures
        pow2_nat(n) <= 256,
        n < 8 ==> pow2_nat(n) <= 128,
        pow2_nat(n) >= 1,
{
    reveal_with_fuel(pow2_nat, 9);
}

fn ram_size_from_byte(b: u8) -> (r: Option<usize>)
    ensures
        r matches Some(s) ==> ram_size_of(b) == Some(s as int),
        r is None ==> ram_size_of(b) is None,
{
    match b {
        0 => Some(0),
        1 => Some(0x800),
        2 => Some(0x2000),
        3 => Some(0x8000),
        4 => Some(0x20000),
        5 => Some(0x10000),
        _ => None,
    }
}

fn header_checksum(rom: &[u8]) -> (r: u8)
    requires
        rom@.len() >= 0x14e,
    ensures
        r == checksum_upto(rom@, 0x14d),
{
    let mut x: u8 = 0;
    let mut i: usize = 0x134;
    while i < 0x14d
        invariant
            0x134 <= i <= 0x14d,
            rom@.len() >= 0x14e,
            x == checksum_upto(rom@, i as int),
        decreases 0x14d - i,
    {
        x = x.wrapping_sub(rom[i]).wrapping_sub(1);
        proof {
            let c = checksum_upto(rom@, i as int);
            assert(0 <= c < 256) by {
                lemma_checksum_bound(rom@, i as int);
            }
        }
        i = i + 1;
    }
    x
}

proof fn lemma_checksum_bound(rom: Seq<u8>, i: int)
    ensures
        0 <= checksum_upto(rom, i) < 256,
    decreases i - 0x134,
{
    if i > 0x134 {
        lemma_checksum_bound(rom, i - 1);
    }
}

fn read_title(rom: &[u8]) -> (r: Vec<u8>)
    requires
        rom@.len() >= 0x150,
    ensures
        is_title_end(rom@, 0x134 + r@.len() as int),
        r@ == rom@.subrange(0x134, 0x134 + r@.len() as int),
{
    let mut title: Vec<u8> = Vec::new();
    let mut i: usize = 0x134;
    while i < 0x144 && rom[i] != 0
        invariant
            0x134 <= i <= 0x144,
            rom@.len() >= 0x150,
            title@.len() == i - 0x134,
            title@ == rom@.subrange(0x134, i as int),
            forall|j: int| 0x134 <= j < i ==> rom@[j] != 0,
        decreases 0x144 - i,
    {
        title.push(rom[i]);
        proof {
            assert(rom@.subrange(0x134, i + 1) == rom@.subrange(0x134, i as int).push(rom@[i as int]));
        }
        i = i + 1;
    }
    title
}


/// MBC1 registers.
#[derive(Debug, Clone, Copy)]
pub struct Mbc1 {
    pub ram_enabled: bool,
    /// The five-bit bank register, never 0.
    pub bank_lo: u8,
    /// The two-bit register: upper ROM bank bits, or the RAM bank.
    pub bank_hi: u8,
    /// Banking mode 1: `bank_hi` also applies to 0x0000..0x4000 and to RAM.
    pub ram_mode: bool,
}

impl Mbc1 {
    pub open spec fn wf(self) -> bool {
        1 <= self.bank_lo < 32 && self.bank_hi < 4
    }

    pub open spec fn after_write(self, addr: u16, val: u8) -> Self {
        if addr < 0x2000 {
            Mbc1 { ram_enabled: val % 16 == 0xa, ..self }
        } else if addr < 0x4000 {
            Mbc1 { bank_lo: if val % 32 == 0 { 1 } else { val % 32 }, ..self }
        } else if addr < 0x6000 {
            Mbc1 { bank_hi: val % 4, ..self }
        } else if addr < 0x8000 {
            Mbc1 { ram_mode: val % 2 == 1, ..self }
        } else {
            self
        }
    }

    fn written(self, addr: u16, val: u8) -> (r: Self)
        ensures
            r == self.after_write(addr, val),
    {
        if addr < 0x2000 {
            Mbc1 { ram_enabled: val % 16 == 0xa, ..self }
        } else if addr < 0x4000 {
            Mbc1 { bank_lo: if val % 32 == 0 { 1 } else { val % 32 }, ..self }
        } else if addr < 0x6000 {
            Mbc1 { bank_hi: val % 4, ..self }
        } else if addr < 0x8000 {
            Mbc1 { ram_mode: val % 2 == 1, ..self }
        } else {
            self
        }
    }
}

/// MBC2 registers.
#[derive(Debug, Clone, Copy)]
pub struct Mbc2 {
    pub ram_enabled: bool,
    /// The four-bit ROM bank, never 0.
    pub bank: u8,
}

impl Mbc2 {
    pub open spec fn wf(self) -> bool {
        1 <= self.bank < 16
    }

    /// Writes below 0x4000 go to the RAM gate when address bit 8 is clear and
    /// to the bank register when it is set.
    pub open spec fn after_write(self, addr: u16, val: u8) -> Self {
        if addr < 0x4000 {
            if (addr / 0x100) % 2 == 0 {
                Mbc2 { ram_enabled: val % 16 == 0xa, ..self }
            } else {
                Mbc2 { bank: if val % 16 == 0 { 1 } else { val % 16 }, ..self }
            }
        } else {
            self
        }
    }

    fn written(self, addr: u16, val: u8) -> (r: Self)
        ensures
            r == self.after_write(addr, val),
    {
        if addr < 0x4000 {
            if (addr / 0x100) % 2 == 0 {
                Mbc2 { ram_enabled: val % 16 == 0xa, ..self }
            } else {
                Mbc2 { bank: if val % 16 == 0 { 1 } else { val % 16 }, ..self }
            }
        } else {
            self
        }
    }
}

/// MBC3 registers, with the clock registers of carts that have one.
#[derive(Debug, Clone, Copy)]
pub struct Mbc3 {
    pub ram_enabled: bool,
    /// The seven-bit ROM bank, never 0.
    pub bank: u8,
    /// 0x00..=0x07 selects a RAM bank, 0x08..=0x0C a clock register.
    pub map_select: u8,
    /// MBC30: eight RAM banks instead of four.
    pub mbc30: bool,
    /// Clock registers: seconds, minutes, hours, day low, day high/flags.
    pub rtc: [u8; 5],
    /// The copy of `rtc` that reads see, taken at the last latch.
    pub rtc_latched: [u8; 5],
    /// The last write to 0x6000..0x8000 was 0, so a 1 latches the clock.
    pub latch_armed: bool,
}

impl Mbc3 {
    pub open spec fn wf(self) -> bool {
        1 <= self.bank < 128 && self.map_select < 16
    }

    pub open spec fn after_write(self, addr: u16, val: u8) -> Self {
        if addr < 0x2000 {
            Mbc3 { ram_enabled: val % 16 == 0xa, ..self }
        } else if addr < 0x4000 {
            Mbc3 { bank: if val % 128 == 0 { 1 } else { val % 128 }, ..self }
        } else if addr < 0x6000 {
            Mbc3 { map_select: val % 16, ..self }
        } else if addr < 0x8000 {
            if self.latch_armed && val == 1 {
                Mbc3 { rtc_latched: self.rtc, latch_armed: false, ..self }
            } else {
                Mbc3 { latch_armed: val == 0, ..self }
            }
        } else {
            self
        }
    }

    fn written(self, addr: u16, val: u8) -> (r: Self)
        ensures
            r == self.after_write(addr, val),
    {
        if addr < 0x2000 {
            Mbc3 { ram_enabled: val % 16 == 0xa, ..self }
        } else if addr < 0x4000 {
            Mbc3 { bank: if val % 128 == 0 { 1 } else { val % 128 }, ..self }
        } else if addr < 0x6000 {
            Mbc3 { map_select: val % 16, ..self }
        } else if addr < 0x8000 {
            if self.latch_armed && val == 1 {
                Mbc3 { rtc_latched: self.rtc, latch_armed: false, ..self }
            } else {
                Mbc3 { latch_armed: val == 0, ..self }
            }
        } else {
            self
        }
    }
}

/// MBC5 registers.
#[derive(Debug, Clone, Copy)]
pub struct Mbc5 {
    pub ram_enabled: bool,
    /// The nine-bit ROM bank; 0 is a valid bank here.
    pub bank: u16,
    pub ram_bank: u8,
    pub has_rumble: bool,
    /// Whether the rumble motor is driven (carts with rumble only).
    pub rumble_on: bool,
}

impl Mbc5 {
    pub open spec fn wf(self) -> bool {
        self.bank < 512 && self.ram_bank < 16
    }

    pub open spec fn after_write(self, addr: u16, val: u8) -> Self {
        if addr < 0x2000 {
            Mbc5 { ram_enabled: val % 16 == 0xa, ..self }
        } else if addr < 0x3000 {
            Mbc5 { bank: ((self.bank / 256) * 256 + val) as u16, ..self }
        } else if addr < 0x4000 {
            Mbc5 { bank: ((val % 2) as int * 256 + self.bank % 256) as u16, ..self }
        } else if addr < 0x6000 {
            if self.has_rumble {
                Mbc5 { ram_bank: val % 8, rumble_on: (val / 8) % 2 == 1, ..self }
            } else {
                Mbc5 { ram_bank: val % 16, ..self }
            }
        } else {
            self
        }
    }

    fn written(self, addr: u16, val: u8) -> (r: Self)
        requires
            self.wf(),
        ensures
            r == self.after_write(addr, val),
    {
        if addr < 0x2000 {
            Mbc5 { ram_enabled: val % 16 == 0xa, ..self }
        } else if addr < 0x3000 {
            Mbc5 { bank: (self.bank / 256) * 256 + val as u16, ..self }
        } else if addr < 0x4000 {
            Mbc5 { bank: (val % 2) as u16 * 256 + self.bank % 256, ..self }
        } else if addr < 0x6000 {
            if self.has_rumble {
                Mbc5 { ram_bank: val % 8, rumble_on: (val / 8) % 2 == 1, ..self }
            } else {
                Mbc5 { ram_bank: val % 16, ..self }
            }
        } else {
            self
        }
    }
}

/// The cartridge's memory bank controller and its registers.
#[derive(Debug, Clone, Copy)]
pub enum Mbc {
    RomOnly,
    One(Mbc1),
    Two(Mbc2),
    Three(Mbc3),
    Five(Mbc5),
}

impl Mbc {
    pub open spec fn wf(self) -> bool {
        match self {
            Mbc::RomOnly => true,
            Mbc::One(m) => m.wf(),
            Mbc::Two(m) => m.wf(),
            Mbc::Three(m) => m.wf(),
            Mbc::Five(m) => m.wf(),
        }
    }

    /// The registers after the CPU writes `val` to ROM address `addr`.
    pub open spec fn after_write(self, addr: u16, val: u8) -> Self {
        match self {
            Mbc::RomOnly => Mbc::RomOnly,
            Mbc::One(m) => Mbc::One(m.after_write(addr, val)),
            Mbc::Two(m) => Mbc::Two(m.after_write(addr, val)),
            Mbc::Three(m) => Mbc::Three(m.after_write(addr, val)),
            Mbc::Five(m) => Mbc::Five(m.after_write(addr, val)),
        }
    }

    /// The ROM bank shown at 0x0000..0x4000.
    pub open spec fn lower_bank(self) -> int {
        match self {
            Mbc::One(m) => if m.ram_mode { m.bank_hi * 32 } else { 0 },
            _ => 0,
        }
    }

    /// The ROM bank shown at 0x4000..0x8000.
    pub open spec fn upper_bank(self) -> int {
        match self {
            Mbc::RomOnly => 1,
            Mbc::One(m) => m.bank_hi * 32 + m.bank_lo,
            Mbc::Two(m) => m.bank as int,
            Mbc::Three(m) => m.bank as int,
            Mbc::Five(m) => m.bank as int,
        }
    }

    /// The RAM bank shown at 0xA000..0xC000.
    pub open spec fn ram_bank(self) -> int {
        match self {
            Mbc::One(m) => if m.ram_mode { m.bank_hi as int } else { 0 },
            Mbc::Three(m) => if m.map_select < 8 { m.map_select as int } else { 0 },
            Mbc::Five(m) => m.ram_bank as int,
            _ => 0,
        }
    }

    /// Whether the external RAM window reaches RAM (not a clock register).
    pub open spec fn ram_accessible(self) -> bool {
        match self {
            Mbc::RomOnly => false,
            Mbc::One(m) => m.ram_enabled,
            Mbc::Two(m) => m.ram_enabled,
            Mbc::Three(m) => m.ram_enabled && (m.map_select < 4 || (m.map_select < 8
                && m.mbc30)),
            Mbc::Five(m) => m.ram_enabled,
        }
    }

    /// The clock register that the RAM window shows, if any.
    pub open spec fn rtc_register(self) -> Option<int> {
        match self {
            Mbc::Three(m) => if m.ram_enabled && 8 <= m.map_select <= 0x0c {
                Some(m.map_select - 8)
            } else {
                None
            },
            _ => None,
        }
    }

    fn written(self, addr: u16, val: u8) -> (r: Self)
        requires
            self.wf(),
        ensures
            r == self.after_write(addr, val),
    {
        match self {
            Mbc::RomOnly => Mbc::RomOnly,
            Mbc::One(m) => Mbc::One(m.written(addr, val)),
            Mbc::Two(m) => Mbc::Two(m.written(addr, val)),
            Mbc::Three(m) => Mbc::Three(m.written(addr, val)),
            Mbc::Five(m) => Mbc::Five(m.written(addr, val)),
        }
    }
}

proof fn lemma_after_write_wf(m: Mbc, addr: u16, val: u8)
    requires
        m.wf(),
    ensures
        m.after_write(addr, val).wf(),
{
}


impl Mbc {
    /// The lower ROM bank, upper ROM bank and RAM bank, as numbers.
    fn banks(&self) -> (r: (usize, usize, usize))
        requires
            self.wf(),
        ensures
            r.0 == self.lower_bank(),
            r.1 == self.upper_bank(),
            r.2 == self.ram_bank(),
            r.0 < 128 && r.1 < 512 && r.2 < 16,
    {
        match self {
            Mbc::RomOnly => (0, 1, 0),
            Mbc::One(m) => {
                let lower: usize = if m.ram_mode { m.bank_hi as usize * 32 } else { 0 };
                let ram: usize = if m.ram_mode { m.bank_hi as usize } else { 0 };
                (lower, m.bank_hi as usize * 32 + m.bank_lo as usize, ram)
            },
            Mbc::Two(m) => (0, m.bank as usize, 0),
            Mbc::Three(m) => {
                let ram: usize = if m.map_select < 8 { m.map_select as usize } else { 0 };
                (0, m.bank as usize, ram)
            },
            Mbc::Five(m) => (0, m.bank as usize, m.ram_bank as usize),
        }
    }

    fn ram_accessible_exec(&self) -> (r: bool)
        ensures
            r == self.ram_accessible(),
    {
        match self {
            Mbc::RomOnly => false,
            Mbc::One(m) => m.ram_enabled,
            Mbc::Two(m) => m.ram_enabled,
            Mbc::Three(m) => m.ram_enabled && (m.map_select < 4 || (m.map_select < 8
                && m.mbc30)),
            Mbc::Five(m) => m.ram_enabled,
        }
    }
}

/// `m` holds the registers of a freshly inserted cartridge with type byte `b`.
pub open spec fn is_initial_mbc(m: Mbc, b: u8, ram_size: int) -> bool {
    let f = mbc_family(b);
    if f == Some(1int) {
        m == Mbc::One(Mbc1 { ram_enabled: false, bank_lo: 1, bank_hi: 0, ram_mode: false })
    } else if f == Some(2int) {
        m == Mbc::Two(Mbc2 { ram_enabled: false, bank: 1 })
    } else if f == Some(3int) {
        &&& m is Three
        &&& !m->Three_0.ram_enabled
        &&& m->Three_0.bank == 1
        &&& m->Three_0.map_select == 0
        &&& m->Three_0.mbc30 == (ram_size >= 0x10000)
        &&& !m->Three_0.latch_armed
        &&& forall|i: int| 0 <= i < 5 ==> m->Three_0.rtc@[i] == 0 && m->Three_0.rtc_latched@[i] == 0
    } else if f == Some(5int) {
        m == Mbc::Five(
            Mbc5 {
                ram_enabled: false,
                bank: 1,
                ram_bank: 0,
                has_rumble: rumble_of(b),
                rumble_on: false,
            },
        )
    } else {
        m == Mbc::RomOnly
    }
}

/// A cartridge: its ROM image, its RAM, and the controller that maps them.
pub struct Cartridge {
    mbc: Mbc,
    rom: Vec<u8>,
    header_info: Header,
    has_battery: bool,
    ram: Vec<u8>,
    /// Byte offsets of the lower and upper ROM banks, kept in step with `mbc`.
    rom_offsets: (usize, usize),
    /// Byte offset of the RAM bank, kept in step with `mbc`.
    ram_offset: usize,
}

/// The bytes written back into RAM, and the outcome, of restoring a save.
pub open spec fn reloaded(
    before: Cartridge,
    bytes: Seq<u8>,
    after: Cartridge,
    r: Result<(), Error>,
) -> bool {
    &&& after.wf()
    &&& after.rom_bytes() == before.rom_bytes()
    &&& after.mbc_state() == before.mbc_state()
    &&& if bytes.len() == before.ram_bytes().len() {
        r is Ok && after.ram_bytes() == bytes
    } else {
        r == Err::<(), Error>(
            Error::RamSizeMismatch {
                expected: before.ram_bytes().len() as usize,
                got: bytes.len() as usize,
            },
        ) && after.ram_bytes() == before.ram_bytes()
    }
}

impl Cartridge {
    pub closed spec fn rom_bytes(&self) -> Seq<u8> {
        self.rom@
    }

    pub closed spec fn ram_bytes(&self) -> Seq<u8> {
        self.ram@
    }

    pub closed spec fn mbc_state(&self) -> Mbc {
        self.mbc
    }

    pub closed spec fn header_view(&self) -> Header {
        self.header_info
    }

    pub closed spec fn battery(&self) -> bool {
        self.has_battery
    }

    pub closed spec fn wf(&self) -> bool {
        let rl = self.rom@.len() as int;
        let al = self.ram@.len() as int;
        &&& self.mbc.wf()
        &&& 0x8000 <= rl <= 0x800000
        &&& al <= 0x20000
        &&& self.rom_offsets.0 == (self.mbc.lower_bank() * 0x4000) % rl
        &&& self.rom_offsets.1 == (self.mbc.upper_bank() * 0x4000) % rl
        &&& self.ram_offset == if al == 0 {
            0
        } else {
            (self.mbc.ram_bank() * 0x2000) % al
        }
    }

    /// Where a ROM read at `addr` lands: the bank's start plus the offset
    /// within the bank, wrapped to the image (the image length is a power
    /// of two, so this is masking with `len - 1`).
    pub open spec fn rom_index(&self, addr: u16) -> int {
        let bank = if addr < 0x4000 {
            self.mbc_state().lower_bank()
        } else {
            self.mbc_state().upper_bank()
        };
        if addr < 0x8000 {
            (bank * 0x4000 + addr % 0x4000) % (self.rom_bytes().len() as int)
        } else {
            0
        }
    }

    /// Where a RAM access at `addr` lands, for a cartridge with RAM.
    pub open spec fn ram_index(&self, addr: u16) -> int {
        (self.mbc_state().ram_bank() * 0x2000 + addr % 0x2000) % (self.ram_bytes().len() as int)
    }

    /// What a read of the external RAM window at `addr` returns.
    pub open spec fn ram_read_value(&self, addr: u16) -> u8 {
        let m = self.mbc_state();
        if m.ram_accessible() && self.ram_bytes().len() > 0 {
            let b = self.ram_bytes()[self.ram_index(addr)];
            if m is Two {
                (b % 16 + 0xf0) as u8
            } else {
                b
            }
        } else if m.rtc_register() is Some {
            m->Three_0.rtc_latched@[m.rtc_register().unwrap()]
        } else {
            0xff
        }
    }

    /// Loads a ROM image, with the saved RAM if there is one.
    pub fn new(rom: Vec<u8>, ram: Option<Vec<u8>>) -> (r: Result<Cartridge, Error>)
        ensures
            header_error(rom@) matches Some(e) ==> r == Err::<Cartridge, Error>(e),
            header_error(rom@) is None ==> {
                let expected = cart_ram_size(rom@[0x147], rom@[0x149]);
                match ram {
                    Some(v) if v@.len() != expected => r == Err::<Cartridge, Error>(
                        Error::RamSizeMismatch { expected: expected as usize, got: v@.len() as usize },
                    ),
                    _ => r is Ok,
                }
            },
            r matches Ok(c) ==> {
                &&& c.wf()
                &&& c.rom_bytes() == rom@
                &&& c.header_view().describes(rom@)
                &&& is_initial_mbc(c.mbc_state(), rom@[0x147], c.ram_bytes().len() as int)
                &&& c.battery() == battery_of(rom@[0x147])
                &&& c.ram_bytes().len() == cart_ram_size(rom@[0x147], rom@[0x149])
                &&& match ram {
                    Some(v) => c.ram_bytes() == v@,
                    None => forall|i: int| 0 <= i < c.ram_bytes().len() ==> c.ram_bytes()[i] == 0,
                }
            },
    {
        let header_info = match Header::new(rom.as_slice()) {
            Ok(h) => h,
            Err(e) => return Err(e),
        };
        let b = header_info.mbc_byte;
        let expected: usize = if b == 0x05 || b == 0x06 {
            MBC2_RAM_SIZE
        } else {
            header_info.ram_size
        };
        let ram = match ram {
            Some(v) => {
                if v.len() != expected {
                    return Err(Error::RamSizeMismatch { expected, got: v.len() });
                }
                v
            },
            None => filled(expected, 0),
        };
        let mbc = if b == 0x00 {
            Mbc::RomOnly
        } else if b <= 0x03 {
            Mbc::One(Mbc1 { ram_enabled: false, bank_lo: 1, bank_hi: 0, ram_mode: false })
        } else if b <= 0x06 {
            Mbc::Two(Mbc2 { ram_enabled: false, bank: 1 })
        } else if b <= 0x13 {
            Mbc::Three(
                Mbc3 {
                    ram_enabled: false,
                    bank: 1,
                    map_select: 0,
                    mbc30: expected >= 0x10000,
                    rtc: [0u8; 5],
                    rtc_latched: [0u8; 5],
                    latch_armed: false,
                },
            )
        } else {
            Mbc::Five(
                Mbc5 {
                    ram_enabled: false,
                    bank: 1,
                    ram_bank: 0,
                    has_rumble: header_info.has_rumble,
                    rumble_on: false,
                },
            )
        };
        let has_battery = header_info.has_battery;
        proof {
            lemma_pow2_bound(rom@[0x148] as nat);
        }
        let mut cart = Cartridge {
            mbc,
            rom,
            header_info,
            has_battery,
            ram,
            rom_offsets: (0, 0),
            ram_offset: 0,
        };
        cart.update_offsets();
        Ok(cart)
    }

    /// Recomputes the cached bank offsets from the controller's registers.
    fn update_offsets(&mut self)
        requires
            old(self).mbc.wf(),
            0x8000 <= old(self).rom@.len() <= 0x800000,
            old(self).ram@.len() <= 0x20000,
        ensures
            final(self).wf(),
            final(self).mbc == old(self).mbc,
            final(self).rom == old(self).rom,
            final(self).ram == old(self).ram,
            final(self).header_info == old(self).header_info,
            final(self).has_battery == old(self).has_battery,
    {
        let (lower, upper, ram_bank) = self.mbc.banks();
        let len = self.rom.len();
        self.rom_offsets = ((lower * 0x4000) % len, (upper * 0x4000) % len);
        let ram_len = self.ram.len();
        self.ram_offset = if ram_len == 0 {
            0
        } else {
            (ram_bank * 0x2000) % ram_len
        };
    }

    pub fn has_battery(&self) -> (r: bool)
        ensures
            r == self.battery(),
    {
        self.has_battery
    }

    pub fn header_info(&self) -> (r: &Header)
        ensures
            *r == self.header_view(),
    {
        &self.header_info
    }

    /// Reads the ROM through the current bank mapping.
    pub fn read_rom(&self, addr: u16) -> (r: u8)
        requires
            self.wf(),
        ensures
            r == self.rom_bytes()[self.rom_index(addr)],
    {
        let len = self.rom.len();
        let a: usize = addr as usize % 0x4000;
        proof {
            lemma_rom_index_in_bounds(*self, addr);
            lemma_small_mod(a as nat, len as nat);
        }
        let index = if addr < 0x4000 {
            proof {
                lemma_add_mod_noop(self.mbc.lower_bank() * 0x4000, a as int, len as int);
            }
            (self.rom_offsets.0 + a) % len
        } else if addr < 0x8000 {
            proof {
                lemma_add_mod_noop(self.mbc.upper_bank() * 0x4000, a as int, len as int);
            }
            (self.rom_offsets.1 + a) % len
        } else {
            0
        };
        self.rom[index]
    }

    /// The RAM index that the window address `addr` maps to.
    pub fn ram_address(&self, addr: u16) -> (r: usize)
        requires
            self.wf(),
            self.ram_bytes().len() > 0,
        ensures
            r == self.ram_index(addr),
            r < self.ram_bytes().len(),
    {
        let len = self.ram.len();
        let a: usize = addr as usize % 0x2000;
        proof {
            lemma_add_mod_noop(self.mbc.ram_bank() * 0x2000, a as int, len as int);
            lemma_mod_bound((self.mbc.ram_bank() * 0x2000 + a) as int, len as int);
            lemma_small_mod(a as nat, 0x2000);
            if a < len {
                lemma_small_mod(a as nat, len as nat);
            }
            lemma_mod_of_mod_window(a as int, len as int, self.mbc.ram_bank() * 0x2000);
        }
        (self.ram_offset + a % len) % len
    }

    /// The same as `ram_address`.
    pub fn ram_addr(&self, addr: u16) -> (r: usize)
        requires
            self.wf(),
            self.ram_bytes().len() > 0,
        ensures
            r == self.ram_index(addr),
            r < self.ram_bytes().len(),
    {
        self.ram_address(addr)
    }

    fn mbc_read_ram(&self, ram_enabled: bool, addr: u16) -> (r: u8)
        requires
            self.wf(),
        ensures
            r == if ram_enabled && self.ram_bytes().len() > 0 {
                self.ram_bytes()[self.ram_index(addr)]
            } else {
                0xff
            },
    {
        if self.ram.len() > 0 && ram_enabled {
            let i = self.ram_address(addr);
            self.ram[i]
        } else {
            0xff
        }
    }

    /// Reads the external RAM window (0xA000..0xC000).
    pub fn read_ram(&self, addr: u16) -> (r: u8)
        requires
            self.wf(),
        ensures
            r == self.ram_read_value(addr),
    {
        let accessible = self.mbc.ram_accessible_exec();
        match self.mbc {
            Mbc::Two(_) => {
                let b = self.mbc_read_ram(accessible, addr);
                if accessible && self.ram.len() > 0 {
                    b % 16 + 0xf0
                } else {
                    0xff
                }
            },
            Mbc::Three(m) => {
                if accessible {
                    self.mbc_read_ram(true, addr)
                } else if m.ram_enabled && 8 <= m.map_select && m.map_select <= 0x0c {
                    m.rtc_latched[(m.map_select - 8) as usize]
                } else {
                    0xff
                }
            },
            _ => self.mbc_read_ram(accessible, addr),
        }
    }

    /// A CPU write to ROM space: a command to the bank controller.
    pub fn write_rom(&mut self, addr: u16, val: u8)
        requires
            old(self).wf(),
        ensures
            final(self).wf(),
            final(self).mbc_state() == old(self).mbc_state().after_write(addr, val),
            final(self).rom_bytes() == old(self).rom_bytes(),
            final(self).ram_bytes() == old(self).ram_bytes(),
            final(self).header_view() == old(self).header_view(),
            final(self).battery() == old(self).battery(),
    {
        proof {
            lemma_after_write_wf(self.mbc, addr, val);
        }
        self.mbc = self.mbc.written(addr, val);
        self.update_offsets();
    }

    /// Stores `val` at the RAM index of `addr` when `ram_enabled` holds and the
    /// cartridge has RAM.
    pub fn mbc_write_ram(&mut self, ram_enabled: bool, addr: u16, val: u8)
        requires
            old(self).wf(),
        ensures
            final(self).wf(),
            final(self).mbc_state() == old(self).mbc_state(),
            final(self).rom_bytes() == old(self).rom_bytes(),
            final(self).header_view() == old(self).header_view(),
            final(self).battery() == old(self).battery(),
            final(self).ram_bytes() == if ram_enabled && old(self).ram_bytes().len() > 0 {
                old(self).ram_bytes().update(old(self).ram_index(addr), val)
            } else {
                old(self).ram_bytes()
            },
    {
        if self.ram.len() > 0 && ram_enabled {
            let i = self.ram_address(addr);
            self.ram.set(i, val);
        }
    }

    /// A CPU write to the external RAM window (0xA000..0xC000).
    pub fn write_ram(&mut self, addr: u16, val: u8)
        requires
            old(self).wf(),
        ensures
            final(self).wf(),
            final(self).rom_bytes() == old(self).rom_bytes(),
            final(self).header_view() == old(self).header_view(),
            final(self).battery() == old(self).battery(),
            final(self).ram_bytes() == if old(self).mbc_state().ram_accessible() && old(
                self,
            ).ram_bytes().len() > 0 {
                old(self).ram_bytes().update(old(self).ram_index(addr), val)
            } else {
                old(self).ram_bytes()
            },
            old(self).mbc_state().rtc_register() is None ==> final(self).mbc_state() == old(
                self,
            ).mbc_state(),
            old(self).mbc_state().rtc_register() matches Some(i) ==> {
                let (o, n) = (old(self).mbc_state()->Three_0, final(self).mbc_state()->Three_0);
                &&& final(self).mbc_state() is Three
                &&& n.rtc@ == o.rtc@.update(i, val)
                &&& n == Mbc3 { rtc: n.rtc, ..o }
            },
    {
        let accessible = self.mbc.ram_accessible_exec();
        match self.mbc {
            Mbc::Three(m) => {
                if accessible {
                    self.mbc_write_ram(true, addr, val);
                } else if m.ram_enabled && 8 <= m.map_select && m.map_select <= 0x0c {
                    let rtc = with_register(m.rtc, (m.map_select - 8) as usize, val);
                    self.mbc = Mbc::Three(Mbc3 { rtc, ..m });
                }
            },
            _ => self.mbc_write_ram(accessible, addr, val),
        }
    }

    /// Lets `seconds` of real time pass on an MBC3 clock that is not halted;
    /// the latched copy that reads see changes only at the next latch.
    pub fn advance_rtc(&mut self, seconds: u32)
        requires
            old(self).wf(),
        ensures
            final(self).wf(),
            final(self).rom_bytes() == old(self).rom_bytes(),
            final(self).ram_bytes() == old(self).ram_bytes(),
            final(self).header_view() == old(self).header_view(),
            final(self).battery() == old(self).battery(),
            clock_running(old(self).mbc_state()) ==> {
                &&& final(self).mbc_state() is Three
                &&& final(self).mbc_state()->Three_0.rtc@ == rtc_after(
                    old(self).mbc_state()->Three_0.rtc@,
                    seconds as int,
                )
                &&& final(self).mbc_state()->Three_0 == (Mbc3 {
                    rtc: final(self).mbc_state()->Three_0.rtc,
                    ..old(self).mbc_state()->Three_0
                })
            },
            !clock_running(old(self).mbc_state()) ==> final(self).mbc_state() == old(
                self,
            ).mbc_state(),
    {
        match self.mbc {
            Mbc::Three(m) => {
                if (m.rtc[4] / 64) % 2 != 1 {
                    let rtc = rtc_advanced(m.rtc, seconds);
                    self.mbc = Mbc::Three(Mbc3 { rtc, ..m });
                }
            },
            _ => {},
        }
    }

    /// Restores the clock registers from the clock part of a save (see
    /// `RTC_SAVE_LEN`); each register is the low byte of its 32-bit field.
    pub fn load_rtc_save(&mut self, suffix: &[u8]) -> (r: Result<(), Error>)
        requires
            old(self).wf(),
        ensures
            final(self).wf(),
            final(self).rom_bytes() == old(self).rom_bytes(),
            final(self).ram_bytes() == old(self).ram_bytes(),
            final(self).header_view() == old(self).header_view(),
            final(self).battery() == old(self).battery(),
            (old(self).mbc_state() is Three && suffix@.len() == RTC_SAVE_LEN) <==> r is Ok,
            r is Ok ==> {
                let n = final(self).mbc_state()->Three_0;
                &&& final(self).mbc_state() is Three
                &&& forall|i: int| 0 <= i < 5 ==> #[trigger] n.rtc@[i] == suffix@[4 * i]
                &&& forall|i: int| 0 <= i < 5 ==> #[trigger] n.rtc_latched@[i] == suffix@[20 + 4 * i]
                &&& n == (Mbc3 {
                    rtc: n.rtc,
                    rtc_latched: n.rtc_latched,
                    ..old(self).mbc_state()->Three_0
                })
            },
            r matches Err(e) ==> e == (Error::RamSizeMismatch {
                expected: RTC_SAVE_LEN,
                got: suffix@.len() as usize,
            }) && final(self).mbc_state() == old(self).mbc_state(),
    {
        if suffix.len() != RTC_SAVE_LEN {
            return Err(Error::RamSizeMismatch { expected: RTC_SAVE_LEN, got: suffix.len() });
        }
        match self.mbc {
            Mbc::Three(m) => {
                let rtc = [suffix[0], suffix[4], suffix[8], suffix[12], suffix[16]];
                let rtc_latched = [suffix[20], suffix[24], suffix[28], suffix[32], suffix[36]];
                self.mbc = Mbc::Three(Mbc3 { rtc, rtc_latched, ..m });
                Ok(())
            },
            _ => Err(Error::RamSizeMismatch { expected: RTC_SAVE_LEN, got: suffix.len() }),
        }
    }

    /// The clock part of a save for an MBC3 cartridge, stamped with
    /// `timestamp` (seconds since the UNIX epoch); empty for other controllers.
    pub fn rtc_save(&self, timestamp: u64) -> (r: Vec<u8>)
        ensures
            self.mbc_state() is Three ==> {
                let m = self.mbc_state()->Three_0;
                &&& r@.len() == RTC_SAVE_LEN
                &&& forall|i: int|
                    0 <= i < 5 ==> r@[4 * i] == #[trigger] m.rtc@[i] && r@[4 * i + 1] == 0 && r@[4
                        * i + 2] == 0 && r@[4 * i + 3] == 0
                &&& forall|i: int|
                    0 <= i < 5 ==> r@[20 + 4 * i] == #[trigger] m.rtc_latched@[i] && r@[21 + 4 * i]
                        == 0 && r@[22 + 4 * i] == 0 && r@[23 + 4 * i] == 0
                &&& forall|i: int|
                    0 <= i < 8 ==> r@[40 + i] == (timestamp as int / #[trigger] pow256(i)) % 256
            },
            !(self.mbc_state() is Three) ==> r@.len() == 0,
    {
        let mut out: Vec<u8> = Vec::new();
        match self.mbc {
            Mbc::Three(m) => {
                push_field(&mut out, m.rtc[0]);
                push_field(&mut out, m.rtc[1]);
                push_field(&mut out, m.rtc[2]);
                push_field(&mut out, m.rtc[3]);
                push_field(&mut out, m.rtc[4]);
                push_field(&mut out, m.rtc_latched[0]);
                push_field(&mut out, m.rtc_latched[1]);
                push_field(&mut out, m.rtc_latched[2]);
                push_field(&mut out, m.rtc_latched[3]);
                push_field(&mut out, m.rtc_latched[4]);
                let ghost fields = out@;
                assert(forall|j: int|
                    0 <= j < 5 ==> fields[4 * j] == #[trigger] m.rtc@[j] && fields[4 * j + 1] == 0
                        && fields[4 * j + 2] == 0 && fields[4 * j + 3] == 0);
                assert(forall|j: int|
                    0 <= j < 5 ==> fields[20 + 4 * j] == #[trigger] m.rtc_latched@[j] && fields[21
                        + 4 * j] == 0 && fields[22 + 4 * j] == 0 && fields[23 + 4 * j] == 0);
                let mut t = timestamp;
                let mut k: usize = 0;
                while k < 8
                    invariant
                        k <= 8,
                        out@.len() == 40 + k,
                        t == timestamp as int / pow256(k as int),
                        out@.subrange(0, 40) == fields,
                        fields.len() == 40,
                        forall|j: int|
                            0 <= j < k ==> out@[40 + j] == (timestamp as int / #[trigger] pow256(j))
                                % 256,
                    decreases 8 - k,
                {
                    let ghost prev = out@;
                    out.push((t % 256) as u8);
                    proof {
                        assert(out@.subrange(0, 40) =~= prev.subrange(0, 40));
                        lemma_div_pow256(timestamp as int, k as int);
                    }
                    t = t / 256;
                    k = k + 1;
                }
            },
            _ => {},
        }
        out
    }

    /// The RAM contents.
    pub fn ram(&self) -> (r: &[u8])
        ensures
            r@ == self.ram_bytes(),
    {
        self.ram.as_slice()
    }

    /// A copy of the RAM contents, for a battery save.
    pub fn ram_snapshot(&self) -> (r: Vec<u8>)
        ensures
            r@ == self.ram_bytes(),
    {
        self.ram.clone()
    }

    /// Replaces the RAM contents with a save of the same length.
    pub fn reload_ram(&mut self, bytes: Vec<u8>) -> (r: Result<(), Error>)
        requires
            old(self).wf(),
        ensures
            reloaded(*old(self), bytes@, *final(self), r),
            final(self).header_view() == old(self).header_view(),
            final(self).battery() == old(self).battery(),
    {
        if bytes.len() != self.ram.len() {
            return Err(Error::RamSizeMismatch { expected: self.ram.len(), got: bytes.len() });
        }
        self.ram = bytes;
        Ok(())
    }
}

/// Seconds that clock registers `r` (seconds, minutes, hours, day low, day
/// high) stand for; the day counter is nine bits, its top bit in day high.
pub open spec fn rtc_seconds(r: Seq<u8>) -> int {
    r[0] + 60 * r[1] + 3600 * r[2] + 86400 * (r[3] + 256 * (r[4] % 2))
}

/// Day-high bit 6: the clock is halted.
pub open spec fn rtc_halted(r: Seq<u8>) -> bool {
    (r[4] / 64) % 2 == 1
}

/// The controller is an MBC3 whose clock is not halted.
pub open spec fn clock_running(m: Mbc) -> bool {
    m is Three && !rtc_halted(m->Three_0.rtc@)
}

/// Day-high bit 7: the day counter has overflowed.
pub open spec fn rtc_carry(r: Seq<u8>) -> bool {
    r[4] >= 0x80
}

/// The clock registers `seconds` seconds after `r`, for a running clock:
/// the time is normalised into seconds, minutes, hours and a nine-bit day
/// count, and the carry bit is set once the day count passes 511.
pub open spec fn rtc_after(r: Seq<u8>, seconds: int) -> Seq<u8> {
    let t = rtc_seconds(r) + seconds;
    let days = t / 86400;
    let day = days % 512;
    seq![
        (t % 60) as u8,
        ((t / 60) % 60) as u8,
        ((t / 3600) % 24) as u8,
        (day % 256) as u8,
        (day / 256 + (if rtc_halted(r) { 0x40int } else { 0 }) + (if rtc_carry(r) || days
            >= 512 { 0x80int } else { 0 })) as u8,
    ]
}

fn rtc_advanced(r: [u8; 5], seconds: u32) -> (out: [u8; 5])
    ensures
        out@ == rtc_after(r@, seconds as int),
{
    let day: u64 = r[3] as u64 + 256 * (r[4] % 2) as u64;
    let t: u64 = r[0] as u64 + 60 * r[1] as u64 + 3600 * r[2] as u64 + 86400 * day
        + seconds as u64;
    let days = t / 86400;
    let d = days % 512;
    let halted: u64 = if (r[4] / 64) % 2 == 1 {
        0x40
    } else {
        0
    };
    let carry: u64 = if r[4] >= 0x80 || days >= 512 {
        0x80
    } else {
        0
    };
    let out = [
        (t % 60) as u8,
        ((t / 60) % 60) as u8,
        ((t / 3600) % 24) as u8,
        (d % 256) as u8,
        (d / 256 + halted + carry) as u8,
    ];
    assert(out@ =~= rtc_after(r@, seconds as int));
    out
}

fn push_field(out: &mut Vec<u8>, b: u8)
    ensures
        final(out)@ == old(out)@.push(b).push(0).push(0).push(0),
{
    out.push(b);
    out.push(0);
    out.push(0);
    out.push(0);
}

/// 256 to the power `i`.
pub open spec fn pow256(i: int) -> int
    decreases i,
{
    if i <= 0 {
        1
    } else {
        256 * pow256(i - 1)
    }
}

proof fn lemma_div_pow256(t: int, k: int)
    requires
        0 <= t,
        0 <= k,
    ensures
        (t / pow256(k)) / 256 == t / pow256(k + 1),
        pow256(k) > 0,
    decreases k,
{
    if k > 0 {
        lemma_div_pow256(t, k - 1);
    }
    assert(pow256(k + 1) == 256 * pow256(k));
    vstd::arithmetic::div_mod::lemma_div_denominator(t, pow256(k), 256);
}

/// `v` with register `i` replaced by `val`.
fn with_register(v: [u8; 5], i: usize, val: u8) -> (r: [u8; 5])
    requires
        i < 5,
    ensures
        r@ == v@.update(i as int, val),
{
    let mut r = v;
    r[i] = val;
    r
}

/// A vector of `n` copies of `v`.
pub(crate) fn filled(n: usize, v: u8) -> (r: Vec<u8>)
    ensures
        r@.len() == n,
        forall|i: int| 0 <= i < n ==> r@[i] == v,
{
    let mut out: Vec<u8> = Vec::new();
    while out.len() < n
        invariant
            out@.len() <= n,
            forall|i: int| 0 <= i < out@.len() ==> out@[i] == v,
        decreases n - out@.len(),
    {
        out.push(v);
    }
    out
}

proof fn lemma_mod_of_mod_window(a: int, len: int, base: int)
    requires
        0 <= a,
        0 < len,
    ensures
        ((base % len) + a % len) % len == (base + a) % len,
{
    lemma_add_mod_noop(base, a, len);
}

/// Every ROM read, after any sequence of controller writes, lands inside the
/// ROM image.
pub proof fn lemma_rom_index_in_bounds(c: Cartridge, addr: u16)
    requires
        c.wf(),
    ensures
        0 <= c.rom_index(addr) < c.rom_bytes().len(),
{
    let len = c.rom_bytes().len() as int;
    if addr < 0x8000 {
        let bank = if addr < 0x4000 {
            c.mbc_state().lower_bank()
        } else {
            c.mbc_state().upper_bank()
        };
        lemma_mod_bound(bank * 0x4000 + addr % 0x4000, len);
    }
}

/// Every RAM access of a cartridge with RAM lands inside the RAM.
pub proof fn lemma_ram_index_in_bounds(c: Cartridge, addr: u16)
    requires
        c.wf(),
        c.ram_bytes().len() > 0,
    ensures
        0 <= c.ram_index(addr) < c.ram_bytes().len(),
{
    lemma_mod_bound(
        c.mbc_state().ram_bank() * 0x2000 + addr % 0x2000,
        c.ram_bytes().len() as int,
    );
}

/// Restoring RAM from the cartridge's own snapshot succeeds, and a snapshot
/// taken afterwards holds the same bytes.
pub proof fn lemma_snapshot_reload(
    c: Cartridge,
    snapshot: Seq<u8>,
    after: Cartridge,
    r: Result<(), Error>,
)
    requires
        c.wf(),
        snapshot == c.ram_bytes(),
        reloaded(c, snapshot, after, r),
    ensures
        r is Ok,
        after.ram_bytes() == snapshot,
        after.wf(),
{
}

} // verus!
