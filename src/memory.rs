use crate::boot_rom::BootRom;
use crate::cartridge::{filled, Cartridge, Error};
use crate::dma::{Hdma, OamDma, HDMA_BLOCK};
use crate::ppu::{FunctionMode, Mode, Ppu, PpuIO, PpuRegister};
use vstd::prelude::*;

verus! {

pub const WRAM_SIZE: usize = 0x8000;

pub const HRAM_SIZE: usize = 0x7f;

/// Bytes of sound registers and wave RAM at 0xFF10..0xFF40.
pub const APU_REGS_SIZE: usize = 0x30;

/// KEY1 bit 0: a speed switch is armed.
pub const KEY1_SWITCH_B: u8 = 0x01;

// I/O register offsets from 0xFF00.
pub const P1: u8 = 0x00;

pub const SB: u8 = 0x01;

pub const SC: u8 = 0x02;

pub const DIV: u8 = 0x04;

pub const TIMA: u8 = 0x05;

pub const TMA: u8 = 0x06;

pub const TAC: u8 = 0x07;

pub const IF: u8 = 0x0f;

pub const NR10: u8 = 0x10;

pub const NR52: u8 = 0x26;

pub const WAV_BEGIN: u8 = 0x30;

pub const WAV_END: u8 = 0x3f;

pub const DMA: u8 = 0x46;

pub const KEY0: u8 = 0x4c;

pub const KEY1: u8 = 0x4d;

pub const VBK: u8 = 0x4f;

pub const BOOT: u8 = 0x50;

pub const HDMA1: u8 = 0x51;

pub const HDMA2: u8 = 0x52;

pub const HDMA3: u8 = 0x53;

pub const HDMA4: u8 = 0x54;

pub const HDMA5: u8 = 0x55;

pub const SVBK: u8 = 0x70;

pub const HRAM_BEG: u8 = 0x80;

pub const HRAM_END: u8 = 0xfe;

pub const IE: u8 = 0xff;

#[derive(Debug, Clone, Copy, PartialEq, Eq, Structural)]
pub enum Model {
    Dmg,
    Cgb,
}

/// The bus: it owns the cartridge, video, work and high RAM, the DMA engines
/// and the I/O registers, and routes CPU reads and writes by address.
pub struct Gb {
    pub model: Model,
    pub function_mode: FunctionMode,
    pub cart: Cartridge,
    pub boot_rom: BootRom,
    pub ppu: Ppu,
    pub wram: Vec<u8>,
    pub hram: Vec<u8>,
    /// Sound registers and wave RAM, held for the sound unit.
    pub apu_regs: Vec<u8>,
    pub apu_on: bool,
    pub ie: u8,
    pub ifr: u8,
    pub sb: u8,
    pub sc: u8,
    pub div: u8,
    pub tima: u8,
    pub tma: u8,
    pub tac: u8,
    /// P1 bits 4 and 5: which button group the joypad nibble shows.
    pub p1_select: u8,
    /// Pressed buttons: directions in the low nibble, the others above.
    pub joypad: u8,
    pub key1: u8,
    pub svbk: u8,
    /// The WRAM bank shown at 0xD000: SVBK, with 0 read as 1.
    pub svbk_true: u8,
    pub dma: OamDma,
    pub hdma: Hdma,
}

/// The PPU register at I/O offset `addr`, if any (LY, DMA and the CGB-only
/// registers aside).
pub open spec fn ppu_register_at(addr: u8) -> Option<PpuRegister> {
    if addr == 0x40 {
        Some(PpuRegister::Lcdc)
    } else if addr == 0x41 {
        Some(PpuRegister::Stat)
    } else if addr == 0x42 {
        Some(PpuRegister::Scy)
    } else if addr == 0x43 {
        Some(PpuRegister::Scx)
    } else if addr == 0x44 {
        Some(PpuRegister::Ly)
    } else if addr == 0x45 {
        Some(PpuRegister::Lyc)
    } else if addr == 0x47 {
        Some(PpuRegister::Bgp)
    } else if addr == 0x48 {
        Some(PpuRegister::Obp0)
    } else if addr == 0x49 {
        Some(PpuRegister::Obp1)
    } else if addr == 0x4a {
        Some(PpuRegister::Wy)
    } else if addr == 0x4b {
        Some(PpuRegister::Wx)
    } else {
        None
    }
}

/// The CGB-only PPU register at I/O offset `addr`, if any.
pub open spec fn cgb_ppu_register_at(addr: u8) -> Option<PpuRegister> {
    if addr == 0x68 {
        Some(PpuRegister::Bcps)
    } else if addr == 0x69 {
        Some(PpuRegister::Bcpd)
    } else if addr == 0x6a {
        Some(PpuRegister::Ocps)
    } else if addr == 0x6b {
        Some(PpuRegister::Ocpd)
    } else if addr == 0x6c {
        Some(PpuRegister::Opri)
    } else {
        None
    }
}

fn ppu_register(addr: u8) -> (r: Option<PpuRegister>)
    ensures
        r == ppu_register_at(addr),
{
    match addr {
        0x40 => Some(PpuRegister::Lcdc),
        0x41 => Some(PpuRegister::Stat),
        0x42 => Some(PpuRegister::Scy),
        0x43 => Some(PpuRegister::Scx),
        0x44 => Some(PpuRegister::Ly),
        0x45 => Some(PpuRegister::Lyc),
        0x47 => Some(PpuRegister::Bgp),
        0x48 => Some(PpuRegister::Obp0),
        0x49 => Some(PpuRegister::Obp1),
        0x4a => Some(PpuRegister::Wy),
        0x4b => Some(PpuRegister::Wx),
        _ => None,
    }
}

fn cgb_ppu_register(addr: u8) -> (r: Option<PpuRegister>)
    ensures
        r == cgb_ppu_register_at(addr),
{
    match addr {
        0x68 => Some(PpuRegister::Bcps),
        0x69 => Some(PpuRegister::Bcpd),
        0x6a => Some(PpuRegister::Ocps),
        0x6b => Some(PpuRegister::Ocpd),
        0x6c => Some(PpuRegister::Opri),
        _ => None,
    }
}

impl Gb {
    pub open spec fn wf(&self) -> bool {
        &&& self.cart.wf()
        &&& self.ppu.wf()
        &&& self.wram@.len() == WRAM_SIZE
        &&& self.hram@.len() == HRAM_SIZE
        &&& self.apu_regs@.len() == APU_REGS_SIZE
        &&& 1 <= self.svbk_true <= 7
        &&& self.dma.wf()
        &&& self.hdma.wf()
    }

    /// Whether the boot program answers a read at `addr`.
    pub open spec fn boot_mapped_at(&self, addr: u16) -> bool {
        &&& self.boot_rom.active()
        &&& (addr < 0x100 || (0x200 <= addr < 0x900 && self.model == Model::Cgb))
    }

    /// The WRAM index that address `addr` in 0xC000..0xFE00 reaches.
    pub open spec fn wram_index(&self, addr: u16) -> int {
        if (addr / 0x1000) % 2 == 0 {
            addr as int % 0x1000
        } else {
            addr as int % 0x1000 + self.svbk_true * 0x1000
        }
    }

    /// What the joypad register reads: the selected groups' buttons, active low.
    pub open spec fn p1_value(&self) -> u8 {
        let dirs: u8 = if self.p1_select & 0x10 == 0 {
            self.joypad & 0x0f
        } else {
            0
        };
        let buttons: u8 = if self.p1_select & 0x20 == 0 {
            self.joypad >> 4
        } else {
            0
        };
        0xc0 | self.p1_select | (!(dirs | buttons) & 0x0f)
    }

    /// A bus around the given cartridge, boot program and PPU, with zeroed
    /// work and high RAM, idle DMA engines and WRAM bank 1 selected.
    pub fn new(
        model: Model,
        cart: Cartridge,
        boot_rom: BootRom,
        ppu: Ppu,
    ) -> (r: Self)
        requires
            cart.wf(),
            ppu.wf(),
        ensures
            r.wf(),
            r.model == model,
            r.cart == cart,
            r.boot_rom == boot_rom,
            r.ppu == ppu,
            forall|i: int| 0 <= i < WRAM_SIZE ==> r.wram@[i] == 0,
            forall|i: int| 0 <= i < HRAM_SIZE ==> r.hram@[i] == 0,
            r.svbk_true == 1,
            r.ie == 0 && r.ifr == 0,
            !r.dma.on,
            !r.hdma.active(),
            r.function_mode == if model == Model::Cgb {
                FunctionMode::Color
            } else {
                FunctionMode::Monochrome
            },
    {
        Gb {
            model,
            function_mode: if model == Model::Cgb {
                FunctionMode::Color
            } else {
                FunctionMode::Monochrome
            },
            cart,
            boot_rom,
            ppu,
            wram: filled(WRAM_SIZE, 0),
            hram: filled(HRAM_SIZE, 0),
            apu_regs: filled(APU_REGS_SIZE, 0),
            apu_on: false,
            ie: 0,
            ifr: 0,
            sb: 0,
            sc: 0,
            div: 0,
            tima: 0,
            tma: 0,
            tac: 0,
            p1_select: 0x30,
            joypad: 0,
            key1: 0,
            svbk: 0,
            svbk_true: 1,
            dma: OamDma::new(),
            hdma: Hdma::new(),
        }
    }

    /// WRAM bank 0 (0xC000..0xD000 and its echo).
    pub fn read_ram(&self, addr: u16) -> (r: u8)
        requires
            self.wf(),
        ensures
            r == self.wram@[addr as int % 0x1000],
    {
        self.wram[(addr % 0x1000) as usize]
    }

    /// The switchable WRAM bank (0xD000..0xE000 and its echo).
    pub fn read_bank_ram(&self, addr: u16) -> (r: u8)
        requires
            self.wf(),
        ensures
            r == self.wram@[addr as int % 0x1000 + self.svbk_true * 0x1000],
    {
        self.wram[(addr % 0x1000) as usize + self.svbk_true as usize * 0x1000]
    }

    fn write_ram(&mut self, addr: u16, val: u8)
        requires
            old(self).wf(),
        ensures
            final(self).wf(),
            final(self).wram@ == old(self).wram@.update(addr as int % 0x1000, val),
            *final(self) == (Gb { wram: final(self).wram, ..*old(self) }),
    {
        self.wram.set((addr % 0x1000) as usize, val);
    }

    fn write_bank_ram(&mut self, addr: u16, val: u8)
        requires
            old(self).wf(),
        ensures
            final(self).wf(),
            final(self).wram@ == old(self).wram@.update(
                addr as int % 0x1000 + old(self).svbk_true * 0x1000,
                val,
            ),
            *final(self) == (Gb { wram: final(self).wram, ..*old(self) }),
    {
        self.wram.set((addr % 0x1000) as usize + self.svbk_true as usize * 0x1000, val);
    }

    pub fn dma_active(&self) -> (r: bool)
        ensures
            r == self.dma.blocks_oam(),
    {
        self.dma.dma_active()
    }

    pub fn hdma_on(&self) -> (r: bool)
        ensures
            r == self.hdma.active(),
    {
        self.hdma.hdma_on()
    }

    fn read_rom_or_cart(&self, addr: u16) -> (r: u8)
        requires
            self.wf(),
            addr < 0x8000,
        ensures
            self.boot_mapped_at(addr) ==> r == (if (addr as int) < self.boot_rom.bytes().len() {
                self.boot_rom.bytes()[addr as int]
            } else {
                0xff
            }),
            !self.boot_mapped_at(addr) ==> r == self.cart.rom_bytes()[self.cart.rom_index(addr)],
    {
        let mapped = self.boot_rom.is_active() && (addr < 0x100 || (0x200 <= addr && addr
            < 0x900 && self.model == Model::Cgb));
        if mapped {
            self.boot_rom.read(addr)
        } else {
            self.cart.read_rom(addr)
        }
    }

    /// A CPU read, routed by address.
    pub fn read_mem(&mut self, addr: u16) -> (r: u8)
        requires
            old(self).wf(),
        ensures
            *final(self) == *old(self),
            r == old(self).mem_value(addr),
            addr < 0x8000 ==> r == old(self).read_rom_value(addr),
            0x8000 <= addr < 0xa000 ==> r == old(self).ppu.vram_read_value(addr),
            0xa000 <= addr < 0xc000 ==> r == old(self).cart.ram_read_value(addr),
            0xc000 <= addr < 0xfe00 ==> r == old(self).wram@[old(self).wram_index(addr)],
            0xfe00 <= addr < 0xfea0 ==> r == if old(self).dma.blocks_oam() {
                0xff
            } else {
                old(self).ppu.oam_read_value(addr)
            },
            0xfea0 <= addr < 0xff00 ==> r == 0xff,
            0xff00 <= addr ==> r == old(self).io_value((addr % 256) as u8),
    {
        if addr < 0x8000 {
            self.read_rom_or_cart(addr)
        } else if addr < 0xa000 {
            self.ppu.read(PpuIO::Vram { address: addr })
        } else if addr < 0xc000 {
            self.cart.read_ram(addr)
        } else if addr < 0xfe00 {
            if (addr / 0x1000) % 2 == 0 {
                self.read_ram(addr)
            } else {
                self.read_bank_ram(addr)
            }
        } else if addr < 0xfea0 {
            if self.dma.dma_active() {
                0xff
            } else {
                self.ppu.read(PpuIO::Oam { address: addr })
            }
        } else if addr < 0xff00 {
            0xff
        } else {
            self.read_high((addr % 256) as u8)
        }
    }

    /// What a CPU read at `addr` returns.
    pub open spec fn mem_value(&self, addr: u16) -> u8 {
        if addr < 0x8000 {
            self.read_rom_value(addr)
        } else if addr < 0xa000 {
            self.ppu.vram_read_value(addr)
        } else if addr < 0xc000 {
            self.cart.ram_read_value(addr)
        } else if addr < 0xfe00 {
            self.wram@[self.wram_index(addr)]
        } else if addr < 0xfea0 {
            if self.dma.blocks_oam() {
                0xff
            } else {
                self.ppu.oam_read_value(addr)
            }
        } else if addr < 0xff00 {
            0xff
        } else {
            self.io_value((addr % 256) as u8)
        }
    }

    /// What a read of ROM space at `addr` returns.
    pub open spec fn read_rom_value(&self, addr: u16) -> u8 {
        if self.boot_mapped_at(addr) {
            if (addr as int) < self.boot_rom.bytes().len() {
                self.boot_rom.bytes()[addr as int]
            } else {
                0xff
            }
        } else {
            self.cart.rom_bytes()[self.cart.rom_index(addr)]
        }
    }

    /// What a read of I/O register `addr` (0xFF00 + addr) returns.
    pub open spec fn io_value(&self, addr: u8) -> u8 {
        let cgb = self.model == Model::Cgb;
        if addr == P1 {
            self.p1_value()
        } else if addr == SB {
            self.sb
        } else if addr == SC {
            self.sc | 0x7e
        } else if addr == DIV {
            self.div
        } else if addr == TIMA {
            self.tima
        } else if addr == TMA {
            self.tma
        } else if addr == TAC {
            0xf8 | self.tac
        } else if addr == IF {
            self.ifr | 0xe0
        } else if NR10 <= addr <= WAV_END {
            self.apu_regs@[addr - NR10]
        } else if ppu_register_at(addr) is Some {
            self.ppu.register_value(ppu_register_at(addr).unwrap())
        } else if addr == DMA {
            self.dma.page
        } else if cgb && addr == KEY1 {
            0x7e | self.key1
        } else if cgb && addr == VBK {
            (0xfe + self.ppu.vram_bank_spec()) as u8
        } else if cgb && addr == HDMA5 {
            ((if self.hdma.active() { 0int } else { 0x80 }) + self.hdma.hdma5) as u8
        } else if cgb && cgb_ppu_register_at(addr) is Some {
            self.ppu.register_value(cgb_ppu_register_at(addr).unwrap())
        } else if cgb && addr == SVBK {
            self.svbk | 0xf8
        } else if HRAM_BEG <= addr <= HRAM_END {
            self.hram@[addr - HRAM_BEG]
        } else if addr == IE {
            self.ie
        } else {
            0xff
        }
    }

    /// A read of the I/O registers and high RAM at 0xFF00 + `addr`.
    pub fn read_high(&mut self, addr: u8) -> (r: u8)
        requires
            old(self).wf(),
        ensures
            *final(self) == *old(self),
            r == old(self).io_value(addr),
    {
        let cgb = self.model == Model::Cgb;
        if addr == P1 {
            let dirs: u8 = if self.p1_select & 0x10 == 0 {
                self.joypad & 0x0f
            } else {
                0
            };
            let buttons: u8 = if self.p1_select & 0x20 == 0 {
                self.joypad >> 4
            } else {
                0
            };
            0xc0 | self.p1_select | (!(dirs | buttons) & 0x0f)
        } else if addr == SB {
            self.sb
        } else if addr == SC {
            self.sc | 0x7e
        } else if addr == DIV {
            self.div
        } else if addr == TIMA {
            self.tima
        } else if addr == TMA {
            self.tma
        } else if addr == TAC {
            0xf8 | self.tac
        } else if addr == IF {
            self.ifr | 0xe0
        } else if NR10 <= addr && addr <= WAV_END {
            self.apu_regs[(addr - NR10) as usize]
        } else if let Some(reg) = ppu_register(addr) {
            self.ppu.read(PpuIO::PpuRegister(reg))
        } else if addr == DMA {
            self.dma.page
        } else if cgb && addr == KEY1 {
            0x7e | self.key1
        } else if cgb && addr == VBK {
            self.ppu.read(PpuIO::VramBank)
        } else if cgb && addr == HDMA5 {
            self.hdma.read_hdma5()
        } else if cgb && cgb_ppu_register(addr).is_some() {
            match cgb_ppu_register(addr) {
                Some(reg) => self.ppu.read(PpuIO::PpuRegister(reg)),
                None => 0xff,
            }
        } else if cgb && addr == SVBK {
            self.svbk | 0xf8
        } else if HRAM_BEG <= addr && addr <= HRAM_END {
            self.hram[(addr - HRAM_BEG) as usize]
        } else if addr == IE {
            self.ie
        } else {
            0xff
        }
    }

    /// A CPU write, routed by address. ROM space goes to the bank controller;
    /// OAM writes are dropped while OAM DMA runs.
    pub fn write_mem(&mut self, addr: u16, val: u8)
        requires
            old(self).wf(),
        ensures
            final(self).wf(),
            addr < 0x8000 ==> {
                &&& final(self).cart.mbc_state() == old(self).cart.mbc_state().after_write(addr, val)
                &&& final(self).cart.rom_bytes() == old(self).cart.rom_bytes()
                &&& final(self).cart.ram_bytes() == old(self).cart.ram_bytes()
                &&& *final(self) == (Gb { cart: final(self).cart, ..*old(self) })
            },
            0x8000 <= addr < 0xa000 ==> {
                &&& final(self).ppu.vram_bytes() == old(self).ppu.vram_after_write(
                    PpuIO::Vram { address: addr },
                    val,
                )
                &&& Self::ppu_written(*old(self), *final(self), PpuIO::Vram { address: addr }, val)
            },
            0xa000 <= addr < 0xc000 ==> {
                &&& final(self).cart.ram_bytes() == if old(self).cart.mbc_state().ram_accessible()
                    && old(self).cart.ram_bytes().len() > 0 {
                    old(self).cart.ram_bytes().update(old(self).cart.ram_index(addr), val)
                } else {
                    old(self).cart.ram_bytes()
                }
                &&& *final(self) == (Gb { cart: final(self).cart, ..*old(self) })
            },
            0xc000 <= addr < 0xfe00 ==> {
                &&& final(self).wram@ == old(self).wram@.update(old(self).wram_index(addr), val)
                &&& *final(self) == (Gb { wram: final(self).wram, ..*old(self) })
            },
            0xfe00 <= addr < 0xfea0 ==> {
                &&& final(self).ppu.oam_bytes() == if old(self).dma.blocks_oam() {
                    old(self).ppu.oam_bytes()
                } else {
                    old(self).ppu.oam_after_write(PpuIO::Oam { address: addr }, val)
                }
                &&& old(self).dma.blocks_oam() ==> *final(self) == *old(self)
                &&& !old(self).dma.blocks_oam() ==> Self::ppu_written(
                    *old(self),
                    *final(self),
                    PpuIO::Oam { address: addr },
                    val,
                )
            },
            0xfea0 <= addr < 0xff00 ==> *final(self) == *old(self),
            0xff00 <= addr ==> Self::io_write_effect(*old(self), *final(self), (addr % 256) as u8, val),
    {
        if addr < 0x8000 {
            self.cart.write_rom(addr, val);
        } else if addr < 0xa000 {
            self.ppu.write(PpuIO::Vram { address: addr }, val);
        } else if addr < 0xc000 {
            self.cart.write_ram(addr, val);
        } else if addr < 0xfe00 {
            if (addr / 0x1000) % 2 == 0 {
                self.write_ram(addr, val);
            } else {
                self.write_bank_ram(addr, val);
            }
        } else if addr < 0xfea0 {
            if !self.dma.dma_active() {
                self.ppu.write(PpuIO::Oam { address: addr }, val);
            }
        } else if addr < 0xff00 {
        } else {
            self.write_high((addr % 256) as u8, val);
        }
    }

    /// `after` is `before` with only the PPU changed, as a PPU write of `val`
    /// through `io` changes it.
    pub open spec fn ppu_written(before: Gb, after: Gb, io: PpuIO, val: u8) -> bool {
        &&& after == (Gb { ppu: after.ppu, ..before })
        &&& Ppu::write_effect(before.ppu, after.ppu, io, val)
    }

    /// What a write of `val` to 0xFF00 + `addr` does: each register changes
    /// as the memory map says, and nothing else changes. CGB-only registers
    /// are ignored on DMG.
    pub open spec fn io_write_effect(before: Gb, after: Gb, addr: u8, val: u8) -> bool {
        let cgb = before.model == Model::Cgb;
        if addr == P1 {
            after == (Gb { p1_select: val & 0x30, ..before })
        } else if addr == SB {
            after == (Gb { sb: val, ..before })
        } else if addr == SC {
            after == (Gb { sc: val, ..before })
        } else if addr == DIV {
            after == (Gb { div: 0, ..before })
        } else if addr == TIMA {
            after == (Gb { tima: val, ..before })
        } else if addr == TMA {
            after == (Gb { tma: val, ..before })
        } else if addr == TAC {
            after == (Gb { tac: val & 0x07, ..before })
        } else if addr == IF {
            after == (Gb { ifr: val % 32, ..before })
        } else if addr == NR52 {
            &&& after == (Gb { apu_on: val >= 0x80, apu_regs: after.apu_regs, ..before })
            &&& after.apu_regs@ == before.apu_regs@.update(NR52 - NR10, val & 0x80)
        } else if NR10 <= addr <= WAV_END {
            if WAV_BEGIN <= addr || before.apu_on {
                &&& after == (Gb { apu_regs: after.apu_regs, ..before })
                &&& after.apu_regs@ == before.apu_regs@.update(addr - NR10, val)
            } else {
                after == before
            }
        } else if ppu_register_at(addr) is Some {
            Self::ppu_written(before, after, PpuIO::PpuRegister(ppu_register_at(addr).unwrap()), val)
        } else if addr == DMA {
            after == (Gb { dma: before.dma.started(val), ..before })
        } else if addr == KEY0 {
            if cgb && before.boot_rom.active() && val == 4 {
                after == (Gb { function_mode: FunctionMode::Compatibility, ..before })
            } else {
                after == before
            }
        } else if addr == KEY1 {
            if cgb {
                after == (Gb { key1: (before.key1 & !KEY1_SWITCH_B) | (val & KEY1_SWITCH_B), ..before })
            } else {
                after == before
            }
        } else if addr == VBK {
            if cgb {
                Self::ppu_written(before, after, PpuIO::VramBank, val)
            } else {
                after == before
            }
        } else if addr == BOOT {
            if val != 0 {
                &&& after == (Gb { boot_rom: after.boot_rom, ..before })
                &&& !after.boot_rom.active()
                &&& after.boot_rom.bytes() == before.boot_rom.bytes()
            } else {
                after == before
            }
        } else if HDMA1 <= addr <= HDMA5 {
            if cgb {
                after == (Gb {
                    hdma: if addr == HDMA1 {
                        before.hdma.with_hdma1(val)
                    } else if addr == HDMA2 {
                        before.hdma.with_hdma2(val)
                    } else if addr == HDMA3 {
                        before.hdma.with_hdma3(val)
                    } else if addr == HDMA4 {
                        before.hdma.with_hdma4(val)
                    } else {
                        before.hdma.with_hdma5(val)
                    },
                    ..before
                })
            } else {
                after == before
            }
        } else if cgb && cgb_ppu_register_at(addr) is Some {
            Self::ppu_written(
                before,
                after,
                PpuIO::PpuRegister(cgb_ppu_register_at(addr).unwrap()),
                val,
            )
        } else if addr == SVBK {
            if cgb {
                after == (Gb {
                    svbk: val % 8,
                    svbk_true: if val % 8 == 0 {
                        1
                    } else {
                        val % 8
                    },
                    ..before
                })
            } else {
                after == before
            }
        } else if HRAM_BEG <= addr <= HRAM_END {
            &&& after == (Gb { hram: after.hram, ..before })
            &&& after.hram@ == before.hram@.update(addr - HRAM_BEG, val)
        } else if addr == IE {
            after == (Gb { ie: val, ..before })
        } else {
            after == before
        }
    }

    /// A write of the I/O registers and high RAM at 0xFF00 + `addr`; see
    /// `io_write_effect`.
    pub fn write_high(&mut self, addr: u8, val: u8)
        requires
            old(self).wf(),
        ensures
            final(self).wf(),
            Self::io_write_effect(*old(self), *final(self), addr, val),
    {
        let cgb = self.model == Model::Cgb;
        if addr == P1 {
            self.p1_select = val & 0x30;
        } else if addr == SB {
            self.sb = val;
        } else if addr == SC {
            self.sc = val;
        } else if addr == DIV {
            self.div = 0;
        } else if addr == TIMA {
            self.tima = val;
        } else if addr == TMA {
            self.tma = val;
        } else if addr == TAC {
            self.tac = val & 0x07;
        } else if addr == IF {
            self.ifr = val % 32;
        } else if addr == NR52 {
            self.apu_on = val >= 0x80;
            self.apu_regs.set((NR52 - NR10) as usize, val & 0x80);
        } else if WAV_BEGIN <= addr && addr <= WAV_END {
            self.apu_regs.set((addr - NR10) as usize, val);
        } else if NR10 <= addr && addr < WAV_BEGIN {
            if self.apu_on {
                self.apu_regs.set((addr - NR10) as usize, val);
            }
        } else if let Some(reg) = ppu_register(addr) {
            self.ppu.write(PpuIO::PpuRegister(reg), val);
        } else if addr == DMA {
            self.dma.start(val);
        } else if addr == KEY0 {
            if cgb && self.boot_rom.is_active() && val == 4 {
                self.function_mode = FunctionMode::Compatibility;
            }
        } else if addr == KEY1 {
            if cgb {
                self.key1 = (self.key1 & !KEY1_SWITCH_B) | (val & KEY1_SWITCH_B);
            }
        } else if addr == VBK {
            if cgb {
                self.ppu.write(PpuIO::VramBank, val);
            }
        } else if addr == BOOT {
            if val != 0 {
                self.boot_rom.deactivate();
            }
        } else if addr == HDMA1 {
            if cgb {
                self.hdma.write_hdma1(val);
            }
        } else if addr == HDMA2 {
            if cgb {
                self.hdma.write_hdma2(val);
            }
        } else if addr == HDMA3 {
            if cgb {
                self.hdma.write_hdma3(val);
            }
        } else if addr == HDMA4 {
            if cgb {
                self.hdma.write_hdma4(val);
            }
        } else if addr == HDMA5 {
            if cgb {
                self.hdma.write_hdma5(val);
            }
        } else if cgb && cgb_ppu_register(addr).is_some() {
            match cgb_ppu_register(addr) {
                Some(reg) => self.ppu.write(PpuIO::PpuRegister(reg), val),
                None => {},
            }
        } else if addr == SVBK {
            if cgb {
                let tmp = val % 8;
                self.svbk = tmp;
                self.svbk_true = if tmp == 0 {
                    1
                } else {
                    tmp
                };
            }
        } else if HRAM_BEG <= addr && addr <= HRAM_END {
            self.hram.set((addr - HRAM_BEG) as usize, val);
        } else if addr == IE {
            self.ie = val;
        }
    }

    /// The bus address that OAM DMA reads for source `src`: 0xE000 and up
    /// reach work RAM.
    pub open spec fn dma_source(src: u16) -> u16 {
        if src >= 0xe000 {
            (src - 0x2000) as u16
        } else {
            src
        }
    }

    /// OAM after one M-cycle of OAM DMA from `before`: the byte that falls
    /// due, read as the bus reads it, lands at its OAM index.
    pub open spec fn dma_copied(before: Gb, after: Gb) -> bool {
        let d = before.dma;
        if d.on && d.cycles + 4 > 0 && d.copied < 160 {
            let src = (d.page as int * 256 + d.copied) as u16;
            let read_from = Gb { dma: after.dma, ..before };
            after.ppu.oam_bytes() == before.ppu.oam_bytes().update(
                d.copied as int,
                read_from.mem_value(Self::dma_source(src)),
            )
        } else {
            after.ppu.oam_bytes() == before.ppu.oam_bytes()
        }
    }

    /// Runs one M-cycle of OAM DMA: copies the byte that falls due, if any.
    pub fn run_dma(&mut self)
        requires
            old(self).wf(),
        ensures
            final(self).wf(),
            final(self).cart == old(self).cart,
            final(self).wram == old(self).wram,
            final(self).ppu.vram_bytes() == old(self).ppu.vram_bytes(),
            Self::dma_copied(*old(self), *final(self)),
            final(self).dma == old(self).dma.ticked(),
            *final(self) == (Gb { dma: final(self).dma, ppu: final(self).ppu, ..*old(self) }),
    {
        match self.dma.tick_mcycle() {
            Some((src, index)) => {
                let b = if src >= 0xe000 {
                    let echo = src - 0x2000;
                    self.read_mem(echo)
                } else {
                    self.read_mem(src)
                };
                self.ppu.oam_dma_write(index, b);
            },
            None => {},
        }
    }

    /// A read outside VRAM sees the same value in two states whose PPUs
    /// differ in VRAM contents at most.
    proof fn lemma_mem_value_outside_vram(a: Gb, b: Gb, addr: u16)
        requires
            a == (Gb { ppu: a.ppu, ..b }),
            a.ppu.same_but_vram(&b.ppu),
            b.wf(),
            a.ppu.vram_bytes().len() == b.ppu.vram_bytes().len(),
            !(0x8000 <= addr < 0xa000),
        ensures
            a.mem_value(addr) == b.mem_value(addr),
            a.wf(),
    {
        Ppu::lemma_same_but_vram(a.ppu, b.ppu);
    }

    /// The source block of an HBlank or general transfer lies outside VRAM
    /// and does not wrap past 0xFFFF.
    pub open spec fn block_source_ok(src: u16) -> bool {
        (src < 0x8000 || src >= 0xa000) && src <= 0xfff0 && !(src < 0x8000 && src + 16 > 0x8000)
    }

    /// VRAM after `before` copied its due HDMA block, when the PPU is not
    /// drawing and the source lies outside VRAM: the 16 source bytes, read as
    /// the bus reads them, at the destination.
    pub open spec fn hdma_copied(before: Gb, after: Gb) -> bool {
        let h = before.hdma;
        let in_hblank = before.ppu.current_mode() == Mode::HBlank;
        (h.block_due(in_hblank) && before.ppu.current_mode() != Mode::DrawingPixels
            && Self::block_source_ok(h.src)) ==> {
            let read_from = Gb { hdma: after.hdma, ..before };
            forall|i: int|
                0 <= i < 16 ==> after.ppu.vram_bytes()[before.ppu.vram_bank_spec() * 0x2000 + (h.dst
                    + i) % 0x2000] == #[trigger] read_from.mem_value((h.src + i) as u16)
        }
    }

    /// Copies the HDMA block that falls due, if any, into VRAM. With the PPU
    /// not drawing and the source outside VRAM, VRAM then holds the 16
    /// source bytes at the destination.
    pub fn run_hdma(&mut self)
        requires
            old(self).wf(),
        ensures
            final(self).wf(),
            final(self).cart == old(self).cart,
            final(self).wram == old(self).wram,
            final(self).ppu.oam_bytes() == old(self).ppu.oam_bytes(),
            Self::hdma_copied(*old(self), *final(self)),
            final(self).hdma == old(self).hdma.after_block(
                old(self).ppu.current_mode() == Mode::HBlank,
            ),
            *final(self) == (Gb { hdma: final(self).hdma, ppu: final(self).ppu, ..*old(self) }),
    {
        let in_hblank = self.ppu.mode() == Mode::HBlank;
        match self.hdma.next_block(in_hblank) {
            Some(block) => {
                let ghost s1 = *self;
                proof {
                    Ppu::lemma_same_but_vram_refl(self.ppu);
                    Ppu::lemma_wf_sizes(self.ppu);
                }
                let mut i: u16 = 0;
                while i < HDMA_BLOCK
                    invariant
                        0 <= i <= HDMA_BLOCK,
                        s1.wf(),
                        self.wf(),
                        *self == (Gb { ppu: self.ppu, ..s1 }),
                        self.ppu.same_but_vram(&s1.ppu),
                        self.ppu.vram_bytes().len() == s1.ppu.vram_bytes().len(),
                        block.dst < 0x2000,
                        (s1.ppu.current_mode() != Mode::DrawingPixels && Self::block_source_ok(
                            block.src,
                        )) ==> forall|k: int|
                            0 <= k < i ==> self.ppu.vram_bytes()[s1.ppu.vram_bank_spec() * 0x2000
                                + (block.dst + k) % 0x2000] == #[trigger] s1.mem_value(
                                (block.src + k) as u16,
                            ),
                    decreases HDMA_BLOCK - i,
                {
                    let ghost before = *self;
                    proof {
                        Ppu::lemma_wf_sizes(self.ppu);
                    }
                    let b = self.read_mem(block.src.wrapping_add(i));
                    let target = 0x8000 + (block.dst + i) % 0x2000;
                    self.ppu.vram_dma_write(target, b);
                    proof {
                        Ppu::lemma_same_but_vram(before.ppu, s1.ppu);
                        Ppu::lemma_same_but_vram_trans(self.ppu, before.ppu, s1.ppu);
                        Ppu::lemma_wf_sizes(self.ppu);
                        if s1.ppu.current_mode() != Mode::DrawingPixels && Self::block_source_ok(
                            block.src,
                        ) {
                            assert(before.ppu.current_mode() != Mode::DrawingPixels);
                            assert(self.ppu.vram_bytes() == before.ppu.vram_bytes().update(
                                before.ppu.vram_index(target),
                                b,
                            ));
                            assert(0 <= before.ppu.vram_index(target) < before.ppu.vram_bytes().len());
                            let a = (block.src + i) as u16;
                            assert(block.src.wrapping_add(i) == a);
                            Self::lemma_mem_value_outside_vram(before, s1, a);
                            assert forall|k: int|
                                0 <= k < i + 1 implies self.ppu.vram_bytes()[s1.ppu.vram_bank_spec()
                                * 0x2000 + (block.dst + k) % 0x2000] == #[trigger] s1.mem_value(
                                (block.src + k) as u16,
                            ) by {
                                if k < i {
                                    assert((block.dst + k) % 0x2000 != (block.dst + i) % 0x2000);
                                } else {
                                    assert(target % 0x2000 == (block.dst + i) % 0x2000);
                                    assert(self.ppu.vram_bytes()[before.ppu.vram_index(target)] == b);
                                }
                            }
                        }
                    }
                    i = i + 1;
                }
                proof {
                    Ppu::lemma_same_but_vram(self.ppu, s1.ppu);
                    assert(s1 == (Gb { hdma: self.hdma, ..*old(self) }));
                    let h = old(self).hdma;
                    if h.block_due(in_hblank) && old(self).ppu.current_mode()
                        != Mode::DrawingPixels && Self::block_source_ok(h.src) {
                        assert(block.src == h.src && block.dst == h.dst);
                        assert forall|k: int| 0 <= k < 16 implies self.ppu.vram_bytes()[old(
                            self,
                        ).ppu.vram_bank_spec() * 0x2000 + (h.dst + k) % 0x2000]
                            == #[trigger] s1.mem_value((h.src + k) as u16) by {
                            assert(s1.mem_value((block.src + k) as u16) == s1.mem_value(
                                (h.src + k) as u16,
                            ));
                        }
                    }
                }
            },
            None => {},
        }
    }
}

/// Boot program length for each model.
pub open spec fn boot_rom_len(model: Model) -> int {
    if model == Model::Cgb {
        0x900
    } else {
        0x100
    }
}

/// Checks a boot program's length against the model and wraps it.
pub fn load_boot_rom(model: Model, data: Vec<u8>) -> (r: Result<BootRom, Error>)
    ensures
        data@.len() == boot_rom_len(model) <==> r is Ok,
        r matches Ok(b) ==> b.bytes() == data@ && b.active(),
        r matches Err(e) ==> e == (Error::BootRomSize {
            expected: boot_rom_len(model) as usize,
            got: data@.len() as usize,
        }),
{
    let expected: usize = if model == Model::Cgb {
        0x900
    } else {
        0x100
    };
    if data.len() != expected {
        return Err(Error::BootRomSize { expected, got: data.len() });
    }
    Ok(BootRom::new(data))
}

} // verus!
