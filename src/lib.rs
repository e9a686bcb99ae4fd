//! Core of a Game Boy / Game Boy Color emulator: cartridge memory bank
//! controllers, the pixel-processing unit and its scanline renderer.

mod boot_rom;
mod cartridge;
mod dma;
mod memory;
mod ppu;
mod sprite_list;

pub use boot_rom::BootRom;
pub use memory::{load_boot_rom, Gb, Model};
pub use dma::{Block, Hdma, HdmaState, OamDma};
pub use cartridge::{Cartridge, CgbFlag, Error, Header, Mbc, Mbc1, Mbc2, Mbc3, Mbc5};
pub use ppu::{
    FunctionMode, InterruptRequests, Mode, MonochromePaletteColors, PaletteRam, Ppu, PpuIO,
    PpuRegister, Rgb,
};
