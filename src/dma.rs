use vstd::prelude::*;

verus! {

/// Bytes in one HDMA block.
pub const HDMA_BLOCK: u16 = 0x10;

/// Bytes that one OAM DMA transfer copies.
pub const OAM_DMA_LEN: u16 = 160;

#[derive(Debug, Clone, Copy, PartialEq, Eq, Structural)]
pub enum HdmaState {
    /// No transfer.
    Sleep,
    /// An HBlank transfer waits for the next HBlank.
    HBlank,
    /// An HBlank transfer has copied this line's block.
    HBlankDone,
    /// A general-purpose transfer copies every block at once.
    General,
}

/// The CGB VRAM DMA: source, destination, remaining length and mode.
#[derive(Debug, Clone, Copy)]
pub struct Hdma {
    /// Source address; the low four bits are always 0.
    pub src: u16,
    /// Destination offset into VRAM, below 0x2000; the low four bits are 0.
    pub dst: u16,
    /// Bytes left to copy.
    pub len: u16,
    /// Blocks left minus one, as HDMA5 reads back (0x7F when idle).
    pub hdma5: u8,
    pub state: HdmaState,
}

/// One block copy: 16 bytes from `src` to VRAM address `0x8000 + dst`.
#[derive(Debug, Clone, Copy, PartialEq, Eq, Structural)]
pub struct Block {
    pub src: u16,
    pub dst: u16,
}

impl Hdma {
    pub open spec fn wf(self) -> bool {
        &&& self.src % 16 == 0
        &&& self.dst % 16 == 0
        &&& self.dst < 0x2000
        &&& self.len % 16 == 0
        &&& self.len <= 0x800
        &&& self.hdma5 < 0x80
        &&& (self.state != HdmaState::Sleep ==> self.len > 0 && self.hdma5 as int * 16 + 16
            == self.len)
    }

    pub open spec fn active(self) -> bool {
        self.state != HdmaState::Sleep
    }

    pub open spec fn with_hdma1(self, val: u8) -> Self {
        Hdma { src: (val as int * 256 + self.src % 256) as u16, ..self }
    }

    pub open spec fn with_hdma2(self, val: u8) -> Self {
        Hdma { src: ((self.src / 256) * 256 + (val / 16) as int * 16) as u16, ..self }
    }

    pub open spec fn with_hdma3(self, val: u8) -> Self {
        Hdma { dst: ((val % 32) as int * 256 + self.dst % 256) as u16, ..self }
    }

    pub open spec fn with_hdma4(self, val: u8) -> Self {
        Hdma { dst: ((self.dst / 256) * 256 + (val / 16) as int * 16) as u16, ..self }
    }

    /// HDMA5: bit 7 clear during a transfer cancels it; otherwise it starts a
    /// transfer of `(val % 128 + 1) * 16` bytes.
    pub open spec fn with_hdma5(self, val: u8) -> Self {
        if self.active() && val < 0x80 {
            Hdma { state: HdmaState::Sleep, ..self }
        } else {
            Hdma {
                hdma5: val % 128,
                len: ((val % 128 + 1) as int * 16) as u16,
                state: if val < 0x80 {
                    HdmaState::General
                } else {
                    HdmaState::HBlank
                },
                ..self
            }
        }
    }

    /// The engine after `next_block` with the PPU in HBlank or not.
    pub open spec fn after_block(self, in_hblank: bool) -> Self {
        if !self.block_due(in_hblank) {
            if self.state == HdmaState::HBlankDone && !in_hblank {
                Hdma { state: HdmaState::HBlank, ..self }
            } else {
                self
            }
        } else {
            let len = (self.len - 16) as u16;
            Hdma {
                src: ((self.src + 16) % 0x10000) as u16,
                dst: ((self.dst + 16) % 0x2000) as u16,
                len,
                hdma5: if len == 0 {
                    0x7f
                } else {
                    (self.hdma5 - 1) as u8
                },
                state: if len == 0 {
                    HdmaState::Sleep
                } else if self.state == HdmaState::HBlank {
                    HdmaState::HBlankDone
                } else {
                    self.state
                },
            }
        }
    }

    pub fn new() -> (r: Self)
        ensures
            r.wf(),
            !r.active(),
            r.hdma5 == 0x7f,
            r.src == 0 && r.dst == 0 && r.len == 0,
    {
        Hdma { src: 0, dst: 0, len: 0, hdma5: 0x7f, state: HdmaState::Sleep }
    }

    pub fn hdma_on(&self) -> (r: bool)
        ensures
            r == self.active(),
    {
        self.state != HdmaState::Sleep
    }

    /// HDMA1: the source's high byte.
    pub fn write_hdma1(&mut self, val: u8)
        requires
            old(self).wf(),
        ensures
            final(self).wf(),
            *final(self) == old(self).with_hdma1(val),
            final(self).src == val as int * 256 + old(self).src % 256,
            final(self).dst == old(self).dst,
            final(self).state == old(self).state,
            final(self).len == old(self).len,
    {
        self.src = val as u16 * 256 + self.src % 256;
    }

    /// HDMA2: the source's low byte, low four bits dropped.
    pub fn write_hdma2(&mut self, val: u8)
        requires
            old(self).wf(),
        ensures
            final(self).wf(),
            *final(self) == old(self).with_hdma2(val),
            final(self).src == (old(self).src / 256) * 256 + (val / 16) as int * 16,
            final(self).dst == old(self).dst,
            final(self).state == old(self).state,
            final(self).len == old(self).len,
    {
        self.src = (self.src / 256) * 256 + (val / 16) as u16 * 16;
    }

    /// HDMA3: the destination's high byte, within VRAM.
    pub fn write_hdma3(&mut self, val: u8)
        requires
            old(self).wf(),
        ensures
            final(self).wf(),
            *final(self) == old(self).with_hdma3(val),
            final(self).dst == (val % 32) as int * 256 + old(self).dst % 256,
            final(self).src == old(self).src,
            final(self).state == old(self).state,
            final(self).len == old(self).len,
    {
        self.dst = (val % 32) as u16 * 256 + self.dst % 256;
    }

    /// HDMA4: the destination's low byte, low four bits dropped.
    pub fn write_hdma4(&mut self, val: u8)
        requires
            old(self).wf(),
        ensures
            final(self).wf(),
            *final(self) == old(self).with_hdma4(val),
            final(self).dst == (old(self).dst / 256) * 256 + (val / 16) as int * 16,
            final(self).src == old(self).src,
            final(self).state == old(self).state,
            final(self).len == old(self).len,
    {
        self.dst = (self.dst / 256) * 256 + (val / 16) as u16 * 16;
    }

    /// HDMA5: bit 7 clear during an HBlank transfer cancels it; otherwise it
    /// starts a transfer of `(val % 128 + 1) * 16` bytes, general-purpose
    /// for bit 7 clear and one block per HBlank for bit 7 set.
    pub fn write_hdma5(&mut self, val: u8)
        requires
            old(self).wf(),
        ensures
            final(self).wf(),
            *final(self) == old(self).with_hdma5(val),
            final(self).src == old(self).src,
            final(self).dst == old(self).dst,
            old(self).active() && val < 0x80 ==> final(self).state == HdmaState::Sleep
                && final(self).hdma5 == old(self).hdma5,
            !(old(self).active() && val < 0x80) ==> {
                &&& final(self).len == (val % 128 + 1) as int * 16
                &&& final(self).hdma5 == val % 128
                &&& final(self).state == if val < 0x80 {
                    HdmaState::General
                } else {
                    HdmaState::HBlank
                }
            },
    {
        if self.state != HdmaState::Sleep && val < 0x80 {
            self.state = HdmaState::Sleep;
            return;
        }
        self.hdma5 = val % 128;
        self.len = (self.hdma5 as u16 + 1) * HDMA_BLOCK;
        self.state = if val < 0x80 {
            HdmaState::General
        } else {
            HdmaState::HBlank
        };
    }

    /// What HDMA5 reads: bit 7 set when idle, then the blocks left minus one.
    pub fn read_hdma5(&self) -> (r: u8)
        requires
            self.wf(),
        ensures
            r == (if self.active() { 0int } else { 0x80 }) + self.hdma5,
    {
        (if self.state != HdmaState::Sleep { 0 } else { 0x80 }) + self.hdma5
    }

    /// Whether a block is due now: always for a general transfer, and for an
    /// HBlank transfer once the PPU is in HBlank and this line has none yet.
    pub open spec fn block_due(self, in_hblank: bool) -> bool {
        self.state == HdmaState::General || (self.state == HdmaState::HBlank && in_hblank)
    }

    /// Hands out the next block copy if one is due, and advances past it;
    /// outside HBlank an HBlank transfer re-arms for the next line.
    pub fn next_block(&mut self, in_hblank: bool) -> (r: Option<Block>)
        requires
            old(self).wf(),
        ensures
            final(self).wf(),
            *final(self) == old(self).after_block(in_hblank),
            old(self).block_due(in_hblank) ==> {
                &&& r == Some(Block { src: old(self).src, dst: old(self).dst })
                &&& final(self).len == old(self).len - 16
                &&& final(self).src == (old(self).src + 16) % 0x10000
                &&& final(self).dst == (old(self).dst + 16) % 0x2000
                &&& final(self).state == if final(self).len == 0 {
                    HdmaState::Sleep
                } else if old(self).state == HdmaState::HBlank {
                    HdmaState::HBlankDone
                } else {
                    old(self).state
                }
                &&& final(self).len == 0 ==> final(self).hdma5 == 0x7f
            },
            !old(self).block_due(in_hblank) ==> {
                &&& r is None
                &&& final(self).len == old(self).len
                &&& final(self).src == old(self).src
                &&& final(self).dst == old(self).dst
                &&& final(self).hdma5 == old(self).hdma5
                &&& final(self).state == if old(self).state == HdmaState::HBlankDone
                    && !in_hblank {
                    HdmaState::HBlank
                } else {
                    old(self).state
                }
            },
    {
        let due = self.state == HdmaState::General || (self.state == HdmaState::HBlank
            && in_hblank);
        if !due {
            if self.state == HdmaState::HBlankDone && !in_hblank {
                self.state = HdmaState::HBlank;
            }
            return None;
        }
        let block = Block { src: self.src, dst: self.dst };
        self.src = self.src.wrapping_add(HDMA_BLOCK);
        self.dst = (self.dst + HDMA_BLOCK) % 0x2000;
        self.len = self.len - HDMA_BLOCK;
        if self.len == 0 {
            self.state = HdmaState::Sleep;
            self.hdma5 = 0x7f;
        } else {
            self.hdma5 = self.hdma5 - 1;
            if self.state == HdmaState::HBlank {
                self.state = HdmaState::HBlankDone;
            }
        }
        Some(block)
    }
}

/// The OAM DMA: copies 160 bytes from `page * 256` to OAM, one per M-cycle,
/// after a two M-cycle warm-up.
#[derive(Debug, Clone, Copy)]
pub struct OamDma {
    pub on: bool,
    /// The value last written to the DMA register.
    pub page: u8,
    /// T-cycles into the transfer; negative during the warm-up.
    pub cycles: i32,
    /// Bytes copied so far.
    pub copied: u16,
    /// A transfer was restarted while another ran.
    pub restarting: bool,
}

impl OamDma {
    pub open spec fn wf(self) -> bool {
        &&& -8 <= self.cycles <= 4 * OAM_DMA_LEN + 4
        &&& self.copied <= OAM_DMA_LEN
    }

    pub fn new() -> (r: Self)
        ensures
            r.wf(),
            !r.on,
            r.page == 0 && r.cycles == 0 && r.copied == 0 && !r.restarting,
    {
        OamDma { on: false, page: 0, cycles: 0, copied: 0, restarting: false }
    }

    /// CPU access to OAM is blocked: a transfer runs past its warm-up, or one
    /// was restarted.
    pub open spec fn blocks_oam(self) -> bool {
        self.on && (self.cycles > 0 || self.restarting)
    }

    /// The engine after a write of `val` to the DMA register.
    pub open spec fn started(self, val: u8) -> Self {
        OamDma { on: true, page: val, cycles: -8i32, copied: 0, restarting: self.on }
    }

    /// The engine after one M-cycle.
    pub open spec fn ticked(self) -> Self {
        if !self.on {
            self
        } else {
            let c = if self.cycles < 4 * OAM_DMA_LEN {
                self.cycles + 4
            } else {
                self.cycles as int
            };
            if c <= 0 {
                OamDma { cycles: c as i32, ..self }
            } else if self.copied >= OAM_DMA_LEN {
                OamDma { cycles: c as i32, restarting: false, on: false, ..self }
            } else {
                OamDma {
                    cycles: c as i32,
                    restarting: false,
                    copied: (self.copied + 1) as u16,
                    on: self.copied + 1 < OAM_DMA_LEN,
                    ..self
                }
            }
        }
    }

    pub fn dma_active(&self) -> (r: bool)
        ensures
            r == self.blocks_oam(),
    {
        self.on && (self.cycles > 0 || self.restarting)
    }

    /// A write to the DMA register starts a transfer from `val * 256`.
    pub fn start(&mut self, val: u8)
        requires
            old(self).wf(),
        ensures
            final(self).wf(),
            *final(self) == old(self).started(val),
            final(self).on,
            final(self).page == val,
            final(self).cycles == -8,
            final(self).copied == 0,
            final(self).restarting == old(self).on,
    {
        if self.on {
            self.restarting = true;
        } else {
            self.restarting = false;
        }
        self.cycles = -8;
        self.page = val;
        self.copied = 0;
        self.on = true;
    }

    /// Advances one M-cycle (4 T-cycles). Returns the source address and OAM
    /// index of the byte to copy now, if any.
    pub fn tick_mcycle(&mut self) -> (r: Option<(u16, u8)>)
        requires
            old(self).wf(),
        ensures
            final(self).wf(),
            *final(self) == old(self).ticked(),
            !old(self).on ==> r is None && final(self).on == old(self).on,
            old(self).on && old(self).cycles + 4 <= 0 ==> r is None && final(self).copied == old(
                self,
            ).copied && final(self).on,
            old(self).on && old(self).cycles + 4 > 0 && old(self).copied >= OAM_DMA_LEN ==> r is None,
            old(self).on && old(self).cycles + 4 > 0 && old(self).copied < OAM_DMA_LEN ==> {
                &&& r == Some(
                    (
                        (old(self).page as int * 256 + old(self).copied) as u16,
                        old(self).copied as u8,
                    ),
                )
                &&& final(self).copied == old(self).copied + 1
                &&& final(self).on == (final(self).copied < OAM_DMA_LEN)
                &&& !final(self).restarting
            },
    {
        if !self.on {
            return None;
        }
        if self.cycles < 4 * OAM_DMA_LEN as i32 {
            self.cycles = self.cycles + 4;
        }
        if self.cycles <= 0 {
            return None;
        }
        self.restarting = false;
        if self.copied >= OAM_DMA_LEN {
            self.on = false;
            return None;
        }
        let src = self.page as u16 * 256 + self.copied;
        let index = self.copied as u8;
        self.copied = self.copied + 1;
        if self.copied == OAM_DMA_LEN {
            self.on = false;
        }
        Some((src, index))
    }
}

} // verus!
