use ceres_core::{Block, Hdma, HdmaState, OamDma};

#[test]
fn hdma_registers_mask_addresses() {
    let mut h = Hdma::new();
    h.write_hdma1(0xc1);
    h.write_hdma2(0x2f);
    h.write_hdma3(0xff);
    h.write_hdma4(0x3f);
    assert_eq!(h.src, 0xc120);
    assert_eq!(h.dst, 0x1f30);
    assert_eq!(h.read_hdma5(), 0xff);
    assert!(!h.hdma_on());
}

#[test]
fn hblank_hdma_copies_one_block_per_hblank_and_cancels() {
    let mut h = Hdma::new();
    h.write_hdma1(0xc0);
    h.write_hdma2(0x00);
    h.write_hdma3(0x00);
    h.write_hdma4(0x00);
    h.write_hdma5(0x8f);
    assert_eq!(h.state, HdmaState::HBlank);
    assert_eq!(h.len, 16 * 16);
    let mut blocks = Vec::new();
    for _ in 0..10 {
        // Outside HBlank nothing is due.
        assert_eq!(h.next_block(false), None);
        blocks.push(h.next_block(true).unwrap());
        // Only one block per HBlank.
        assert_eq!(h.next_block(true), None);
        assert_eq!(h.state, HdmaState::HBlankDone);
    }
    for (i, b) in blocks.iter().enumerate() {
        assert_eq!(*b, Block { src: 0xc000 + 16 * i as u16, dst: 16 * i as u16 });
    }
    assert_eq!(h.read_hdma5(), 5);
    h.write_hdma5(0x00);
    assert_eq!(h.state, HdmaState::Sleep);
    assert_eq!(h.next_block(false), None);
    assert_eq!(h.next_block(true), None);
    assert_eq!(h.read_hdma5() & 0x80, 0x80);
}

#[test]
fn general_hdma_runs_to_completion() {
    let mut h = Hdma::new();
    h.write_hdma1(0xd0);
    h.write_hdma3(0x01);
    h.write_hdma5(0x01);
    assert_eq!(h.state, HdmaState::General);
    assert_eq!(h.next_block(false), Some(Block { src: 0xd000, dst: 0x0100 }));
    assert_eq!(h.next_block(false), Some(Block { src: 0xd010, dst: 0x0110 }));
    assert_eq!(h.next_block(false), None);
    assert_eq!(h.state, HdmaState::Sleep);
    assert_eq!(h.read_hdma5(), 0xff);
}

#[test]
fn oam_dma_warm_up_then_160_bytes() {
    let mut d = OamDma::new();
    d.start(0xc0);
    assert!(d.on);
    assert!(!d.dma_active());
    // Warm-up: two M-cycles copy nothing.
    assert_eq!(d.tick_mcycle(), None);
    assert_eq!(d.tick_mcycle(), None);
    let mut copies = Vec::new();
    while let Some(c) = d.tick_mcycle() {
        copies.push(c);
        if d.on {
            assert!(d.dma_active());
        }
    }
    assert_eq!(copies.len(), 160);
    for (i, (src, idx)) in copies.iter().enumerate() {
        assert_eq!(*src, 0xc000 + i as u16);
        assert_eq!(*idx as usize, i);
    }
    assert!(!d.on);
    assert!(!d.dma_active());
}

#[test]
fn oam_dma_restart_blocks_during_new_warm_up() {
    let mut d = OamDma::new();
    d.start(0xc0);
    for _ in 0..10 {
        d.tick_mcycle();
    }
    d.start(0xd0);
    assert!(d.restarting);
    assert!(d.dma_active());
    assert_eq!(d.tick_mcycle(), None);
    assert_eq!(d.tick_mcycle(), None);
    assert_eq!(d.tick_mcycle(), Some((0xd000, 0)));
}
