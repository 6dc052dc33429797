use e1000_driver::desc::RxDesc;
use e1000_driver::desc::TxDesc;
use e1000_driver::e1000::E1000Device;
use e1000_driver::e1000::E1000Error;
use e1000_driver::e1000::net_rx;
use e1000_driver::e1000_const::E1000_CTL;
use e1000_driver::e1000_const::E1000_CTRL_EXT;
use e1000_driver::e1000_const::E1000_ICR;
use e1000_driver::e1000_const::E1000_IMS;
use e1000_driver::e1000_const::E1000_MTA;
use e1000_driver::e1000_const::E1000_RCTL;
use e1000_driver::e1000_const::E1000_RDBAH;
use e1000_driver::e1000_const::E1000_RDBAL;
use e1000_driver::e1000_const::E1000_RDH;
use e1000_driver::e1000_const::E1000_RDLEN;
use e1000_driver::e1000_const::E1000_RDT;
use e1000_driver::e1000_const::E1000_RFCTL;
use e1000_driver::e1000_const::E1000_TCTL;
use e1000_driver::e1000_const::E1000_TDBAH;
use e1000_driver::e1000_const::E1000_TDBAL;
use e1000_driver::e1000_const::E1000_TDH;
use e1000_driver::e1000_const::E1000_TDLEN;
use e1000_driver::e1000_const::E1000_TDT;
use e1000_driver::e1000_const::E1000_TIPG;
use e1000_driver::e1000_const::E1000_TXDCTL0;
use e1000_driver::e1000_const::E1000_TXDCTL1;
use e1000_driver::e1000_const::IMS_ENABLE_MASK;
use e1000_driver::kernel::KernelFunc;
use e1000_driver::sim::SimKernel;
use e1000_driver::sim::SIM_DMA_PADDR;
use e1000_driver::sim::SIM_DMA_VADDR;
use e1000_driver::sim::SIM_MMIO_BASE;

fn device(ring_size: u16) -> E1000Device<SimKernel> {
    let kernel = SimKernel::new(1024, 0);
    match E1000Device::with_ring_size(kernel, SIM_MMIO_BASE, ring_size) {
        Ok(dev) => dev,
        Err(e) => panic!("no device: {:?}", e),
    }
}

fn frame(len: usize, seed: u8) -> Vec<u8> {
    (0..len).map(|i| seed.wrapping_add(i as u8)).collect()
}

fn done_rx(len: u16, addr: u64) -> RxDesc {
    RxDesc { addr, length: len, csum: 0, status: 0x01, errors: 0, special: 0 }
}

#[test]
fn it_works() {}

#[test]
fn init_programs_the_rings() {
    let mut dev = device(16);
    assert_eq!(dev.ring_size(), 16);
    // the transmit ring is the first region that the host hands out
    assert_eq!(dev.kernel().reg(E1000_TDBAL), SIM_DMA_PADDR as u32);
    assert_eq!(dev.kernel().reg(E1000_TDBAH), 0);
    assert_eq!(dev.kernel().reg(E1000_TDLEN), 256);
    assert_eq!(dev.kernel().reg(E1000_TDT), 0);
    assert_eq!(dev.kernel().reg(E1000_TDH), 0);
    assert_eq!(dev.kernel().reg(E1000_RDBAL), (SIM_DMA_PADDR + 4096) as u32);
    assert_eq!(dev.kernel().reg(E1000_RDBAH), 0);
    assert_eq!(dev.kernel().reg(E1000_RDLEN), 256);
    assert_eq!(dev.kernel().reg(E1000_RDH), 0);
    assert_eq!(dev.kernel().reg(E1000_RDT), 15);
    dev.e1000_irq_enable();
    assert_eq!(dev.kernel().reg(E1000_IMS), 0x84);
}

#[test]
fn init_programs_the_controls() {
    let dev = device(16);
    let k = dev.kernel();
    assert_eq!(k.reg(E1000_TCTL), 0x2 | 0x8 | 0x0100_0000 | (0x0f << 4) | (0x3f << 12));
    assert_eq!(k.reg(E1000_TIPG), 10 | (8 << 10) | (6 << 20));
    assert_eq!(k.reg(E1000_TXDCTL0), (1 << 24) | (1 << 16));
    assert_eq!(k.reg(E1000_TXDCTL1), (1 << 24) | (1 << 16));
    assert_eq!(k.reg(E1000_RCTL), 0x2 | 0x8000 | 0x0400_0000);
    assert_eq!(k.reg(E1000_RFCTL), 0);
    assert_eq!(k.reg(E1000_CTL), (1 << 26) | (1 << 31) | (1 << 5) | (1 << 6));
    assert_eq!(k.reg(E1000_CTRL_EXT), 0x0002_0000);
    assert_eq!(k.reg(E1000_IMS), IMS_ENABLE_MASK);
    assert_eq!(k.reg(E1000_ICR), 0);
    for i in 0..128 {
        assert_eq!(k.reg(E1000_MTA + i), 0);
    }
    assert!(k.settled());
}

#[test]
fn init_clears_a_dirty_multicast_table() {
    let mut dev = device(16);
    for i in 0..128 {
        dev.nic_set_reg(E1000_MTA + i, 0xdead_beef);
    }
    dev.nic_set_reg(E1000_TDT, 5);
    dev.nic_set_reg(E1000_RDT, 3);
    assert_eq!(dev.e1000_init(), Ok(()));
    for i in 0..128 {
        assert_eq!(dev.kernel().reg(E1000_MTA + i), 0);
    }
    assert_eq!(dev.kernel().reg(E1000_TDT), 0);
    assert_eq!(dev.kernel().reg(E1000_RDT), 15);
}

#[test]
fn new_device_has_free_transmit_slots_and_armed_receive_slots() {
    let dev = device(16);
    for i in 0..16 {
        let tx = dev.tx_descriptor(i);
        assert_eq!(tx.status & 0x01, 0x01);
        assert_eq!(tx.addr, (SIM_DMA_PADDR + 2 * 4096 + i * 2048) as u64);
        assert_eq!(tx.length, 0);
        assert_eq!(tx.cmd, 0);
        let rx = dev.rx_descriptor(i);
        assert_ne!(rx.addr, 0);
        assert_eq!(rx.addr, (SIM_DMA_PADDR + 10 * 4096 + i * 2048) as u64);
        assert_eq!(rx.status, 0);
        assert_eq!(rx.length, 0);
    }
}

#[test]
fn new_uses_rings_of_sixteen() {
    let kernel = SimKernel::new(64, 0);
    let dev = match E1000Device::new(kernel, SIM_MMIO_BASE) {
        Ok(dev) => dev,
        Err(e) => panic!("no device: {:?}", e),
    };
    assert_eq!(dev.ring_size(), 16);
    // two rings of one page, two pools of eight pages
    assert_eq!(dev.kernel().free_pages(), 64 - 18);
}

#[test]
fn single_transmit() {
    let mut dev = device(16);
    assert_eq!(dev.tx_descriptor(0).status & 0x01, 0x01);
    let packet = [0xffu8; 60];
    assert_eq!(dev.e1000_transmit(&packet), Ok((60, None)));
    let buffer = dev.tx_buffer(0);
    assert_eq!(&buffer[..60], &packet[..]);
    let desc = dev.tx_descriptor(0);
    assert_eq!(desc.cmd & 0x01, 0x01);
    assert_eq!(desc.cmd & 0x02, 0x02);
    assert_eq!(desc.cmd & 0x08, 0x08);
    assert_eq!(desc.cmd, 0x0b);
    assert_eq!(desc.length, 60);
    assert_eq!(desc.status, 0);
    assert_eq!(dev.kernel().reg(E1000_TDT), 1);
    assert!(dev.kernel().settled());
}

#[test]
fn transmit_keeps_the_rest_of_the_buffer() {
    let mut dev = device(16);
    assert_eq!(dev.e1000_transmit(&frame(100, 7)), Ok((100, None)));
    let _ = dev.nic_send();
    for _ in 0..15 {
        assert_eq!(dev.e1000_transmit(&[1u8; 4]), Ok((4, None)));
        let _ = dev.nic_send();
    }
    assert_eq!(dev.kernel().reg(E1000_TDT), 0);
    assert_eq!(dev.e1000_transmit(&[9u8; 10]), Ok((10, None)));
    let buffer = dev.tx_buffer(0);
    assert_eq!(&buffer[..10], &[9u8; 10][..]);
    assert_eq!(&buffer[10..100], &frame(100, 7)[10..]);
}

#[test]
fn ring_full_transmit() {
    let mut dev = device(16);
    for i in 0..16 {
        assert_eq!(dev.e1000_transmit(&frame(60, i as u8)), Ok((60, None)));
    }
    for i in 0..16 {
        assert_eq!(dev.tx_descriptor(i).status & 0x01, 0);
    }
    let tdt = dev.kernel().reg(E1000_TDT);
    assert_eq!(tdt, 0);
    assert_eq!(dev.e1000_transmit(&[0u8; 60]), Err(E1000Error::TxFull));
    assert_eq!(dev.kernel().reg(E1000_TDT), tdt);
    // the frame that waits in the slot is untouched
    assert_eq!(&dev.tx_buffer(0)[..60], &frame(60, 0)[..]);
}

#[test]
fn transmit_cuts_a_long_frame() {
    let mut dev = device(16);
    let long = frame(3000, 1);
    assert_eq!(dev.e1000_transmit(&long), Ok((2048, Some(E1000Error::TxTruncated))));
    assert_eq!(dev.kernel().reg(E1000_TDT), 1);
    assert_eq!(dev.tx_descriptor(0).length, 2048);
    assert_eq!(dev.tx_descriptor(0).cmd, 0x0b);
    assert_eq!(&dev.tx_buffer(0)[..], &long[..2048]);
    assert_eq!(dev.nic_send(), Some(long[..2048].to_vec()));
}

#[test]
fn transmit_takes_a_frame_of_a_whole_buffer() {
    let mut dev = device(16);
    let full = frame(2048, 3);
    assert_eq!(dev.e1000_transmit(&full), Ok((2048, None)));
    assert_eq!(dev.nic_send(), Some(full));
}

#[test]
fn transmit_takes_an_empty_frame() {
    let mut dev = device(16);
    assert_eq!(dev.e1000_transmit(&[]), Ok((0, None)));
    assert_eq!(dev.tx_descriptor(0).length, 0);
    assert_eq!(dev.kernel().reg(E1000_TDT), 1);
}

#[test]
fn frames_reach_the_wire_in_order() {
    let mut dev = device(16);
    let mut sent = Vec::new();
    let mut wire = Vec::new();
    for i in 0..40usize {
        let f = frame(60 + 17 * i, i as u8);
        assert_eq!(dev.e1000_transmit(&f), Ok((f.len(), None)));
        sent.push(f);
        match dev.nic_send() {
            Some(f) => wire.push(f),
            None => panic!("nothing to send"),
        }
        assert_eq!(dev.nic_send(), None);
    }
    assert_eq!(wire, sent);
}

#[test]
fn queued_frames_reach_the_wire_in_order() {
    let mut dev = device(16);
    let mut sent = Vec::new();
    for i in 0..10usize {
        let f = frame(64 + i, (3 * i) as u8);
        assert_eq!(dev.e1000_transmit(&f), Ok((f.len(), None)));
        sent.push(f);
    }
    let mut wire = Vec::new();
    while let Some(f) = dev.nic_send() {
        wire.push(f);
    }
    assert_eq!(wire, sent);
    assert_eq!(dev.kernel().reg(E1000_TDH), 10);
}

#[test]
fn transmit_tail_goes_round_the_ring() {
    let mut dev = device(8);
    for i in 0..20u32 {
        assert_eq!(dev.kernel().reg(E1000_TDT), i % 8);
        assert_eq!(dev.e1000_transmit(&[0u8; 60]), Ok((60, None)));
        assert_eq!(dev.kernel().reg(E1000_TDT), (i + 1) % 8);
        assert!(dev.nic_send().is_some());
    }
}

#[test]
fn transmit_tail_stops_at_a_slot_in_use() {
    let mut dev = device(8);
    let slot3 = dev.tx_descriptor(3);
    dev.nic_set_tx_desc(3, &TxDesc { status: 0, ..slot3 });
    for i in 0..3u32 {
        assert_eq!(dev.e1000_transmit(&[0u8; 60]), Ok((60, None)));
        assert_eq!(dev.kernel().reg(E1000_TDT), i + 1);
    }
    assert_eq!(dev.e1000_transmit(&[0u8; 60]), Err(E1000Error::TxFull));
    assert_eq!(dev.e1000_transmit(&[0u8; 60]), Err(E1000Error::TxFull));
    assert_eq!(dev.kernel().reg(E1000_TDT), 3);
}

#[test]
fn receive_burst() {
    let mut dev = device(16);
    // one frame through slot 0 puts the tail on it
    assert!(dev.nic_receive(&[1u8; 60]));
    assert_eq!(dev.e1000_recv(), Ok(vec![vec![1u8; 60]]));
    assert_eq!(dev.kernel().reg(E1000_RDT), 0);
    let lens = [64usize, 128, 256, 1500];
    let mut frames = Vec::new();
    for (i, len) in lens.iter().enumerate() {
        let slot = i + 1;
        let f = frame(*len, (10 * slot) as u8);
        let addr = dev.rx_descriptor(slot).addr;
        dev.nic_set_rx_buffer(slot, &f);
        dev.nic_set_rx_desc(slot, &done_rx(*len as u16, addr));
        frames.push(f);
    }
    let got = match dev.e1000_recv() {
        Ok(got) => got,
        Err(e) => panic!("no frames: {:?}", e),
    };
    assert_eq!(got.len(), 4);
    assert_eq!(got, frames);
    assert_eq!(dev.kernel().reg(E1000_RDT), 4);
    for slot in 1..5 {
        assert_eq!(dev.rx_descriptor(slot).status, 0);
        let buffer = dev.rx_buffer(slot);
        assert_eq!(&buffer[..64], &[0u8; 64][..]);
        let len = lens[slot - 1];
        assert_eq!(&buffer[64..len], &frames[slot - 1][64..]);
    }
    assert!(dev.kernel().settled());
}

#[test]
fn receive_empty() {
    let mut dev = device(16);
    assert_eq!(dev.e1000_recv(), Ok(vec![]));
    assert_eq!(dev.kernel().reg(E1000_RDT), 15);
    for slot in 0..16 {
        assert_eq!(dev.rx_descriptor(slot).status, 0);
    }
}

#[test]
fn receive_stops_at_the_first_slot_that_is_not_done() {
    let mut dev = device(16);
    let a0 = dev.rx_descriptor(0).addr;
    let a2 = dev.rx_descriptor(2).addr;
    dev.nic_set_rx_buffer(0, &[5u8; 70]);
    dev.nic_set_rx_desc(0, &done_rx(70, a0));
    dev.nic_set_rx_buffer(2, &[6u8; 70]);
    dev.nic_set_rx_desc(2, &done_rx(70, a2));
    assert_eq!(dev.e1000_recv(), Ok(vec![vec![5u8; 70]]));
    assert_eq!(dev.kernel().reg(E1000_RDT), 0);
    assert_eq!(dev.rx_descriptor(2).status, 0x01);
    assert_eq!(dev.e1000_recv(), Ok(vec![]));
    assert_eq!(dev.kernel().reg(E1000_RDT), 0);
}

#[test]
fn receive_scrubs_no_more_than_the_frame() {
    let mut dev = device(16);
    let mut stale = vec![0xaau8; 2048];
    stale[..20].copy_from_slice(&[0x11u8; 20]);
    dev.nic_set_rx_buffer(0, &stale);
    let addr = dev.rx_descriptor(0).addr;
    dev.nic_set_rx_desc(0, &done_rx(20, addr));
    assert_eq!(dev.e1000_recv(), Ok(vec![vec![0x11u8; 20]]));
    let buffer = dev.rx_buffer(0);
    assert_eq!(&buffer[..20], &[0u8; 20][..]);
    assert_eq!(&buffer[20..], &stale[20..]);
}

#[test]
fn receive_bounds_the_length_by_the_buffer() {
    let mut dev = device(16);
    let data = frame(2048, 9);
    dev.nic_set_rx_buffer(0, &data);
    let addr = dev.rx_descriptor(0).addr;
    dev.nic_set_rx_desc(0, &done_rx(0xffff, addr));
    assert_eq!(dev.e1000_recv(), Ok(vec![data]));
}

#[test]
fn receive_takes_the_whole_ring_and_no_more() {
    let mut dev = device(8);
    let mut frames = Vec::new();
    for slot in 0..8 {
        let f = frame(61 + slot, slot as u8);
        let addr = dev.rx_descriptor(slot).addr;
        dev.nic_set_rx_buffer(slot, &f);
        dev.nic_set_rx_desc(slot, &done_rx(f.len() as u16, addr));
        frames.push(f);
    }
    assert_eq!(dev.e1000_recv(), Ok(frames));
    assert_eq!(dev.kernel().reg(E1000_RDT), 7);
    for slot in 0..8 {
        assert_eq!(dev.rx_descriptor(slot).status, 0);
    }
}

#[test]
fn receive_tail_goes_round_the_ring() {
    let mut dev = device(8);
    let mut tail = 7u32;
    assert_eq!(dev.kernel().reg(E1000_RDT), tail);
    let mut seed = 0u8;
    for burst in [3usize, 2, 4, 1, 5, 7] {
        let mut frames = Vec::new();
        for _ in 0..burst {
            seed = seed.wrapping_add(1);
            let f = frame(60 + seed as usize, seed);
            assert!(dev.nic_receive(&f));
            frames.push(f);
        }
        assert_eq!(dev.e1000_recv(), Ok(frames));
        for j in 1..=burst as u32 {
            assert_eq!(dev.rx_descriptor(((tail + j) % 8) as usize).status, 0);
        }
        tail = (tail + burst as u32) % 8;
        assert_eq!(dev.kernel().reg(E1000_RDT), tail);
    }
}

#[test]
fn receive_reports_a_descriptor_without_a_buffer() {
    let mut dev = device(16);
    let slot0 = dev.rx_descriptor(0);
    dev.nic_set_rx_desc(0, &RxDesc { addr: 0, status: 0x01, length: 60, ..slot0 });
    assert_eq!(dev.e1000_recv(), Err(E1000Error::InvalidDescriptor));
    assert_eq!(dev.kernel().reg(E1000_RDT), 15);
    assert_eq!(dev.rx_descriptor(0).status, 0x01);
}

#[test]
fn controller_drops_a_frame_without_a_slot() {
    let mut dev = device(8);
    for i in 0..7u8 {
        assert!(dev.nic_receive(&[i; 60]));
    }
    // the head has caught up with the tail
    assert!(!dev.nic_receive(&[9u8; 60]));
    let got = match dev.e1000_recv() {
        Ok(got) => got,
        Err(e) => panic!("no frames: {:?}", e),
    };
    assert_eq!(got.len(), 7);
    assert_eq!(got[6], vec![6u8; 60]);
    assert!(dev.nic_receive(&[9u8; 60]));
}

#[test]
fn interrupt_dispatch() {
    let mut dev = device(16);
    dev.nic_raise(0x80);
    assert_eq!(dev.kernel().reg(E1000_ICR), 0x80);
    assert_eq!(dev.e1000_intr(), 0x80);
    assert_eq!(dev.kernel().reg(E1000_ICR), 0);
    assert_eq!(dev.e1000_intr(), 0);
}

#[test]
fn reading_the_causes_clears_them() {
    let mut dev = device(16);
    dev.nic_raise(0x80 | 0x04 | 0x01);
    assert_eq!(dev.e1000_intr(), 0x85);
    assert_eq!(dev.kernel().reg(E1000_ICR) & (0x80 | 0x04), 0);
}

#[test]
fn an_arriving_frame_raises_the_receiver_timer() {
    let mut dev = device(16);
    assert!(dev.nic_receive(&[0u8; 64]));
    assert_eq!(dev.e1000_intr() & 0x80, 0x80);
}

#[test]
fn link_interrupt_is_caused() {
    let mut dev = device(16);
    dev.e1000_cause_lsc_int();
    assert_eq!(dev.e1000_intr(), 0x04);
}

#[test]
fn irq_disable_is_idempotent() {
    let mut dev = device(16);
    assert_eq!(dev.kernel().reg(E1000_IMS), 0x84);
    dev.e1000_irq_disable();
    let once: Vec<u32> = (0..0x8000).map(|r| dev.kernel().reg(r)).collect();
    assert_eq!(dev.kernel().reg(E1000_IMS), 0);
    dev.e1000_irq_disable();
    let twice: Vec<u32> = (0..0x8000).map(|r| dev.kernel().reg(r)).collect();
    assert_eq!(once, twice);
}

#[test]
fn irq_enable_restores_the_mask() {
    let mut dev = device(16);
    dev.nic_set_reg(E1000_IMS, 0xffff_ffff);
    dev.e1000_irq_disable();
    assert_eq!(dev.kernel().reg(E1000_IMS), 0);
    dev.e1000_irq_enable();
    assert_eq!(dev.kernel().reg(E1000_IMS), IMS_ENABLE_MASK);
    assert_eq!(IMS_ENABLE_MASK, 0x80 | 0x04);
}

#[test]
fn write_flush_changes_no_register() {
    let mut dev = device(16);
    let before: Vec<u32> = (0..0x8000).map(|r| dev.kernel().reg(r)).collect();
    dev.e1000_write_flush();
    dev.e1000_clean_tx_irq();
    let after: Vec<u32> = (0..0x8000).map(|r| dev.kernel().reg(r)).collect();
    assert_eq!(before, after);
}

#[test]
fn ring_must_be_a_multiple_of_128_bytes() {
    for n in [0u16, 1, 4, 7, 12, 20, 0xffff] {
        let r = E1000Device::with_ring_size(SimKernel::new(1024, 0), SIM_MMIO_BASE, n);
        assert_eq!(r.err(), Some(E1000Error::RingMisaligned));
    }
    for n in [8u16, 16, 24, 256] {
        let r = E1000Device::with_ring_size(SimKernel::new(1024, 0), SIM_MMIO_BASE, n);
        assert!(r.is_ok());
    }
}

#[test]
fn allocation_failure_is_reported() {
    // rings of 16 take two pages and their buffers sixteen
    for pages in [0usize, 1, 2, 9, 17] {
        let r = E1000Device::with_ring_size(SimKernel::new(pages, 0), SIM_MMIO_BASE, 16);
        assert_eq!(r.err(), Some(E1000Error::AllocationFailed));
    }
    let r = E1000Device::with_ring_size(SimKernel::new(18, 0), SIM_MMIO_BASE, 16);
    match r {
        Ok(dev) => assert_eq!(dev.kernel().free_pages(), 0),
        Err(e) => panic!("no device: {:?}", e),
    }
}

#[test]
fn rings_of_256_take_their_pages() {
    let dev = device(256);
    assert_eq!(dev.kernel().reg(E1000_TDLEN), 4096);
    assert_eq!(dev.kernel().reg(E1000_RDT), 255);
    assert_eq!(dev.kernel().free_pages(), 1024 - 2 - 2 * 128);
}

#[test]
fn release_gives_the_memory_back() {
    let dev = device(16);
    assert_eq!(dev.kernel().reg(E1000_RCTL) & 0x2, 0x2);
    assert_eq!(dev.kernel().reg(E1000_TCTL) & 0x2, 0x2);
    let k = dev.release();
    // receiver and transmitter are off, and nothing else of them has changed
    assert_eq!(k.reg(E1000_RCTL), 0x0400_8000);
    assert_eq!(k.reg(E1000_TCTL), 0x0103_f0f8);
    assert_eq!(k.reg(E1000_RDBAL), (SIM_DMA_PADDR + 4096) as u32);
    // no region of the device is live any more
    let mut k = k;
    let (vaddr, paddr) = k.dma_alloc_coherent(1);
    assert_eq!(vaddr, SIM_DMA_VADDR + 18 * 4096);
    assert_eq!(paddr, SIM_DMA_PADDR + 18 * 4096);
}

#[test]
fn sim_kernel_hands_out_pages_in_order() {
    let mut k = SimKernel::new(4, 0);
    assert_eq!(k.free_pages(), 4);
    assert_eq!(k.dma_alloc_coherent(0), (0, 0));
    let (v0, bus0) = k.dma_alloc_coherent(1);
    assert_eq!((v0, bus0), (SIM_DMA_VADDR, SIM_DMA_PADDR));
    let (v1, bus1) = k.dma_alloc_coherent(2);
    assert_eq!((v1, bus1), (SIM_DMA_VADDR + 4096, SIM_DMA_PADDR + 4096));
    assert_eq!(k.dma_alloc_coherent(2), (0, 0));
    assert_eq!(k.free_pages(), 1);
    k.dma_write(v1, 8190, &[1, 2]);
    assert_eq!(k.dma_read(v1, 8189, 3), vec![0, 1, 2]);
    assert_eq!(k.dma_read_u8(v0, 0), 0);
    k.dma_write_u8(v0, 4095, 7);
    assert_eq!(k.dma_read_u8(v0, 4095), 7);
    assert!(!k.settled());
    k.fence_w();
    assert!(!k.settled());
    let _ = k.mmio_read(SIM_MMIO_BASE, 2);
    assert!(k.settled());
    k.dma_free_coherent(v0, 1);
    assert_eq!(k.free_pages(), 1);
}

#[test]
fn sim_kernel_notes_a_tail_written_ahead_of_the_barrier() {
    let mut k = SimKernel::new(4, 0);
    let (v, _) = k.dma_alloc_coherent(1);
    k.dma_write_u8(v, 0, 1);
    k.mmio_write(SIM_MMIO_BASE, E1000_TDT, 1);
    k.fence();
    let _ = k.mmio_read(SIM_MMIO_BASE, 2);
    assert!(!k.settled());
}

#[test]
fn net_rx_leaves_the_packet() {
    let mut packet = [1u8, 2, 3];
    net_rx(&mut packet);
    assert_eq!(packet, [1, 2, 3]);
}

#[test]
fn frames_come_out_as_they_arrived() {
    let mut dev = device(8);
    let mut frames = Vec::new();
    for i in 0..7usize {
        let f = frame(60 + 100 * i, (7 * i) as u8);
        assert!(dev.nic_receive(&f));
        frames.push(f);
    }
    assert_eq!(dev.kernel().reg(E1000_RDH), 7);
    assert_eq!(dev.e1000_recv(), Ok(frames));
    assert_eq!(dev.kernel().reg(E1000_RDT), 6);
    assert!(dev.cursors_in_ring());
}

#[test]
fn tails_out_of_the_ring_are_noticed() {
    let mut dev = device(8);
    assert!(dev.cursors_in_ring());
    dev.nic_set_reg(E1000_TDT, 8);
    assert!(!dev.cursors_in_ring());
    dev.nic_set_reg(E1000_TDT, 7);
    dev.nic_set_reg(E1000_RDT, 100);
    assert!(!dev.cursors_in_ring());
}

#[test]
fn a_cut_frame_is_sent_once() {
    let mut dev = device(16);
    let long = frame(2049, 5);
    let sent = dev.e1000_transmit(&long);
    assert!(sent.is_ok());
    assert_eq!(sent, Ok((2048, Some(E1000Error::TxTruncated))));
    assert_eq!(dev.nic_send(), Some(long[..2048].to_vec()));
    assert_eq!(dev.nic_send(), None);
    assert_eq!(dev.e1000_transmit(&long[..2048]), Ok((2048, None)));
}

#[test]
fn receive_needs_no_tail_in_the_ring() {
    let mut dev = device(8);
    dev.nic_set_reg(E1000_RDT, 0xffff_ffff);
    // the slot after the tail is slot 0, modulo the ring
    assert_eq!(dev.e1000_recv(), Ok(vec![]));
    dev.nic_set_reg(E1000_RDT, 8 + 2);
    let addr = dev.rx_descriptor(3).addr;
    dev.nic_set_rx_buffer(3, &[4u8; 60]);
    dev.nic_set_rx_desc(3, &done_rx(60, addr));
    assert_eq!(dev.e1000_recv(), Ok(vec![vec![4u8; 60]]));
    assert_eq!(dev.kernel().reg(E1000_RDT), 3);
}

#[test]
fn transmit_tail_is_checked_alone() {
    let mut dev = device(8);
    dev.nic_set_reg(E1000_RDT, 100);
    assert!(dev.tx_tail_in_ring());
    assert!(!dev.cursors_in_ring());
    assert_eq!(dev.e1000_transmit(&[1u8; 60]), Ok((60, None)));
    dev.nic_set_reg(E1000_TDT, 8);
    assert!(!dev.tx_tail_in_ring());
}

#[test]
fn frames_go_into_the_slots_in_the_order_of_the_calls() {
    let mut dev = device(8);
    for _ in 0..3 {
        assert!(dev.e1000_transmit(&[0u8; 60]).is_ok());
        assert!(dev.nic_send().is_some());
    }
    for j in 0..20usize {
        let slot = (3 + j) % 8;
        let f = frame(61 + j, (11 * j) as u8);
        assert_eq!(dev.kernel().reg(E1000_TDT) as usize, slot);
        assert_eq!(dev.e1000_transmit(&f), Ok((f.len(), None)));
        assert_eq!(&dev.tx_buffer(slot)[..f.len()], &f[..]);
        assert_eq!(dev.tx_descriptor(slot).length as usize, f.len());
        assert_eq!(dev.tx_descriptor(slot).status, 0);
        assert_eq!(dev.kernel().reg(E1000_TDT) as usize, (slot + 1) % 8);
        assert_eq!(dev.nic_send(), Some(f));
        assert_eq!(dev.tx_descriptor(slot).status & 0x01, 0x01);
    }
    assert_eq!(dev.kernel().reg(E1000_TDT), (3 + 20) % 8);
}
