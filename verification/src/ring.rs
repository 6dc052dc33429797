//! Where the descriptor rings and their buffers lie, and how to read them out
//! of the hardware model.

use vstd::prelude::*;
use crate::desc::DESC_SIZE;
use crate::desc::RxDesc;
use crate::desc::TxDesc;
use crate::e1000_const::E1000_RDH;
use crate::e1000_const::E1000_RDT;
use crate::e1000_const::E1000_RXD_STAT_DD;
use crate::e1000_const::E1000_TDH;
use crate::e1000_const::E1000_TDT;
use crate::e1000_const::E1000_TXD_STAT_DD;
use crate::hw::Hw;
use crate::hw::PAGE_SIZE;

verus! {

/// Size of one packet buffer in bytes.
pub const MBUF_SIZE: usize = 2048;

/// The largest number of descriptors in a ring: the tail registers hold 16
/// bits.
pub const MAX_RING_SIZE: usize = 0xffff;

/// The four DMA regions of a device: the two descriptor rings and the two
/// buffer pools, each by the address at which the CPU sees it and the address
/// at which the controller does.
#[derive(Clone, Copy, Debug)]
pub struct RingLayout {
    /// Number of descriptors in each ring.
    pub ring_size: usize,
    pub tx_ring: usize,
    pub tx_ring_dma: usize,
    pub rx_ring: usize,
    pub rx_ring_dma: usize,
    pub tx_pool: usize,
    pub tx_pool_dma: usize,
    pub rx_pool: usize,
    pub rx_pool_dma: usize,
}

/// A ring of `ring_size` descriptors has a length that the controller takes:
/// a positive multiple of 128 bytes.
pub open spec fn ring_aligned(ring_size: int) -> bool {
    ring_size > 0 && (ring_size * DESC_SIZE) % 128 == 0
}

/// Number of pages that hold `bytes` bytes.
pub open spec fn pages_for(bytes: int) -> int {
    (bytes + PAGE_SIZE - 1) / (PAGE_SIZE as int)
}

/// Number of pages that the rings and pools of a device with `ring_size`
/// descriptors take.
pub open spec fn pages_needed(ring_size: int) -> int {
    2 * pages_for(ring_size * DESC_SIZE) + 2 * pages_for(ring_size * MBUF_SIZE)
}

/// The slot after `i` in a ring of `ring_size` slots.
pub open spec fn next_slot(i: int, ring_size: int) -> int {
    (i + 1) % ring_size
}

/// The slot `j` places after `r` in a ring of `ring_size` slots, for `j` up
/// to `ring_size`.
pub open spec fn slot_after(r: int, j: int, ring_size: int) -> int {
    if r + j < ring_size {
        r + j
    } else {
        r + j - ring_size
    }
}

/// Slot `s` is one of the `k` slots from `r` on.
pub open spec fn in_run(s: int, r: int, k: int, ring_size: int) -> bool {
    if s >= r {
        s - r < k
    } else {
        s + ring_size - r < k
    }
}

/// Going round the ring is counting modulo its size.
pub proof fn lemma_slot_after(r: int, j: int, ring_size: int)
    requires
        0 <= r < ring_size,
        0 <= j <= ring_size,
    ensures
        slot_after(r, j, ring_size) == (r + j) % ring_size,
        0 <= slot_after(r, j, ring_size) < ring_size,
        next_slot(r, ring_size) == slot_after(r, 1, ring_size),
{
    if r + j < ring_size {
        vstd::arithmetic::div_mod::lemma_small_mod((r + j) as nat, ring_size as nat);
    } else {
        vstd::arithmetic::div_mod::lemma_small_mod((r + j - ring_size) as nat, ring_size as nat);
        vstd::arithmetic::div_mod::lemma_mod_add_multiples_vanish(r + j - ring_size, ring_size);
    }
    if r + 1 < ring_size {
        vstd::arithmetic::div_mod::lemma_small_mod((r + 1) as nat, ring_size as nat);
    } else {
        vstd::arithmetic::div_mod::lemma_mod_self_0(ring_size);
    }
}

impl RingLayout {
    /// Length of a descriptor ring in bytes.
    pub open spec fn ring_bytes(self) -> int {
        self.ring_size * DESC_SIZE
    }

    /// Length of a buffer pool in bytes.
    pub open spec fn pool_bytes(self) -> int {
        self.ring_size * MBUF_SIZE
    }

    pub open spec fn wf(self) -> bool {
        &&& ring_aligned(self.ring_size as int)
        &&& self.ring_size <= MAX_RING_SIZE
        &&& self.tx_ring != self.rx_ring
        &&& self.tx_ring != self.tx_pool
        &&& self.tx_ring != self.rx_pool
        &&& self.rx_ring != self.tx_pool
        &&& self.rx_ring != self.rx_pool
        &&& self.tx_pool != self.rx_pool
    }

    /// The four regions are live in `hw`, at the bus addresses that the
    /// layout records, and large enough.
    pub open spec fn mapped_in(self, hw: Hw) -> bool {
        &&& hw.dma.contains_key(self.tx_ring)
        &&& hw.dma.contains_key(self.rx_ring)
        &&& hw.dma.contains_key(self.tx_pool)
        &&& hw.dma.contains_key(self.rx_pool)
        &&& hw.dma[self.tx_ring].paddr == self.tx_ring_dma
        &&& hw.dma[self.rx_ring].paddr == self.rx_ring_dma
        &&& hw.dma[self.tx_pool].paddr == self.tx_pool_dma
        &&& hw.dma[self.rx_pool].paddr == self.rx_pool_dma
        &&& hw.dma[self.tx_ring].bytes.len() == pages_for(self.ring_bytes()) * PAGE_SIZE
        &&& hw.dma[self.rx_ring].bytes.len() == pages_for(self.ring_bytes()) * PAGE_SIZE
        &&& hw.dma[self.tx_pool].bytes.len() == pages_for(self.pool_bytes()) * PAGE_SIZE
        &&& hw.dma[self.rx_pool].bytes.len() == pages_for(self.pool_bytes()) * PAGE_SIZE
    }

    /// The transmit tail names a slot of its ring.
    pub open spec fn tx_cursor_ok(self, hw: Hw) -> bool {
        hw.nic.regs[E1000_TDT as int] < self.ring_size
    }

    /// The receive tail names a slot of its ring.
    pub open spec fn rx_cursor_ok(self, hw: Hw) -> bool {
        hw.nic.regs[E1000_RDT as int] < self.ring_size
    }

    /// Both tail registers name a slot of their ring.
    pub open spec fn cursors_ok(self, hw: Hw) -> bool {
        self.tx_cursor_ok(hw) && self.rx_cursor_ok(hw)
    }

    /// The transmit descriptor in slot `i`.
    pub open spec fn tx_desc(self, hw: Hw, i: int) -> TxDesc {
        TxDesc::decode_at(hw.dma[self.tx_ring].bytes, i * DESC_SIZE)
    }

    /// The receive descriptor in slot `i`.
    pub open spec fn rx_desc(self, hw: Hw, i: int) -> RxDesc {
        RxDesc::decode_at(hw.dma[self.rx_ring].bytes, i * DESC_SIZE)
    }

    /// The buffer of transmit slot `i`.
    pub open spec fn tx_buffer(self, hw: Hw, i: int) -> Seq<u8> {
        hw.dma[self.tx_pool].bytes.subrange(i * MBUF_SIZE, (i + 1) * MBUF_SIZE)
    }

    /// The buffer of receive slot `i`.
    pub open spec fn rx_buffer(self, hw: Hw, i: int) -> Seq<u8> {
        hw.dma[self.rx_pool].bytes.subrange(i * MBUF_SIZE, (i + 1) * MBUF_SIZE)
    }

    /// Transmit slot `i` belongs to software: the controller is done with it.
    pub open spec fn tx_done(self, hw: Hw, i: int) -> bool {
        self.tx_desc(hw, i).status & E1000_TXD_STAT_DD != 0
    }

    /// Receive slot `i` belongs to software: the controller has put a frame in
    /// it.
    pub open spec fn rx_done(self, hw: Hw, i: int) -> bool {
        self.rx_desc(hw, i).status & E1000_RXD_STAT_DD != 0
    }

    /// The transmit tail: the slot that software fills next.
    pub open spec fn tdt(self, hw: Hw) -> int {
        hw.nic.regs[E1000_TDT as int] as int
    }

    /// The transmit head: the slot that the controller sends next.
    pub open spec fn tdh(self, hw: Hw) -> int {
        hw.nic.regs[E1000_TDH as int] as int
    }

    /// The receive tail: the last slot that software gave to the controller.
    pub open spec fn rdt(self, hw: Hw) -> int {
        hw.nic.regs[E1000_RDT as int] as int
    }

    /// The receive head: the slot that the controller fills next.
    pub open spec fn rdh(self, hw: Hw) -> int {
        hw.nic.regs[E1000_RDH as int] as int
    }
}

/// The transmit descriptor of slot `i` of a new ring: it points at its
/// buffer, and it is done, so that the slot is free.
pub open spec fn tx_fresh(lay: RingLayout, i: int) -> TxDesc {
    TxDesc {
        addr: (lay.tx_pool_dma + i * MBUF_SIZE) as u64,
        length: 0,
        cso: 0,
        cmd: 0,
        status: E1000_TXD_STAT_DD,
        css: 0,
        special: 0,
    }
}

/// The receive descriptor of slot `i` of a new ring: it points at its buffer,
/// and nothing else is set.
pub open spec fn rx_fresh(lay: RingLayout, i: int) -> RxDesc {
    RxDesc {
        addr: (lay.rx_pool_dma + i * MBUF_SIZE) as u64,
        length: 0,
        csum: 0,
        status: 0,
        errors: 0,
        special: 0,
    }
}

/// Both rings of `lay` are new in `hw`.
pub open spec fn rings_fresh(hw: Hw, lay: RingLayout) -> bool {
    &&& forall|i: int|
        0 <= i < lay.ring_size ==> #[trigger] lay.tx_desc(hw, i) == tx_fresh(lay, i)
    &&& forall|i: int|
        0 <= i < lay.ring_size ==> #[trigger] lay.rx_desc(hw, i) == rx_fresh(lay, i)
}

/// A ring and its pool fit in the pages that are asked for them.
pub proof fn lemma_pages_hold(bytes: int)
    requires
        0 <= bytes,
    ensures
        bytes <= pages_for(bytes) * PAGE_SIZE,
        bytes > 0 ==> pages_for(bytes) > 0,
{
}

} // verus!
