//! The making and the unmaking of a device: its DMA regions, its rings, and
//! the first initialization of the controller.

use vstd::prelude::*;
use crate::desc::DESC_SIZE;
use crate::desc::RxDesc;
use crate::desc::TxDesc;
use crate::e1000::E1000Device;
use crate::e1000::E1000Error;
use crate::e1000::TX_RING_SIZE;
use crate::e1000_const::E1000_RCTL;
use crate::e1000_const::E1000_RCTL_EN;
use crate::e1000_const::E1000_TCTL;
use crate::e1000_const::E1000_TCTL_EN;
use crate::e1000_const::E1000_TXD_STAT_DD;
use crate::hw::Hw;
use crate::hw::PAGE_SIZE;
use crate::kernel::KernelFunc;
use crate::ring::MAX_RING_SIZE;
use crate::ring::MBUF_SIZE;
use crate::ring::RingLayout;
use crate::ring::lemma_pages_hold;
use crate::ring::pages_needed;
use crate::ring::ring_aligned;
use crate::ring::rings_fresh;
use crate::ring::rx_fresh;
use crate::ring::tx_fresh;
use crate::steps::init_nic;
use crate::steps::lemma_init_regs;
use crate::steps::lemma_rings_made;
use crate::steps::lemma_stopped;
use crate::steps::regions_given;
use crate::steps::regions_taken;
use crate::steps::rings_made;
use crate::steps::rx_ring_filled;
use crate::steps::stopped;
use crate::steps::tx_ring_filled;
use crate::xfer::zero_bytes;

verus! {

impl<K: KernelFunc> E1000Device<K> {
    /// New an e1000 device by Allocating memory: rings of `TX_RING_SIZE`
    /// descriptors. See `with_ring_size`.
    pub fn new(kfn: K, mapped_regs: usize) -> (r: Result<E1000Device<K>, E1000Error>)
        requires
            kfn.hw().wf(),
            mapped_regs == kfn.hw().mmio_base,
        ensures
            built(kfn.hw(), mapped_regs, TX_RING_SIZE as int, r),
    {
        E1000Device::with_ring_size(kfn, mapped_regs, TX_RING_SIZE as u16)
    }

    /// Makes a device on the register window at `mapped_regs`, with rings of
    /// `ring_size` descriptors: allocates both rings and a buffer for each
    /// slot, points every descriptor at its buffer, marks every transmit slot
    /// as free, and initializes the controller.
    ///
    /// Fails with `RingMisaligned` if the ring would not be a positive
    /// multiple of 128 bytes long, with `AllocationFailed` if the host has
    /// not the pages for rings and buffers, and with `PhyTimeout` if the PHY
    /// does not answer. Before a failure is returned what was allocated is
    /// given back, the controller switched off first if it was initialized.
    pub fn with_ring_size(kfn: K, mapped_regs: usize, ring_size: u16) -> (r: Result<
        E1000Device<K>,
        E1000Error,
    >)
        requires
            kfn.hw().wf(),
            mapped_regs == kfn.hw().mmio_base,
        ensures
            built(kfn.hw(), mapped_regs, ring_size as int, r),
    {
        let mut kfn = kfn;
        let n = ring_size as usize;
        if n == 0 || (n * DESC_SIZE) % 128 != 0 {
            return Err(E1000Error::RingMisaligned);
        }
        let layout = match alloc_rings(&mut kfn, n) {
            Some(layout) => layout,
            None => {
                return Err(E1000Error::AllocationFailed);
            },
        };
        let ghost hw1 = kfn.hw();
        let (tx_mbufs, rx_mbufs) = make_rings(&mut kfn, &layout);
        let mut e1000dev = E1000Device {
            regs: mapped_regs,
            layout,
            rx_mbufs,
            tx_mbufs,
            mbuf_size: MBUF_SIZE,
            kfn,
        };
        let ghost hw2 = e1000dev.hw();
        proof {
            e1000dev.lemma_parts();
            lemma_rings_made(hw1.nic, layout);
        }
        match e1000dev.e1000_init() {
            Ok(()) => {},
            Err(e) => {
                let _ = e1000dev.release();
                return Err(e);
            },
        }
        proof {
            lemma_init_regs(hw2.nic, layout);
            let now = e1000dev.hw();
            assert(hw2.dma.dom() =~= hw1.dma.dom());
            assert forall|i: int| 0 <= i < layout.ring_size implies #[trigger] layout.tx_desc(
                now,
                i,
            ) == tx_fresh(layout, i) by {
                assert(layout.tx_desc(hw2, i) == tx_fresh(layout, i));
            }
            assert forall|i: int| 0 <= i < layout.ring_size implies #[trigger] layout.rx_desc(
                now,
                i,
            ) == rx_fresh(layout, i) by {
                assert(layout.rx_desc(hw2, i) == rx_fresh(layout, i));
            }
        }
        Ok(e1000dev)
    }

    /// Switches receiver and transmitter off, so that the controller uses
    /// the DMA memory of the device no more, gives that memory back to the
    /// host in the reverse order of its allocation, and returns the host.
    pub fn release(self) -> (kfn: K)
        requires
            self.wf(),
        ensures
            kfn.hw().wf(),
            kfn.hw().free_pages >= self.hw().free_pages,
            kfn.hw().nic.regs[E1000_RCTL as int] & E1000_RCTL_EN == 0,
            kfn.hw().nic.regs[E1000_TCTL as int] & E1000_TCTL_EN == 0,
            kfn.hw() == (Hw {
                nic: regions_given(stopped(self.hw().nic), self@.layout),
                dma: self.hw().dma.remove(self@.layout.rx_pool).remove(
                    self@.layout.tx_pool,
                ).remove(self@.layout.rx_ring).remove(self@.layout.tx_ring),
                free_pages: kfn.hw().free_pages,
                ..self.hw()
            }),
    {
        let mut dev = self;
        proof {
            lemma_stopped(dev.hw().nic);
        }
        dev.reg_clear(E1000_RCTL, E1000_RCTL_EN);
        dev.reg_clear(E1000_TCTL, E1000_TCTL_EN);
        dev.e1000_write_flush();
        proof {
            dev.lemma_parts();
        }
        let n = dev.layout.ring_size;
        let ring_pages = (n * DESC_SIZE + (PAGE_SIZE - 1)) / PAGE_SIZE;
        let pool_pages = (n * MBUF_SIZE + (PAGE_SIZE - 1)) / PAGE_SIZE;
        let layout = dev.layout;
        let mut kfn = dev.kfn;
        kfn.dma_free_coherent(layout.rx_pool, pool_pages);
        kfn.dma_free_coherent(layout.tx_pool, pool_pages);
        kfn.dma_free_coherent(layout.rx_ring, ring_pages);
        kfn.dma_free_coherent(layout.tx_ring, ring_pages);
        kfn
    }
}

/// What `with_ring_size` owes for a host in state `hw`, a register window at
/// `mapped_regs` and rings of `ring_size` descriptors.
///
/// It succeeds if and only if the ring is aligned, the host has the pages
/// and the PHY answers within two rounds of polling. The device is then
/// attached and its tails are in their rings; the regions were allocated,
/// the rings made and the controller initialized, in that order; both rings
/// are new; the regions that the host held before are untouched, and the
/// four of the device are new; every write to DMA memory is fenced and
/// flushed.
pub open spec fn built<K: KernelFunc>(
    hw: Hw,
    mapped_regs: usize,
    ring_size: int,
    r: Result<E1000Device<K>, E1000Error>,
) -> bool {
    match r {
        Ok(dev) => {
            let lay = dev@.layout;
            let now = dev.hw();
            &&& ring_aligned(ring_size)
            &&& pages_needed(ring_size) <= hw.free_pages
            &&& hw.nic.phy_answers()
            &&& dev.wf()
            &&& dev.cursors_ok()
            &&& dev@.mapped_regs == mapped_regs
            &&& lay.ring_size == ring_size
            &&& now.nic == init_nic(rings_made(regions_taken(hw.nic, lay), lay), lay)
            &&& now.free_pages == hw.free_pages - pages_needed(ring_size)
            &&& now.mmio_base == hw.mmio_base
            &&& !now.nic.unfenced
            &&& !now.nic.unflushed
            &&& now.nic.tail_hazard == hw.nic.tail_hazard
            &&& rings_fresh(now, lay)
            &&& !hw.dma.contains_key(lay.tx_ring)
            &&& !hw.dma.contains_key(lay.rx_ring)
            &&& !hw.dma.contains_key(lay.tx_pool)
            &&& !hw.dma.contains_key(lay.rx_pool)
            &&& now.dma.dom() == hw.dma.dom().insert(lay.tx_ring).insert(lay.rx_ring).insert(
                lay.tx_pool,
            ).insert(lay.rx_pool)
            &&& forall|v: usize| #[trigger] hw.dma.contains_key(v) ==> now.dma[v] == hw.dma[v]
        },
        Err(e) => {
            if !ring_aligned(ring_size) {
                e == E1000Error::RingMisaligned
            } else if pages_needed(ring_size) > hw.free_pages {
                e == E1000Error::AllocationFailed
            } else {
                e == E1000Error::PhyTimeout && !hw.nic.phy_answers()
            }
        },
    }
}

/// `next` is what allocating the regions of `lay`, for rings of `ring_size`
/// descriptors, makes of `hw`: the four regions are new and of their sizes,
/// the regions that the host held before are untouched, and the controller
/// has seen nothing but the allocations.
pub open spec fn allocated_as(hw: Hw, ring_size: int, lay: RingLayout, next: Hw) -> bool {
    &&& next.wf()
    &&& lay.wf()
    &&& lay.ring_size == ring_size
    &&& lay.mapped_in(next)
    &&& next.nic == regions_taken(hw.nic, lay)
    &&& next.mmio_base == hw.mmio_base
    &&& next.free_pages == hw.free_pages - pages_needed(ring_size)
    &&& !hw.dma.contains_key(lay.tx_ring)
    &&& !hw.dma.contains_key(lay.rx_ring)
    &&& !hw.dma.contains_key(lay.tx_pool)
    &&& !hw.dma.contains_key(lay.rx_pool)
    &&& next.dma.dom() == hw.dma.dom().insert(lay.tx_ring).insert(lay.rx_ring).insert(
        lay.tx_pool,
    ).insert(lay.rx_pool)
    &&& forall|v: usize| #[trigger] hw.dma.contains_key(v) ==> next.dma[v] == hw.dma[v]
}

/// Allocates the two rings and the two buffer pools of a device with rings of
/// `n` descriptors, in that order. Where the host has not the pages for all
/// of them, what was allocated is given back.
fn alloc_rings<K: KernelFunc>(kfn: &mut K, n: usize) -> (r: Option<RingLayout>)
    requires
        old(kfn).hw().wf(),
        ring_aligned(n as int),
        n <= MAX_RING_SIZE,
    ensures
        match r {
            Some(lay) => pages_needed(n as int) <= old(kfn).hw().free_pages && allocated_as(
                old(kfn).hw(),
                n as int,
                lay,
                final(kfn).hw(),
            ),
            None => {
                &&& pages_needed(n as int) > old(kfn).hw().free_pages
                &&& final(kfn).hw().wf()
                &&& final(kfn).hw().dma == old(kfn).hw().dma
                &&& final(kfn).hw().nic.regs == old(kfn).hw().nic.regs
            },
        },
{
    // The ring memory must be 16-byte aligned, which pages are
    let ring_pages = (n * DESC_SIZE + (PAGE_SIZE - 1)) / PAGE_SIZE;
    let pool_pages = (n * MBUF_SIZE + (PAGE_SIZE - 1)) / PAGE_SIZE;
    proof {
        lemma_pages_hold(n * DESC_SIZE);
        lemma_pages_hold(n * MBUF_SIZE);
    }
    let (tx_ring, tx_ring_dma) = kfn.dma_alloc_coherent(ring_pages);
    if tx_ring == 0 {
        return None;
    }
    let (rx_ring, rx_ring_dma) = kfn.dma_alloc_coherent(ring_pages);
    if rx_ring == 0 {
        kfn.dma_free_coherent(tx_ring, ring_pages);
        return None;
    }
    // All transmit buffers in one region
    let (tx_pool, tx_pool_dma) = kfn.dma_alloc_coherent(pool_pages);
    if tx_pool == 0 {
        kfn.dma_free_coherent(rx_ring, ring_pages);
        kfn.dma_free_coherent(tx_ring, ring_pages);
        return None;
    }
    // All receive buffers in one region
    let (rx_pool, rx_pool_dma) = kfn.dma_alloc_coherent(pool_pages);
    if rx_pool == 0 {
        kfn.dma_free_coherent(tx_pool, pool_pages);
        kfn.dma_free_coherent(rx_ring, ring_pages);
        kfn.dma_free_coherent(tx_ring, ring_pages);
        return None;
    }
    let layout = RingLayout {
        ring_size: n,
        tx_ring,
        tx_ring_dma,
        rx_ring,
        rx_ring_dma,
        tx_pool,
        tx_pool_dma,
        rx_pool,
        rx_pool_dma,
    };
    Some(layout)
}

/// Makes the rings of a new device: clears both, points every descriptor at
/// its buffer, marks every transmit slot as free, and fences the writes.
/// Returns the addresses of the transmit buffers and of the receive buffers.
fn make_rings<K: KernelFunc>(kfn: &mut K, lay: &RingLayout) -> (mbufs: (Vec<usize>, Vec<usize>))
    requires
        old(kfn).hw().wf(),
        lay.wf(),
        lay.mapped_in(old(kfn).hw()),
    ensures
        final(kfn).hw().wf(),
        lay.mapped_in(final(kfn).hw()),
        rings_fresh(final(kfn).hw(), *lay),
        mbufs.0@.len() == lay.ring_size,
        mbufs.1@.len() == lay.ring_size,
        forall|i: int|
            0 <= i < lay.ring_size ==> #[trigger] mbufs.0@[i] == lay.tx_pool + i * MBUF_SIZE,
        forall|i: int|
            0 <= i < lay.ring_size ==> #[trigger] mbufs.1@[i] == lay.rx_pool + i * MBUF_SIZE,
        final(kfn).hw() == (Hw {
            nic: rings_made(old(kfn).hw().nic, *lay),
            dma: old(kfn).hw().dma.insert(lay.tx_ring, final(kfn).hw().dma[lay.tx_ring]).insert(
                lay.rx_ring,
                final(kfn).hw().dma[lay.rx_ring],
            ),
            ..old(kfn).hw()
        }),
{
    proof {
        lemma_pages_hold(lay.ring_bytes());
    }
    let blank = zero_bytes(lay.ring_size * DESC_SIZE);
    kfn.dma_write(lay.tx_ring, 0, blank.as_slice());
    kfn.dma_write(lay.rx_ring, 0, blank.as_slice());
    let tx_mbufs = fill_tx_ring(kfn, lay);
    let ghost tx_filled = kfn.hw();
    let rx_mbufs = fill_rx_ring(kfn, lay);
    let ghost rx_filled = kfn.hw();
    kfn.fence_w();
    proof {
        reveal(rings_made);
        let now = kfn.hw();
        assert forall|i: int| 0 <= i < lay.ring_size implies #[trigger] lay.rx_desc(now, i)
            == rx_fresh(*lay, i) by {
            assert(lay.rx_desc(rx_filled, i) == rx_fresh(*lay, i));
        }
        assert(now.dma =~= old(kfn).hw().dma.insert(lay.tx_ring, now.dma[lay.tx_ring]).insert(
            lay.rx_ring,
            now.dma[lay.rx_ring],
        ));
        assert forall|i: int| 0 <= i < lay.ring_size implies #[trigger] lay.tx_desc(now, i)
            == tx_fresh(*lay, i) by {
            assert(lay.tx_desc(tx_filled, i) == tx_fresh(*lay, i));
        }
    }
    (tx_mbufs, rx_mbufs)
}

/// Points every transmit descriptor at its buffer and marks it as done.
/// Returns the address of each buffer.
fn fill_tx_ring<K: KernelFunc>(kfn: &mut K, lay: &RingLayout) -> (mbufs: Vec<usize>)
    requires
        old(kfn).hw().wf(),
        lay.wf(),
        lay.mapped_in(old(kfn).hw()),
    ensures
        final(kfn).hw().wf(),
        lay.mapped_in(final(kfn).hw()),
        mbufs@.len() == lay.ring_size,
        forall|i: int|
            0 <= i < lay.ring_size ==> #[trigger] mbufs@[i] == lay.tx_pool + i * MBUF_SIZE,
        forall|i: int|
            0 <= i < lay.ring_size ==> #[trigger] lay.tx_desc(final(kfn).hw(), i) == tx_fresh(
                *lay,
                i,
            ),
        final(kfn).hw() == (Hw {
            nic: tx_ring_filled(old(kfn).hw().nic, *lay, lay.ring_size as nat),
            dma: old(kfn).hw().dma.insert(lay.tx_ring, final(kfn).hw().dma[lay.tx_ring]),
            ..old(kfn).hw()
        }),
{
    let n = lay.ring_size;
    let mut mbufs: Vec<usize> = Vec::with_capacity(n);
    proof {
        lemma_pages_hold(lay.ring_bytes());
        lemma_pages_hold(lay.pool_bytes());
    }
    assert(kfn.hw().dma =~= kfn.hw().dma.insert(lay.tx_ring, kfn.hw().dma[lay.tx_ring]));
    let mut i: usize = 0;
    while i < n
        invariant
            n == lay.ring_size,
            i <= n,
            lay.wf(),
            kfn.hw().wf(),
            lay.mapped_in(kfn.hw()),
            lay.ring_bytes() <= kfn.hw().dma[lay.tx_ring].bytes.len(),
            lay.tx_pool + lay.pool_bytes() <= usize::MAX,
            lay.tx_pool_dma + lay.pool_bytes() <= usize::MAX,
            mbufs@.len() == i,
            forall|j: int| 0 <= j < i ==> #[trigger] mbufs@[j] == lay.tx_pool + j * MBUF_SIZE,
            forall|j: int| 0 <= j < i ==> #[trigger] lay.tx_desc(kfn.hw(), j) == tx_fresh(*lay, j),
            kfn.hw() == (Hw {
                nic: tx_ring_filled(old(kfn).hw().nic, *lay, i as nat),
                dma: old(kfn).hw().dma.insert(lay.tx_ring, kfn.hw().dma[lay.tx_ring]),
                ..old(kfn).hw()
            }),
        decreases n - i,
    {
        let desc = TxDesc {
            addr: (lay.tx_pool_dma + i * MBUF_SIZE) as u64,
            length: 0,
            cso: 0,
            cmd: 0,
            status: E1000_TXD_STAT_DD,
            css: 0,
            special: 0,
        };
        let bytes = desc.to_bytes();
        let ghost before = kfn.hw();
        proof {
            desc.lemma_round_trip();
        }
        kfn.dma_write(lay.tx_ring, i * DESC_SIZE, bytes.as_slice());
        mbufs.push(lay.tx_pool + i * MBUF_SIZE);
        proof {
            let now = kfn.hw();
            assert(now.dma =~= old(kfn).hw().dma.insert(lay.tx_ring, now.dma[lay.tx_ring]));
            assert forall|j: int| 0 <= j < i implies #[trigger] lay.tx_desc(now, j) == tx_fresh(
                *lay,
                j,
            ) by {
                assert(lay.tx_desc(before, j) == tx_fresh(*lay, j));
            }
        }
        i = i + 1;
    }
    mbufs
}

/// Points every receive descriptor at its buffer. Returns the address of
/// each buffer.
fn fill_rx_ring<K: KernelFunc>(kfn: &mut K, lay: &RingLayout) -> (mbufs: Vec<usize>)
    requires
        old(kfn).hw().wf(),
        lay.wf(),
        lay.mapped_in(old(kfn).hw()),
    ensures
        final(kfn).hw().wf(),
        lay.mapped_in(final(kfn).hw()),
        mbufs@.len() == lay.ring_size,
        forall|i: int|
            0 <= i < lay.ring_size ==> #[trigger] mbufs@[i] == lay.rx_pool + i * MBUF_SIZE,
        forall|i: int|
            0 <= i < lay.ring_size ==> #[trigger] lay.rx_desc(final(kfn).hw(), i) == rx_fresh(
                *lay,
                i,
            ),
        final(kfn).hw() == (Hw {
            nic: rx_ring_filled(old(kfn).hw().nic, *lay, lay.ring_size as nat),
            dma: old(kfn).hw().dma.insert(lay.rx_ring, final(kfn).hw().dma[lay.rx_ring]),
            ..old(kfn).hw()
        }),
{
    let n = lay.ring_size;
    let mut mbufs: Vec<usize> = Vec::with_capacity(n);
    proof {
        lemma_pages_hold(lay.ring_bytes());
        lemma_pages_hold(lay.pool_bytes());
    }
    assert(kfn.hw().dma =~= kfn.hw().dma.insert(lay.rx_ring, kfn.hw().dma[lay.rx_ring]));
    let mut i: usize = 0;
    while i < n
        invariant
            n == lay.ring_size,
            i <= n,
            lay.wf(),
            kfn.hw().wf(),
            lay.mapped_in(kfn.hw()),
            lay.ring_bytes() <= kfn.hw().dma[lay.rx_ring].bytes.len(),
            lay.rx_pool + lay.pool_bytes() <= usize::MAX,
            lay.rx_pool_dma + lay.pool_bytes() <= usize::MAX,
            mbufs@.len() == i,
            forall|j: int| 0 <= j < i ==> #[trigger] mbufs@[j] == lay.rx_pool + j * MBUF_SIZE,
            forall|j: int| 0 <= j < i ==> #[trigger] lay.rx_desc(kfn.hw(), j) == rx_fresh(*lay, j),
            kfn.hw() == (Hw {
                nic: rx_ring_filled(old(kfn).hw().nic, *lay, i as nat),
                dma: old(kfn).hw().dma.insert(lay.rx_ring, kfn.hw().dma[lay.rx_ring]),
                ..old(kfn).hw()
            }),
        decreases n - i,
    {
        let desc = RxDesc {
            addr: (lay.rx_pool_dma + i * MBUF_SIZE) as u64,
            length: 0,
            csum: 0,
            status: 0,
            errors: 0,
            special: 0,
        };
        let bytes = desc.to_bytes();
        let ghost before = kfn.hw();
        proof {
            desc.lemma_round_trip();
        }
        kfn.dma_write(lay.rx_ring, i * DESC_SIZE, bytes.as_slice());
        mbufs.push(lay.rx_pool + i * MBUF_SIZE);
        proof {
            let now = kfn.hw();
            assert(now.dma =~= old(kfn).hw().dma.insert(lay.rx_ring, now.dma[lay.rx_ring]));
            assert forall|j: int| 0 <= j < i implies #[trigger] lay.rx_desc(now, j) == rx_fresh(
                *lay,
                j,
            ) by {
                assert(lay.rx_desc(before, j) == rx_fresh(*lay, j));
            }
        }
        i = i + 1;
    }
    mbufs
}

} // verus!
