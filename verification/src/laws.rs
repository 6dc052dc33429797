//! What holds of the engine as a whole: each law relates the operations to
//! the state of the hardware, and is proved from their contracts.

use vstd::prelude::*;
use crate::desc::DESC_LENGTH;
use crate::desc::DESC_SIZE;
use crate::desc::DESC_STATUS;
use crate::desc::TXD_CMD;
use crate::desc::le16_at;
use crate::desc::le16_bytes;
use crate::desc::lemma_le16_round_trip;
use crate::e1000::E1000Device;
use crate::e1000::E1000Error;
use crate::e1000_const::E1000_ICR;
use crate::e1000_const::E1000_ICR_LSC;
use crate::e1000_const::E1000_ICR_RXT0;
use crate::e1000_const::E1000_IMS;
use crate::e1000_const::E1000_MDIC;
use crate::e1000_const::E1000_RDT;
use crate::e1000_const::E1000_STAT;
use crate::e1000_const::E1000_TDT;
use crate::e1000_const::E1000_TXD_CMD_SEND;
use crate::e1000_const::E1000_TXD_STAT_DD;
use crate::e1000_const::IMS_ENABLE_MASK;
use crate::e1000_const::PHY_POLL_LIMIT;
use crate::hw::Access;
use crate::hw::Hw;
use crate::hw::Nic;
use crate::hw::splice;
use crate::kernel::KernelFunc;
use crate::nic::after_nic_receive;
use crate::nic::after_nic_send;
use crate::nic::heads_ok;
use crate::nic::nic_frame;
use crate::nic::nic_has_frame;
use crate::nic::nic_has_room;
use crate::ring::MBUF_SIZE;
use crate::ring::RingLayout;
use crate::ring::in_run;
use crate::ring::lemma_pages_hold;
use crate::ring::lemma_slot_after;
use crate::ring::next_slot;
use crate::ring::slot_after;
use crate::setup::built;
use crate::steps::irq_disabled;
use crate::steps::irq_enabled;
use crate::steps::lemma_init_regs;
use crate::steps::lemma_mdic_ran;
use crate::steps::lemma_phy_commands;
use crate::steps::lemma_rings_made;
use crate::steps::phy_index;
use crate::steps::phy_read;
use crate::steps::regions_taken;
use crate::steps::rings_made;
use crate::steps::spec_mdic_data;
use crate::steps::spec_mdic_read_cmd;
use crate::steps::spec_mdic_ready;
use crate::xfer::after_recv;
use crate::xfer::after_transmit;
use crate::xfer::lemma_drained;
use crate::xfer::lemma_transmit;
use crate::xfer::recv_frames;
use crate::xfer::rx_desc_after;
use crate::xfer::rx_first;
use crate::xfer::rx_frame;
use crate::xfer::rx_len;
use crate::xfer::rx_released;
use crate::xfer::spec_clamp_len;
use crate::xfer::spec_scrub_len;
use crate::xfer::zeros;

verus! {

/// A new device starts with both rings empty: the transmit head and tail are
/// zero, the receive head is zero and the receive tail is on the last slot;
/// every transmit slot is done, so free; every receive slot has a buffer and
/// a clear status.
pub proof fn law_new_device<K: KernelFunc>(
    hw: Hw,
    mapped_regs: usize,
    ring_size: int,
    dev: E1000Device<K>,
)
    requires
        hw.wf(),
        built(hw, mapped_regs, ring_size, Ok::<E1000Device<K>, E1000Error>(dev)),
    ensures
        dev@.layout.tdh(dev.hw()) == 0,
        dev@.layout.tdt(dev.hw()) == 0,
        dev@.layout.rdh(dev.hw()) == 0,
        dev@.layout.rdt(dev.hw()) == ring_size - 1,
        forall|i: int| 0 <= i < ring_size ==> #[trigger] dev@.layout.tx_done(dev.hw(), i),
        forall|i: int|
            0 <= i < ring_size ==> (#[trigger] dev@.layout.rx_desc(dev.hw(), i)).addr != 0
                && dev@.layout.rx_desc(dev.hw(), i).status == 0,
{
    let lay = dev@.layout;
    let now = dev.hw();
    let taken = regions_taken(hw.nic, lay);
    lemma_rings_made(taken, lay);
    lemma_init_regs(rings_made(taken, lay), lay);
    lemma_pages_hold(lay.pool_bytes());
    assert(E1000_TXD_STAT_DD & E1000_TXD_STAT_DD != 0) by (bit_vector)
        requires
            E1000_TXD_STAT_DD == 1,
    ;
    assert forall|i: int| 0 <= i < ring_size implies #[trigger] lay.tx_done(now, i) by {
        assert(lay.tx_desc(now, i) == crate::ring::tx_fresh(lay, i));
    }
    assert forall|i: int| 0 <= i < ring_size implies (#[trigger] lay.rx_desc(now, i)).addr != 0
        && lay.rx_desc(now, i).status == 0 by {
        assert(lay.rx_desc(now, i) == crate::ring::rx_fresh(lay, i));
        assert(now.dma.contains_key(lay.rx_pool));
    }
}

/// The controller is idle on the transmit side: it has sent all that it was
/// given, and every slot is done.
pub open spec fn tx_idle(hw: Hw, lay: RingLayout) -> bool {
    &&& lay.tdh(hw) == lay.tdt(hw)
    &&& forall|i: int| 0 <= i < lay.ring_size ==> #[trigger] lay.tx_done(hw, i)
}

/// The frames that the controller puts on the wire when `packets` are
/// transmitted one after the other, and the controller sends each before the
/// next is handed over.
pub open spec fn wire(hw: Hw, lay: RingLayout, packets: Seq<Seq<u8>>) -> Seq<Seq<u8>>
    decreases packets.len(),
{
    if packets.len() == 0 {
        Seq::empty()
    } else {
        let queued = after_transmit(hw, lay, packets[0]);
        seq![nic_frame(queued, lay)] + wire(after_nic_send(queued, lay), lay, packets.skip(1))
    }
}

/// What the controller sending one frame leaves behind: the descriptor at the
/// head is done, the head has moved on by one, and nothing else has changed.
pub proof fn lemma_nic_sent(hw: Hw, lay: RingLayout)
    requires
        hw.wf(),
        lay.wf(),
        lay.mapped_in(hw),
        lay.cursors_ok(hw),
        heads_ok(hw, lay),
        nic_has_frame(hw, lay),
    ensures
        ({
            let h = lay.tdh(hw);
            let next = after_nic_send(hw, lay);
            &&& next.wf()
            &&& lay.mapped_in(next)
            &&& lay.cursors_ok(next)
            &&& heads_ok(next, lay)
            &&& lay.tdh(next) == next_slot(h, lay.ring_size as int)
            &&& lay.tdt(next) == lay.tdt(hw)
            &&& lay.tx_done(next, h)
            &&& forall|i: int|
                0 <= i < lay.ring_size && i != h ==> #[trigger] lay.tx_desc(next, i)
                    == lay.tx_desc(hw, i)
            &&& next.dma[lay.tx_pool] == hw.dma[lay.tx_pool]
        }),
{
    let h = lay.tdh(hw);
    let n = lay.ring_size as int;
    let status = lay.tx_desc(hw, h).status;
    lemma_pages_hold(lay.ring_bytes());
    lemma_slot_after(h, 1, n);
    assert((status | 1u8) & 1u8 != 0) by (bit_vector);
    let next = after_nic_send(hw, lay);
    assert(next.dma[lay.tx_ring].bytes == splice(
        hw.dma[lay.tx_ring].bytes,
        h * DESC_SIZE + DESC_STATUS,
        seq![status | E1000_TXD_STAT_DD],
    ));
}

/// Frames reach the wire as they were handed over, and in that order.
///
/// Start with the controller idle. Transmit frames that fit a buffer one
/// after the other, and let the controller send each, which marks its slot as
/// done, before the next is handed over. Then what the controller sends is
/// what was transmitted, byte for byte and frame for frame.
pub proof fn law_transmit_fifo(hw: Hw, lay: RingLayout, packets: Seq<Seq<u8>>)
    requires
        hw.wf(),
        lay.wf(),
        lay.mapped_in(hw),
        lay.cursors_ok(hw),
        heads_ok(hw, lay),
        tx_idle(hw, lay),
        forall|i: int| 0 <= i < packets.len() ==> (#[trigger] packets[i]).len() <= MBUF_SIZE,
    ensures
        wire(hw, lay, packets) == packets,
    decreases packets.len(),
{
    if packets.len() == 0 {
        assert(wire(hw, lay, packets) =~= packets);
    } else {
        let n = lay.ring_size as int;
        let t = lay.tdt(hw);
        let p = packets[0];
        let queued = after_transmit(hw, lay, p);
        assert(lay.tx_done(hw, t));
        lemma_transmit(hw, lay, p);
        lemma_slot_after(t, 1, n);
        assert(lay.tdh(queued) == t);
        assert(nic_has_frame(queued, lay));
        assert(heads_ok(queued, lay));
        assert(lay.tx_desc(queued, t).length == p.len());
        assert(nic_frame(queued, lay) =~= p);
        lemma_nic_sent(queued, lay);
        let sent = after_nic_send(queued, lay);
        assert forall|i: int| 0 <= i < lay.ring_size implies #[trigger] lay.tx_done(sent, i) by {
            if i != t {
                assert(lay.tx_desc(sent, i) == lay.tx_desc(queued, i));
                assert(lay.tx_desc(queued, i) == lay.tx_desc(hw, i));
                assert(lay.tx_done(hw, i));
            }
        }
        let rest = packets.skip(1);
        assert forall|i: int| 0 <= i < rest.len() implies (#[trigger] rest[i]).len()
            <= MBUF_SIZE by {
            assert(rest[i] == packets[i + 1]);
        }
        law_transmit_fifo(sent, lay, rest);
        assert(seq![p] + rest =~= packets);
    }
}

/// The controller is idle on the receive side: software has taken all that
/// arrived and given every slot back, so that the head stands on the slot
/// after the tail, no slot is done, and every slot has its buffer.
pub open spec fn rx_idle(hw: Hw, lay: RingLayout) -> bool {
    &&& lay.rdh(hw) == next_slot(lay.rdt(hw), lay.ring_size as int)
    &&& forall|i: int| 0 <= i < lay.ring_size ==> !#[trigger] lay.rx_done(hw, i)
    &&& forall|i: int| 0 <= i < lay.ring_size ==> (#[trigger] lay.rx_desc(hw, i)).addr != 0
}

/// The hardware after `frames` have arrived at the controller, one after the
/// other.
pub open spec fn arrived(hw: Hw, lay: RingLayout, frames: Seq<Seq<u8>>) -> Hw
    decreases frames.len(),
{
    if frames.len() == 0 {
        hw
    } else {
        after_nic_receive(arrived(hw, lay, frames.drop_last()), lay, frames.last())
    }
}

/// What the arrival of a frame that fits a buffer leaves behind, the
/// controller having a slot for it: the slot at the head is done and holds
/// the frame, the head has moved on by one, and every other slot, the tail
/// and every address of a buffer are as before.
pub proof fn lemma_nic_received(hw: Hw, lay: RingLayout, frame: Seq<u8>)
    requires
        hw.wf(),
        lay.wf(),
        lay.mapped_in(hw),
        lay.cursors_ok(hw),
        heads_ok(hw, lay),
        nic_has_room(hw, lay),
        frame.len() <= MBUF_SIZE,
    ensures
        ({
            let h = lay.rdh(hw);
            let next = after_nic_receive(hw, lay, frame);
            &&& next.wf()
            &&& lay.mapped_in(next)
            &&& lay.cursors_ok(next)
            &&& heads_ok(next, lay)
            &&& lay.rdh(next) == next_slot(h, lay.ring_size as int)
            &&& lay.rdt(next) == lay.rdt(hw)
            &&& lay.rx_done(next, h)
            &&& rx_frame(next, lay, h) == frame
            &&& lay.rx_desc(next, h).addr == lay.rx_desc(hw, h).addr
            &&& forall|i: int|
                0 <= i < lay.ring_size && i != h ==> #[trigger] lay.rx_desc(next, i)
                    == lay.rx_desc(hw, i)
            &&& forall|i: int|
                0 <= i < lay.ring_size && i != h ==> #[trigger] lay.rx_buffer(next, i)
                    == lay.rx_buffer(hw, i)
        }),
{
    let h = lay.rdh(hw);
    let n = lay.ring_size as int;
    let len = frame.len() as int;
    lemma_pages_hold(lay.ring_bytes());
    lemma_pages_hold(lay.pool_bytes());
    lemma_slot_after(h, 1, n);
    lemma_le16_round_trip(len as u16);
    assert(0x03u8 & 0x01u8 != 0) by (bit_vector);
    let next = after_nic_receive(hw, lay, frame);
    let ring1 = next.dma[lay.rx_ring].bytes;
    let at = h * DESC_SIZE;
    assert(frame.take(len) =~= frame);
    assert(le16_at(ring1, at + DESC_LENGTH) == le16_at(le16_bytes(len as u16), 0));
    assert(lay.rx_buffer(next, h).take(len) =~= frame);
    assert forall|i: int| 0 <= i < lay.ring_size && i != h implies #[trigger] lay.rx_buffer(
        next,
        i,
    ) == lay.rx_buffer(hw, i) by {
        assert(lay.rx_buffer(next, i) =~= lay.rx_buffer(hw, i));
    }
}

/// What the arrival of frames at an idle controller leaves behind, there
/// being fewer frames than slots and each fitting a buffer: the frames stand
/// in the slots from the old head on, in their order, each slot done; the
/// head has moved on by their number; the tail and all other slots are as
/// before.
pub proof fn lemma_arrived(hw: Hw, lay: RingLayout, frames: Seq<Seq<u8>>)
    requires
        hw.wf(),
        lay.wf(),
        lay.mapped_in(hw),
        lay.cursors_ok(hw),
        heads_ok(hw, lay),
        rx_idle(hw, lay),
        frames.len() < lay.ring_size,
        forall|i: int| 0 <= i < frames.len() ==> (#[trigger] frames[i]).len() <= MBUF_SIZE,
    ensures
        ({
            let n = lay.ring_size as int;
            let r = lay.rdh(hw);
            let m = frames.len() as int;
            let next = arrived(hw, lay, frames);
            &&& next.wf()
            &&& lay.mapped_in(next)
            &&& lay.cursors_ok(next)
            &&& heads_ok(next, lay)
            &&& lay.rdt(next) == lay.rdt(hw)
            &&& lay.rdh(next) == slot_after(r, m, n)
            &&& forall|i: int| 0 <= i < n ==> (#[trigger] lay.rx_desc(next, i)).addr != 0
            &&& forall|j: int| 0 <= j < m ==> lay.rx_done(next, #[trigger] slot_after(r, j, n))
            &&& forall|j: int|
                0 <= j < m ==> rx_frame(next, lay, slot_after(r, j, n)) == #[trigger] frames[j]
            &&& forall|i: int|
                0 <= i < n && !in_run(i, r, m, n) ==> !#[trigger] lay.rx_done(next, i)
        }),
    decreases frames.len(),
{
    let n = lay.ring_size as int;
    let r = lay.rdh(hw);
    let t = lay.rdt(hw);
    lemma_slot_after(t, 1, n);
    if frames.len() > 0 {
        let before = frames.drop_last();
        let m1 = before.len() as int;
        let mid = arrived(hw, lay, before);
        assert forall|i: int| 0 <= i < before.len() implies (#[trigger] before[i]).len()
            <= MBUF_SIZE by {
            assert(before[i] == frames[i]);
        }
        lemma_arrived(hw, lay, before);
        let h = slot_after(r, m1, n);
        assert(h != t);
        lemma_nic_received(mid, lay, frames.last());
        lemma_slot_after(h, 1, n);
        let next = arrived(hw, lay, frames);
        let m = frames.len() as int;
        assert(lay.rdh(next) == slot_after(r, m, n));
        assert forall|i: int| 0 <= i < n implies (#[trigger] lay.rx_desc(next, i)).addr != 0 by {
            assert(lay.rx_desc(mid, i).addr != 0);
            if i != h {
                assert(lay.rx_desc(next, i) == lay.rx_desc(mid, i));
            }
        }
        assert forall|j: int| 0 <= j < m implies lay.rx_done(
            next,
            #[trigger] slot_after(r, j, n),
        ) by {
            let s = slot_after(r, j, n);
            if j < m1 {
                assert(lay.rx_done(mid, slot_after(r, j, n)));
                assert(s != h);
                assert(lay.rx_desc(next, s) == lay.rx_desc(mid, s));
            }
        }
        assert forall|j: int| 0 <= j < m implies rx_frame(next, lay, slot_after(r, j, n))
            == #[trigger] frames[j] by {
            let s = slot_after(r, j, n);
            if j < m1 {
                assert(before[j] == frames[j]);
                assert(rx_frame(mid, lay, slot_after(r, j, n)) == before[j]);
                assert(s != h);
                assert(lay.rx_desc(next, s) == lay.rx_desc(mid, s));
                assert(lay.rx_buffer(next, s) == lay.rx_buffer(mid, s));
            }
        }
        assert forall|i: int| 0 <= i < n && !in_run(i, r, m, n) implies !#[trigger] lay.rx_done(
            next,
            i,
        ) by {
            assert(!in_run(i, r, m1, n));
            assert(i != h);
            assert(!lay.rx_done(mid, i));
            assert(lay.rx_desc(next, i) == lay.rx_desc(mid, i));
        }
    }
}

/// Frames come out of the receive ring as they arrived, and in that order.
///
/// Start with the controller idle on the receive side. Let frames arrive,
/// fewer than the ring has slots and each fitting a buffer. Then a reception
/// finds the first descriptor in order and returns exactly these frames, byte
/// for byte and frame for frame.
pub proof fn law_receive_fifo(hw: Hw, lay: RingLayout, frames: Seq<Seq<u8>>)
    requires
        hw.wf(),
        lay.wf(),
        lay.mapped_in(hw),
        lay.cursors_ok(hw),
        heads_ok(hw, lay),
        rx_idle(hw, lay),
        frames.len() < lay.ring_size,
        forall|i: int| 0 <= i < frames.len() ==> (#[trigger] frames[i]).len() <= MBUF_SIZE,
    ensures
        lay.rx_desc(arrived(hw, lay, frames), rx_first(arrived(hw, lay, frames), lay)).addr != 0,
        recv_frames(arrived(hw, lay, frames), lay) == frames,
{
    let n = lay.ring_size as int;
    let r = lay.rdh(hw);
    let m = frames.len() as int;
    let full = arrived(hw, lay, frames);
    lemma_arrived(hw, lay, frames);
    lemma_slot_after(lay.rdt(hw), 1, n);
    let seen = full.after_reg_read(E1000_RDT as int);
    assert(rx_first(full, lay) == r);
    lemma_drained(seen, lay, r, n as nat);
    let got = recv_frames(full, lay);
    let k = got.len() as int;
    assert forall|i: int| 0 <= i < n implies lay.rx_desc(seen, i) == lay.rx_desc(full, i) by {}
    if k < m {
        assert(lay.rx_done(full, slot_after(r, k, n)));
        assert(!lay.rx_done(seen, slot_after(r, k, n)));
    }
    if k > m {
        let s = slot_after(r, m, n);
        lemma_slot_after(r, m, n);
        assert(lay.rx_done(seen, slot_after(r, m, n)));
        assert(!in_run(s, r, m, n));
        assert(!lay.rx_done(full, s));
    }
    assert(k == m);
    assert forall|j: int| 0 <= j < m implies got[j] == frames[j] by {
        let s = slot_after(r, j, n);
        lemma_slot_after(r, j, n);
        assert(got[j] == rx_frame(seen, lay, s));
        assert(lay.rx_desc(seen, s) == lay.rx_desc(full, s));
        assert(rx_frame(full, lay, s) == frames[j]);
    }
    assert(got =~= frames);
}

/// The transmit tail goes round the ring one slot at a time, and never past a
/// slot that the controller is not done with: a transmission moves it to the
/// next slot if the slot at the tail is done, and leaves it where it is
/// otherwise.
pub proof fn law_transmit_tail(hw: Hw, lay: RingLayout, packet: Seq<u8>)
    requires
        hw.wf(),
        lay.wf(),
        lay.mapped_in(hw),
        lay.cursors_ok(hw),
    ensures
        lay.tdt(after_transmit(hw, lay, packet)) == if lay.tx_done(hw, lay.tdt(hw)) {
            (lay.tdt(hw) + 1) % (lay.ring_size as int)
        } else {
            lay.tdt(hw)
        },
{
    if lay.tx_done(hw, lay.tdt(hw)) {
        lemma_transmit(hw, lay, packet);
    }
}

/// After a reception that returned `k` frames the receive tail is `k` slots
/// further round the ring, and each of the `k` slots after the old tail has
/// a clear status.
pub proof fn law_recv_tail(hw: Hw, lay: RingLayout)
    requires
        hw.wf(),
        lay.wf(),
        lay.mapped_in(hw),
        lay.cursors_ok(hw),
        lay.rx_desc(hw, rx_first(hw, lay)).addr != 0,
    ensures
        ({
            let n = lay.ring_size as int;
            let k = recv_frames(hw, lay).len() as int;
            let next = after_recv(hw, lay);
            &&& k <= n
            &&& lay.rdt(next) == (lay.rdt(hw) + k) % n
            &&& forall|j: int|
                1 <= j <= k ==> (#[trigger] lay.rx_desc(next, (lay.rdt(hw) + j) % n)).status == 0
        }),
{
    let n = lay.ring_size as int;
    let t = lay.rdt(hw);
    let r = rx_first(hw, lay);
    let k = recv_frames(hw, lay).len() as int;
    let next = after_recv(hw, lay);
    let seen = hw.after_reg_read(E1000_RDT as int);
    lemma_slot_after(t, 1, n);
    lemma_drained(seen, lay, r, n as nat);
    lemma_slot_after(t, k, n);
    lemma_slot_after(t, 0, n);
    if k > 0 {
        lemma_slot_after(r, k - 1, n);
    }
    assert forall|j: int| 1 <= j <= k implies (#[trigger] lay.rx_desc(
        next,
        (lay.rdt(hw) + j) % n,
    )).status == 0 by {
        lemma_slot_after(t, j, n);
        lemma_slot_after(r, j - 1, n);
        let s = slot_after(r, j - 1, n);
        assert(s == (t + j) % n);
        assert(lay.rx_desc(next, s) == rx_desc_after(seen, lay, r, k, s));
    }
}

/// Transmission and reception leave no write to DMA memory behind that is
/// not fenced and flushed, and write no tail ahead of the barrier: hardware
/// that was settled before either is settled after it.
pub proof fn law_writes_settled(hw: Hw, lay: RingLayout, packet: Seq<u8>)
    requires
        hw.wf(),
        lay.wf(),
        lay.mapped_in(hw),
        lay.cursors_ok(hw),
        hw.settled(),
    ensures
        after_transmit(hw, lay, packet).settled(),
        after_recv(hw, lay).settled(),
{
    if lay.tx_done(hw, lay.tdt(hw)) {
        lemma_transmit(hw, lay, packet);
    }
    lemma_slot_after(lay.rdt(hw), 1, lay.ring_size as int);
    lemma_drained(
        hw.after_reg_read(E1000_RDT as int),
        lay,
        rx_first(hw, lay),
        lay.ring_size as nat,
    );
}

/// What software does to queue a frame, access by access, and in this order:
/// the tail is read; the frame goes into the buffer of the slot `t`; length,
/// status and command go into its descriptor; a write barrier and a flush
/// follow; the tail is written; a flush and a write barrier follow.
pub open spec fn transmit_accesses(lay: RingLayout, t: int, frame: Seq<u8>) -> Seq<Access> {
    let at = t * DESC_SIZE;
    seq![
        Access::RegRead { reg: E1000_TDT as int },
        Access::DmaWrite { region: lay.tx_pool, offset: t * MBUF_SIZE, data: frame },
        Access::DmaWrite {
            region: lay.tx_ring,
            offset: at + DESC_LENGTH,
            data: le16_bytes(frame.len() as u16),
        },
        Access::DmaWrite { region: lay.tx_ring, offset: at + DESC_STATUS, data: seq![0u8] },
        Access::DmaWrite {
            region: lay.tx_ring,
            offset: at + TXD_CMD,
            data: seq![E1000_TXD_CMD_SEND],
        },
        Access::FenceW,
        Access::RegRead { reg: E1000_STAT as int },
        Access::RegWrite {
            reg: E1000_TDT as int,
            value: next_slot(t, lay.ring_size as int) as u32,
        },
        Access::RegRead { reg: E1000_STAT as int },
        Access::FenceW,
    ]
}

/// What software does to give receive slot `r` back, access by access, and
/// in this order: a full barrier; the head of the buffer is cleared, `scrub`
/// bytes of it; the status is cleared; a write barrier and a flush follow;
/// the tail is written; a flush and a write barrier follow.
pub open spec fn release_accesses(lay: RingLayout, r: int, scrub: int) -> Seq<Access> {
    seq![
        Access::Fence,
        Access::DmaWrite { region: lay.rx_pool, offset: r * MBUF_SIZE, data: zeros(scrub) },
        Access::DmaWrite {
            region: lay.rx_ring,
            offset: r * DESC_SIZE + DESC_STATUS,
            data: seq![0u8],
        },
        Access::FenceW,
        Access::RegRead { reg: E1000_STAT as int },
        Access::RegWrite { reg: E1000_RDT as int, value: r as u32 },
        Access::RegRead { reg: E1000_STAT as int },
        Access::FenceW,
    ]
}

/// Every write to a descriptor or a buffer is followed, before the operation
/// returns, by a write barrier and by a read of STAT; and a write barrier
/// and a read of STAT stand between these writes and the write of the tail.
///
/// A transmission makes the accesses of `transmit_accesses` and no other, or
/// reads the tail and no more while the slot is in use; giving a receive
/// slot back makes the accesses of `release_accesses` and no other.
pub proof fn law_accesses_in_order(hw: Hw, lay: RingLayout, packet: Seq<u8>, r: int)
    ensures
        after_transmit(hw, lay, packet).nic.log == if lay.tx_done(hw, lay.tdt(hw)) {
            hw.nic.log + transmit_accesses(
                lay,
                lay.tdt(hw),
                packet.take(spec_clamp_len(packet.len() as int)),
            )
        } else {
            hw.nic.log.push(Access::RegRead { reg: E1000_TDT as int })
        },
        rx_released(hw, lay, r).nic.log == hw.nic.log + release_accesses(
            lay,
            r,
            spec_scrub_len(rx_len(lay.rx_desc(hw, r))),
        ),
{
    let frame = packet.take(spec_clamp_len(packet.len() as int));
    if lay.tx_done(hw, lay.tdt(hw)) {
        assert(after_transmit(hw, lay, packet).nic.log =~= hw.nic.log + transmit_accesses(
            lay,
            lay.tdt(hw),
            frame,
        ));
    }
    assert(rx_released(hw, lay, r).nic.log =~= hw.nic.log + release_accesses(
        lay,
        r,
        spec_scrub_len(rx_len(lay.rx_desc(hw, r))),
    ));
}

/// `count` reads of MDIC.
pub open spec fn mdic_reads(count: int) -> Seq<Access> {
    Seq::new(count as nat, |i: int| Access::RegRead { reg: E1000_MDIC as int })
}

/// What software does to run the command `cmd` on a PHY with a lag of `lag`
/// reads, access by access: it writes the command and reads MDIC until READY
/// shows, which is after `lag` reads without it; after `PHY_POLL_LIMIT` reads
/// it writes the command once more and reads on, as often again at most.
pub open spec fn mdic_accesses(cmd: u32, lag: int) -> Seq<Access> {
    let command = seq![Access::RegWrite { reg: E1000_MDIC as int, value: cmd }];
    if lag < PHY_POLL_LIMIT {
        command + mdic_reads(lag + 1)
    } else if lag < 2 * PHY_POLL_LIMIT {
        command + mdic_reads(PHY_POLL_LIMIT as int) + command + mdic_reads(
            lag - PHY_POLL_LIMIT + 1,
        )
    } else {
        command + mdic_reads(PHY_POLL_LIMIT as int) + command + mdic_reads(PHY_POLL_LIMIT as int)
    }
}

/// The PHY is waited for as long as it takes, up to two rounds of
/// `PHY_POLL_LIMIT` reads, and no longer.
///
/// Whatever the lag of the PHY: a command is written, and MDIC is read once
/// more than the lag says, with the command written again after the first
/// round. A read of a register of the PHY then shows the data of the
/// register in MDIC, with READY. Only if the lag is two rounds or more does
/// the command stay unfinished, after exactly two rounds of reads.
pub proof fn law_phy_wait(nic: Nic, reg_addr: u32)
    requires
        nic.wf(),
    ensures
        phy_read(nic, reg_addr).log == nic.log + mdic_accesses(
            spec_mdic_read_cmd(reg_addr),
            nic.phy_wait.lag as int,
        ),
        nic.phy_wait.lag < 2 * PHY_POLL_LIMIT ==> {
            &&& spec_mdic_ready(phy_read(nic, reg_addr).regs[E1000_MDIC as int])
            &&& spec_mdic_data(phy_read(nic, reg_addr).regs[E1000_MDIC as int])
                == nic.phy[phy_index(reg_addr)]
            &&& !phy_read(nic, reg_addr).phy_wait.busy
        },
        nic.phy_wait.lag >= 2 * PHY_POLL_LIMIT ==> {
            &&& !spec_mdic_ready(phy_read(nic, reg_addr).regs[E1000_MDIC as int])
            &&& phy_read(nic, reg_addr).phy_wait.busy
            &&& phy_read(nic, reg_addr).phy_wait.lag == nic.phy_wait.lag - 2 * PHY_POLL_LIMIT
        },
{
    let cmd = spec_mdic_read_cmd(reg_addr);
    lemma_phy_commands(nic, reg_addr, 0);
    lemma_mdic_ran(nic, cmd);
    assert((cmd & !0x1000_0000u32) & 0x1000_0000u32 == 0) by (bit_vector);
    assert(phy_read(nic, reg_addr).log =~= nic.log + mdic_accesses(cmd, nic.phy_wait.lag as int));
}

/// The hardware after `packets` were transmitted one after the other, the
/// controller sending each, which marks its slot as done, before the next is
/// handed over.
pub open spec fn sent_all(hw: Hw, lay: RingLayout, packets: Seq<Seq<u8>>) -> Hw
    decreases packets.len(),
{
    if packets.len() == 0 {
        hw
    } else {
        after_nic_send(
            after_transmit(sent_all(hw, lay, packets.drop_last()), lay, packets.last()),
            lay,
        )
    }
}

/// Frames go into the slots of the ring one after the other, in the order
/// of the calls, none skipped, doubled or altered.
///
/// Start with the controller idle and the tail on slot `t`. Transmit `k`
/// frames that fit a buffer one after the other, the controller marking the
/// slot just used as done before the next call. Then call `j` finds its slot
/// free, so that it succeeds; it puts its frame into the buffer of slot
/// `(t + j) % RING_SIZE` and the length of the frame into the descriptor of
/// that slot, and leaves the tail on the slot after it. After the last call
/// the tail is on slot `(t + k) % RING_SIZE`.
pub proof fn law_transmit_slots(hw: Hw, lay: RingLayout, packets: Seq<Seq<u8>>)
    requires
        hw.wf(),
        lay.wf(),
        lay.mapped_in(hw),
        lay.cursors_ok(hw),
        heads_ok(hw, lay),
        tx_idle(hw, lay),
        forall|i: int| 0 <= i < packets.len() ==> (#[trigger] packets[i]).len() <= MBUF_SIZE,
    ensures
        ({
            let n = lay.ring_size as int;
            let t = lay.tdt(hw);
            let done = sent_all(hw, lay, packets);
            &&& done.wf()
            &&& lay.mapped_in(done)
            &&& lay.cursors_ok(done)
            &&& heads_ok(done, lay)
            &&& tx_idle(done, lay)
            &&& lay.tdt(done) == (t + packets.len()) % n
            &&& forall|j: int|
                0 <= j < packets.len() ==> {
                    let before = #[trigger] sent_all(hw, lay, packets.take(j));
                    let queued = after_transmit(before, lay, packets[j]);
                    let slot = (t + j) % n;
                    &&& lay.tdt(before) == slot
                    &&& lay.tx_done(before, slot)
                    &&& lay.tx_buffer(queued, slot).take(packets[j].len() as int) == packets[j]
                    &&& lay.tx_desc(queued, slot).length == packets[j].len()
                    &&& lay.tdt(queued) == (t + j + 1) % n
                }
        }),
    decreases packets.len(),
{
    let n = lay.ring_size as int;
    let t = lay.tdt(hw);
    if packets.len() == 0 {
        vstd::arithmetic::div_mod::lemma_small_mod(t as nat, n as nat);
    } else {
        let k = packets.len() - 1;
        let first = packets.drop_last();
        let p = packets.last();
        assert forall|i: int| 0 <= i < first.len() implies (#[trigger] first[i]).len()
            <= MBUF_SIZE by {
            assert(first[i] == packets[i]);
        }
        law_transmit_slots(hw, lay, first);
        let before = sent_all(hw, lay, first);
        let slot = lay.tdt(before);
        assert(slot == (t + k) % n);
        assert(lay.tx_done(before, slot));
        lemma_transmit(before, lay, p);
        let queued = after_transmit(before, lay, p);
        lemma_slot_after(slot, 1, n);
        vstd::arithmetic::div_mod::lemma_add_mod_noop(t + k, 1, n);
        vstd::arithmetic::div_mod::lemma_small_mod(1, n as nat);
        vstd::arithmetic::div_mod::lemma_mod_twice(t + k, n);
        assert(lay.tdt(queued) == (t + k + 1) % n);
        assert(lay.tdh(queued) == slot);
        assert(heads_ok(queued, lay));
        assert(nic_has_frame(queued, lay));
        lemma_nic_sent(queued, lay);
        let done = after_nic_send(queued, lay);
        assert(done == sent_all(hw, lay, packets));
        assert forall|i: int| 0 <= i < lay.ring_size implies #[trigger] lay.tx_done(done, i) by {
            if i != slot {
                assert(lay.tx_desc(done, i) == lay.tx_desc(queued, i));
                assert(lay.tx_desc(queued, i) == lay.tx_desc(before, i));
                assert(lay.tx_done(before, i));
            }
        }
        assert(lay.tx_buffer(queued, slot).take(p.len() as int) =~= p);
        assert forall|j: int| 0 <= j < packets.len() implies {
            let b = #[trigger] sent_all(hw, lay, packets.take(j));
            let q = after_transmit(b, lay, packets[j]);
            let s = (t + j) % n;
            &&& lay.tdt(b) == s
            &&& lay.tx_done(b, s)
            &&& lay.tx_buffer(q, s).take(packets[j].len() as int) == packets[j]
            &&& lay.tx_desc(q, s).length == packets[j].len()
            &&& lay.tdt(q) == (t + j + 1) % n
        } by {
            if j < k {
                assert(packets.take(j) =~= first.take(j));
                assert(packets[j] == first[j]);
            } else {
                assert(packets.take(j) =~= first);
            }
        }
    }
}

/// Disabling the interrupts twice leaves the hardware as disabling them once
/// does, but for what the log notes of the second time; and enabling them
/// after they were disabled leaves exactly `IMS_ENABLE_MASK` in the interrupt
/// mask.
pub proof fn law_irq_mask(hw: Hw)
    requires
        hw.wf(),
    ensures
        irq_disabled(irq_disabled(hw)) == (Hw {
            nic: Nic { log: irq_disabled(irq_disabled(hw)).nic.log, ..irq_disabled(hw).nic },
            ..irq_disabled(hw)
        }),
        irq_disabled(hw).nic.regs[E1000_IMS as int] == 0,
        irq_enabled(irq_disabled(hw)).nic.regs[E1000_IMS as int] == IMS_ENABLE_MASK,
{
    let m = hw.nic.regs[E1000_IMS as int];
    assert(m & !0xffff_ffffu32 == 0) by (bit_vector);
    assert(0u32 & !0xffff_ffffu32 == 0) by (bit_vector);
    assert(0u32 | 0x84u32 == 0x84u32) by (bit_vector);
    assert(irq_disabled(irq_disabled(hw)).nic.regs =~= irq_disabled(hw).nic.regs);
}

/// Reading ICR clears what is pending: after the read neither the receiver
/// timer nor the link status change is pending any more, and the read has
/// returned what was.
pub proof fn law_intr_clears(hw: Hw)
    requires
        hw.wf(),
    ensures
        hw.after_reg_read(E1000_ICR as int).nic.regs[E1000_ICR as int] & (E1000_ICR_RXT0
            | E1000_ICR_LSC) == 0,
        hw.after_reg_read(E1000_ICR as int).nic.regs[E1000_ICR as int] == 0,
        hw.nic.read_value(E1000_ICR as int) == hw.nic.regs[E1000_ICR as int],
{
    assert(0u32 & (0x80u32 | 0x04u32) == 0) by (bit_vector);
}

} // verus!
