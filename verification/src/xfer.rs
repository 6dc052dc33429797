//! What sending and receiving do to the rings, as functions of the hardware
//! state.

use vstd::prelude::*;
use crate::desc::DESC_LENGTH;
use crate::desc::DESC_SIZE;
use crate::desc::DESC_STATUS;
use crate::desc::RxDesc;
use crate::desc::TXD_CMD;
use crate::desc::TxDesc;
use crate::desc::le16_at;
use crate::desc::le16_bytes;
use crate::desc::lemma_le16_round_trip;
use crate::e1000_const::E1000_RDT;
use crate::e1000_const::E1000_STAT;
use crate::e1000_const::E1000_TDT;
use crate::e1000_const::E1000_TXD_CMD_SEND;
use crate::hw::Hw;
use crate::hw::splice;
use crate::ring::MBUF_SIZE;
use crate::ring::RingLayout;
use crate::ring::in_run;
use crate::ring::lemma_pages_hold;
use crate::ring::lemma_slot_after;
use crate::ring::next_slot;
use crate::ring::slot_after;

verus! {

/// Number of bytes at the head of a receive buffer that are cleared once the
/// frame has been copied out.
pub const RX_SCRUB_LEN: usize = 64;

/// Number of bytes of a frame of `len` bytes that fit a buffer.
pub open spec fn spec_clamp_len(len: int) -> int {
    if len > MBUF_SIZE {
        MBUF_SIZE as int
    } else {
        len
    }
}

/// Number of bytes of a frame of `len` bytes that fit a buffer.
pub fn clamp_len(len: usize) -> (r: usize)
    ensures
        r == spec_clamp_len(len as int),
{
    if len > MBUF_SIZE {
        MBUF_SIZE
    } else {
        len
    }
}

/// Number of bytes to clear at the head of a buffer that held a frame of
/// `len` bytes.
pub open spec fn spec_scrub_len(len: int) -> int {
    if len > RX_SCRUB_LEN {
        RX_SCRUB_LEN as int
    } else {
        len
    }
}

/// Number of bytes to clear at the head of a buffer that held a frame of
/// `len` bytes.
pub fn scrub_len(len: usize) -> (r: usize)
    ensures
        r == spec_scrub_len(len as int),
{
    if len > RX_SCRUB_LEN {
        RX_SCRUB_LEN
    } else {
        len
    }
}

/// `n` zero bytes.
pub open spec fn zeros(n: int) -> Seq<u8> {
    Seq::new(n as nat, |i: int| 0u8)
}

/// `n` zero bytes.
pub fn zero_bytes(n: usize) -> (b: Vec<u8>)
    ensures
        b@ == zeros(n as int),
{
    let mut b: Vec<u8> = Vec::new();
    while b.len() < n
        invariant
            b@.len() <= n,
            forall|i: int| 0 <= i < b@.len() ==> b@[i] == 0,
        decreases n - b@.len(),
    {
        b.push(0);
    }
    assert(b@ =~= zeros(n as int));
    b
}

/// The hardware after tail register `reg` was moved to `v`: a write barrier
/// and a flush before the tail is written, a flush and a write barrier after.
pub open spec fn tail_moved(hw: Hw, reg: int, v: u32) -> Hw {
    hw.after_fence_w().after_reg_read(E1000_STAT as int).after_reg_write(reg, v).after_reg_read(
        E1000_STAT as int,
    ).after_fence_w()
}

/// The hardware after `frame` was put into transmit slot `t`: the bytes in
/// the buffer, then length, status and command in the descriptor.
pub open spec fn tx_filled(hw: Hw, lay: RingLayout, t: int, frame: Seq<u8>) -> Hw {
    let at = t * DESC_SIZE;
    hw.after_dma_write(lay.tx_pool, t * MBUF_SIZE, frame).after_dma_write(
        lay.tx_ring,
        at + DESC_LENGTH,
        le16_bytes(frame.len() as u16),
    ).after_dma_write(lay.tx_ring, at + DESC_STATUS, seq![0u8]).after_dma_write(
        lay.tx_ring,
        at + TXD_CMD,
        seq![E1000_TXD_CMD_SEND],
    )
}

/// The hardware after a frame was handed to `e1000_transmit`. The tail is
/// read. Where the slot at the tail still belongs to the controller that is
/// all; otherwise the head of the frame that fits a buffer goes into that
/// slot, and the tail moves on by one.
pub open spec fn after_transmit(hw: Hw, lay: RingLayout, packet: Seq<u8>) -> Hw {
    let t = lay.tdt(hw);
    let seen = hw.after_reg_read(E1000_TDT as int);
    if lay.tx_done(hw, t) {
        tail_moved(
            tx_filled(seen, lay, t, packet.take(spec_clamp_len(packet.len() as int))),
            E1000_TDT as int,
            next_slot(t, lay.ring_size as int) as u32,
        )
    } else {
        seen
    }
}

/// Length of the frame in a receive descriptor, which a buffer bounds.
pub open spec fn rx_len(d: RxDesc) -> int {
    spec_clamp_len(d.length as int)
}

/// The frame in receive slot `r`.
pub open spec fn rx_frame(hw: Hw, lay: RingLayout, r: int) -> Seq<u8> {
    lay.rx_buffer(hw, r).take(rx_len(lay.rx_desc(hw, r)))
}

/// The hardware after receive slot `r` was given back to the controller: a
/// full barrier, the head of the buffer cleared, the status cleared, and the
/// tail moved to `r`.
pub open spec fn rx_released(hw: Hw, lay: RingLayout, r: int) -> Hw {
    let scrub = spec_scrub_len(rx_len(lay.rx_desc(hw, r)));
    tail_moved(
        hw.after_fence().after_dma_write(lay.rx_pool, r * MBUF_SIZE, zeros(scrub)).after_dma_write(
            lay.rx_ring,
            r * DESC_SIZE + DESC_STATUS,
            seq![0u8],
        ),
        E1000_RDT as int,
        r as u32,
    )
}

/// The hardware after the slots from `r` on were drained: one after the other
/// while the controller is done with them, `left` at most.
pub open spec fn rx_drained(hw: Hw, lay: RingLayout, r: int, left: nat) -> Hw
    decreases left,
{
    if left == 0 || !lay.rx_done(hw, r) {
        hw
    } else {
        rx_drained(
            rx_released(hw, lay, r),
            lay,
            next_slot(r, lay.ring_size as int),
            (left - 1) as nat,
        )
    }
}

/// The frames in the slots from `r` on, in their order: one from each slot
/// while the controller is done with them, `left` at most.
pub open spec fn rx_frames(hw: Hw, lay: RingLayout, r: int, left: nat) -> Seq<Seq<u8>>
    decreases left,
{
    if left == 0 || !lay.rx_done(hw, r) {
        Seq::empty()
    } else {
        seq![rx_frame(hw, lay, r)] + rx_frames(
            rx_released(hw, lay, r),
            lay,
            next_slot(r, lay.ring_size as int),
            (left - 1) as nat,
        )
    }
}

/// The first slot that `e1000_recv` looks at: the one after the tail.
pub open spec fn rx_first(hw: Hw, lay: RingLayout) -> int {
    next_slot(lay.rdt(hw), lay.ring_size as int)
}

/// The slot after the one that the tail register value `tail` names, in a
/// ring of `ring_size` slots.
pub fn slot_after_tail(tail: u32, ring_size: usize) -> (slot: usize)
    requires
        0 < ring_size <= u32::MAX,
    ensures
        slot == next_slot(tail as int, ring_size as int),
        slot < ring_size,
{
    ((tail as u64 + 1) % (ring_size as u64)) as usize
}

/// The hardware after `e1000_recv`. The tail is read. Where the descriptor
/// after it has no buffer that is all; otherwise the ring is drained from
/// that slot on.
pub open spec fn after_recv(hw: Hw, lay: RingLayout) -> Hw {
    let r = rx_first(hw, lay);
    let seen = hw.after_reg_read(E1000_RDT as int);
    if lay.rx_desc(hw, r).addr == 0 {
        seen
    } else {
        rx_drained(seen, lay, r, lay.ring_size as nat)
    }
}

/// The frames that `e1000_recv` returns, in the order of their arrival.
pub open spec fn recv_frames(hw: Hw, lay: RingLayout) -> Seq<Seq<u8>> {
    rx_frames(
        hw.after_reg_read(E1000_RDT as int),
        lay,
        rx_first(hw, lay),
        lay.ring_size as nat,
    )
}

/// What each frame of `frames` holds.
pub open spec fn contents(frames: Seq<Vec<u8>>) -> Seq<Seq<u8>> {
    Seq::new(frames.len(), |i: int| frames[i]@)
}

/// `next` is what a transmission of `packet` makes of `hw`, the slot at the
/// tail being free.
///
/// That slot holds the head of the frame that fits a buffer, with its
/// length, a cleared status and the command to send; the rest of its buffer,
/// every other slot and the receive side are as before. The tail has moved on
/// by one, and no other register has changed. The writes are fenced and
/// flushed, and the tail was not written ahead of the barrier.
pub open spec fn queued_as(hw: Hw, lay: RingLayout, packet: Seq<u8>, next: Hw) -> bool {
    let t = lay.tdt(hw);
    let len = spec_clamp_len(packet.len() as int);
    &&& next.wf()
    &&& lay.mapped_in(next)
    &&& lay.tx_cursor_ok(next)
    &&& next.nic.regs == hw.nic.regs.update(
        E1000_TDT as int,
        next_slot(t, lay.ring_size as int) as u32,
    )
    &&& next.nic.phy == hw.nic.phy
    &&& next.nic.phy_wait == hw.nic.phy_wait
    &&& lay.tdt(next) == next_slot(t, lay.ring_size as int)
    &&& lay.tx_desc(next, t) == (TxDesc {
        length: len as u16,
        status: 0,
        cmd: E1000_TXD_CMD_SEND,
        ..lay.tx_desc(hw, t)
    })
    &&& lay.tx_buffer(next, t) == packet.take(len) + lay.tx_buffer(hw, t).skip(len)
    &&& forall|i: int|
        0 <= i < lay.ring_size && i != t ==> #[trigger] lay.tx_desc(next, i) == lay.tx_desc(hw, i)
    &&& forall|i: int|
        0 <= i < lay.ring_size && i != t ==> #[trigger] lay.tx_buffer(next, i) == lay.tx_buffer(
            hw,
            i,
        )
    &&& next.dma[lay.rx_ring] == hw.dma[lay.rx_ring]
    &&& next.dma[lay.rx_pool] == hw.dma[lay.rx_pool]
    &&& next.dma.dom() == hw.dma.dom()
    &&& next.free_pages == hw.free_pages
    &&& next.mmio_base == hw.mmio_base
    &&& !next.nic.unfenced
    &&& !next.nic.unflushed
    &&& next.nic.tail_hazard == hw.nic.tail_hazard
}

/// A transmission into a free slot does what `queued_as` says.
pub proof fn lemma_transmit(hw: Hw, lay: RingLayout, packet: Seq<u8>)
    requires
        hw.wf(),
        lay.wf(),
        lay.mapped_in(hw),
        lay.tx_cursor_ok(hw),
        lay.tx_done(hw, lay.tdt(hw)),
    ensures
        queued_as(hw, lay, packet, after_transmit(hw, lay, packet)),
{
    let t = lay.tdt(hw);
    let n = lay.ring_size as int;
    let len = spec_clamp_len(packet.len() as int);
    let frame = packet.take(len);
    let filled = tx_filled(hw.after_reg_read(E1000_TDT as int), lay, t, frame);
    let next = after_transmit(hw, lay, packet);
    lemma_pages_hold(lay.ring_bytes());
    lemma_pages_hold(lay.pool_bytes());
    lemma_le16_round_trip(len as u16);
    assert(next.dma == filled.dma);
    assert(next.dma.dom() =~= hw.dma.dom());
    let ring0 = hw.dma[lay.tx_ring].bytes;
    let ring1 = next.dma[lay.tx_ring].bytes;
    let pool0 = hw.dma[lay.tx_pool].bytes;
    let pool1 = next.dma[lay.tx_pool].bytes;
    assert(pool1 == splice(pool0, t * MBUF_SIZE, frame));
    let at = t * DESC_SIZE;
    assert(ring1 == splice(
        splice(
            splice(ring0, at + DESC_LENGTH, le16_bytes(len as u16)),
            at + DESC_STATUS,
            seq![0u8],
        ),
        at + TXD_CMD,
        seq![E1000_TXD_CMD_SEND],
    ));
    assert(le16_at(ring1, at + DESC_LENGTH) == le16_at(le16_bytes(len as u16), 0));
    assert(lay.tx_buffer(next, t) =~= frame + lay.tx_buffer(hw, t).skip(len));
    assert forall|i: int| 0 <= i < lay.ring_size && i != t implies #[trigger] lay.tx_buffer(
        next,
        i,
    ) == lay.tx_buffer(hw, i) by {
        assert(lay.tx_buffer(next, i) =~= lay.tx_buffer(hw, i));
    }
    assert(0 <= next_slot(t, n) < n);
}

/// `one` is what giving receive slot `r` back makes of `hw`.
///
/// The status of the slot is cleared and the head of its buffer is zero, as
/// far as the frame went and 64 bytes at most; the rest of the slot, every
/// other slot and the transmit side are as before. The tail stands on the
/// slot, and no other register has changed. The writes are fenced and
/// flushed, and the tail was not written ahead of the barrier.
pub open spec fn released_as(hw: Hw, lay: RingLayout, r: int, one: Hw) -> bool {
    let scrub = spec_scrub_len(rx_len(lay.rx_desc(hw, r)));
    &&& one.wf()
    &&& lay.mapped_in(one)
    &&& one.nic.regs == hw.nic.regs.update(E1000_RDT as int, r as u32)
    &&& one.nic.phy == hw.nic.phy
    &&& one.nic.phy_wait == hw.nic.phy_wait
    &&& lay.rx_desc(one, r) == (RxDesc { status: 0, ..lay.rx_desc(hw, r) })
    &&& lay.rx_buffer(one, r) == zeros(scrub) + lay.rx_buffer(hw, r).skip(scrub)
    &&& forall|i: int|
        0 <= i < lay.ring_size && i != r ==> #[trigger] lay.rx_desc(one, i) == lay.rx_desc(hw, i)
    &&& forall|i: int|
        0 <= i < lay.ring_size && i != r ==> #[trigger] lay.rx_buffer(one, i) == lay.rx_buffer(
            hw,
            i,
        )
    &&& one.dma[lay.tx_ring] == hw.dma[lay.tx_ring]
    &&& one.dma[lay.tx_pool] == hw.dma[lay.tx_pool]
    &&& one.dma.dom() == hw.dma.dom()
    &&& one.free_pages == hw.free_pages
    &&& one.mmio_base == hw.mmio_base
    &&& !one.nic.unfenced
    &&& !one.nic.unflushed
    &&& one.nic.tail_hazard == hw.nic.tail_hazard
}

/// Giving a receive slot back does what `released_as` says.
pub proof fn lemma_released(hw: Hw, lay: RingLayout, r: int)
    requires
        hw.wf(),
        lay.wf(),
        lay.mapped_in(hw),
        0 <= r < lay.ring_size,
    ensures
        released_as(hw, lay, r, rx_released(hw, lay, r)),
{
    let scrub = spec_scrub_len(rx_len(lay.rx_desc(hw, r)));
    let next = rx_released(hw, lay, r);
    lemma_pages_hold(lay.ring_bytes());
    lemma_pages_hold(lay.pool_bytes());
    assert(next.dma.dom() =~= hw.dma.dom());
    let pool0 = hw.dma[lay.rx_pool].bytes;
    let pool1 = next.dma[lay.rx_pool].bytes;
    assert(pool1 == splice(pool0, r * MBUF_SIZE, zeros(scrub)));
    assert(lay.rx_buffer(next, r) =~= zeros(scrub) + lay.rx_buffer(hw, r).skip(scrub));
    assert forall|i: int| 0 <= i < lay.ring_size && i != r implies #[trigger] lay.rx_buffer(
        next,
        i,
    ) == lay.rx_buffer(hw, i) by {
        assert(lay.rx_buffer(next, i) =~= lay.rx_buffer(hw, i));
    }
}

/// The receive descriptor of slot `s` after the `k` slots from `r` on were
/// given back: its status is cleared if it is one of them.
pub open spec fn rx_desc_after(hw: Hw, lay: RingLayout, r: int, k: int, s: int) -> RxDesc {
    if in_run(s, r, k, lay.ring_size as int) {
        RxDesc { status: 0, ..lay.rx_desc(hw, s) }
    } else {
        lay.rx_desc(hw, s)
    }
}

/// The buffer of receive slot `s` after the `k` slots from `r` on were given
/// back: its head is zero if it is one of them.
pub open spec fn rx_buffer_after(hw: Hw, lay: RingLayout, r: int, k: int, s: int) -> Seq<u8> {
    if in_run(s, r, k, lay.ring_size as int) {
        let scrub = spec_scrub_len(rx_len(lay.rx_desc(hw, s)));
        zeros(scrub) + lay.rx_buffer(hw, s).skip(scrub)
    } else {
        lay.rx_buffer(hw, s)
    }
}

/// `next` and `frames` are what draining the receive ring from slot `r` on,
/// `left` slots at most, makes of `hw` and returns.
///
/// With `k` the number of frames: the frames are those of the `k` slots from
/// `r` on, in that order, each as it stood in `hw`; the controller was done
/// with each of these slots, and was not with the one after them unless
/// `left` slots were taken. Each of these slots has its status cleared and
/// the head of its buffer zero; all else in the rings is as before. If any
/// frame was taken the tail stands on the slot of the last one, no other
/// register has changed, and the writes are fenced and flushed.
pub open spec fn drained_as(
    hw: Hw,
    lay: RingLayout,
    r: int,
    left: nat,
    next: Hw,
    frames: Seq<Seq<u8>>,
) -> bool {
    let n = lay.ring_size as int;
    let k = frames.len() as int;
    &&& k <= left
    &&& next.wf()
    &&& lay.mapped_in(next)
    &&& lay.tx_cursor_ok(next) == lay.tx_cursor_ok(hw)
    &&& k > 0 || lay.rx_cursor_ok(hw) ==> lay.rx_cursor_ok(next)
    &&& k == 0 ==> next == hw
    &&& next.nic.regs == if k > 0 {
        hw.nic.regs.update(E1000_RDT as int, slot_after(r, k - 1, n) as u32)
    } else {
        hw.nic.regs
    }
    &&& next.nic.phy == hw.nic.phy
    &&& next.nic.phy_wait == hw.nic.phy_wait
    &&& k > 0 ==> lay.rdt(next) == slot_after(r, k - 1, n)
    &&& k > 0 ==> !next.nic.unfenced && !next.nic.unflushed
    &&& k < left ==> !lay.rx_done(hw, slot_after(r, k, n))
    &&& forall|j: int| 0 <= j < k ==> lay.rx_done(hw, #[trigger] slot_after(r, j, n))
    &&& forall|j: int|
        0 <= j < k ==> #[trigger] frames[j] == rx_frame(hw, lay, slot_after(r, j, n))
    &&& forall|s: int|
        0 <= s < n ==> #[trigger] lay.rx_desc(next, s) == rx_desc_after(hw, lay, r, k, s)
    &&& forall|s: int|
        0 <= s < n ==> #[trigger] lay.rx_buffer(next, s) == rx_buffer_after(hw, lay, r, k, s)
    &&& next.dma[lay.tx_ring] == hw.dma[lay.tx_ring]
    &&& next.dma[lay.tx_pool] == hw.dma[lay.tx_pool]
    &&& next.dma.dom() == hw.dma.dom()
    &&& next.free_pages == hw.free_pages
    &&& next.mmio_base == hw.mmio_base
    &&& next.nic.tail_hazard == hw.nic.tail_hazard
}

/// One slot given back and the rest drained is all drained.
proof fn lemma_drained_step(
    hw: Hw,
    one: Hw,
    next: Hw,
    lay: RingLayout,
    r: int,
    left: nat,
    tail: Seq<Seq<u8>>,
)
    requires
        hw.wf(),
        lay.wf(),
        lay.mapped_in(hw),
        0 <= r < lay.ring_size,
        1 <= left <= lay.ring_size,
        lay.rx_done(hw, r),
        released_as(hw, lay, r, one),
        drained_as(one, lay, next_slot(r, lay.ring_size as int), (left - 1) as nat, next, tail),
    ensures
        drained_as(hw, lay, r, left, next, seq![rx_frame(hw, lay, r)] + tail),
{
    let n = lay.ring_size as int;
    let r1 = next_slot(r, n);
    lemma_slot_after(r, 1, n);
    let frames = seq![rx_frame(hw, lay, r)] + tail;
    let k = frames.len() as int;
    let k1 = tail.len() as int;
    assert(k == k1 + 1);
    assert forall|j: int| 0 <= j < n - 1 implies #[trigger] slot_after(r1, j, n) == slot_after(
        r,
        j + 1,
        n,
    ) && slot_after(r1, j, n) != r by {}
    if k1 > 0 {
        assert(slot_after(r1, k1 - 1, n) == slot_after(r, k - 1, n));
    }
    assert(next.nic.regs =~= hw.nic.regs.update(E1000_RDT as int, slot_after(r, k - 1, n) as u32));

    if k < left {
        assert(slot_after(r1, k1, n) == slot_after(r, k, n));
    }
    assert forall|j: int| 0 <= j < k implies lay.rx_done(hw, #[trigger] slot_after(r, j, n)) by {
        if j > 0 {
            let s = slot_after(r1, j - 1, n);
            assert(s == slot_after(r, j, n));
            assert(lay.rx_done(one, s));
            assert(lay.rx_desc(one, s) == lay.rx_desc(hw, s));
        }
    }
    assert forall|j: int| 0 <= j < k implies #[trigger] frames[j] == rx_frame(
        hw,
        lay,
        slot_after(r, j, n),
    ) by {
        if j > 0 {
            let s = slot_after(r1, j - 1, n);
            assert(s == slot_after(r, j, n));
            assert(frames[j] == tail[j - 1]);
            assert(lay.rx_desc(one, s) == lay.rx_desc(hw, s));
            assert(lay.rx_buffer(one, s) == lay.rx_buffer(hw, s));
        }
    }
    assert forall|s: int| 0 <= s < n implies #[trigger] lay.rx_desc(next, s) == rx_desc_after(
        hw,
        lay,
        r,
        k,
        s,
    ) by {
        assert(lay.rx_desc(next, s) == rx_desc_after(one, lay, r1, k1, s));
        if s == r {
            assert(!in_run(s, r1, k1, n));
        } else {
            assert(in_run(s, r1, k1, n) == in_run(s, r, k, n));
            assert(lay.rx_desc(one, s) == lay.rx_desc(hw, s));
        }
    }
    assert forall|s: int| 0 <= s < n implies #[trigger] lay.rx_buffer(next, s) == rx_buffer_after(
        hw,
        lay,
        r,
        k,
        s,
    ) by {
        assert(lay.rx_buffer(next, s) == rx_buffer_after(one, lay, r1, k1, s));
        if s == r {
            assert(!in_run(s, r1, k1, n));
        } else {
            assert(in_run(s, r1, k1, n) == in_run(s, r, k, n));
            assert(lay.rx_desc(one, s) == lay.rx_desc(hw, s));
            assert(lay.rx_buffer(one, s) == lay.rx_buffer(hw, s));
        }
    }
}

/// Draining the receive ring does what `drained_as` says.
pub proof fn lemma_drained(hw: Hw, lay: RingLayout, r: int, left: nat)
    requires
        hw.wf(),
        lay.wf(),
        lay.mapped_in(hw),
        0 <= r < lay.ring_size,
        left <= lay.ring_size,
    ensures
        drained_as(hw, lay, r, left, rx_drained(hw, lay, r, left), rx_frames(hw, lay, r, left)),
    decreases left,
{
    let n = lay.ring_size as int;
    if left == 0 || !lay.rx_done(hw, r) {
        assert(rx_frames(hw, lay, r, left) =~= Seq::<Seq<u8>>::empty());
    } else {
        let one = rx_released(hw, lay, r);
        let r1 = next_slot(r, n);
        let rest = (left - 1) as nat;
        lemma_released(hw, lay, r);
        lemma_slot_after(r, 1, n);
        lemma_drained(one, lay, r1, rest);
        lemma_drained_step(
            hw,
            one,
            rx_drained(one, lay, r1, rest),
            lay,
            r,
            left,
            rx_frames(one, lay, r1, rest),
        );
    }
}

} // verus!
