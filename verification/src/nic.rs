//! The controller's side of the rings, as the simulation has it: what the
//! controller does with a frame to send and with a frame that arrives, and
//! what it writes back.

use vstd::prelude::*;
use crate::kernel::KernelFunc;
use crate::desc::DESC_LENGTH;
use crate::desc::DESC_SIZE;
use crate::desc::DESC_STATUS;
use crate::desc::RxDesc;
use crate::desc::TxDesc;
use crate::desc::le16_bytes;
use crate::desc::u16_le;
use crate::e1000::E1000Device;
use crate::e1000_const::E1000_ICR;
use crate::e1000_const::E1000_ICR_RXT0;
use crate::e1000_const::E1000_RDH;
use crate::e1000_const::E1000_RDT;
use crate::e1000_const::E1000_REG_WORDS;
use crate::e1000_const::E1000_RXD_STAT_DONE;
use crate::e1000_const::E1000_TDH;
use crate::e1000_const::E1000_TDT;
use crate::e1000_const::E1000_TXD_STAT_DD;
use crate::host::E1000Driver;
use crate::hw::Hw;
use crate::hw::Nic;
use crate::hw::PhyWait;
use crate::ring::MBUF_SIZE;
use crate::ring::RingLayout;
use crate::ring::lemma_pages_hold;
use crate::ring::next_slot;
use crate::sim::SimKernel;
use crate::xfer::clamp_len;
use crate::xfer::spec_clamp_len;

verus! {

/// The transmit head names a slot of its ring.
pub open spec fn tx_head_ok(hw: Hw, lay: RingLayout) -> bool {
    hw.nic.regs[E1000_TDH as int] < lay.ring_size
}

/// The receive head names a slot of its ring.
pub open spec fn rx_head_ok(hw: Hw, lay: RingLayout) -> bool {
    hw.nic.regs[E1000_RDH as int] < lay.ring_size
}

/// Both head registers name a slot of their ring.
pub open spec fn heads_ok(hw: Hw, lay: RingLayout) -> bool {
    tx_head_ok(hw, lay) && rx_head_ok(hw, lay)
}

/// The controller has a frame to send: software has moved the transmit tail
/// past the head.
pub open spec fn nic_has_frame(hw: Hw, lay: RingLayout) -> bool {
    lay.tdh(hw) != lay.tdt(hw)
}

/// The frame that the controller sends next: what the descriptor at the
/// transmit head names.
pub open spec fn nic_frame(hw: Hw, lay: RingLayout) -> Seq<u8> {
    let h = lay.tdh(hw);
    lay.tx_buffer(hw, h).take(spec_clamp_len(lay.tx_desc(hw, h).length as int))
}

/// The hardware after the controller has sent the frame at the transmit
/// head: the descriptor is done, and the head has moved on. Without a frame
/// to send nothing changes.
pub open spec fn after_nic_send(hw: Hw, lay: RingLayout) -> Hw {
    let h = lay.tdh(hw);
    if nic_has_frame(hw, lay) {
        hw.after_device_write(
            lay.tx_ring,
            h * DESC_SIZE + DESC_STATUS,
            seq![lay.tx_desc(hw, h).status | E1000_TXD_STAT_DD],
        ).after_device_store(E1000_TDH as int, next_slot(h, lay.ring_size as int) as u32)
    } else {
        hw
    }
}

/// The controller has a slot for a frame that arrives: the receive head has
/// not caught up with the tail.
pub open spec fn nic_has_room(hw: Hw, lay: RingLayout) -> bool {
    lay.rdh(hw) != lay.rdt(hw)
}

/// The hardware after `frame` has arrived: the head of it that fits a buffer
/// is in the slot at the receive head, whose descriptor holds its length and
/// is done; the head has moved on, and the receiver timer interrupt is
/// pending. Without a slot for it the frame is lost, and nothing changes.
pub open spec fn after_nic_receive(hw: Hw, lay: RingLayout, frame: Seq<u8>) -> Hw {
    let h = lay.rdh(hw);
    let len = spec_clamp_len(frame.len() as int);
    if nic_has_room(hw, lay) {
        hw.after_device_write(lay.rx_pool, h * MBUF_SIZE, frame.take(len)).after_device_write(
            lay.rx_ring,
            h * DESC_SIZE + DESC_LENGTH,
            le16_bytes(len as u16),
        ).after_device_write(
            lay.rx_ring,
            h * DESC_SIZE + DESC_STATUS,
            seq![E1000_RXD_STAT_DONE],
        ).after_device_store(
            E1000_RDH as int,
            next_slot(h, lay.ring_size as int) as u32,
        ).after_device_store(E1000_ICR as int, hw.nic.regs[E1000_ICR as int] | E1000_ICR_RXT0)
    } else {
        hw
    }
}

impl E1000Device<SimKernel> {
    /// Both head registers name a slot of their ring.
    pub open spec fn heads_ok(&self) -> bool {
        heads_ok(self.hw(), self@.layout)
    }

    /// The controller sends the frame at the transmit head, if there is one,
    /// and returns it.
    pub fn nic_send(&mut self) -> (frame: Option<Vec<u8>>)
        requires
            old(self).wf(),
            tx_head_ok(old(self).hw(), old(self)@.layout),
        ensures
            final(self).wf(),
            tx_head_ok(final(self).hw(), final(self)@.layout),
            final(self).cursors_ok() == old(self).cursors_ok(),
            old(self).heads_ok() ==> final(self).heads_ok(),
            final(self)@ == old(self)@,
            final(self).hw() == after_nic_send(old(self).hw(), old(self)@.layout),
            match frame {
                Some(frame) => nic_has_frame(old(self).hw(), old(self)@.layout) && frame@
                    == nic_frame(old(self).hw(), old(self)@.layout),
                None => !nic_has_frame(old(self).hw(), old(self)@.layout),
            },
    {
        proof {
            self.lemma_parts();
        }
        let n = self.layout.ring_size;
        let head = self.kfn.reg(E1000_TDH) as usize;
        let tail = self.kfn.reg(E1000_TDT) as usize;
        if head == tail {
            return None;
        }
        proof {
            lemma_pages_hold(self@.layout.ring_bytes());
            lemma_pages_hold(self@.layout.pool_bytes());
        }
        let desc = self.tx_descriptor(head);
        let len = clamp_len(desc.length as usize);
        let frame = self.kfn.dma_read(
            self.layout.tx_pool,
            self.tx_mbufs[head] - self.layout.tx_pool,
            len,
        );
        let status: [u8; 1] = [desc.status | E1000_TXD_STAT_DD];
        assert(status@ =~= seq![desc.status | E1000_TXD_STAT_DD]);
        self.kfn.nic_write(self.layout.tx_ring, head * DESC_SIZE + DESC_STATUS, status.as_slice());
        self.kfn.nic_store(E1000_TDH, ((head + 1) % n) as u32);
        proof {
            self.lemma_parts();
        }
        Some(frame)
    }

    /// A frame arrives at the controller. Returns whether the controller had
    /// a slot for it.
    pub fn nic_receive(&mut self, frame: &[u8]) -> (taken: bool)
        requires
            old(self).wf(),
            rx_head_ok(old(self).hw(), old(self)@.layout),
        ensures
            final(self).wf(),
            rx_head_ok(final(self).hw(), final(self)@.layout),
            final(self).cursors_ok() == old(self).cursors_ok(),
            old(self).heads_ok() ==> final(self).heads_ok(),
            final(self)@ == old(self)@,
            final(self).hw() == after_nic_receive(old(self).hw(), old(self)@.layout, frame@),
            taken == nic_has_room(old(self).hw(), old(self)@.layout),
    {
        proof {
            self.lemma_parts();
        }
        let n = self.layout.ring_size;
        let head = self.kfn.reg(E1000_RDH) as usize;
        let tail = self.kfn.reg(E1000_RDT) as usize;
        if head == tail {
            return false;
        }
        proof {
            lemma_pages_hold(self@.layout.ring_bytes());
            lemma_pages_hold(self@.layout.pool_bytes());
        }
        let pending = self.kfn.reg(E1000_ICR);
        let len = clamp_len(frame.len());
        let at = head * DESC_SIZE;
        self.kfn.nic_write(
            self.layout.rx_pool,
            self.rx_mbufs[head] - self.layout.rx_pool,
            vstd::slice::slice_subrange(frame, 0, len),
        );
        let len_bytes = u16_le(len as u16);
        self.kfn.nic_write(self.layout.rx_ring, at + DESC_LENGTH, len_bytes.as_slice());
        let status: [u8; 1] = [E1000_RXD_STAT_DONE];
        assert(status@ =~= seq![E1000_RXD_STAT_DONE]);
        self.kfn.nic_write(self.layout.rx_ring, at + DESC_STATUS, status.as_slice());
        self.kfn.nic_store(E1000_RDH, ((head + 1) % n) as u32);
        self.kfn.nic_store(E1000_ICR, pending | E1000_ICR_RXT0);
        proof {
            self.lemma_parts();
        }
        true
    }

    /// The controller writes `desc` back to transmit slot `slot`.
    pub fn nic_set_tx_desc(&mut self, slot: usize, desc: &TxDesc)
        requires
            old(self).wf(),
            slot < old(self)@.layout.ring_size,
        ensures
            final(self).wf(),
            final(self)@ == old(self)@,
            final(self).hw() == old(self).hw().after_device_write(
                old(self)@.layout.tx_ring,
                slot * DESC_SIZE,
                desc.encode(),
            ),
            final(self)@.layout.tx_desc(final(self).hw(), slot as int) == *desc,
    {
        proof {
            self.lemma_parts();
            lemma_pages_hold(self@.layout.ring_bytes());
            desc.lemma_round_trip();
        }
        let bytes = desc.to_bytes();
        self.kfn.nic_write(self.layout.tx_ring, slot * DESC_SIZE, bytes.as_slice());
        proof {
            self.lemma_parts();
        }
    }

    /// The controller writes `desc` back to receive slot `slot`.
    pub fn nic_set_rx_desc(&mut self, slot: usize, desc: &RxDesc)
        requires
            old(self).wf(),
            slot < old(self)@.layout.ring_size,
        ensures
            final(self).wf(),
            final(self)@ == old(self)@,
            final(self).hw() == old(self).hw().after_device_write(
                old(self)@.layout.rx_ring,
                slot * DESC_SIZE,
                desc.encode(),
            ),
            final(self)@.layout.rx_desc(final(self).hw(), slot as int) == *desc,
    {
        proof {
            self.lemma_parts();
            lemma_pages_hold(self@.layout.ring_bytes());
            desc.lemma_round_trip();
        }
        let bytes = desc.to_bytes();
        self.kfn.nic_write(self.layout.rx_ring, slot * DESC_SIZE, bytes.as_slice());
        proof {
            self.lemma_parts();
        }
    }

    /// The controller writes `data`, a buffer's length at most, to the head
    /// of the buffer of receive slot `slot`.
    pub fn nic_set_rx_buffer(&mut self, slot: usize, data: &[u8])
        requires
            old(self).wf(),
            slot < old(self)@.layout.ring_size,
            data@.len() <= MBUF_SIZE,
        ensures
            final(self).wf(),
            final(self)@ == old(self)@,
            final(self).hw() == old(self).hw().after_device_write(
                old(self)@.layout.rx_pool,
                slot * MBUF_SIZE,
                data@,
            ),
    {
        proof {
            self.lemma_parts();
            lemma_pages_hold(self@.layout.pool_bytes());
        }
        self.kfn.nic_write(
            self.layout.rx_pool,
            self.rx_mbufs[slot] - self.layout.rx_pool,
            data,
        );
        proof {
            self.lemma_parts();
        }
    }

    /// The controller puts `v` into register `reg`.
    pub fn nic_set_reg(&mut self, reg: usize, v: u32)
        requires
            old(self).wf(),
            reg < E1000_REG_WORDS,
        ensures
            final(self).wf(),
            final(self)@ == old(self)@,
            final(self).hw() == old(self).hw().after_device_store(reg as int, v),
    {
        proof {
            self.lemma_parts();
        }
        self.kfn.nic_store(reg, v);
        proof {
            self.lemma_parts();
        }
    }

    /// The PHY takes a lag of `lag` reads of MDIC: so many reads find a
    /// command unfinished before one shows it completed.
    pub fn nic_set_phy_lag(&mut self, lag: usize)
        requires
            old(self).wf(),
        ensures
            final(self).wf(),
            final(self).cursors_ok() == old(self).cursors_ok(),
            final(self)@ == old(self)@,
            final(self).hw() == (Hw {
                nic: Nic {
                    phy_wait: PhyWait { lag: lag as nat, ..old(self).hw().nic.phy_wait },
                    ..old(self).hw().nic
                },
                ..old(self).hw()
            }),
    {
        proof {
            self.lemma_parts();
        }
        self.kfn.nic_set_phy_lag(lag);
        proof {
            self.lemma_parts();
        }
    }

    /// The controller raises the interrupt causes `causes`.
    pub fn nic_raise(&mut self, causes: u32)
        requires
            old(self).wf(),
        ensures
            final(self).wf(),
            final(self)@ == old(self)@,
            final(self).hw() == old(self).hw().after_device_store(
                E1000_ICR as int,
                old(self).hw().nic.regs[E1000_ICR as int] | causes,
            ),
    {
        proof {
            self.lemma_parts();
        }
        let pending = self.kfn.reg(E1000_ICR);
        self.kfn.nic_store(E1000_ICR, pending | causes);
        proof {
            self.lemma_parts();
        }
    }
}

impl E1000Driver<SimKernel> {
    /// The controller of the driver's device sends the frame at the transmit
    /// head, as `E1000Device::nic_send` has it.
    pub fn nic_send(&mut self) -> (frame: Option<Vec<u8>>)
        requires
            old(self).wf(),
            tx_head_ok(old(self).device().hw(), old(self).device()@.layout),
        ensures
            final(self).wf(),
            tx_head_ok(final(self).device().hw(), final(self).device()@.layout),
            final(self).cursors_ok() == old(self).cursors_ok(),
            old(self).device().heads_ok() ==> final(self).device().heads_ok(),
            final(self).device()@ == old(self).device()@,
            final(self).state() == old(self).state(),
            final(self).stats() == old(self).stats(),
            final(self).device().hw() == after_nic_send(
                old(self).device().hw(),
                old(self).device()@.layout,
            ),
            match frame {
                Some(frame) => nic_has_frame(old(self).device().hw(), old(self).device()@.layout)
                    && frame@ == nic_frame(old(self).device().hw(), old(self).device()@.layout),
                None => !nic_has_frame(old(self).device().hw(), old(self).device()@.layout),
            },
    {
        proof {
            self.lemma_parts();
        }
        let frame = self.dev.nic_send();
        proof {
            self.lemma_parts();
        }
        frame
    }

    /// A frame arrives at the controller of the driver's device, as
    /// `E1000Device::nic_receive` has it.
    pub fn nic_receive(&mut self, frame: &[u8]) -> (taken: bool)
        requires
            old(self).wf(),
            rx_head_ok(old(self).device().hw(), old(self).device()@.layout),
        ensures
            final(self).wf(),
            rx_head_ok(final(self).device().hw(), final(self).device()@.layout),
            final(self).cursors_ok() == old(self).cursors_ok(),
            old(self).device().heads_ok() ==> final(self).device().heads_ok(),
            final(self).device()@ == old(self).device()@,
            final(self).state() == old(self).state(),
            final(self).stats() == old(self).stats(),
            final(self).device().hw() == after_nic_receive(
                old(self).device().hw(),
                old(self).device()@.layout,
                frame@,
            ),
            taken == nic_has_room(old(self).device().hw(), old(self).device()@.layout),
    {
        proof {
            self.lemma_parts();
        }
        let taken = self.dev.nic_receive(frame);
        proof {
            self.lemma_parts();
        }
        taken
    }
}

} // verus!
