//! e1000 driver for the Intel 82540EP/EM: the engine.
//!
//! Every operation takes the device by exclusive reference, does a bounded
//! number of accesses and returns; none waits. The host holds the lock that
//! keeps its contexts apart.

use vstd::prelude::*;
use crate::desc::DESC_LENGTH;
use crate::desc::DESC_SIZE;
use crate::desc::DESC_STATUS;
use crate::desc::RxDesc;
use crate::desc::TXD_CMD;
use crate::desc::TxDesc;
use crate::desc::u16_le;
use crate::e1000_const::E1000_CTL;
use crate::e1000_const::E1000_CTL_ASDE;
use crate::e1000_const::E1000_CTL_PHY_RST;
use crate::e1000_const::E1000_CTL_RST;
use crate::e1000_const::E1000_CTL_SLU;
use crate::e1000_const::E1000_CTRL_EXT;
use crate::e1000_const::E1000_CTRL_EXT_RO_DIS;
use crate::e1000_const::E1000_ICR;
use crate::e1000_const::E1000_ICR_LSC;
use crate::e1000_const::E1000_ICS;
use crate::e1000_const::E1000_IMC;
use crate::e1000_const::E1000_IMS;
use crate::e1000_const::E1000_ITR;
use crate::e1000_const::E1000_MTA;
use crate::e1000_const::E1000_MTA_WORDS;
use crate::e1000_const::E1000_RADV;
use crate::e1000_const::E1000_RCTL;
use crate::e1000_const::E1000_RCTL_INIT;
use crate::e1000_const::E1000_RDBAH;
use crate::e1000_const::E1000_RDBAL;
use crate::e1000_const::E1000_RDH;
use crate::e1000_const::E1000_RDLEN;
use crate::e1000_const::E1000_RDT;
use crate::e1000_const::E1000_RDTR;
use crate::e1000_const::E1000_REG_WORDS;
use crate::e1000_const::E1000_RFCTL;
use crate::e1000_const::E1000_RXD_STAT_DD;
use crate::e1000_const::E1000_STAT;
use crate::e1000_const::E1000_TADV;
use crate::e1000_const::E1000_TCTL;
use crate::e1000_const::E1000_TCTL_INIT;
use crate::e1000_const::E1000_TDBAH;
use crate::e1000_const::E1000_TDBAL;
use crate::e1000_const::E1000_TDH;
use crate::e1000_const::E1000_TDLEN;
use crate::e1000_const::E1000_TDT;
use crate::e1000_const::E1000_TIDV;
use crate::e1000_const::E1000_TIPG;
use crate::e1000_const::E1000_TIPG_INIT;
use crate::e1000_const::E1000_TXDCTL0;
use crate::e1000_const::E1000_TXDCTL1;
use crate::e1000_const::E1000_TXDCTL_FULL_TX_DESC_WB;
use crate::e1000_const::E1000_TXD_CMD_SEND;
use crate::e1000_const::E1000_TXD_STAT_DD;
use crate::e1000_const::IMS_ENABLE_MASK;
use crate::hw::Hw;
use crate::kernel::KernelFunc;
use crate::ring::MBUF_SIZE;
use crate::ring::RingLayout;
use crate::ring::lemma_pages_hold;
use crate::steps::addr_high;
use crate::steps::addr_low;
use crate::steps::clear_mta;
use crate::steps::init_hw;
use crate::steps::init_irq;
use crate::steps::init_regs;
use crate::steps::init_reset;
use crate::steps::init_rx;
use crate::steps::init_tx;
use crate::steps::irq_disabled;
use crate::steps::irq_enabled;
use crate::steps::lemma_init_regs_keep_phy;
use crate::steps::reg_clear;
use crate::steps::reg_set;
use crate::xfer::after_recv;
use crate::xfer::after_transmit;
use crate::xfer::clamp_len;
use crate::xfer::contents;
use crate::xfer::drained_as;
use crate::xfer::lemma_drained;
use crate::xfer::lemma_transmit;
use crate::xfer::queued_as;
use crate::xfer::recv_frames;
use crate::xfer::rx_drained;
use crate::xfer::rx_first;
use crate::xfer::rx_frame;
use crate::xfer::rx_frames;
use crate::xfer::rx_len;
use crate::xfer::rx_released;
use crate::xfer::scrub_len;
use crate::xfer::slot_after_tail;
use crate::xfer::spec_clamp_len;
use crate::xfer::tail_moved;
use crate::xfer::zero_bytes;

verus! {

/// Number of descriptors in the transmit ring of a device made by `new`.
pub const TX_RING_SIZE: usize = 16;

/// Number of descriptors in the receive ring of a device made by `new`.
pub const RX_RING_SIZE: usize = 16;

/// What can go wrong in the engine.
#[derive(Clone, Copy, Debug, PartialEq, Eq, Structural)]
pub enum E1000Error {
    /// The host could not provide a DMA region.
    AllocationFailed,
    /// The length of the ring in bytes is not a positive multiple of 128.
    RingMisaligned,
    /// The slot at the transmit tail still belongs to the controller.
    TxFull,
    /// The frame was longer than a buffer; its head was sent. This is no
    /// failure: it comes beside the number of bytes sent.
    TxTruncated,
    /// The receive descriptor holds a null buffer address.
    InvalidDescriptor,
    /// The PHY never completed an operation.
    PhyTimeout,
}

/// What `e1000_transmit` returns for a frame of `len` bytes: `TxFull` while
/// the slot at the tail is not free; otherwise the number of bytes handed to
/// the controller, which a buffer bounds, and `TxTruncated` beside it if the
/// frame was longer than that.
pub open spec fn spec_transmitted(slot_free: bool, len: int) -> Result<
    (usize, Option<E1000Error>),
    E1000Error,
> {
    if !slot_free {
        Err(E1000Error::TxFull)
    } else if len > MBUF_SIZE {
        Ok((spec_clamp_len(len) as usize, Some(E1000Error::TxTruncated)))
    } else {
        Ok((spec_clamp_len(len) as usize, None))
    }
}

/// The software side of a device: what the engine remembers between calls.
pub struct DeviceView {
    /// The address of the register window.
    pub mapped_regs: usize,
    /// Where the rings and pools are.
    pub layout: RingLayout,
    /// The address of each receive buffer.
    pub rx_mbufs: Seq<usize>,
    /// The address of each transmit buffer.
    pub tx_mbufs: Seq<usize>,
    /// The size of each buffer.
    pub mbuf_size: usize,
}

impl DeviceView {
    /// The buffers are those of the pools, in order.
    pub open spec fn wf(self) -> bool {
        &&& self.layout.wf()
        &&& self.mbuf_size == MBUF_SIZE
        &&& self.tx_mbufs.len() == self.layout.ring_size
        &&& self.rx_mbufs.len() == self.layout.ring_size
        &&& forall|i: int|
            0 <= i < self.layout.ring_size ==> #[trigger] self.tx_mbufs[i] == self.layout.tx_pool
                + i * MBUF_SIZE
        &&& forall|i: int|
            0 <= i < self.layout.ring_size ==> #[trigger] self.rx_mbufs[i] == self.layout.rx_pool
                + i * MBUF_SIZE
    }
}

/// Main structure of the e1000 driver.
/// Used to save members such as ring buffer.
pub struct E1000Device<K: KernelFunc> {
    pub(crate) regs: usize,
    pub(crate) layout: RingLayout,
    pub(crate) rx_mbufs: Vec<usize>,
    pub(crate) tx_mbufs: Vec<usize>,
    pub(crate) mbuf_size: usize,
    pub(crate) kfn: K,
}

impl<K: KernelFunc> View for E1000Device<K> {
    type V = DeviceView;

    closed spec fn view(&self) -> DeviceView {
        DeviceView {
            mapped_regs: self.regs,
            layout: self.layout,
            rx_mbufs: self.rx_mbufs@,
            tx_mbufs: self.tx_mbufs@,
            mbuf_size: self.mbuf_size,
        }
    }
}

impl<K: KernelFunc> E1000Device<K> {
    /// The hardware behind the device.
    pub closed spec fn hw(&self) -> Hw {
        self.kfn.hw()
    }

    /// The device is attached: its software side is in order, and the
    /// hardware holds its register window and its four DMA regions.
    pub open spec fn wf(&self) -> bool {
        &&& self@.wf()
        &&& self.hw().wf()
        &&& self@.mapped_regs == self.hw().mmio_base
        &&& self@.layout.mapped_in(self.hw())
    }

    /// Both tail registers name a slot of their ring.
    pub open spec fn cursors_ok(&self) -> bool {
        self@.layout.cursors_ok(self.hw())
    }

    /// The transmit tail names a slot of its ring.
    pub open spec fn tx_cursor_ok(&self) -> bool {
        self@.layout.tx_cursor_ok(self.hw())
    }

    /// What `hw` and the view are made of, for the rest of the crate.
    pub(crate) proof fn lemma_parts(&self)
        ensures
            self.hw() == self.kfn.hw(),
            self@.mapped_regs == self.regs,
            self@.layout == self.layout,
            self@.rx_mbufs == self.rx_mbufs@,
            self@.tx_mbufs == self.tx_mbufs@,
            self@.mbuf_size == self.mbuf_size,
    {
    }

    /// Reads register `reg`.
    pub(crate) fn reg_read(&mut self, reg: usize) -> (v: u32)
        requires
            old(self).wf(),
            reg < E1000_REG_WORDS,
        ensures
            final(self).wf(),
            final(self)@ == old(self)@,
            v == old(self).hw().nic.read_value(reg as int),
            final(self).hw() == old(self).hw().after_reg_read(reg as int),
    {
        self.kfn.mmio_read(self.regs, reg)
    }

    /// Writes `v` to register `reg`.
    pub(crate) fn reg_write(&mut self, reg: usize, v: u32)
        requires
            old(self).wf(),
            reg < E1000_REG_WORDS,
        ensures
            final(self).wf(),
            final(self)@ == old(self)@,
            final(self).hw() == old(self).hw().after_reg_write(reg as int, v),
    {
        self.kfn.mmio_write(self.regs, reg, v)
    }

    /// Sets the bits `bits` of register `reg`.
    fn reg_set(&mut self, reg: usize, bits: u32)
        requires
            old(self).wf(),
            reg < E1000_REG_WORDS,
        ensures
            final(self).wf(),
            final(self)@ == old(self)@,
            final(self).hw() == (Hw {
                nic: reg_set(old(self).hw().nic, reg as int, bits),
                ..old(self).hw()
            }),
    {
        let v = self.reg_read(reg);
        self.reg_write(reg, v | bits);
    }

    /// Clears the bits `bits` of register `reg`.
    pub(crate) fn reg_clear(&mut self, reg: usize, bits: u32)
        requires
            old(self).wf(),
            reg < E1000_REG_WORDS,
        ensures
            final(self).wf(),
            final(self)@ == old(self)@,
            final(self).hw() == (Hw {
                nic: reg_clear(old(self).hw().nic, reg as int, bits),
                ..old(self).hw()
            }),
    {
        let v = self.reg_read(reg);
        self.reg_write(reg, v & !bits);
    }

    /// flush e1000 status
    pub fn e1000_write_flush(&mut self)
        requires
            old(self).wf(),
        ensures
            final(self).wf(),
            final(self)@ == old(self)@,
            final(self).hw() == old(self).hw().after_reg_read(E1000_STAT as int),
    {
        let _ = self.reg_read(E1000_STAT);
    }

    /// Clear Interrupt
    pub fn e1000_irq_disable(&mut self)
        requires
            old(self).wf(),
        ensures
            final(self).wf(),
            final(self)@ == old(self)@,
            final(self).hw() == irq_disabled(old(self).hw()),
            final(self).hw().nic.regs[E1000_IMS as int] == 0,
    {
        proof {
            let m = self.hw().nic.regs[E1000_IMS as int];
            assert(m & !0xffff_ffffu32 == 0) by (bit_vector);
        }
        self.reg_write(E1000_IMC, 0xffff_ffff);
        self.e1000_write_flush();
    }

    /// Enable Interrupts
    pub fn e1000_irq_enable(&mut self)
        requires
            old(self).wf(),
        ensures
            final(self).wf(),
            final(self)@ == old(self)@,
            final(self).hw() == irq_enabled(old(self).hw()),
            final(self).hw().nic.regs[E1000_IMS as int] == old(self).hw().nic.regs[E1000_IMS as int]
                | IMS_ENABLE_MASK,
    {
        self.reg_write(E1000_IMS, IMS_ENABLE_MASK);
        self.e1000_write_flush();
    }

    /// Cause a link status change interrupt
    pub fn e1000_cause_lsc_int(&mut self)
        requires
            old(self).wf(),
        ensures
            final(self).wf(),
            final(self)@ == old(self)@,
            final(self).hw() == old(self).hw().after_reg_write(E1000_ICS as int, E1000_ICR_LSC),
            final(self).hw().nic.regs[E1000_ICR as int] == old(self).hw().nic.regs[E1000_ICR as int]
                | E1000_ICR_LSC,
    {
        self.reg_write(E1000_ICS, E1000_ICR_LSC);
    }

    /// To handle e1000 interrupt: returns the pending causes, which the read
    /// clears.
    pub fn e1000_intr(&mut self) -> (icr: u32)
        requires
            old(self).wf(),
        ensures
            final(self).wf(),
            final(self)@ == old(self)@,
            icr == old(self).hw().nic.regs[E1000_ICR as int],
            final(self).hw() == old(self).hw().after_reg_read(E1000_ICR as int),
            final(self).hw().nic.regs[E1000_ICR as int] == 0,
    {
        self.reg_read(E1000_ICR)
    }

    /// Nothing is to be cleaned after a transmit interrupt: a slot is taken
    /// again when its descriptor is done.
    pub fn e1000_clean_tx_irq(&mut self)
        ensures
            *final(self) == *old(self),
    {
    }

    /// Masks the interrupts, resets the device and its PHY, and sets the link
    /// up.
    fn init_reset(&mut self)
        requires
            old(self).wf(),
        ensures
            final(self).wf(),
            final(self)@ == old(self)@,
            final(self).hw() == (Hw { nic: init_reset(old(self).hw().nic), ..old(self).hw() }),
    {
        self.reg_write(E1000_IMS, 0);
        self.reg_set(E1000_CTL, E1000_CTL_RST);
        self.reg_write(E1000_IMS, 0);
        self.reg_set(E1000_CTL, E1000_CTL_PHY_RST);
        self.reg_set(E1000_CTL, E1000_CTL_ASDE);
        self.reg_set(E1000_CTL, E1000_CTL_SLU);
    }

    /// [E1000 14.5] Transmit initialization
    fn init_tx(&mut self)
        requires
            old(self).wf(),
        ensures
            final(self).wf(),
            final(self)@ == old(self)@,
            final(self).hw() == (Hw {
                nic: init_tx(old(self).hw().nic, old(self)@.layout),
                ..old(self).hw()
            }),
    {
        self.reg_write(E1000_TCTL, E1000_TCTL_INIT);
        self.reg_write(E1000_TIPG, E1000_TIPG_INIT);
        self.reg_write(E1000_TDBAL, addr_low(self.layout.tx_ring_dma));
        self.reg_write(E1000_TDBAH, addr_high(self.layout.tx_ring_dma));
        self.reg_write(E1000_TDLEN, (self.layout.ring_size * DESC_SIZE) as u32);
        self.reg_write(E1000_TDT, 0);
        self.reg_write(E1000_TDH, 0);
        self.reg_write(E1000_TXDCTL0, E1000_TXDCTL_FULL_TX_DESC_WB);
        self.reg_write(E1000_TXDCTL1, E1000_TXDCTL_FULL_TX_DESC_WB);
    }

    /// [E1000 14.4] Receive initialization
    fn init_rx(&mut self)
        requires
            old(self).wf(),
        ensures
            final(self).wf(),
            final(self)@ == old(self)@,
            final(self).hw() == (Hw {
                nic: init_rx(old(self).hw().nic, old(self)@.layout),
                ..old(self).hw()
            }),
    {
        self.reg_write(E1000_RCTL, E1000_RCTL_INIT);
        self.reg_write(E1000_RFCTL, 0);
        self.reg_write(E1000_RDBAL, addr_low(self.layout.rx_ring_dma));
        self.reg_write(E1000_RDBAH, addr_high(self.layout.rx_ring_dma));
        self.reg_write(E1000_RDLEN, (self.layout.ring_size * DESC_SIZE) as u32);
        self.reg_write(E1000_RDH, 0);
        self.reg_write(E1000_RDT, (self.layout.ring_size - 1) as u32);
    }

    /// Clears the multicast table.
    fn init_mta(&mut self)
        requires
            old(self).wf(),
        ensures
            final(self).wf(),
            final(self)@ == old(self)@,
            final(self).hw() == (Hw {
                nic: clear_mta(old(self).hw().nic, E1000_MTA_WORDS as nat),
                ..old(self).hw()
            }),
    {
        let mut i: usize = 0;
        while i < E1000_MTA_WORDS
            invariant
                i <= E1000_MTA_WORDS,
                self.wf(),
                self@ == old(self)@,
                self.hw() == (Hw {
                    nic: clear_mta(old(self).hw().nic, i as nat),
                    ..old(self).hw()
                }),
            decreases E1000_MTA_WORDS - i,
        {
            self.reg_write(E1000_MTA + i, 0);
            i = i + 1;
        }
    }

    /// Switches interrupt throttling off, asks for the interrupts of
    /// `IMS_ENABLE_MASK`, clears what is pending and disables relaxed
    /// ordering.
    fn init_irq(&mut self)
        requires
            old(self).wf(),
        ensures
            final(self).wf(),
            final(self)@ == old(self)@,
            final(self).hw() == (Hw { nic: init_irq(old(self).hw().nic), ..old(self).hw() }),
    {
        self.reg_write(E1000_TIDV, 0);
        self.reg_write(E1000_TADV, 0);
        self.reg_write(E1000_RDTR, 0);
        self.reg_write(E1000_RADV, 0);
        self.reg_write(E1000_ITR, 0);
        self.reg_write(E1000_IMS, IMS_ENABLE_MASK);
        let _ = self.reg_read(E1000_ICR);
        self.reg_set(E1000_CTRL_EXT, E1000_CTRL_EXT_RO_DIS);
    }

    /// Initialize e1000 driver: resets the device, programs both rings and the
    /// interrupts, and brings the PHY up at 100 Mb/s. Fails with `PhyTimeout`
    /// if the PHY does not answer; the registers are programmed by then.
    pub fn e1000_init(&mut self) -> (r: Result<(), E1000Error>)
        requires
            old(self).wf(),
        ensures
            final(self).wf(),
            final(self)@ == old(self)@,
            final(self).hw() == init_hw(old(self).hw(), old(self)@.layout),
            r == if old(self).hw().nic.phy_answers() {
                Ok::<(), E1000Error>(())
            } else {
                Err::<(), E1000Error>(E1000Error::PhyTimeout)
            },
    {
        self.init_reset();
        // the device must see the reset before it sees the rings
        self.kfn.fence_w();
        self.init_tx();
        self.init_rx();
        self.init_mta();
        self.init_irq();
        proof {
            reveal(init_regs);
            lemma_init_regs_keep_phy(old(self).hw().nic, self@.layout);
        }
        match self.e1000_force_speed_100() {
            Ok(()) => {},
            Err(e) => {
                return Err(e);
            },
        }
        match self.e1000_power_up_phy() {
            Ok(()) => {},
            Err(e) => {
                return Err(e);
            },
        }
        self.e1000_write_flush();
        Ok(())
    }

    /// The transmit descriptor in slot `i`, as it stands in DMA memory.
    pub fn tx_descriptor(&self, i: usize) -> (d: TxDesc)
        requires
            self.wf(),
            i < self@.layout.ring_size,
        ensures
            d == self@.layout.tx_desc(self.hw(), i as int),
    {
        proof {
            lemma_pages_hold(self@.layout.ring_bytes());
        }
        let b = self.kfn.dma_read(self.layout.tx_ring, i * DESC_SIZE, DESC_SIZE);
        TxDesc::from_bytes(b.as_slice())
    }

    /// The receive descriptor in slot `i`, as it stands in DMA memory.
    pub fn rx_descriptor(&self, i: usize) -> (d: RxDesc)
        requires
            self.wf(),
            i < self@.layout.ring_size,
        ensures
            d == self@.layout.rx_desc(self.hw(), i as int),
    {
        proof {
            lemma_pages_hold(self@.layout.ring_bytes());
        }
        let b = self.kfn.dma_read(self.layout.rx_ring, i * DESC_SIZE, DESC_SIZE);
        RxDesc::from_bytes(b.as_slice())
    }

    /// The buffer of transmit slot `i`, as it stands in DMA memory.
    pub fn tx_buffer(&self, i: usize) -> (b: Vec<u8>)
        requires
            self.wf(),
            i < self@.layout.ring_size,
        ensures
            b@ == self@.layout.tx_buffer(self.hw(), i as int),
    {
        proof {
            lemma_pages_hold(self@.layout.pool_bytes());
        }
        self.kfn.dma_read(self.layout.tx_pool, self.tx_mbufs[i] - self.layout.tx_pool, MBUF_SIZE)
    }

    /// The buffer of receive slot `i`, as it stands in DMA memory.
    pub fn rx_buffer(&self, i: usize) -> (b: Vec<u8>)
        requires
            self.wf(),
            i < self@.layout.ring_size,
        ensures
            b@ == self@.layout.rx_buffer(self.hw(), i as int),
    {
        proof {
            lemma_pages_hold(self@.layout.pool_bytes());
        }
        self.kfn.dma_read(self.layout.rx_pool, self.rx_mbufs[i] - self.layout.rx_pool, MBUF_SIZE)
    }

    /// Number of descriptors in each ring.
    pub fn ring_size(&self) -> (n: usize)
        ensures
            n == self@.layout.ring_size,
    {
        self.layout.ring_size
    }

    /// Reads both tail registers and says whether each names a slot of its
    /// ring, as `e1000_transmit` and `e1000_recv` need it.
    pub fn cursors_in_ring(&mut self) -> (b: bool)
        requires
            old(self).wf(),
        ensures
            final(self).wf(),
            final(self)@ == old(self)@,
            final(self).hw() == old(self).hw().after_reg_read(E1000_TDT as int).after_reg_read(
                E1000_RDT as int,
            ),
            b == old(self).cursors_ok(),
    {
        let n = self.layout.ring_size;
        let tdt = self.reg_read(E1000_TDT) as usize;
        let rdt = self.reg_read(E1000_RDT) as usize;
        tdt < n && rdt < n
    }

    /// Reads the transmit tail and says whether it names a slot of its ring,
    /// as `e1000_transmit` needs it.
    pub fn tx_tail_in_ring(&mut self) -> (b: bool)
        requires
            old(self).wf(),
        ensures
            final(self).wf(),
            final(self)@ == old(self)@,
            final(self).hw() == old(self).hw().after_reg_read(E1000_TDT as int),
            b == old(self).tx_cursor_ok(),
    {
        let n = self.layout.ring_size;
        let tdt = self.reg_read(E1000_TDT) as usize;
        tdt < n
    }

    /// The host that the device works through.
    pub fn kernel(&self) -> (k: &K)
        ensures
            k.hw() == self.hw(),
    {
        &self.kfn
    }

    /// Moves tail register `reg` to `v`, with the barriers and flushes that
    /// keep the controller from seeing the tail before the descriptors.
    fn move_tail(&mut self, reg: usize, v: u32)
        requires
            old(self).wf(),
            reg == E1000_TDT || reg == E1000_RDT,
        ensures
            final(self).wf(),
            final(self)@ == old(self)@,
            final(self).hw() == tail_moved(old(self).hw(), reg as int, v),
    {
        self.kfn.fence_w();
        self.e1000_write_flush();
        self.reg_write(reg, v);
        self.e1000_write_flush();
        self.kfn.fence_w();
    }

    /// Transmitting network packets: puts the frame into the slot at the
    /// transmit tail and moves the tail on. Returns the number of bytes
    /// handed to the controller, and beside it `TxTruncated` if the frame
    /// was longer than a buffer: its first `MBUF_SIZE` bytes are sent then.
    ///
    /// Fails with `TxFull`, and writes nothing, while the controller is not
    /// done with that slot.
    pub fn e1000_transmit(&mut self, packet: &[u8]) -> (r: Result<
        (usize, Option<E1000Error>),
        E1000Error,
    >)
        requires
            old(self).wf(),
            old(self).tx_cursor_ok(),
        ensures
            final(self).wf(),
            final(self).tx_cursor_ok(),
            old(self).cursors_ok() ==> final(self).cursors_ok(),
            final(self)@ == old(self)@,
            final(self).hw() == after_transmit(old(self).hw(), old(self)@.layout, packet@),
            old(self)@.layout.tx_done(old(self).hw(), old(self)@.layout.tdt(old(self).hw()))
                ==> queued_as(old(self).hw(), old(self)@.layout, packet@, final(self).hw()),
            r == spec_transmitted(
                old(self)@.layout.tx_done(old(self).hw(), old(self)@.layout.tdt(old(self).hw())),
                packet@.len() as int,
            ),
    {
        let n = self.layout.ring_size;
        let tindex = self.reg_read(E1000_TDT) as usize;
        let desc = self.tx_descriptor(tindex);
        if desc.status & E1000_TXD_STAT_DD == 0 {
            return Err(E1000Error::TxFull);
        }
        proof {
            lemma_transmit(old(self).hw(), self@.layout, packet@);
            lemma_pages_hold(self@.layout.ring_bytes());
            lemma_pages_hold(self@.layout.pool_bytes());
        }
        let length = clamp_len(packet.len());
        let frame = vstd::slice::slice_subrange(packet, 0, length);
        let at = tindex * DESC_SIZE;
        self.kfn.dma_write(self.layout.tx_pool, self.tx_mbufs[tindex] - self.layout.tx_pool, frame);
        let len_bytes = u16_le(length as u16);
        self.kfn.dma_write(self.layout.tx_ring, at + DESC_LENGTH, len_bytes.as_slice());
        self.kfn.dma_write_u8(self.layout.tx_ring, at + DESC_STATUS, 0);
        self.kfn.dma_write_u8(self.layout.tx_ring, at + TXD_CMD, E1000_TXD_CMD_SEND);
        self.move_tail(E1000_TDT, ((tindex + 1) % n) as u32);
        if packet.len() > MBUF_SIZE {
            Ok((length, Some(E1000Error::TxTruncated)))
        } else {
            Ok((length, None))
        }
    }

    /// Gives receive slot `r`, whose frame of `len` bytes has been copied
    /// out, back to the controller.
    fn rx_release(&mut self, r: usize, len: usize)
        requires
            old(self).wf(),
            r < old(self)@.layout.ring_size,
            len == rx_len(old(self)@.layout.rx_desc(old(self).hw(), r as int)),
        ensures
            final(self).wf(),
            final(self)@ == old(self)@,
            final(self).hw() == rx_released(old(self).hw(), old(self)@.layout, r as int),
    {
        proof {
            lemma_pages_hold(self@.layout.ring_bytes());
            lemma_pages_hold(self@.layout.pool_bytes());
        }
        self.kfn.fence();
        // Just need to clear the header
        let scrub = scrub_len(len);
        let blank = zero_bytes(scrub);
        self.kfn.dma_write(
            self.layout.rx_pool,
            self.rx_mbufs[r] - self.layout.rx_pool,
            blank.as_slice(),
        );
        self.kfn.dma_write_u8(self.layout.rx_ring, r * DESC_SIZE + DESC_STATUS, 0);
        self.move_tail(E1000_RDT, r as u32);
    }

    /// Receiving network packets: takes the frame of every slot that the
    /// controller is done with, from the slot after the receive tail on and
    /// once round the ring at most, and gives each slot back. Returns the
    /// frames in the order of their arrival; there may be none. A frame is
    /// as long as its descriptor says, and no longer than a buffer.
    ///
    /// Fails with `InvalidDescriptor`, and writes nothing, if the first
    /// descriptor holds no buffer address.
    pub fn e1000_recv(&mut self) -> (r: Result<Vec<Vec<u8>>, E1000Error>)
        requires
            old(self).wf(),
        ensures
            final(self).wf(),
            old(self).cursors_ok() ==> final(self).cursors_ok(),
            final(self).tx_cursor_ok() == old(self).tx_cursor_ok(),
            final(self)@ == old(self)@,
            final(self).hw() == after_recv(old(self).hw(), old(self)@.layout),
            match r {
                Ok(frames) => {
                    &&& old(self)@.layout.rx_desc(
                        old(self).hw(),
                        rx_first(old(self).hw(), old(self)@.layout),
                    ).addr != 0
                    &&& contents(frames@) == recv_frames(old(self).hw(), old(self)@.layout)
                    &&& drained_as(
                        old(self).hw().after_reg_read(E1000_RDT as int),
                        old(self)@.layout,
                        rx_first(old(self).hw(), old(self)@.layout),
                        old(self)@.layout.ring_size as nat,
                        final(self).hw(),
                        contents(frames@),
                    )
                },
                Err(e) => {
                    &&& e == E1000Error::InvalidDescriptor
                    &&& old(self)@.layout.rx_desc(
                        old(self).hw(),
                        rx_first(old(self).hw(), old(self)@.layout),
                    ).addr == 0
                },
            },
    {
        let n = self.layout.ring_size;
        let ghost lay = self@.layout;
        let mut recv_packets: Vec<Vec<u8>> = Vec::new();
        let mut rindex = slot_after_tail(self.reg_read(E1000_RDT), n);
        let ghost first = rindex as int;
        let ghost seen = self.hw();
        if self.rx_descriptor(rindex).addr == 0 {
            return Err(E1000Error::InvalidDescriptor);
        }
        proof {
            lemma_drained(seen, lay, first, n as nat);
        }
        let mut taken: usize = 0;
        while taken < n
            invariant
                n == lay.ring_size,
                lay == self@.layout,
                self@ == old(self)@,
                self.wf(),
                taken <= n,
                rindex < n,
                rx_drained(self.hw(), lay, rindex as int, (n - taken) as nat) == rx_drained(
                    seen,
                    lay,
                    first,
                    n as nat,
                ),
                contents(recv_packets@) + rx_frames(
                    self.hw(),
                    lay,
                    rindex as int,
                    (n - taken) as nat,
                ) == rx_frames(seen, lay, first, n as nat),
            ensures
                rx_drained(self.hw(), lay, rindex as int, (n - taken) as nat) == self.hw(),
                rx_frames(self.hw(), lay, rindex as int, (n - taken) as nat) == Seq::<
                    Seq<u8>,
                >::empty(),
            decreases n - taken,
        {
            // The frame in the slot is complete once DD is set
            let desc = self.rx_descriptor(rindex);
            if desc.status & E1000_RXD_STAT_DD == 0 {
                break ;
            }
            proof {
                lemma_pages_hold(lay.pool_bytes());
            }
            let len = clamp_len(desc.length as usize);
            let mut frame = self.kfn.dma_read(
                self.layout.rx_pool,
                self.rx_mbufs[rindex] - self.layout.rx_pool,
                len,
            );
            // Deliver the frame to the network stack
            net_rx(frame.as_mut_slice());
            let ghost before = self.hw();
            recv_packets.push(frame);
            self.rx_release(rindex, len);
            proof {
                assert(frame@ == rx_frame(before, lay, rindex as int));
            }
            rindex = (rindex + 1) % n;
            taken = taken + 1;
        }
        Ok(recv_packets)
    }
}

/// called by e1000 driver's interrupt handler to deliver a packet to the
/// networking stack; the engine has no stack above it, and the packet is left
/// as it is.
pub fn net_rx(packet: &mut [u8])
    ensures
        final(packet)@ == old(packet)@,
{
}

} // verus!
