//! What the operations of the engine do to the controller, as functions of
//! its state: the MDIC commands, the PHY primitives and the initialization
//! sequence.

use vstd::prelude::*;
use crate::desc::DESC_SIZE;
use crate::e1000_const::BMCR_SPEED100;
use crate::e1000_const::BMCR_SPEED10;
use crate::e1000_const::E1000_CTL;
use crate::e1000_const::E1000_CTL_ASDE;
use crate::e1000_const::E1000_CTL_PHY_RST;
use crate::e1000_const::E1000_CTL_RST;
use crate::e1000_const::E1000_CTL_SLU;
use crate::e1000_const::E1000_CTRL_EXT;
use crate::e1000_const::E1000_CTRL_EXT_RO_DIS;
use crate::e1000_const::E1000_ICR;
use crate::e1000_const::E1000_IMC;
use crate::e1000_const::E1000_IMS;
use crate::e1000_const::E1000_ITR;
use crate::e1000_const::E1000_MDIC;
use crate::e1000_const::E1000_MDIC_OP_READ;
use crate::e1000_const::E1000_MDIC_OP_WRITE;
use crate::e1000_const::E1000_MDIC_PHY_ADDR;
use crate::e1000_const::E1000_MDIC_READY;
use crate::e1000_const::E1000_MDIC_REG_MASK;
use crate::e1000_const::E1000_MDIC_REG_SHIFT;
use crate::e1000_const::E1000_MTA;
use crate::e1000_const::E1000_MTA_WORDS;
use crate::e1000_const::E1000_PHY_REGS;
use crate::e1000_const::E1000_RADV;
use crate::e1000_const::E1000_RCTL;
use crate::e1000_const::E1000_RCTL_EN;
use crate::e1000_const::E1000_RCTL_INIT;
use crate::e1000_const::E1000_RDBAH;
use crate::e1000_const::E1000_RDBAL;
use crate::e1000_const::E1000_RDH;
use crate::e1000_const::E1000_RDLEN;
use crate::e1000_const::E1000_RDT;
use crate::e1000_const::E1000_RDTR;
use crate::e1000_const::E1000_REG_WORDS;
use crate::e1000_const::E1000_RFCTL;
use crate::e1000_const::E1000_STAT;
use crate::e1000_const::E1000_TADV;
use crate::e1000_const::E1000_TCTL;
use crate::e1000_const::E1000_TCTL_EN;
use crate::e1000_const::E1000_TCTL_INIT;
use crate::e1000_const::E1000_TDBAH;
use crate::e1000_const::E1000_TDBAL;
use crate::e1000_const::E1000_TDH;
use crate::e1000_const::E1000_TDLEN;
use crate::e1000_const::E1000_TDT;
use crate::e1000_const::E1000_TIDV;
use crate::e1000_const::E1000_TIPG;
use crate::e1000_const::E1000_TIPG_INIT;
use crate::e1000_const::E1000_TXDCTL0;
use crate::e1000_const::E1000_TXDCTL1;
use crate::e1000_const::E1000_TXDCTL_FULL_TX_DESC_WB;
use crate::e1000_const::IMS_ENABLE_MASK;
use crate::e1000_const::MII_CR_POWER_DOWN;
use crate::e1000_const::PHY_CTRL;
use crate::e1000_const::PHY_POLL_LIMIT;
use crate::hw::Hw;
use crate::hw::Nic;
use crate::hw::PhyWait;
use crate::hw::lemma_mdic_reg_bound;
use crate::hw::mdic_reg;
use crate::ring::RingLayout;
use crate::ring::pages_for;
use crate::ring::rx_fresh;
use crate::ring::tx_fresh;
use crate::xfer::zeros;

verus! {

/// The register of the PHY that `reg_addr` names: the field of MDIC holds
/// five bits.
pub open spec fn phy_index(reg_addr: u32) -> int {
    (reg_addr % 32) as int
}

/// The MDIC command that reads register `reg_addr` of the PHY.
pub open spec fn spec_mdic_read_cmd(reg_addr: u32) -> u32 {
    ((reg_addr << E1000_MDIC_REG_SHIFT) & E1000_MDIC_REG_MASK) | E1000_MDIC_PHY_ADDR
        | E1000_MDIC_OP_READ
}

/// The MDIC command that writes `data` to register `reg_addr` of the PHY.
pub open spec fn spec_mdic_write_cmd(reg_addr: u32, data: u16) -> u32 {
    (data as u32) | ((reg_addr << E1000_MDIC_REG_SHIFT) & E1000_MDIC_REG_MASK)
        | E1000_MDIC_PHY_ADDR | E1000_MDIC_OP_WRITE
}

/// The MDIC command that reads register `reg_addr` of the PHY.
pub fn mdic_read_cmd(reg_addr: u32) -> (cmd: u32)
    ensures
        cmd == spec_mdic_read_cmd(reg_addr),
{
    ((reg_addr << E1000_MDIC_REG_SHIFT) & E1000_MDIC_REG_MASK) | E1000_MDIC_PHY_ADDR
        | E1000_MDIC_OP_READ
}

/// The MDIC command that writes `data` to register `reg_addr` of the PHY.
pub fn mdic_write_cmd(reg_addr: u32, data: u16) -> (cmd: u32)
    ensures
        cmd == spec_mdic_write_cmd(reg_addr, data),
{
    (data as u32) | ((reg_addr << E1000_MDIC_REG_SHIFT) & E1000_MDIC_REG_MASK)
        | E1000_MDIC_PHY_ADDR | E1000_MDIC_OP_WRITE
}

/// The data that the MDIC value `mdic` carries.
pub open spec fn spec_mdic_data(mdic: u32) -> u16 {
    (mdic & 0xffff) as u16
}

/// The data that the MDIC value `mdic` carries.
pub fn mdic_data(mdic: u32) -> (data: u16)
    ensures
        data == spec_mdic_data(mdic),
{
    #[verifier::truncate]
    ((mdic & 0xffff) as u16)
}

/// The MDIC value `mdic` says that the operation is complete.
pub open spec fn spec_mdic_ready(mdic: u32) -> bool {
    mdic & E1000_MDIC_READY != 0
}

/// The MDIC value `mdic` says that the operation is complete.
pub fn mdic_ready(mdic: u32) -> (ready: bool)
    ensures
        ready == spec_mdic_ready(mdic),
{
    mdic & E1000_MDIC_READY != 0
}

/// The controller after register `reg` got the bits `bits` set: the register
/// is read, and written with the bits added.
pub open spec fn reg_set(nic: Nic, reg: int, bits: u32) -> Nic {
    nic.after_read(reg).after_write(reg, nic.read_value(reg) | bits)
}

/// The controller after register `reg` got the bits `bits` cleared: the
/// register is read, and written without the bits.
pub open spec fn reg_clear(nic: Nic, reg: int, bits: u32) -> Nic {
    nic.after_read(reg).after_write(reg, nic.read_value(reg) & !bits)
}

/// The controller after receiver and transmitter were switched off: the
/// enable bit of RCTL cleared, that of TCTL cleared, and both writes
/// flushed.
pub open spec fn stopped(nic: Nic) -> Nic {
    reg_clear(
        reg_clear(nic, E1000_RCTL as int, E1000_RCTL_EN),
        E1000_TCTL as int,
        E1000_TCTL_EN,
    ).after_read(E1000_STAT as int)
}

/// A controller that was switched off has neither receiver nor transmitter
/// enabled.
pub proof fn lemma_stopped(nic: Nic)
    requires
        nic.wf(),
    ensures
        stopped(nic).wf(),
        stopped(nic).regs[E1000_RCTL as int] & E1000_RCTL_EN == 0,
        stopped(nic).regs[E1000_TCTL as int] & E1000_TCTL_EN == 0,
{
    let r = nic.regs[E1000_RCTL as int];
    let t = nic.regs[E1000_TCTL as int];
    assert((r & !0x2u32) & 0x2u32 == 0) by (bit_vector);
    assert((t & !0x2u32) & 0x2u32 == 0) by (bit_vector);
}

/// The controller after MDIC was read until it showed READY,
/// `PHY_POLL_LIMIT` times at most.
pub open spec fn mdic_polled(nic: Nic) -> Nic {
    if nic.phy_wait.busy {
        if nic.phy_wait.lag < PHY_POLL_LIMIT {
            nic.mdic_waited(nic.phy_wait.lag).after_read(E1000_MDIC as int)
        } else {
            nic.mdic_waited(PHY_POLL_LIMIT as nat)
        }
    } else if spec_mdic_ready(nic.regs[E1000_MDIC as int]) {
        nic.after_read(E1000_MDIC as int)
    } else {
        nic.mdic_waited(PHY_POLL_LIMIT as nat)
    }
}

/// What reading MDIC until it shows READY, `PHY_POLL_LIMIT` times at most,
/// comes to: the value that showed READY, if one did.
pub open spec fn mdic_shown(nic: Nic) -> Option<u32> {
    if nic.phy_wait.busy {
        if nic.phy_wait.lag < PHY_POLL_LIMIT {
            Some(nic.mdic_done())
        } else {
            None
        }
    } else if spec_mdic_ready(nic.regs[E1000_MDIC as int]) {
        Some(nic.regs[E1000_MDIC as int])
    } else {
        None
    }
}

/// The controller after the command `cmd` was handed to MDIC and MDIC was
/// polled; and both once more if MDIC did not show READY the first time.
pub open spec fn mdic_ran(nic: Nic, cmd: u32) -> Nic {
    let once = mdic_polled(nic.after_write(E1000_MDIC as int, cmd));
    if nic.phy_wait.lag < PHY_POLL_LIMIT {
        once
    } else {
        mdic_polled(once.after_write(E1000_MDIC as int, cmd))
    }
}

/// What MDIC shows when the PHY has completed the command `cmd`.
pub open spec fn mdic_answer(nic: Nic, cmd: u32) -> u32 {
    nic.after_write(E1000_MDIC as int, cmd).mdic_done()
}

/// The controller after the command that reads register `reg_addr` of the PHY.
pub open spec fn phy_read(nic: Nic, reg_addr: u32) -> Nic {
    mdic_ran(nic, spec_mdic_read_cmd(reg_addr))
}

/// The controller after the command that writes `data` to register `reg_addr`
/// of the PHY.
pub open spec fn phy_write(nic: Nic, reg_addr: u32, data: u16) -> Nic {
    mdic_ran(nic, spec_mdic_write_cmd(reg_addr, data))
}

/// What a command to the PHY comes to, for every lag of the PHY.
///
/// If the lag is less than two rounds of `PHY_POLL_LIMIT` reads the command
/// is completed: MDIC shows its answer, with READY; the PHY has taken what
/// was written; no lag is left and the PHY is idle. If not, two rounds of
/// reads have passed: the command stands in MDIC without READY, the PHY is
/// busy with it, and its lag is less by the reads. No flag has changed.
pub proof fn lemma_mdic_ran(nic: Nic, cmd: u32)
    requires
        nic.wf(),
    ensures
        mdic_ran(nic, cmd).wf(),
        mdic_ran(nic, cmd).unfenced == nic.unfenced,
        mdic_ran(nic, cmd).unflushed == nic.unflushed,
        mdic_ran(nic, cmd).tail_hazard == nic.tail_hazard,
        spec_mdic_ready(mdic_answer(nic, cmd)),
        nic.phy_answers() ==> {
            &&& mdic_ran(nic, cmd).regs == nic.regs.update(
                E1000_MDIC as int,
                mdic_answer(nic, cmd),
            )
            &&& mdic_ran(nic, cmd).phy == nic.after_write(E1000_MDIC as int, cmd).phy_done()
            &&& mdic_ran(nic, cmd).phy_wait == (PhyWait { lag: 0, busy: false })
        },
        !nic.phy_answers() ==> {
            &&& mdic_ran(nic, cmd).regs == nic.regs.update(
                E1000_MDIC as int,
                cmd & !E1000_MDIC_READY,
            )
            &&& mdic_ran(nic, cmd).phy == nic.phy
            &&& mdic_ran(nic, cmd).phy_wait == (PhyWait {
                lag: (nic.phy_wait.lag - 2 * PHY_POLL_LIMIT) as nat,
                busy: true,
            })
        },
{
    lemma_mdic_reg_bound(cmd & !E1000_MDIC_READY);
    let c = cmd & !E1000_MDIC_READY;
    let p = nic.phy[mdic_reg(c)];
    assert((c | 0x1000_0000u32) & 0x1000_0000u32 != 0) by (bit_vector);
    assert(((c & !0xffffu32) | (p as u32) | 0x1000_0000u32) & 0x1000_0000u32 != 0)
        by (bit_vector);
    assert(c & !0x1000_0000u32 == c) by (bit_vector)
        requires
            c == cmd & !0x1000_0000u32,
    ;
    let first = nic.after_write(E1000_MDIC as int, cmd);
    let once = mdic_polled(first);
    if nic.phy_wait.lag >= PHY_POLL_LIMIT {
        let again = once.after_write(E1000_MDIC as int, cmd);
        assert(again.regs =~= first.regs);
        assert(mdic_ran(nic, cmd).regs =~= if nic.phy_answers() {
            nic.regs.update(E1000_MDIC as int, mdic_answer(nic, cmd))
        } else {
            nic.regs.update(E1000_MDIC as int, c)
        });
    } else {
        assert(mdic_ran(nic, cmd).regs =~= nic.regs.update(
            E1000_MDIC as int,
            mdic_answer(nic, cmd),
        ));
    }
}

/// The controller after register `reg_addr` of the PHY was read and then
/// written with `data`. With a PHY that does not answer the read is as far
/// as it gets.
pub open spec fn phy_update(nic: Nic, reg_addr: u32, data: u16) -> Nic {
    if nic.phy_answers() {
        phy_write(phy_read(nic, reg_addr), reg_addr, data)
    } else {
        phy_read(nic, reg_addr)
    }
}

/// The PHY control register with the speed `speed` forced.
pub open spec fn spec_speed_forced(mii: u16, speed: u16) -> u16 {
    (mii & !BMCR_SPEED10) | speed
}

/// The PHY control register with the speed `speed` forced.
pub fn speed_forced(mii: u16, speed: u16) -> (r: u16)
    ensures
        r == spec_speed_forced(mii, speed),
{
    (mii & !BMCR_SPEED10) | speed
}

/// The PHY control register with the PHY powered up.
pub open spec fn spec_powered_up(mii: u16) -> u16 {
    mii & !MII_CR_POWER_DOWN
}

/// The PHY control register with the PHY powered up.
pub fn powered_up(mii: u16) -> (r: u16)
    ensures
        r == spec_powered_up(mii),
{
    mii & !MII_CR_POWER_DOWN
}

/// The controller after the speed `speed` was forced.
pub open spec fn force_speed(nic: Nic, speed: u16) -> Nic {
    phy_update(nic, PHY_CTRL, spec_speed_forced(nic.phy[PHY_CTRL as int], speed))
}

/// The controller after the PHY was powered up.
pub open spec fn power_up(nic: Nic) -> Nic {
    phy_update(nic, PHY_CTRL, spec_powered_up(nic.phy[PHY_CTRL as int]))
}

/// The low 32 bits of a bus address.
pub open spec fn spec_addr_low(addr: usize) -> u32 {
    ((addr as u64) & 0xffff_ffff) as u32
}

/// The high 32 bits of a bus address.
pub open spec fn spec_addr_high(addr: usize) -> u32 {
    ((addr as u64) >> 32) as u32
}

/// The low 32 bits of a bus address.
pub fn addr_low(addr: usize) -> (r: u32)
    ensures
        r == spec_addr_low(addr),
{
    #[verifier::truncate]
    (((addr as u64) & 0xffff_ffff) as u32)
}

/// The high 32 bits of a bus address.
pub fn addr_high(addr: usize) -> (r: u32)
    ensures
        r == spec_addr_high(addr),
{
    #[verifier::truncate]
    (((addr as u64) >> 32) as u32)
}

/// The hardware after `e1000_irq_disable`: every bit of the interrupt mask
/// cleared, and the write flushed.
pub open spec fn irq_disabled(hw: Hw) -> Hw {
    hw.after_reg_write(E1000_IMC as int, 0xffff_ffff).after_reg_read(E1000_STAT as int)
}

/// The hardware after `e1000_irq_enable`: the bits of `IMS_ENABLE_MASK` set
/// in the interrupt mask, and the write flushed.
pub open spec fn irq_enabled(hw: Hw) -> Hw {
    hw.after_reg_write(E1000_IMS as int, IMS_ENABLE_MASK).after_reg_read(E1000_STAT as int)
}

/// The controller after the regions of `lay` were allocated: the transmit
/// ring, the receive ring, the transmit buffers, the receive buffers.
pub open spec fn regions_taken(nic: Nic, lay: RingLayout) -> Nic {
    let ring_pages = pages_for(lay.ring_bytes()) as usize;
    let pool_pages = pages_for(lay.pool_bytes()) as usize;
    nic.after_alloc(ring_pages, lay.tx_ring).after_alloc(ring_pages, lay.rx_ring).after_alloc(
        pool_pages,
        lay.tx_pool,
    ).after_alloc(pool_pages, lay.rx_pool)
}

/// The controller after the regions of `lay` were given back, in the reverse
/// order of their allocation.
pub open spec fn regions_given(nic: Nic, lay: RingLayout) -> Nic {
    nic.after_free(lay.rx_pool).after_free(lay.tx_pool).after_free(lay.rx_ring).after_free(
        lay.tx_ring,
    )
}

/// The controller after the first `k` transmit descriptors of a new ring were
/// written, one after the other.
pub open spec fn tx_ring_filled(nic: Nic, lay: RingLayout, k: nat) -> Nic
    decreases k,
{
    if k == 0 {
        nic
    } else {
        tx_ring_filled(nic, lay, (k - 1) as nat).after_dma_write(
            lay.tx_ring,
            (k - 1) * DESC_SIZE,
            tx_fresh(lay, k - 1).encode(),
        )
    }
}

/// The controller after the first `k` receive descriptors of a new ring were
/// written, one after the other.
pub open spec fn rx_ring_filled(nic: Nic, lay: RingLayout, k: nat) -> Nic
    decreases k,
{
    if k == 0 {
        nic
    } else {
        rx_ring_filled(nic, lay, (k - 1) as nat).after_dma_write(
            lay.rx_ring,
            (k - 1) * DESC_SIZE,
            rx_fresh(lay, k - 1).encode(),
        )
    }
}

/// The controller after the rings of a new device were made: both rings
/// cleared, every transmit descriptor written, every receive descriptor
/// written, and a write barrier.
#[verifier::opaque]
pub open spec fn rings_made(nic: Nic, lay: RingLayout) -> Nic {
    let cleared = nic.after_dma_write(lay.tx_ring, 0, zeros(lay.ring_bytes())).after_dma_write(
        lay.rx_ring,
        0,
        zeros(lay.ring_bytes()),
    );
    rx_ring_filled(
        tx_ring_filled(cleared, lay, lay.ring_size as nat),
        lay,
        lay.ring_size as nat,
    ).after_fence_w()
}

/// Writing descriptors touches no register, and leaves the writes unfenced
/// and unflushed.
pub proof fn lemma_ring_filled(nic: Nic, lay: RingLayout, k: nat)
    ensures
        tx_ring_filled(nic, lay, k).regs == nic.regs,
        tx_ring_filled(nic, lay, k).phy == nic.phy,
        tx_ring_filled(nic, lay, k).phy_wait == nic.phy_wait,
        tx_ring_filled(nic, lay, k).tail_hazard == nic.tail_hazard,
        k > 0 ==> tx_ring_filled(nic, lay, k).unfenced && tx_ring_filled(nic, lay, k).unflushed,
        rx_ring_filled(nic, lay, k).regs == nic.regs,
        rx_ring_filled(nic, lay, k).phy == nic.phy,
        rx_ring_filled(nic, lay, k).phy_wait == nic.phy_wait,
        rx_ring_filled(nic, lay, k).tail_hazard == nic.tail_hazard,
        k > 0 ==> rx_ring_filled(nic, lay, k).unfenced && rx_ring_filled(nic, lay, k).unflushed,
    decreases k,
{
    if k > 0 {
        lemma_ring_filled(nic, lay, (k - 1) as nat);
    }
}

/// Making the rings touches no register; it leaves the writes fenced, but
/// not flushed.
pub proof fn lemma_rings_made(nic: Nic, lay: RingLayout)
    ensures
        rings_made(nic, lay).regs == nic.regs,
        rings_made(nic, lay).phy == nic.phy,
        rings_made(nic, lay).phy_wait == nic.phy_wait,
        rings_made(nic, lay).tail_hazard == nic.tail_hazard,
        !rings_made(nic, lay).unfenced,
        rings_made(nic, lay).unflushed,
{
    reveal(rings_made);
    let cleared = nic.after_dma_write(lay.tx_ring, 0, zeros(lay.ring_bytes())).after_dma_write(
        lay.rx_ring,
        0,
        zeros(lay.ring_bytes()),
    );
    lemma_ring_filled(cleared, lay, lay.ring_size as nat);
    let filled = tx_ring_filled(cleared, lay, lay.ring_size as nat);
    lemma_ring_filled(filled, lay, lay.ring_size as nat);
}

/// Interrupts masked, the device reset, the PHY reset, automatic speed
/// detection on, the link set up.
pub open spec fn init_reset(nic: Nic) -> Nic {
    let ctl = E1000_CTL as int;
    let nic = nic.after_write(E1000_IMS as int, 0);
    let nic = reg_set(nic, ctl, E1000_CTL_RST);
    let nic = nic.after_write(E1000_IMS as int, 0);
    let nic = reg_set(nic, ctl, E1000_CTL_PHY_RST);
    let nic = reg_set(nic, ctl, E1000_CTL_ASDE);
    reg_set(nic, ctl, E1000_CTL_SLU)
}

/// The transmitter configured and given its ring.
pub open spec fn init_tx(nic: Nic, lay: RingLayout) -> Nic {
    let nic = nic.after_write(E1000_TCTL as int, E1000_TCTL_INIT);
    let nic = nic.after_write(E1000_TIPG as int, E1000_TIPG_INIT);
    let nic = nic.after_write(E1000_TDBAL as int, spec_addr_low(lay.tx_ring_dma));
    let nic = nic.after_write(E1000_TDBAH as int, spec_addr_high(lay.tx_ring_dma));
    let nic = nic.after_write(E1000_TDLEN as int, (lay.ring_size * DESC_SIZE) as u32);
    let nic = nic.after_write(E1000_TDT as int, 0);
    let nic = nic.after_write(E1000_TDH as int, 0);
    let nic = nic.after_write(E1000_TXDCTL0 as int, E1000_TXDCTL_FULL_TX_DESC_WB);
    nic.after_write(E1000_TXDCTL1 as int, E1000_TXDCTL_FULL_TX_DESC_WB)
}

/// The receiver configured and given its ring, all of which the controller
/// owns.
pub open spec fn init_rx(nic: Nic, lay: RingLayout) -> Nic {
    let nic = nic.after_write(E1000_RCTL as int, E1000_RCTL_INIT);
    let nic = nic.after_write(E1000_RFCTL as int, 0);
    let nic = nic.after_write(E1000_RDBAL as int, spec_addr_low(lay.rx_ring_dma));
    let nic = nic.after_write(E1000_RDBAH as int, spec_addr_high(lay.rx_ring_dma));
    let nic = nic.after_write(E1000_RDLEN as int, (lay.ring_size * DESC_SIZE) as u32);
    let nic = nic.after_write(E1000_RDH as int, 0);
    nic.after_write(E1000_RDT as int, (lay.ring_size - 1) as u32)
}

/// The first `k` words of the multicast table cleared.
pub open spec fn clear_mta(nic: Nic, k: nat) -> Nic
    decreases k,
{
    if k == 0 {
        nic
    } else {
        clear_mta(nic, (k - 1) as nat).after_write(E1000_MTA + k - 1, 0)
    }
}

/// No interrupt throttling, the receiver timer and link status changes
/// enabled, pending causes cleared, relaxed ordering off.
pub open spec fn init_irq(nic: Nic) -> Nic {
    let nic = nic.after_write(E1000_TIDV as int, 0);
    let nic = nic.after_write(E1000_TADV as int, 0);
    let nic = nic.after_write(E1000_RDTR as int, 0);
    let nic = nic.after_write(E1000_RADV as int, 0);
    let nic = nic.after_write(E1000_ITR as int, 0);
    let nic = nic.after_write(E1000_IMS as int, IMS_ENABLE_MASK);
    let nic = nic.after_read(E1000_ICR as int);
    reg_set(nic, E1000_CTRL_EXT as int, E1000_CTRL_EXT_RO_DIS)
}

/// The controller after every step of the initialization that programs a
/// register, in their order: the reset, the write barrier, the transmitter,
/// the receiver, the multicast table, the interrupts.
#[verifier::opaque]
pub open spec fn init_regs(nic: Nic, lay: RingLayout) -> Nic {
    init_irq(
        clear_mta(
            init_rx(init_tx(init_reset(nic).after_fence_w(), lay), lay),
            E1000_MTA_WORDS as nat,
        ),
    )
}

/// The controller after the initialization: its registers programmed, the
/// PHY forced to 100 Mb/s and powered up, and all of it flushed. With a PHY
/// that does not answer the initialization ends when the speed is to be
/// forced.
pub open spec fn init_nic(nic: Nic, lay: RingLayout) -> Nic {
    let forced = force_speed(init_regs(nic, lay), BMCR_SPEED100);
    if nic.phy_answers() {
        power_up(forced).after_read(E1000_STAT as int)
    } else {
        forced
    }
}

/// The hardware after the initialization.
pub open spec fn init_hw(hw: Hw, lay: RingLayout) -> Hw {
    Hw { nic: init_nic(hw.nic, lay), ..hw }
}

/// What reading and writing a register of the PHY come to, for every lag of
/// the PHY.
///
/// If the PHY answers, a read shows the data of the register in MDIC and
/// leaves the PHY as it was, and a write puts its data into the register;
/// either leaves no lag and the PHY idle. If it does not, the registers of
/// the PHY are as before, and the PHY is busy with a lag that is less by two
/// rounds of reads.
pub proof fn lemma_phy_commands(nic: Nic, reg_addr: u32, data: u16)
    requires
        nic.wf(),
    ensures
        phy_read(nic, reg_addr).wf(),
        phy_write(nic, reg_addr, data).wf(),
        phy_read(nic, reg_addr).phy == nic.phy,
        0 <= phy_index(reg_addr) < E1000_PHY_REGS,
        spec_mdic_ready(mdic_answer(nic, spec_mdic_read_cmd(reg_addr))),
        spec_mdic_ready(mdic_answer(nic, spec_mdic_write_cmd(reg_addr, data))),
        spec_mdic_data(mdic_answer(nic, spec_mdic_read_cmd(reg_addr))) == nic.phy[phy_index(
            reg_addr,
        )],
        nic.phy_answers() ==> {
            &&& phy_read(nic, reg_addr).phy_wait == (PhyWait { lag: 0, busy: false })
            &&& phy_write(nic, reg_addr, data).phy_wait == (PhyWait { lag: 0, busy: false })
            &&& phy_write(nic, reg_addr, data).phy == nic.phy.update(phy_index(reg_addr), data)
            &&& phy_read(nic, reg_addr).regs[E1000_MDIC as int] == mdic_answer(
                nic,
                spec_mdic_read_cmd(reg_addr),
            )
        },
        !nic.phy_answers() ==> {
            &&& phy_write(nic, reg_addr, data).phy == nic.phy
            &&& !phy_read(nic, reg_addr).phy_answers() || phy_read(nic, reg_addr).phy_wait.busy
        },
        phy_read(nic, reg_addr).unfenced == nic.unfenced,
        phy_read(nic, reg_addr).unflushed == nic.unflushed,
        phy_read(nic, reg_addr).tail_hazard == nic.tail_hazard,
        phy_write(nic, reg_addr, data).unfenced == nic.unfenced,
        phy_write(nic, reg_addr, data).unflushed == nic.unflushed,
        phy_write(nic, reg_addr, data).tail_hazard == nic.tail_hazard,
{
    let rc = spec_mdic_read_cmd(reg_addr);
    let wc = spec_mdic_write_cmd(reg_addr, data);
    let p = nic.phy[phy_index(reg_addr)];
    lemma_mdic_ran(nic, rc);
    lemma_mdic_ran(nic, wc);
    assert((((((reg_addr << 16u32) & 0x001f_0000u32) | 0x0020_0000u32 | 0x0800_0000u32)
        & !0x1000_0000u32) & 0x001f_0000u32) >> 16u32 == reg_addr % 32) by (bit_vector);
    assert((((((reg_addr << 16u32) & 0x001f_0000u32) | 0x0020_0000u32 | 0x0800_0000u32)
        & !0x1000_0000u32) & 0x0c00_0000u32) == 0x0800_0000u32) by (bit_vector);
    assert(((((data as u32) | ((reg_addr << 16u32) & 0x001f_0000u32) | 0x0020_0000u32
        | 0x0400_0000u32) & !0x1000_0000u32) & 0x001f_0000u32) >> 16u32 == reg_addr % 32)
        by (bit_vector);
    assert(((((data as u32) | ((reg_addr << 16u32) & 0x001f_0000u32) | 0x0020_0000u32
        | 0x0400_0000u32) & !0x1000_0000u32) & 0x0c00_0000u32) == 0x0400_0000u32)
        by (bit_vector);
    assert(((((data as u32) | ((reg_addr << 16u32) & 0x001f_0000u32) | 0x0020_0000u32
        | 0x0400_0000u32) & !0x1000_0000u32) & 0xffffu32) as u16 == data) by (bit_vector);
    let c = rc & !E1000_MDIC_READY;
    assert((((c & !0xffffu32) | (p as u32) | 0x1000_0000u32) & 0xffffu32) as u16 == p)
        by (bit_vector);
}

/// Clearing the multicast table touches its words and nothing else.
pub proof fn lemma_clear_mta(nic: Nic, k: nat)
    requires
        nic.wf(),
        k <= E1000_MTA_WORDS,
    ensures
        clear_mta(nic, k).wf(),
        clear_mta(nic, k).phy == nic.phy,
        clear_mta(nic, k).phy_wait == nic.phy_wait,
        clear_mta(nic, k).unfenced == nic.unfenced,
        clear_mta(nic, k).unflushed == nic.unflushed,
        clear_mta(nic, k).tail_hazard == nic.tail_hazard,
        forall|r: int|
            0 <= r < E1000_REG_WORDS ==> #[trigger] clear_mta(nic, k).regs[r] == if E1000_MTA <= r
                < E1000_MTA + k {
                0
            } else {
                nic.regs[r]
            },
    decreases k,
{
    if k > 0 {
        lemma_clear_mta(nic, (k - 1) as nat);
    }
}

/// Programming the registers leaves the PHY as it was.
pub proof fn lemma_init_regs_keep_phy(nic: Nic, lay: RingLayout)
    requires
        nic.wf(),
    ensures
        init_regs(nic, lay).wf(),
        init_regs(nic, lay).phy == nic.phy,
        init_regs(nic, lay).phy_wait == nic.phy_wait,
{
    reveal(init_regs);
    let a = init_rx(init_tx(init_reset(nic).after_fence_w(), lay), lay);
    lemma_clear_mta(a, E1000_MTA_WORDS as nat);
}

/// `out` is a controller whose registers were programmed from `nic` for the
/// rings of `lay`: the rings placed and empty, transmitter and receiver
/// configured, the multicast table and the pending causes clear; PHY and
/// flags as in `nic`, but that nothing is unfenced.
pub open spec fn programmed_as(nic: Nic, lay: RingLayout, out: Nic) -> bool {
    &&& out.wf()
    &&& out.phy == nic.phy
    &&& out.phy_wait == nic.phy_wait
    &&& !out.unfenced
    &&& out.unflushed == nic.unflushed
    &&& out.tail_hazard == nic.tail_hazard
    &&& out.regs[E1000_TDH as int] == 0
    &&& out.regs[E1000_TDT as int] == 0
    &&& out.regs[E1000_RDH as int] == 0
    &&& out.regs[E1000_RDT as int] == lay.ring_size - 1
    &&& out.regs[E1000_TDBAL as int] == spec_addr_low(lay.tx_ring_dma)
    &&& out.regs[E1000_TDBAH as int] == spec_addr_high(lay.tx_ring_dma)
    &&& out.regs[E1000_TDLEN as int] == lay.ring_size * DESC_SIZE
    &&& out.regs[E1000_RDBAL as int] == spec_addr_low(lay.rx_ring_dma)
    &&& out.regs[E1000_RDBAH as int] == spec_addr_high(lay.rx_ring_dma)
    &&& out.regs[E1000_RDLEN as int] == lay.ring_size * DESC_SIZE
    &&& out.regs[E1000_TCTL as int] == E1000_TCTL_INIT
    &&& out.regs[E1000_RCTL as int] == E1000_RCTL_INIT
    &&& out.regs[E1000_ICR as int] == 0
    &&& out.regs[E1000_IMS as int] == nic.regs[E1000_IMS as int] | IMS_ENABLE_MASK
    &&& forall|i: int| 0 <= i < E1000_MTA_WORDS ==> #[trigger] out.regs[E1000_MTA + i] == 0
}

/// Programming the registers does what `programmed_as` says.
pub proof fn lemma_programmed(nic: Nic, lay: RingLayout)
    requires
        nic.wf(),
        lay.wf(),
    ensures
        programmed_as(nic, lay, init_regs(nic, lay)),
{
    reveal(init_regs);
    let a = init_rx(init_tx(init_reset(nic).after_fence_w(), lay), lay);
    lemma_clear_mta(a, E1000_MTA_WORDS as nat);
    let m = nic.regs[E1000_IMS as int];
    assert((m | 0u32) | 0u32 == m) by (bit_vector);
}

/// Reading a register of the PHY and writing it back touches no register of
/// the controller but MDIC, and no flag; a PHY that answered it answers the
/// next command at once.
pub proof fn lemma_phy_update(nic: Nic, reg_addr: u32, data: u16)
    requires
        nic.wf(),
    ensures
        phy_update(nic, reg_addr, data).wf(),
        phy_update(nic, reg_addr, data).unfenced == nic.unfenced,
        phy_update(nic, reg_addr, data).unflushed == nic.unflushed,
        phy_update(nic, reg_addr, data).tail_hazard == nic.tail_hazard,
        nic.phy_answers() ==> phy_update(nic, reg_addr, data).phy_wait == (PhyWait {
            lag: 0,
            busy: false,
        }),
        forall|r: int|
            0 <= r < E1000_REG_WORDS && r != E1000_MDIC ==> #[trigger] phy_update(
                nic,
                reg_addr,
                data,
            ).regs[r] == nic.regs[r],
{
    lemma_mdic_ran(nic, spec_mdic_read_cmd(reg_addr));
    lemma_mdic_ran(phy_read(nic, reg_addr), spec_mdic_write_cmd(reg_addr, data));
}

/// What the initialization leaves in the registers: the rings placed, with
/// both transmit cursors at zero, the receive head at zero and the receive
/// tail on the last slot, so that the controller owns the whole receive ring;
/// transmitter and receiver configured; the multicast table and the pending
/// causes clear. Nothing is left unfenced, and no tail is written ahead of
/// the barrier; with a PHY that answers nothing is left unflushed either.
pub proof fn lemma_init_regs(nic: Nic, lay: RingLayout)
    requires
        nic.wf(),
        lay.wf(),
    ensures
        init_nic(nic, lay).wf(),
        !init_nic(nic, lay).unfenced,
        nic.phy_answers() ==> !init_nic(nic, lay).unflushed,
        init_nic(nic, lay).tail_hazard == nic.tail_hazard,
        init_nic(nic, lay).regs[E1000_TDH as int] == 0,
        init_nic(nic, lay).regs[E1000_TDT as int] == 0,
        init_nic(nic, lay).regs[E1000_RDH as int] == 0,
        init_nic(nic, lay).regs[E1000_RDT as int] == lay.ring_size - 1,
        init_nic(nic, lay).regs[E1000_TDBAL as int] == spec_addr_low(lay.tx_ring_dma),
        init_nic(nic, lay).regs[E1000_TDBAH as int] == spec_addr_high(lay.tx_ring_dma),
        init_nic(nic, lay).regs[E1000_TDLEN as int] == lay.ring_size * DESC_SIZE,
        init_nic(nic, lay).regs[E1000_RDBAL as int] == spec_addr_low(lay.rx_ring_dma),
        init_nic(nic, lay).regs[E1000_RDBAH as int] == spec_addr_high(lay.rx_ring_dma),
        init_nic(nic, lay).regs[E1000_RDLEN as int] == lay.ring_size * DESC_SIZE,
        init_nic(nic, lay).regs[E1000_TCTL as int] == E1000_TCTL_INIT,
        init_nic(nic, lay).regs[E1000_RCTL as int] == E1000_RCTL_INIT,
        init_nic(nic, lay).regs[E1000_ICR as int] == 0,
        init_nic(nic, lay).regs[E1000_IMS as int] == nic.regs[E1000_IMS as int] | IMS_ENABLE_MASK,
        forall|i: int|
            0 <= i < E1000_MTA_WORDS ==> #[trigger] init_nic(nic, lay).regs[E1000_MTA + i] == 0,
{
    lemma_programmed(nic, lay);
    let c = init_regs(nic, lay);
    lemma_phy_update(c, PHY_CTRL, spec_speed_forced(c.phy[PHY_CTRL as int], BMCR_SPEED100));
    let d = force_speed(c, BMCR_SPEED100);
    lemma_phy_update(d, PHY_CTRL, spec_powered_up(d.phy[PHY_CTRL as int]));
}

} // verus!
