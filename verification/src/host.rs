//! The seam between the engine and the networking of the host.
//!
//! The host owns the interrupt line, the polling context and the transmit
//! queue. What it does with them, and when, is decided here: [`plan`] gives
//! the steps of every change of state in their order, and [`E1000Driver`]
//! takes the steps that are the controller's, dispatches interrupts, and
//! counts what goes through.

use vstd::prelude::*;
use crate::e1000::E1000Device;
use crate::e1000::E1000Error;
use crate::e1000::TX_RING_SIZE;
use crate::e1000_const::E1000_ICR;
use crate::e1000_const::E1000_ICR_LSC;
use crate::e1000_const::E1000_ICR_RXT0;
use crate::e1000_const::E1000_ICS;
use crate::e1000_const::E1000_RCTL;
use crate::e1000_const::E1000_RCTL_EN;
use crate::e1000_const::E1000_RDT;
use crate::e1000_const::E1000_TCTL;
use crate::e1000_const::E1000_TCTL_EN;
use crate::e1000_const::E1000_TDT;
use crate::hw::Hw;
use crate::kernel::KernelFunc;
use crate::setup::built;
use crate::steps::irq_disabled;
use crate::steps::irq_enabled;
use crate::steps::regions_given;
use crate::steps::stopped;
use crate::xfer::after_recv;
use crate::xfer::after_transmit;
use crate::xfer::contents;
use crate::xfer::recv_frames;
use crate::xfer::rx_first;

verus! {

/// Where a driver is in its life.
#[derive(Clone, Copy, Debug, PartialEq, Eq, Structural)]
pub enum DriverState {
    /// No device has been made.
    Uninitialized,
    /// The device is made and initialized.
    Initialized,
    /// The interface is up: frames are sent and received.
    Running,
    /// The interface is down.
    Paused,
    /// The driver is unloaded.
    TornDown,
}

/// What the host asks of the driver.
#[derive(Clone, Copy, Debug, PartialEq, Eq, Structural)]
pub enum HostEvent {
    /// Make the device.
    New,
    /// Bring the interface up.
    Open,
    /// Bring the interface down.
    Stop,
    /// Unload the driver.
    Unload,
}

/// One step of a change of state. The steps on the controller are taken by
/// `E1000Driver::perform`; all others are the host's to take.
#[derive(Clone, Copy, Debug, PartialEq, Eq, Structural)]
pub enum Step {
    /// Make the device: allocate its rings and initialize the controller.
    CreateDevice,
    /// Register the interrupt handler.
    RequestIrq,
    /// Enable deferred polling.
    EnableNapi,
    /// Let the stack hand frames over.
    StartQueue,
    /// On the controller: enable the interrupts of the engine.
    EnableInterrupts,
    /// On the controller: fire a link status change interrupt, which starts
    /// the watchdog.
    CauseLinkInterrupt,
    /// Tell the stack that the link is up.
    CarrierOn,
    /// Tell the stack that the link is down.
    CarrierOff,
    /// On the controller: mask every interrupt.
    DisableInterrupts,
    /// Unregister the interrupt handler.
    FreeIrq,
    /// Disable deferred polling.
    DisableNapi,
    /// Keep the stack from handing frames over.
    StopQueue,
    /// Give the DMA memory back.
    ReleaseDma,
}

/// What an interrupt handler tells the host.
#[derive(Clone, Copy, Debug, PartialEq, Eq, Structural)]
pub enum IrqReturn {
    /// The interrupt was not from this device.
    NotHandled,
    /// The interrupt was handled; polling is to be scheduled.
    Handled,
}

/// What the transmit hook tells the stack.
#[derive(Clone, Copy, Debug, PartialEq, Eq, Structural)]
pub enum NetdevTx {
    /// The frame was taken.
    Accepted,
    /// The frame was not taken; the stack is to try again.
    Busy,
}

/// Counters of what went through the interface. Each wraps round at 64 bits.
#[derive(Clone, Copy, Debug, PartialEq, Eq, Structural)]
pub struct Stats64 {
    pub rx_bytes: u64,
    pub rx_packets: u64,
    pub tx_bytes: u64,
    pub tx_packets: u64,
}

/// The state that `event` leads to from `state`, if it is allowed there.
pub open spec fn spec_next_state(state: DriverState, event: HostEvent) -> Option<DriverState> {
    match (state, event) {
        (DriverState::Uninitialized, HostEvent::New) => Some(DriverState::Initialized),
        (DriverState::Initialized, HostEvent::Open) => Some(DriverState::Running),
        (DriverState::Paused, HostEvent::Open) => Some(DriverState::Running),
        (DriverState::Running, HostEvent::Stop) => Some(DriverState::Paused),
        (DriverState::Paused, HostEvent::Unload) => Some(DriverState::TornDown),
        _ => None,
    }
}

/// The steps that `event` takes, in their order.
pub open spec fn spec_steps(event: HostEvent) -> Seq<Step> {
    match event {
        HostEvent::New => seq![Step::CreateDevice],
        HostEvent::Open => seq![
            Step::RequestIrq,
            Step::EnableNapi,
            Step::StartQueue,
            Step::EnableInterrupts,
            Step::CauseLinkInterrupt,
            Step::CarrierOn,
        ],
        HostEvent::Stop => seq![
            Step::CarrierOff,
            Step::DisableInterrupts,
            Step::FreeIrq,
            Step::DisableNapi,
            Step::StopQueue,
        ],
        HostEvent::Unload => seq![Step::ReleaseDma],
    }
}

/// Frames may be sent and received in `state`.
pub open spec fn spec_may_transfer(state: DriverState) -> bool {
    state == DriverState::Running
}

/// The hardware after step `step`: the steps on the controller change it, the
/// host's leave it alone.
pub open spec fn after_step(hw: Hw, step: Step) -> Hw {
    match step {
        Step::EnableInterrupts => irq_enabled(hw),
        Step::CauseLinkInterrupt => hw.after_reg_write(E1000_ICS as int, E1000_ICR_LSC),
        Step::DisableInterrupts => irq_disabled(hw),
        _ => hw,
    }
}

/// Step `step` is taken on the controller.
pub open spec fn on_controller(step: Step) -> bool {
    step == Step::EnableInterrupts || step == Step::CauseLinkInterrupt || step
        == Step::DisableInterrupts
}

/// What the pending causes `icr` make of an interrupt: it is this device's if
/// the receiver timer is among them.
pub open spec fn spec_irq_return(icr: u32) -> IrqReturn {
    if icr & E1000_ICR_RXT0 != 0 {
        IrqReturn::Handled
    } else {
        IrqReturn::NotHandled
    }
}

/// What the outcome of a transmission tells the stack: the frame was taken,
/// cut or not, unless the transmission failed.
pub open spec fn spec_xmit_status(
    sent: Result<(usize, Option<E1000Error>), E1000Error>,
) -> NetdevTx {
    match sent {
        Ok(_) => NetdevTx::Accepted,
        Err(_) => NetdevTx::Busy,
    }
}

/// Number of bytes in `frames`.
pub open spec fn total_len(frames: Seq<Seq<u8>>) -> nat
    decreases frames.len(),
{
    if frames.len() == 0 {
        0
    } else {
        total_len(frames.drop_last()) + frames.last().len()
    }
}

/// `x` as a 64-bit counter shows it.
pub open spec fn wrap64(x: int) -> u64 {
    (x % 0x1_0000_0000_0000_0000) as u64
}

/// Work done by a poll that received `frames` frames with a budget of
/// `budget`: the number of frames, but not more than the budget, and none
/// with a budget below one.
pub open spec fn spec_work_done(frames: int, budget: i32) -> i32 {
    if budget <= 0 {
        0
    } else if frames > budget {
        budget
    } else {
        frames as i32
    }
}

/// The state that `event` leads to from `state` and the steps to take, in
/// their order; `None` where `state` does not allow the event.
pub fn plan(state: DriverState, event: HostEvent) -> (r: Option<(DriverState, Vec<Step>)>)
    ensures
        match r {
            Some((next, steps)) => spec_next_state(state, event) == Some(next) && steps@
                == spec_steps(event),
            None => spec_next_state(state, event).is_none(),
        },
{
    let next = match (state, event) {
        (DriverState::Uninitialized, HostEvent::New) => DriverState::Initialized,
        (DriverState::Initialized, HostEvent::Open) => DriverState::Running,
        (DriverState::Paused, HostEvent::Open) => DriverState::Running,
        (DriverState::Running, HostEvent::Stop) => DriverState::Paused,
        (DriverState::Paused, HostEvent::Unload) => DriverState::TornDown,
        _ => {
            return None;
        },
    };
    let steps = match event {
        HostEvent::New => vec![Step::CreateDevice],
        HostEvent::Open => vec![
            Step::RequestIrq,
            Step::EnableNapi,
            Step::StartQueue,
            Step::EnableInterrupts,
            Step::CauseLinkInterrupt,
            Step::CarrierOn,
        ],
        HostEvent::Stop => vec![
            Step::CarrierOff,
            Step::DisableInterrupts,
            Step::FreeIrq,
            Step::DisableNapi,
            Step::StopQueue,
        ],
        HostEvent::Unload => vec![Step::ReleaseDma],
    };
    Some((next, steps))
}

/// Frames may be sent and received in `state`: only while the interface is
/// up.
pub fn may_transfer(state: DriverState) -> (b: bool)
    ensures
        b == spec_may_transfer(state),
{
    match state {
        DriverState::Running => true,
        _ => false,
    }
}

/// What the pending causes `icr` make of an interrupt.
pub fn irq_return(icr: u32) -> (r: IrqReturn)
    ensures
        r == spec_irq_return(icr),
{
    if icr & E1000_ICR_RXT0 != 0 {
        IrqReturn::Handled
    } else {
        IrqReturn::NotHandled
    }
}

/// What the outcome of a transmission tells the stack.
pub fn xmit_status(sent: Result<(usize, Option<E1000Error>), E1000Error>) -> (r: NetdevTx)
    ensures
        r == spec_xmit_status(sent),
{
    match sent {
        Ok(_) => NetdevTx::Accepted,
        Err(_) => NetdevTx::Busy,
    }
}

/// Number of bytes in `frames`, as a 64-bit counter shows it.
pub fn rx_bytes(frames: &Vec<Vec<u8>>) -> (bytes: u64)
    ensures
        bytes == wrap64(total_len(contents(frames@)) as int),
{
    let mut bytes: u64 = 0;
    let mut i: usize = 0;
    while i < frames.len()
        invariant
            i <= frames@.len(),
            bytes == wrap64(total_len(contents(frames@).take(i as int)) as int),
        decreases frames@.len() - i,
    {
        let len = frames[i].len() as u64;
        proof {
            let all = contents(frames@);
            let upto = all.take(i as int);
            let more = all.take(i + 1);
            assert(more.drop_last() =~= upto);
            let a = total_len(upto) as int;
        }
        bytes = bytes.wrapping_add(len);
        i = i + 1;
    }
    assert(contents(frames@).take(frames@.len() as int) =~= contents(frames@));
    bytes
}

/// Work done by a poll that received `frames` frames with a budget of
/// `budget`.
pub fn work_done(frames: usize, budget: i32) -> (done: i32)
    ensures
        done == spec_work_done(frames as int, budget),
{
    if budget <= 0 {
        0
    } else if frames > budget as usize {
        budget
    } else {
        frames as i32
    }
}

impl Stats64 {
    /// Counters at zero.
    pub fn new() -> (s: Stats64)
        ensures
            s == (Stats64 { rx_bytes: 0, rx_packets: 0, tx_bytes: 0, tx_packets: 0 }),
    {
        Stats64 { rx_bytes: 0, rx_packets: 0, tx_bytes: 0, tx_packets: 0 }
    }

    /// The counters after `packets` frames of `bytes` bytes in all were
    /// received.
    pub open spec fn with_rx(self, packets: u64, bytes: u64) -> Stats64 {
        Stats64 {
            rx_bytes: vstd::wrapping::u64_specs::wrapping_add(self.rx_bytes, bytes),
            rx_packets: vstd::wrapping::u64_specs::wrapping_add(self.rx_packets, packets),
            ..self
        }
    }

    /// The counters after `packets` frames of `bytes` bytes in all were sent.
    pub open spec fn with_tx(self, packets: u64, bytes: u64) -> Stats64 {
        Stats64 {
            tx_bytes: vstd::wrapping::u64_specs::wrapping_add(self.tx_bytes, bytes),
            tx_packets: vstd::wrapping::u64_specs::wrapping_add(self.tx_packets, packets),
            ..self
        }
    }

    /// Counts `packets` received frames of `bytes` bytes in all.
    pub fn add_rx(&mut self, packets: u64, bytes: u64)
        ensures
            *final(self) == old(self).with_rx(packets, bytes),
    {
        self.rx_bytes = self.rx_bytes.wrapping_add(bytes);
        self.rx_packets = self.rx_packets.wrapping_add(packets);
    }

    /// Counts `packets` sent frames of `bytes` bytes in all.
    pub fn add_tx(&mut self, packets: u64, bytes: u64)
        ensures
            *final(self) == old(self).with_tx(packets, bytes),
    {
        self.tx_bytes = self.tx_bytes.wrapping_add(bytes);
        self.tx_packets = self.tx_packets.wrapping_add(packets);
    }
}

/// A device with its place in the life of the driver and its counters.
pub struct E1000Driver<K: KernelFunc> {
    pub(crate) dev: E1000Device<K>,
    pub(crate) state: DriverState,
    pub(crate) stats: Stats64,
}

impl<K: KernelFunc> E1000Driver<K> {
    /// The device.
    pub closed spec fn device(&self) -> E1000Device<K> {
        self.dev
    }

    /// Where the driver is in its life.
    pub closed spec fn state(&self) -> DriverState {
        self.state
    }

    /// The counters.
    pub closed spec fn stats(&self) -> Stats64 {
        self.stats
    }

    /// The device is attached.
    pub open spec fn wf(&self) -> bool {
        self.device().wf()
    }

    /// Both tails of the device are in their rings.
    pub open spec fn cursors_ok(&self) -> bool {
        self.device().cursors_ok()
    }

    /// What the driver is made of, for the rest of the crate.
    pub(crate) proof fn lemma_parts(&self)
        ensures
            self.device() == self.dev,
            self.state() == self.state,
            self.stats() == self.stats,
    {
    }

    /// Makes the device, as `E1000Device::new` does, and with it a driver
    /// that is initialized and has counted nothing.
    pub fn new(kfn: K, mapped_regs: usize) -> (r: Result<E1000Driver<K>, E1000Error>)
        requires
            kfn.hw().wf(),
            mapped_regs == kfn.hw().mmio_base,
        ensures
            match r {
                Ok(driver) => {
                    &&& built(
                        kfn.hw(),
                        mapped_regs,
                        TX_RING_SIZE as int,
                        Ok::<E1000Device<K>, E1000Error>(driver.device()),
                    )
                    &&& driver.wf()
                    &&& driver.cursors_ok()
                    &&& driver.state() == DriverState::Initialized
                    &&& driver.stats() == (Stats64 {
                        rx_bytes: 0,
                        rx_packets: 0,
                        tx_bytes: 0,
                        tx_packets: 0,
                    })
                },
                Err(e) => built(
                    kfn.hw(),
                    mapped_regs,
                    TX_RING_SIZE as int,
                    Err::<E1000Device<K>, E1000Error>(e),
                ),
            },
    {
        match E1000Device::new(kfn, mapped_regs) {
            Ok(dev) => Ok(
                E1000Driver { dev, state: DriverState::Initialized, stats: Stats64::new() },
            ),
            Err(e) => Err(e),
        }
    }

    /// Takes `event`: moves to the state that it leads to and returns the
    /// steps to take, in their order. Returns `None`, and stays where it is,
    /// if the state does not allow the event.
    pub fn on_event(&mut self, event: HostEvent) -> (steps: Option<Vec<Step>>)
        ensures
            final(self).device() == old(self).device(),
            final(self).stats() == old(self).stats(),
            match steps {
                Some(steps) => spec_next_state(old(self).state(), event) == Some(
                    final(self).state(),
                ) && steps@ == spec_steps(event),
                None => {
                    &&& spec_next_state(old(self).state(), event).is_none()
                    &&& final(self).state() == old(self).state()
                },
            },
    {
        match plan(self.state, event) {
            Some((next, steps)) => {
                self.state = next;
                Some(steps)
            },
            None => None,
        }
    }

    /// Takes step `step` if it is one on the controller, and says whether it
    /// was.
    pub fn perform(&mut self, step: Step) -> (taken: bool)
        requires
            old(self).wf(),
        ensures
            final(self).wf(),
            final(self).cursors_ok() == old(self).cursors_ok(),
            final(self).device()@ == old(self).device()@,
            final(self).state() == old(self).state(),
            final(self).stats() == old(self).stats(),
            final(self).device().hw() == after_step(old(self).device().hw(), step),
            taken == on_controller(step),
    {
        match step {
            Step::EnableInterrupts => {
                self.dev.e1000_irq_enable();
                true
            },
            Step::CauseLinkInterrupt => {
                self.dev.e1000_cause_lsc_int();
                true
            },
            Step::DisableInterrupts => {
                self.dev.e1000_irq_disable();
                true
            },
            _ => false,
        }
    }

    /// Handles an interrupt: reads the pending causes, which clears them, and
    /// says whether polling is to be scheduled.
    pub fn handle_irq(&mut self) -> (r: IrqReturn)
        requires
            old(self).wf(),
        ensures
            final(self).wf(),
            final(self).cursors_ok() == old(self).cursors_ok(),
            final(self).device()@ == old(self).device()@,
            final(self).state() == old(self).state(),
            final(self).stats() == old(self).stats(),
            final(self).device().hw() == old(self).device().hw().after_reg_read(E1000_ICR as int),
            r == spec_irq_return(old(self).device().hw().nic.regs[E1000_ICR as int]),
    {
        let intr = self.dev.e1000_intr();
        irq_return(intr)
    }

    /// Hands `frame` to the controller and counts it. The stack is told that
    /// the frame was taken unless the ring was full or the interface is not
    /// up; then nothing is written and nothing counted.
    pub fn start_xmit(&mut self, frame: &[u8]) -> (r: NetdevTx)
        requires
            old(self).wf(),
            spec_may_transfer(old(self).state()) ==> old(self).device().tx_cursor_ok(),
        ensures
            final(self).wf(),
            final(self).device().tx_cursor_ok() == old(self).device().tx_cursor_ok(),
            old(self).cursors_ok() ==> final(self).cursors_ok(),
            final(self).device()@ == old(self).device()@,
            final(self).state() == old(self).state(),
            r == if spec_may_transfer(old(self).state()) && old(self).device()@.layout.tx_done(
                old(self).device().hw(),
                old(self).device()@.layout.tdt(old(self).device().hw()),
            ) {
                NetdevTx::Accepted
            } else {
                NetdevTx::Busy
            },
            final(self).device().hw() == if spec_may_transfer(old(self).state()) {
                after_transmit(old(self).device().hw(), old(self).device()@.layout, frame@)
            } else {
                old(self).device().hw()
            },
            final(self).stats() == if r == NetdevTx::Accepted {
                old(self).stats().with_tx(1, frame@.len() as u64)
            } else {
                old(self).stats()
            },
    {
        if !may_transfer(self.state) {
            return NetdevTx::Busy;
        }
        let sent = self.dev.e1000_transmit(frame);
        let status = xmit_status(sent);
        match status {
            NetdevTx::Accepted => {
                self.stats.add_tx(1, frame.len() as u64);
            },
            NetdevTx::Busy => {},
        }
        status
    }

    /// Takes the frames that have arrived, counts them, and returns them
    /// with the work done against `budget`. While the interface is not up,
    /// or if the receive ring is out of order, nothing is taken.
    pub fn poll(&mut self, budget: i32) -> (r: (Vec<Vec<u8>>, i32))
        requires
            old(self).wf(),
        ensures
            final(self).wf(),
            old(self).cursors_ok() ==> final(self).cursors_ok(),
            final(self).device().tx_cursor_ok() == old(self).device().tx_cursor_ok(),
            final(self).device()@ == old(self).device()@,
            final(self).state() == old(self).state(),
            final(self).device().hw() == if spec_may_transfer(old(self).state()) {
                after_recv(old(self).device().hw(), old(self).device()@.layout)
            } else {
                old(self).device().hw()
            },
            ({
                let hw = old(self).device().hw();
                let lay = old(self).device()@.layout;
                contents(r.0@) == if spec_may_transfer(old(self).state()) && lay.rx_desc(
                    hw,
                    rx_first(hw, lay),
                ).addr != 0 {
                    recv_frames(hw, lay)
                } else {
                    Seq::<Seq<u8>>::empty()
                }
            }),
            r.1 == spec_work_done(r.0@.len() as int, budget),
            final(self).stats() == old(self).stats().with_rx(
                r.0@.len() as u64,
                wrap64(total_len(contents(r.0@)) as int),
            ),
    {
        let frames = if may_transfer(self.state) {
            match self.dev.e1000_recv() {
                Ok(frames) => frames,
                Err(_) => Vec::new(),
            }
        } else {
            Vec::new()
        };
        let bytes = rx_bytes(&frames);
        self.stats.add_rx(frames.len() as u64, bytes);
        let done = work_done(frames.len(), budget);
        (frames, done)
    }

    /// Reads the transmit tail and says whether it names a slot of its ring,
    /// as `start_xmit` needs it.
    pub fn tx_tail_in_ring(&mut self) -> (b: bool)
        requires
            old(self).wf(),
        ensures
            final(self).wf(),
            final(self).device()@ == old(self).device()@,
            final(self).device().hw() == old(self).device().hw().after_reg_read(E1000_TDT as int),
            final(self).state() == old(self).state(),
            final(self).stats() == old(self).stats(),
            b == old(self).device().tx_cursor_ok(),
    {
        self.dev.tx_tail_in_ring()
    }

    /// Reads both tail registers and says whether each names a slot of its
    /// ring.
    pub fn cursors_in_ring(&mut self) -> (b: bool)
        requires
            old(self).device().wf(),
        ensures
            final(self).device().wf(),
            final(self).device()@ == old(self).device()@,
            final(self).device().hw() == old(self).device().hw().after_reg_read(
                E1000_TDT as int,
            ).after_reg_read(E1000_RDT as int),
            final(self).state() == old(self).state(),
            final(self).stats() == old(self).stats(),
            b == old(self).device().cursors_ok(),
    {
        self.dev.cursors_in_ring()
    }

    /// The counters.
    pub fn get_stats64(&self) -> (s: Stats64)
        ensures
            s == self.stats(),
    {
        self.stats
    }

    /// Where the driver is in its life.
    pub fn current_state(&self) -> (s: DriverState)
        ensures
            s == self.state(),
    {
        self.state
    }

    /// The device, to look at.
    pub fn dev(&self) -> (dev: &E1000Device<K>)
        ensures
            *dev == self.device(),
    {
        &self.dev
    }

    /// Switches the controller off and gives the DMA memory of the device
    /// back, as `E1000Device::release` does, and returns the host.
    pub fn remove(self) -> (kfn: K)
        requires
            self.wf(),
        ensures
            kfn.hw().wf(),
            kfn.hw().free_pages >= self.device().hw().free_pages,
            kfn.hw().nic.regs[E1000_RCTL as int] & E1000_RCTL_EN == 0,
            kfn.hw().nic.regs[E1000_TCTL as int] & E1000_TCTL_EN == 0,
            kfn.hw() == (Hw {
                nic: regions_given(stopped(self.device().hw().nic), self.device()@.layout),
                dma: self.device().hw().dma.remove(self.device()@.layout.rx_pool).remove(
                    self.device()@.layout.tx_pool,
                ).remove(self.device()@.layout.rx_ring).remove(self.device()@.layout.tx_ring),
                free_pages: kfn.hw().free_pages,
                ..self.device().hw()
            }),
    {
        self.dev.release()
    }
}

} // verus!
