use e1000_driver::e1000::E1000Error;
use e1000_driver::e1000_const::E1000_ICR;
use e1000_driver::e1000_const::E1000_IMS;
use e1000_driver::e1000_const::E1000_RCTL;
use e1000_driver::e1000_const::E1000_TCTL;
use e1000_driver::e1000_const::E1000_TDT;
use e1000_driver::host::irq_return;
use e1000_driver::host::may_transfer;
use e1000_driver::host::plan;
use e1000_driver::host::rx_bytes;
use e1000_driver::host::work_done;
use e1000_driver::host::xmit_status;
use e1000_driver::host::DriverState;
use e1000_driver::host::E1000Driver;
use e1000_driver::host::HostEvent;
use e1000_driver::host::IrqReturn;
use e1000_driver::host::NetdevTx;
use e1000_driver::host::Stats64;
use e1000_driver::host::Step;
use e1000_driver::sim::SimKernel;
use e1000_driver::sim::SIM_MMIO_BASE;

fn driver() -> E1000Driver<SimKernel> {
    match E1000Driver::new(SimKernel::new(64, 0), SIM_MMIO_BASE) {
        Ok(driver) => driver,
        Err(e) => panic!("no driver: {:?}", e),
    }
}

fn run(driver: &mut E1000Driver<SimKernel>, event: HostEvent) -> Vec<Step> {
    let steps = match driver.on_event(event) {
        Some(steps) => steps,
        None => panic!("{:?} is not allowed", event),
    };
    let mut host = Vec::new();
    for step in steps {
        if !driver.perform(step) {
            host.push(step);
        }
    }
    host
}

#[test]
fn states_follow_the_life_of_a_driver() {
    let open = vec![
        Step::RequestIrq,
        Step::EnableNapi,
        Step::StartQueue,
        Step::EnableInterrupts,
        Step::CauseLinkInterrupt,
        Step::CarrierOn,
    ];
    let stop = vec![
        Step::CarrierOff,
        Step::DisableInterrupts,
        Step::FreeIrq,
        Step::DisableNapi,
        Step::StopQueue,
    ];
    assert_eq!(
        plan(DriverState::Uninitialized, HostEvent::New),
        Some((DriverState::Initialized, vec![Step::CreateDevice]))
    );
    assert_eq!(plan(DriverState::Initialized, HostEvent::Open), Some((DriverState::Running, open.clone())));
    assert_eq!(plan(DriverState::Running, HostEvent::Stop), Some((DriverState::Paused, stop)));
    assert_eq!(plan(DriverState::Paused, HostEvent::Open), Some((DriverState::Running, open)));
    assert_eq!(
        plan(DriverState::Paused, HostEvent::Unload),
        Some((DriverState::TornDown, vec![Step::ReleaseDma]))
    );
}

#[test]
fn other_events_are_refused() {
    let states = [
        DriverState::Uninitialized,
        DriverState::Initialized,
        DriverState::Running,
        DriverState::Paused,
        DriverState::TornDown,
    ];
    let events = [HostEvent::New, HostEvent::Open, HostEvent::Stop, HostEvent::Unload];
    let mut allowed = 0;
    for s in states {
        for e in events {
            if plan(s, e).is_some() {
                allowed += 1;
            }
        }
        assert_eq!(plan(DriverState::TornDown, HostEvent::Open), None);
    }
    assert_eq!(allowed, 5);
    assert_eq!(plan(DriverState::Running, HostEvent::Unload), None);
    assert_eq!(plan(DriverState::Running, HostEvent::Open), None);
    assert_eq!(plan(DriverState::Initialized, HostEvent::Stop), None);
    assert_eq!(plan(DriverState::Initialized, HostEvent::Unload), None);
}

#[test]
fn frames_move_only_while_running() {
    assert!(may_transfer(DriverState::Running));
    assert!(!may_transfer(DriverState::Uninitialized));
    assert!(!may_transfer(DriverState::Initialized));
    assert!(!may_transfer(DriverState::Paused));
    assert!(!may_transfer(DriverState::TornDown));
}

#[test]
fn interrupts_are_told_apart_by_the_receiver_timer() {
    assert_eq!(irq_return(0x80), IrqReturn::Handled);
    assert_eq!(irq_return(0x84), IrqReturn::Handled);
    assert_eq!(irq_return(0x04), IrqReturn::NotHandled);
    assert_eq!(irq_return(0), IrqReturn::NotHandled);
    assert_eq!(irq_return(0xffff_ff7f), IrqReturn::NotHandled);
}

#[test]
fn transmit_outcomes_for_the_stack() {
    assert_eq!(xmit_status(Ok((60, None))), NetdevTx::Accepted);
    assert_eq!(xmit_status(Ok((2048, Some(E1000Error::TxTruncated)))), NetdevTx::Accepted);
    assert_eq!(xmit_status(Err(E1000Error::TxFull)), NetdevTx::Busy);
    assert_eq!(xmit_status(Err(E1000Error::InvalidDescriptor)), NetdevTx::Busy);
}

#[test]
fn bytes_and_work_are_counted() {
    assert_eq!(rx_bytes(&vec![]), 0);
    assert_eq!(rx_bytes(&vec![vec![0u8; 60], vec![], vec![1u8; 1500]]), 1560);
    assert_eq!(work_done(0, 64), 0);
    assert_eq!(work_done(3, 64), 3);
    assert_eq!(work_done(64, 64), 64);
    assert_eq!(work_done(65, 64), 64);
    assert_eq!(work_done(3, 0), 0);
    assert_eq!(work_done(3, -1), 0);
}

#[test]
fn counters_wrap() {
    let mut s = Stats64::new();
    assert_eq!(s, Stats64 { rx_bytes: 0, rx_packets: 0, tx_bytes: 0, tx_packets: 0 });
    s.add_rx(2, 120);
    s.add_tx(1, 60);
    assert_eq!(s, Stats64 { rx_bytes: 120, rx_packets: 2, tx_bytes: 60, tx_packets: 1 });
    s.add_rx(u64::MAX, u64::MAX);
    assert_eq!(s.rx_bytes, 119);
    assert_eq!(s.rx_packets, 1);
    s.add_tx(u64::MAX, u64::MAX - 59);
    assert_eq!(s.tx_bytes, 0);
    assert_eq!(s.tx_packets, 0);
}

#[test]
fn open_enables_the_interrupts_and_fires_the_link_interrupt() {
    let mut d = driver();
    assert_eq!(d.current_state(), DriverState::Initialized);
    d.perform(Step::DisableInterrupts);
    assert_eq!(d.dev().kernel().reg(E1000_IMS), 0);
    let host = run(&mut d, HostEvent::Open);
    assert_eq!(host, vec![Step::RequestIrq, Step::EnableNapi, Step::StartQueue, Step::CarrierOn]);
    assert_eq!(d.current_state(), DriverState::Running);
    assert_eq!(d.dev().kernel().reg(E1000_IMS), 0x84);
    assert_eq!(d.dev().kernel().reg(E1000_ICR), 0x04);
    assert_eq!(d.on_event(HostEvent::Open), None);
    assert_eq!(d.current_state(), DriverState::Running);
}

#[test]
fn stop_masks_the_interrupts() {
    let mut d = driver();
    run(&mut d, HostEvent::Open);
    let host = run(&mut d, HostEvent::Stop);
    assert_eq!(host, vec![Step::CarrierOff, Step::FreeIrq, Step::DisableNapi, Step::StopQueue]);
    assert_eq!(d.current_state(), DriverState::Paused);
    assert_eq!(d.dev().kernel().reg(E1000_IMS), 0);
    assert_eq!(run(&mut d, HostEvent::Unload), vec![Step::ReleaseDma]);
    assert_eq!(d.current_state(), DriverState::TornDown);
    let k = d.remove();
    assert_eq!(k.free_pages(), 64 - 18);
    assert_eq!(k.reg(E1000_RCTL) & 0x2, 0);
    assert_eq!(k.reg(E1000_TCTL) & 0x2, 0);
}

#[test]
fn frames_are_sent_and_counted_while_running() {
    let mut d = driver();
    assert_eq!(d.start_xmit(&[0u8; 60]), NetdevTx::Busy);
    assert_eq!(d.dev().kernel().reg(E1000_TDT), 0);
    assert_eq!(d.get_stats64(), Stats64::new());
    run(&mut d, HostEvent::Open);
    assert_eq!(d.start_xmit(&[0u8; 60]), NetdevTx::Accepted);
    assert_eq!(d.start_xmit(&[0u8; 100]), NetdevTx::Accepted);
    assert_eq!(d.dev().kernel().reg(E1000_TDT), 2);
    assert_eq!(d.get_stats64(), Stats64 { rx_bytes: 0, rx_packets: 0, tx_bytes: 160, tx_packets: 2 });
    for _ in 0..14 {
        assert_eq!(d.start_xmit(&[0u8; 60]), NetdevTx::Accepted);
    }
    assert_eq!(d.start_xmit(&[0u8; 60]), NetdevTx::Busy);
    assert_eq!(d.get_stats64().tx_packets, 16);
    run(&mut d, HostEvent::Stop);
    assert_eq!(d.start_xmit(&[0u8; 60]), NetdevTx::Busy);
}

#[test]
fn interrupts_are_handled_and_cleared() {
    let mut d = driver();
    run(&mut d, HostEvent::Open);
    // the link interrupt of open alone is not this handler's
    assert_eq!(d.handle_irq(), IrqReturn::NotHandled);
    assert_eq!(d.dev().kernel().reg(E1000_ICR), 0);
    assert_eq!(d.handle_irq(), IrqReturn::NotHandled);
}

#[test]
fn poll_takes_nothing_unless_running() {
    let mut d = driver();
    let (frames, done) = d.poll(64);
    assert_eq!(frames, Vec::<Vec<u8>>::new());
    assert_eq!(done, 0);
    run(&mut d, HostEvent::Open);
    let (frames, done) = d.poll(64);
    assert_eq!(frames, Vec::<Vec<u8>>::new());
    assert_eq!(done, 0);
    assert_eq!(d.get_stats64(), Stats64::new());
}

#[test]
fn arrived_frames_are_polled_and_counted() {
    let mut d = driver();
    run(&mut d, HostEvent::Open);
    let _ = d.handle_irq();
    assert!(d.nic_receive(&[7u8; 64]));
    assert!(d.nic_receive(&[8u8; 1500]));
    assert_eq!(d.handle_irq(), IrqReturn::Handled);
    assert_eq!(d.handle_irq(), IrqReturn::NotHandled);
    let (frames, done) = d.poll(64);
    assert_eq!(frames, vec![vec![7u8; 64], vec![8u8; 1500]]);
    assert_eq!(done, 2);
    assert_eq!(d.get_stats64(), Stats64 { rx_bytes: 1564, rx_packets: 2, tx_bytes: 0, tx_packets: 0 });
    for _ in 0..3 {
        assert!(d.nic_receive(&[1u8; 60]));
    }
    let (frames, done) = d.poll(2);
    assert_eq!(frames.len(), 3);
    assert_eq!(done, 2);
    assert_eq!(d.get_stats64().rx_packets, 5);
    assert_eq!(d.get_stats64().rx_bytes, 1744);
}

#[test]
fn sent_frames_leave_through_the_controller() {
    let mut d = driver();
    run(&mut d, HostEvent::Open);
    assert_eq!(d.nic_send(), None);
    assert_eq!(d.start_xmit(&[3u8; 60]), NetdevTx::Accepted);
    assert_eq!(d.nic_send(), Some(vec![3u8; 60]));
    assert!(d.cursors_in_ring());
}

#[test]
fn paused_driver_leaves_arrived_frames_in_the_ring() {
    let mut d = driver();
    run(&mut d, HostEvent::Open);
    run(&mut d, HostEvent::Stop);
    assert!(d.nic_receive(&[7u8; 64]));
    let (frames, done) = d.poll(64);
    assert_eq!(frames.len(), 0);
    assert_eq!(done, 0);
    run(&mut d, HostEvent::Open);
    let (frames, _) = d.poll(64);
    assert_eq!(frames, vec![vec![7u8; 64]]);
}

#[test]
fn a_cut_frame_is_accepted_and_counted_once() {
    let mut d = driver();
    run(&mut d, HostEvent::Open);
    let long = vec![9u8; 3000];
    assert_eq!(d.start_xmit(&long), NetdevTx::Accepted);
    assert_eq!(d.get_stats64().tx_packets, 1);
    assert_eq!(d.get_stats64().tx_bytes, 3000);
    assert_eq!(d.nic_send(), Some(vec![9u8; 2048]));
    assert_eq!(d.nic_send(), None);
    assert!(d.tx_tail_in_ring());
}
