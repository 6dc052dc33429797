use e1000_driver::e1000::E1000Device;
use e1000_driver::e1000::E1000Error;
use e1000_driver::e1000_const::E1000_MDIC;
use e1000_driver::e1000_const::E1000_TDT;
use e1000_driver::kernel::KernelFunc;
use e1000_driver::sim::SimKernel;
use e1000_driver::sim::SIM_MMIO_BASE;
use e1000_driver::steps::addr_high;
use e1000_driver::steps::addr_low;
use e1000_driver::steps::mdic_data;
use e1000_driver::steps::mdic_read_cmd;
use e1000_driver::steps::mdic_ready;
use e1000_driver::steps::mdic_write_cmd;
use e1000_driver::steps::powered_up;
use e1000_driver::steps::speed_forced;

fn device() -> E1000Device<SimKernel> {
    match E1000Device::new(SimKernel::new(64, 0), SIM_MMIO_BASE) {
        Ok(dev) => dev,
        Err(e) => panic!("no device: {:?}", e),
    }
}

#[test]
fn mdic_commands_are_laid_out() {
    assert_eq!(mdic_read_cmd(0), 0x0820_0000);
    assert_eq!(mdic_read_cmd(2), 0x0822_0000);
    assert_eq!(mdic_read_cmd(31), 0x083f_0000);
    // the register field holds five bits
    assert_eq!(mdic_read_cmd(32), 0x0820_0000);
    assert_eq!(mdic_write_cmd(0, 0x1234), 0x0420_1234);
    assert_eq!(mdic_write_cmd(17, 0xffff), 0x0431_ffff);
    assert_eq!(mdic_data(0x1831_abcd), 0xabcd);
    assert!(mdic_ready(0x1000_0000));
    assert!(!mdic_ready(0x0fff_ffff));
}

#[test]
fn bus_addresses_are_split() {
    assert_eq!(addr_low(0x1234_5678), 0x1234_5678);
    assert_eq!(addr_high(0x1234_5678), 0);
    if usize::BITS == 64 {
        let a = 0x0000_0012_8765_4321u64 as usize;
        assert_eq!(addr_low(a), 0x8765_4321);
        assert_eq!(addr_high(a), 0x12);
    }
}

#[test]
fn control_register_changes() {
    assert_eq!(speed_forced(0x1140, 0x2000), 0x3140);
    assert_eq!(speed_forced(0x1140, 0x0040), 0x1140);
    assert_eq!(speed_forced(0, 0x0040), 0x0040);
    assert_eq!(powered_up(0x1940), 0x1140);
    assert_eq!(powered_up(0xffff), 0xf7ff);
    assert_eq!(powered_up(0x1140), 0x1140);
}

#[test]
fn init_brings_the_phy_up_at_100() {
    let dev = device();
    assert_eq!(dev.kernel().phy_reg(0), 0x2000);
}

#[test]
fn phy_registers_are_written_and_read() {
    let mut dev = device();
    assert_eq!(dev.e1000_write_phy_reg(4, 0x01e1), Ok(()));
    assert_eq!(dev.kernel().phy_reg(4), 0x01e1);
    assert_eq!(dev.e1000_read_phy_reg(4), Ok(0x01e1));
    assert_eq!(dev.e1000_read_phy_reg(5), Ok(0));
    // registers are found modulo 32
    assert_eq!(dev.e1000_read_phy_reg(36), Ok(0x01e1));
    assert_eq!(dev.e1000_write_phy_reg(31, 0xffff), Ok(()));
    assert_eq!(dev.e1000_read_phy_reg(31), Ok(0xffff));
    assert_eq!(dev.kernel().reg(E1000_MDIC), 0x183f_ffff);
}

#[test]
fn phy_is_powered_up() {
    let mut dev = device();
    assert_eq!(dev.e1000_write_phy_reg(0, 0x3940), Ok(()));
    assert_eq!(dev.e1000_power_up_phy(), Ok(()));
    assert_eq!(dev.kernel().phy_reg(0), 0x3140);
}

#[test]
fn phy_speed_is_forced() {
    let mut dev = device();
    assert_eq!(dev.e1000_write_phy_reg(0, 0x1100), Ok(()));
    assert_eq!(dev.e1000_force_speed_100(), Ok(()));
    assert_eq!(dev.kernel().phy_reg(0), 0x3100);
    assert_eq!(dev.e1000_write_phy_reg(0, 0x1100), Ok(()));
    assert_eq!(dev.e1000_force_speed_1000(), Ok(()));
    assert_eq!(dev.kernel().phy_reg(0), 0x1140);
}

#[test]
fn silent_phy_fails_the_construction() {
    let r = E1000Device::new(SimKernel::new(64, usize::MAX), SIM_MMIO_BASE);
    assert_eq!(r.err(), Some(E1000Error::PhyTimeout));
}

#[test]
fn slow_phy_is_waited_for() {
    let mut dev = device();
    assert_eq!(dev.e1000_write_phy_reg(0, 0x1140), Ok(()));
    // ready at the second read
    dev.nic_set_phy_lag(1);
    assert_eq!(dev.e1000_read_phy_reg(0), Ok(0x1140));
    assert_eq!(dev.kernel().reg(E1000_MDIC), 0x1820_1140);
    assert_eq!(dev.kernel().phy_lag(), 0);
    // ready at the last read of the first round
    dev.nic_set_phy_lag(639);
    assert_eq!(dev.e1000_read_phy_reg(0), Ok(0x1140));
    assert_eq!(dev.kernel().phy_lag(), 0);
    // ready at the first read of the second round
    dev.nic_set_phy_lag(640);
    assert_eq!(dev.e1000_write_phy_reg(2, 0x0abc), Ok(()));
    assert_eq!(dev.kernel().phy_reg(2), 0x0abc);
    // ready at the last read of the second round
    dev.nic_set_phy_lag(1279);
    assert_eq!(dev.e1000_read_phy_reg(2), Ok(0x0abc));
    assert_eq!(dev.kernel().phy_lag(), 0);
}

#[test]
fn phy_times_out_after_two_rounds() {
    let mut dev = device();
    dev.nic_set_phy_lag(1280);
    assert_eq!(dev.e1000_write_phy_reg(3, 0x0007), Err(E1000Error::PhyTimeout));
    // two rounds of reads have passed, and the command stands unfinished
    assert_eq!(dev.kernel().phy_lag(), 0);
    assert_eq!(dev.kernel().phy_reg(3), 0);
    assert_eq!(dev.kernel().reg(E1000_MDIC), 0x0423_0007);
    dev.nic_set_phy_lag(2000);
    assert_eq!(dev.e1000_read_phy_reg(3), Err(E1000Error::PhyTimeout));
    assert_eq!(dev.kernel().phy_lag(), 720);
    // the rest of the lag runs out in the second round of the next command
    assert_eq!(dev.e1000_force_speed_1000(), Ok(()));
    assert_eq!(dev.kernel().phy_lag(), 0);
    assert_eq!(dev.kernel().phy_reg(0), 0x2040);
    dev.nic_set_phy_lag(1280);
    assert_eq!(dev.e1000_force_speed_100(), Err(E1000Error::PhyTimeout));
    assert_eq!(dev.e1000_power_up_phy(), Ok(()));
}

#[test]
fn slow_phy_does_not_fail_the_construction() {
    let r = E1000Device::new(SimKernel::new(64, 1279), SIM_MMIO_BASE);
    match r {
        Ok(dev) => assert_eq!(dev.kernel().phy_reg(0), 0x2000),
        Err(e) => panic!("no device: {:?}", e),
    }
    let r = E1000Device::new(SimKernel::new(64, 1280), SIM_MMIO_BASE);
    assert_eq!(r.err(), Some(E1000Error::PhyTimeout));
}

#[test]
fn silent_phy_leaves_its_command_in_mdic() {
    let mut k = SimKernel::new(4, usize::MAX);
    k.mmio_write(SIM_MMIO_BASE, E1000_MDIC, mdic_read_cmd(0) | 0x1000_0000);
    assert_eq!(k.reg(E1000_MDIC), 0x0820_0000);
    assert_eq!(k.mmio_read(SIM_MMIO_BASE, E1000_MDIC), 0x0820_0000);
    assert_eq!(k.phy_lag(), usize::MAX - 1);
    assert_eq!(k.reg(E1000_TDT), 0);
}
