//! The PHY behind MDIC: reading and writing its registers, forcing its speed
//! and powering it up.

use vstd::prelude::*;
use crate::e1000::E1000Device;
use crate::e1000::E1000Error;
use crate::e1000_const::BMCR_SPEED1000;
use crate::e1000_const::BMCR_SPEED100;
use crate::e1000_const::E1000_MDIC;
use crate::e1000_const::E1000_MDIC_READY;
use crate::e1000_const::PHY_CTRL;
use crate::e1000_const::PHY_POLL_LIMIT;
use crate::hw::Hw;
use crate::hw::lemma_no_wait;
use crate::hw::lemma_one_more_wait;
use crate::kernel::KernelFunc;
use crate::steps::force_speed;
use crate::steps::lemma_phy_commands;
use crate::steps::mdic_answer;
use crate::steps::mdic_data;
use crate::steps::mdic_polled;
use crate::steps::mdic_ran;
use crate::steps::mdic_read_cmd;
use crate::steps::mdic_ready;
use crate::steps::mdic_shown;
use crate::steps::mdic_write_cmd;
use crate::steps::phy_index;
use crate::steps::phy_read;
use crate::steps::phy_update;
use crate::steps::phy_write;
use crate::steps::power_up;
use crate::steps::powered_up;
use crate::steps::spec_mdic_ready;
use crate::steps::spec_powered_up;
use crate::steps::spec_speed_forced;
use crate::steps::speed_forced;

verus! {

impl<K: KernelFunc> E1000Device<K> {
    /// Reads MDIC until it shows READY, `PHY_POLL_LIMIT` times at most, and
    /// returns the value that showed it.
    fn mdic_wait(&mut self) -> (mdic: Option<u32>)
        requires
            old(self).wf(),
        ensures
            final(self).wf(),
            final(self)@ == old(self)@,
            final(self).hw() == (Hw { nic: mdic_polled(old(self).hw().nic), ..old(self).hw() }),
            mdic == mdic_shown(old(self).hw().nic),
    {
        let ghost start = self.hw().nic;
        let mut polls: usize = 0;
        proof {
            lemma_no_wait(start);
            let c = start.regs[E1000_MDIC as int];
            assert((c & !0x1000_0000u32) & 0x1000_0000u32 == 0) by (bit_vector);
            let d = start.mdic_done();
            let p = start.phy[crate::hw::mdic_reg(c)];
            assert((c | 0x1000_0000u32) & 0x1000_0000u32 != 0) by (bit_vector);
            assert(((c & !0xffffu32) | (p as u32) | 0x1000_0000u32) & 0x1000_0000u32 != 0)
                by (bit_vector);
        }
        while polls < PHY_POLL_LIMIT
            invariant
                polls <= PHY_POLL_LIMIT,
                self.wf(),
                self@ == old(self)@,
                start == old(self).hw().nic,
                start.phy_wait.busy ==> polls <= start.phy_wait.lag,
                !start.phy_wait.busy && polls > 0 ==> !spec_mdic_ready(
                    start.regs[E1000_MDIC as int],
                ),
                self.hw() == (Hw { nic: start.mdic_waited(polls as nat), ..old(self).hw() }),
                spec_mdic_ready(start.mdic_done()),
                !spec_mdic_ready(start.regs[E1000_MDIC as int] & !E1000_MDIC_READY),
            decreases PHY_POLL_LIMIT - polls,
        {
            proof {
                if !start.phy_wait.busy || polls < start.phy_wait.lag {
                    lemma_one_more_wait(start, polls as nat);
                }
            }
            let mdic = self.reg_read(E1000_MDIC);
            if mdic_ready(mdic) {
                return Some(mdic);
            }
            polls = polls + 1;
        }
        None
    }

    /// Hands the command `cmd` to MDIC and waits for the PHY; once more if it
    /// did not answer. Returns the value of MDIC that showed READY.
    fn mdic_run(&mut self, cmd: u32) -> (mdic: Option<u32>)
        requires
            old(self).wf(),
        ensures
            final(self).wf(),
            final(self)@ == old(self)@,
            final(self).hw() == (Hw { nic: mdic_ran(old(self).hw().nic, cmd), ..old(self).hw() }),
            mdic == if old(self).hw().nic.phy_answers() {
                Some(mdic_answer(old(self).hw().nic, cmd))
            } else {
                None
            },
    {
        let ghost start = self.hw().nic;
        self.reg_write(E1000_MDIC, cmd);
        let first = self.mdic_wait();
        if first.is_some() {
            return first;
        }
        let ghost once = self.hw().nic;
        self.reg_write(E1000_MDIC, cmd);
        proof {
            assert(self.hw().nic.regs =~= start.after_write(E1000_MDIC as int, cmd).regs);
        }
        self.mdic_wait()
    }

    /// Reads register `reg_addr` of the PHY: hands the command to MDIC and
    /// reads MDIC until it shows READY. After `PHY_POLL_LIMIT` reads without
    /// it the command is given once more; fails with `PhyTimeout` if as many
    /// reads pass again.
    pub fn e1000_read_phy_reg(&mut self, reg_addr: u32) -> (r: Result<u16, E1000Error>)
        requires
            old(self).wf(),
        ensures
            final(self).wf(),
            final(self)@ == old(self)@,
            final(self).hw() == (Hw {
                nic: phy_read(old(self).hw().nic, reg_addr),
                ..old(self).hw()
            }),
            r == if old(self).hw().nic.phy_answers() {
                Ok::<u16, E1000Error>(old(self).hw().nic.phy[phy_index(reg_addr)])
            } else {
                Err::<u16, E1000Error>(E1000Error::PhyTimeout)
            },
    {
        proof {
            lemma_phy_commands(self.hw().nic, reg_addr, 0);
        }
        match self.mdic_run(mdic_read_cmd(reg_addr)) {
            Some(mdic) => Ok(mdic_data(mdic)),
            None => Err(E1000Error::PhyTimeout),
        }
    }

    /// Writes `data` to register `reg_addr` of the PHY, waiting for it as
    /// `e1000_read_phy_reg` does. Fails with `PhyTimeout` if the PHY has not
    /// answered after two rounds of `PHY_POLL_LIMIT` reads.
    pub fn e1000_write_phy_reg(&mut self, reg_addr: u32, data: u16) -> (r: Result<(), E1000Error>)
        requires
            old(self).wf(),
        ensures
            final(self).wf(),
            final(self)@ == old(self)@,
            final(self).hw() == (Hw {
                nic: phy_write(old(self).hw().nic, reg_addr, data),
                ..old(self).hw()
            }),
            r == if old(self).hw().nic.phy_answers() {
                Ok::<(), E1000Error>(())
            } else {
                Err::<(), E1000Error>(E1000Error::PhyTimeout)
            },
            old(self).hw().nic.phy_answers() ==> final(self).hw().nic.phy == old(
                self,
            ).hw().nic.phy.update(phy_index(reg_addr), data),
    {
        proof {
            lemma_phy_commands(self.hw().nic, reg_addr, data);
        }
        match self.mdic_run(mdic_write_cmd(reg_addr, data)) {
            Some(_) => Ok(()),
            None => Err(E1000Error::PhyTimeout),
        }
    }

    /// Reads the control register of the PHY and writes it back with the
    /// speed `speed` forced, or powered up where no speed is given.
    fn phy_ctrl_update(&mut self, speed: Option<u16>) -> (r: Result<(), E1000Error>)
        requires
            old(self).wf(),
        ensures
            final(self).wf(),
            final(self)@ == old(self)@,
            final(self).hw() == (Hw {
                nic: phy_update(
                    old(self).hw().nic,
                    PHY_CTRL,
                    spec_ctrl_change(old(self).hw().nic.phy[PHY_CTRL as int], speed),
                ),
                ..old(self).hw()
            }),
            r == if old(self).hw().nic.phy_answers() {
                Ok::<(), E1000Error>(())
            } else {
                Err::<(), E1000Error>(E1000Error::PhyTimeout)
            },
    {
        proof {
            lemma_phy_commands(self.hw().nic, PHY_CTRL, 0);
        }
        let mii = match self.e1000_read_phy_reg(PHY_CTRL) {
            Ok(mii) => mii,
            Err(e) => {
                return Err(e);
            },
        };
        let mii = match speed {
            Some(speed) => speed_forced(mii, speed),
            None => powered_up(mii),
        };
        self.e1000_write_phy_reg(PHY_CTRL, mii)
    }

    /// Powers the PHY up: clears the power-down bit of its control register.
    pub fn e1000_power_up_phy(&mut self) -> (r: Result<(), E1000Error>)
        requires
            old(self).wf(),
        ensures
            final(self).wf(),
            final(self)@ == old(self)@,
            final(self).hw() == (Hw { nic: power_up(old(self).hw().nic), ..old(self).hw() }),
            r == if old(self).hw().nic.phy_answers() {
                Ok::<(), E1000Error>(())
            } else {
                Err::<(), E1000Error>(E1000Error::PhyTimeout)
            },
    {
        self.phy_ctrl_update(None)
    }

    /// Forces the PHY to 100 Mb/s.
    pub fn e1000_force_speed_100(&mut self) -> (r: Result<(), E1000Error>)
        requires
            old(self).wf(),
        ensures
            final(self).wf(),
            final(self)@ == old(self)@,
            final(self).hw() == (Hw {
                nic: force_speed(old(self).hw().nic, BMCR_SPEED100),
                ..old(self).hw()
            }),
            r == if old(self).hw().nic.phy_answers() {
                Ok::<(), E1000Error>(())
            } else {
                Err::<(), E1000Error>(E1000Error::PhyTimeout)
            },
    {
        self.phy_ctrl_update(Some(BMCR_SPEED100))
    }

    /// Forces the PHY to 1000 Mb/s.
    pub fn e1000_force_speed_1000(&mut self) -> (r: Result<(), E1000Error>)
        requires
            old(self).wf(),
        ensures
            final(self).wf(),
            final(self)@ == old(self)@,
            final(self).hw() == (Hw {
                nic: force_speed(old(self).hw().nic, BMCR_SPEED1000),
                ..old(self).hw()
            }),
            r == if old(self).hw().nic.phy_answers() {
                Ok::<(), E1000Error>(())
            } else {
                Err::<(), E1000Error>(E1000Error::PhyTimeout)
            },
    {
        self.phy_ctrl_update(Some(BMCR_SPEED1000))
    }
}

/// The control register of the PHY with a speed forced, or powered up where
/// no speed is given.
pub open spec fn spec_ctrl_change(mii: u16, speed: Option<u16>) -> u16 {
    match speed {
        Some(speed) => spec_speed_forced(mii, speed),
        None => spec_powered_up(mii),
    }
}

} // verus!
