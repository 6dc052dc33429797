//! The hardware as the engine sees it: the register file of the controller,
//! its PHY, and the DMA memory that host and controller share.
//!
//! Everything here is specification. [`Hw`] is the state, and its functions say
//! how one access changes it; the state holds a log of the accesses too, so
//! that a contract which names the state after an operation names what was
//! done and in which order. The contracts of
//! [`KernelFunc`](crate::kernel::KernelFunc) bind a host to this model.

use vstd::prelude::*;
use crate::e1000_const::E1000_ICR;
use crate::e1000_const::E1000_ICS;
use crate::e1000_const::E1000_IMC;
use crate::e1000_const::E1000_IMS;
use crate::e1000_const::E1000_MDIC;
use crate::e1000_const::E1000_MDIC_DATA_MASK;
use crate::e1000_const::E1000_MDIC_OP_MASK;
use crate::e1000_const::E1000_MDIC_OP_READ;
use crate::e1000_const::E1000_MDIC_OP_WRITE;
use crate::e1000_const::E1000_MDIC_READY;
use crate::e1000_const::E1000_MDIC_REG_MASK;
use crate::e1000_const::E1000_PHY_REGS;
use crate::e1000_const::E1000_RDT;
use crate::e1000_const::E1000_REG_WORDS;
use crate::e1000_const::E1000_STAT;
use crate::e1000_const::E1000_TDT;
use crate::e1000_const::PHY_POLL_LIMIT;

verus! {

/// Size of a page of DMA memory.
pub const PAGE_SIZE: usize = 4096;

/// One access of software to the controller, or to the memory that it shares
/// with the controller.
pub enum Access {
    /// A read of a register.
    RegRead { reg: int },
    /// A write to a register.
    RegWrite { reg: int, value: u32 },
    /// A write to DMA memory.
    DmaWrite { region: usize, offset: int, data: Seq<u8> },
    /// A full barrier.
    Fence,
    /// A write barrier.
    FenceW,
    /// A request for pages of DMA memory that the host met.
    DmaAlloc { pages: usize, vaddr: usize },
    /// A region of DMA memory given back to the host.
    DmaFree { vaddr: usize },
}

/// How far the PHY is with the command in MDIC.
pub struct PhyWait {
    /// Number of reads of MDIC that the PHY lets pass, while a command
    /// stands, before it shows READY.
    pub lag: nat,
    /// A command stands in MDIC that the PHY has not completed yet.
    pub busy: bool,
}

/// The controller as software reaches it: its register file, the registers
/// of its PHY, and the record of what software did.
pub struct Nic {
    /// The register window, one entry per 32-bit word.
    pub regs: Seq<u32>,
    /// The registers of the PHY behind MDIC.
    pub phy: Seq<u16>,
    /// How far the PHY is with the command in MDIC.
    pub phy_wait: PhyWait,
    /// A write to DMA memory has not been followed by a write barrier yet.
    pub unfenced: bool,
    /// A write to DMA memory has not been followed by a read of STAT yet.
    pub unflushed: bool,
    /// A tail register was written while a write to DMA memory was unfenced.
    pub tail_hazard: bool,
    /// Every access that software made, in the order in which it made them.
    pub log: Seq<Access>,
}

/// One region of DMA memory.
pub struct DmaRegion {
    /// The address at which the controller sees the region.
    pub paddr: usize,
    /// What the region holds.
    pub bytes: Seq<u8>,
}

/// The hardware and the host's DMA memory.
pub struct Hw {
    /// The address at which the register window is mapped.
    pub mmio_base: usize,
    /// The controller.
    pub nic: Nic,
    /// The live DMA regions, by the address at which the CPU sees them.
    pub dma: Map<usize, DmaRegion>,
    /// The number of pages that the host can still hand out.
    pub free_pages: nat,
}

/// The register of the PHY that the MDIC command `v` names.
pub open spec fn mdic_reg(v: u32) -> int {
    ((v & E1000_MDIC_REG_MASK) >> 16) as int
}

/// `bytes` with `data` written over it from `offset` on.
pub open spec fn splice(bytes: Seq<u8>, offset: int, data: Seq<u8>) -> Seq<u8> {
    Seq::new(
        bytes.len(),
        |i: int|
            if offset <= i < offset + data.len() {
                data[i - offset]
            } else {
                bytes[i]
            },
    )
}

/// What makes a region usable: it is not at address zero on either side, it is
/// made of whole pages, and its end can be computed.
pub open spec fn region_ok(vaddr: usize, region: DmaRegion) -> bool {
    &&& vaddr != 0
    &&& region.paddr != 0
    &&& vaddr % PAGE_SIZE == 0
    &&& region.paddr % PAGE_SIZE == 0
    &&& region.bytes.len() > 0
    &&& region.bytes.len() % (PAGE_SIZE as nat) == 0
    &&& vaddr + region.bytes.len() <= usize::MAX
    &&& region.paddr + region.bytes.len() <= usize::MAX
}

impl Nic {
    /// The register file and the PHY have their sizes.
    pub open spec fn wf(self) -> bool {
        &&& self.regs.len() == E1000_REG_WORDS
        &&& self.phy.len() == E1000_PHY_REGS
    }

    /// The PHY completes a command within two rounds of `PHY_POLL_LIMIT`
    /// reads of MDIC.
    pub open spec fn phy_answers(self) -> bool {
        self.phy_wait.lag < 2 * PHY_POLL_LIMIT
    }

    /// What MDIC shows once the PHY has completed the command that stands in
    /// it: READY, and for a read the data of the register that it names.
    pub open spec fn mdic_done(self) -> u32 {
        let c = self.regs[E1000_MDIC as int];
        if c & E1000_MDIC_OP_MASK == E1000_MDIC_OP_READ {
            (c & !E1000_MDIC_DATA_MASK) | (self.phy[mdic_reg(c)] as u32) | E1000_MDIC_READY
        } else {
            c | E1000_MDIC_READY
        }
    }

    /// The registers of the PHY once it has completed the command that
    /// stands in MDIC: a write has put its data into the register that it
    /// names.
    pub open spec fn phy_done(self) -> Seq<u16> {
        let c = self.regs[E1000_MDIC as int];
        if c & E1000_MDIC_OP_MASK == E1000_MDIC_OP_WRITE {
            self.phy.update(mdic_reg(c), (c & E1000_MDIC_DATA_MASK) as u16)
        } else {
            self.phy
        }
    }

    /// What a read of register `reg` returns. While the PHY is busy MDIC
    /// shows the command without READY, and what the PHY made of it once the
    /// lag has run out.
    pub open spec fn read_value(self, reg: int) -> u32 {
        if reg == E1000_MDIC && self.phy_wait.busy {
            if self.phy_wait.lag == 0 {
                self.mdic_done()
            } else {
                self.regs[reg] & !E1000_MDIC_READY
            }
        } else {
            self.regs[reg]
        }
    }

    /// Every write to DMA memory has been followed by a write barrier and by a
    /// read of STAT, and no tail register was ever written ahead of the
    /// barrier.
    pub open spec fn settled(self) -> bool {
        !self.unfenced && !self.unflushed && !self.tail_hazard
    }

    /// The controller after software read register `reg`. Reading ICR clears
    /// the pending causes, and reading STAT flushes. Reading MDIC while the
    /// PHY is busy uses up one read of its lag, or, the lag having run out,
    /// finds the command completed. Any other read leaves but its note in
    /// the log.
    pub open spec fn after_read(self, reg: int) -> Nic {
        let noted = Nic { log: self.log.push(Access::RegRead { reg }), ..self };
        if reg == E1000_ICR {
            Nic { regs: self.regs.update(reg, 0), ..noted }
        } else if reg == E1000_STAT {
            Nic { unflushed: false, ..noted }
        } else if reg == E1000_MDIC && self.phy_wait.busy {
            if self.phy_wait.lag > 0 {
                Nic {
                    phy_wait: PhyWait { lag: (self.phy_wait.lag - 1) as nat, busy: true },
                    ..noted
                }
            } else {
                Nic {
                    regs: self.regs.update(reg, self.mdic_done()),
                    phy: self.phy_done(),
                    phy_wait: PhyWait { lag: 0, busy: false },
                    ..noted
                }
            }
        } else {
            noted
        }
    }

    /// The controller after software read MDIC `count` times and found no
    /// command completed: the PHY was not busy, or `count` reads were within
    /// its lag.
    pub open spec fn mdic_waited(self, count: nat) -> Nic {
        Nic {
            phy_wait: PhyWait {
                lag: if self.phy_wait.busy {
                    (self.phy_wait.lag - count) as nat
                } else {
                    self.phy_wait.lag
                },
                ..self.phy_wait
            },
            log: self.log + Seq::new(count, |i: int| Access::RegRead { reg: E1000_MDIC as int }),
            ..self
        }
    }

    /// The controller after the controller itself put `v` into register
    /// `reg`.
    pub open spec fn with_reg(self, reg: int, v: u32) -> Nic {
        Nic { regs: self.regs.update(reg, v), ..self }
    }

    /// The controller after software wrote `data` to DMA memory.
    pub open spec fn after_dma_write(self, region: usize, offset: int, data: Seq<u8>) -> Nic {
        Nic {
            unfenced: true,
            unflushed: true,
            log: self.log.push(Access::DmaWrite { region, offset, data }),
            ..self
        }
    }

    /// The controller after a write barrier.
    pub open spec fn after_fence_w(self) -> Nic {
        Nic { unfenced: false, log: self.log.push(Access::FenceW), ..self }
    }

    /// The controller after a full barrier, which orders writes too.
    pub open spec fn after_fence(self) -> Nic {
        Nic { unfenced: false, log: self.log.push(Access::Fence), ..self }
    }

    /// The controller after the host handed out `pages` pages at `vaddr`.
    pub open spec fn after_alloc(self, pages: usize, vaddr: usize) -> Nic {
        Nic { log: self.log.push(Access::DmaAlloc { pages, vaddr }), ..self }
    }

    /// The controller after the region at `vaddr` was given back to the host.
    pub open spec fn after_free(self, vaddr: usize) -> Nic {
        Nic { log: self.log.push(Access::DmaFree { vaddr }), ..self }
    }

    /// The controller after software wrote `v` to register `reg`.
    ///
    /// IMS sets and IMC clears bits of the interrupt mask, which IMS shows. ICS
    /// sets and ICR clears pending causes, which ICR shows. STAT is read-only.
    /// MDIC takes a command for the PHY, which is busy with it from then on.
    /// Every other register keeps what was written. A tail register written
    /// while a write to DMA memory is unfenced is a hazard.
    pub open spec fn after_write(self, reg: int, v: u32) -> Nic {
        let ims = E1000_IMS as int;
        let icr = E1000_ICR as int;
        let noted = Nic {
            tail_hazard: self.tail_hazard || ((reg == E1000_TDT || reg == E1000_RDT)
                && self.unfenced),
            log: self.log.push(Access::RegWrite { reg, value: v }),
            ..self
        };
        if reg == E1000_IMS {
            Nic { regs: self.regs.update(ims, self.regs[ims] | v), ..noted }
        } else if reg == E1000_IMC {
            Nic { regs: self.regs.update(ims, self.regs[ims] & !v), ..noted }
        } else if reg == E1000_ICS {
            Nic { regs: self.regs.update(icr, self.regs[icr] | v), ..noted }
        } else if reg == E1000_ICR {
            Nic { regs: self.regs.update(icr, self.regs[icr] & !v), ..noted }
        } else if reg == E1000_STAT {
            noted
        } else if reg == E1000_MDIC {
            Nic {
                regs: self.regs.update(reg, v & !E1000_MDIC_READY),
                phy_wait: PhyWait { busy: true, ..self.phy_wait },
                ..noted
            }
        } else {
            Nic { regs: self.regs.update(reg, v), ..noted }
        }
    }
}

impl Hw {
    /// The controller is in form, and every live region is usable.
    pub open spec fn wf(self) -> bool {
        &&& self.nic.wf()
        &&& forall|v: usize| #[trigger] self.dma.contains_key(v) ==> region_ok(v, self.dma[v])
    }

    /// Every write to DMA memory has been followed by a write barrier and by a
    /// read of STAT, and no tail register was ever written ahead of the
    /// barrier.
    pub open spec fn settled(self) -> bool {
        self.nic.settled()
    }

    /// The hardware after software read register `reg`.
    pub open spec fn after_reg_read(self, reg: int) -> Hw {
        Hw { nic: self.nic.after_read(reg), ..self }
    }

    /// The hardware after software wrote `v` to register `reg`.
    pub open spec fn after_reg_write(self, reg: int, v: u32) -> Hw {
        Hw { nic: self.nic.after_write(reg, v), ..self }
    }

    /// `len` bytes from `offset` on lie inside the live region `region`.
    pub open spec fn mapped(self, region: usize, offset: int, len: int) -> bool {
        &&& self.dma.contains_key(region)
        &&& 0 <= offset
        &&& 0 <= len
        &&& offset + len <= self.dma[region].bytes.len()
    }

    /// The `len` bytes of region `region` from `offset` on.
    pub open spec fn dma_bytes(self, region: usize, offset: int, len: int) -> Seq<u8> {
        self.dma[region].bytes.subrange(offset, offset + len)
    }

    /// The hardware after software wrote `data` to region `region` from
    /// `offset` on.
    pub open spec fn after_dma_write(self, region: usize, offset: int, data: Seq<u8>) -> Hw {
        Hw {
            nic: self.nic.after_dma_write(region, offset, data),
            dma: self.dma.insert(
                region,
                DmaRegion {
                    bytes: splice(self.dma[region].bytes, offset, data),
                    ..self.dma[region]
                },
            ),
            ..self
        }
    }

    /// The hardware after the controller itself wrote `data` to region
    /// `region` from `offset` on.
    pub open spec fn after_device_write(self, region: usize, offset: int, data: Seq<u8>) -> Hw {
        Hw {
            dma: self.dma.insert(
                region,
                DmaRegion {
                    bytes: splice(self.dma[region].bytes, offset, data),
                    ..self.dma[region]
                },
            ),
            ..self
        }
    }

    /// The hardware after the controller itself put `v` into register `reg`.
    pub open spec fn after_device_store(self, reg: int, v: u32) -> Hw {
        Hw { nic: self.nic.with_reg(reg, v), ..self }
    }

    /// The hardware after a write barrier.
    pub open spec fn after_fence_w(self) -> Hw {
        Hw { nic: self.nic.after_fence_w(), ..self }
    }

    /// The hardware after a full barrier.
    pub open spec fn after_fence(self) -> Hw {
        Hw { nic: self.nic.after_fence(), ..self }
    }

    /// The host can hand out `pages` pages.
    pub open spec fn alloc_fits(self, pages: usize) -> bool {
        0 < pages <= self.free_pages
    }

    /// The hardware after `pages` pages were handed out as `region` at
    /// `vaddr`.
    pub open spec fn after_alloc(self, pages: usize, vaddr: usize, region: DmaRegion) -> Hw {
        Hw {
            nic: self.nic.after_alloc(pages, vaddr),
            dma: self.dma.insert(vaddr, region),
            free_pages: (self.free_pages - pages) as nat,
            ..self
        }
    }

    /// A request for `pages` pages that was answered with the addresses `got`
    /// leads from `self` to `next`. With enough pages free the answer is a new
    /// region of that size, whose place and first contents the host chooses;
    /// otherwise it is the null address, and nothing changes.
    pub open spec fn allocates(self, pages: usize, got: (usize, usize), next: Hw) -> bool {
        if self.alloc_fits(pages) {
            &&& !self.dma.contains_key(got.0)
            &&& next.dma.contains_key(got.0)
            &&& next.dma[got.0].paddr == got.1
            &&& next.dma[got.0].bytes.len() == pages * PAGE_SIZE
            &&& region_ok(got.0, next.dma[got.0])
            &&& next == self.after_alloc(pages, got.0, next.dma[got.0])
        } else {
            got.0 == 0 && next == self
        }
    }

    /// Giving back the region at `vaddr` leads from `self` to `next`: the
    /// region is gone, and the host has no fewer pages free than before.
    pub open spec fn frees(self, vaddr: usize, next: Hw) -> bool {
        &&& next.free_pages >= self.free_pages
        &&& next == Hw {
            nic: self.nic.after_free(vaddr),
            dma: self.dma.remove(vaddr),
            free_pages: next.free_pages,
            ..self
        }
    }
}

/// The register that an MDIC command names is one of the PHY's.
pub proof fn lemma_mdic_reg_bound(v: u32)
    ensures
        0 <= mdic_reg(v) < E1000_PHY_REGS,
{
    assert((v & 0x001f_0000u32) >> 16 < 32) by (bit_vector);
}

/// One more read of MDIC that finds no command completed is the next of the
/// reads that `mdic_waited` counts.
pub proof fn lemma_one_more_wait(nic: Nic, count: nat)
    requires
        nic.phy_wait.busy ==> count < nic.phy_wait.lag,
    ensures
        nic.mdic_waited(count).after_read(E1000_MDIC as int) == nic.mdic_waited(count + 1),
        nic.mdic_waited(count).read_value(E1000_MDIC as int) == if nic.phy_wait.busy {
            nic.regs[E1000_MDIC as int] & !E1000_MDIC_READY
        } else {
            nic.regs[E1000_MDIC as int]
        },
{
    assert(nic.mdic_waited(count).after_read(E1000_MDIC as int).log =~= nic.mdic_waited(
        count + 1,
    ).log);
}

/// No read of MDIC is no change.
pub proof fn lemma_no_wait(nic: Nic)
    ensures
        nic.mdic_waited(0) == nic,
{
    assert(nic.mdic_waited(0).log =~= nic.log);
}

} // verus!
