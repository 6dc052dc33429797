//! An in-memory host with a simulated controller behind it.
//!
//! [`SimKernel`] keeps the register file, the PHY and the DMA memory in
//! ordinary vectors and answers every access as the model in [`crate::hw`]
//! says.

use vstd::prelude::*;
use crate::e1000_const::E1000_ICR;
use crate::e1000_const::E1000_ICS;
use crate::e1000_const::E1000_IMC;
use crate::e1000_const::E1000_IMS;
use crate::e1000_const::E1000_MDIC;
use crate::e1000_const::E1000_MDIC_DATA_MASK;
use crate::e1000_const::E1000_MDIC_OP_MASK;
use crate::e1000_const::E1000_MDIC_OP_READ;
use crate::e1000_const::E1000_MDIC_OP_WRITE;
use crate::e1000_const::E1000_MDIC_READY;
use crate::e1000_const::E1000_MDIC_REG_MASK;
use crate::e1000_const::E1000_PHY_REGS;
use crate::e1000_const::E1000_RDT;
use crate::e1000_const::E1000_REG_WORDS;
use crate::e1000_const::E1000_STAT;
use crate::e1000_const::E1000_TDT;
use crate::hw::Access;
use crate::hw::DmaRegion;
use crate::hw::Hw;
use crate::hw::Nic;
use crate::hw::PAGE_SIZE;
use crate::hw::PhyWait;
use crate::hw::lemma_mdic_reg_bound;
use crate::hw::region_ok;
use crate::hw::splice;
use crate::kernel::KernelFunc;

verus! {

/// The address at which the simulated register window is mapped.
pub const SIM_MMIO_BASE: usize = 0x4000_0000;

/// The address at which the CPU sees the first page of simulated DMA memory.
pub const SIM_DMA_VADDR: usize = 0x1000_0000;

/// The address at which the controller sees the first page of simulated DMA
/// memory.
pub const SIM_DMA_PADDR: usize = 0x0800_0000;

/// The largest number of pages of simulated DMA memory.
pub const SIM_MAX_PAGES: usize = 0x4000;

/// One allocation of simulated DMA memory.
struct SimRegion {
    /// Allocated and not given back.
    live: bool,
    /// What the region holds.
    bytes: Vec<u8>,
}

/// The simulated controller: its register file and its PHY.
struct SimNic {
    regs: Vec<u32>,
    phy: Vec<u16>,
    phy_lag: usize,
    phy_busy: bool,
    unfenced: bool,
    unflushed: bool,
    tail_hazard: bool,
    log: Ghost<Seq<Access>>,
}

/// The simulated DMA memory: a run of pages that are handed out from the
/// first on and never twice.
struct SimDma {
    /// One entry for each page. The entry of a page at which a region starts
    /// describes the region.
    table: Vec<SimRegion>,
    /// The first page that was never handed out.
    next_page: usize,
}

/// An in-memory host.
pub struct SimKernel {
    nic: SimNic,
    dma: SimDma,
}

/// The page of simulated DMA memory at which `vaddr` lies.
pub open spec fn sim_page(vaddr: usize) -> int {
    (vaddr - SIM_DMA_VADDR) / (PAGE_SIZE as int)
}

/// `vaddr` is the address of the first byte of a page of simulated DMA memory.
pub open spec fn sim_page_start(vaddr: usize) -> bool {
    vaddr >= SIM_DMA_VADDR && (vaddr - SIM_DMA_VADDR) % (PAGE_SIZE as int) == 0
}

/// Every region of `dma` is usable.
pub open spec fn regions_ok(dma: Map<usize, DmaRegion>) -> bool {
    forall|v: usize| #[trigger] dma.contains_key(v) ==> region_ok(v, dma[v])
}

impl View for SimNic {
    type V = Nic;

    closed spec fn view(&self) -> Nic {
        Nic {
            regs: self.regs@,
            phy: self.phy@,
            phy_wait: PhyWait { lag: self.phy_lag as nat, busy: self.phy_busy },
            unfenced: self.unfenced,
            unflushed: self.unflushed,
            tail_hazard: self.tail_hazard,
            log: self.log@,
        }
    }
}

impl SimNic {
    #[verifier::type_invariant]
    spec fn inv(self) -> bool {
        &&& self.regs@.len() == E1000_REG_WORDS
        &&& self.phy@.len() == E1000_PHY_REGS
    }

    /// A controller with every register zero, and a PHY with every register
    /// zero, which is idle and has a lag of `phy_lag` reads.
    fn new(phy_lag: usize) -> (nic: SimNic)
        ensures
            nic@.wf(),
            nic@.regs == Seq::new(E1000_REG_WORDS as nat, |i: int| 0u32),
            nic@.phy == Seq::new(E1000_PHY_REGS as nat, |i: int| 0u16),
            nic@.phy_wait == (PhyWait { lag: phy_lag as nat, busy: false }),
            nic@.settled(),
            nic@.log == Seq::<Access>::empty(),
    {
        let mut regs: Vec<u32> = Vec::new();
        while regs.len() < E1000_REG_WORDS
            invariant
                regs@.len() <= E1000_REG_WORDS,
                forall|i: int| 0 <= i < regs@.len() ==> regs@[i] == 0,
            decreases E1000_REG_WORDS - regs@.len(),
        {
            regs.push(0);
        }
        let mut phy: Vec<u16> = Vec::new();
        while phy.len() < E1000_PHY_REGS
            invariant
                phy@.len() <= E1000_PHY_REGS,
                forall|i: int| 0 <= i < phy@.len() ==> phy@[i] == 0,
            decreases E1000_PHY_REGS - phy@.len(),
        {
            phy.push(0);
        }
        let nic = SimNic {
            regs,
            phy,
            phy_lag,
            phy_busy: false,
            unfenced: false,
            unflushed: false,
            tail_hazard: false,
            log: Ghost(Seq::empty()),
        };
        nic
    }

    /// What register `reg` holds, without the effects of a read.
    fn peek(&self, reg: usize) -> (v: u32)
        requires
            reg < E1000_REG_WORDS,
        ensures
            self@.wf(),
            v == self@.regs[reg as int],
    {
        proof {
            use_type_invariant(self);
        }
        self.regs[reg]
    }

    /// Number of reads of MDIC that the PHY still lets pass.
    fn peek_lag(&self) -> (lag: usize)
        ensures
            lag == self@.phy_wait.lag,
    {
        self.phy_lag
    }

    /// What register `reg` of the PHY holds.
    fn peek_phy(&self, reg: usize) -> (v: u16)
        requires
            reg < E1000_PHY_REGS,
        ensures
            self@.wf(),
            v == self@.phy[reg as int],
    {
        proof {
            use_type_invariant(self);
        }
        self.phy[reg]
    }

    /// Puts `v` into register `reg` as the controller itself does, without
    /// the effects of a write.
    fn store(&mut self, reg: usize, v: u32)
        requires
            reg < E1000_REG_WORDS,
        ensures
            final(self)@.wf(),
            final(self)@ == old(self)@.with_reg(reg as int, v),
    {
        proof {
            use_type_invariant(&*self);
        }
        self.regs[reg] = v;
    }

    fn read(&mut self, reg: usize) -> (v: u32)
        requires
            reg < E1000_REG_WORDS,
        ensures
            final(self)@.wf(),
            v == old(self)@.read_value(reg as int),
            final(self)@ == old(self)@.after_read(reg as int),
    {
        proof {
            use_type_invariant(&*self);
            lemma_mdic_reg_bound(self.regs@[E1000_MDIC as int]);
            self.log@ = self.log@.push(Access::RegRead { reg: reg as int });
        }
        let held = self.regs[reg];
        if reg == E1000_MDIC && self.phy_busy {
            if self.phy_lag > 0 {
                self.phy_lag = self.phy_lag - 1;
                return held & !E1000_MDIC_READY;
            }
            let r = ((held & E1000_MDIC_REG_MASK) >> 16) as usize;
            let op = held & E1000_MDIC_OP_MASK;
            let done = if op == E1000_MDIC_OP_READ {
                let p = self.phy[r];
                (held & !E1000_MDIC_DATA_MASK) | (p as u32) | E1000_MDIC_READY
            } else {
                held | E1000_MDIC_READY
            };
            if op == E1000_MDIC_OP_WRITE {
                self.phy[r] = #[verifier::truncate] ((held & E1000_MDIC_DATA_MASK) as u16);
            }
            self.regs[E1000_MDIC] = done;
            self.phy_busy = false;
            return done;
        }
        if reg == E1000_ICR {
            self.regs[reg] = 0;
        }
        if reg == E1000_STAT {
            self.unflushed = false;
        }
        held
    }

    /// Gives the PHY a lag of `lag` reads of MDIC.
    fn set_lag(&mut self, lag: usize)
        ensures
            final(self)@.wf(),
            final(self)@ == (Nic {
                phy_wait: PhyWait { lag: lag as nat, ..old(self)@.phy_wait },
                ..old(self)@
            }),
    {
        proof {
            use_type_invariant(&*self);
        }
        self.phy_lag = lag;
    }

    fn write(&mut self, reg: usize, v: u32)
        requires
            reg < E1000_REG_WORDS,
        ensures
            final(self)@.wf(),
            final(self)@ == old(self)@.after_write(reg as int, v),
    {
        proof {
            use_type_invariant(&*self);
            lemma_mdic_reg_bound(v);
            self.log@ = self.log@.push(Access::RegWrite { reg: reg as int, value: v });
        }
        if (reg == E1000_TDT || reg == E1000_RDT) && self.unfenced {
            self.tail_hazard = true;
        }
        if reg == E1000_IMS {
            let m = self.regs[E1000_IMS];
            self.regs[E1000_IMS] = m | v;
        } else if reg == E1000_IMC {
            let m = self.regs[E1000_IMS];
            self.regs[E1000_IMS] = m & !v;
        } else if reg == E1000_ICS {
            let c = self.regs[E1000_ICR];
            self.regs[E1000_ICR] = c | v;
        } else if reg == E1000_ICR {
            let c = self.regs[E1000_ICR];
            self.regs[E1000_ICR] = c & !v;
        } else if reg == E1000_STAT {
            // read-only
        } else if reg == E1000_MDIC {
            self.regs[E1000_MDIC] = v & !E1000_MDIC_READY;
            self.phy_busy = true;
        } else {
            self.regs[reg] = v;
        }
    }
}

impl SimNic {
    /// Notes a write of `data` to DMA memory.
    fn note_dma_write(
        &mut self,
        Ghost(region): Ghost<usize>,
        Ghost(offset): Ghost<int>,
        Ghost(data): Ghost<Seq<u8>>,
    )
        ensures
            final(self)@.wf(),
            final(self)@ == old(self)@.after_dma_write(region, offset, data),
    {
        proof {
            use_type_invariant(&*self);
            self.log@ = self.log@.push(Access::DmaWrite { region, offset, data });
        }
        self.unfenced = true;
        self.unflushed = true;
    }

    /// Notes that `pages` pages were handed out at `vaddr`.
    fn note_alloc(&mut self, Ghost(pages): Ghost<usize>, Ghost(vaddr): Ghost<usize>)
        ensures
            final(self)@.wf(),
            final(self)@ == old(self)@.after_alloc(pages, vaddr),
    {
        proof {
            use_type_invariant(&*self);
            self.log@ = self.log@.push(Access::DmaAlloc { pages, vaddr });
        }
    }

    /// Notes that the region at `vaddr` was given back.
    fn note_free(&mut self, Ghost(vaddr): Ghost<usize>)
        ensures
            final(self)@.wf(),
            final(self)@ == old(self)@.after_free(vaddr),
    {
        proof {
            use_type_invariant(&*self);
            self.log@ = self.log@.push(Access::DmaFree { vaddr });
        }
    }

    /// Notes a barrier, a full one if `full` says so.
    fn note_fence(&mut self, full: bool)
        ensures
            final(self)@.wf(),
            final(self)@ == if full {
                old(self)@.after_fence()
            } else {
                old(self)@.after_fence_w()
            },
    {
        proof {
            use_type_invariant(&*self);
            if full {
                self.log@ = self.log@.push(Access::Fence);
            } else {
                self.log@ = self.log@.push(Access::FenceW);
            }
        }
        self.unfenced = false;
    }

    /// Every write to DMA memory has been fenced and flushed, and no tail
    /// register was written ahead of a barrier.
    fn settled(&self) -> (b: bool)
        ensures
            b == self@.settled(),
    {
        !self.unfenced && !self.unflushed && !self.tail_hazard
    }
}

impl View for SimDma {
    type V = Map<usize, DmaRegion>;

    closed spec fn view(&self) -> Map<usize, DmaRegion> {
        Map::new(
            |v: usize|
                sim_page_start(v) && sim_page(v) < self.table@.len()
                    && self.table@[sim_page(v)].live,
            |v: usize|
                DmaRegion {
                    paddr: (v - SIM_DMA_VADDR + SIM_DMA_PADDR) as usize,
                    bytes: self.table@[sim_page(v)].bytes@,
                },
        )
    }
}

impl SimDma {
    #[verifier::type_invariant]
    spec fn inv(self) -> bool {
        &&& self.table@.len() <= SIM_MAX_PAGES
        &&& self.next_page <= self.table@.len()
        &&& forall|p: int|
            0 <= p < self.table@.len() && (#[trigger] self.table@[p]).live ==> {
                &&& p < self.next_page
                &&& self.table@[p].bytes@.len() > 0
                &&& self.table@[p].bytes@.len() % (PAGE_SIZE as nat) == 0
                &&& p * PAGE_SIZE + self.table@[p].bytes@.len() <= self.next_page * PAGE_SIZE
            }
    }

    /// Number of pages that were never handed out.
    closed spec fn free(&self) -> nat {
        (self.table@.len() - self.next_page) as nat
    }

    /// `pages` pages of memory, none of them handed out.
    fn new(pages: usize) -> (dma: SimDma)
        requires
            pages <= SIM_MAX_PAGES,
        ensures
            dma@ == Map::<usize, DmaRegion>::empty(),
            dma.free() == pages,
    {
        let mut table: Vec<SimRegion> = Vec::new();
        while table.len() < pages
            invariant
                table@.len() <= pages,
                forall|i: int| 0 <= i < table@.len() ==> !(#[trigger] table@[i]).live,
            decreases pages - table@.len(),
        {
            table.push(SimRegion { live: false, bytes: Vec::new() });
        }
        let dma = SimDma { table, next_page: 0 };
        dma
    }

    fn free_pages(&self) -> (n: usize)
        ensures
            n == self.free(),
            regions_ok(self@),
    {
        proof {
            use_type_invariant(self);
        }
        self.table.len() - self.next_page
    }

    fn alloc_region(&mut self, pages: usize) -> (got: (usize, usize))
        ensures
            regions_ok(old(self)@),
            regions_ok(final(self)@),
            if 0 < pages <= old(self).free() {
                &&& !old(self)@.contains_key(got.0)
                &&& final(self)@.contains_key(got.0)
                &&& final(self)@[got.0].paddr == got.1
                &&& final(self)@[got.0].bytes.len() == pages * PAGE_SIZE
                &&& final(self)@ == old(self)@.insert(got.0, final(self)@[got.0])
                &&& final(self).free() == old(self).free() - pages
            } else {
                &&& got.0 == 0
                &&& final(self)@ == old(self)@
                &&& final(self).free() == old(self).free()
            },
    {
        proof {
            use_type_invariant(&*self);
        }
        if pages == 0 || pages > self.table.len() - self.next_page {
            return (0, 0);
        }
        let page = self.next_page;
        let mut bytes: Vec<u8> = Vec::new();
        let len = pages * PAGE_SIZE;
        while bytes.len() < len
            invariant
                bytes@.len() <= len,
            decreases len - bytes@.len(),
        {
            bytes.push(0);
        }
        let mut taken = SimDma { table: Vec::new(), next_page: 0 };
        core::mem::swap(self, &mut taken);
        let SimDma { table, next_page } = taken;
        let mut table = table;
        table[page] = SimRegion { live: true, bytes };
        let vaddr = SIM_DMA_VADDR + page * PAGE_SIZE;
        let paddr = SIM_DMA_PADDR + page * PAGE_SIZE;
        let next = SimDma { table, next_page: page + pages };
        *self = next;
        (vaddr, paddr)
    }

    fn free_region(&mut self, vaddr: usize)
        requires
            old(self)@.contains_key(vaddr),
        ensures
            regions_ok(final(self)@),
            final(self)@ == old(self)@.remove(vaddr),
            final(self).free() == old(self).free(),
    {
        proof {
            use_type_invariant(&*self);
        }
        let page = (vaddr - SIM_DMA_VADDR) / PAGE_SIZE;
        let mut taken = SimDma { table: Vec::new(), next_page: 0 };
        core::mem::swap(self, &mut taken);
        let SimDma { table, next_page } = taken;
        let mut table = table;
        table[page] = SimRegion { live: false, bytes: Vec::new() };
        let next = SimDma { table, next_page };
        *self = next;
    }

    fn read_u8(&self, region: usize, offset: usize) -> (v: u8)
        requires
            self@.contains_key(region),
            offset < self@[region].bytes.len(),
        ensures
            v == self@[region].bytes[offset as int],
    {
        proof {
            use_type_invariant(self);
        }
        let page = (region - SIM_DMA_VADDR) / PAGE_SIZE;
        self.table[page].bytes[offset]
    }

    fn read(&self, region: usize, offset: usize, len: usize) -> (data: Vec<u8>)
        requires
            self@.contains_key(region),
            offset + len <= self@[region].bytes.len(),
        ensures
            data@ == self@[region].bytes.subrange(offset as int, offset + len),
    {
        proof {
            use_type_invariant(self);
        }
        let page = (region - SIM_DMA_VADDR) / PAGE_SIZE;
        let size = self.table[page].bytes.len();
        let mut data: Vec<u8> = Vec::with_capacity(len);
        let mut i: usize = 0;
        while i < len
            invariant
                i <= len,
                page < self.table@.len(),
                size == self.table@[page as int].bytes@.len(),
                offset + len <= self.table@[page as int].bytes@.len(),
                data@ == self.table@[page as int].bytes@.subrange(offset as int, offset + i),
            decreases len - i,
        {
            data.push(self.table[page].bytes[offset + i]);
            i = i + 1;
        }
        data
    }

    fn write(&mut self, region: usize, offset: usize, data: &[u8])
        requires
            old(self)@.contains_key(region),
            offset + data@.len() <= old(self)@[region].bytes.len(),
        ensures
            regions_ok(final(self)@),
            final(self).free() == old(self).free(),
            final(self)@ == old(self)@.insert(
                region,
                DmaRegion {
                    bytes: splice(old(self)@[region].bytes, offset as int, data@),
                    ..old(self)@[region]
                },
            ),
    {
        proof {
            use_type_invariant(&*self);
        }
        let page = (region - SIM_DMA_VADDR) / PAGE_SIZE;
        let ghost old_bytes = self.table@[page as int].bytes@;
        let mut taken = SimDma { table: Vec::new(), next_page: 0 };
        core::mem::swap(self, &mut taken);
        let SimDma { table, next_page } = taken;
        let mut table = table;
        let mut bytes: Vec<u8> = Vec::new();
        core::mem::swap(&mut bytes, &mut table[page].bytes);
        let size = bytes.len();
        let mut i: usize = 0;
        while i < data.len()
            invariant
                i <= data@.len(),
                offset + data@.len() <= old_bytes.len(),
                old_bytes.len() == size,
                bytes@ == splice(old_bytes, offset as int, data@.subrange(0, i as int)),
            decreases data@.len() - i,
        {
            bytes[offset + i] = data[i];
            i = i + 1;
        }
        core::mem::swap(&mut bytes, &mut table[page].bytes);
        let next = SimDma { table, next_page };
        proof {
            assert(data@.subrange(0, data@.len() as int) =~= data@);
        }
        *self = next;
    }
}

impl SimKernel {
    /// A host with `dma_pages` pages of DMA memory, `SIM_MAX_PAGES` at most,
    /// none of them handed out. Every register of the controller and of the
    /// PHY is zero. The PHY is idle, and lets `phy_lag` reads of MDIC pass
    /// before it shows a command completed.
    pub fn new(dma_pages: usize, phy_lag: usize) -> (k: SimKernel)
        ensures
            k.hw().wf(),
            k.hw().mmio_base == SIM_MMIO_BASE,
            k.hw().nic.regs == Seq::new(E1000_REG_WORDS as nat, |i: int| 0u32),
            k.hw().nic.phy == Seq::new(E1000_PHY_REGS as nat, |i: int| 0u16),
            k.hw().nic.phy_wait == (PhyWait { lag: phy_lag as nat, busy: false }),
            k.hw().nic.log == Seq::<Access>::empty(),
            k.hw().dma == Map::<usize, DmaRegion>::empty(),
            k.hw().free_pages == if dma_pages > SIM_MAX_PAGES {
                SIM_MAX_PAGES
            } else {
                dma_pages
            },
            k.hw().settled(),
    {
        let pages = if dma_pages > SIM_MAX_PAGES {
            SIM_MAX_PAGES
        } else {
            dma_pages
        };
        SimKernel { nic: SimNic::new(phy_lag), dma: SimDma::new(pages) }
    }

    /// What register `reg` holds, without the effects of a read.
    pub fn reg(&self, reg: usize) -> (v: u32)
        requires
            reg < E1000_REG_WORDS,
        ensures
            v == self.hw().nic.regs[reg as int],
    {
        self.nic.peek(reg)
    }

    /// What register `reg` of the PHY holds.
    pub fn phy_reg(&self, reg: usize) -> (v: u16)
        requires
            reg < E1000_PHY_REGS,
        ensures
            v == self.hw().nic.phy[reg as int],
    {
        self.nic.peek_phy(reg)
    }

    /// Number of reads of MDIC that the PHY still lets pass before it shows a
    /// command completed.
    pub fn phy_lag(&self) -> (lag: usize)
        ensures
            lag == self.hw().nic.phy_wait.lag,
    {
        self.nic.peek_lag()
    }

    /// Number of pages that can still be handed out.
    pub fn free_pages(&self) -> (n: usize)
        ensures
            n == self.hw().free_pages,
    {
        self.dma.free_pages()
    }

    /// Every write to DMA memory has been fenced and flushed, and no tail
    /// register was written ahead of a barrier.
    pub fn settled(&self) -> (b: bool)
        ensures
            b == self.hw().settled(),
    {
        self.nic.settled()
    }

    /// The PHY takes a lag of `lag` reads of MDIC.
    pub fn nic_set_phy_lag(&mut self, lag: usize)
        requires
            old(self).hw().wf(),
        ensures
            final(self).hw().wf(),
            final(self).hw() == (Hw {
                nic: Nic {
                    phy_wait: PhyWait { lag: lag as nat, ..old(self).hw().nic.phy_wait },
                    ..old(self).hw().nic
                },
                ..old(self).hw()
            }),
    {
        self.nic.set_lag(lag);
        assert(self.hw().dma == old(self).hw().dma);
    }

    /// The controller puts `v` into register `reg`.
    pub fn nic_store(&mut self, reg: usize, v: u32)
        requires
            old(self).hw().wf(),
            reg < E1000_REG_WORDS,
        ensures
            final(self).hw().wf(),
            final(self).hw() == old(self).hw().after_device_store(reg as int, v),
    {
        self.nic.store(reg, v);
        assert(self.hw().dma == old(self).hw().dma);
    }

    /// The controller writes `data` to the DMA region at `region`, from
    /// `offset` on.
    pub fn nic_write(&mut self, region: usize, offset: usize, data: &[u8])
        requires
            old(self).hw().wf(),
            old(self).hw().mapped(region, offset as int, data@.len() as int),
        ensures
            final(self).hw().wf(),
            final(self).hw() == old(self).hw().after_device_write(region, offset as int, data@),
    {
        self.dma.write(region, offset, data);
    }
}

impl KernelFunc for SimKernel {
    closed spec fn hw(&self) -> Hw {
        Hw {
            mmio_base: SIM_MMIO_BASE,
            nic: self.nic@,
            dma: self.dma@,
            free_pages: self.dma.free(),
        }
    }

    fn dma_alloc_coherent(&mut self, pages: usize) -> (got: (usize, usize)) {
        let got = self.dma.alloc_region(pages);
        if got.0 != 0 {
            self.nic.note_alloc(Ghost(pages), Ghost(got.0));
        }
        got
    }

    fn dma_free_coherent(&mut self, vaddr: usize, pages: usize) {
        self.dma.free_region(vaddr);
        self.nic.note_free(Ghost(vaddr));
    }

    fn mmio_read(&mut self, base: usize, reg: usize) -> (v: u32) {
        let v = self.nic.read(reg);
        assert(self.hw().dma == old(self).hw().dma);
        v
    }

    fn mmio_write(&mut self, base: usize, reg: usize, v: u32) {
        self.nic.write(reg, v);
        assert(self.hw().dma == old(self).hw().dma);
    }

    fn dma_read_u8(&self, region: usize, offset: usize) -> (v: u8) {
        self.dma.read_u8(region, offset)
    }

    fn dma_write_u8(&mut self, region: usize, offset: usize, v: u8) {
        let data: [u8; 1] = [v];
        assert(data@ =~= seq![v]);
        self.dma.write(region, offset, data.as_slice());
        self.nic.note_dma_write(Ghost(region), Ghost(offset as int), Ghost(data@));
    }

    fn dma_read(&self, region: usize, offset: usize, len: usize) -> (data: Vec<u8>) {
        self.dma.read(region, offset, len)
    }

    fn dma_write(&mut self, region: usize, offset: usize, data: &[u8]) {
        self.dma.write(region, offset, data);
        self.nic.note_dma_write(Ghost(region), Ghost(offset as int), Ghost(data@));
    }

    fn fence(&mut self) {
        self.nic.note_fence(true);
    }

    fn fence_w(&mut self) {
        self.nic.note_fence(false);
    }
}

} // verus!
