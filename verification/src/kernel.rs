//! The services that the engine needs from its host.

use vstd::prelude::*;
use crate::e1000_const::E1000_REG_WORDS;
use crate::hw::Hw;
use crate::hw::PAGE_SIZE;

verus! {

/// Kernel functions that drivers must use: DMA memory, access to it and to the
/// register window, and memory barriers.
///
/// The contracts bind a host to the model in [`crate::hw`]: what `hw` shows
/// before a call and after it are related as the model says. The engine is
/// proved for every host that keeps them, and of no other. Of the hosts in
/// this crate, [`SimKernel`](crate::sim::SimKernel) is proved to keep them. A
/// host on real hardware keeps them as far as the controller behaves as the
/// model has it, and while the controller is at rest: what the controller
/// does on its own between two calls is not in the model.
pub trait KernelFunc {
    /// The hardware behind this host. A host that is not modelled leaves it
    /// open.
    open spec fn hw(&self) -> Hw {
        arbitrary()
    }

    /// Allocate consecutive pages of DMA-coherent memory. Returns the address
    /// at which the CPU sees them and the address at which the controller
    /// does, both page aligned, or a null first address when the host has not
    /// that many pages left.
    fn dma_alloc_coherent(&mut self, pages: usize) -> (got: (usize, usize))
        requires
            old(self).hw().wf(),
        ensures
            final(self).hw().wf(),
            old(self).hw().allocates(pages, got, final(self).hw()),
    ;

    /// Give back the region at `vaddr`, which was allocated with `pages`
    /// pages. The controller must not use it any more.
    fn dma_free_coherent(&mut self, vaddr: usize, pages: usize)
        requires
            old(self).hw().wf(),
            old(self).hw().dma.contains_key(vaddr),
            old(self).hw().dma[vaddr].bytes.len() == pages * PAGE_SIZE,
        ensures
            final(self).hw().wf(),
            old(self).hw().frees(vaddr, final(self).hw()),
    ;

    /// Volatile read of the 32-bit register `reg` of the window mapped at
    /// `base`.
    fn mmio_read(&mut self, base: usize, reg: usize) -> (v: u32)
        requires
            old(self).hw().wf(),
            base == old(self).hw().mmio_base,
            reg < E1000_REG_WORDS,
        ensures
            final(self).hw().wf(),
            v == old(self).hw().nic.read_value(reg as int),
            final(self).hw() == old(self).hw().after_reg_read(reg as int),
    ;

    /// Volatile write of `v` to the 32-bit register `reg` of the window mapped
    /// at `base`.
    fn mmio_write(&mut self, base: usize, reg: usize, v: u32)
        requires
            old(self).hw().wf(),
            base == old(self).hw().mmio_base,
            reg < E1000_REG_WORDS,
        ensures
            final(self).hw().wf(),
            final(self).hw() == old(self).hw().after_reg_write(reg as int, v),
    ;

    /// Read the byte at `offset` of the DMA region at `region`.
    fn dma_read_u8(&self, region: usize, offset: usize) -> (v: u8)
        requires
            self.hw().wf(),
            self.hw().mapped(region, offset as int, 1),
        ensures
            v == self.hw().dma[region].bytes[offset as int],
    ;

    /// Write `v` to the byte at `offset` of the DMA region at `region`.
    fn dma_write_u8(&mut self, region: usize, offset: usize, v: u8)
        requires
            old(self).hw().wf(),
            old(self).hw().mapped(region, offset as int, 1),
        ensures
            final(self).hw().wf(),
            final(self).hw() == old(self).hw().after_dma_write(region, offset as int, seq![v]),
    ;

    /// Copy `len` bytes out of the DMA region at `region`, from `offset` on.
    fn dma_read(&self, region: usize, offset: usize, len: usize) -> (data: Vec<u8>)
        requires
            self.hw().wf(),
            self.hw().mapped(region, offset as int, len as int),
        ensures
            data@ == self.hw().dma_bytes(region, offset as int, len as int),
    ;

    /// Copy `data` into the DMA region at `region`, from `offset` on.
    fn dma_write(&mut self, region: usize, offset: usize, data: &[u8])
        requires
            old(self).hw().wf(),
            old(self).hw().mapped(region, offset as int, data@.len() as int),
        ensures
            final(self).hw().wf(),
            final(self).hw() == old(self).hw().after_dma_write(region, offset as int, data@),
    ;

    /// Full memory barrier.
    fn fence(&mut self)
        requires
            old(self).hw().wf(),
        ensures
            final(self).hw() == old(self).hw().after_fence(),
    ;

    /// Write barrier: earlier writes are visible to the controller before
    /// later ones.
    fn fence_w(&mut self)
        requires
            old(self).hw().wf(),
        ensures
            final(self).hw() == old(self).hw().after_fence_w(),
    ;
}

} // verus!
