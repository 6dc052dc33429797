//! Driver core for the Intel 82540EP/EM family of Gigabit Ethernet controllers.
//!
//! The engine drives the controller through the narrow set of host services
//! of [`kernel::KernelFunc`]: DMA memory, access to it and to the register
//! window, and memory barriers. Every contract is stated over the model of
//! the hardware in [`hw`], which also keeps a log of every access, so that a
//! contract says what an operation did and in which order.
//!
//! - [`e1000_const`]: register offsets and bit definitions.
//! - [`hw`]: the model of the hardware.
//! - [`kernel`]: the host services.
//! - [`desc`]: the DMA descriptors and their layout in memory.
//! - [`ring`]: where rings and buffers lie, and how to read them out of the
//!   model.
//! - [`steps`], [`xfer`]: what each operation does to the hardware.
//! - [`e1000`], [`phy`], [`setup`]: the engine.
//! - [`host`]: the seam to the networking of the host.
//! - [`sim`]: an in-memory host.
//! - [`nic`]: the simulated controller behind that host.
//! - [`laws`]: what holds of the engine as a whole.
//! - [`pci`]: the PCI identity of the controllers.
//! - [`hexdump`]: a frame as text.

pub mod desc;
pub mod e1000;
pub mod e1000_const;
pub mod hexdump;
pub mod host;
pub mod hw;
pub mod kernel;
pub mod laws;
pub mod nic;
pub mod pci;
pub mod phy;
pub mod ring;
pub mod setup;
pub mod sim;
pub mod steps;
pub mod xfer;
