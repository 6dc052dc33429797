//! The PCI identity of the controllers that the engine drives, and where the
//! host finds them in configuration space.

use vstd::prelude::*;

verus! {

/// E1000 registers which were mapped
pub const E1000_REGS: u32 = 0x4000_0000;

/// Qemu virt PCIe config space
pub const ECAM: u32 = 0x3000_0000;

/// The vendor of every controller of the family.
pub const VENDOR_ID_INTEL: u16 = 0x8086;

/// 82540EM
pub const DEVICE_ID_INTEL_82540EM: u16 = 0x100e;

/// 82574L
pub const DEVICE_ID_INTEL_82574L: u16 = 0x10d3;

/// I219
pub const DEVICE_ID_INTEL_I219: u16 = 0x15fc;

/// Number of devices on a PCI bus.
pub const PCI_DEVICES: u32 = 32;

/// Number of base address registers of a device.
pub const PCI_BARS: usize = 6;

/// Index of the command and status word in the configuration space of a
/// device.
pub const PCI_COMMAND: usize = 1;

/// Index of the first base address register in the configuration space of a
/// device.
pub const PCI_BAR0: usize = 4;

/// What the command register gets: I/O access, memory access, bus mastering.
pub const PCI_COMMAND_ENABLE: u32 = 0x7;

/// The vendor and device are those of a controller that the engine drives.
pub open spec fn spec_is_e1000(vendor: u16, device: u16) -> bool {
    vendor == VENDOR_ID_INTEL && (device == DEVICE_ID_INTEL_82540EM || device
        == DEVICE_ID_INTEL_82574L || device == DEVICE_ID_INTEL_I219)
}

/// The vendor and device are those of a controller that the engine drives.
pub fn is_e1000(vendor: u16, device: u16) -> (b: bool)
    ensures
        b == spec_is_e1000(vendor, device),
{
    vendor == VENDOR_ID_INTEL && (device == DEVICE_ID_INTEL_82540EM || device
        == DEVICE_ID_INTEL_82574L || device == DEVICE_ID_INTEL_I219)
}

/// The vendor in the first word of a configuration space: its low half.
pub open spec fn spec_id_vendor(id: u32) -> u16 {
    (id & 0xffff) as u16
}

/// The device in the first word of a configuration space: its high half.
pub open spec fn spec_id_device(id: u32) -> u16 {
    (id >> 16) as u16
}

/// The first word of a configuration space is that of a controller that the
/// engine drives.
pub fn id_is_e1000(id: u32) -> (b: bool)
    ensures
        b == spec_is_e1000(spec_id_vendor(id), spec_id_device(id)),
{
    let vendor: u16 = #[verifier::truncate] ((id & 0xffff) as u16);
    let device: u16 = #[verifier::truncate] ((id >> 16) as u16);
    is_e1000(vendor, device)
}

/// Offset of a word in the configuration space of the bus: the bus in bits
/// 16 and up, the device in bits 11 to 15, the function in bits 8 to 10, the
/// offset of the word below.
pub open spec fn spec_config_offset(bus: u32, dev: u32, func: u32, offset: u32) -> u32 {
    (bus << 16) | (dev << 11) | (func << 8) | offset
}

/// Offset of a word in the configuration space of the bus.
pub fn config_offset(bus: u32, dev: u32, func: u32, offset: u32) -> (off: u32)
    ensures
        off == spec_config_offset(bus, dev, func, offset),
{
    (bus << 16) | (dev << 11) | (func << 8) | offset
}

} // verus!
