//! Register offsets and bit definitions of the 82540EP/EM and its relatives.
//!
//! Register constants are indices of 32-bit words in the register window, that
//! is the byte offset of the manual divided by four.

use vstd::prelude::*;

verus! {

/// Number of 32-bit words in the register window (128 KiB).
pub const E1000_REG_WORDS: usize = 0x8000;

/// Number of registers of the PHY that MDIC can address.
pub const E1000_PHY_REGS: usize = 32;

// Registers

/// Device Control - RW
pub const E1000_CTL: usize = 0x00000 / 4;
/// Device Status - R
pub const E1000_STAT: usize = 0x00008 / 4;
/// Extended Device Control - RW
pub const E1000_CTRL_EXT: usize = 0x00018 / 4;
/// MDI Control - RW
pub const E1000_MDIC: usize = 0x00020 / 4;
/// Interrupt Cause Read - R, cleared by the read
pub const E1000_ICR: usize = 0x000C0 / 4;
/// Interrupt Throttling Rate - RW
pub const E1000_ITR: usize = 0x000C4 / 4;
/// Interrupt Cause Set - WO
pub const E1000_ICS: usize = 0x000C8 / 4;
/// Interrupt Mask Set - RW
pub const E1000_IMS: usize = 0x000D0 / 4;
/// Interrupt Mask Clear - WO
pub const E1000_IMC: usize = 0x000D8 / 4;
/// RX Control - RW
pub const E1000_RCTL: usize = 0x00100 / 4;
/// TX Control - RW
pub const E1000_TCTL: usize = 0x00400 / 4;
/// TX Inter-packet gap - RW
pub const E1000_TIPG: usize = 0x00410 / 4;
/// RX Descriptor Base Address Low - RW
pub const E1000_RDBAL: usize = 0x02800 / 4;
/// RX Descriptor Base Address High - RW
pub const E1000_RDBAH: usize = 0x02804 / 4;
/// RX Descriptor Length - RW
pub const E1000_RDLEN: usize = 0x02808 / 4;
/// RX Descriptor Head - RW
pub const E1000_RDH: usize = 0x02810 / 4;
/// RX Descriptor Tail - RW
pub const E1000_RDT: usize = 0x02818 / 4;
/// RX Delay Timer - RW
pub const E1000_RDTR: usize = 0x02820 / 4;
/// RX Interrupt Absolute Delay Timer - RW
pub const E1000_RADV: usize = 0x0282C / 4;
/// RX Small Packet Detect Interrupt - RW
pub const E1000_RSRPD: usize = 0x02C00 / 4;
/// TX Descriptor Base Address Low - RW
pub const E1000_TDBAL: usize = 0x03800 / 4;
/// TX Descriptor Base Address High - RW
pub const E1000_TDBAH: usize = 0x03804 / 4;
/// TX Descriptor Length - RW
pub const E1000_TDLEN: usize = 0x03808 / 4;
/// TX Descriptor Head - RW
pub const E1000_TDH: usize = 0x03810 / 4;
/// TX Descriptor Tail - RW
pub const E1000_TDT: usize = 0x03818 / 4;
/// TX Interrupt Delay Value - RW
pub const E1000_TIDV: usize = 0x03820 / 4;
/// TX Descriptor Control, queue 0 - RW
pub const E1000_TXDCTL0: usize = 0x03828 / 4;
/// TX Interrupt Absolute Delay Value - RW
pub const E1000_TADV: usize = 0x0382C / 4;
/// TX Descriptor Control, queue 1 - RW
pub const E1000_TXDCTL1: usize = 0x03928 / 4;
/// Receive Filter Control - RW
pub const E1000_RFCTL: usize = 0x05008 / 4;
/// Multicast Table Array - RW, 128 words
pub const E1000_MTA: usize = 0x05200 / 4;
/// Receive Address array - RW
pub const E1000_RA: usize = 0x05400 / 4;

/// Number of words of the multicast table array.
pub const E1000_MTA_WORDS: usize = 128;

// Device Control

/// Auto-Speed Detection Enable
pub const E1000_CTL_ASDE: u32 = 0x0000_0020;
/// Set link up
pub const E1000_CTL_SLU: u32 = 0x0000_0040;
/// Force speed
pub const E1000_CTL_FRCSPD: u32 = 0x0000_0800;
/// Force duplex
pub const E1000_CTL_FRCDPLX: u32 = 0x0000_1000;
/// Device reset
pub const E1000_CTL_RST: u32 = 0x0400_0000;
/// PHY reset
pub const E1000_CTL_PHY_RST: u32 = 0x8000_0000;

/// Relaxed ordering disable
pub const E1000_CTRL_EXT_RO_DIS: u32 = 0x0002_0000;

// Transmit Control

/// Software reset
pub const E1000_TCTL_RST: u32 = 0x0000_0001;
/// Enable transmitter
pub const E1000_TCTL_EN: u32 = 0x0000_0002;
/// Busy check enable
pub const E1000_TCTL_BCE: u32 = 0x0000_0004;
/// Pad short packets
pub const E1000_TCTL_PSP: u32 = 0x0000_0008;
/// Collision threshold field
pub const E1000_TCTL_CT: u32 = 0x0000_0ff0;
pub const E1000_TCTL_CT_SHIFT: u32 = 4;
/// Collision distance field
pub const E1000_TCTL_COLD: u32 = 0x003f_f000;
pub const E1000_TCTL_COLD_SHIFT: u32 = 12;
/// Software XOFF transmission
pub const E1000_TCTL_SWXOFF: u32 = 0x0040_0000;
/// Packet burst enable
pub const E1000_TCTL_PBE: u32 = 0x0080_0000;
/// Re-transmit on late collision
pub const E1000_TCTL_RTLC: u32 = 0x0100_0000;
/// No re-transmit on underrun
pub const E1000_TCTL_NRTU: u32 = 0x0200_0000;
/// Multiple request support
pub const E1000_TCTL_MULR: u32 = 0x1000_0000;

/// What the engine programs into TCTL: enabled, short packets padded,
/// re-transmission on late collision, collision threshold 0x0F and collision
/// distance 0x3F.
pub const E1000_TCTL_INIT: u32 = 0x0103_f0fa;

/// What the engine programs into TIPG: 10, 8 and 6 in its three fields.
pub const E1000_TIPG_INIT: u32 = 0x0060_200a;

// Transmit Descriptor Control

pub const E1000_TXDCTL_GRAN_SHIFT: u32 = 24;
/// Prefetch threshold field
pub const E1000_TXDCTL_PTHRESH: u32 = 0x0000_003f;
/// Host threshold field
pub const E1000_TXDCTL_HTHRESH: u32 = 0x0000_3f00;
/// Write-back threshold field
pub const E1000_TXDCTL_WTHRESH: u32 = 0x003f_0000;
/// Granularity in descriptors, write-back threshold of one
pub const E1000_TXDCTL_FULL_TX_DESC_WB: u32 = 0x0101_0000;
/// Granularity in descriptors, prefetch threshold of 31
pub const E1000_TXDCTL_MAX_TX_DESC_PREFETCH: u32 = 0x0100_001f;

// Receive Control

/// Software reset
pub const E1000_RCTL_RST: u32 = 0x0000_0001;
/// Enable receiver
pub const E1000_RCTL_EN: u32 = 0x0000_0002;
/// Store bad packets
pub const E1000_RCTL_SBP: u32 = 0x0000_0004;
/// Unicast promiscuous enable
pub const E1000_RCTL_UPE: u32 = 0x0000_0008;
/// Multicast promiscuous enable
pub const E1000_RCTL_MPE: u32 = 0x0000_0010;
/// Long packet enable
pub const E1000_RCTL_LPE: u32 = 0x0000_0020;
/// Descriptor type field; zero selects the legacy descriptor
pub const E1000_RCTL_DTYP_MASK: u32 = 0x0000_0c00;
/// Broadcast accept
pub const E1000_RCTL_BAM: u32 = 0x0000_8000;
/// 2048-byte receive buffers
pub const E1000_RCTL_SZ_2048: u32 = 0x0000_0000;
/// 1024-byte receive buffers
pub const E1000_RCTL_SZ_1024: u32 = 0x0001_0000;
/// 512-byte receive buffers
pub const E1000_RCTL_SZ_512: u32 = 0x0002_0000;
/// 256-byte receive buffers
pub const E1000_RCTL_SZ_256: u32 = 0x0003_0000;
/// Buffer size extension
pub const E1000_RCTL_BSEX: u32 = 0x0200_0000;
/// Strip Ethernet CRC
pub const E1000_RCTL_SECRC: u32 = 0x0400_0000;

/// What the engine programs into RCTL: enabled, broadcast accepted, 2048-byte
/// buffers, CRC stripped, legacy descriptors.
pub const E1000_RCTL_INIT: u32 = 0x0400_8002;

// Interrupt causes and masks

/// Transmit descriptor written back
pub const E1000_IMS_TXDW: u32 = 0x0000_0001;
/// Transmit queue empty
pub const E1000_IMS_TXQE: u32 = 0x0000_0002;
/// Link status change
pub const E1000_IMS_LSC: u32 = 0x0000_0004;
/// Receive sequence error
pub const E1000_IMS_RXSEQ: u32 = 0x0000_0008;
/// Receive descriptor minimum threshold hit
pub const E1000_IMS_RXDMT0: u32 = 0x0000_0010;
/// Receiver timer interrupt of ring 0
pub const E1000_IMS_RXT0: u32 = 0x0000_0080;

/// Link status change
pub const E1000_ICR_LSC: u32 = 0x0000_0004;
/// Receiver timer interrupt of ring 0
pub const E1000_ICR_RXT0: u32 = 0x0000_0080;

/// The causes the engine asks interrupts for: the receiver timer and link
/// status changes.
pub const IMS_ENABLE_MASK: u32 = 0x0000_0084;

// MDI Control

pub const E1000_MDIC_DATA_MASK: u32 = 0x0000_ffff;
pub const E1000_MDIC_REG_MASK: u32 = 0x001f_0000;
pub const E1000_MDIC_REG_SHIFT: u32 = 16;
pub const E1000_MDIC_PHY_MASK: u32 = 0x03e0_0000;
pub const E1000_MDIC_PHY_SHIFT: u32 = 21;
pub const E1000_MDIC_OP_WRITE: u32 = 0x0400_0000;
pub const E1000_MDIC_OP_READ: u32 = 0x0800_0000;
pub const E1000_MDIC_OP_MASK: u32 = 0x0c00_0000;
pub const E1000_MDIC_READY: u32 = 0x1000_0000;
pub const E1000_MDIC_INT_EN: u32 = 0x2000_0000;
pub const E1000_MDIC_ERROR: u32 = 0x4000_0000;

/// Address of the PHY on the management interface, in place in MDIC.
pub const E1000_MDIC_PHY_ADDR: u32 = 0x0020_0000;

/// How often MDIC is read for its READY bit, after a command, before the
/// command is given once more or the operation counts as timed out.
pub const PHY_POLL_LIMIT: usize = 640;

// PHY registers and their bits

/// PHY control register
pub const PHY_CTRL: u32 = 0;
pub const MII_CR_POWER_DOWN: u16 = 0x0800;
pub const BMCR_SPEED10: u16 = 0x0000;
pub const BMCR_SPEED100: u16 = 0x2000;
pub const BMCR_SPEED1000: u16 = 0x0040;

// Descriptors

/// Largest frame the controller takes without long packet enable.
pub const DATA_MAX: u32 = 1518;

/// End of packet
pub const E1000_TXD_CMD_EOP: u8 = 0x01;
/// Insert the frame check sequence
pub const E1000_TXD_CMD_IFCS: u8 = 0x02;
/// Report status
pub const E1000_TXD_CMD_RS: u8 = 0x08;
/// Descriptor done
pub const E1000_TXD_STAT_DD: u8 = 0x01;
/// Descriptor done
pub const E1000_RXD_STAT_DD: u8 = 0x01;
/// End of packet
pub const E1000_RXD_STAT_EOP: u8 = 0x02;

/// Status of a receive descriptor that holds a whole frame: done, end of
/// packet.
pub const E1000_RXD_STAT_DONE: u8 = 0x03;

/// The command byte of every frame handed to the controller: report status,
/// end of packet, insert the frame check sequence.
pub const E1000_TXD_CMD_SEND: u8 = 0x0b;

} // verus!
