use e1000_driver::desc::u16_from_le;
use e1000_driver::desc::u16_le;
use e1000_driver::desc::u64_from_le;
use e1000_driver::desc::u64_le;
use e1000_driver::desc::RxDesc;
use e1000_driver::desc::TxDesc;
use e1000_driver::e1000_const::E1000_CTL;
use e1000_driver::e1000_const::E1000_ICR;
use e1000_driver::e1000_const::E1000_IMC;
use e1000_driver::e1000_const::E1000_IMS;
use e1000_driver::e1000_const::E1000_MDIC;
use e1000_driver::e1000_const::E1000_MTA;
use e1000_driver::e1000_const::E1000_RCTL_INIT;
use e1000_driver::e1000_const::E1000_RDT;
use e1000_driver::e1000_const::E1000_REG_WORDS;
use e1000_driver::e1000_const::E1000_STAT;
use e1000_driver::e1000_const::E1000_TCTL_INIT;
use e1000_driver::e1000_const::E1000_TDT;
use e1000_driver::e1000_const::E1000_TIPG_INIT;
use e1000_driver::e1000_const::E1000_TXDCTL1;
use e1000_driver::e1000_const::E1000_TXD_CMD_EOP;
use e1000_driver::e1000_const::E1000_TXD_CMD_IFCS;
use e1000_driver::e1000_const::E1000_TXD_CMD_RS;
use e1000_driver::e1000_const::E1000_TXD_CMD_SEND;
use e1000_driver::pci::config_offset;
use e1000_driver::pci::id_is_e1000;
use e1000_driver::pci::is_e1000;
use e1000_driver::ring::MBUF_SIZE;
use e1000_driver::xfer::clamp_len;
use e1000_driver::xfer::scrub_len;

#[test]
fn registers_are_word_indices() {
    assert_eq!(E1000_CTL, 0);
    assert_eq!(E1000_STAT * 4, 0x8);
    assert_eq!(E1000_MDIC * 4, 0x20);
    assert_eq!(E1000_ICR * 4, 0xc0);
    assert_eq!(E1000_IMS * 4, 0xd0);
    assert_eq!(E1000_IMC * 4, 0xd8);
    assert_eq!(E1000_RDT * 4, 0x2818);
    assert_eq!(E1000_TDT * 4, 0x3818);
    assert_eq!(E1000_TXDCTL1 * 4, 0x3928);
    assert_eq!(E1000_MTA * 4, 0x5200);
    assert_eq!(E1000_REG_WORDS * 4, 131072);
}

#[test]
fn control_words_are_composed() {
    assert_eq!(E1000_TCTL_INIT, 0x0000_0002 | 0x0000_0008 | 0x0100_0000 | (0x0f << 4) | (0x3f << 12));
    assert_eq!(E1000_TIPG_INIT, 10 | (8 << 10) | (6 << 20));
    assert_eq!(E1000_RCTL_INIT, 0x0000_0002 | 0x0000_8000 | 0x0400_0000);
    assert_eq!(E1000_RCTL_INIT & (0b11 << 10), 0);
    assert_eq!(E1000_TXD_CMD_SEND, E1000_TXD_CMD_RS | E1000_TXD_CMD_EOP | E1000_TXD_CMD_IFCS);
}

#[test]
fn numbers_are_little_endian() {
    assert_eq!(u16_le(0x1234), vec![0x34, 0x12]);
    assert_eq!(u64_le(0x0102_0304_0506_0708), vec![8, 7, 6, 5, 4, 3, 2, 1]);
    assert_eq!(u16_from_le(&[0xff, 0x34, 0x12], 1), 0x1234);
    assert_eq!(u64_from_le(&[8, 7, 6, 5, 4, 3, 2, 1], 0), 0x0102_0304_0506_0708);
}

#[test]
fn transmit_descriptor_layout() {
    let d = TxDesc {
        addr: 0x1122_3344_5566_7788,
        length: 0x0a0b,
        cso: 0x0c,
        cmd: 0x0d,
        status: 0x0e,
        css: 0x0f,
        special: 0x1011,
    };
    let bytes = d.to_bytes();
    assert_eq!(
        bytes,
        vec![0x88, 0x77, 0x66, 0x55, 0x44, 0x33, 0x22, 0x11, 0x0b, 0x0a, 0x0c, 0x0d, 0x0e, 0x0f, 0x11, 0x10]
    );
    assert_eq!(TxDesc::from_bytes(&bytes), d);
}

#[test]
fn receive_descriptor_layout() {
    let d = RxDesc {
        addr: 0x1122_3344_5566_7788,
        length: 0x0a0b,
        csum: 0x0c0d,
        status: 0x0e,
        errors: 0x0f,
        special: 0x1011,
    };
    let bytes = d.to_bytes();
    assert_eq!(
        bytes,
        vec![0x88, 0x77, 0x66, 0x55, 0x44, 0x33, 0x22, 0x11, 0x0b, 0x0a, 0x0d, 0x0c, 0x0e, 0x0f, 0x11, 0x10]
    );
    assert_eq!(RxDesc::from_bytes(&bytes), d);
}

#[test]
fn lengths_are_bounded() {
    assert_eq!(MBUF_SIZE, 2048);
    assert_eq!(clamp_len(0), 0);
    assert_eq!(clamp_len(2048), 2048);
    assert_eq!(clamp_len(2049), 2048);
    assert_eq!(scrub_len(0), 0);
    assert_eq!(scrub_len(63), 63);
    assert_eq!(scrub_len(64), 64);
    assert_eq!(scrub_len(1500), 64);
}

#[test]
fn pci_identities() {
    assert!(is_e1000(0x8086, 0x100e));
    assert!(is_e1000(0x8086, 0x10d3));
    assert!(is_e1000(0x8086, 0x15fc));
    assert!(!is_e1000(0x8086, 0x100f));
    assert!(!is_e1000(0x8087, 0x100e));
    assert!(id_is_e1000(0x100e_8086));
    assert!(id_is_e1000(0x15fc_8086));
    assert!(!id_is_e1000(0x8086_100e));
    assert!(!id_is_e1000(0xffff_ffff));
}

#[test]
fn pci_configuration_offsets() {
    assert_eq!(config_offset(0, 0, 0, 0), 0);
    assert_eq!(config_offset(0, 1, 0, 0), 0x800);
    assert_eq!(config_offset(0, 31, 0, 0), 0xf800);
    assert_eq!(config_offset(1, 2, 3, 4), 0x1_0000 | 0x1000 | 0x300 | 4);
}
