//! The DMA descriptors of the controller and their layout in memory.
//!
//! A descriptor is 16 bytes, little-endian, in the order of the fields below.

use vstd::prelude::*;

verus! {

/// Size of a descriptor in bytes.
pub const DESC_SIZE: usize = 16;

/// Offset of the buffer address, in both descriptors.
pub const DESC_ADDR: usize = 0;

/// Offset of the length, in both descriptors.
pub const DESC_LENGTH: usize = 8;

/// Offset of the checksum offset in a transmit descriptor.
pub const TXD_CSO: usize = 10;

/// Offset of the command byte in a transmit descriptor.
pub const TXD_CMD: usize = 11;

/// Offset of the packet checksum in a receive descriptor.
pub const RXD_CSUM: usize = 10;

/// Offset of the status byte, in both descriptors.
pub const DESC_STATUS: usize = 12;

/// Offset of the checksum start in a transmit descriptor.
pub const TXD_CSS: usize = 13;

/// Offset of the error byte in a receive descriptor.
pub const RXD_ERRORS: usize = 13;

/// Offset of the special field, in both descriptors.
pub const DESC_SPECIAL: usize = 14;

/// [E1000 3.3.3]
/// The dma descriptor for transmitting
#[derive(Clone, Copy, Debug, PartialEq, Eq, Structural)]
pub struct TxDesc {
    /// Bus address of the data buffer
    pub addr: u64,
    /// Length of the data to send
    pub length: u16,
    /// Checksum offset
    pub cso: u8,
    /// Descriptor command
    pub cmd: u8,
    /// Descriptor status
    pub status: u8,
    /// Checksum start
    pub css: u8,
    pub special: u16,
}

/// [E1000 3.2.3]
/// The dma descriptor for receiving
#[derive(Clone, Copy, Debug, PartialEq, Eq, Structural)]
pub struct RxDesc {
    /// Bus address of the data buffer
    pub addr: u64,
    /// Length of the data DMAed into the data buffer
    pub length: u16,
    /// Packet checksum
    pub csum: u16,
    /// Descriptor status
    pub status: u8,
    /// Descriptor errors
    pub errors: u8,
    pub special: u16,
}

/// The two bytes of `x`, low byte first.
pub open spec fn le16_bytes(x: u16) -> Seq<u8> {
    seq![(x & 0xff) as u8, (x >> 8) as u8]
}

/// The 16-bit number whose two bytes stand at `at` in `b`, low byte first.
pub open spec fn le16_at(b: Seq<u8>, at: int) -> u16 {
    (b[at] as u16) | ((b[at + 1] as u16) << 8)
}

/// The eight bytes of `x`, lowest byte first.
pub open spec fn le64_bytes(x: u64) -> Seq<u8> {
    seq![
        (x & 0xff) as u8,
        ((x >> 8) & 0xff) as u8,
        ((x >> 16) & 0xff) as u8,
        ((x >> 24) & 0xff) as u8,
        ((x >> 32) & 0xff) as u8,
        ((x >> 40) & 0xff) as u8,
        ((x >> 48) & 0xff) as u8,
        (x >> 56) as u8,
    ]
}

/// The 64-bit number whose eight bytes stand at `at` in `b`, lowest byte
/// first.
pub open spec fn le64_at(b: Seq<u8>, at: int) -> u64 {
    (b[at] as u64) | ((b[at + 1] as u64) << 8) | ((b[at + 2] as u64) << 16) | ((b[at + 3] as u64)
        << 24) | ((b[at + 4] as u64) << 32) | ((b[at + 5] as u64) << 40) | ((b[at + 6] as u64)
        << 48) | ((b[at + 7] as u64) << 56)
}

/// Reading back the bytes of a 16-bit number gives the number.
pub proof fn lemma_le16_round_trip(x: u16)
    ensures
        le16_bytes(x).len() == 2,
        le16_at(le16_bytes(x), 0) == x,
{
    assert((((x & 0xff) as u8) as u16) | ((((x >> 8) as u8) as u16) << 8) == x) by (bit_vector);
}

/// Reading back the bytes of a 64-bit number gives the number.
pub proof fn lemma_le64_round_trip(x: u64)
    ensures
        le64_bytes(x).len() == 8,
        le64_at(le64_bytes(x), 0) == x,
{
    assert((((x & 0xff) as u8) as u64) | (((((x >> 8) & 0xff) as u8) as u64) << 8) | (((((x >> 16)
        & 0xff) as u8) as u64) << 16) | (((((x >> 24) & 0xff) as u8) as u64) << 24) | (((((x >> 32)
        & 0xff) as u8) as u64) << 32) | (((((x >> 40) & 0xff) as u8) as u64) << 40) | (((((x >> 48)
        & 0xff) as u8) as u64) << 48) | ((((x >> 56) as u8) as u64) << 56) == x) by (bit_vector);
}

/// The bytes of a 16-bit number, low byte first.
pub fn u16_le(x: u16) -> (b: Vec<u8>)
    ensures
        b@ == le16_bytes(x),
{
    let lo: u8 = #[verifier::truncate] ((x & 0xff) as u8);
    let hi: u8 = #[verifier::truncate] ((x >> 8) as u8);
    let b = vec![lo, hi];
    b
}

/// The bytes of a 64-bit number, lowest byte first.
pub fn u64_le(x: u64) -> (b: Vec<u8>)
    ensures
        b@ == le64_bytes(x),
{
    let b0: u8 = #[verifier::truncate] ((x & 0xff) as u8);
    let b1: u8 = #[verifier::truncate] (((x >> 8) & 0xff) as u8);
    let b2: u8 = #[verifier::truncate] (((x >> 16) & 0xff) as u8);
    let b3: u8 = #[verifier::truncate] (((x >> 24) & 0xff) as u8);
    let b4: u8 = #[verifier::truncate] (((x >> 32) & 0xff) as u8);
    let b5: u8 = #[verifier::truncate] (((x >> 40) & 0xff) as u8);
    let b6: u8 = #[verifier::truncate] (((x >> 48) & 0xff) as u8);
    let b7: u8 = #[verifier::truncate] ((x >> 56) as u8);
    let b = vec![b0, b1, b2, b3, b4, b5, b6, b7];
    b
}

/// The 16-bit number at `at` in `b`, low byte first.
pub fn u16_from_le(b: &[u8], at: usize) -> (x: u16)
    requires
        at + 2 <= b@.len(),
    ensures
        x == le16_at(b@, at as int),
{
    (b[at] as u16) | ((b[at + 1] as u16) << 8)
}

/// The 64-bit number at `at` in `b`, lowest byte first.
pub fn u64_from_le(b: &[u8], at: usize) -> (x: u64)
    requires
        at + 8 <= b@.len(),
    ensures
        x == le64_at(b@, at as int),
{
    (b[at] as u64) | ((b[at + 1] as u64) << 8) | ((b[at + 2] as u64) << 16) | ((b[at + 3] as u64)
        << 24) | ((b[at + 4] as u64) << 32) | ((b[at + 5] as u64) << 40) | ((b[at + 6] as u64)
        << 48) | ((b[at + 7] as u64) << 56)
}

impl TxDesc {
    /// The descriptor whose 16 bytes stand at `at` in `b`.
    pub open spec fn decode_at(b: Seq<u8>, at: int) -> TxDesc {
        TxDesc {
            addr: le64_at(b, at + DESC_ADDR),
            length: le16_at(b, at + DESC_LENGTH),
            cso: b[at + TXD_CSO],
            cmd: b[at + TXD_CMD],
            status: b[at + DESC_STATUS],
            css: b[at + TXD_CSS],
            special: le16_at(b, at + DESC_SPECIAL),
        }
    }

    /// The 16 bytes of the descriptor.
    pub open spec fn encode(self) -> Seq<u8> {
        le64_bytes(self.addr) + le16_bytes(self.length) + seq![
            self.cso,
            self.cmd,
            self.status,
            self.css,
        ] + le16_bytes(self.special)
    }

    /// Decoding the bytes of a descriptor gives the descriptor.
    pub proof fn lemma_round_trip(self)
        ensures
            self.encode().len() == DESC_SIZE,
            TxDesc::decode_at(self.encode(), 0) == self,
    {
        lemma_le64_round_trip(self.addr);
        lemma_le16_round_trip(self.length);
        lemma_le16_round_trip(self.special);
    }

    /// Read a descriptor from its 16 bytes.
    pub fn from_bytes(b: &[u8]) -> (d: TxDesc)
        requires
            b@.len() == DESC_SIZE,
        ensures
            d == TxDesc::decode_at(b@, 0),
    {
        TxDesc {
            addr: u64_from_le(b, DESC_ADDR),
            length: u16_from_le(b, DESC_LENGTH),
            cso: b[TXD_CSO],
            cmd: b[TXD_CMD],
            status: b[DESC_STATUS],
            css: b[TXD_CSS],
            special: u16_from_le(b, DESC_SPECIAL),
        }
    }

    /// The 16 bytes of the descriptor.
    pub fn to_bytes(&self) -> (b: Vec<u8>)
        ensures
            b@ == self.encode(),
    {
        let mut b = u64_le(self.addr);
        let mut length = u16_le(self.length);
        b.append(&mut length);
        b.push(self.cso);
        b.push(self.cmd);
        b.push(self.status);
        b.push(self.css);
        let mut special = u16_le(self.special);
        b.append(&mut special);
        b
    }
}

impl RxDesc {
    /// The descriptor whose 16 bytes stand at `at` in `b`.
    pub open spec fn decode_at(b: Seq<u8>, at: int) -> RxDesc {
        RxDesc {
            addr: le64_at(b, at + DESC_ADDR),
            length: le16_at(b, at + DESC_LENGTH),
            csum: le16_at(b, at + RXD_CSUM),
            status: b[at + DESC_STATUS],
            errors: b[at + RXD_ERRORS],
            special: le16_at(b, at + DESC_SPECIAL),
        }
    }

    /// The 16 bytes of the descriptor.
    pub open spec fn encode(self) -> Seq<u8> {
        le64_bytes(self.addr) + le16_bytes(self.length) + le16_bytes(self.csum) + seq![
            self.status,
            self.errors,
        ] + le16_bytes(self.special)
    }

    /// Decoding the bytes of a descriptor gives the descriptor.
    pub proof fn lemma_round_trip(self)
        ensures
            self.encode().len() == DESC_SIZE,
            RxDesc::decode_at(self.encode(), 0) == self,
    {
        lemma_le64_round_trip(self.addr);
        lemma_le16_round_trip(self.length);
        lemma_le16_round_trip(self.csum);
        lemma_le16_round_trip(self.special);
    }

    /// Read a descriptor from its 16 bytes.
    pub fn from_bytes(b: &[u8]) -> (d: RxDesc)
        requires
            b@.len() == DESC_SIZE,
        ensures
            d == RxDesc::decode_at(b@, 0),
    {
        RxDesc {
            addr: u64_from_le(b, DESC_ADDR),
            length: u16_from_le(b, DESC_LENGTH),
            csum: u16_from_le(b, RXD_CSUM),
            status: b[DESC_STATUS],
            errors: b[RXD_ERRORS],
            special: u16_from_le(b, DESC_SPECIAL),
        }
    }

    /// The 16 bytes of the descriptor.
    pub fn to_bytes(&self) -> (b: Vec<u8>)
        ensures
            b@ == self.encode(),
    {
        let mut b = u64_le(self.addr);
        let mut length = u16_le(self.length);
        b.append(&mut length);
        let mut csum = u16_le(self.csum);
        b.append(&mut csum);
        b.push(self.status);
        b.push(self.errors);
        let mut special = u16_le(self.special);
        b.append(&mut special);
        b
    }
}

} // verus!
