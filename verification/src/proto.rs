//! The fixed 16-byte frame header and the message-kind codes.
//!
//! Wire layout, big-endian, no padding:
//! magic u32 | checksum u32 | options u16 | topic_len u16 | data_len u32.

pub mod read;
pub mod write;

use crate::errors::SdmqError;
use crate::utils::{be16, be16_val, be32, be32_val, Cursor};
use vstd::pervasive::unreached;
use vstd::prelude::*;

verus! {

/// The sentinel constant that opens every valid header.
pub const MAGIC: u32 = 0xDEAD_BEEF;

/// The byte length of an encoded header.
pub const HEADER_SIZE: usize = 16;

/// The fixed frame header: a sentinel, an integrity checksum over the bytes
/// that follow the header, a message-kind code, and the two region lengths.
#[derive(Debug, Clone, Copy, PartialEq, Eq, Structural)]
pub struct SdmqHeader {
    pub magic: u32,
    pub hash: u32,
    pub options: u16,
    pub topic_len: u16,
    pub data_len: u32,
}

/// The header decoded from the first 16 bytes of a buffer.
pub open spec fn spec_header(b: Seq<u8>) -> SdmqHeader
    recommends
        b.len() >= 16,
{
    SdmqHeader {
        magic: be32_val(b.subrange(0, 4)),
        hash: be32_val(b.subrange(4, 8)),
        options: be16_val(b.subrange(8, 10)),
        topic_len: be16_val(b.subrange(10, 12)),
        data_len: be32_val(b.subrange(12, 16)),
    }
}

/// The 16 bytes that encode a header.
pub open spec fn header_bytes(h: SdmqHeader) -> Seq<u8> {
    be32(h.magic) + be32(h.hash) + be16(h.options) + be16(h.topic_len) + be32(h.data_len)
}

/// Encoding a header and decoding the result is the identity, whatever
/// bytes follow the encoding.
pub proof fn lemma_header_roundtrip(h: SdmqHeader, rest: Seq<u8>)
    ensures
        header_bytes(h).len() == 16,
        spec_header(header_bytes(h) + rest) == h,
{
    crate::utils::lemma_be32_roundtrip(h.magic);
    crate::utils::lemma_be32_roundtrip(h.hash);
    crate::utils::lemma_be16_roundtrip(h.options);
    crate::utils::lemma_be16_roundtrip(h.topic_len);
    crate::utils::lemma_be32_roundtrip(h.data_len);
    let b = header_bytes(h) + rest;
    assert(b.subrange(0, 4) =~= be32(h.magic));
    assert(b.subrange(4, 8) =~= be32(h.hash));
    assert(b.subrange(8, 10) =~= be16(h.options));
    assert(b.subrange(10, 12) =~= be16(h.topic_len));
    assert(b.subrange(12, 16) =~= be32(h.data_len));
}

impl SdmqHeader {
    /// Decodes the five header fields, big-endian and in fixed order, from
    /// the first 16 bytes of the buffer.
    pub fn parse(buf: &[u8]) -> (r: Result<Self, SdmqError>)
        ensures
            r is Ok <==> buf@.len() >= 16,
            r matches Ok(h) ==> h == spec_header(buf@),
            r is Err ==> r == Err::<SdmqHeader, SdmqError>(SdmqError::TruncatedHeader),
    {
        let mut cursor = Cursor::new(buf);
        let magic = match cursor.read_u32() {
            Ok(v) => v,
            Err(_) => {
                return Err(SdmqError::TruncatedHeader);
            },
        };
        let hash = match cursor.read_u32() {
            Ok(v) => v,
            Err(_) => {
                return Err(SdmqError::TruncatedHeader);
            },
        };
        let options = match cursor.read_u16() {
            Ok(v) => v,
            Err(_) => {
                return Err(SdmqError::TruncatedHeader);
            },
        };
        let topic_len = match cursor.read_u16() {
            Ok(v) => v,
            Err(_) => {
                return Err(SdmqError::TruncatedHeader);
            },
        };
        let data_len = match cursor.read_u32() {
            Ok(v) => v,
            Err(_) => {
                return Err(SdmqError::TruncatedHeader);
            },
        };
        Ok(SdmqHeader { magic, hash, options, topic_len, data_len })
    }

    /// Serializes the five fields, big-endian and in fixed order, into the
    /// first 16 bytes of the destination; the bytes after them stay as they
    /// were.
    pub fn write_to(self, buf: &mut Vec<u8>) -> (r: Result<(), SdmqError>)
        ensures
            r is Ok <==> old(buf)@.len() >= 16,
            r is Ok ==> {
                &&& final(buf)@.len() == old(buf)@.len()
                &&& final(buf)@.subrange(0, 16) == header_bytes(self)
                &&& forall|i: int|
                    16 <= i < old(buf)@.len() ==> final(buf)@[i] == old(buf)@[i]
            },
            r is Err ==> r == Err::<(), SdmqError>(SdmqError::TruncatedHeader) && final(buf)@
                == old(buf)@,
    {
        if buf.len() < HEADER_SIZE {
            return Err(SdmqError::TruncatedHeader);
        }
        let mut work: Vec<u8> = Vec::new();
        core::mem::swap(buf, &mut work);
        let mut cursor = Cursor::new(work);
        match cursor.write_n(crate::utils::be32_array(self.magic)) {
            Ok(()) => (),
            Err(_) => unreached(),
        };
        match cursor.write_n(crate::utils::be32_array(self.hash)) {
            Ok(()) => (),
            Err(_) => unreached(),
        };
        match cursor.write_n(crate::utils::be16_array(self.options)) {
            Ok(()) => (),
            Err(_) => unreached(),
        };
        match cursor.write_n(crate::utils::be16_array(self.topic_len)) {
            Ok(()) => (),
            Err(_) => unreached(),
        };
        match cursor.write_n(crate::utils::be32_array(self.data_len)) {
            Ok(()) => (),
            Err(_) => unreached(),
        };
        let mut written = cursor.into_inner();
        core::mem::swap(buf, &mut written);
        proof {
            assert(buf@.subrange(0, 16) =~= header_bytes(self));
        }
        Ok(())
    }
}

/// The kinds of message a frame can carry.
#[derive(Debug, Clone, Copy, PartialEq, Eq, Structural)]
pub enum SdmqMsgType {
    Push,
    Sub,
}

impl SdmqMsgType {
    /// The wire code of this message kind.
    pub open spec fn spec_code(self) -> u16 {
        match self {
            SdmqMsgType::Push => 1,
            SdmqMsgType::Sub => 2,
        }
    }

    /// The wire code of this message kind.
    pub fn code(self) -> (r: u16)
        ensures
            r == self.spec_code(),
    {
        match self {
            SdmqMsgType::Push => 1,
            SdmqMsgType::Sub => 2,
        }
    }

    /// The two network-order bytes of this kind's wire code.
    pub fn to_network(self) -> (r: [u8; 2])
        ensures
            r@ == be16(self.spec_code()),
    {
        crate::utils::be16_array(self.code())
    }
}

} // verus!
