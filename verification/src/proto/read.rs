//! Zero-copy frame parsing: a received buffer decoded into header fields, a
//! topic view and a payload view, clamped to the bytes actually present.

use crate::checksum::{crc32, crc32_fold, lemma_crc32_register_concat, CRC32_INIT};
use crate::errors::SdmqError;
use crate::proto::write::frame_bytes;
use crate::proto::{header_bytes, lemma_header_roundtrip, spec_header, SdmqHeader, SdmqMsgType,
    HEADER_SIZE, MAGIC};
use crate::topic::Topic;
use vstd::prelude::*;
use vstd::slice::{slice_subrange, slice_to_vec};
use vstd::utf8::valid_utf8;

verus! {

/// The length of the topic view cut out of a buffer: the declared topic
/// length, clamped to the bytes present after the header.
pub open spec fn clamped_topic_len(b: Seq<u8>) -> int
    recommends
        b.len() >= 16,
{
    if spec_header(b).topic_len as int <= b.len() - 16 {
        spec_header(b).topic_len as int
    } else {
        b.len() - 16
    }
}

/// The topic bytes a parse of the buffer exposes.
pub open spec fn parsed_topic(b: Seq<u8>) -> Seq<u8>
    recommends
        b.len() >= 16,
{
    b.subrange(16, 16 + clamped_topic_len(b))
}

/// The length of the payload view cut out of a buffer: the declared payload
/// length, clamped to the bytes left after the topic view.
pub open spec fn clamped_data_len(b: Seq<u8>) -> int
    recommends
        b.len() >= 16,
{
    if spec_header(b).data_len as int <= b.len() - 16 - clamped_topic_len(b) {
        spec_header(b).data_len as int
    } else {
        b.len() - 16 - clamped_topic_len(b)
    }
}

/// The payload bytes a parse of the buffer exposes.
pub open spec fn parsed_data(b: Seq<u8>) -> Seq<u8>
    recommends
        b.len() >= 16,
{
    b.subrange(16 + clamped_topic_len(b), 16 + clamped_topic_len(b) + clamped_data_len(b))
}

/// The message kind encoded in a header's options field: its low bits
/// masked out and matched against the known wire codes.
pub open spec fn spec_msg_type(options: u16) -> Result<SdmqMsgType, SdmqError> {
    if options & 0x000F == 1 {
        Ok(SdmqMsgType::Push)
    } else if options & 0x000F == 2 {
        Ok(SdmqMsgType::Sub)
    } else {
        Err(SdmqError::UnknownMessageKind)
    }
}

/// The outcome of checking a parsed frame's integrity: the magic sentinel,
/// completeness of both views, and the checksum over topic and payload.
pub open spec fn spec_verify(h: SdmqHeader, t: Seq<u8>, d: Seq<u8>) -> Result<(), SdmqError> {
    if h.magic != MAGIC {
        Err(SdmqError::InvalidMagic)
    } else if t.len() < h.topic_len as int || d.len() < h.data_len as int {
        Err(SdmqError::TruncatedFrame)
    } else if h.hash != crc32(t + d) {
        Err(SdmqError::ChecksumMismatch)
    } else {
        Ok(())
    }
}

/// Round trip: a frame built from any topic bytes and payload bytes that fit
/// the header's length fields parses back to exactly those bytes, and the
/// decoded header records their lengths.
pub proof fn lemma_round_trip(kind: SdmqMsgType, t: Seq<u8>, p: Seq<u8>)
    requires
        t.len() <= u16::MAX,
        p.len() <= u32::MAX,
    ensures
        spec_header(frame_bytes(kind, t, p)).topic_len == t.len(),
        spec_header(frame_bytes(kind, t, p)).data_len == p.len(),
        parsed_topic(frame_bytes(kind, t, p)) == t,
        parsed_data(frame_bytes(kind, t, p)) == p,
{
    let h = SdmqHeader {
        magic: MAGIC,
        hash: crc32(t + p),
        options: kind.spec_code(),
        topic_len: t.len() as u16,
        data_len: p.len() as u32,
    };
    let b = frame_bytes(kind, t, p);
    assert(b =~= header_bytes(h) + (t + p));
    lemma_header_roundtrip(h, t + p);
    assert(parsed_topic(b) =~= t);
    assert(parsed_data(b) =~= p);
}

/// Checksum correctness: the checksum a built frame's header carries equals
/// CRC-32/IEEE over exactly the topic bytes followed by the payload bytes,
/// its magic is the protocol constant, its options field is the kind's wire
/// code, and the built frame passes the integrity check.
pub proof fn lemma_frame_checksum(kind: SdmqMsgType, t: Seq<u8>, p: Seq<u8>)
    requires
        t.len() <= u16::MAX,
        p.len() <= u32::MAX,
    ensures
        spec_header(frame_bytes(kind, t, p)).hash == crc32(t + p),
        spec_header(frame_bytes(kind, t, p)).magic == MAGIC,
        spec_header(frame_bytes(kind, t, p)).options == kind.spec_code(),
        spec_verify(
            spec_header(frame_bytes(kind, t, p)),
            parsed_topic(frame_bytes(kind, t, p)),
            parsed_data(frame_bytes(kind, t, p)),
        ) == Ok::<(), SdmqError>(()),
{
    let h = SdmqHeader {
        magic: MAGIC,
        hash: crc32(t + p),
        options: kind.spec_code(),
        topic_len: t.len() as u16,
        data_len: p.len() as u32,
    };
    let b = frame_bytes(kind, t, p);
    assert(b =~= header_bytes(h) + (t + p));
    lemma_header_roundtrip(h, t + p);
    lemma_round_trip(kind, t, p);
}

/// Clamping: whatever lengths a header declares, the two views a parse cuts
/// out stay inside the buffer; and when the declared lengths exceed the
/// bytes present, the views are truncated to exactly the bytes present.
pub proof fn lemma_parse_clamped(b: Seq<u8>)
    requires
        b.len() >= 16,
    ensures
        parsed_topic(b).len() == clamped_topic_len(b),
        parsed_data(b).len() == clamped_data_len(b),
        clamped_topic_len(b) + clamped_data_len(b) <= b.len() - 16,
        spec_header(b).topic_len + spec_header(b).data_len > b.len() - 16 ==> 16 + parsed_topic(
            b,
        ).len() + parsed_data(b).len() == b.len(),
{
}

/// A parsed frame: the decoded header and zero-copy views of the topic and
/// payload regions of the buffer it was parsed from.
pub struct SdmqProto<'a> {
    header: SdmqHeader,
    topic: Topic<'a>,
    data: &'a [u8],
}

impl<'a> SdmqProto<'a> {
    /// The decoded header.
    pub closed spec fn hdr(self) -> SdmqHeader {
        self.header
    }

    /// The bytes of the topic view.
    pub closed spec fn topic_view(self) -> Seq<u8> {
        self.topic@
    }

    /// The bytes of the payload view.
    pub closed spec fn data_view(self) -> Seq<u8> {
        self.data@
    }

    /// Decodes the header, then cuts the topic and payload views out of the
    /// rest of the buffer. Length fields that declare more bytes than the
    /// buffer holds are clamped to what is present, so no input can make
    /// this fail beyond the two reported errors.
    pub fn parse(buf: &'a [u8]) -> (r: Result<Self, SdmqError>)
        ensures
            r is Ok <==> buf@.len() >= 16 && valid_utf8(parsed_topic(buf@)),
            buf@.len() < 16 ==> r == Err::<SdmqProto<'a>, SdmqError>(SdmqError::TruncatedHeader),
            buf@.len() >= 16 && !valid_utf8(parsed_topic(buf@)) ==> r == Err::<
                SdmqProto<'a>,
                SdmqError,
            >(SdmqError::InvalidTopicEncoding),
            r matches Ok(p) ==> {
                &&& p.hdr() == spec_header(buf@)
                &&& p.topic_view() == parsed_topic(buf@)
                &&& p.data_view() == parsed_data(buf@)
            },
    {
        let header = match SdmqHeader::parse(buf) {
            Ok(h) => h,
            Err(e) => {
                return Err(e);
            },
        };
        let avail = buf.len() - HEADER_SIZE;
        let tl = if (header.topic_len as usize) <= avail {
            header.topic_len as usize
        } else {
            avail
        };
        let dl = if (header.data_len as usize) <= avail - tl {
            header.data_len as usize
        } else {
            avail - tl
        };
        let topic_bytes = slice_subrange(buf, HEADER_SIZE, HEADER_SIZE + tl);
        let data = slice_subrange(buf, HEADER_SIZE + tl, HEADER_SIZE + tl + dl);
        let topic = match Topic::parse(topic_bytes) {
            Ok(t) => t,
            Err(e) => {
                return Err(e);
            },
        };
        Ok(SdmqProto { header, topic, data })
    }

    /// The message kind encoded in the header's options field, or the error
    /// for a code this protocol does not know.
    pub fn msg_type(&self) -> (r: Result<SdmqMsgType, SdmqError>)
        ensures
            r == spec_msg_type(self.hdr().options),
    {
        let masked = self.header.options & 0x000F;
        if masked == 1 {
            Ok(SdmqMsgType::Push)
        } else if masked == 2 {
            Ok(SdmqMsgType::Sub)
        } else {
            Err(SdmqError::UnknownMessageKind)
        }
    }

    /// The decoded header.
    pub fn header(&self) -> (r: SdmqHeader)
        ensures
            r == self.hdr(),
    {
        self.header
    }

    /// The zero-copy topic view.
    pub fn topic(&self) -> (r: Topic<'a>)
        ensures
            r@ == self.topic_view(),
    {
        self.topic
    }

    /// The zero-copy payload view.
    pub fn data(&self) -> (r: &'a [u8])
        ensures
            r@ == self.data_view(),
    {
        self.data
    }

    /// An owned copy of the payload bytes.
    pub fn data_to_vec(&self) -> (r: Vec<u8>)
        ensures
            r@ == self.data_view(),
    {
        slice_to_vec(self.data)
    }

    /// Checks what parsing deliberately leaves unchecked: that the magic
    /// field holds the protocol constant, that neither view was clamped
    /// short of its declared length, and that the checksum recomputed over
    /// topic and payload equals the header field.
    pub fn verify(&self) -> (r: Result<(), SdmqError>)
        ensures
            r == spec_verify(self.hdr(), self.topic_view(), self.data_view()),
    {
        if self.header.magic != MAGIC {
            return Err(SdmqError::InvalidMagic);
        }
        let tb = self.topic.as_bytes();
        if tb.len() < self.header.topic_len as usize || self.data.len()
            < self.header.data_len as usize {
            return Err(SdmqError::TruncatedFrame);
        }
        let reg = crc32_fold(CRC32_INIT, tb);
        let reg = crc32_fold(reg, self.data);
        proof {
            lemma_crc32_register_concat(CRC32_INIT, tb@, self.data@);
        }
        if self.header.hash != !reg {
            return Err(SdmqError::ChecksumMismatch);
        }
        Ok(())
    }
}

} // verus!
