//! Frame construction: an ordering-safe builder whose phase types only admit
//! the sequence topic, payload, finalize, and a fixed-capacity packet buffer
//! wrapped around it.

use crate::checksum::{crc32, crc32_fold, CRC32_INIT};
use crate::errors::SdmqError;
use crate::proto::{header_bytes, SdmqHeader, SdmqMsgType, HEADER_SIZE, MAGIC};
use vstd::pervasive::unreached;
use vstd::prelude::*;
use vstd::slice::slice_subrange;
use vstd::string::StringSliceAdditionalSpecFns;

verus! {

/// The complete encoding of a frame: a header carrying the magic constant,
/// the checksum over topic and payload, the kind's wire code and both
/// region lengths, followed by the topic bytes and the payload bytes.
pub open spec fn frame_bytes(kind: SdmqMsgType, t: Seq<u8>, p: Seq<u8>) -> Seq<u8>
    recommends
        t.len() <= u16::MAX,
        p.len() <= u32::MAX,
{
    header_bytes(
        SdmqHeader {
            magic: MAGIC,
            hash: crc32(t + p),
            options: kind.spec_code(),
            topic_len: t.len() as u16,
            data_len: p.len() as u32,
        },
    ) + t + p
}

/// serde_json's in-memory JSON value, which the payload serializer accepts.
#[verifier::external_type_specification]
#[verifier::external_body]
pub struct ExJsonValue(serde_json::Value);

/// The JSON text of a value, as bytes: what serde_json::to_vec produces.
/// It is a function of the value alone — a Value's maps are string-keyed
/// and ordered, and its numbers are finite.
pub uninterp spec fn json_bytes_of(v: serde_json::Value) -> Seq<u8>;

/// Relies on serde_json::to_vec: the JSON text of the value, as bytes. For
/// a Value it always succeeds — serialization of a Value into a Vec has no
/// failure path (maps are string-keyed, and the Vec writer cannot fail).
#[verifier::external_body]
fn json_to_vec(v: &serde_json::Value) -> (r: Option<Vec<u8>>)
    ensures
        r is Some,
        r matches Some(p) ==> p@ == json_bytes_of(*v),
{
    serde_json::to_vec(v).ok()
}

/// Copies src into dst starting at offset off, leaving the rest as it was.
fn copy_into(dst: &mut Vec<u8>, off: usize, src: &[u8])
    requires
        off + src@.len() <= old(dst)@.len(),
    ensures
        final(dst)@.len() == old(dst)@.len(),
        final(dst)@.subrange(off as int, off + src@.len()) == src@,
        forall|i: int|
            0 <= i < old(dst)@.len() && !(off <= i < off + src@.len()) ==> final(dst)@[i] == old(
                dst,
            )@[i],
{
    let n = src.len();
    let m = dst.len();
    let mut j: usize = 0;
    while j < n
        invariant
            j <= n,
            n == src@.len(),
            m == dst@.len(),
            off + n <= dst@.len(),
            dst@.len() == old(dst)@.len(),
            forall|k: int| 0 <= k < j ==> dst@[off + k] == src@[k],
            forall|i: int|
                0 <= i < dst@.len() && !(off <= i < off + j) ==> dst@[i] == old(dst)@[i],
        decreases n - j,
    {
        dst[off + j] = src[j];
        j = j + 1;
    }
    proof {
        assert(dst@.subrange(off as int, off + n) =~= src@);
    }
}

/// Phase marker: nothing has been written yet.
pub struct Empty;

/// Phase marker: the topic region is written; carries its byte length.
pub struct Topic(usize);

/// Phase marker: the payload region is written; carries its byte length.
pub struct Data(usize);

/// An ordering-safe frame builder over an owned buffer. Its phase type
/// parameters admit exactly the sequence topic, payload, finalize, so a
/// frame cannot be assembled out of order or finalized twice.
pub struct SdMessageBuilder<T, D> {
    inner: Vec<u8>,
    topic: T,
    data: D,
}

impl<T, D> SdMessageBuilder<T, D> {
    /// The bytes of the underlying buffer.
    pub closed spec fn buf(self) -> Seq<u8> {
        self.inner@
    }
}

impl<D> SdMessageBuilder<Topic, D> {
    /// The recorded byte length of the written topic.
    pub closed spec fn topic_len(self) -> int {
        self.topic.0 as int
    }
}

impl<T> SdMessageBuilder<T, Data> {
    /// The recorded byte length of the written payload.
    pub closed spec fn data_len(self) -> int {
        self.data.0 as int
    }
}

impl SdMessageBuilder<Empty, Empty> {
    /// Starts a build over an owned buffer, whose length is the capacity.
    pub fn new(buf: Vec<u8>) -> (r: Self)
        ensures
            r.buf() == buf@,
    {
        Self { inner: buf, topic: Empty, data: Empty }
    }

    /// Copies the topic's UTF-8 bytes immediately after the header region
    /// and records their length.
    pub fn topic(self, name: &str) -> (r: Result<SdMessageBuilder<Topic, Empty>, SdmqError>)
        ensures
            r is Ok <==> name.spec_bytes().len() <= u16::MAX && 16 + name.spec_bytes().len()
                <= self.buf().len(),
            r matches Ok(b) ==> {
                &&& b.topic_len() == name.spec_bytes().len()
                &&& b.buf().len() == self.buf().len()
                &&& b.buf().subrange(16, 16 + b.topic_len()) == name.spec_bytes()
                &&& forall|i: int|
                    0 <= i < b.buf().len() && !(16 <= i < 16 + b.topic_len()) ==> b.buf()[i]
                        == self.buf()[i]
            },
            r is Err ==> r == Err::<SdMessageBuilder<Topic, Empty>, SdmqError>(
                SdmqError::CapacityExceeded,
            ),
    {
        let bytes = name.as_bytes();
        let n = bytes.len();
        if n > u16::MAX as usize || self.inner.len() < HEADER_SIZE || n > self.inner.len()
            - HEADER_SIZE {
            return Err(SdmqError::CapacityExceeded);
        }
        let mut inner = self.inner;
        copy_into(&mut inner, HEADER_SIZE, bytes);
        Ok(SdMessageBuilder { inner, topic: Topic(n), data: Empty })
    }
}

impl SdMessageBuilder<Topic, Empty> {
    /// Copies raw payload bytes directly after the topic region and records
    /// their length.
    pub fn write_raw(self, data: &[u8]) -> (r: Result<SdMessageBuilder<Topic, Data>, SdmqError>)
        ensures
            r is Ok <==> data@.len() <= u32::MAX && 16 + self.topic_len() + data@.len()
                <= self.buf().len(),
            r matches Ok(b) ==> {
                &&& self.topic_len() <= u16::MAX ==> b.wf()
                &&& b.topic_len() == self.topic_len()
                &&& b.data_len() == data@.len()
                &&& b.buf().len() == self.buf().len()
                &&& b.buf().subrange(
                    16 + b.topic_len(),
                    16 + b.topic_len() + b.data_len(),
                ) == data@
                &&& forall|i: int|
                    0 <= i < b.buf().len() && !(16 + b.topic_len() <= i < 16 + b.topic_len()
                        + b.data_len()) ==> b.buf()[i] == self.buf()[i]
            },
            r is Err ==> r == Err::<SdMessageBuilder<Topic, Data>, SdmqError>(
                SdmqError::CapacityExceeded,
            ),
    {
        let n = data.len();
        let cap = self.inner.len();
        if n > u32::MAX as usize || cap < HEADER_SIZE || self.topic.0 > cap - HEADER_SIZE || n
            > cap - HEADER_SIZE - self.topic.0 {
            return Err(SdmqError::CapacityExceeded);
        }
        let off = HEADER_SIZE + self.topic.0;
        let mut inner = self.inner;
        copy_into(&mut inner, off, data);
        Ok(SdMessageBuilder { inner, topic: self.topic, data: Data(n) })
    }

    /// Serializes the value as JSON directly after the topic region through
    /// the external serializer, then records the count it produced.
    pub fn write_json(self, data: &serde_json::Value) -> (r: Result<
        SdMessageBuilder<Topic, Data>,
        SdmqError,
    >)
        ensures
            r is Ok <==> json_bytes_of(*data).len() <= u32::MAX && 16 + self.topic_len()
                + json_bytes_of(*data).len() <= self.buf().len(),
            r matches Ok(b) ==> {
                &&& self.topic_len() <= u16::MAX ==> b.wf()
                &&& b.topic_len() == self.topic_len()
                &&& b.data_len() == json_bytes_of(*data).len()
                &&& b.buf().len() == self.buf().len()
                &&& b.buf().subrange(
                    16 + b.topic_len(),
                    16 + b.topic_len() + b.data_len(),
                ) == json_bytes_of(*data)
                &&& forall|i: int|
                    0 <= i < b.buf().len() && !(16 + b.topic_len() <= i < 16 + b.topic_len()
                        + b.data_len()) ==> b.buf()[i] == self.buf()[i]
            },
            r is Err ==> r == Err::<SdMessageBuilder<Topic, Data>, SdmqError>(
                SdmqError::CapacityExceeded,
            ),
    {
        let payload = match json_to_vec(data) {
            Some(p) => p,
            None => unreached(),
        };
        self.write_raw(payload.as_slice())
    }
}

impl SdMessageBuilder<Topic, Data> {
    /// Both regions lie inside the buffer and their lengths fit the header's
    /// fields: what the two writing phases established.
    pub closed spec fn wf(self) -> bool {
        &&& self.topic.0 <= u16::MAX
        &&& self.data.0 <= u32::MAX
        &&& 16 + self.topic.0 + self.data.0 <= self.inner@.len()
    }

    /// Computes the checksum over the topic and payload regions, writes the
    /// assembled header into the first 16 bytes, and returns the buffer with
    /// the total frame length.
    pub fn done(self, msg_type: SdmqMsgType) -> (r: (Vec<u8>, usize))
        requires
            self.wf(),
        ensures
            r.1 == 16 + self.topic_len() + self.data_len(),
            r.0@.len() == self.buf().len(),
            r.0@.take(r.1 as int) == frame_bytes(
                msg_type,
                self.buf().subrange(16, 16 + self.topic_len()),
                self.buf().subrange(
                    16 + self.topic_len(),
                    16 + self.topic_len() + self.data_len(),
                ),
            ),
            r.0@.skip(r.1 as int) == self.buf().skip(r.1 as int),
    {
        let ghost t = self.buf().subrange(16, 16 + self.topic_len());
        let ghost p = self.buf().subrange(
            16 + self.topic_len(),
            16 + self.topic_len() + self.data_len(),
        );
        let tl = self.topic.0;
        let dl = self.data.0;
        let cap = self.inner.len();
        let pos = HEADER_SIZE + tl + dl;
        let crc_input = slice_subrange(self.inner.as_slice(), HEADER_SIZE, pos);
        proof {
            assert(crc_input@ =~= t + p);
        }
        let hash = !crc32_fold(CRC32_INIT, crc_input);
        let header = SdmqHeader {
            magic: MAGIC,
            hash,
            options: msg_type.code(),
            topic_len: tl as u16,
            data_len: dl as u32,
        };
        let mut inner = self.inner;
        match header.write_to(&mut inner) {
            Ok(()) => (),
            Err(_) => unreached(),
        };
        proof {
            assert(inner@.take(pos as int) =~= header_bytes(header) + t + p);
            assert(inner@.skip(pos as int) =~= self.buf().skip(pos as int));
        }
        (inner, pos)
    }
}

/// A frame packet over a fixed 1024-byte buffer.
pub type SdmqPacket = SdmqPacketBuf<1024>;

/// A packet buffer of fixed capacity SIZE that owns its backing storage and
/// assembles one complete frame at a time through the phase builder.
pub struct SdmqPacketBuf<const SIZE: usize> {
    buffer: Vec<u8>,
    pos: usize,
}

impl<const SIZE: usize> SdmqPacketBuf<SIZE> {
    /// The finished frame: the first pos bytes of the buffer.
    pub closed spec fn frame(self) -> Seq<u8> {
        self.buffer@.take(self.pos as int)
    }

    /// The capacity of the backing buffer; construction fixes it at SIZE.
    pub closed spec fn capacity(self) -> int {
        self.buffer@.len() as int
    }

    #[verifier::type_invariant]
    spec fn type_inv(self) -> bool {
        self.pos <= self.buffer@.len()
    }

    /// A zeroed packet buffer holding no frame.
    pub fn new() -> (r: Self)
        ensures
            r.frame() == Seq::<u8>::empty(),
            r.capacity() == SIZE,
    {
        let buffer = vec![0u8; SIZE];
        let r = Self { buffer, pos: 0 };
        proof {
            assert(r.frame() =~= Seq::<u8>::empty());
        }
        r
    }

    /// Builds a complete frame of kind Push carrying the topic and the raw
    /// payload bytes, replacing whatever the buffer held before.
    pub fn write_raw(&mut self, topic: &str, data: &[u8]) -> (r: Result<(), SdmqError>)
        ensures
            final(self).capacity() == old(self).capacity(),
            r is Ok <==> topic.spec_bytes().len() <= u16::MAX && data@.len() <= u32::MAX && 16
                + topic.spec_bytes().len() + data@.len() <= old(self).capacity(),
            r is Ok ==> final(self).frame() == frame_bytes(
                SdmqMsgType::Push,
                topic.spec_bytes(),
                data@,
            ),
            r is Err ==> r == Err::<(), SdmqError>(SdmqError::CapacityExceeded) && *final(self)
                == *old(self),
    {
        proof {
            use_type_invariant(&*self);
        }
        let tlen = topic.as_bytes().len();
        let dlen = data.len();
        let cap = self.buffer.len();
        if tlen > u16::MAX as usize || dlen > u32::MAX as usize || cap < HEADER_SIZE || tlen > cap
            - HEADER_SIZE || dlen > cap - HEADER_SIZE - tlen {
            return Err(SdmqError::CapacityExceeded);
        }
        self.pos = 0;
        let mut work: Vec<u8> = Vec::new();
        core::mem::swap(&mut self.buffer, &mut work);
        let builder = SdMessageBuilder::new(work);
        let builder = match builder.topic(topic) {
            Ok(b) => b,
            Err(_) => unreached(),
        };
        let builder = match builder.write_raw(data) {
            Ok(b) => b,
            Err(_) => unreached(),
        };
        proof {
            assert(builder.buf().subrange(16, 16 + builder.topic_len()) =~= topic.spec_bytes());
        }
        let (mut finished, pos) = builder.done(SdmqMsgType::Push);
        core::mem::swap(&mut self.buffer, &mut finished);
        self.pos = pos;
        Ok(())
    }

    /// Builds a complete frame of kind Push carrying the topic and the JSON
    /// text of the value, as the external serializer produces it.
    pub fn write_json(&mut self, topic: &str, value: &serde_json::Value) -> (r: Result<
        (),
        SdmqError,
    >)
        ensures
            final(self).capacity() == old(self).capacity(),
            r is Ok <==> topic.spec_bytes().len() <= u16::MAX && json_bytes_of(*value).len()
                <= u32::MAX && 16 + topic.spec_bytes().len() + json_bytes_of(*value).len() <= old(
                self,
            ).capacity(),
            r is Ok ==> final(self).frame() == frame_bytes(
                SdmqMsgType::Push,
                topic.spec_bytes(),
                json_bytes_of(*value),
            ),
            r is Err ==> r == Err::<(), SdmqError>(SdmqError::CapacityExceeded) && *final(self)
                == *old(self),
    {
        let payload = match json_to_vec(value) {
            Some(p) => p,
            None => unreached(),
        };
        self.write_raw(topic, payload.as_slice())
    }

    /// The finished frame: the bytes the last build produced.
    pub fn as_slice(&self) -> (r: &[u8])
        ensures
            r@ == self.frame(),
    {
        proof {
            use_type_invariant(&*self);
        }
        slice_subrange(self.buffer.as_slice(), 0, self.pos)
    }
}

impl<const SIZE: usize> Default for SdmqPacketBuf<SIZE> {
    /// A zeroed packet buffer holding no frame.
    fn default() -> (r: Self)
        ensures
            r.frame() == Seq::<u8>::empty(),
            r.capacity() == SIZE,
    {
        Self::new()
    }
}

} // verus!
