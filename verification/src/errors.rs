//! The error taxonomy of the codec.

use vstd::prelude::*;

verus! {

/// Every failure the codec can report. All operations on untrusted input
/// return one of these instead of panicking.
#[derive(Clone, Copy, Debug, PartialEq, Eq, Structural)]
pub enum SdmqError {
    /// Fewer than 16 bytes were available where a header was expected.
    TruncatedHeader,
    /// The header declares more topic or payload bytes than the buffer holds.
    TruncatedFrame,
    /// The decoded magic field differs from the protocol constant.
    InvalidMagic,
    /// The checksum recomputed over topic and payload differs from the header field.
    ChecksumMismatch,
    /// The masked options field matches no known message kind.
    UnknownMessageKind,
    /// The builder's fixed buffer cannot hold the requested topic and payload.
    CapacityExceeded,
    /// The topic bytes are not valid UTF-8.
    InvalidTopicEncoding,
    /// The payload serializer rejected the value it was given.
    SerializerFailure,
    /// A sequential read ran past the end of the underlying region.
    BufferUnderrun,
    /// A sequential write ran past the end of the underlying region.
    BufferOverrun,
}

} // verus!
