//! A compact binary message-framing codec for publish/subscribe transports.
//!
//! A frame is a fixed 16-byte header (magic, CRC-32 checksum, options,
//! topic length, payload length, all big-endian) followed by a dot-delimited
//! UTF-8 topic string and an opaque payload. The library offers a zero-copy
//! reader over received buffers and a fixed-capacity, ordering-safe builder
//! that assembles complete frames.

mod checksum;
mod errors;
pub mod proto;
mod topic;
mod utils;

pub use checksum::crc32_ieee;
pub use errors::SdmqError;
pub use proto::read::SdmqProto;
pub use proto::write::{Data, Empty, SdMessageBuilder, SdmqPacket, SdmqPacketBuf};
pub use proto::{SdmqHeader, SdmqMsgType};
pub use topic::Topic;
pub use utils::Cursor;
