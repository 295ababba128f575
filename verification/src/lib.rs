//! Incremental codec for a binary frame protocol used by navigation
//! receivers: sync-marked frames with an additive two-byte checksum are
//! extracted from a byte stream that arrives in arbitrarily sized chunks,
//! validated, and dispatched to typed messages; outgoing poll requests are
//! framed and checksummed by the same rules.

pub mod buffer;
pub mod checksum;
pub mod error;
pub mod frame;
pub mod laws;
pub mod packets;
pub mod parser;
pub mod ubx_packets;

pub use buffer::{FixedBuffer, GrowableBuffer, UbxBuffer};
pub use checksum::UbxChecksumCalc;
pub use error::{MemWriterError, Overflow, ParserError};
pub use packets::{AckAck, AckNak, Packet};
pub use parser::Parser;
pub use ubx_packets::{
    MemWriter, UbxPacketCreator, UbxPacketMeta, UbxPacketRequest, UbxUnknownPacketRef,
};
