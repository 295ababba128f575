//! Error values surfaced by the decoder, the buffers and the encoder.

use vstd::prelude::*;

verus! {

/// A frame-level decode failure. Each aborts exactly the frame it names;
/// the stream continues with resynchronization.
#[derive(Debug, Clone, PartialEq)]
pub enum ParserError {
    /// The header's declared payload length was over the protocol-wide
    /// ceiling or over the catalog's bound for the frame's type, or a
    /// checksum-valid frame's payload disagreed with the catalog's exact
    /// length at dispatch.
    InvalidLength,
    /// The received checksum pair disagreed with the pair computed over the
    /// frame; the raw class, id and payload are kept for diagnostics.
    InvalidChecksum { class: u8, msg_id: u8, payload: Vec<u8> },
}

/// A fixed-capacity buffer could not take the offered bytes without
/// exceeding its capacity; the buffer is left exactly as it was.
#[derive(Debug, Clone, PartialEq, Eq, Structural)]
pub struct Overflow;

/// A failure of a [`crate::ubx_packets::MemWriter`] sink on the encode path.
#[derive(Debug, Clone, PartialEq)]
pub enum MemWriterError<E> {
    /// The sink could not accept the full span of bytes.
    NotEnoughMem,
    /// An error of the sink's own, carried through unchanged.
    Custom(E),
}

} // verus!
