//! Typed messages and the dispatch step.
//!
//! Dispatch takes a checksum-validated `(class, id, payload)` triple, asks
//! the catalog for that type's exact payload length, and yields a typed
//! view on a match, the unknown-message fallback on a catalog miss, and a
//! length error when a known type's payload disagrees with the catalog.

use vstd::prelude::*;
use crate::error::ParserError;
use crate::frame::{spec_catalog_fixed_len, spec_dispatch, SpecOut};
use crate::ubx_packets::{UbxPacketMeta, UbxUnknownPacketRef};

verus! {

/// Acknowledgement of a received message, naming the acknowledged type.
#[derive(Debug, Clone, PartialEq, Eq, Structural)]
pub struct AckAck {
    /// Class of the acknowledged message.
    pub acked_class: u8,
    /// Id of the acknowledged message.
    pub acked_id: u8,
}

impl UbxPacketMeta for AckAck {
    open spec fn spec_class() -> u8 {
        5
    }

    open spec fn spec_id() -> u8 {
        1
    }

    open spec fn spec_fixed_payload_len() -> Option<u16> {
        Some(2u16)
    }

    open spec fn spec_max_payload_len() -> u16 {
        2
    }

    fn class() -> u8 {
        5
    }

    fn id() -> u8 {
        1
    }

    fn fixed_payload_len() -> Option<u16> {
        Some(2u16)
    }

    fn max_payload_len() -> u16 {
        2
    }
}

/// Negative acknowledgement of a received message.
#[derive(Debug, Clone, PartialEq, Eq, Structural)]
pub struct AckNak {
    /// Class of the rejected message.
    pub nacked_class: u8,
    /// Id of the rejected message.
    pub nacked_id: u8,
}

impl UbxPacketMeta for AckNak {
    open spec fn spec_class() -> u8 {
        5
    }

    open spec fn spec_id() -> u8 {
        0
    }

    open spec fn spec_fixed_payload_len() -> Option<u16> {
        Some(2u16)
    }

    open spec fn spec_max_payload_len() -> u16 {
        2
    }

    fn class() -> u8 {
        5
    }

    fn id() -> u8 {
        0
    }

    fn fixed_payload_len() -> Option<u16> {
        Some(2u16)
    }

    fn max_payload_len() -> u16 {
        2
    }
}

/// A validated message: a typed view for a catalog hit, the raw fallback
/// for a miss.
#[derive(Debug, Clone, PartialEq)]
pub enum Packet {
    /// Positive acknowledgement, class 5 id 1.
    AckAck(AckAck),
    /// Negative acknowledgement, class 5 id 0.
    AckNak(AckNak),
    /// A frame whose `(class, id)` the catalog does not know.
    Unknown(UbxUnknownPacketRef),
}

impl Packet {
    /// The wire class byte this message was decoded from.
    pub open spec fn spec_class(&self) -> u8 {
        match self {
            Packet::AckAck(_) => 5,
            Packet::AckNak(_) => 5,
            Packet::Unknown(u) => u.class,
        }
    }

    /// The wire id byte this message was decoded from.
    pub open spec fn spec_msg_id(&self) -> u8 {
        match self {
            Packet::AckAck(_) => 1,
            Packet::AckNak(_) => 0,
            Packet::Unknown(u) => u.msg_id,
        }
    }

    /// The payload bytes this message was decoded from.
    pub open spec fn spec_payload(&self) -> Seq<u8> {
        match self {
            Packet::AckAck(a) => seq![a.acked_class, a.acked_id],
            Packet::AckNak(n) => seq![n.nacked_class, n.nacked_id],
            Packet::Unknown(u) => u.payload@,
        }
    }
}

/// The model's reading of one decode result.
pub open spec fn out_view(r: Result<Packet, ParserError>) -> SpecOut {
    match r {
        Ok(p) => SpecOut::Msg {
            class: p.spec_class(),
            msg_id: p.spec_msg_id(),
            payload: p.spec_payload(),
        },
        Err(ParserError::InvalidLength) => SpecOut::BadLength,
        Err(ParserError::InvalidChecksum { class, msg_id, payload }) => SpecOut::BadChecksum {
            class,
            msg_id,
            payload: payload@,
        },
    }
}

/// A message carried by the variant dispatch owes it: the typed view
/// exactly on a catalog hit, the unknown fallback exactly on a miss. The
/// typed variants are their own catalog hits, so only the fallback has
/// anything to rule out.
pub open spec fn packet_well_dispatched(p: Packet) -> bool {
    match p {
        Packet::AckAck(_) => true,
        Packet::AckNak(_) => true,
        Packet::Unknown(u) => spec_catalog_fixed_len(u.class, u.msg_id) is None,
    }
}

/// The model's reading of a whole result sequence, in order.
pub open spec fn outs_view(s: Seq<Result<Packet, ParserError>>) -> Seq<SpecOut> {
    s.map_values(|x: Result<Packet, ParserError>| out_view(x))
}

/// The catalog's exact payload length for a `(class, id)` pair, `None` for
/// types the catalog does not know.
pub fn catalog_fixed_len(class: u8, msg_id: u8) -> (r: Option<u16>)
    ensures
        r == spec_catalog_fixed_len(class, msg_id),
{
    if class == 5 && msg_id == 1 {
        Some(2u16)
    } else if class == 5 && msg_id == 0 {
        Some(2u16)
    } else {
        None
    }
}

/// Turn a checksum-validated frame into a message. A catalog miss is the
/// unknown-message fallback, never an error; a known type whose payload
/// length disagrees with the catalog's exact length is a length error.
pub fn dispatch(class: u8, msg_id: u8, payload: Vec<u8>) -> (r: Result<Packet, ParserError>)
    ensures
        out_view(r) == spec_dispatch(class, msg_id, payload@),
        r matches Ok(p) ==> packet_well_dispatched(p),
        spec_catalog_fixed_len(class, msg_id) is None ==> r == Ok::<Packet, ParserError>(
            Packet::Unknown((UbxUnknownPacketRef { payload, class, msg_id })),
        ),
        class == 5 && msg_id == 1 && payload@.len() == 2 ==> r == Ok::<Packet, ParserError>(
            Packet::AckAck((AckAck { acked_class: payload@[0], acked_id: payload@[1] })),
        ),
        class == 5 && msg_id == 0 && payload@.len() == 2 ==> r == Ok::<Packet, ParserError>(
            Packet::AckNak((AckNak { nacked_class: payload@[0], nacked_id: payload@[1] })),
        ),
{
    if class == 5 && msg_id == 1 {
        if payload.len() == 2 {
            let r = Ok(Packet::AckAck(AckAck { acked_class: payload[0], acked_id: payload[1] }));
            proof {
                assert(seq![payload@[0], payload@[1]] =~= payload@);
            }
            r
        } else {
            Err(ParserError::InvalidLength)
        }
    } else if class == 5 && msg_id == 0 {
        if payload.len() == 2 {
            let r = Ok(Packet::AckNak(AckNak { nacked_class: payload[0], nacked_id: payload[1] }));
            proof {
                assert(seq![payload@[0], payload@[1]] =~= payload@);
            }
            r
        } else {
            Err(ParserError::InvalidLength)
        }
    } else {
        Ok(Packet::Unknown(UbxUnknownPacketRef { payload, class, msg_id }))
    }
}

} // verus!
