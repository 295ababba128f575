//! Outgoing packets: metadata, sinks, and the fixed-size poll request.

use vstd::prelude::*;
use crate::checksum::{ck_fold, ck_step, UbxChecksumCalc};
use crate::error::MemWriterError;
use crate::frame::{spec_poll_frame, SYNC_CHAR_1, SYNC_CHAR_2};

verus! {

/// Information about a concrete packet type of the protocol: its wire key
/// and its declared payload length, as the catalog publishes them.
pub trait UbxPacketMeta {
    /// The class byte of this packet type.
    spec fn spec_class() -> u8;

    /// The id byte of this packet type.
    spec fn spec_id() -> u8;

    /// The exact payload length, where the type declares one.
    spec fn spec_fixed_payload_len() -> Option<u16>;

    /// The largest payload length the type allows.
    spec fn spec_max_payload_len() -> u16;

    /// The class byte of this packet type.
    fn class() -> (c: u8)
        ensures
            c == Self::spec_class(),
    ;

    /// The id byte of this packet type.
    fn id() -> (i: u8)
        ensures
            i == Self::spec_id(),
    ;

    /// The exact payload length, where the type declares one.
    fn fixed_payload_len() -> (l: Option<u16>)
        ensures
            l == Self::spec_fixed_payload_len(),
    ;

    /// The largest payload length the type allows.
    fn max_payload_len() -> (l: u16)
        ensures
            l == Self::spec_max_payload_len(),
    ;
}

/// A byte sink that serialized packets are written into.
pub trait MemWriter {
    /// The sink's own error type.
    type Error;

    /// The bytes the sink holds so far.
    spec fn contents(&self) -> Seq<u8>;

    /// Make sure the sink can take `len` more bytes; never changes what it
    /// already holds.
    fn reserve_allocate(&mut self, len: usize) -> (r: Result<(), MemWriterError<Self::Error>>)
        ensures
            final(self).contents() == old(self).contents(),
    ;

    /// Append `buf` whole, or report a failure and hold what it held.
    fn write(&mut self, buf: &[u8]) -> (r: Result<(), MemWriterError<Self::Error>>)
        ensures
            r is Ok ==> final(self).contents() == old(self).contents() + buf@,
            r is Err ==> final(self).contents() == old(self).contents(),
    ;
}

impl MemWriter for Vec<u8> {
    type Error = ();

    open spec fn contents(&self) -> Seq<u8> {
        self@
    }

    /// A growable sink: reserving is a hint and never fails.
    fn reserve_allocate(&mut self, len: usize) -> (r: Result<(), MemWriterError<()>>)
        ensures
            r is Ok,
    {
        self.reserve(len);
        Ok(())
    }

    /// A growable sink always accepts the full span.
    fn write(&mut self, buf: &[u8]) -> (r: Result<(), MemWriterError<()>>)
        ensures
            r is Ok,
    {
        self.extend_from_slice(buf);
        Ok(())
    }
}

/// A packet that can serialize itself into a [`MemWriter`].
pub trait UbxPacketCreator where Self: core::marker::Sized {
    /// The exact bytes this packet serializes to.
    spec fn spec_packet_bytes(&self) -> Seq<u8>;

    /// Serialize the packet into `out`: on success the sink has gained
    /// exactly the packet's bytes, on failure it is unchanged.
    fn create_packet<T: MemWriter>(self, out: &mut T) -> (r: Result<(), MemWriterError<T::Error>>)
        ensures
            r is Ok ==> final(out).contents() == old(out).contents() + self.spec_packet_bytes(),
            r is Err ==> final(out).contents() == old(out).contents(),
    ;
}

/// A validated frame whose `(class, id)` the catalog does not know. The
/// payload is an owned copy of the frame's payload bytes, so the caller may
/// keep the message across later decoding.
#[derive(Debug, Clone, PartialEq)]
pub struct UbxUnknownPacketRef {
    /// The raw payload bytes of the frame.
    pub payload: Vec<u8>,
    /// The frame's class byte.
    pub class: u8,
    /// The frame's id byte.
    pub msg_id: u8,
}

/// A request for the receiver to send a specific packet type: an empty
/// frame carrying only that type's class and id.
#[derive(Debug, Clone, PartialEq, Eq, Structural)]
pub struct UbxPacketRequest {
    req_class: u8,
    req_id: u8,
}

impl UbxPacketRequest {
    /// The fixed size of every serialized poll request, in bytes.
    pub const PACKET_LEN: usize = 8;

    /// The class byte the request polls for.
    pub closed spec fn spec_class(&self) -> u8 {
        self.req_class
    }

    /// The id byte the request polls for.
    pub closed spec fn spec_id(&self) -> u8 {
        self.req_id
    }

    /// Request a packet type the catalog knows.
    pub fn request_for<T: UbxPacketMeta>() -> (r: Self)
        ensures
            r.spec_class() == T::spec_class(),
            r.spec_id() == T::spec_id(),
    {
        Self { req_class: T::class(), req_id: T::id() }
    }

    /// Request a packet type by raw class and id bytes.
    pub fn request_for_unknown(req_class: u8, req_id: u8) -> (r: Self)
        ensures
            r.spec_class() == req_class,
            r.spec_id() == req_id,
    {
        Self { req_class, req_id }
    }

    /// Serialize the request: always exactly the 8-byte poll frame for the
    /// requested class and id.
    pub fn into_packet_bytes(self) -> (r: [u8; 8])
        ensures
            r@ == spec_poll_frame(self.spec_class(), self.spec_id()),
    {
        let mut checksum_calc = UbxChecksumCalc::new();
        checksum_calc.update_byte(self.req_class);
        checksum_calc.update_byte(self.req_id);
        checksum_calc.update_byte(0);
        checksum_calc.update_byte(0);
        let (ck_a, ck_b) = checksum_calc.result_pair();
        let ret = [SYNC_CHAR_1, SYNC_CHAR_2, self.req_class, self.req_id, 0, 0, ck_a, ck_b];
        proof {
            let body = seq![self.req_class, self.req_id, 0u8, 0u8];
            assert(body =~= Seq::<u8>::empty().push(self.req_class).push(self.req_id).push(
                0u8,
            ).push(0u8));
            crate::checksum::lemma_ck_fold_push(
                (0u8, 0u8),
                Seq::<u8>::empty().push(self.req_class).push(self.req_id).push(0u8),
                0u8,
            );
            crate::checksum::lemma_ck_fold_push(
                (0u8, 0u8),
                Seq::<u8>::empty().push(self.req_class).push(self.req_id),
                0u8,
            );
            crate::checksum::lemma_ck_fold_push(
                (0u8, 0u8),
                Seq::<u8>::empty().push(self.req_class),
                self.req_id,
            );
            crate::checksum::lemma_ck_fold_push((0u8, 0u8), Seq::<u8>::empty(), self.req_class);
            assert(ck_fold((0u8, 0u8), Seq::<u8>::empty()) == (0u8, 0u8));
            assert((ck_a, ck_b) == ck_fold((0u8, 0u8), body));
            let frame = spec_poll_frame(self.req_class, self.req_id);
            assert(seq![
                self.req_class,
                self.req_id,
                (Seq::<u8>::empty().len() % 256) as u8,
                ((Seq::<u8>::empty().len() / 256) % 256) as u8,
            ] + Seq::<u8>::empty() =~= body);
            assert(ret@ =~= frame);
        }
        ret
    }
}

impl UbxPacketCreator for UbxPacketRequest {
    open spec fn spec_packet_bytes(&self) -> Seq<u8> {
        spec_poll_frame(self.spec_class(), self.spec_id())
    }

    fn create_packet<T: MemWriter>(self, out: &mut T) -> (r: Result<(), MemWriterError<T::Error>>) {
        match out.reserve_allocate(8) {
            Ok(()) => {},
            Err(e) => {
                return Err(e);
            },
        }
        let ghost bytes = self.spec_packet_bytes();
        let packet = self.into_packet_bytes();
        out.write(vstd::array::array_as_slice(&packet))
    }
}

} // verus!
