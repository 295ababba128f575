//! The mathematical model of the wire protocol.
//!
//! A frame is `SYNC1 SYNC2 class id len_lo len_hi payload[len] ck_a ck_b`,
//! with the checksum pair computed over `class .. end-of-payload`.
//! `spec_drain` is the reference decoder: it consumes a byte sequence as far
//! as a decision can be made, emitting one [`SpecOut`] per completed or
//! aborted frame and leaving the undecidable tail in place. Every
//! executable decoding path is specified against it.

use vstd::prelude::*;
use crate::checksum::checksum_pair;

verus! {

/// First frame-start marker byte.
pub const SYNC_CHAR_1: u8 = 0xb5;

/// Second frame-start marker byte.
pub const SYNC_CHAR_2: u8 = 0x62;

/// Protocol-wide ceiling on a frame's payload length; a longer length field
/// is rejected while still in the header, so memory use stays bounded even
/// under a corrupted length.
pub const MAX_PAYLOAD_LEN: u16 = 1240;

/// The catalog's declared exact payload length for a known `(class, id)`
/// pair; `None` for message types absent from the catalog.
pub open spec fn spec_catalog_fixed_len(class: u8, msg_id: u8) -> Option<u16> {
    if class == 5 && msg_id == 1 {
        Some(2u16)
    } else if class == 5 && msg_id == 0 {
        Some(2u16)
    } else {
        None
    }
}

/// Whether a header-declared payload length is acceptable: within the
/// protocol-wide ceiling and within the catalog's bound for a known type.
pub open spec fn spec_len_ok(class: u8, msg_id: u8, plen: int) -> bool {
    &&& plen <= MAX_PAYLOAD_LEN as int
    &&& match spec_catalog_fixed_len(class, msg_id) {
        Some(l) => plen <= l as int,
        None => true,
    }
}

/// One decode outcome, as the model sees it: a validated message, a frame
/// whose checksum did not match, or a frame aborted on its length field.
pub enum SpecOut {
    /// A frame that passed checksum and length validation.
    Msg { class: u8, msg_id: u8, payload: Seq<u8> },
    /// A frame whose received checksum pair disagreed with the computed one.
    BadChecksum { class: u8, msg_id: u8, payload: Seq<u8> },
    /// A frame whose declared payload length was out of bounds, at the
    /// header or against the catalog's exact length at dispatch.
    BadLength,
}

/// What dispatch makes of a checksum-validated frame: a message when the
/// payload length agrees with the catalog (always, for unknown types), and
/// a length error otherwise.
pub open spec fn spec_dispatch(class: u8, msg_id: u8, payload: Seq<u8>) -> SpecOut {
    match spec_catalog_fixed_len(class, msg_id) {
        Some(l) => if payload.len() == l as int {
            SpecOut::Msg { class, msg_id, payload }
        } else {
            SpecOut::BadLength
        },
        None => SpecOut::Msg { class, msg_id, payload },
    }
}

/// The reference decoder. Consumes `buf` from the front as far as the bytes
/// allow: noise before a sync pair is dropped one byte at a time (a lone
/// first marker drops only itself, so progress is always one byte or more),
/// an out-of-bounds length field aborts the frame right after the header,
/// and a complete frame is checksum-checked and dispatched. The pair is
/// (outcomes in order, bytes left pending).
pub open spec fn spec_drain(buf: Seq<u8>) -> (Seq<SpecOut>, Seq<u8>)
    decreases buf.len(),
{
    if buf.len() < 1 {
        (Seq::<SpecOut>::empty(), buf)
    } else if buf[0] != SYNC_CHAR_1 {
        spec_drain(buf.skip(1))
    } else if buf.len() < 2 {
        (Seq::<SpecOut>::empty(), buf)
    } else if buf[1] != SYNC_CHAR_2 {
        spec_drain(buf.skip(1))
    } else if buf.len() < 6 {
        (Seq::<SpecOut>::empty(), buf)
    } else {
        let class = buf[2];
        let msg_id = buf[3];
        let plen = buf[4] as int + 256 * (buf[5] as int);
        if !spec_len_ok(class, msg_id, plen) {
            let rec = spec_drain(buf.skip(6));
            (seq![SpecOut::BadLength] + rec.0, rec.1)
        } else if buf.len() < 8 + plen {
            (Seq::<SpecOut>::empty(), buf)
        } else {
            let payload = buf.subrange(6, 6 + plen);
            let ck = checksum_pair(buf.subrange(2, 6 + plen));
            let out = if buf[6 + plen] == ck.0 && buf[7 + plen] == ck.1 {
                spec_dispatch(class, msg_id, payload)
            } else {
                SpecOut::BadChecksum { class, msg_id, payload }
            };
            let rec = spec_drain(buf.skip(8 + plen));
            (seq![out] + rec.0, rec.1)
        }
    }
}

/// A buffer on which the decoder can make no further decision: draining it
/// emits nothing and leaves it unchanged. The tail that `spec_drain` leaves
/// behind is always stalled, and a parser between `consume` calls holds
/// exactly such a tail.
pub open spec fn spec_stalled(buf: Seq<u8>) -> bool {
    spec_drain(buf) == (Seq::<SpecOut>::empty(), buf)
}

/// Draining `b + ext` is draining `b`, then draining what it left plus
/// `ext`, with the outcome sequences concatenated: a decision the decoder
/// makes on a prefix is never revised when more bytes arrive. This is the
/// engine behind chunk-size invariance.
pub proof fn lemma_drain_append(b: Seq<u8>, ext: Seq<u8>)
    ensures
        spec_drain(b + ext).0 == spec_drain(b).0 + spec_drain(spec_drain(b).1 + ext).0,
        spec_drain(b + ext).1 == spec_drain(spec_drain(b).1 + ext).1,
    decreases b.len(),
{
    let w = b + ext;
    if b.len() < 1 {
        assert(b + ext =~= ext);
        assert(spec_drain(b).1 + ext =~= ext);
        assert(spec_drain(b).0 + spec_drain(ext).0 =~= spec_drain(ext).0);
    } else if b[0] != SYNC_CHAR_1 {
        assert(w[0] == b[0]);
        assert(w.skip(1) =~= b.skip(1) + ext);
        lemma_drain_append(b.skip(1), ext);
    } else if b.len() < 2 {
        assert(spec_drain(b).1 + ext =~= b + ext);
        assert(spec_drain(b).0 + spec_drain(b + ext).0 =~= spec_drain(b + ext).0);
    } else if b[1] != SYNC_CHAR_2 {
        assert(w[0] == b[0] && w[1] == b[1]);
        assert(w.skip(1) =~= b.skip(1) + ext);
        lemma_drain_append(b.skip(1), ext);
    } else if b.len() < 6 {
        assert(w[0] == b[0] && w[1] == b[1]);
        assert(spec_drain(b).1 + ext =~= b + ext);
        assert(spec_drain(b).0 + spec_drain(b + ext).0 =~= spec_drain(b + ext).0);
    } else {
        assert(w[0] == b[0] && w[1] == b[1] && w[2] == b[2] && w[3] == b[3] && w[4] == b[4]
            && w[5] == b[5]);
        let class = b[2];
        let msg_id = b[3];
        let plen = b[4] as int + 256 * (b[5] as int);
        if !spec_len_ok(class, msg_id, plen) {
            assert(w.skip(6) =~= b.skip(6) + ext);
            lemma_drain_append(b.skip(6), ext);
            let rb = spec_drain(b.skip(6));
            let rw = spec_drain(w.skip(6));
            assert(seq![SpecOut::BadLength] + rw.0 =~= (seq![SpecOut::BadLength] + rb.0)
                + spec_drain(rb.1 + ext).0);
        } else if b.len() < 8 + plen {
            assert(spec_drain(b) == (Seq::<SpecOut>::empty(), b));
            assert(spec_drain(b).1 + ext =~= b + ext);
            assert(spec_drain(b).0 + spec_drain(b + ext).0 =~= spec_drain(b + ext).0);
        } else {
            assert(w.subrange(6, 6 + plen) =~= b.subrange(6, 6 + plen));
            assert(w.subrange(2, 6 + plen) =~= b.subrange(2, 6 + plen));
            assert(w[6 + plen] == b[6 + plen] && w[7 + plen] == b[7 + plen]);
            assert(w.skip(8 + plen) =~= b.skip(8 + plen) + ext);
            lemma_drain_append(b.skip(8 + plen), ext);
            let rb = spec_drain(b.skip(8 + plen));
            let rw = spec_drain(w.skip(8 + plen));
            let payload = b.subrange(6, 6 + plen);
            let ck = checksum_pair(b.subrange(2, 6 + plen));
            let out = if b[6 + plen] == ck.0 && b[7 + plen] == ck.1 {
                spec_dispatch(class, msg_id, payload)
            } else {
                SpecOut::BadChecksum { class, msg_id, payload }
            };
            assert(seq![out] + rw.0 =~= (seq![out] + rb.0) + spec_drain(rb.1 + ext).0);
        }
    }
}

/// The serialized form of a frame: sync pair, class, id, little-endian
/// payload length, payload, checksum pair over `class .. end-of-payload`.
/// Meaningful for payloads of at most 65535 bytes.
pub open spec fn spec_frame_bytes(class: u8, msg_id: u8, payload: Seq<u8>) -> Seq<u8> {
    let body = seq![class, msg_id, (payload.len() % 256) as u8, ((payload.len() / 256) % 256) as u8]
        + payload;
    let ck = checksum_pair(body);
    seq![SYNC_CHAR_1, SYNC_CHAR_2] + body + seq![ck.0, ck.1]
}

/// The fixed 8-byte poll request frame for a message type: an empty payload
/// framed and checksummed like any other frame.
pub open spec fn spec_poll_frame(class: u8, msg_id: u8) -> Seq<u8> {
    spec_frame_bytes(class, msg_id, Seq::<u8>::empty())
}

} // verus!
