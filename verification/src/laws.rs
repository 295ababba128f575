//! Stream-level guarantees of the decoder, stated over the reference model
//! and proved once and for all: chunk-size invariance, detection of a
//! corrupted payload byte, resynchronization after noise, and the poll
//! round trip.

use vstd::prelude::*;
use vstd::arithmetic::div_mod::{lemma_fundamental_div_mod, lemma_mod_multiples_vanish, lemma_small_mod};
use crate::checksum::{ck_fold, ck_step, checksum_pair};
use crate::frame::{
    spec_catalog_fixed_len, spec_dispatch, spec_drain, spec_frame_bytes, spec_len_ok,
    spec_poll_frame, SpecOut, MAX_PAYLOAD_LEN, SYNC_CHAR_1,
};

verus! {

/// The outcome of feeding a stream to a parser chunk by chunk, from an
/// empty buffer: every chunk is appended to what the previous step left
/// pending and drained as far as possible.
pub open spec fn spec_feed(chunks: Seq<Seq<u8>>) -> (Seq<SpecOut>, Seq<u8>)
    decreases chunks.len(),
{
    if chunks.len() == 0 {
        (Seq::<SpecOut>::empty(), Seq::<u8>::empty())
    } else {
        let prev = spec_feed(chunks.drop_last());
        let step = spec_drain(prev.1 + chunks.last());
        (prev.0 + step.0, step.1)
    }
}

/// Feeding a stream chunk by chunk emits exactly what draining the whole
/// stream at once emits, and leaves the same pending tail.
pub proof fn lemma_feed_is_drain(chunks: Seq<Seq<u8>>)
    ensures
        spec_feed(chunks).0 == spec_drain(chunks.flatten()).0,
        spec_feed(chunks).1 == spec_drain(chunks.flatten()).1,
    decreases chunks.len(),
{
    if chunks.len() == 0 {
        assert(chunks.flatten() =~= Seq::<u8>::empty());
        assert(spec_feed(chunks).0 =~= spec_drain(chunks.flatten()).0);
    } else {
        let init = chunks.drop_last();
        let last = chunks.last();
        lemma_feed_is_drain(init);
        init.lemma_flatten_push(last);
        assert(init.push(last) =~= chunks);
        assert(chunks.flatten() == init.flatten() + last);
        crate::frame::lemma_drain_append(init.flatten(), last);
    }
}

/// Chunk-size invariance: any two ways of splitting one byte stream into
/// chunks yield one and the same ordered outcome sequence, and leave the
/// parser holding the same pending bytes.
pub proof fn lemma_chunk_size_invariance(cs1: Seq<Seq<u8>>, cs2: Seq<Seq<u8>>)
    requires
        cs1.flatten() == cs2.flatten(),
    ensures
        spec_feed(cs1).0 == spec_feed(cs2).0,
        spec_feed(cs1).1 == spec_feed(cs2).1,
{
    lemma_feed_is_drain(cs1);
    lemma_feed_is_drain(cs2);
}

/// The layout facts of a serialized frame: where the markers, the header
/// fields, the payload and the checksum bytes sit, and that the length
/// field decodes back to the payload's length.
pub proof fn lemma_frame_layout(class: u8, msg_id: u8, payload: Seq<u8>)
    requires
        payload.len() <= MAX_PAYLOAD_LEN,
    ensures
        ({
            let f = spec_frame_bytes(class, msg_id, payload);
            let n = payload.len() as int;
            let body = seq![
                class,
                msg_id,
                (payload.len() % 256) as u8,
                ((payload.len() / 256) % 256) as u8,
            ] + payload;
            &&& f.len() == 8 + n
            &&& f[0] == SYNC_CHAR_1
            &&& f[1] == crate::frame::SYNC_CHAR_2
            &&& f[2] == class
            &&& f[3] == msg_id
            &&& f[4] as int + 256 * (f[5] as int) == n
            &&& f.subrange(6, 6 + n) == payload
            &&& f.subrange(2, 6 + n) == body
            &&& f[6 + n] == checksum_pair(body).0
            &&& f[7 + n] == checksum_pair(body).1
        }),
{
    let f = spec_frame_bytes(class, msg_id, payload);
    let n = payload.len() as int;
    let body = seq![
        class,
        msg_id,
        (payload.len() % 256) as u8,
        ((payload.len() / 256) % 256) as u8,
    ] + payload;
    assert(f.len() == 8 + n);
    lemma_fundamental_div_mod(n, 256);
    lemma_small_mod((payload.len() / 256) as nat, 256);
    assert(f[4] as int == n % 256);
    assert(f[5] as int == n / 256);
    assert(f[4] as int + 256 * (f[5] as int) == n);
    assert(f.subrange(6, 6 + n) =~= payload);
    assert(f.subrange(2, 6 + n) =~= body);
}

/// A well-formed frame, followed by anything, always drains to one outcome
/// — what dispatch makes of its triple — followed by the rest's outcomes:
/// the checksum it carries is the checksum the decoder recomputes.
pub proof fn lemma_frame_drains(class: u8, msg_id: u8, payload: Seq<u8>, rest: Seq<u8>)
    requires
        spec_len_ok(class, msg_id, payload.len() as int),
    ensures
        spec_drain(spec_frame_bytes(class, msg_id, payload) + rest).0 == seq![
            spec_dispatch(class, msg_id, payload),
        ] + spec_drain(rest).0,
        spec_drain(spec_frame_bytes(class, msg_id, payload) + rest).1 == spec_drain(rest).1,
{
    let f = spec_frame_bytes(class, msg_id, payload);
    let n = payload.len() as int;
    lemma_frame_layout(class, msg_id, payload);
    let w = f + rest;
    assert(w[0] == f[0] && w[1] == f[1] && w[2] == f[2] && w[3] == f[3] && w[4] == f[4] && w[5]
        == f[5]);
    assert(w[4] as int + 256 * (w[5] as int) == n);
    assert(w.subrange(6, 6 + n) =~= f.subrange(6, 6 + n));
    assert(w.subrange(2, 6 + n) =~= f.subrange(2, 6 + n));
    assert(w[6 + n] == f[6 + n] && w[7 + n] == f[7 + n]);
    assert(w.skip(8 + n) =~= rest);
}

/// Noise that contains no first sync marker drains away completely,
/// emitting nothing.
pub proof fn lemma_noise_drains(noise: Seq<u8>)
    requires
        forall|k: int| 0 <= k < noise.len() ==> noise[k] != SYNC_CHAR_1,
    ensures
        spec_drain(noise).0 == Seq::<SpecOut>::empty(),
        spec_drain(noise).1 == Seq::<u8>::empty(),
    decreases noise.len(),
{
    if noise.len() == 0 {
    } else {
        assert(forall|k: int| 0 <= k < noise.skip(1).len() ==> noise.skip(1)[k] != SYNC_CHAR_1);
        lemma_noise_drains(noise.skip(1));
    }
}

/// A frame, by the triple it carries; admissible when its length passes
/// header validation and dispatch accepts it as a message.
pub struct FrameSpec {
    /// The frame's class byte.
    pub class: u8,
    /// The frame's id byte.
    pub msg_id: u8,
    /// The frame's payload bytes.
    pub payload: Seq<u8>,
}

/// A frame the decoder owes an `Ok` outcome: its length passes header
/// validation and its triple dispatches to a message.
pub open spec fn frame_admissible(fr: FrameSpec) -> bool {
    &&& spec_len_ok(fr.class, fr.msg_id, fr.payload.len() as int)
    &&& spec_dispatch(fr.class, fr.msg_id, fr.payload) == (SpecOut::Msg {
        class: fr.class,
        msg_id: fr.msg_id,
        payload: fr.payload,
    })
}

/// The serialization of a run of frames, back to back.
pub open spec fn frames_bytes(frames: Seq<FrameSpec>) -> Seq<u8>
    decreases frames.len(),
{
    if frames.len() == 0 {
        Seq::<u8>::empty()
    } else {
        spec_frame_bytes(frames.first().class, frames.first().msg_id, frames.first().payload)
            + frames_bytes(frames.drop_first())
    }
}

/// The message each frame of a run is owed, in order.
pub open spec fn frames_msgs(frames: Seq<FrameSpec>) -> Seq<SpecOut> {
    frames.map_values(
        |fr: FrameSpec| SpecOut::Msg { class: fr.class, msg_id: fr.msg_id, payload: fr.payload },
    )
}

/// A run of admissible frames drains to exactly its messages, one `Ok`
/// outcome per frame, nothing pending.
pub proof fn lemma_frames_drain(frames: Seq<FrameSpec>)
    requires
        forall|k: int| 0 <= k < frames.len() ==> frame_admissible(#[trigger] frames[k]),
    ensures
        spec_drain(frames_bytes(frames)).0 == frames_msgs(frames),
        spec_drain(frames_bytes(frames)).1 == Seq::<u8>::empty(),
    decreases frames.len(),
{
    if frames.len() == 0 {
        assert(frames_msgs(frames) =~= Seq::<SpecOut>::empty());
    } else {
        let first = frames.first();
        let tail = frames.drop_first();
        assert(frame_admissible(frames[0]));
        assert(forall|k: int| 0 <= k < tail.len() ==> tail[k] == frames[k + 1]);
        lemma_frames_drain(tail);
        lemma_frame_drains(first.class, first.msg_id, first.payload, frames_bytes(tail));
        assert(frames_msgs(frames) =~= seq![
            SpecOut::Msg { class: first.class, msg_id: first.msg_id, payload: first.payload },
        ] + frames_msgs(tail));
    }
}

/// Resynchronization: noise the decoder consumes completely — whatever
/// outcomes it costs — followed by a run of admissible frames yields the
/// noise's outcomes and then exactly one `Ok` outcome per frame: no error
/// in the noise ever loses a frame that follows it.
pub proof fn lemma_resynchronization(noise: Seq<u8>, frames: Seq<FrameSpec>)
    requires
        spec_drain(noise).1 == Seq::<u8>::empty(),
        forall|k: int| 0 <= k < frames.len() ==> frame_admissible(#[trigger] frames[k]),
    ensures
        spec_drain(noise + frames_bytes(frames)).0 == spec_drain(noise).0 + frames_msgs(frames),
        spec_drain(noise + frames_bytes(frames)).1 == Seq::<u8>::empty(),
{
    crate::frame::lemma_drain_append(noise, frames_bytes(frames));
    lemma_frames_drain(frames);
    assert(Seq::<u8>::empty() + frames_bytes(frames) =~= frames_bytes(frames));
}

/// Resynchronization after sync-free noise: noise without the first sync
/// marker costs no outcome at all, so the stream yields exactly one `Ok`
/// per frame, whatever the noise length.
pub proof fn lemma_resynchronization_sync_free(noise: Seq<u8>, frames: Seq<FrameSpec>)
    requires
        forall|k: int| 0 <= k < noise.len() ==> noise[k] != SYNC_CHAR_1,
        forall|k: int| 0 <= k < frames.len() ==> frame_admissible(#[trigger] frames[k]),
    ensures
        spec_drain(noise + frames_bytes(frames)).0 == frames_msgs(frames),
        spec_drain(noise + frames_bytes(frames)).1 == Seq::<u8>::empty(),
{
    lemma_noise_drains(noise);
    lemma_resynchronization(noise, frames);
    assert(Seq::<SpecOut>::empty() + frames_msgs(frames) =~= frames_msgs(frames));
}

/// The sum of a byte sequence, the quantity the first checksum
/// accumulator tracks modulo 256.
pub open spec fn byte_sum(s: Seq<u8>) -> int
    decreases s.len(),
{
    if s.len() == 0 {
        0
    } else {
        s[0] + byte_sum(s.skip(1))
    }
}

/// Adding a multiple of the modulus before taking the remainder changes
/// nothing: `(a + b) % 256 == (a % 256 + b) % 256`.
proof fn lemma_mod_add_left(a: int, b: int)
    ensures
        (a + b) % 256 == (a % 256 + b) % 256,
{
    lemma_fundamental_div_mod(a, 256);
    lemma_mod_multiples_vanish(a / 256, a % 256 + b, 256);
}

/// The first accumulator of the checksum is the byte sum modulo 256.
pub proof fn lemma_ck_a_is_sum(acc: (u8, u8), s: Seq<u8>)
    ensures
        ck_fold(acc, s).0 == (acc.0 + byte_sum(s)) % 256,
    decreases s.len(),
{
    if s.len() == 0 {
        lemma_small_mod(acc.0 as nat, 256);
    } else {
        lemma_ck_a_is_sum(ck_step(acc, s[0]), s.skip(1));
        lemma_mod_add_left(acc.0 + s[0], byte_sum(s.skip(1)));
    }
}

/// Replacing one byte moves the byte sum by exactly the difference.
pub proof fn lemma_byte_sum_update(s: Seq<u8>, k: int, x: u8)
    requires
        0 <= k < s.len(),
    ensures
        byte_sum(s.update(k, x)) == byte_sum(s) - s[k] + x,
    decreases s.len(),
{
    if k == 0 {
        assert(s.update(0, x).skip(1) =~= s.skip(1));
    } else {
        assert(s.update(k, x).skip(1) =~= s.skip(1).update(k - 1, x));
        lemma_byte_sum_update(s.skip(1), k - 1, x);
    }
}

/// Corruption detection: changing any single payload byte of a well-formed
/// frame (any bit flip changes some byte) makes the decoder emit exactly
/// one checksum error for it — never a silently wrong message.
pub proof fn lemma_payload_corruption_detected(
    class: u8,
    msg_id: u8,
    payload: Seq<u8>,
    k: int,
    x: u8,
)
    requires
        spec_len_ok(class, msg_id, payload.len() as int),
        0 <= k < payload.len(),
        x != payload[k],
    ensures
        spec_drain(spec_frame_bytes(class, msg_id, payload).update(6 + k, x)).0 == seq![
            SpecOut::BadChecksum { class, msg_id, payload: payload.update(k, x) },
        ],
        spec_drain(spec_frame_bytes(class, msg_id, payload).update(6 + k, x)).1
            == Seq::<u8>::empty(),
{
    let f = spec_frame_bytes(class, msg_id, payload);
    let n = payload.len() as int;
    lemma_frame_layout(class, msg_id, payload);
    let g = f.update(6 + k, x);
    let body = f.subrange(2, 6 + n);
    let body2 = g.subrange(2, 6 + n);
    let payload2 = payload.update(k, x);
    assert(g[0] == f[0] && g[1] == f[1] && g[2] == f[2] && g[3] == f[3] && g[4] == f[4] && g[5]
        == f[5]);
    assert(g[4] as int + 256 * (g[5] as int) == n);
    assert(g.subrange(6, 6 + n) =~= payload2);
    assert(body2 =~= body.update(4 + k, x));
    assert(body[4 + k] == payload[k]);
    lemma_byte_sum_update(body, 4 + k, x);
    lemma_ck_a_is_sum((0u8, 0u8), body);
    lemma_ck_a_is_sum((0u8, 0u8), body2);
    let sum = byte_sum(body);
    let d = x - payload[k];
    assert(byte_sum(body2) == sum + d);
    assert(-256 < d < 256 && d != 0);
    assert(checksum_pair(body).0 == sum % 256);
    assert(checksum_pair(body2).0 == (sum + d) % 256);
    assert((sum + d) % 256 != sum % 256) by {
        lemma_fundamental_div_mod(sum, 256);
        lemma_fundamental_div_mod(sum + d, 256);
        if (sum + d) % 256 == sum % 256 {
            assert(d == 256 * ((sum + d) / 256 - sum / 256));
            assert((sum + d) / 256 - sum / 256 == 0);
        }
    }
    assert(g[6 + n] == f[6 + n]);
    assert(g[6 + n] != checksum_pair(body2).0);
    assert(g.skip(8 + n) =~= Seq::<u8>::empty());
    let out = SpecOut::BadChecksum { class, msg_id, payload: payload2 };
    assert(g.len() == 8 + n);
    assert(spec_drain(g).0 == seq![out] + spec_drain(g.skip(8 + n)).0);
    assert(spec_drain(g.skip(8 + n)).0 == Seq::<SpecOut>::empty());
    assert(seq![out] + Seq::<SpecOut>::empty() =~= seq![out]);
}

/// Poll round trip: the 8-byte poll frame for a class and id whose catalog
/// entry admits an empty payload decodes to exactly one message with that
/// class and id and an empty payload.
pub proof fn lemma_poll_round_trip(class: u8, msg_id: u8)
    requires
        spec_catalog_fixed_len(class, msg_id) matches Some(l) ==> l == 0,
    ensures
        spec_drain(spec_poll_frame(class, msg_id)).0 == seq![
            SpecOut::Msg { class, msg_id, payload: Seq::<u8>::empty() },
        ],
        spec_drain(spec_poll_frame(class, msg_id)).1 == Seq::<u8>::empty(),
{
    lemma_frame_drains(class, msg_id, Seq::<u8>::empty(), Seq::<u8>::empty());
    assert(spec_frame_bytes(class, msg_id, Seq::<u8>::empty()) + Seq::<u8>::empty()
        =~= spec_poll_frame(class, msg_id));
}

} // verus!
