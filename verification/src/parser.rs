//! The incremental frame parser.
//!
//! A parser owns one buffer and drives it through sync detection, header
//! accumulation, payload accumulation and checksum verification. `consume`
//! appends a chunk and then advances as far as the buffered bytes permit;
//! what it emits and what it leaves pending are exactly what the reference
//! decoder [`spec_drain`] says, so splitting a stream into chunks of any
//! sizes yields one and the same outcome sequence.

use vstd::prelude::*;
use crate::buffer::UbxBuffer;
use crate::checksum::{ck_fold, checksum_pair, lemma_ck_fold_push, UbxChecksumCalc};
use crate::error::{Overflow, ParserError};
use crate::frame::{
    spec_drain, spec_len_ok, spec_stalled, SpecOut, MAX_PAYLOAD_LEN, SYNC_CHAR_1, SYNC_CHAR_2,
};
use crate::packets::{catalog_fixed_len, dispatch, out_view, outs_view, packet_well_dispatched, Packet};

verus! {

/// An incremental parser over a byte buffer backing `B`.
pub struct Parser<B: UbxBuffer> {
    buf: B,
}

impl<B: UbxBuffer> Parser<B> {
    /// The bytes buffered and not yet decided on.
    pub closed spec fn contents(&self) -> Seq<u8> {
        self.buf.contents()
    }

    /// The buffer's capacity bound.
    pub closed spec fn max_capacity(&self) -> nat {
        self.buf.max_capacity()
    }

    /// Between `consume` calls the parser holds a well-formed buffer whose
    /// bytes the decoder can make no further decision on.
    pub closed spec fn wf(&self) -> bool {
        self.buf.wf() && spec_stalled(self.buf.contents())
    }

    /// A parser over a fresh, empty buffer.
    pub fn new(underlying: B) -> (r: Self)
        requires
            underlying.wf(),
            underlying.contents() == Seq::<u8>::empty(),
        ensures
            r.wf(),
            r.contents() == Seq::<u8>::empty(),
            r.max_capacity() == underlying.max_capacity(),
    {
        let r = Parser { buf: underlying };
        proof {
            assert(spec_drain(Seq::<u8>::empty()) == (Seq::<SpecOut>::empty(), Seq::<u8>::empty()));
        }
        r
    }

    /// Throw away everything buffered, forcing resynchronization from the
    /// next bytes fed in; the way past a frame that can never fit a
    /// fixed-capacity buffer.
    pub fn discard_buffered(&mut self)
        requires
            old(self).wf(),
        ensures
            final(self).wf(),
            final(self).contents() == Seq::<u8>::empty(),
            final(self).max_capacity() == old(self).max_capacity(),
    {
        let n = self.buf.len();
        self.buf.drain_front(n);
        proof {
            assert(old(self).contents().skip(old(self).contents().len() as int)
                =~= Seq::<u8>::empty());
            assert(spec_drain(Seq::<u8>::empty()) == (Seq::<SpecOut>::empty(), Seq::<u8>::empty()));
        }
    }

    /// Feed one chunk and decode as far as possible.
    ///
    /// On `Ok`, the outcomes are, in order, exactly what the reference
    /// decoder emits for the previously pending bytes followed by `chunk`,
    /// and the parser keeps exactly the undecidable tail. A chunk the
    /// buffer cannot take is refused whole with `Overflow` and nothing
    /// changes; a chunk that fits the capacity is never refused.
    pub fn consume(&mut self, chunk: &[u8]) -> (r: Result<Vec<Result<Packet, ParserError>>, Overflow>)
        requires
            old(self).wf(),
        ensures
            final(self).wf(),
            final(self).max_capacity() == old(self).max_capacity(),
            old(self).contents().len() + chunk@.len() <= old(self).max_capacity() ==> r is Ok,
            r is Ok ==> old(self).contents().len() + chunk@.len() <= old(self).max_capacity(),
            r matches Ok(out) ==> outs_view(out@) == spec_drain(
                old(self).contents() + chunk@,
            ).0 && final(self).contents() == spec_drain(old(self).contents() + chunk@).1,
            r matches Ok(out) ==> forall|i: int|
                0 <= i < out@.len() ==> ((#[trigger] out@[i]) matches Ok(p)
                    ==> packet_well_dispatched(p)),
            r is Err ==> final(self).contents() == old(self).contents() && old(
                self,
            ).contents().len() + chunk@.len() > old(self).max_capacity(),
    {
        match self.buf.extend(chunk) {
            Ok(()) => {},
            Err(e) => {
                return Err(e);
            },
        }
        let ghost start = self.buf.contents();
        let mut out: Vec<Result<Packet, ParserError>> = Vec::new();
        proof {
            assert(outs_view(out@) =~= Seq::<SpecOut>::empty());
            assert(outs_view(out@) + spec_drain(start).0 =~= spec_drain(start).0);
        }
        let mut done = false;
        while !done
            invariant
                self.buf.wf(),
                self.buf.max_capacity() == old(self).max_capacity(),
                outs_view(out@) + spec_drain(self.buf.contents()).0 == spec_drain(start).0,
                spec_drain(self.buf.contents()).1 == spec_drain(start).1,
                forall|i: int|
                    0 <= i < out@.len() ==> ((#[trigger] out@[i]) matches Ok(p)
                        ==> packet_well_dispatched(p)),
                done ==> spec_stalled(self.buf.contents()),
            decreases self.buf.contents().len() + (if done { 0int } else { 1int }),
        {
            let ghost c = self.buf.contents();
            let n = self.buf.len();
            if n == 0 {
                done = true;
            } else if self.buf.byte_at(0) != SYNC_CHAR_1 {
                proof {
                    assert(spec_drain(c) == spec_drain(c.skip(1)));
                }
                self.buf.drain_front(1);
            } else if n == 1 {
                done = true;
            } else if self.buf.byte_at(1) != SYNC_CHAR_2 {
                proof {
                    assert(spec_drain(c) == spec_drain(c.skip(1)));
                }
                self.buf.drain_front(1);
            } else if n < 6 {
                done = true;
            } else {
                let class = self.buf.byte_at(2);
                let msg_id = self.buf.byte_at(3);
                let lo = self.buf.byte_at(4);
                let hi = self.buf.byte_at(5);
                let plen: usize = lo as usize + 256 * (hi as usize);
                let ghost plen_i = c[4] as int + 256 * (c[5] as int);
                let len_ok: bool = plen <= MAX_PAYLOAD_LEN as usize && (match catalog_fixed_len(
                    class,
                    msg_id,
                ) {
                    Some(l) => plen <= l as usize,
                    None => true,
                });
                proof {
                    assert(plen as int == plen_i);
                    assert(len_ok == spec_len_ok(class, msg_id, plen_i));
                }
                if !len_ok {
                    let res: Result<Packet, ParserError> = Err(ParserError::InvalidLength);
                    proof {
                        assert(spec_drain(c).0 == seq![SpecOut::BadLength] + spec_drain(
                            c.skip(6),
                        ).0);
                        assert(spec_drain(c).1 == spec_drain(c.skip(6)).1);
                        assert(outs_view(out@.push(res)) =~= outs_view(out@).push(
                            SpecOut::BadLength,
                        ));
                        assert(outs_view(out@).push(SpecOut::BadLength) =~= outs_view(out@) + seq![
                            SpecOut::BadLength,
                        ]);
                        assert((outs_view(out@) + seq![SpecOut::BadLength]) + spec_drain(
                            c.skip(6),
                        ).0 =~= outs_view(out@) + (seq![SpecOut::BadLength] + spec_drain(
                            c.skip(6),
                        ).0));
                    }
                    out.push(res);
                    self.buf.drain_front(6);
                } else if n < 8 + plen {
                    done = true;
                } else {
                    let mut calc = UbxChecksumCalc::new();
                    let mut i: usize = 2;
                    while i < 6 + plen
                        invariant
                            self.buf.wf(),
                            self.buf.contents() == c,
                            2 <= i <= 6 + plen,
                            plen <= MAX_PAYLOAD_LEN as usize,
                            8 + plen <= c.len(),
                            calc.acc() == ck_fold((0u8, 0u8), c.subrange(2, i as int)),
                        decreases 6 + plen - i,
                    {
                        let x = self.buf.byte_at(i);
                        proof {
                            assert(c.subrange(2, i + 1 as int) =~= c.subrange(2, i as int).push(x));
                            lemma_ck_fold_push((0u8, 0u8), c.subrange(2, i as int), x);
                        }
                        calc.update_byte(x);
                        i = i + 1;
                    }
                    let mut payload: Vec<u8> = Vec::new();
                    proof {
                        assert(payload@ =~= c.subrange(6, 6));
                    }
                    let mut j: usize = 6;
                    while j < 6 + plen
                        invariant
                            self.buf.wf(),
                            self.buf.contents() == c,
                            6 <= j <= 6 + plen,
                            plen <= MAX_PAYLOAD_LEN as usize,
                            8 + plen <= c.len(),
                            payload@ == c.subrange(6, j as int),
                        decreases 6 + plen - j,
                    {
                        let x = self.buf.byte_at(j);
                        proof {
                            assert(c.subrange(6, j + 1 as int) =~= c.subrange(6, j as int).push(x));
                        }
                        payload.push(x);
                        j = j + 1;
                    }
                    let (ck_a, ck_b) = calc.result_pair();
                    let rx_a = self.buf.byte_at(6 + plen);
                    let rx_b = self.buf.byte_at(7 + plen);
                    let ghost payload_g = payload@;
                    let ghost ck = checksum_pair(c.subrange(2, 6 + plen_i));
                    proof {
                        assert((ck_a, ck_b) == ck);
                        assert(payload_g == c.subrange(6, 6 + plen_i));
                    }
                    let res: Result<Packet, ParserError> = if rx_a == ck_a && rx_b == ck_b {
                        dispatch(class, msg_id, payload)
                    } else {
                        Err(ParserError::InvalidChecksum { class, msg_id, payload })
                    };
                    proof {
                        let expected = if c[6 + plen_i] == ck.0 && c[7 + plen_i] == ck.1 {
                            crate::frame::spec_dispatch(class, msg_id, payload_g)
                        } else {
                            SpecOut::BadChecksum { class, msg_id, payload: payload_g }
                        };
                        assert(out_view(res) == expected);
                        assert(spec_drain(c).0 == seq![expected] + spec_drain(
                            c.skip(8 + plen_i),
                        ).0);
                        assert(spec_drain(c).1 == spec_drain(c.skip(8 + plen_i)).1);
                        assert(outs_view(out@.push(res)) =~= outs_view(out@).push(expected));
                        assert(outs_view(out@).push(expected) =~= outs_view(out@) + seq![expected]);
                        assert((outs_view(out@) + seq![expected]) + spec_drain(
                            c.skip(8 + plen_i),
                        ).0 =~= outs_view(out@) + (seq![expected] + spec_drain(c.skip(8 + plen_i)).0));
                    }
                    out.push(res);
                    self.buf.drain_front(8 + plen);
                }
            }
        }
        proof {
            assert(outs_view(out@) + Seq::<SpecOut>::empty() =~= outs_view(out@));
        }
        Ok(out)
    }
}

} // verus!
