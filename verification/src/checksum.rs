//! The running two-byte additive checksum that guards every frame.
//!
//! Both the decoder (to verify a received frame) and the encoder (to stamp
//! an outgoing one) fold the same step function over the checksummed bytes:
//! `a` accumulates the byte, `b` accumulates `a`, both modulo 256.

use vstd::prelude::*;

verus! {

/// One checksum step: feed byte `x` into the accumulator pair.
pub open spec fn ck_step(acc: (u8, u8), x: u8) -> (u8, u8) {
    let a = ((acc.0 + x) % 256) as u8;
    let b = ((acc.1 + a) % 256) as u8;
    (a, b)
}

/// Fold `ck_step` over `s` from the left, starting from `acc`.
pub open spec fn ck_fold(acc: (u8, u8), s: Seq<u8>) -> (u8, u8)
    decreases s.len(),
{
    if s.len() == 0 {
        acc
    } else {
        ck_fold(ck_step(acc, s[0]), s.skip(1))
    }
}

/// The checksum pair of a byte sequence, starting from zeroed accumulators.
pub open spec fn checksum_pair(s: Seq<u8>) -> (u8, u8) {
    ck_fold((0u8, 0u8), s)
}

/// Folding over `s.push(x)` is folding over `s` and then one more step.
pub proof fn lemma_ck_fold_push(acc: (u8, u8), s: Seq<u8>, x: u8)
    ensures
        ck_fold(acc, s.push(x)) == ck_step(ck_fold(acc, s), x),
    decreases s.len(),
{
    assert(s.push(x)[0 as int] == if s.len() == 0 { x } else { s[0] });
    if s.len() == 0 {
        assert(s.push(x).skip(1) =~= Seq::<u8>::empty());
        assert(ck_fold(acc, s.push(x)) == ck_fold(ck_step(acc, x), s.push(x).skip(1)));
    } else {
        assert(s.push(x).skip(1) =~= s.skip(1).push(x));
        lemma_ck_fold_push(ck_step(acc, s[0]), s.skip(1), x);
    }
}

/// The two running accumulators of the frame checksum.
pub struct UbxChecksumCalc {
    ck_a: u8,
    ck_b: u8,
}

impl UbxChecksumCalc {
    /// The current accumulator pair, as the contracts speak of it.
    pub closed spec fn acc(&self) -> (u8, u8) {
        (self.ck_a, self.ck_b)
    }

    /// Fresh accumulators, both zero.
    pub fn new() -> (r: Self)
        ensures
            r.acc() == (0u8, 0u8),
    {
        Self { ck_a: 0, ck_b: 0 }
    }

    /// Zero both accumulators, ready for the next frame.
    pub fn reset(&mut self)
        ensures
            final(self).acc() == (0u8, 0u8),
    {
        self.ck_a = 0;
        self.ck_b = 0;
    }

    /// Feed one byte.
    pub fn update_byte(&mut self, x: u8)
        ensures
            final(self).acc() == ck_step(old(self).acc(), x),
    {
        let a = ((self.ck_a as u16 + x as u16) % 256) as u8;
        let b = ((self.ck_b as u16 + a as u16) % 256) as u8;
        self.ck_a = a;
        self.ck_b = b;
    }

    /// Feed a span of bytes in order.
    pub fn update(&mut self, data: &[u8])
        ensures
            final(self).acc() == ck_fold(old(self).acc(), data@),
    {
        let ghost start = self.acc();
        let mut i: usize = 0;
        while i < data.len()
            invariant
                i <= data.len(),
                self.acc() == ck_fold(start, data@.take(i as int)),
            decreases data.len() - i,
        {
            let x = data[i];
            self.update_byte(x);
            proof {
                assert(data@.take(i + 1 as int) =~= data@.take(i as int).push(x));
                lemma_ck_fold_push(start, data@.take(i as int), x);
            }
            i = i + 1;
        }
        proof {
            assert(data@.take(data@.len() as int) =~= data@);
        }
    }

    /// The accumulator pair itself, in wire order: `a` first, `b` second.
    pub fn result_pair(&self) -> (r: (u8, u8))
        ensures
            r == self.acc(),
    {
        (self.ck_a, self.ck_b)
    }

    /// The checksum as one little-endian word: low byte `a`, high byte `b`.
    pub fn result(&self) -> (r: u16)
        ensures
            r == self.acc().0 + 256 * self.acc().1,
    {
        self.ck_a as u16 + 256 * (self.ck_b as u16)
    }
}

} // verus!
