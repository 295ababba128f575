//! The byte buffer the parser scans and drains.
//!
//! Two backings satisfy one capability contract: a growable buffer that
//! accepts every extension, and a fixed-capacity buffer that rejects bytes
//! which would not fit — rejecting, rather than evicting buffered bytes,
//! keeps an in-progress frame intact, and a caller whose frame can never
//! fit sees a deterministic [`Overflow`].

use vstd::prelude::*;
use crate::error::Overflow;

verus! {

/// The capability surface the parser needs from a byte buffer.
pub trait UbxBuffer {
    /// The pending bytes, in arrival order.
    spec fn contents(&self) -> Seq<u8>;

    /// The most bytes the buffer will ever agree to hold.
    spec fn max_capacity(&self) -> nat;

    /// The backing's own well-formedness.
    spec fn wf(&self) -> bool;

    /// How many bytes the buffer will ever agree to hold.
    fn capacity(&self) -> (r: usize)
        requires
            self.wf(),
        ensures
            r as nat == self.max_capacity(),
    ;

    /// How many bytes are pending.
    fn len(&self) -> (r: usize)
        requires
            self.wf(),
        ensures
            r == self.contents().len(),
    ;

    /// The pending byte at position `i`.
    fn byte_at(&self, i: usize) -> (b: u8)
        requires
            self.wf(),
            i < self.contents().len(),
        ensures
            b == self.contents()[i as int],
    ;

    /// A read-only view of all pending bytes.
    fn as_slice(&self) -> (r: &[u8])
        requires
            self.wf(),
        ensures
            r@ == self.contents(),
    ;

    /// Append `bytes` whole: taken exactly when they fit the capacity; on a
    /// refusal the buffer is exactly as it was.
    fn extend(&mut self, bytes: &[u8]) -> (r: Result<(), Overflow>)
        requires
            old(self).wf(),
        ensures
            final(self).wf(),
            final(self).max_capacity() == old(self).max_capacity(),
            old(self).contents().len() + bytes@.len() <= old(self).max_capacity() ==> r is Ok,
            r is Ok ==> final(self).contents() == old(self).contents() + bytes@ && old(
                self,
            ).contents().len() + bytes@.len() <= old(self).max_capacity(),
            r is Err ==> final(self).contents() == old(self).contents() && old(
                self,
            ).contents().len() + bytes@.len() > old(self).max_capacity(),
    ;

    /// Discard the first `n` pending bytes; the rest shift forward.
    fn drain_front(&mut self, n: usize)
        requires
            old(self).wf(),
            n <= old(self).contents().len(),
        ensures
            final(self).wf(),
            final(self).max_capacity() == old(self).max_capacity(),
            final(self).contents() == old(self).contents().skip(n as int),
    ;

    /// The position of the first `value` at or after `start`, if any.
    fn find(&self, value: u8, start: usize) -> (r: Option<usize>)
        requires
            self.wf(),
        ensures
            r matches Some(i) ==> start <= i < self.contents().len() && self.contents()[i as int]
                == value && (forall|j: int|
                start <= j < i ==> self.contents()[j] != value),
            r is None ==> forall|j: int|
                start <= j < self.contents().len() ==> self.contents()[j] != value,
    ;
}

/// The bytes of `data` from position `n` on, as a fresh vector.
fn vec_skip(data: &Vec<u8>, n: usize) -> (r: Vec<u8>)
    requires
        n <= data@.len(),
    ensures
        r@ == data@.skip(n as int),
{
    let mut r: Vec<u8> = Vec::new();
    let mut i: usize = n;
    while i < data.len()
        invariant
            n <= i <= data@.len(),
            r@ == data@.subrange(n as int, i as int),
        decreases data@.len() - i,
    {
        let x = data[i];
        r.push(x);
        proof {
            assert(data@.subrange(n as int, i + 1 as int) =~= data@.subrange(n as int, i as int)
                .push(x));
        }
        i = i + 1;
    }
    proof {
        assert(data@.subrange(n as int, data@.len() as int) =~= data@.skip(n as int));
    }
    r
}

/// The position of the first `value` in `data` at or after `start`, if any.
fn slice_find(data: &Vec<u8>, value: u8, start: usize) -> (r: Option<usize>)
    ensures
        r matches Some(i) ==> start <= i < data@.len() && data@[i as int] == value && (forall|
            j: int,
        |
            start <= j < i ==> data@[j] != value),
        r is None ==> forall|j: int| start <= j < data@.len() ==> data@[j] != value,
{
    let mut i: usize = start;
    while i < data.len()
        invariant
            start <= i,
            forall|j: int| start <= j < i && j < data@.len() ==> data@[j] != value,
        decreases data@.len() - i,
    {
        if data[i] == value {
            return Some(i);
        }
        i = i + 1;
    }
    None
}

/// The growable backing: storage reallocates as needed, so an extension is
/// never refused.
pub struct GrowableBuffer {
    data: Vec<u8>,
}

impl GrowableBuffer {
    /// An empty growable buffer.
    pub fn new() -> (r: Self)
        ensures
            r.wf(),
            r.contents() == Seq::<u8>::empty(),
            r.max_capacity() == usize::MAX as nat,
    {
        let r = GrowableBuffer { data: Vec::new() };
        proof {
            assert(r.contents() =~= Seq::<u8>::empty());
        }
        r
    }
}

impl UbxBuffer for GrowableBuffer {
    closed spec fn contents(&self) -> Seq<u8> {
        self.data@
    }

    closed spec fn max_capacity(&self) -> nat {
        usize::MAX as nat
    }

    closed spec fn wf(&self) -> bool {
        true
    }

    fn capacity(&self) -> (r: usize) {
        usize::MAX
    }

    fn len(&self) -> (r: usize) {
        self.data.len()
    }

    fn byte_at(&self, i: usize) -> (b: u8) {
        self.data[i]
    }

    fn as_slice(&self) -> (r: &[u8]) {
        self.data.as_slice()
    }

    fn extend(&mut self, bytes: &[u8]) -> (r: Result<(), Overflow>) {
        self.data.extend_from_slice(bytes);
        // The grown vector's length is a usize, which bounds what was taken.
        let total = self.data.len();
        proof {
            assert(total as nat == old(self).contents().len() + bytes@.len());
        }
        Ok(())
    }

    fn drain_front(&mut self, n: usize) {
        self.data = vec_skip(&self.data, n);
    }

    fn find(&self, value: u8, start: usize) -> (r: Option<usize>) {
        slice_find(&self.data, value, start)
    }
}

/// The fixed-capacity backing: the capacity is set at construction and
/// never grows; an extension that would not fit is refused whole.
pub struct FixedBuffer {
    data: Vec<u8>,
    cap: usize,
}

impl FixedBuffer {
    /// An empty buffer that will never hold more than `cap` bytes. A
    /// zero-capacity buffer could never make progress, so the capacity must
    /// be positive.
    pub fn with_capacity(cap: usize) -> (r: Self)
        requires
            cap > 0,
        ensures
            r.wf(),
            r.contents() == Seq::<u8>::empty(),
            r.max_capacity() == cap as nat,
    {
        let r = FixedBuffer { data: Vec::new(), cap };
        proof {
            assert(r.contents() =~= Seq::<u8>::empty());
        }
        r
    }
}

impl UbxBuffer for FixedBuffer {
    closed spec fn contents(&self) -> Seq<u8> {
        self.data@
    }

    closed spec fn max_capacity(&self) -> nat {
        self.cap as nat
    }

    closed spec fn wf(&self) -> bool {
        self.data@.len() <= self.cap
    }

    fn capacity(&self) -> (r: usize) {
        self.cap
    }

    fn len(&self) -> (r: usize) {
        self.data.len()
    }

    fn byte_at(&self, i: usize) -> (b: u8) {
        self.data[i]
    }

    fn as_slice(&self) -> (r: &[u8]) {
        self.data.as_slice()
    }

    fn extend(&mut self, bytes: &[u8]) -> (r: Result<(), Overflow>) {
        if bytes.len() <= self.cap - self.data.len() {
            self.data.extend_from_slice(bytes);
            Ok(())
        } else {
            Err(Overflow)
        }
    }

    fn drain_front(&mut self, n: usize) {
        self.data = vec_skip(&self.data, n);
    }

    fn find(&self, value: u8, start: usize) -> (r: Option<usize>) {
        slice_find(&self.data, value, start)
    }
}

} // verus!
