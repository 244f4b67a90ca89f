//! An owned, growable byte buffer checked out from a pool, tracking how many
//! of its bytes are valid (already filled) as opposed to mere capacity.

use crate::pool::{raw_bytes, BytePool, RawBlock};
use vstd::prelude::*;
use vstd::slice::{slice_index_get, slice_subrange};

verus! {

/// A pool-backed byte buffer. The first [`Block::len`] bytes of the backing
/// raw block are valid data; the rest is free capacity. The view of a block
/// is the sequence of its valid bytes.
pub struct Block<'a> {
    raw: RawBlock<'a>,
    len: usize,
}

impl<'a> View for Block<'a> {
    type V = Seq<u8>;

    closed spec fn view(&self) -> Seq<u8> {
        raw_bytes(self.raw).take(self.len as int)
    }
}

impl<'a> Block<'a> {
    /// A block is well formed when its valid length fits in its capacity.
    pub closed spec fn wf(&self) -> bool {
        self.len <= raw_bytes(self.raw).len()
    }

    /// The total number of bytes the block can hold before growing.
    pub closed spec fn capacity(&self) -> int {
        raw_bytes(self.raw).len() as int
    }

    /// Checks a fresh, empty block of the given capacity out of `pool`.
    pub fn with_capacity(pool: &'a BytePool, capacity: usize) -> (r: Block<'a>)
        requires
            capacity > 0,
        ensures
            r.wf(),
            r@ == Seq::<u8>::empty(),
            r.capacity() == capacity,
    {
        let r = Block { raw: pool.checkout(capacity), len: 0 };
        proof {
            assert(r@ =~= Seq::<u8>::empty());
        }
        r
    }

    /// The number of valid bytes.
    pub fn len(&self) -> (r: usize)
        requires
            self.wf(),
        ensures
            r == self@.len(),
    {
        self.len
    }

    /// The valid bytes, as a slice.
    pub fn valid(&self) -> (r: &[u8])
        requires
            self.wf(),
        ensures
            r@ == self@,
    {
        slice_subrange(self.raw.as_slice(), 0, self.len)
    }

    /// Appends `data` after the valid bytes, growing the backing block
    /// (at least doubling it, to amortize regrowth) when the free capacity
    /// does not suffice.
    pub fn append(&mut self, data: &[u8])
        requires
            old(self).wf(),
            old(self)@.len() + data@.len() <= usize::MAX,
        ensures
            final(self).wf(),
            final(self)@ == old(self)@ + data@,
            final(self).capacity() >= old(self).capacity(),
    {
        let needed = self.len + data.len();
        let cap = self.raw.as_slice().len();
        if needed > cap {
            let doubled = if cap > usize::MAX / 2 {
                usize::MAX
            } else {
                cap * 2
            };
            let new_cap = if doubled > needed {
                doubled
            } else {
                needed
            };
            self.raw.realloc(new_cap);
        }
        let mut i: usize = 0;
        while i < data.len()
            invariant
                0 <= i <= data@.len(),
                old(self).wf(),
                self.len == old(self).len,
                self.len + data@.len() <= usize::MAX,
                self.len + data@.len() <= raw_bytes(self.raw).len(),
                raw_bytes(self.raw).len() >= raw_bytes(old(self).raw).len(),
                forall|j: int|
                    0 <= j < self.len ==> raw_bytes(self.raw)[j] == raw_bytes(
                        old(self).raw,
                    )[j],
                forall|j: int|
                    0 <= j < i ==> raw_bytes(self.raw)[self.len + j] == data@[j],
            decreases data@.len() - i,
        {
            let v = *slice_index_get(data, i);
            self.raw.set(self.len + i, v);
            i += 1;
        }
        self.len = self.len + data.len();
        proof {
            assert(self@ =~= old(self)@ + data@);
        }
    }

    /// Logically discards the first `n` valid bytes, shifting the rest to
    /// the front of the block. The capacity is unchanged.
    pub fn advance(&mut self, n: usize)
        requires
            old(self).wf(),
            n <= old(self)@.len(),
        ensures
            final(self).wf(),
            final(self)@ == old(self)@.skip(n as int),
            final(self).capacity() == old(self).capacity(),
    {
        if n == 0 {
            proof {
                assert(self@ =~= old(self)@.skip(0));
            }
            return;
        }
        let rest = self.len - n;
        let mut i: usize = 0;
        while i < rest
            invariant
                0 <= i <= rest,
                n >= 1,
                n <= self.len,
                rest == self.len - n,
                old(self).wf(),
                self.len == old(self).len,
                self.len <= raw_bytes(self.raw).len(),
                raw_bytes(self.raw).len() == raw_bytes(old(self).raw).len(),
                forall|j: int|
                    0 <= j < i ==> raw_bytes(self.raw)[j] == raw_bytes(
                        old(self).raw,
                    )[n + j],
                forall|j: int|
                    i <= j < raw_bytes(self.raw).len() ==> raw_bytes(self.raw)[j]
                        == raw_bytes(old(self).raw)[j],
            decreases rest - i,
        {
            let v = {
                let s = self.raw.as_slice();
                *slice_index_get(s, n + i)
            };
            self.raw.set(i, v);
            i += 1;
        }
        self.len = rest;
        proof {
            assert(self@ =~= old(self)@.skip(n as int));
        }
    }
}

} // verus!
