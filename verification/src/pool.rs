//! Trusted boundary around the `byte_pool` crate: a shared allocator of
//! reusable byte blocks, and the raw fixed-size blocks it hands out.

use vstd::prelude::*;

verus! {

/// The bytes a raw block currently holds, in order.
pub uninterp spec fn raw_bytes(b: RawBlock) -> Seq<u8>;

/// A fixed-size byte block checked out of a [`BytePool`].
///
/// Wraps `byte_pool::Block`; verified code never looks inside it and reaches
/// its bytes only through the methods below. Dropping it hands the memory
/// back to the pool's free list (`byte_pool::Block`'s `Drop`), so a block is
/// recycled exactly once on every exit path.
#[verifier::external_body]
pub struct RawBlock<'a> {
    inner: byte_pool::Block<'a, Vec<u8>>,
}

/// A shared pool of reusable byte blocks, wrapping `byte_pool::BytePool`.
///
/// A block checked out by [`BytePool::alloc`] is owned by exactly one holder
/// until it is dropped, at which point it returns to the free list.
#[verifier::external_body]
pub struct BytePool {
    inner: byte_pool::BytePool<Vec<u8>>,
}

impl BytePool {
    /// Relies on `byte_pool::BytePool::new`: a pool with an empty free list.
    #[verifier::external_body]
    pub fn new() -> (r: BytePool) {
        BytePool { inner: byte_pool::BytePool::new() }
    }

    /// Relies on `byte_pool::BytePool::alloc`: returns a block of exactly
    /// `size` bytes, reusing one from the free list when a block of that
    /// size is available. The contents are arbitrary (reused blocks are not
    /// zeroed), and the call panics on a size of zero.
    #[verifier::external_body]
    pub fn checkout(&self, size: usize) -> (r: RawBlock<'_>)
        requires
            size > 0,
        ensures
            raw_bytes(r).len() == size,
    {
        RawBlock { inner: self.inner.alloc(size) }
    }
}

impl<'a> RawBlock<'a> {
    /// Relies on `byte_pool::Block`'s deref to the backing `Vec<u8>`:
    /// a view of all bytes of the block.
    #[verifier::external_body]
    pub fn as_slice(&self) -> (r: &[u8])
        ensures
            r@ == raw_bytes(*self),
    {
        &self.inner[..]
    }

    /// Relies on `byte_pool::Block`'s mutable deref to the backing
    /// `Vec<u8>`: overwrites the byte at index `i`.
    #[verifier::external_body]
    pub fn set(&mut self, i: usize, v: u8)
        requires
            i < raw_bytes(*old(self)).len(),
        ensures
            raw_bytes(*final(self)) == raw_bytes(*old(self)).update(i as int, v),
    {
        self.inner[i] = v;
    }

    /// Relies on `byte_pool::Block::realloc` for `Vec<u8>`: resizes the
    /// block to exactly `new_size` bytes, keeping every byte below
    /// `min(old size, new_size)`. Panics on a size of zero.
    #[verifier::external_body]
    pub fn realloc(&mut self, new_size: usize)
        requires
            new_size > 0,
        ensures
            raw_bytes(*final(self)).len() == new_size,
            forall|i: int|
                0 <= i < raw_bytes(*old(self)).len() && i < new_size
                    ==> raw_bytes(*final(self))[i] == raw_bytes(*old(self))[i],
    {
        self.inner.realloc(new_size)
    }
}

} // verus!
