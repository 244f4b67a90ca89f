//! The write engine: accepts frames one at a time, encodes each into a
//! shared output buffer, and lets the caller drain that buffer toward the
//! transport in order.
//!
//! The transport write is the caller's suspension point, as the read is for
//! [`crate::FramedRead2`]: the caller asks for the pending bytes with
//! [`FramedWrite2::pending`], writes some prefix of them, and reports how
//! many the transport accepted with [`FramedWrite2::consume`]. A second
//! frame may be encoded before the first is drained; the buffer keeps the
//! frames' bytes in the order they were sent.

use crate::decoder::{DecodeResult, Decoder};
use crate::encoder::Encoder;
use crate::block::Block;
use vstd::prelude::*;
use vstd::slice::slice_subrange;

verus! {

/// A write engine: owns an encoder and the output bytes not yet accepted
/// by the transport.
pub struct FramedWrite2<T> {
    inner: T,
    buffer: Vec<u8>,
}

/// Creates a write engine from an encoder, with an empty output buffer.
pub fn framed_write_2<T: Encoder>(inner: T) -> (r: FramedWrite2<T>)
    ensures
        r.pending_bytes() == Seq::<u8>::empty(),
        r.codec() == inner,
{
    FramedWrite2 { inner, buffer: Vec::new() }
}

impl<T> FramedWrite2<T> {
    /// The encoded bytes not yet accepted by the transport.
    pub closed spec fn pending_bytes(&self) -> Seq<u8> {
        self.buffer@
    }

    /// The codec the engine drives.
    pub closed spec fn codec(&self) -> T {
        self.inner
    }

    /// Releases the codec; pending bytes not yet drained are dropped.
    pub fn release(self) -> (r: T)
        ensures
            r == self.codec(),
    {
        self.inner
    }
}

impl<T: Encoder> FramedWrite2<T> {
    /// Accepts one frame and appends its wire representation to the output
    /// buffer, after every previously accepted frame's bytes.
    pub fn send(&mut self, item: T::Item) -> (r: Result<(), T::Error>)
        ensures
            final(self).codec() == old(self).codec(),
            match r {
                Ok(()) => {
                    &&& !old(self).codec().encode_fails(item@)
                    &&& final(self).pending_bytes() == old(self).pending_bytes() + old(
                        self,
                    ).codec().encodes(item@)
                },
                Err(_) => {
                    &&& old(self).codec().encode_fails(item@)
                    &&& final(self).pending_bytes() == old(self).pending_bytes()
                },
            },
    {
        self.inner.encode(item, &mut self.buffer)
    }

    /// The bytes waiting to be written to the transport, in order.
    pub fn pending(&self) -> (r: &[u8])
        ensures
            r@ == self.pending_bytes(),
    {
        let len = self.buffer.len();
        slice_subrange(self.buffer.as_slice(), 0, len)
    }

    /// Records that the transport accepted the first `n` pending bytes.
    pub fn consume(&mut self, n: usize)
        requires
            n <= old(self).pending_bytes().len(),
        ensures
            final(self).codec() == old(self).codec(),
            final(self).pending_bytes() == old(self).pending_bytes().skip(n as int),
    {
        let len = self.buffer.len();
        let mut rest: Vec<u8> = Vec::new();
        let mut i: usize = n;
        while i < len
            invariant
                n <= i <= len,
                len == self.buffer@.len(),
                self.buffer@ == old(self).buffer@,
                rest@ == self.buffer@.subrange(n as int, i as int),
            decreases len - i,
        {
            let v = self.buffer[i];
            rest.push(v);
            proof {
                assert(rest@ =~= self.buffer@.subrange(n as int, i + 1));
            }
            i += 1;
        }
        proof {
            assert(rest@ =~= self.buffer@.skip(n as int));
        }
        self.buffer = rest;
    }
}

impl<T: Decoder> Decoder for FramedWrite2<T> {
    type Item = T::Item;

    type Error = T::Error;

    open spec fn decodes(&self, data: Seq<u8>) -> Option<(<T::Item as View>::V, int)> {
        self.codec().decodes(data)
    }

    open spec fn fails(&self, data: Seq<u8>) -> bool {
        self.codec().fails(data)
    }

    proof fn lemma_decode_bounds(&self, data: Seq<u8>) {
        self.codec().lemma_decode_bounds(data);
    }

    fn decode<'a>(&mut self, src: Block<'a>) -> (r: Result<
        DecodeResult<'a, T::Item>,
        T::Error,
    >) {
        self.inner.decode(src)
    }
}

} // verus!
