//! The structural pairing of a transport handle and a codec into one
//! engine-owned unit.

use crate::block::Block;
use crate::decoder::{DecodeResult, Decoder, StableDecoder};
use crate::encoder::Encoder;
use vstd::prelude::*;

verus! {

/// Couples a transport handle and a codec so an engine tracks one composite
/// object. Purely structural: decode and encode route to the codec, and the
/// transport is carried through untouched for the caller to drive.
pub struct Fuse<T, U>(pub T, pub U);

impl<T, U: Decoder> Decoder for Fuse<T, U> {
    type Item = U::Item;

    type Error = U::Error;

    open spec fn decodes(&self, data: Seq<u8>) -> Option<(<U::Item as View>::V, int)> {
        self.1.decodes(data)
    }

    open spec fn fails(&self, data: Seq<u8>) -> bool {
        self.1.fails(data)
    }

    proof fn lemma_decode_bounds(&self, data: Seq<u8>) {
        self.1.lemma_decode_bounds(data);
    }

    fn decode<'a>(&mut self, src: Block<'a>) -> (r: Result<
        DecodeResult<'a, U::Item>,
        U::Error,
    >) {
        self.1.decode(src)
    }
}

impl<T, U: StableDecoder> StableDecoder for Fuse<T, U> {
    proof fn lemma_decode_extend(&self, data: Seq<u8>, ext: Seq<u8>) {
        self.1.lemma_decode_extend(data, ext);
    }
}

impl<T, U: Encoder> Encoder for Fuse<T, U> {
    type Item = U::Item;

    type Error = U::Error;

    open spec fn encodes(&self, item: <U::Item as View>::V) -> Seq<u8> {
        self.1.encodes(item)
    }

    open spec fn encode_fails(&self, item: <U::Item as View>::V) -> bool {
        self.1.encode_fails(item)
    }

    fn encode(&mut self, item: U::Item, dst: &mut Vec<u8>) -> (r: Result<
        (),
        U::Error,
    >) {
        self.1.encode(item, dst)
    }
}

} // verus!
