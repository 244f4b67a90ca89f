//! A passthrough codec: the entire currently valid byte run is one frame.

use crate::block::Block;
use crate::decoder::{DecodeResult, Decoder};
use crate::encoder::Encoder;
use vstd::prelude::*;
use vstd::slice::slice_to_vec;

verus! {

/// A simple codec that ships raw bytes around: every nonempty window is one
/// frame, and a frame's wire representation is the frame itself. Used for
/// raw or loopback transports, with no real delimiting.
pub struct BytesCodec {}

/// The error type of [`BytesCodec`]; it has no error cases.
#[derive(Debug)]
pub struct RawError {}

impl Encoder for BytesCodec {
    type Item = Vec<u8>;

    type Error = RawError;

    open spec fn encodes(&self, item: Seq<u8>) -> Seq<u8> {
        item
    }

    open spec fn encode_fails(&self, item: Seq<u8>) -> bool {
        false
    }

    fn encode(&mut self, item: Vec<u8>, dst: &mut Vec<u8>) -> (r: Result<
        (),
        RawError,
    >) {
        let mut item = item;
        dst.append(&mut item);
        Ok(())
    }
}

impl Decoder for BytesCodec {
    type Item = Vec<u8>;

    type Error = RawError;

    open spec fn decodes(&self, data: Seq<u8>) -> Option<(Seq<u8>, int)> {
        if data.len() > 0 {
            Some((data, data.len() as int))
        } else {
            None
        }
    }

    open spec fn fails(&self, data: Seq<u8>) -> bool {
        false
    }

    proof fn lemma_decode_bounds(&self, data: Seq<u8>) {
    }

    fn decode<'a>(&mut self, src: Block<'a>) -> (r: Result<
        DecodeResult<'a, Vec<u8>>,
        RawError,
    >) {
        let mut src = src;
        let n = src.len();
        if n > 0 {
            let item = slice_to_vec(src.valid());
            src.advance(n);
            proof {
                assert(src@ =~= Seq::<u8>::empty());
            }
            Ok(DecodeResult::Complete(item, src))
        } else {
            Ok(DecodeResult::Incomplete(src))
        }
    }
}

} // verus!
