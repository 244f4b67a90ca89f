//! A length-prefixed codec: an eight-byte big-endian length header followed
//! by that many payload bytes.

use crate::block::Block;
use crate::decoder::{DecodeResult, Decoder, StableDecoder};
use crate::encoder::Encoder;
use vstd::prelude::*;
use vstd::slice::{slice_index_get, slice_subrange, slice_to_vec};

verus! {

/// The eight big-endian bytes of a 64-bit length.
pub open spec fn be_u64_bytes(n: u64) -> Seq<u8> {
    seq![
        (n >> 56) as u8,
        (n >> 48) as u8,
        (n >> 40) as u8,
        (n >> 32) as u8,
        (n >> 24) as u8,
        (n >> 16) as u8,
        (n >> 8) as u8,
        n as u8,
    ]
}

/// The 64-bit value of eight big-endian bytes.
pub open spec fn be_u64_of(b: Seq<u8>) -> u64
    recommends
        b.len() == 8,
{
    ((b[0] as u64) << 56) | ((b[1] as u64) << 48) | ((b[2] as u64) << 40) | (
    (b[3] as u64) << 32) | ((b[4] as u64) << 24) | ((b[5] as u64) << 16) | ((
    b[6] as u64) << 8) | (b[7] as u64)
}

/// Reading back the eight big-endian bytes of a value gives the value.
pub proof fn lemma_be_u64_round_trip(n: u64)
    ensures
        be_u64_of(be_u64_bytes(n)) == n,
{
    assert(((((n >> 56) as u8) as u64) << 56) | ((((n >> 48) as u8) as u64) << 48) | ((((n
        >> 40) as u8) as u64) << 40) | ((((n >> 32) as u8) as u64) << 32) | ((((n
        >> 24) as u8) as u64) << 24) | ((((n >> 16) as u8) as u64) << 16) | ((((n
        >> 8) as u8) as u64) << 8) | ((n as u8) as u64) == n) by (bit_vector);
}

/// A codec that sends data prefixed by its length: an eight-byte big-endian
/// length header, then that many payload bytes.
pub struct LengthCodec;

/// The error type of [`LengthCodec`]; it has no error cases.
#[derive(Debug)]
pub struct LengthError {}

impl Encoder for LengthCodec {
    type Item = Vec<u8>;

    type Error = LengthError;

    open spec fn encodes(&self, item: Seq<u8>) -> Seq<u8> {
        be_u64_bytes(item.len() as u64) + item
    }

    open spec fn encode_fails(&self, item: Seq<u8>) -> bool {
        false
    }

    fn encode(&mut self, item: Vec<u8>, dst: &mut Vec<u8>) -> (r: Result<
        (),
        LengthError,
    >) {
        let ghost it = item@;
        let n = item.len() as u64;
        dst.push((n >> 56) as u8);
        dst.push((n >> 48) as u8);
        dst.push((n >> 40) as u8);
        dst.push((n >> 32) as u8);
        dst.push((n >> 24) as u8);
        dst.push((n >> 16) as u8);
        dst.push((n >> 8) as u8);
        dst.push(n as u8);
        let mut item = item;
        dst.append(&mut item);
        proof {
            assert(dst@ =~= old(dst)@ + self.encodes(it));
        }
        Ok(())
    }
}

impl Decoder for LengthCodec {
    type Item = Vec<u8>;

    type Error = LengthError;

    open spec fn decodes(&self, data: Seq<u8>) -> Option<(Seq<u8>, int)> {
        if data.len() >= 8 {
            let n = be_u64_of(data.take(8)) as int;
            if data.len() - 8 >= n {
                Some((data.subrange(8, 8 + n), 8 + n))
            } else {
                None
            }
        } else {
            None
        }
    }

    open spec fn fails(&self, data: Seq<u8>) -> bool {
        false
    }

    proof fn lemma_decode_bounds(&self, data: Seq<u8>) {
    }

    fn decode<'a>(&mut self, src: Block<'a>) -> (r: Result<
        DecodeResult<'a, Vec<u8>>,
        LengthError,
    >) {
        let mut src = src;
        let size = src.len();
        if size < 8 {
            return Ok(DecodeResult::Incomplete(src));
        }
        let s = src.valid();
        let n: u64 = ((*slice_index_get(s, 0) as u64) << 56) | ((*slice_index_get(
            s,
            1,
        ) as u64) << 48) | ((*slice_index_get(s, 2) as u64) << 40) | ((*slice_index_get(
            s,
            3,
        ) as u64) << 32) | ((*slice_index_get(s, 4) as u64) << 24) | ((*slice_index_get(
            s,
            5,
        ) as u64) << 16) | ((*slice_index_get(s, 6) as u64) << 8) | (*slice_index_get(
            s,
            7,
        ) as u64);
        proof {
            assert(src@.take(8)[0] == src@[0]);
            assert(n == be_u64_of(src@.take(8)));
        }
        if (size - 8) as u64 >= n {
            let n_us = n as usize;
            let payload = slice_to_vec(slice_subrange(s, 8, 8 + n_us));
            src.advance(8 + n_us);
            Ok(DecodeResult::Complete(payload, src))
        } else {
            Ok(DecodeResult::Incomplete(src))
        }
    }
}

impl StableDecoder for LengthCodec {
    proof fn lemma_decode_extend(&self, data: Seq<u8>, ext: Seq<u8>) {
        if self.decodes(data) is Some {
            let whole = data + ext;
            assert(whole.take(8) =~= data.take(8));
            let n = be_u64_of(data.take(8)) as int;
            assert(whole.subrange(8, 8 + n) =~= data.subrange(8, 8 + n));
        }
    }
}

/// Round trip: a length-prefixed encoding, followed by any later bytes,
/// decodes back to exactly the payload and consumes exactly the header and
/// the payload.
pub proof fn lemma_length_round_trip(payload: Seq<u8>, ext: Seq<u8>)
    requires
        payload.len() <= u64::MAX,
    ensures
        (LengthCodec).decodes((LengthCodec).encodes(payload) + ext)
            == Some::<(Seq<u8>, int)>((payload, 8 + payload.len() as int)),
{
    let c = LengthCodec;
    let data = c.encodes(payload) + ext;
    lemma_be_u64_round_trip(payload.len() as u64);
    assert(data.take(8) =~= be_u64_bytes(payload.len() as u64));
    assert(data.subrange(8, 8 + payload.len() as int) =~= payload);
}

} // verus!
