//! A line-delimited codec: a frame is the text up to and including a
//! newline byte, decoded as UTF-8.

use crate::block::Block;
use crate::decoder::{DecodeResult, Decoder, StableDecoder};
use crate::encoder::Encoder;
use vstd::prelude::*;
use vstd::slice::{slice_index_get, slice_subrange};
use vstd::utf8::{decode_utf8, encode_utf8, valid_utf8};

verus! {

/// The newline delimiter.
pub const NEWLINE: u8 = 10;

/// Whether `i` is the index of the first newline byte in `data`.
pub open spec fn nl_at(data: Seq<u8>, i: int) -> bool {
    &&& 0 <= i < data.len()
    &&& data[i] == NEWLINE
    &&& forall|j: int| 0 <= j < i ==> data[j] != NEWLINE
}

/// There is at most one first newline.
proof fn lemma_nl_at_unique(data: Seq<u8>, i: int, k: int)
    requires
        nl_at(data, i),
        nl_at(data, k),
    ensures
        i == k,
{
    if i < k {
        assert(data[i] != NEWLINE);
    } else if k < i {
        assert(data[k] != NEWLINE);
    }
}

/// Relies on `memchr::memchr`: the index of the first occurrence of
/// `needle` in `haystack`, or `None` when it does not occur.
#[verifier::external_body]
fn find_byte(needle: u8, haystack: &[u8]) -> (r: Option<usize>)
    ensures
        match r {
            Some(i) => {
                &&& i < haystack@.len()
                &&& haystack@[i as int] == needle
                &&& forall|j: int| 0 <= j < i ==> haystack@[j] != needle
            },
            None => forall|j: int| 0 <= j < haystack@.len() ==> haystack@[j] != needle,
        },
{
    memchr::memchr(needle, haystack)
}

/// Relies on `std::str::from_utf8` and `str::to_owned`: succeeds exactly on
/// valid UTF-8 input, and then yields the text those bytes encode.
#[verifier::external_body]
fn utf8_string(bytes: &[u8]) -> (r: Option<String>)
    ensures
        match r {
            Some(s) => valid_utf8(bytes@) && s@ == decode_utf8(bytes@),
            None => !valid_utf8(bytes@),
        },
{
    match std::str::from_utf8(bytes) {
        Ok(s) => Some(s.to_owned()),
        Err(_) => None,
    }
}

/// A codec that splits data up into lines of UTF-8 text. A frame is the
/// bytes up to and including the first newline; bytes that hold a newline
/// but are not valid UTF-8 up to it are a structural error.
pub struct LinesCodec {}

/// The error of [`LinesCodec`]: the delimited bytes were not valid text.
#[derive(Debug)]
pub struct LinesError {}

impl Encoder for LinesCodec {
    type Item = String;

    type Error = LinesError;

    open spec fn encodes(&self, item: Seq<char>) -> Seq<u8> {
        encode_utf8(item)
    }

    open spec fn encode_fails(&self, item: Seq<char>) -> bool {
        false
    }

    fn encode(&mut self, item: String, dst: &mut Vec<u8>) -> (r: Result<
        (),
        LinesError,
    >) {
        let b = item.as_str().as_bytes();
        let mut i: usize = 0;
        while i < b.len()
            invariant
                0 <= i <= b@.len(),
                dst@ == old(dst)@ + b@.take(i as int),
            decreases b@.len() - i,
        {
            let v = *slice_index_get(b, i);
            dst.push(v);
            proof {
                assert(old(dst)@ + b@.take(i as int) + seq![b@[i as int]] =~= old(
                    dst,
                )@ + b@.take(i + 1));
            }
            i += 1;
        }
        proof {
            assert(b@.take(b@.len() as int) =~= b@);
        }
        Ok(())
    }
}

impl Decoder for LinesCodec {
    type Item = String;

    type Error = LinesError;

    open spec fn decodes(&self, data: Seq<u8>) -> Option<(Seq<char>, int)> {
        if exists|i: int| nl_at(data, i) {
            let i = choose|i: int| nl_at(data, i);
            if valid_utf8(data.take(i + 1)) {
                Some((decode_utf8(data.take(i + 1)), i + 1))
            } else {
                None
            }
        } else {
            None
        }
    }

    open spec fn fails(&self, data: Seq<u8>) -> bool {
        &&& exists|i: int| nl_at(data, i)
        &&& !valid_utf8(data.take((choose|i: int| nl_at(data, i)) + 1))
    }

    proof fn lemma_decode_bounds(&self, data: Seq<u8>) {
        if exists|i: int| nl_at(data, i) {
            let i = choose|i: int| nl_at(data, i);
            assert(0 <= i < data.len());
        }
    }

    fn decode<'a>(&mut self, src: Block<'a>) -> (r: Result<
        DecodeResult<'a, String>,
        LinesError,
    >) {
        let mut src = src;
        let _len = src.len();
        let s = src.valid();
        match find_byte(NEWLINE, s) {
            Some(pos) => {
                proof {
                    assert(nl_at(src@, pos as int));
                    let k = choose|i: int| nl_at(src@, i);
                    lemma_nl_at_unique(src@, k, pos as int);
                }
                let line = slice_subrange(s, 0, pos + 1);
                proof {
                    assert(line@ =~= src@.take(pos + 1));
                }
                match utf8_string(line) {
                    Some(text) => {
                        src.advance(pos + 1);
                        Ok(DecodeResult::Complete(text, src))
                    },
                    None => Err(LinesError {}),
                }
            },
            None => {
                proof {
                    assert(forall|i: int| !nl_at(src@, i));
                }
                Ok(DecodeResult::Incomplete(src))
            },
        }
    }
}

impl StableDecoder for LinesCodec {
    proof fn lemma_decode_extend(&self, data: Seq<u8>, ext: Seq<u8>) {
        let whole = data + ext;
        if exists|i: int| nl_at(data, i) {
            let i = choose|i: int| nl_at(data, i);
            assert(forall|j: int| 0 <= j < i ==> whole[j] == data[j]);
            assert(nl_at(whole, i));
            let k = choose|i: int| nl_at(whole, i);
            lemma_nl_at_unique(whole, i, k);
            assert(whole.take(i + 1) =~= data.take(i + 1));
        }
    }
}

} // verus!
