//! The decoding half of a codec: how one frame is recognized in, and
//! consumed from, a window of buffered bytes.

use crate::block::Block;
use vstd::prelude::*;

verus! {

/// The result of one decode attempt. Ownership of the byte block round-trips
/// through the decoder: it is passed in by value and handed back in either
/// variant, so it is never aliased and never silently dropped.
pub enum DecodeResult<'a, I> {
    /// A frame was extracted. The returned block keeps any bytes that follow
    /// the frame, shifted to the front, ready for the next decode call.
    Complete(I, Block<'a>),
    /// The valid bytes do not yet contain a whole frame. The block comes
    /// back unchanged so the caller can append more bytes and retry.
    Incomplete(Block<'a>),
}

/// Decoding of frames out of buffered bytes, for use with
/// [`crate::FramedRead2`].
///
/// A decoder is characterized by two spec functions of the valid bytes
/// alone: [`Decoder::decodes`], the frame (as its view) and the number of
/// bytes it occupies, if a whole frame is buffered; and [`Decoder::fails`],
/// whether the bytes are structurally invalid for the format. The exec
/// method [`Decoder::decode`] is held to them exactly, which is what makes a
/// repeated decode on an unchanged window return `Incomplete` again with
/// byte-for-byte identical contents.
pub trait Decoder: Sized {
    /// The type of items returned by `decode`.
    type Item: View;

    /// The type of decoding errors.
    type Error;

    /// What a whole frame at the front of `data` decodes to, and how many
    /// bytes it consumes; `None` while no whole frame is buffered.
    spec fn decodes(&self, data: Seq<u8>) -> Option<(<Self::Item as View>::V, int)>;

    /// Whether `data` is structurally invalid for this format, which is
    /// fatal for the stream.
    spec fn fails(&self, data: Seq<u8>) -> bool;

    /// A frame occupies at least one and at most all of the buffered bytes;
    /// a window holding a whole frame is not invalid; and an empty window
    /// is never invalid.
    proof fn lemma_decode_bounds(&self, data: Seq<u8>)
        ensures
            self.decodes(data) matches Some((v, n)) ==> 0 < n <= data.len(),
            self.decodes(data) is Some ==> !self.fails(data),
            self.fails(data) ==> data.len() > 0,
    ;

    /// Attempts to decode one frame out of the valid bytes of `src`.
    ///
    /// On `Complete`, exactly the frame's bytes are consumed and the rest
    /// stay in the returned block. On `Incomplete`, the block and the
    /// decoder are unchanged. An error reports structurally invalid bytes;
    /// the block is released (recycled into its pool) as part of teardown.
    fn decode<'a>(&mut self, src: Block<'a>) -> (r: Result<
        DecodeResult<'a, Self::Item>,
        Self::Error,
    >)
        requires
            src.wf(),
        ensures
            match r {
                Ok(DecodeResult::Complete(item, rest)) => {
                    &&& *final(self) == *old(self)
                    &&& rest.wf()
                    &&& old(self).decodes(src@) matches Some((v, n))
                        && item@ == v
                        && n == src@.len() - rest@.len()
                        && rest@ == src@.skip(n)
                },
                Ok(DecodeResult::Incomplete(b)) => {
                    &&& *final(self) == *old(self)
                    &&& b.wf()
                    &&& b@ == src@
                    &&& b.capacity() == src.capacity()
                    &&& old(self).decodes(src@) is None
                    &&& !old(self).fails(src@)
                },
                Err(_) => {
                    &&& *final(self) == *old(self)
                    &&& old(self).fails(src@)
                },
            },
    ;
}

/// A decoder whose framing is a function of the byte stream alone: a frame
/// recognized at the front of a window, and a structural error, both stand
/// however many bytes arrive later. The length-prefixed and line-delimited
/// codecs are such; the raw passthrough codec is not (its frame is whatever
/// the window currently holds, so it depends on read chunking).
pub trait StableDecoder: Decoder {
    /// A decoded frame and a structural error are stable under extension of
    /// the window.
    proof fn lemma_decode_extend(&self, data: Seq<u8>, ext: Seq<u8>)
        ensures
            self.decodes(data) is Some ==> self.decodes(data + ext) == self.decodes(data),
            self.fails(data) ==> self.fails(data + ext),
            self.fails(data) ==> self.decodes(data + ext) is None,
    ;
}

} // verus!
