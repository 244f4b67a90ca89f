//! The encoding half of a codec: how one frame is appended, as wire bytes,
//! to an output buffer.

use vstd::prelude::*;

verus! {

/// Encoding of frames as bytes, for use with a write engine.
///
/// An encoder is characterized by [`Encoder::encodes`], the wire bytes of a
/// frame, and [`Encoder::encode_fails`], the frames it cannot represent
/// (structural errors such as a value too large for a fixed-width header).
pub trait Encoder: Sized {
    /// The type of items consumed by `encode`.
    type Item: View;

    /// The type of encoding errors.
    type Error;

    /// The wire representation of one frame.
    spec fn encodes(&self, item: <Self::Item as View>::V) -> Seq<u8>;

    /// Whether the frame cannot be represented in this format.
    spec fn encode_fails(&self, item: <Self::Item as View>::V) -> bool;

    /// Appends the wire representation of `item` to `dst`, leaving `dst`
    /// unchanged when the frame cannot be represented.
    fn encode(&mut self, item: Self::Item, dst: &mut Vec<u8>) -> (r: Result<
        (),
        Self::Error,
    >)
        ensures
            *final(self) == *old(self),
            match r {
                Ok(()) => {
                    &&& !old(self).encode_fails(item@)
                    &&& final(dst)@ == old(dst)@ + old(self).encodes(item@)
                },
                Err(_) => {
                    &&& old(self).encode_fails(item@)
                    &&& final(dst)@ == old(dst)@
                },
            },
    ;
}

} // verus!
