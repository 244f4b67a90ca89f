//! The buffered decode loop: one owned block at a time, driven forward by
//! an external scheduler one event at a time.
//!
//! The engine owns one [`Block`] and a decoder. Each advancement step
//! ([`FramedRead2::try_next`]) attempts one decode on the buffered bytes:
//! it either yields a frame without touching the transport, or asks the
//! caller to read more. The transport read is the single suspension point,
//! and it lives with the caller: whatever a read produced is handed back in
//! with [`FramedRead2::feed`], and the end of the source with
//! [`FramedRead2::finish`], which tells a clean end apart from a stream
//! truncated in the middle of a frame.

use crate::block::Block;
use crate::decoder::{DecodeResult, Decoder, StableDecoder};
use crate::framed::Fuse;
use crate::pool::BytePool;
use vstd::prelude::*;
use vstd::slice::slice_subrange;

verus! {

/// The initial capacity of an engine's block, subject to growth.
pub const INITIAL_CAPACITY: usize = 8192;

/// What one advancement step of a read engine produced: either a decoded
/// frame, or a request for more bytes (the single suspension point).
pub enum ReadState<I> {
    /// One whole frame was decoded out of the buffered bytes.
    Frame(I),
    /// No whole frame is buffered yet: read more bytes and feed them in.
    NeedRead,
}

/// The terminal error of a stream whose source closed while undecoded
/// bytes were still buffered that never formed a complete frame.
#[derive(Debug)]
pub struct TruncatedStream {}

/// A read engine over a bare decoder: owns one pool-backed block of
/// buffered bytes and drives the decode cycle over it.
pub struct FramedRead2<'a, T> {
    inner: T,
    pool: &'a BytePool,
    buffer: Option<Block<'a>>,
}

/// Creates a read engine from a decoder and the pool its block comes from.
pub fn framed_read_2<'a, T: Decoder>(inner: T, pool: &'a BytePool) -> (r: FramedRead2<
    'a,
    T,
>)
    ensures
        r.wf(),
        r.buffered() == Seq::<u8>::empty(),
        r.codec() == inner,
{
    FramedRead2 { inner, pool, buffer: Some(Block::with_capacity(pool, INITIAL_CAPACITY)) }
}

impl<'a, T: Decoder> FramedRead2<'a, T> {
    /// An engine is well formed while it holds its one block.
    pub closed spec fn wf(&self) -> bool {
        self.buffer is Some && self.buffer->Some_0.wf()
    }

    /// The bytes read so far but not yet consumed by a decoded frame.
    pub closed spec fn buffered(&self) -> Seq<u8> {
        self.buffer->Some_0@
    }

    /// The decoder the engine drives.
    pub closed spec fn codec(&self) -> T {
        self.inner
    }

    /// One advancement step: attempt one decode on the buffered bytes.
    ///
    /// Yields `Frame` exactly when a whole frame is buffered, consuming
    /// exactly its bytes; asks for more bytes exactly when no whole frame
    /// is buffered and the bytes are not invalid; and fails exactly when
    /// they are, releasing the block and leaving the buffer empty.
    pub fn try_next(&mut self) -> (r: Result<ReadState<T::Item>, T::Error>)
        requires
            old(self).wf(),
        ensures
            final(self).wf(),
            final(self).codec() == old(self).codec(),
            match r {
                Ok(ReadState::Frame(item)) => {
                    &&& old(self).codec().decodes(old(self).buffered()) matches Some((v, n))
                        && item@ == v
                        && final(self).buffered() == old(self).buffered().skip(n)
                },
                Ok(ReadState::NeedRead) => {
                    &&& final(self).buffered() == old(self).buffered()
                    &&& old(self).codec().decodes(old(self).buffered()) is None
                    &&& !old(self).codec().fails(old(self).buffered())
                },
                Err(_) => {
                    &&& old(self).codec().fails(old(self).buffered())
                    &&& final(self).buffered() == Seq::<u8>::empty()
                },
            },
    {
        let buf = self.buffer.take().unwrap();
        match self.inner.decode(buf) {
            Ok(DecodeResult::Complete(item, rest)) => {
                self.buffer = Some(rest);
                Ok(ReadState::Frame(item))
            },
            Ok(DecodeResult::Incomplete(b)) => {
                self.buffer = Some(b);
                Ok(ReadState::NeedRead)
            },
            Err(e) => {
                self.buffer = Some(Block::with_capacity(self.pool, INITIAL_CAPACITY));
                Err(e)
            },
        }
    }

    /// Hands the engine the bytes one transport read produced, appending
    /// them to the buffered bytes (growing the block as needed).
    pub fn feed(&mut self, data: &[u8])
        requires
            old(self).wf(),
            old(self).buffered().len() + data@.len() <= usize::MAX,
        ensures
            final(self).wf(),
            final(self).codec() == old(self).codec(),
            final(self).buffered() == old(self).buffered() + data@,
    {
        let mut buf = self.buffer.take().unwrap();
        buf.append(data);
        self.buffer = Some(buf);
    }

    /// The number of buffered bytes not yet consumed by a decoded frame.
    pub fn buffered_len(&self) -> (r: usize)
        requires
            self.wf(),
        ensures
            r == self.buffered().len(),
    {
        match &self.buffer {
            Some(b) => b.len(),
            None => 0,
        }
    }

    /// Reports how the sequence ends once the source is exhausted: a clean
    /// end when no bytes are left over, and a truncated stream exactly when
    /// buffered bytes never formed a complete frame.
    pub fn finish(&self) -> (r: Result<(), TruncatedStream>)
        requires
            self.wf(),
        ensures
            r is Ok <==> self.buffered().len() == 0,
    {
        match &self.buffer {
            Some(b) => {
                if b.len() == 0 {
                    Ok(())
                } else {
                    Err(TruncatedStream {})
                }
            },
            None => Ok(()),
        }
    }

    /// Releases the decoder; the held block is dropped, which recycles it
    /// into the pool.
    pub fn release(self) -> (r: T)
        ensures
            r == self.codec(),
    {
        self.inner
    }
}

/// A read engine over a transport coupled with a decoder: the composite
/// [`Fuse`] form of [`FramedRead2`]. The transport handle is carried for
/// the caller that drives the loop; the engine itself only decodes.
pub struct FramedRead<'a, T, D> {
    inner: FramedRead2<'a, Fuse<T, D>>,
}

impl<'a, T, D: Decoder> FramedRead<'a, T, D> {
    /// An engine is well formed while it holds its one block.
    pub closed spec fn wf(&self) -> bool {
        self.inner.wf()
    }

    /// The bytes read so far but not yet consumed by a decoded frame.
    pub closed spec fn buffered(&self) -> Seq<u8> {
        self.inner.buffered()
    }

    /// The decoder half of the fused pair.
    pub closed spec fn decoder(&self) -> D {
        self.inner.codec().1
    }

    /// The transport half of the fused pair.
    pub closed spec fn transport(&self) -> T {
        self.inner.codec().0
    }

    /// Creates a new engine coupling `inner` (a transport handle) with the
    /// given decoder.
    pub fn new(inner: T, decoder: D, pool: &'a BytePool) -> (r: FramedRead<'a, T, D>)
        ensures
            r.wf(),
            r.buffered() == Seq::<u8>::empty(),
            r.decoder() == decoder,
            r.transport() == inner,
    {
        FramedRead { inner: framed_read_2(Fuse(inner, decoder), pool) }
    }

    /// One advancement step; see [`FramedRead2::try_next`].
    pub fn try_next(&mut self) -> (r: Result<ReadState<D::Item>, D::Error>)
        requires
            old(self).wf(),
        ensures
            final(self).wf(),
            final(self).decoder() == old(self).decoder(),
            final(self).transport() == old(self).transport(),
            match r {
                Ok(ReadState::Frame(item)) => {
                    &&& old(self).decoder().decodes(old(self).buffered()) matches Some((v, n))
                        && item@ == v
                        && final(self).buffered() == old(self).buffered().skip(n)
                },
                Ok(ReadState::NeedRead) => {
                    &&& final(self).buffered() == old(self).buffered()
                    &&& old(self).decoder().decodes(old(self).buffered()) is None
                    &&& !old(self).decoder().fails(old(self).buffered())
                },
                Err(_) => {
                    &&& old(self).decoder().fails(old(self).buffered())
                    &&& final(self).buffered() == Seq::<u8>::empty()
                },
            },
    {
        self.inner.try_next()
    }

    /// Hands the engine the bytes one transport read produced; see
    /// [`FramedRead2::feed`].
    pub fn feed(&mut self, data: &[u8])
        requires
            old(self).wf(),
            old(self).buffered().len() + data@.len() <= usize::MAX,
        ensures
            final(self).wf(),
            final(self).decoder() == old(self).decoder(),
            final(self).transport() == old(self).transport(),
            final(self).buffered() == old(self).buffered() + data@,
    {
        self.inner.feed(data)
    }

    /// The number of buffered bytes not yet consumed by a decoded frame.
    pub fn buffered_len(&self) -> (r: usize)
        requires
            self.wf(),
        ensures
            r == self.buffered().len(),
    {
        self.inner.buffered_len()
    }

    /// Reports how the sequence ends once the source is exhausted; see
    /// [`FramedRead2::finish`].
    pub fn finish(&self) -> (r: Result<(), TruncatedStream>)
        requires
            self.wf(),
        ensures
            r is Ok <==> self.buffered().len() == 0,
    {
        self.inner.finish()
    }

    /// Releases the transport handle and the decoder; the held block is
    /// dropped, which recycles it into the pool.
    pub fn release(self) -> (r: (T, D))
        ensures
            r.0 == self.transport(),
            r.1 == self.decoder(),
    {
        let fuse = self.inner.release();
        (fuse.0, fuse.1)
    }
}

/// The views of a sequence of items.
pub open spec fn views_of<I: View>(items: Seq<I>) -> Seq<I::V> {
    items.map_values(|it: I| it@)
}

/// The frames implied by `data` under `codec`: whole frames read off the
/// front for as long as one is there.
pub open spec fn frames_from<D: Decoder>(codec: D, data: Seq<u8>) -> Seq<
    <D::Item as View>::V,
>
    decreases data.len(),
{
    match codec.decodes(data) {
        Some((v, n)) => if 0 < n <= data.len() {
            seq![v] + frames_from(codec, data.skip(n))
        } else {
            Seq::empty()
        },
        None => Seq::empty(),
    }
}

/// The number of bytes the frames implied by `data` consume.
pub open spec fn frames_len<D: Decoder>(codec: D, data: Seq<u8>) -> int
    decreases data.len(),
{
    match codec.decodes(data) {
        Some((v, n)) => if 0 < n <= data.len() {
            n + frames_len(codec, data.skip(n))
        } else {
            0
        },
        None => 0,
    }
}

/// Whether `data` splits completely into whole frames, with no trailing
/// partial data.
pub open spec fn clean_split<D: Decoder>(codec: D, data: Seq<u8>) -> bool {
    frames_len(codec, data) == data.len()
}

/// How a driven stream ends other than cleanly.
#[derive(Debug)]
pub enum StreamError<E> {
    /// The decoder reported structurally invalid bytes.
    Decode(E),
    /// The source closed with leftover bytes that never formed a frame.
    Truncated,
}

/// Decodes a whole fixed-size source held in memory: drives a read engine
/// over `input`, feeding it at most `chunk` bytes per simulated read, until
/// its frames are exhausted.
///
/// Every successful run returns exactly the frames implied by the input's
/// bytes; and an input with no trailing partial data — one that splits
/// completely into whole frames — always ends cleanly with exactly those
/// frames, never with an error.
pub fn decode_all<'a, D: StableDecoder>(
    codec: D,
    pool: &'a BytePool,
    input: &[u8],
    chunk: usize,
) -> (r: Result<Vec<D::Item>, StreamError<D::Error>>)
    requires
        chunk >= 1,
    ensures
        match r {
            Ok(items) => views_of(items@) == frames_from(codec, input@),
            Err(_) => !clean_split(codec, input@),
        },
{
    let mut engine = framed_read_2(codec, pool);
    let mut out: Vec<D::Item> = Vec::new();
    let mut offset: usize = 0;
    let ilen = input.len();
    proof {
        assert(engine.buffered() + input@.skip(0) =~= input@);
        assert(views_of(out@) =~= Seq::<<D::Item as View>::V>::empty());
    }
    loop
        invariant
            engine.wf(),
            engine.codec() == codec,
            chunk >= 1,
            ilen == input@.len(),
            offset <= ilen,
            engine.buffered().len() <= offset,
            views_of(out@) + frames_from(codec, engine.buffered() + input@.skip(offset as int))
                == frames_from(codec, input@),
            clean_split(codec, input@) ==> frames_len(
                codec,
                engine.buffered() + input@.skip(offset as int),
            ) == engine.buffered().len() + (ilen - offset),
        decreases 2 * (ilen - offset) + engine.buffered().len(),
    {
        let ghost pre = engine.buffered();
        let ghost rem = input@.skip(offset as int);
        match engine.try_next() {
            Ok(ReadState::Frame(item)) => {
                let ghost pm = views_of(out@);
                let ghost iv = item@;
                out.push(item);
                proof {
                    let w = pre + rem;
                    codec.lemma_decode_bounds(pre);
                    codec.lemma_decode_extend(pre, rem);
                    let vn = codec.decodes(pre)->Some_0;
                    let n = vn.1;
                    assert(codec.decodes(w) == codec.decodes(pre));
                    assert(0 < n <= pre.len());
                    assert(frames_from(codec, w) == seq![vn.0] + frames_from(
                        codec,
                        w.skip(n),
                    ));
                    assert(w.skip(n) =~= engine.buffered() + rem);
                    assert(views_of(out@) =~= pm + seq![iv]);
                    assert((pm + seq![iv]) + frames_from(codec, engine.buffered() + rem) =~= pm
                        + (seq![iv] + frames_from(codec, engine.buffered() + rem)));
                    if clean_split(codec, input@) {
                        assert(frames_len(codec, w) == n + frames_len(codec, w.skip(n)));
                    }
                    assert(engine.buffered().len() < pre.len());
                }
            },
            Ok(ReadState::NeedRead) => {
                if offset == ilen {
                    match engine.finish() {
                        Ok(_) => {
                            proof {
                                assert(engine.buffered() + rem =~= Seq::<u8>::empty());
                                assert(frames_from(codec, engine.buffered() + rem)
                                    =~= Seq::<<D::Item as View>::V>::empty());
                                assert(views_of(out@) + Seq::<<D::Item as View>::V>::empty()
                                    =~= views_of(out@));
                            }
                            return Ok(out);
                        },
                        Err(_) => {
                            proof {
                                if clean_split(codec, input@) {
                                    assert(engine.buffered() + rem =~= engine.buffered());
                                    assert(frames_len(codec, engine.buffered()) == 0);
                                    assert(false);
                                }
                            }
                            return Err(StreamError::Truncated);
                        },
                    }
                } else {
                    let end = if ilen - offset > chunk {
                        offset + chunk
                    } else {
                        ilen
                    };
                    let data = slice_subrange(input, offset, end);
                    engine.feed(data);
                    proof {
                        assert(pre + input@.skip(offset as int) =~= (pre + data@) + input@.skip(
                            end as int,
                        ));
                    }
                    offset = end;
                }
            },
            Err(e) => {
                proof {
                    if clean_split(codec, input@) {
                        let w = pre + rem;
                        codec.lemma_decode_extend(pre, rem);
                        codec.lemma_decode_bounds(w);
                        assert(frames_len(codec, w) == 0);
                        assert(w.len() > 0);
                        assert(false);
                    }
                }
                return Err(StreamError::Decode(e));
            },
        }
    }
}

} // verus!
