use framed_codec::{BytePool, FramedRead, LinesCodec, ReadState};

// Sends two lines in one burst, then nothing else: the first advancement
// step asks for a read, the burst is fed in, and both lines come out of the
// buffered bytes without any further read.
#[test]
fn line_read_multi() {
    let messages: &[u8] = b"one\ntwo\n";
    let pool = BytePool::new();

    let mut framed = FramedRead::new((), LinesCodec {}, &pool);
    assert!(matches!(framed.try_next(), Ok(ReadState::NeedRead)));
    framed.feed(messages);

    let one = match framed.try_next() {
        Ok(ReadState::Frame(line)) => line,
        _ => panic!("expected a frame"),
    };
    assert_eq!(one, "one\n");
    let two = match framed.try_next() {
        Ok(ReadState::Frame(line)) => line,
        _ => panic!("expected a frame"),
    };
    assert_eq!(two, "two\n");
}

#[test]
fn clean_end_after_whole_frames() {
    let pool = BytePool::new();
    let mut framed = FramedRead::new((), LinesCodec {}, &pool);
    framed.feed(b"alpha\nbeta\n");

    let a = match framed.try_next() {
        Ok(ReadState::Frame(line)) => line,
        _ => panic!("expected a frame"),
    };
    assert_eq!(a, "alpha\n");
    let b = match framed.try_next() {
        Ok(ReadState::Frame(line)) => line,
        _ => panic!("expected a frame"),
    };
    assert_eq!(b, "beta\n");

    // No trailing partial data: the sequence ends cleanly.
    assert!(matches!(framed.try_next(), Ok(ReadState::NeedRead)));
    assert!(framed.finish().is_ok());
}

#[test]
fn release_returns_transport_and_decoder() {
    let pool = BytePool::new();
    let mut framed = FramedRead::new(7u32, LinesCodec {}, &pool);
    framed.feed(b"partial without newline");
    let (transport, _decoder) = framed.release();
    assert_eq!(transport, 7u32);
}

// Dropping an engine mid-read (bytes buffered, more expected) releases its
// block back to the pool; the pool stays usable and later engines decode
// correctly with reused blocks.
#[test]
fn dropping_an_engine_mid_read_keeps_the_pool_usable() {
    let pool = BytePool::new();
    {
        let mut framed = FramedRead::new((), LinesCodec {}, &pool);
        framed.feed(b"no newline yet");
        assert!(matches!(framed.try_next(), Ok(ReadState::NeedRead)));
        // Dropped here, mid-read: the block goes back to the pool.
    }
    let mut framed = FramedRead::new((), LinesCodec {}, &pool);
    framed.feed(b"later\n");
    let line = match framed.try_next() {
        Ok(ReadState::Frame(line)) => line,
        _ => panic!("expected a frame"),
    };
    assert_eq!(line, "later\n");
}

// Several engines alive at once over one shared pool: each owns its block
// exclusively, so interleaved feeding and decoding never mix their bytes.
#[test]
fn engines_sharing_a_pool_keep_their_bytes_apart() {
    let pool = BytePool::new();
    let mut first = FramedRead::new((), LinesCodec {}, &pool);
    let mut second = FramedRead::new((), LinesCodec {}, &pool);

    first.feed(b"fir");
    second.feed(b"sec");
    first.feed(b"st\n");
    second.feed(b"ond\n");

    let a = match first.try_next() {
        Ok(ReadState::Frame(line)) => line,
        _ => panic!("expected a frame"),
    };
    let b = match second.try_next() {
        Ok(ReadState::Frame(line)) => line,
        _ => panic!("expected a frame"),
    };
    assert_eq!(a, "first\n");
    assert_eq!(b, "second\n");
}
