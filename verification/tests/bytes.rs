use framed_codec::{BytePool, BytesCodec, FramedRead, ReadState};

#[test]
fn decodes() {
    let buf = [0u8; 32];
    let expected = buf.clone();
    let pool = BytePool::new();
    let mut framed = FramedRead::new((), BytesCodec {}, &pool);

    assert!(matches!(framed.try_next(), Ok(ReadState::NeedRead)));
    framed.feed(&buf);

    let read = match framed.try_next() {
        Ok(ReadState::Frame(data)) => data,
        _ => panic!("expected a frame"),
    };
    assert_eq!(&read[..], &expected[..]);

    // The source is exhausted and nothing is left over: a clean end.
    assert!(matches!(framed.try_next(), Ok(ReadState::NeedRead)));
    assert!(framed.finish().is_ok());
}
