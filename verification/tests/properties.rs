use framed_codec::{
    decode_all, framed_read_2, framed_write_2, Block, BytePool, DecodeResult, Decoder,
    Encoder, LengthCodec, LinesCodec, ReadState, StreamError,
};

fn length_round_trip(len: usize) {
    let payload: Vec<u8> = (0..len).map(|i| (i % 251) as u8).collect();
    let mut wire: Vec<u8> = Vec::new();
    LengthCodec.encode(payload.clone(), &mut wire).unwrap();
    assert_eq!(wire.len(), 8 + len);

    let pool = BytePool::new();
    let frames = decode_all(LengthCodec, &pool, &wire, 4096).unwrap();
    assert_eq!(frames.len(), 1);
    assert_eq!(frames[0], payload);
}

#[test]
fn length_codec_round_trips_across_growth() {
    // 8191 and 8192 straddle the initial block capacity; the last length
    // forces repeated growth.
    for len in [0usize, 1, 8191, 8192, 1_048_576] {
        length_round_trip(len);
    }
}

#[test]
fn length_codec_header_is_big_endian() {
    let mut wire: Vec<u8> = Vec::new();
    LengthCodec.encode(vec![9, 8, 7], &mut wire).unwrap();
    assert_eq!(wire, vec![0, 0, 0, 0, 0, 0, 0, 3, 9, 8, 7]);
}

#[test]
fn length_codec_splits_adjacent_frames() {
    let mut wire: Vec<u8> = Vec::new();
    LengthCodec.encode(vec![1, 2], &mut wire).unwrap();
    LengthCodec.encode(vec![], &mut wire).unwrap();
    LengthCodec.encode(vec![3], &mut wire).unwrap();

    let pool = BytePool::new();
    // Chunk size 1: every frame arrives over many partial reads.
    let frames = decode_all(LengthCodec, &pool, &wire, 1).unwrap();
    assert_eq!(frames.len(), 3);
    assert_eq!(frames[0], vec![1, 2]);
    assert_eq!(frames[1], Vec::<u8>::new());
    assert_eq!(frames[2], vec![3]);
}

#[test]
fn line_splitting_with_trailing_partial_data() {
    let pool = BytePool::new();
    let input = "Hello\nWorld\nError";
    let r = decode_all(LinesCodec {}, &pool, input.as_bytes(), 4);
    // The leftover "Error" is never delimited: a truncated stream.
    assert!(matches!(r, Err(StreamError::Truncated)));

    let clean = decode_all(LinesCodec {}, &pool, b"Hello\nWorld\n", 4).unwrap();
    assert_eq!(clean, vec!["Hello\n".to_owned(), "World\n".to_owned()]);
}

#[test]
fn truncated_header_is_a_truncated_stream() {
    let pool = BytePool::new();
    // Five bytes can never complete an eight-byte length header.
    let r = decode_all(LengthCodec, &pool, &[0, 0, 0, 0, 0], 2);
    assert!(matches!(r, Err(StreamError::Truncated)));
}

#[test]
fn invalid_lines_are_a_decode_error() {
    let pool = BytePool::new();
    let r = decode_all(LinesCodec {}, &pool, &[0xC0, 0x0A], 2);
    assert!(matches!(r, Err(StreamError::Decode(_))));
}

#[test]
fn incomplete_decode_is_idempotent() {
    let pool = BytePool::new();
    // A partial length header: no frame can be decoded from it.
    let mut block = Block::with_capacity(&pool, 16);
    block.append(&[0, 0, 0]);
    let mut codec = LengthCodec;
    for _ in 0..3 {
        block = match codec.decode(block) {
            Ok(DecodeResult::Incomplete(b)) => b,
            _ => panic!("expected an incomplete decode"),
        };
        // Byte for byte identical contents after every attempt.
        assert_eq!(block.valid(), &[0u8, 0, 0][..]);
    }
}

#[test]
fn engine_without_input_ends_cleanly() {
    let pool = BytePool::new();
    let frames = decode_all(LinesCodec {}, &pool, b"", 1).unwrap();
    assert_eq!(frames.len(), 0);

    let mut engine = framed_read_2(LinesCodec {}, &pool);
    assert!(matches!(engine.try_next(), Ok(ReadState::NeedRead)));
    assert!(engine.finish().is_ok());
    let _codec = engine.release();
}

#[test]
fn write_engine_keeps_frame_order_and_drains_in_order() {
    let mut writer = framed_write_2(LinesCodec {});
    writer.send("ab\n".to_owned()).unwrap();
    writer.send("c\n".to_owned()).unwrap();
    assert_eq!(writer.pending(), &b"ab\nc\n"[..]);

    // The transport accepts two bytes; the rest stay pending, in order.
    writer.consume(2);
    assert_eq!(writer.pending(), &b"\nc\n"[..]);
    writer.consume(3);
    assert_eq!(writer.pending(), &b""[..]);
}

#[test]
fn write_then_read_round_trips_lines() {
    let mut writer = framed_write_2(LinesCodec {});
    writer.send("over\n".to_owned()).unwrap();
    writer.send("and out\n".to_owned()).unwrap();

    let pool = BytePool::new();
    let frames = decode_all(LinesCodec {}, &pool, writer.pending(), 3).unwrap();
    assert_eq!(frames, vec!["over\n".to_owned(), "and out\n".to_owned()]);
}

#[test]
fn block_advance_keeps_the_remainder() {
    let pool = BytePool::new();
    let mut block = Block::with_capacity(&pool, 4);
    block.append(&[1, 2, 3, 4, 5, 6]);
    assert_eq!(block.valid(), &[1u8, 2, 3, 4, 5, 6][..]);
    block.advance(2);
    assert_eq!(block.valid(), &[3u8, 4, 5, 6][..]);
    block.advance(4);
    assert_eq!(block.valid(), &[][..] as &[u8]);
}
