use framed_codec::{BytePool, FramedRead, LinesCodec, ReadState};

fn next_line(framed: &mut FramedRead<(), LinesCodec>) -> Result<Option<String>, ()> {
    loop {
        match framed.try_next() {
            Ok(ReadState::Frame(line)) => return Ok(Some(line)),
            Ok(ReadState::NeedRead) => {
                // The source is exhausted in these tests once a read is asked for.
                return match framed.finish() {
                    Ok(()) => Ok(None),
                    Err(_) => Err(()),
                };
            }
            Err(_) => return Err(()),
        }
    }
}

#[test]
fn it_works() {
    let buf = "Hello\nWorld\nError".to_owned();

    let pool = BytePool::new();
    let mut framed = FramedRead::new((), LinesCodec {}, &pool);
    framed.feed(buf.as_bytes());

    let next = next_line(&mut framed).unwrap().unwrap();
    assert_eq!(next, "Hello\n");
    let next = next_line(&mut framed).unwrap().unwrap();
    assert_eq!(next, "World\n");

    assert!(next_line(&mut framed).is_err());
}

#[test]
fn invalid_text_is_a_decode_error() {
    let pool = BytePool::new();
    let mut framed = FramedRead::new((), LinesCodec {}, &pool);
    // A newline is present, but the delimited bytes are not valid UTF-8.
    framed.feed(&[0x68, 0x69, 0xFF, 0x0A]);
    assert!(framed.try_next().is_err());
}
