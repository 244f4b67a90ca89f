pub mod block;
pub mod codec;
pub mod decoder;
pub mod encoder;
pub mod framed;
pub mod framed_read;
pub mod framed_write;
pub mod pool;

pub use block::Block;
pub use codec::bytes::BytesCodec;
pub use codec::length::LengthCodec;
pub use codec::lines::LinesCodec;
pub use decoder::DecodeResult;
pub use decoder::Decoder;
pub use decoder::StableDecoder;
pub use encoder::Encoder;
pub use framed::Fuse;
pub use framed_read::decode_all;
pub use framed_read::framed_read_2;
pub use framed_read::FramedRead;
pub use framed_read::FramedRead2;
pub use framed_read::ReadState;
pub use framed_read::StreamError;
pub use framed_read::TruncatedStream;
pub use framed_write::framed_write_2;
pub use framed_write::FramedWrite2;
pub use pool::BytePool;
