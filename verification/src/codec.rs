pub mod bytes;
pub mod length;
pub mod lines;
