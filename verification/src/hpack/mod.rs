//! HPACK header compression primitives.
pub mod decoder;
pub mod encoder;
pub mod error;
pub mod header;
pub mod huffman;
pub mod huffman_table;
pub mod laws;
pub mod primitive;
pub mod reading;
pub mod table;

pub use self::decoder::Decoder;
pub use self::encoder::Encoder;
pub use self::error::{DecoderError, NeedMore};
pub use self::header::Header;
