//! A fixed-capacity bitmap over 64-bit words, with single-bit set, clear and
//! test, and a search for the first free bit past an optional reserved prefix.

pub mod bitmap;
pub mod laws;
pub mod pow2;
pub mod word_bits;

pub use bitmap::Bitmap;
