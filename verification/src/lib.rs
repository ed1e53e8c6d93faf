//! A minimal PNG container codec and a scanline-concatenation engine.
//!
//! Given a sequence of single-IDAT PNG byte streams of equal width, the
//! engine stacks their decompressed scanlines vertically and re-frames the
//! result as one PNG, re-compressed at a caller-chosen level.

pub mod bytes;
pub mod chunk;
pub mod crc;
pub mod engine;
pub mod error;
pub mod laws;
pub mod zlib;
