use vstd::prelude::*;

verus! {

/// The terminal conditions that reading, decoding or concatenating PNG
/// streams can surface. None is retried.
#[derive(Debug, Clone, Copy, PartialEq, Eq)]
pub enum PngError {
    /// Fewer bytes were available than a declared length required.
    Truncated,
    /// A chunk's 4-byte type tag is none of IHDR, IDAT, IEND; carries the tag.
    UnsupportedChunkType(u8, u8, u8, u8),
    /// An IHDR chunk's declared length is not 13.
    InvalidIhdrLength,
    /// The chunk that had to be IHDR carries another type.
    NotIhdr,
    /// The first 8 bytes of an input do not match the PNG magic.
    InvalidSignature,
    /// An input's width differs from the first input's.
    UnequalWidth,
    /// An IDAT payload is not a valid zlib stream.
    DecompressFailure,
}

/// A failure of the concatenation run, annotated with the position of the
/// offending input in the sequence handed in.
#[derive(Debug, Clone, Copy, PartialEq, Eq)]
pub struct CatError {
    pub index: usize,
    pub error: PngError,
}

} // verus!
