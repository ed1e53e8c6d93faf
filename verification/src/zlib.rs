use vstd::prelude::*;

verus! {

/// What `miniz_oxide`'s zlib compressor returns for the given bytes at the
/// given level: a function of its two arguments alone.
pub uninterp spec fn deflate_of(s: Seq<u8>, level: u8) -> Seq<u8>;

/// What `miniz_oxide`'s zlib decompressor returns: `Some` decompressed bytes,
/// or `None` where the input is not a valid zlib stream. A function of the
/// input bytes alone.
pub uninterp spec fn inflate_of(s: Seq<u8>) -> Option<Seq<u8>>;

#[verifier::external_type_specification]
#[verifier::external_body]
pub struct ExDecompressError(miniz_oxide::inflate::DecompressError);

/// Relies on `miniz_oxide::deflate::compress_to_vec_zlib` (levels 0..=10):
/// the result is a zlib stream holding exactly the input bytes, so that
/// `decompress_to_vec_zlib` gives those bytes back (the crate documents the
/// pair as compression and decompression of the same format, and its own
/// round-trip tests exercise it).
#[verifier::external_body]
pub(crate) fn deflate_zlib(data: &[u8], level: u8) -> (r: Vec<u8>)
    requires
        level <= 10,
    ensures
        r@ == deflate_of(data@, level),
        inflate_of(r@) == Some(data@),
{
    miniz_oxide::deflate::compress_to_vec_zlib(data, level)
}

/// Relies on `miniz_oxide::inflate::decompress_to_vec_zlib`: decompresses a
/// zlib-wrapped deflate stream in one call, a pure function of the input
/// bytes; it fails exactly where the input is not such a stream.
#[verifier::external_body]
pub(crate) fn inflate_zlib(data: &[u8]) -> (r: Result<
    Vec<u8>,
    miniz_oxide::inflate::DecompressError,
>)
    ensures
        match r {
            Ok(v) => inflate_of(data@) == Some(v@),
            Err(_) => inflate_of(data@) is None,
        },
{
    miniz_oxide::inflate::decompress_to_vec_zlib(data)
}

} // verus!
