use vstd::prelude::*;

verus! {

/// The CRC-32 (ISO-3309, IEEE polynomial) checksum of a byte sequence, as
/// `crc32fast` computes it: a function of the bytes alone.
pub uninterp spec fn crc32_of(s: Seq<u8>) -> u32;

/// Relies on `crc32fast::hash`: the one-shot CRC-32 (IEEE) of the bytes, a
/// pure function of its input, the same on every machine.
#[verifier::external_body]
pub(crate) fn crc32(data: &[u8]) -> (r: u32)
    ensures
        r == crc32_of(data@),
{
    crc32fast::hash(data)
}

} // verus!
