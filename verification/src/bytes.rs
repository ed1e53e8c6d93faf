use vstd::prelude::*;

verus! {

/// The value of a 4-byte big-endian integer.
pub open spec fn be32(s: Seq<u8>) -> int
    recommends
        s.len() == 4,
{
    (s[0] as int) * 0x100_0000 + (s[1] as int) * 0x1_0000 + (s[2] as int) * 0x100 + (s[3] as int)
}

/// The 4 big-endian bytes of a 32-bit integer.
pub open spec fn u32_be_bytes(v: u32) -> Seq<u8> {
    seq![
        ((v >> 24u32) & 0xff) as u8,
        ((v >> 16u32) & 0xff) as u8,
        ((v >> 8u32) & 0xff) as u8,
        (v & 0xff) as u8,
    ]
}

pub proof fn lemma_be32_roundtrip(v: u32)
    ensures
        be32(u32_be_bytes(v)) == v as int,
{
    assert(((v >> 24u32) & 0xff) * 0x100_0000 + ((v >> 16u32) & 0xff) * 0x1_0000 + ((v >> 8u32)
        & 0xff) * 0x100 + (v & 0xff) == v) by (bit_vector);
    assert((v >> 24u32) & 0xff < 0x100) by (bit_vector);
    assert((v >> 16u32) & 0xff < 0x100) by (bit_vector);
    assert((v >> 8u32) & 0xff < 0x100) by (bit_vector);
    assert(v & 0xff < 0x100) by (bit_vector);
}

/// Read the big-endian `u32` at `pos`.
pub fn read_u32_be(data: &[u8], pos: usize) -> (r: u32)
    requires
        pos + 4 <= data@.len(),
    ensures
        r as int == be32(data@.subrange(pos as int, pos as int + 4)),
{
    let b0 = data[pos] as u32;
    let b1 = data[pos + 1] as u32;
    let b2 = data[pos + 2] as u32;
    let b3 = data[pos + 3] as u32;
    b0 * 0x100_0000 + b1 * 0x1_0000 + b2 * 0x100 + b3
}

/// Append the 4 big-endian bytes of `v` to `out`.
pub fn write_u32_be(out: &mut Vec<u8>, v: u32)
    ensures
        final(out)@ == old(out)@ + u32_be_bytes(v),
{
    proof {
        assert((v >> 24u32) & 0xff < 0x100) by (bit_vector);
        assert((v >> 16u32) & 0xff < 0x100) by (bit_vector);
        assert((v >> 8u32) & 0xff < 0x100) by (bit_vector);
        assert(v & 0xff < 0x100) by (bit_vector);
    }
    out.push(((v >> 24u32) & 0xff) as u8);
    out.push(((v >> 16u32) & 0xff) as u8);
    out.push(((v >> 8u32) & 0xff) as u8);
    out.push((v & 0xff) as u8);
    proof {
        assert(out@ =~= old(out)@ + u32_be_bytes(v));
    }
}

/// The fixed 8-byte PNG magic that every input stream must begin with.
pub open spec fn png_sig() -> Seq<u8> {
    seq![0x89u8, 0x50u8, 0x4eu8, 0x47u8, 0x0du8, 0x0au8, 0x1au8, 0x0au8]
}

/// Whether `s` begins with the 8-byte PNG magic.
pub open spec fn has_png_sig(s: Seq<u8>) -> bool {
    &&& s.len() >= 8
    &&& s[0] == 0x89u8
    &&& s[1] == 0x50u8
    &&& s[2] == 0x4eu8
    &&& s[3] == 0x47u8
    &&& s[4] == 0x0du8
    &&& s[5] == 0x0au8
    &&& s[6] == 0x1au8
    &&& s[7] == 0x0au8
}

/// Append the 8-byte PNG magic to `out`.
pub fn write_signature(out: &mut Vec<u8>)
    ensures
        final(out)@ == old(out)@ + png_sig(),
{
    out.push(0x89);
    out.push(0x50);
    out.push(0x4e);
    out.push(0x47);
    out.push(0x0d);
    out.push(0x0a);
    out.push(0x1a);
    out.push(0x0a);
    proof {
        assert(out@ =~= old(out)@ + png_sig());
    }
}

} // verus!
