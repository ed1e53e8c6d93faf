use vstd::prelude::*;

use crate::bytes::{be32, lemma_be32_roundtrip, read_u32_be, u32_be_bytes, write_u32_be};
use crate::crc::{crc32, crc32_of};
use crate::error::PngError;

verus! {

/// The closed set of chunk types the tool understands. Any other 4-byte tag
/// is an unsupported-type condition, not a variant.
#[derive(Debug, Clone, Copy, PartialEq, Eq, Structural)]
pub enum PngChunkKind {
    Ihdr,
    Idat,
    Iend,
}

/// The fixed 4-byte ASCII tag of a chunk kind.
pub open spec fn tag_of(kind: PngChunkKind) -> Seq<u8> {
    match kind {
        PngChunkKind::Ihdr => seq![0x49u8, 0x48u8, 0x44u8, 0x52u8],
        PngChunkKind::Idat => seq![0x49u8, 0x44u8, 0x41u8, 0x54u8],
        PngChunkKind::Iend => seq![0x49u8, 0x45u8, 0x4eu8, 0x44u8],
    }
}

/// The kind a 4-byte type code denotes, if any.
pub open spec fn kind_of_code(b0: u8, b1: u8, b2: u8, b3: u8) -> Option<PngChunkKind> {
    if b0 == 0x49u8 && b1 == 0x48u8 && b2 == 0x44u8 && b3 == 0x52u8 {
        Some(PngChunkKind::Ihdr)
    } else if b0 == 0x49u8 && b1 == 0x44u8 && b2 == 0x41u8 && b3 == 0x54u8 {
        Some(PngChunkKind::Idat)
    } else if b0 == 0x49u8 && b1 == 0x45u8 && b2 == 0x4eu8 && b3 == 0x44u8 {
        Some(PngChunkKind::Iend)
    } else {
        None
    }
}

impl PngChunkKind {
    /// The 4-byte type code written for this kind.
    pub fn tag(self) -> (t: [u8; 4])
        ensures
            t@ == tag_of(self),
            kind_of_code(t[0], t[1], t[2], t[3]) == Some(self),
    {
        let t: [u8; 4] = match self {
            PngChunkKind::Ihdr => [0x49, 0x48, 0x44, 0x52],
            PngChunkKind::Idat => [0x49, 0x44, 0x41, 0x54],
            PngChunkKind::Iend => [0x49, 0x45, 0x4e, 0x44],
        };
        proof {
            assert(t@ =~= tag_of(self));
        }
        t
    }

    /// Classify a 4-byte type code, rejecting anything outside the closed set.
    pub fn try_from(code: &[u8; 4]) -> (r: Result<PngChunkKind, PngError>)
        ensures
            match r {
                Ok(kind) => kind_of_code(code[0], code[1], code[2], code[3]) == Some(kind),
                Err(e) => kind_of_code(code[0], code[1], code[2], code[3]) is None && e
                    == PngError::UnsupportedChunkType(code[0], code[1], code[2], code[3]),
            },
    {
        let (b0, b1, b2, b3) = (code[0], code[1], code[2], code[3]);
        if b0 == 0x49 && b1 == 0x48 && b2 == 0x44 && b3 == 0x52 {
            Ok(PngChunkKind::Ihdr)
        } else if b0 == 0x49 && b1 == 0x44 && b2 == 0x41 && b3 == 0x54 {
            Ok(PngChunkKind::Idat)
        } else if b0 == 0x49 && b1 == 0x45 && b2 == 0x4e && b3 == 0x44 {
            Ok(PngChunkKind::Iend)
        } else {
            Err(PngError::UnsupportedChunkType(b0, b1, b2, b3))
        }
    }
}

/// One PNG chunk: its kind and its owned raw payload.
#[derive(Debug, PartialEq, Eq)]
pub struct PngChunk {
    pub kind: PngChunkKind,
    pub data: Vec<u8>,
}

/// What decoding a chunk at `pos` of `s` yields: the kind, the payload, and
/// the position just past the trailing CRC. The CRC is consumed but never
/// verified; an IHDR tag demands a declared length of exactly 13, before any
/// payload byte is looked at.
pub open spec fn spec_chunk(s: Seq<u8>, pos: int) -> Result<(PngChunkKind, Seq<u8>, int), PngError> {
    if pos < 0 || pos + 8 > s.len() {
        Err(PngError::Truncated)
    } else {
        let len = be32(s.subrange(pos, pos + 4));
        match kind_of_code(s[pos + 4], s[pos + 5], s[pos + 6], s[pos + 7]) {
            None => Err(PngError::UnsupportedChunkType(s[pos + 4], s[pos + 5], s[pos + 6], s[pos + 7])),
            Some(kind) => {
                if kind == PngChunkKind::Ihdr && len != 13 {
                    Err(PngError::InvalidIhdrLength)
                } else if pos + 12 + len > s.len() {
                    Err(PngError::Truncated)
                } else {
                    Ok((kind, s.subrange(pos + 8, pos + 8 + len), pos + 12 + len))
                }
            },
        }
    }
}

/// The full wire form of a chunk: big-endian length, 4-byte tag, payload,
/// then the big-endian CRC-32 of tag and payload.
pub open spec fn chunk_model(kind: PngChunkKind, data: Seq<u8>) -> Seq<u8> {
    u32_be_bytes(data.len() as u32) + tag_of(kind) + data + u32_be_bytes(
        crc32_of(tag_of(kind) + data),
    )
}

impl PngChunk {
    /// Decode one chunk of `data` beginning at `pos`.
    pub fn new(data: &[u8], pos: usize) -> (r: Result<(PngChunk, usize), PngError>)
        ensures
            match r {
                Ok((c, end)) => spec_chunk(data@, pos as int) == Ok::<_, PngError>(
                    (c.kind, c.data@, end as int),
                ) && c.data@.len() <= u32::MAX && end <= data@.len() && (c.kind
                    == PngChunkKind::Ihdr ==> c.data@.len() == 13),
                Err(e) => spec_chunk(data@, pos as int) == Err::<(PngChunkKind, Seq<u8>, int), _>(e),
            },
    {
        if data.len() < 8 || pos > data.len() - 8 {
            return Err(PngError::Truncated);
        }
        let length = read_u32_be(data, pos) as usize;
        let code: [u8; 4] = [data[pos + 4], data[pos + 5], data[pos + 6], data[pos + 7]];
        let kind = match PngChunkKind::try_from(&code) {
            Ok(kind) => kind,
            Err(e) => {
                return Err(e);
            },
        };
        if kind == PngChunkKind::Ihdr && length != 13 {
            return Err(PngError::InvalidIhdrLength);
        }
        let rest = data.len() - (pos + 8);
        if length > rest || rest - length < 4 {
            return Err(PngError::Truncated);
        }
        // One allocation of the exact payload size, filled byte by byte.
        let mut payload: Vec<u8> = Vec::with_capacity(length);
        let mut i: usize = 0;
        while i < length
            invariant
                i <= length,
                pos + 12 + length <= data@.len(),
                data@.len() <= usize::MAX,
                payload@ == data@.subrange(pos as int + 8, pos as int + 8 + i as int),
            decreases length - i,
        {
            payload.push(data[pos + 8 + i]);
            proof {
                assert(data@.subrange(pos as int + 8, pos as int + 8 + i as int + 1)
                    =~= data@.subrange(pos as int + 8, pos as int + 8 + i as int).push(
                    data@[pos as int + 8 + i as int],
                ));
            }
            i = i + 1;
        }
        Ok((PngChunk { kind, data: payload }, pos + 12 + length))
    }

    /// Encode this chunk, appending its wire form to `out`. The caller must
    /// guarantee the payload length fits the 4-byte length field.
    pub fn write(&self, out: &mut Vec<u8>)
        requires
            self.data@.len() <= u32::MAX,
        ensures
            final(out)@ == old(out)@ + chunk_model(self.kind, self.data@),
    {
        let tag = self.kind.tag();
        let mut tagged: Vec<u8> = Vec::new();
        tagged.push(tag[0]);
        tagged.push(tag[1]);
        tagged.push(tag[2]);
        tagged.push(tag[3]);
        proof {
            assert(tagged@ =~= tag_of(self.kind));
        }
        let mut i: usize = 0;
        while i < self.data.len()
            invariant
                i <= self.data@.len(),
                tagged@ == tag_of(self.kind) + self.data@.subrange(0, i as int),
            decreases self.data@.len() - i,
        {
            tagged.push(self.data[i]);
            proof {
                assert(tagged@ =~= tag_of(self.kind) + self.data@.subrange(0, i as int + 1));
            }
            i = i + 1;
        }
        proof {
            assert(tagged@ =~= tag_of(self.kind) + self.data@);
        }
        let checksum = crc32(tagged.as_slice());
        write_u32_be(out, self.data.len() as u32);
        out.append(&mut tagged);
        write_u32_be(out, checksum);
        proof {
            assert(out@ =~= old(out)@ + chunk_model(self.kind, self.data@));
        }
    }

    /// The zero-length terminal IEND chunk, constructible without reading.
    pub fn iend() -> (c: PngChunk)
        ensures
            c.kind == PngChunkKind::Iend,
            c.data@ == Seq::<u8>::empty(),
    {
        PngChunk { kind: PngChunkKind::Iend, data: Vec::new() }
    }
}

/// The fixed 13-byte IHDR record: all integers big-endian, no padding, no
/// validation of field values.
#[derive(Debug, Clone, Copy, PartialEq, Eq, Structural)]
pub struct IhdrData {
    pub width: u32,
    pub height: u32,
    pub bit_depth: u8,
    pub color_type: u8,
    pub compression: u8,
    pub filter: u8,
    pub interlace: u8,
}

/// The IHDR record held in the first 13 bytes of `d`.
pub open spec fn ihdr_of(d: Seq<u8>) -> IhdrData
    recommends
        d.len() >= 13,
{
    IhdrData {
        width: be32(d.subrange(0, 4)) as u32,
        height: be32(d.subrange(4, 8)) as u32,
        bit_depth: d[8],
        color_type: d[9],
        compression: d[10],
        filter: d[11],
        interlace: d[12],
    }
}

/// The 13-byte encoding of an IHDR record, fields in order.
pub open spec fn ihdr_bytes(h: IhdrData) -> Seq<u8> {
    u32_be_bytes(h.width) + u32_be_bytes(h.height) + seq![
        h.bit_depth,
        h.color_type,
        h.compression,
        h.filter,
        h.interlace,
    ]
}

/// What decoding an IHDR record out of a chunk yields.
pub open spec fn spec_ihdr_from(kind: PngChunkKind, d: Seq<u8>) -> Result<IhdrData, PngError> {
    if kind != PngChunkKind::Ihdr {
        Err(PngError::NotIhdr)
    } else if d.len() < 13 {
        Err(PngError::Truncated)
    } else {
        Ok(ihdr_of(d))
    }
}

impl IhdrData {
    /// Decode the IHDR record out of `chunk`.
    pub fn try_from(chunk: &PngChunk) -> (r: Result<IhdrData, PngError>)
        ensures
            r == spec_ihdr_from(chunk.kind, chunk.data@),
    {
        if !(chunk.kind == PngChunkKind::Ihdr) {
            return Err(PngError::NotIhdr);
        }
        if chunk.data.len() < 13 {
            return Err(PngError::Truncated);
        }
        let d = chunk.data.as_slice();
        let width = read_u32_be(d, 0);
        let height = read_u32_be(d, 4);
        let h = IhdrData {
            width,
            height,
            bit_depth: d[8],
            color_type: d[9],
            compression: d[10],
            filter: d[11],
            interlace: d[12],
        };
        proof {
            assert(0 <= be32(d@.subrange(0, 4)) <= u32::MAX);
            assert(0 <= be32(d@.subrange(4, 8)) <= u32::MAX);
        }
        Ok(h)
    }
}

impl PngChunk {
    /// Encode an IHDR record as a fresh 13-byte IHDR chunk.
    pub fn from(h: IhdrData) -> (c: PngChunk)
        ensures
            c.kind == PngChunkKind::Ihdr,
            c.data@ == ihdr_bytes(h),
            c.data@.len() == 13,
    {
        let mut data: Vec<u8> = Vec::with_capacity(13);
        write_u32_be(&mut data, h.width);
        write_u32_be(&mut data, h.height);
        data.push(h.bit_depth);
        data.push(h.color_type);
        data.push(h.compression);
        data.push(h.filter);
        data.push(h.interlace);
        proof {
            assert(data@ =~= ihdr_bytes(h));
        }
        PngChunk { kind: PngChunkKind::Ihdr, data }
    }
}

/// Decoding the 13 bytes an IHDR record was encoded to gives the record back.
pub proof fn lemma_ihdr_roundtrip(h: IhdrData)
    ensures
        ihdr_bytes(h).len() == 13,
        ihdr_of(ihdr_bytes(h)) == h,
{
    lemma_be32_roundtrip(h.width);
    lemma_be32_roundtrip(h.height);
    assert(ihdr_bytes(h).subrange(0, 4) =~= u32_be_bytes(h.width));
    assert(ihdr_bytes(h).subrange(4, 8) =~= u32_be_bytes(h.height));
}

/// A chunk's wire form decodes back to the chunk, wherever it stands in a
/// stream.
pub proof fn lemma_chunk_roundtrip(prefix: Seq<u8>, kind: PngChunkKind, data: Seq<u8>, suffix: Seq<u8>)
    requires
        data.len() <= u32::MAX,
        kind == PngChunkKind::Ihdr ==> data.len() == 13,
    ensures
        spec_chunk(prefix + chunk_model(kind, data) + suffix, prefix.len() as int) == Ok::<
            _,
            PngError,
        >((kind, data, prefix.len() as int + 12 + data.len() as int)),
{
    let s = prefix + chunk_model(kind, data) + suffix;
    let pos = prefix.len() as int;
    let model = chunk_model(kind, data);
    lemma_be32_roundtrip(data.len() as u32);
    assert(model.len() == 12 + data.len());
    assert forall|i: int| 0 <= i < model.len() implies s[pos + i] == model[i] by {}
    assert(s.subrange(pos, pos + 4) =~= u32_be_bytes(data.len() as u32));
    assert(be32(s.subrange(pos, pos + 4)) == data.len());
    assert(s[pos + 4] == tag_of(kind)[0]);
    assert(s[pos + 5] == tag_of(kind)[1]);
    assert(s[pos + 6] == tag_of(kind)[2]);
    assert(s[pos + 7] == tag_of(kind)[3]);
    assert(kind_of_code(s[pos + 4], s[pos + 5], s[pos + 6], s[pos + 7]) == Some(kind));
    assert(s.subrange(pos + 8, pos + 8 + data.len()) =~= data);
}

} // verus!
