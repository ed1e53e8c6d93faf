use vstd::prelude::*;

use crate::bytes::{has_png_sig, png_sig, write_signature};
use crate::chunk::{chunk_model, ihdr_bytes, ihdr_of, spec_chunk, IhdrData, PngChunk, PngChunkKind};
use crate::error::{CatError, PngError};
use crate::zlib::{deflate_of, deflate_zlib, inflate_of, inflate_zlib};

verus! {

/// The byte sequences a vector of input buffers holds.
pub open spec fn seq_views(v: Seq<Vec<u8>>) -> Seq<Seq<u8>> {
    v.map_values(|b: Vec<u8>| b@)
}

/// The first steps on one input: the 8-byte signature, then the first
/// chunk, which must be IHDR. Yields the record and the position after the
/// chunk.
pub open spec fn parse_header(s: Seq<u8>) -> Result<(IhdrData, int), PngError> {
    if !has_png_sig(s) {
        Err(PngError::InvalidSignature)
    } else {
        match spec_chunk(s, 8) {
            Err(e) => Err(e),
            Ok((kind, d, end)) => if kind != PngChunkKind::Ihdr {
                Err(PngError::NotIhdr)
            } else {
                Ok((ihdr_of(d), end))
            },
        }
    }
}

/// The next step on one input: the chunk at `pos`, inflated. The minimal
/// path takes this chunk for the IDAT without examining its tag further.
pub open spec fn parse_body(s: Seq<u8>, pos: int) -> Result<Seq<u8>, PngError> {
    match spec_chunk(s, pos) {
        Err(e) => Err(e),
        Ok((kind, d, end)) => match inflate_of(d) {
            Some(b) => Ok(b),
            None => Err(PngError::DecompressFailure),
        },
    }
}

/// The left fold from input `i` on: `first` is the seeding record, `hsum`
/// the height summed so far, `buf` the scanline bytes accumulated so far.
/// An error carries the index of the offending input.
pub open spec fn cat_from(
    inputs: Seq<Seq<u8>>,
    i: int,
    first: IhdrData,
    hsum: int,
    buf: Seq<u8>,
) -> Result<(IhdrData, int, Seq<u8>), (int, PngError)>
    decreases inputs.len() - i,
{
    if i < 0 || i >= inputs.len() {
        Ok((first, hsum, buf))
    } else {
        match parse_header(inputs[i]) {
            Err(e) => Err((i, e)),
            Ok((h, pos)) => if h.width != first.width {
                Err((i, PngError::UnequalWidth))
            } else {
                match parse_body(inputs[i], pos) {
                    Err(e) => Err((i, e)),
                    Ok(b) => cat_from(inputs, i + 1, first, hsum + h.height, buf + b),
                }
            },
        }
    }
}

/// The whole run: the first input seeds the record (no width test against
/// itself), the rest fold in behind it.
pub open spec fn cat_model(inputs: Seq<Seq<u8>>) -> Result<
    (IhdrData, int, Seq<u8>),
    (int, PngError),
>
    recommends
        inputs.len() >= 1,
{
    match parse_header(inputs[0]) {
        Err(e) => Err((0, e)),
        Ok((h, pos)) => match parse_body(inputs[0], pos) {
            Err(e) => Err((0, e)),
            Ok(b) => cat_from(inputs, 1, h, h.height as int, b),
        },
    }
}

/// Whether every height addition the fold performs from input `i` on stays
/// within `u32`. Where an input fails, the fold stops, so nothing is
/// demanded past it.
pub open spec fn heights_fit_from(inputs: Seq<Seq<u8>>, i: int, width: u32, hsum: int) -> bool
    decreases inputs.len() - i,
{
    if i < 0 || i >= inputs.len() {
        true
    } else {
        match parse_header(inputs[i]) {
            Err(_) => true,
            Ok((h, pos)) => if h.width != width {
                true
            } else {
                match parse_body(inputs[i], pos) {
                    Err(_) => true,
                    Ok(_) => hsum + h.height <= u32::MAX && heights_fit_from(
                        inputs,
                        i + 1,
                        width,
                        hsum + h.height,
                    ),
                }
            },
        }
    }
}

/// Whether the run keeps the summed height within `u32` for as long as it
/// goes on. `catpng` demands this; `catpng_checked` tests it at run time.
pub open spec fn heights_fit(inputs: Seq<Seq<u8>>) -> bool
    recommends
        inputs.len() >= 1,
{
    match parse_header(inputs[0]) {
        Err(_) => true,
        Ok((h, pos)) => match parse_body(inputs[0], pos) {
            Err(_) => true,
            Ok(_) => heights_fit_from(inputs, 1, h.width, h.height as int),
        },
    }
}

/// Read an input's signature and IHDR chunk.
fn read_header(data: &[u8]) -> (r: Result<(IhdrData, usize), PngError>)
    ensures
        match r {
            Ok(p) => parse_header(data@) == Ok::<_, PngError>((p.0, p.1 as int)) && p.1
                <= data@.len(),
            Err(e) => parse_header(data@) == Err::<(IhdrData, int), _>(e),
        },
{
    if data.len() < 8 {
        return Err(PngError::InvalidSignature);
    }
    if !(data[0] == 0x89 && data[1] == 0x50 && data[2] == 0x4e && data[3] == 0x47 && data[4] == 0x0d
        && data[5] == 0x0a && data[6] == 0x1a && data[7] == 0x0a) {
        return Err(PngError::InvalidSignature);
    }
    let (chunk, end) = match PngChunk::new(data, 8) {
        Ok(p) => p,
        Err(e) => {
            return Err(e);
        },
    };
    match IhdrData::try_from(&chunk) {
        Ok(h) => Ok((h, end)),
        Err(e) => Err(e),
    }
}

/// Read the chunk after the header and inflate its payload.
fn read_body(data: &[u8], pos: usize) -> (r: Result<Vec<u8>, PngError>)
    ensures
        match r {
            Ok(b) => parse_body(data@, pos as int) == Ok::<_, PngError>(b@),
            Err(e) => parse_body(data@, pos as int) == Err::<Seq<u8>, _>(e),
        },
{
    let (chunk, _end) = match PngChunk::new(data, pos) {
        Ok(p) => p,
        Err(e) => {
            return Err(e);
        },
    };
    match inflate_zlib(chunk.data.as_slice()) {
        Ok(b) => Ok(b),
        Err(_) => Err(PngError::DecompressFailure),
    }
}

/// Fold the inputs, in order, into one record and one scanline buffer, and
/// re-compress the buffer at `level` as the output IDAT payload.
///
/// The first input seeds the record; every further input must match its
/// width and adds its height. On the first failing input the run stops with
/// that input's index and error, and there is no output.
pub fn catpng(pngs: &Vec<Vec<u8>>, level: u8) -> (r: Result<(IhdrData, PngChunk), CatError>)
    requires
        pngs@.len() >= 1,
        level <= 10,
        heights_fit(seq_views(pngs@)),
    ensures
        ({
            let m = cat_model(seq_views(pngs@));
            match r {
                Ok(p) => m matches Ok(t) && p.0 == (IhdrData { height: t.1 as u32, ..t.0 })
                    && p.1.kind == PngChunkKind::Idat && p.1.data@ == deflate_of(t.2, level)
                    && inflate_of(p.1.data@) == Some(t.2),
                Err(ce) => m == Err::<(IhdrData, int, Seq<u8>), _>((ce.index as int, ce.error)),
            }
        }),
{
    let ghost views = seq_views(pngs@);
    proof {
        assert(views[0] == pngs@[0]@);
    }
    let (h0, pos0) = match read_header(pngs[0].as_slice()) {
        Ok(p) => p,
        Err(e) => {
            return Err(CatError { index: 0, error: e });
        },
    };
    let mut buf: Vec<u8> = match read_body(pngs[0].as_slice(), pos0) {
        Ok(b) => b,
        Err(e) => {
            return Err(CatError { index: 0, error: e });
        },
    };
    let mut saved = h0;
    let ghost first = h0;
    let ghost mut hsum: int = h0.height as int;
    let mut k: usize = 1;
    while k < pngs.len()
        invariant
            1 <= k <= pngs@.len(),
            level <= 10,
            views == seq_views(pngs@),
            heights_fit_from(views, k as int, first.width, hsum),
            cat_model(views) == cat_from(views, k as int, first, hsum, buf@),
            saved == (IhdrData { height: hsum as u32, ..first }),
            0 <= hsum <= u32::MAX,
        decreases pngs@.len() - k,
    {
        let s = pngs[k].as_slice();
        proof {
            assert(s@ == views[k as int]);
        }
        let (h, pos) = match read_header(s) {
            Ok(p) => p,
            Err(e) => {
                return Err(CatError { index: k, error: e });
            },
        };
        if h.width != saved.width {
            return Err(CatError { index: k, error: PngError::UnequalWidth });
        }
        let mut b = match read_body(s, pos) {
            Ok(b) => b,
            Err(e) => {
                return Err(CatError { index: k, error: e });
            },
        };
        proof {
            assert(hsum + h.height <= u32::MAX);
        }
        saved.height = saved.height + h.height;
        buf.append(&mut b);
        proof {
            hsum = hsum + h.height as int;
        }
        k = k + 1;
    }
    let data = deflate_zlib(buf.as_slice(), level);
    Ok((saved, PngChunk { kind: PngChunkKind::Idat, data }))
}

/// Decide at run time whether every height addition of the fold fits `u32`.
fn heights_ok(pngs: &Vec<Vec<u8>>) -> (b: bool)
    requires
        pngs@.len() >= 1,
    ensures
        b == heights_fit(seq_views(pngs@)),
{
    let ghost views = seq_views(pngs@);
    proof {
        assert(views[0] == pngs@[0]@);
    }
    let (h0, pos0) = match read_header(pngs[0].as_slice()) {
        Ok(p) => p,
        Err(_) => {
            return true;
        },
    };
    match read_body(pngs[0].as_slice(), pos0) {
        Ok(_) => {},
        Err(_) => {
            return true;
        },
    }
    let width = h0.width;
    let mut total: u32 = h0.height;
    let ghost mut hsum: int = h0.height as int;
    let mut k: usize = 1;
    while k < pngs.len()
        invariant
            1 <= k <= pngs@.len(),
            views == seq_views(pngs@),
            heights_fit(views) == heights_fit_from(views, k as int, width, hsum),
            total as int == hsum,
        decreases pngs@.len() - k,
    {
        let s = pngs[k].as_slice();
        proof {
            assert(s@ == views[k as int]);
        }
        let (h, pos) = match read_header(s) {
            Ok(p) => p,
            Err(_) => {
                return true;
            },
        };
        if h.width != width {
            return true;
        }
        match read_body(s, pos) {
            Ok(_) => {},
            Err(_) => {
                return true;
            },
        }
        if h.height > u32::MAX - total {
            return false;
        }
        total = total + h.height;
        proof {
            hsum = hsum + h.height as int;
        }
        k = k + 1;
    }
    true
}

/// Run the concatenation after testing at run time that every height
/// addition stays within `u32`: `None` exactly where one would not.
pub fn catpng_checked(pngs: &Vec<Vec<u8>>, level: u8) -> (r: Option<
    Result<(IhdrData, PngChunk), CatError>,
>)
    requires
        pngs@.len() >= 1,
        level <= 10,
    ensures
        r is Some <==> heights_fit(seq_views(pngs@)),
        ({
            let m = cat_model(seq_views(pngs@));
            match r {
                Some(Ok(p)) => m matches Ok(t) && p.0 == (IhdrData { height: t.1 as u32, ..t.0 })
                    && p.1.kind == PngChunkKind::Idat && p.1.data@ == deflate_of(t.2, level)
                    && inflate_of(p.1.data@) == Some(t.2),
                Some(Err(ce)) => m == Err::<(IhdrData, int, Seq<u8>), _>(
                    (ce.index as int, ce.error),
                ),
                None => true,
            }
        }),
{
    if heights_ok(pngs) {
        Some(catpng(pngs, level))
    } else {
        None
    }
}

/// The full byte stream the tool emits: signature, the IHDR encoding of
/// `h`, the given data chunk, then IEND.
pub open spec fn png_model(h: IhdrData, idat_kind: PngChunkKind, idat_data: Seq<u8>) -> Seq<u8> {
    png_sig() + chunk_model(PngChunkKind::Ihdr, ihdr_bytes(h)) + chunk_model(idat_kind, idat_data)
        + chunk_model(PngChunkKind::Iend, Seq::<u8>::empty())
}

/// Assemble the output PNG from the final record and the IDAT chunk:
/// signature, IHDR, IDAT, IEND, in that fixed order.
pub fn write_png(ihdr: IhdrData, idat: PngChunk) -> (out: Vec<u8>)
    requires
        idat.data@.len() <= u32::MAX,
    ensures
        out@ == png_model(ihdr, idat.kind, idat.data@),
{
    let mut out: Vec<u8> = Vec::new();
    write_signature(&mut out);
    let ihdr_chunk = PngChunk::from(ihdr);
    ihdr_chunk.write(&mut out);
    idat.write(&mut out);
    let iend = PngChunk::iend();
    iend.write(&mut out);
    proof {
        assert(out@ =~= png_model(ihdr, idat.kind, idat.data@));
    }
    out
}

} // verus!
