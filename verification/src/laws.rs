use vstd::prelude::*;

use crate::bytes::{be32, has_png_sig, png_sig};
use crate::chunk::{
    chunk_model, ihdr_bytes, kind_of_code, lemma_chunk_roundtrip, lemma_ihdr_roundtrip, spec_chunk,
    IhdrData, PngChunkKind,
};
use crate::engine::{
    cat_from, cat_model, heights_fit, heights_fit_from, parse_body, parse_header, png_model,
};
use crate::error::PngError;
use crate::zlib::{deflate_of, inflate_of};

verus! {

/// The inflated IDAT payload of one input, where the input parses at all.
pub open spec fn input_body(s: Seq<u8>) -> Seq<u8> {
    match parse_header(s) {
        Ok((h, pos)) => match parse_body(s, pos) {
            Ok(b) => b,
            Err(_) => Seq::empty(),
        },
        Err(_) => Seq::empty(),
    }
}

/// The concatenation of the inputs' inflated IDAT payloads from `i` on, in
/// input order.
pub open spec fn bodies_from(inputs: Seq<Seq<u8>>, i: int) -> Seq<u8>
    decreases inputs.len() - i,
{
    if i < 0 || i >= inputs.len() {
        Seq::empty()
    } else {
        input_body(inputs[i]) + bodies_from(inputs, i + 1)
    }
}

/// The fold only ever appends: where it succeeds from `i` on, its buffer is
/// what it started with, followed by the remaining inputs' inflated
/// payloads, and the seeding record comes through unchanged.
proof fn lemma_cat_from_buf(inputs: Seq<Seq<u8>>, i: int, first: IhdrData, hsum: int, buf: Seq<u8>)
    requires
        0 <= i <= inputs.len(),
    ensures
        cat_from(inputs, i, first, hsum, buf) matches Ok(t) ==> t.0 == first && t.2 == buf
            + bodies_from(inputs, i),
    decreases inputs.len() - i,
{
    if i >= inputs.len() {
        assert(buf + bodies_from(inputs, i) =~= buf);
    } else {
        match parse_header(inputs[i]) {
            Err(_) => {},
            Ok((h, pos)) => {
                if h.width == first.width {
                    match parse_body(inputs[i], pos) {
                        Err(_) => {},
                        Ok(b) => {
                            lemma_cat_from_buf(inputs, i + 1, first, hsum + h.height, buf + b);
                            assert((buf + b) + bodies_from(inputs, i + 1) =~= buf + (b
                                + bodies_from(inputs, i + 1)));
                        },
                    }
                }
            },
        }
    }
}

/// Scanline concatenation: where the run succeeds, its buffer — the bytes
/// the output IDAT is compressed from — is the byte-wise concatenation of
/// the inputs' inflated IDAT payloads, in input order, and its record is
/// seeded from the first input.
pub proof fn lemma_scanline_concat(inputs: Seq<Seq<u8>>)
    requires
        inputs.len() >= 1,
    ensures
        cat_model(inputs) matches Ok(t) ==> t.2 == bodies_from(inputs, 0),
        cat_model(inputs) matches Ok(t) ==> (parse_header(inputs[0]) matches Ok(ph) && t.0
            == ph.0),
{
    match parse_header(inputs[0]) {
        Err(_) => {},
        Ok((h, pos)) => {
            match parse_body(inputs[0], pos) {
                Err(_) => {},
                Ok(b) => {
                    lemma_cat_from_buf(inputs, 1, h, h.height as int, b);
                    assert(b + bodies_from(inputs, 1) =~= input_body(inputs[0]) + bodies_from(
                        inputs,
                        1,
                    ));
                },
            }
        },
    }
}

/// Height additivity: two inputs of equal width that both parse yield the
/// first input's record with height h1 + h2, and their payloads in order.
/// The one addition must fit a `u32` for the fold to be admitted.
pub proof fn lemma_height_additivity(
    s1: Seq<u8>,
    s2: Seq<u8>,
    h1: IhdrData,
    p1: int,
    b1: Seq<u8>,
    h2: IhdrData,
    p2: int,
    b2: Seq<u8>,
)
    requires
        parse_header(s1) == Ok::<_, PngError>((h1, p1)),
        parse_body(s1, p1) == Ok::<_, PngError>(b1),
        parse_header(s2) == Ok::<_, PngError>((h2, p2)),
        parse_body(s2, p2) == Ok::<_, PngError>(b2),
        h1.width == h2.width,
        h1.height + h2.height <= u32::MAX,
    ensures
        cat_model(seq![s1, s2]) == Ok::<_, (int, PngError)>(
            (h1, h1.height + h2.height, b1 + b2),
        ),
        heights_fit(seq![s1, s2]),
{
    let ss = seq![s1, s2];
    assert(ss[0] == s1 && ss[1] == s2);
    assert(cat_from(ss, 2, h1, h1.height + h2.height, b1 + b2) == Ok::<_, (int, PngError)>(
        (h1, h1.height + h2.height, b1 + b2),
    ));
    assert(heights_fit_from(ss, 2, h1.width, h1.height + h2.height));
    assert(heights_fit_from(ss, 1, h1.width, h1.height as int));
}

/// Width mismatch: a second input whose width differs from the first's
/// stops the run at that input with `UnequalWidth`, so there is no output.
pub proof fn lemma_width_mismatch(
    s1: Seq<u8>,
    s2: Seq<u8>,
    h1: IhdrData,
    p1: int,
    b1: Seq<u8>,
    h2: IhdrData,
    p2: int,
)
    requires
        parse_header(s1) == Ok::<_, PngError>((h1, p1)),
        parse_body(s1, p1) == Ok::<_, PngError>(b1),
        parse_header(s2) == Ok::<_, PngError>((h2, p2)),
        h1.width != h2.width,
    ensures
        cat_model(seq![s1, s2]) == Err::<(IhdrData, int, Seq<u8>), (int, PngError)>(
            (1, PngError::UnequalWidth),
        ),
{
    let ss = seq![s1, s2];
    assert(ss[0] == s1 && ss[1] == s2);
}

/// Bad signature: a seeding input that does not begin with the 8-byte PNG
/// magic fails the whole run with `InvalidSignature` at that input,
/// whatever the other inputs hold.
pub proof fn lemma_bad_signature(inputs: Seq<Seq<u8>>)
    requires
        inputs.len() >= 1,
        !has_png_sig(inputs[0]),
    ensures
        cat_model(inputs) == Err::<(IhdrData, int, Seq<u8>), (int, PngError)>(
            (0, PngError::InvalidSignature),
        ),
{
}

/// IHDR length guard: a chunk tagged IHDR whose declared length is not 13
/// is rejected outright — before any payload byte is looked at, and even
/// where the stream holds none of them.
pub proof fn lemma_ihdr_length_guard(s: Seq<u8>, pos: int)
    requires
        0 <= pos,
        pos + 8 <= s.len(),
        kind_of_code(s[pos + 4], s[pos + 5], s[pos + 6], s[pos + 7]) == Some(PngChunkKind::Ihdr),
        be32(s.subrange(pos, pos + 4)) != 13,
    ensures
        spec_chunk(s, pos) == Err::<(PngChunkKind, Seq<u8>, int), PngError>(
            PngError::InvalidIhdrLength,
        ),
{
}

/// Decoding the emitted stream's header gives the record back, 33 bytes in.
#[verifier::rlimit(100)]
proof fn lemma_png_model_header(h: IhdrData, dz: Seq<u8>)
    requires
        dz.len() <= u32::MAX,
    ensures
        parse_header(png_model(h, PngChunkKind::Idat, dz)) == Ok::<_, PngError>((h, 33int)),
{
    let input = png_model(h, PngChunkKind::Idat, dz);
    let c1 = chunk_model(PngChunkKind::Ihdr, ihdr_bytes(h));
    let c2 = chunk_model(PngChunkKind::Idat, dz);
    let c3 = chunk_model(PngChunkKind::Iend, Seq::<u8>::empty());
    lemma_ihdr_roundtrip(h);
    vstd::seq_lib::lemma_concat_associative(png_sig() + c1, c2, c3);
    assert(input == png_sig() + c1 + (c2 + c3));
    lemma_chunk_roundtrip(png_sig(), PngChunkKind::Ihdr, ihdr_bytes(h), c2 + c3);
    assert(has_png_sig(input));
}

/// Decoding the emitted stream's second chunk gives the IDAT payload back.
#[verifier::rlimit(100)]
proof fn lemma_png_model_idat(h: IhdrData, dz: Seq<u8>)
    requires
        dz.len() <= u32::MAX,
    ensures
        spec_chunk(png_model(h, PngChunkKind::Idat, dz), 33) == Ok::<_, PngError>(
            (PngChunkKind::Idat, dz, 45 + dz.len() as int),
        ),
{
    let c1 = chunk_model(PngChunkKind::Ihdr, ihdr_bytes(h));
    let c3 = chunk_model(PngChunkKind::Iend, Seq::<u8>::empty());
    assert(ihdr_bytes(h).len() == 13);
    assert((png_sig() + c1).len() == 33);
    lemma_chunk_roundtrip(png_sig() + c1, PngChunkKind::Idat, dz, c3);
}

/// Identity: one input whose IDAT payload is the compressor's output for
/// its scanline bytes, folded alone and re-compressed at the level it was
/// made with, comes through unchanged — record, height and scanlines — so
/// the re-emitted stream is the input stream, byte for byte.
pub proof fn lemma_identity(h: IhdrData, d: Seq<u8>, level: u8)
    requires
        inflate_of(deflate_of(d, level)) == Some(d),
        deflate_of(d, level).len() <= u32::MAX,
    ensures
        cat_model(seq![png_model(h, PngChunkKind::Idat, deflate_of(d, level))]) == Ok::<
            _,
            (int, PngError),
        >((h, h.height as int, d)),
        heights_fit(seq![png_model(h, PngChunkKind::Idat, deflate_of(d, level))]),
        png_model(
            IhdrData { height: (h.height as int) as u32, ..h },
            PngChunkKind::Idat,
            deflate_of(d, level),
        ) == png_model(h, PngChunkKind::Idat, deflate_of(d, level)),
{
    let dz = deflate_of(d, level);
    let input = png_model(h, PngChunkKind::Idat, dz);
    lemma_png_model_header(h, dz);
    lemma_png_model_idat(h, dz);
    assert(parse_body(input, 33) == Ok::<_, PngError>(d));
    let ss = seq![input];
    assert(ss[0] == input);
    assert(IhdrData { height: (h.height as int) as u32, ..h } == h);
}

} // verus!
