use catpng::chunk::{IhdrData, PngChunk, PngChunkKind};
use catpng::engine::{catpng_checked, write_png};
use catpng::error::{CatError, PngError};

const SIG: [u8; 8] = [0x89, b'P', b'N', b'G', 0x0d, 0x0a, 0x1a, 0x0a];

fn ihdr(width: u32, height: u32) -> IhdrData {
    IhdrData {
        width,
        height,
        bit_depth: 0,
        color_type: 0,
        compression: 0,
        filter: 0,
        interlace: 0,
    }
}

fn png_vec(header: IhdrData, data: &[u8], level: u8) -> Vec<u8> {
    let idat = PngChunk {
        kind: PngChunkKind::Idat,
        data: miniz_oxide::deflate::compress_to_vec_zlib(data, level),
    };
    write_png(header, idat)
}

fn cat_and_write(pngs: &[Vec<u8>], level: u8) -> Result<Vec<u8>, CatError> {
    let inputs: Vec<Vec<u8>> = pngs.to_vec();
    match catpng_checked(&inputs, level).expect("summed height fits u32") {
        Ok((header, idat)) => Ok(write_png(header, idat)),
        Err(e) => Err(e),
    }
}

/// A raw chunk with an arbitrary declared length, for malformed inputs.
fn chunk_raw(tag: &[u8; 4], declared_len: u32, payload: &[u8]) -> Vec<u8> {
    let mut v = Vec::new();
    v.extend_from_slice(&declared_len.to_be_bytes());
    v.extend_from_slice(tag);
    v.extend_from_slice(payload);
    let mut tagged = tag.to_vec();
    tagged.extend_from_slice(payload);
    v.extend_from_slice(&crc32fast::hash(&tagged).to_be_bytes());
    v
}

#[test]
fn concat_1() {
    let buf = png_vec(ihdr(69, 50), &[1, 2, 3], 0);
    let expected = buf.clone();

    let out = cat_and_write(&[buf], 0).unwrap();
    assert_eq!(&out, &expected);
}

#[test]
fn concat_2() {
    let buf1 = png_vec(ihdr(69, 25), &[1, 2, 3], 0);
    let buf2 = png_vec(ihdr(69, 30), &[4, 5, 6], 0);
    let expected = png_vec(ihdr(69, 55), &[1, 2, 3, 4, 5, 6], 0);

    let out = cat_and_write(&[buf1, buf2], 0).unwrap();
    assert_eq!(&out, &expected);
}

#[test]
fn output_header_fields() {
    let buf1 = png_vec(ihdr(69, 25), &[1, 2, 3], 6);
    let buf2 = png_vec(ihdr(69, 30), &[4, 5, 6], 6);
    let inputs = vec![buf1, buf2];
    let (header, idat) = catpng_checked(&inputs, 6).unwrap().unwrap();
    assert_eq!(header.width, 69);
    assert_eq!(header.height, 55);
    assert!(matches!(idat.kind, PngChunkKind::Idat));
}

#[test]
fn output_scanlines_are_concatenated() {
    let buf1 = png_vec(ihdr(69, 25), &[1, 2, 3], 0);
    let buf2 = png_vec(ihdr(69, 30), &[4, 5, 6], 0);
    let inputs = vec![buf1, buf2];
    let (_, idat) = catpng_checked(&inputs, 9).unwrap().unwrap();
    let inflated = miniz_oxide::inflate::decompress_to_vec_zlib(&idat.data).unwrap();
    assert_eq!(inflated, vec![1, 2, 3, 4, 5, 6]);
}

#[test]
fn output_signature_and_iend_crc() {
    let out = cat_and_write(&[png_vec(ihdr(3, 4), &[5], 0)], 0).unwrap();
    assert_eq!(&out[0..8], &SIG);
    // the last 12 bytes are the IEND chunk; its CRC-32 over "IEND" is fixed
    let n = out.len();
    assert_eq!(&out[n - 12..], &[0, 0, 0, 0, b'I', b'E', b'N', b'D', 0xae, 0x42, 0x60, 0x82]);
}

#[test]
fn bad_signature_fails_first() {
    let mut bad = png_vec(ihdr(69, 25), &[1, 2, 3], 0);
    bad[0] = 0;
    let good = png_vec(ihdr(69, 30), &[4, 5, 6], 0);
    let e = cat_and_write(&[bad, good], 0).unwrap_err();
    assert_eq!(e.index, 0);
    assert!(matches!(e.error, PngError::InvalidSignature));
}

#[test]
fn bad_signature_short_input() {
    let e = cat_and_write(&[vec![0x89, b'P']], 0).unwrap_err();
    assert_eq!(e.index, 0);
    assert!(matches!(e.error, PngError::InvalidSignature));
}

#[test]
fn width_mismatch_fails_second() {
    let buf1 = png_vec(ihdr(69, 25), &[1, 2, 3], 0);
    let buf2 = png_vec(ihdr(70, 30), &[4, 5, 6], 0);
    let e = cat_and_write(&[buf1, buf2], 0).unwrap_err();
    assert_eq!(e.index, 1);
    assert!(matches!(e.error, PngError::UnequalWidth));
}

#[test]
fn ihdr_length_guard() {
    let mut input = SIG.to_vec();
    input.extend_from_slice(&chunk_raw(b"IHDR", 12, &[0; 12]));
    let e = cat_and_write(&[input], 0).unwrap_err();
    assert_eq!(e.index, 0);
    assert!(matches!(e.error, PngError::InvalidIhdrLength));
}

#[test]
fn unsupported_chunk_type() {
    let mut input = SIG.to_vec();
    input.extend_from_slice(&chunk_raw(b"pHYs", 0, &[]));
    let e = cat_and_write(&[input], 0).unwrap_err();
    assert_eq!(e.index, 0);
    assert!(matches!(
        e.error,
        PngError::UnsupportedChunkType(0x70, 0x48, 0x59, 0x73)
    ));
}

#[test]
fn first_chunk_not_ihdr() {
    let mut input = SIG.to_vec();
    input.extend_from_slice(&chunk_raw(b"IDAT", 3, &[1, 2, 3]));
    let e = cat_and_write(&[input], 0).unwrap_err();
    assert_eq!(e.index, 0);
    assert!(matches!(e.error, PngError::NotIhdr));
}

#[test]
fn truncated_payload() {
    let mut input = SIG.to_vec();
    // an IHDR chunk that declares 13 payload bytes but holds none of them
    input.extend_from_slice(&[0, 0, 0, 13, b'I', b'H', b'D', b'R']);
    let e = cat_and_write(&[input], 0).unwrap_err();
    assert_eq!(e.index, 0);
    assert!(matches!(e.error, PngError::Truncated));
}

#[test]
fn missing_idat_chunk() {
    let mut input = SIG.to_vec();
    input.extend_from_slice(&chunk_raw(b"IHDR", 13, &[0; 13]));
    let e = cat_and_write(&[input], 0).unwrap_err();
    assert_eq!(e.index, 0);
    assert!(matches!(e.error, PngError::Truncated));
}

#[test]
fn decompress_failure() {
    let mut input = SIG.to_vec();
    input.extend_from_slice(&chunk_raw(b"IHDR", 13, &[0; 13]));
    input.extend_from_slice(&chunk_raw(b"IDAT", 4, &[0xff, 0xff, 0xff, 0xff]));
    let e = cat_and_write(&[input], 0).unwrap_err();
    assert_eq!(e.index, 0);
    assert!(matches!(e.error, PngError::DecompressFailure));
}

#[test]
fn height_overflow_yields_none() {
    let buf1 = png_vec(ihdr(5, u32::MAX), &[9], 0);
    let buf2 = png_vec(ihdr(5, 1), &[9], 0);
    let inputs = vec![buf1, buf2];
    assert!(catpng_checked(&inputs, 0).is_none());
}

#[test]
fn height_at_limit_is_admitted() {
    let buf1 = png_vec(ihdr(5, u32::MAX - 1), &[9], 0);
    let buf2 = png_vec(ihdr(5, 1), &[9], 0);
    let inputs = vec![buf1, buf2];
    let (header, _) = catpng_checked(&inputs, 0).unwrap().unwrap();
    assert_eq!(header.height, u32::MAX);
}

#[test]
fn ihdr_record_roundtrip() {
    let h = IhdrData {
        width: 0x0102_0304,
        height: 0x0a0b_0c0d,
        bit_depth: 8,
        color_type: 6,
        compression: 0,
        filter: 0,
        interlace: 1,
    };
    let chunk = PngChunk::from(h);
    assert!(matches!(chunk.kind, PngChunkKind::Ihdr));
    assert_eq!(chunk.data.len(), 13);
    assert_eq!(chunk.data[..4], [1, 2, 3, 4]);
    assert_eq!(IhdrData::try_from(&chunk).unwrap(), h);
}

#[test]
fn ihdr_from_wrong_kind() {
    let chunk = PngChunk { kind: PngChunkKind::Idat, data: vec![0; 13] };
    assert!(matches!(IhdrData::try_from(&chunk), Err(PngError::NotIhdr)));
}

#[test]
fn chunk_parse_at_offset() {
    let mut stream = vec![0xee, 0xff];
    stream.extend_from_slice(&chunk_raw(b"IEND", 1, &[7]));
    let (chunk, end) = PngChunk::new(&stream, 2).unwrap();
    assert!(matches!(chunk.kind, PngChunkKind::Iend));
    assert_eq!(chunk.data, vec![7]);
    assert_eq!(end, 2 + 12 + 1);
}

#[test]
fn chunk_kind_try_from() {
    assert!(matches!(PngChunkKind::try_from(b"IHDR"), Ok(PngChunkKind::Ihdr)));
    assert!(matches!(PngChunkKind::try_from(b"IDAT"), Ok(PngChunkKind::Idat)));
    assert!(matches!(PngChunkKind::try_from(b"IEND"), Ok(PngChunkKind::Iend)));
    assert!(matches!(
        PngChunkKind::try_from(b"tEXt"),
        Err(PngError::UnsupportedChunkType(0x74, 0x45, 0x58, 0x74))
    ));
}

#[test]
fn iend_is_empty() {
    let c = PngChunk::iend();
    assert!(matches!(c.kind, PngChunkKind::Iend));
    assert!(c.data.is_empty());
}
