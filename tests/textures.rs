use gtc::chunk::{read_chunk, KIND_EXTENSION, KIND_RASTER, KIND_STRUCT, KIND_TEXTURE_DICTIONARY};
use gtc::error::DecodeError;
use gtc::raster::{
    base_format, decode_raster, palette_kind, BaseFormat, PaletteKind, Raster, FLAG_AUTO_MIPMAP,
    FLAG_MIPMAP, FLAG_PAL4, FLAG_PAL8, FORMAT_1555, FORMAT_888, FORMAT_8888,
};
use gtc::txd::TxdLoader;
use gtc::utils::{find_ignoring_case, to_lower};

const STAMP: u32 = 0x0800_FFFF;

fn chunk(kind: u32, body: &[u8]) -> Vec<u8> {
    let mut out = Vec::new();
    out.extend_from_slice(&kind.to_le_bytes());
    out.extend_from_slice(&(body.len() as u32).to_le_bytes());
    out.extend_from_slice(&STAMP.to_le_bytes());
    out.extend_from_slice(body);
    out
}

fn raster_struct(name: &str, format: u32, width: u16, height: u16, data: &[u8]) -> Vec<u8> {
    let mut s = vec![0u8; 88];
    s[0..4].copy_from_slice(&8u32.to_le_bytes());
    s[8..8 + name.len()].copy_from_slice(name.as_bytes());
    s[72..76].copy_from_slice(&format.to_le_bytes());
    s[80..82].copy_from_slice(&width.to_le_bytes());
    s[82..84].copy_from_slice(&height.to_le_bytes());
    s[84] = 32;
    s[85] = 1;
    s.extend_from_slice(data);
    s
}

fn raster_chunk(name: &str, format: u32, width: u16, height: u16, data: &[u8]) -> Vec<u8> {
    let mut body = chunk(KIND_STRUCT, &raster_struct(name, format, width, height, data));
    body.extend(chunk(KIND_EXTENSION, &[]));
    chunk(KIND_RASTER, &body)
}

fn raster(format: u32, width: u16, height: u16, data: Vec<u8>) -> Raster {
    Raster { width, height, depth: 32, raster_format: format, name: b"t".to_vec(), data }
}

fn palette_data(entries: usize, indices: &[u8]) -> Vec<u8> {
    let mut d = Vec::new();
    for i in 0..entries {
        d.extend_from_slice(&[i as u8, (i * 2) as u8, (i * 3) as u8, 255]);
    }
    d.extend_from_slice(&(indices.len() as u32).to_le_bytes());
    d.extend_from_slice(indices);
    d
}

#[test]
fn direct_8888_two_by_two_in_row_major_order() {
    let pixels: Vec<u8> = (1..=16).collect();
    let mut data = vec![16, 0, 0, 0];
    data.extend_from_slice(&pixels);
    let img = decode_raster(&raster(FORMAT_8888, 2, 2, data)).unwrap();
    assert_eq!(img.width, 2);
    assert_eq!(img.height, 2);
    assert_eq!(img.data, pixels);
}

#[test]
fn direct_8888_ignores_further_mip_levels() {
    let mut data = vec![4, 0, 0, 0, 9, 8, 7, 6];
    data.extend_from_slice(&[1, 1, 1, 1, 2, 2, 2, 2]);
    let img = decode_raster(&raster(FORMAT_8888 | FLAG_MIPMAP, 1, 1, data)).unwrap();
    assert_eq!(img.data, vec![9, 8, 7, 6]);
}

#[test]
fn format_888_forces_opaque_alpha() {
    let data = vec![4, 0, 0, 0, 10, 20, 30, 0];
    let img = decode_raster(&raster(FORMAT_888, 1, 1, data)).unwrap();
    assert_eq!(img.data, vec![10, 20, 30, 255]);
}

#[test]
fn format_1555_keeps_five_bit_channels() {
    let mut data = vec![0, 0, 0, 0];
    data.extend_from_slice(&0xFFFFu16.to_le_bytes());
    data.extend_from_slice(&0x7C00u16.to_le_bytes());
    data.extend_from_slice(&0x03E0u16.to_le_bytes());
    data.extend_from_slice(&0x801Fu16.to_le_bytes());
    let img = decode_raster(&raster(FORMAT_1555, 2, 2, data)).unwrap();
    assert_eq!(
        img.data,
        vec![31, 31, 31, 255, 31, 0, 0, 0, 0, 31, 0, 0, 0, 0, 31, 255]
    );
}

#[test]
fn pal8_looks_up_each_index() {
    let data = palette_data(256, &[0, 5, 255, 5]);
    let img = decode_raster(&raster(FORMAT_8888 | FLAG_PAL8, 2, 2, data)).unwrap();
    assert_eq!(
        img.data,
        vec![0, 0, 0, 255, 5, 10, 15, 255, 255, 254, 253, 255, 5, 10, 15, 255]
    );
}

#[test]
fn pal4_reads_one_byte_per_index() {
    let data = palette_data(32, &[31, 1]);
    let img = decode_raster(&raster(FORMAT_8888 | FLAG_PAL4, 2, 1, data)).unwrap();
    assert_eq!(img.data, vec![31, 62, 93, 255, 1, 2, 3, 255]);
}

#[test]
fn pal4_index_past_palette_is_an_error() {
    let data = palette_data(32, &[0, 32]);
    let r = decode_raster(&raster(FORMAT_8888 | FLAG_PAL4, 2, 1, data));
    assert_eq!(r.unwrap_err(), DecodeError::PaletteIndexOutOfRange);
}

#[test]
fn mipmap_flags_do_not_change_the_decode() {
    let data = palette_data(256, &[3, 2, 1, 0]);
    let plain = decode_raster(&raster(FORMAT_8888 | FLAG_PAL8, 2, 2, data.clone())).unwrap();
    let flagged = decode_raster(&raster(
        FORMAT_8888 | FLAG_PAL8 | FLAG_MIPMAP | FLAG_AUTO_MIPMAP,
        2,
        2,
        data,
    ))
    .unwrap();
    assert_eq!(plain.data, flagged.data);
}

#[test]
fn flags_and_base_format_are_read_apart() {
    let f = FORMAT_1555 | FLAG_PAL8 | FLAG_PAL4 | FLAG_MIPMAP;
    assert_eq!(base_format(f), Some(BaseFormat::Argb1555));
    assert_eq!(palette_kind(f), PaletteKind::Pal8);
    assert_eq!(palette_kind(FORMAT_888 | FLAG_PAL4), PaletteKind::Pal4);
    assert_eq!(palette_kind(FORMAT_888), PaletteKind::NoPalette);
    assert_eq!(base_format(0x0200), None);
}

#[test]
fn block_compressed_or_other_formats_are_unsupported() {
    let r = decode_raster(&raster(0x0200, 1, 1, vec![0; 8]));
    assert_eq!(r.unwrap_err(), DecodeError::UnsupportedRasterFormat);
}

#[test]
fn raster_data_shorter_than_its_pixels_is_malformed() {
    let r = decode_raster(&raster(FORMAT_8888, 2, 2, vec![0; 19]));
    assert_eq!(r.unwrap_err(), DecodeError::MalformedContainer);
    let r = decode_raster(&raster(FORMAT_8888 | FLAG_PAL8, 1, 1, vec![0; 1028]));
    assert_eq!(r.unwrap_err(), DecodeError::MalformedContainer);
}

#[test]
fn dictionary_keys_are_lower_cased_and_metadata_skipped() {
    let px = [0u8, 0, 0, 0, 1, 2, 3, 4];
    let mut body = chunk(KIND_STRUCT, &[1, 0, 0, 0]);
    body.extend(raster_chunk("FOO", FORMAT_8888, 1, 1, &px));
    body.extend(raster_chunk("bar", FORMAT_8888, 1, 1, &px));
    body.extend(chunk(KIND_EXTENSION, &[]));
    let bytes = chunk(KIND_TEXTURE_DICTIONARY, &body);
    let txd = TxdLoader.load(&bytes).unwrap();
    assert_eq!(txd.textures.len(), 2);
    assert_eq!(txd.index(0).name, b"foo".to_vec());
    assert_eq!(txd.index(1).name, b"bar".to_vec());
    assert_eq!(txd.index(1).image.data, vec![1, 2, 3, 4]);
    assert_eq!(txd.find(&b"Bar".to_vec()), Some(1));
    assert_eq!(txd.find(&b"FOO".to_vec()), Some(0));
    assert_eq!(txd.find(&b"baz".to_vec()), None);
}

#[test]
fn dictionary_with_a_bad_raster_fails_whole() {
    let px = [0u8, 0, 0, 0, 1, 2, 3, 4];
    let mut body = chunk(KIND_STRUCT, &[2, 0, 0, 0]);
    body.extend(raster_chunk("ok", FORMAT_8888, 1, 1, &px));
    body.extend(raster_chunk("bad", 0x0300, 1, 1, &px));
    let bytes = chunk(KIND_TEXTURE_DICTIONARY, &body);
    assert_eq!(TxdLoader.load(&bytes).unwrap_err(), DecodeError::UnsupportedRasterFormat);
}

#[test]
fn dictionary_root_of_another_kind_is_invalid() {
    let bytes = chunk(KIND_RASTER, &chunk(KIND_STRUCT, &[0; 4]));
    assert_eq!(TxdLoader.load(&bytes).unwrap_err(), DecodeError::InvalidContainer);
}

#[test]
fn truncated_container_is_malformed() {
    let mut bytes = chunk(KIND_TEXTURE_DICTIONARY, &chunk(KIND_STRUCT, &[1, 0, 0, 0]));
    bytes.truncate(bytes.len() - 1);
    assert_eq!(read_chunk(&bytes).unwrap_err(), DecodeError::MalformedContainer);
    assert_eq!(read_chunk(&[1, 2, 3]).unwrap_err(), DecodeError::MalformedContainer);
    let mut inner = chunk(KIND_STRUCT, &[1, 0, 0, 0]);
    inner[4] = 9;
    let bytes = chunk(KIND_TEXTURE_DICTIONARY, &inner);
    assert_eq!(TxdLoader.load(&bytes).unwrap_err(), DecodeError::MalformedContainer);
}

#[test]
fn unknown_chunks_keep_their_bytes() {
    let mut body = chunk(KIND_STRUCT, &[7]);
    body.extend(chunk(0x0253_F2FE, &[1, 2, 3]));
    let mut bytes = chunk(KIND_TEXTURE_DICTIONARY, &body);
    bytes.extend_from_slice(&[0xAA, 0xBB]);
    let root = read_chunk(&bytes).unwrap();
    assert_eq!(root.kind, KIND_TEXTURE_DICTIONARY);
    assert_eq!(root.version, STAMP);
    assert_eq!(root.children.len(), 2);
    assert_eq!(root.children[0].data, vec![7]);
    assert_eq!(root.children[1].kind, 0x0253_F2FE);
    assert_eq!(root.children[1].data, vec![1, 2, 3]);
}

#[test]
fn lower_casing_touches_ascii_letters_only() {
    assert_eq!(to_lower(&b"AbZ_9\xC4".to_vec()), b"abz_9\xC4".to_vec());
}

#[test]
fn directory_entries_match_ignoring_case() {
    let names = vec![b"Models".to_vec(), b"DATA".to_vec(), b"data".to_vec()];
    assert_eq!(find_ignoring_case(&names, &b"data".to_vec()), Some(1));
    assert_eq!(find_ignoring_case(&names, &b"models".to_vec()), Some(0));
    assert_eq!(find_ignoring_case(&names, &b"txd".to_vec()), None);
}
