use vstd::prelude::*;

use crate::bytes::u16_le;
use crate::error::DecodeError;

verus! {

/// Flag bit: the renderer should generate mipmaps.
pub const FLAG_AUTO_MIPMAP: u32 = 0x1000;
/// Flag bit: pixels are 8-bit indices into a 256-entry palette.
pub const FLAG_PAL8: u32 = 0x2000;
/// Flag bit: pixels are indices into a 32-entry palette, one byte each.
pub const FLAG_PAL4: u32 = 0x4000;
/// Flag bit: the data holds further mipmap levels after the first.
pub const FLAG_MIPMAP: u32 = 0x8000;
/// The four flag bits together.
pub const FLAG_MASK: u32 = 0xF000;

/// Base format value: 16-bit pixels, 1 alpha bit and 5 bits per colour.
pub const FORMAT_1555: u32 = 0x0100;
/// Base format value: 32-bit pixels with 8 bits per channel.
pub const FORMAT_8888: u32 = 0x0500;
/// Base format value: 32-bit pixels whose fourth byte is unused.
pub const FORMAT_888: u32 = 0x0600;

/// The pixel layouts this decoder handles.
#[derive(Clone, Copy, Debug, PartialEq, Eq, Structural)]
pub enum BaseFormat {
    Argb1555,
    Rgba8888,
    Rgb888,
}

/// Which palette, if any, the pixels index into.
#[derive(Clone, Copy, Debug, PartialEq, Eq, Structural)]
pub enum PaletteKind {
    NoPalette,
    Pal4,
    Pal8,
}

/// One texture entry as stored in a texture dictionary.
#[derive(Clone, Debug)]
pub struct Raster {
    pub width: u16,
    pub height: u16,
    /// Bits per pixel.
    pub depth: u8,
    /// Base pixel format plus the four flag bits.
    pub raster_format: u32,
    /// The name materials refer to this texture by.
    pub name: Vec<u8>,
    /// Palette (if any), then each mip level as a 4-byte length and pixels.
    pub data: Vec<u8>,
}

/// A decoded texture: `width * height` pixels of four bytes each, in row-major
/// order. Channels come out in the order the source stores them (red, green,
/// blue, alpha for palettes and 32-bit pixels).
#[derive(Clone, Debug)]
pub struct DecodedImage {
    pub width: u32,
    pub height: u32,
    pub data: Vec<u8>,
}

/// The format value with the four flag bits cleared.
pub open spec fn base_bits(f: u32) -> u32 {
    f & !FLAG_MASK
}

pub open spec fn base_format_of(f: u32) -> Option<BaseFormat> {
    let b = base_bits(f);
    if b == FORMAT_1555 {
        Some(BaseFormat::Argb1555)
    } else if b == FORMAT_8888 {
        Some(BaseFormat::Rgba8888)
    } else if b == FORMAT_888 {
        Some(BaseFormat::Rgb888)
    } else {
        None
    }
}

/// The 8-bit palette wins when both palette flags are set.
pub open spec fn palette_of(f: u32) -> PaletteKind {
    if f & FLAG_PAL8 != 0 {
        PaletteKind::Pal8
    } else if f & FLAG_PAL4 != 0 {
        PaletteKind::Pal4
    } else {
        PaletteKind::NoPalette
    }
}

pub open spec fn palette_len(k: PaletteKind) -> nat {
    match k {
        PaletteKind::Pal8 => 256,
        PaletteKind::Pal4 => 32,
        PaletteKind::NoPalette => 0,
    }
}

/// Offset of the index plane: the palette, then the level's length field.
pub open spec fn index_start(k: PaletteKind) -> nat {
    palette_len(k) * 4 + 4
}

pub open spec fn bytes_per_pixel(b: BaseFormat) -> nat {
    match b {
        BaseFormat::Argb1555 => 2,
        _ => 4,
    }
}

/// How many bytes of `data` a raster of `n` pixels needs.
pub open spec fn needed_len(f: u32, n: nat) -> nat {
    let k = palette_of(f);
    if k != PaletteKind::NoPalette {
        index_start(k) + n
    } else {
        4 + n * bytes_per_pixel(base_format_of(f).unwrap())
    }
}

/// The four output bytes of a 1-5-5-5 pixel. The 5-bit channels are kept as
/// they are, not stretched to the 8-bit range.
pub open spec fn argb1555_rgba(v: u16) -> Seq<u8> {
    seq![
        ((v >> 10u16) & 31u16) as u8,
        ((v >> 5u16) & 31u16) as u8,
        (v & 31u16) as u8,
        if (v >> 15u16) != 0 { 255u8 } else { 0u8 },
    ]
}

/// The four output bytes of pixel `p`.
pub open spec fn pixel_rgba(f: u32, d: Seq<u8>, p: int) -> Seq<u8> {
    let k = palette_of(f);
    if k != PaletteKind::NoPalette {
        let i = d[index_start(k) + p] as int;
        seq![d[4 * i], d[4 * i + 1], d[4 * i + 2], d[4 * i + 3]]
    } else {
        match base_format_of(f).unwrap() {
            BaseFormat::Argb1555 => argb1555_rgba(u16_le(d, 4 + 2 * p)),
            BaseFormat::Rgba8888 => seq![d[4 + 4 * p], d[5 + 4 * p], d[6 + 4 * p], d[7 + 4 * p]],
            BaseFormat::Rgb888 => seq![d[4 + 4 * p], d[5 + 4 * p], d[6 + 4 * p], 255u8],
        }
    }
}

/// The output bytes of the first `n` pixels.
pub open spec fn pixels_rgba(f: u32, d: Seq<u8>, n: nat) -> Seq<u8>
    decreases n,
{
    if n == 0 {
        Seq::empty()
    } else {
        pixels_rgba(f, d, (n - 1) as nat) + pixel_rgba(f, d, n - 1)
    }
}

/// The palette index stored for pixel `p`.
pub open spec fn index_at(f: u32, d: Seq<u8>, p: int) -> u8 {
    d[index_start(palette_of(f)) + p]
}

/// Some pixel among the first `n` indexes past the end of the palette.
pub open spec fn has_bad_index(f: u32, d: Seq<u8>, n: nat) -> bool {
    palette_of(f) != PaletteKind::NoPalette && exists|p: int|
        0 <= p < n && #[trigger] index_at(f, d, p) as nat >= palette_len(palette_of(f))
}

/// What decoding a raster of `n` pixels gives: the flag bits other than the
/// palette selectors play no part.
pub open spec fn decode_spec(f: u32, d: Seq<u8>, n: nat) -> Result<Seq<u8>, DecodeError> {
    if base_format_of(f) is None {
        Err(DecodeError::UnsupportedRasterFormat)
    } else if d.len() < needed_len(f, n) {
        Err(DecodeError::MalformedContainer)
    } else if has_bad_index(f, d, n) {
        Err(DecodeError::PaletteIndexOutOfRange)
    } else {
        Ok(pixels_rgba(f, d, n))
    }
}

impl Raster {
    pub open spec fn pixel_count(&self) -> nat {
        self.width as nat * self.height as nat
    }
}

/// Reads the base pixel format out of a format value, ignoring the flags.
pub fn base_format(f: u32) -> (r: Option<BaseFormat>)
    ensures
        r == base_format_of(f),
{
    let b = f & !FLAG_MASK;
    if b == FORMAT_1555 {
        Some(BaseFormat::Argb1555)
    } else if b == FORMAT_8888 {
        Some(BaseFormat::Rgba8888)
    } else if b == FORMAT_888 {
        Some(BaseFormat::Rgb888)
    } else {
        None
    }
}

/// Reads the palette selector out of a format value.
pub fn palette_kind(f: u32) -> (r: PaletteKind)
    ensures
        r == palette_of(f),
{
    if f & FLAG_PAL8 != 0 {
        PaletteKind::Pal8
    } else if f & FLAG_PAL4 != 0 {
        PaletteKind::Pal4
    } else {
        PaletteKind::NoPalette
    }
}

/// Decodes one raster into row-major RGBA bytes.
///
/// Only the palette selectors and the base format steer the decode; pixels
/// past `width * height` (further mip levels) are not read.
pub fn decode_raster(r: &Raster) -> (res: Result<DecodedImage, DecodeError>)
    ensures
        match (res, decode_spec(r.raster_format, r.data@, r.pixel_count())) {
            (Ok(img), Ok(bytes)) => img.width == r.width && img.height == r.height
                && img.data@ == bytes,
            (Err(e), Err(e2)) => e == e2,
            _ => false,
        },
{
    let f = r.raster_format;
    let d = &r.data;
    let base = match base_format(f) {
        Some(b) => b,
        None => return Err(DecodeError::UnsupportedRasterFormat),
    };
    let kind = palette_kind(f);
    assert(r.width as u64 * r.height as u64 <= 0xFFFF_FFFF) by (nonlinear_arith)
        requires
            r.width <= 0xFFFF,
            r.height <= 0xFFFF,
    ;
    let npix: u64 = (r.width as u64) * (r.height as u64);
    let pal_len: u64 = match kind {
        PaletteKind::Pal8 => 256,
        PaletteKind::Pal4 => 32,
        PaletteKind::NoPalette => 0,
    };
    let bpp: u64 = match base {
        BaseFormat::Argb1555 => 2,
        _ => 4,
    };
    let need: u64 = if pal_len != 0 {
        pal_len * 4 + 4 + npix
    } else {
        4 + npix * bpp
    };
    assert(need == needed_len(f, r.pixel_count())) by (nonlinear_arith)
        requires
            npix == r.width as nat * r.height as nat,
            r.pixel_count() == r.width as nat * r.height as nat,
            need == (if pal_len != 0 { pal_len * 4 + 4 + npix } else { 4 + npix * bpp }),
            pal_len == palette_len(palette_of(f)),
            palette_of(f) != PaletteKind::NoPalette <==> pal_len != 0,
            bpp == bytes_per_pixel(base_format_of(f).unwrap()),
    ;
    if (d.len() as u64) < need {
        return Err(DecodeError::MalformedContainer);
    }
    let n = npix as usize;
    let start: usize = (pal_len * 4 + 4) as usize;
    let mut out: Vec<u8> = Vec::new();
    let dlen = d.len();
    let mut p: usize = 0;
    while p < n
        invariant
            0 <= p <= n,
            dlen == d@.len(),
            f == r.raster_format,
            n == r.pixel_count(),
            d@ == r.data@,
            d@.len() >= needed_len(f, r.pixel_count()),
            base_format_of(f) == Some(base),
            palette_of(f) == kind,
            pal_len == palette_len(kind),
            pal_len != 0 ==> start == index_start(kind),
            bpp == bytes_per_pixel(base),
            pal_len != 0 ==> d@.len() >= start + n,
            pal_len == 0 ==> d@.len() >= 4 + n * bpp,
            out@ == pixels_rgba(f, d@, p as nat),
            forall|q: int| 0 <= q < p && kind != PaletteKind::NoPalette
                ==> #[trigger] index_at(f, d@, q) < pal_len,
        decreases n - p,
    {
        let ghost before = out@;
        if pal_len != 0 {
            let i = d[start + p];
            if (i as u64) >= pal_len {
                assert(index_at(f, d@, p as int) as nat >= palette_len(palette_of(f)));
                return Err(DecodeError::PaletteIndexOutOfRange);
            }
            let o = 4 * (i as usize);
            out.push(d[o]);
            out.push(d[o + 1]);
            out.push(d[o + 2]);
            out.push(d[o + 3]);
        } else {
            assert(4 + bpp * p + bpp <= d@.len()) by (nonlinear_arith)
                requires
                    p < n,
                    d@.len() >= 4 + n * bpp,
                    bpp >= 0,
            ;
            match base {
                BaseFormat::Argb1555 => {
                    let v: u16 = (d[4 + 2 * p] as u16) | ((d[5 + 2 * p] as u16) << 8u16);
                    out.push(((v >> 10u16) & 31u16) as u8);
                    out.push(((v >> 5u16) & 31u16) as u8);
                    out.push((v & 31u16) as u8);
                    out.push(if (v >> 15u16) != 0 { 255u8 } else { 0u8 });
                },
                BaseFormat::Rgba8888 => {
                    out.push(d[4 + 4 * p]);
                    out.push(d[5 + 4 * p]);
                    out.push(d[6 + 4 * p]);
                    out.push(d[7 + 4 * p]);
                },
                BaseFormat::Rgb888 => {
                    out.push(d[4 + 4 * p]);
                    out.push(d[5 + 4 * p]);
                    out.push(d[6 + 4 * p]);
                    out.push(255u8);
                },
            }
        }
        assert(out@ =~= before + pixel_rgba(f, d@, p as int));
        p = p + 1;
    }
    assert(!has_bad_index(f, d@, r.pixel_count()));
    Ok(DecodedImage { width: r.width as u32, height: r.height as u32, data: out })
}

/// A paletted raster whose index plane holds an index past the end of its
/// palette fails with `PaletteIndexOutOfRange`, whatever the other indices.
pub proof fn lemma_palette_index_out_of_range(f: u32, d: Seq<u8>, n: nat, p: int)
    requires
        base_format_of(f) is Some,
        palette_of(f) != PaletteKind::NoPalette,
        d.len() >= needed_len(f, n),
        0 <= p < n,
        index_at(f, d, p) as nat >= palette_len(palette_of(f)),
    ensures
        decode_spec(f, d, n) == Err::<Seq<u8>, DecodeError>(DecodeError::PaletteIndexOutOfRange),
{
    assert(has_bad_index(f, d, n));
}

proof fn lemma_pixels_same_selectors(f: u32, g: u32, d: Seq<u8>, n: nat)
    requires
        base_format_of(f) == base_format_of(g),
        palette_of(f) == palette_of(g),
    ensures
        pixels_rgba(f, d, n) == pixels_rgba(g, d, n),
    decreases n,
{
    if n > 0 {
        lemma_pixels_same_selectors(f, g, d, (n - 1) as nat);
    }
}

/// The two mipmap flags play no part in decoding: a format value decodes
/// exactly as the same value with both of them cleared.
pub proof fn lemma_mipmap_flags_ignored(f: u32, d: Seq<u8>, n: nat)
    ensures
        decode_spec(f, d, n) == decode_spec(f & !(FLAG_MIPMAP | FLAG_AUTO_MIPMAP), d, n),
{
    let g = f & !(FLAG_MIPMAP | FLAG_AUTO_MIPMAP);
    assert(f & !0xF000u32 == (f & !(0x8000u32 | 0x1000u32)) & !0xF000u32) by (bit_vector);
    assert((f & 0x2000u32 != 0) == ((f & !(0x8000u32 | 0x1000u32)) & 0x2000u32 != 0))
        by (bit_vector);
    assert((f & 0x4000u32 != 0) == ((f & !(0x8000u32 | 0x1000u32)) & 0x4000u32 != 0))
        by (bit_vector);
    assert(base_format_of(f) == base_format_of(g));
    assert(palette_of(f) == palette_of(g));
    lemma_pixels_same_selectors(f, g, d, n);
    assert forall|p: int| index_at(f, d, p) == index_at(g, d, p) by {}
    assert(has_bad_index(f, d, n) == has_bad_index(g, d, n));
}

} // verus!
