use vstd::prelude::*;

verus! {

/// Why a decode failed. Every failure is a property of the input bytes.
#[derive(Clone, Copy, Debug, PartialEq, Eq, Structural)]
pub enum DecodeError {
    /// A chunk header or length does not agree with the bytes around it, or a
    /// payload is shorter than its declared contents.
    MalformedContainer,
    /// The root chunk is not of the kind the caller asked to decode.
    InvalidContainer,
    /// The raster's base pixel format is not one this decoder handles.
    UnsupportedRasterFormat,
    /// A palette index points past the end of the palette.
    PaletteIndexOutOfRange,
    /// A geometry has no material list.
    MissingMaterialList,
    /// A texture axis carries the "no addressing mode" value or an unknown one.
    UnknownAddressingMode,
    /// Neither the geometry nor the material carries surface properties.
    MissingSurfaceProperties,
}

} // verus!
