use vstd::prelude::*;

use crate::bytes::{field_text, read_field_text, read_u32_le, u32_le};
use crate::chunk::{
    first_of_kind, has_struct, struct_data, Chunk, KIND_STRING, KIND_STRUCT, KIND_TEXTURE,
};
use crate::error::DecodeError;
use crate::geometry::{f32_at, rgba_at, SurfaceProps, MATERIAL_SURFACE_VERSION};
use crate::utils::{lower, to_lower, F32Bits};

verus! {

/// How texture coordinates outside `0..1` are treated along one axis.
#[derive(Clone, Copy, Debug, PartialEq, Eq, Structural)]
pub enum AddressMode {
    Wrap,
    Mirror,
    Clamp,
    Border,
}

/// A texture to be looked up by the caller: the entry `name` (lower-cased)
/// of the dictionary `dictionary`.
#[derive(Clone, Debug)]
pub struct TextureRef {
    pub dictionary: Vec<u8>,
    pub name: Vec<u8>,
    pub address_u: AddressMode,
    pub address_v: AddressMode,
}

/// What a mesh is drawn with.
#[derive(Clone, Debug)]
pub struct GTAMaterial {
    pub color: [u8; 4],
    pub texture: Option<TextureRef>,
    pub ambient_fac: F32Bits,
    pub diffuse_fac: F32Bits,
}

pub type TextureRefView = (Seq<u8>, Seq<u8>, AddressMode, AddressMode);

pub type MaterialView = ([u8; 4], Option<TextureRefView>, F32Bits, F32Bits);

impl GTAMaterial {
    pub open spec fn view_of(&self) -> MaterialView {
        (
            self.color,
            match self.texture {
                Some(t) => Some((t.dictionary@, t.name@, t.address_u, t.address_v)),
                None => None,
            },
            self.ambient_fac,
            self.diffuse_fac,
        )
    }
}

/// The stored addressing value 0 means "none"; values past 4 are unknown.
pub open spec fn address_mode_of(v: u32) -> Option<AddressMode> {
    if v == 1 {
        Some(AddressMode::Wrap)
    } else if v == 2 {
        Some(AddressMode::Mirror)
    } else if v == 3 {
        Some(AddressMode::Clamp)
    } else if v == 4 {
        Some(AddressMode::Border)
    } else {
        None
    }
}

/// Translates a stored addressing value.
pub fn address_mode(v: u32) -> (r: Result<AddressMode, DecodeError>)
    ensures
        match address_mode_of(v) {
            Some(m) => r == Ok::<AddressMode, DecodeError>(m),
            None => r == Err::<AddressMode, DecodeError>(DecodeError::UnknownAddressingMode),
        },
{
    if v == 1 {
        Ok(AddressMode::Wrap)
    } else if v == 2 {
        Ok(AddressMode::Mirror)
    } else if v == 3 {
        Ok(AddressMode::Clamp)
    } else if v == 4 {
        Ok(AddressMode::Border)
    } else {
        Err(DecodeError::UnknownAddressingMode)
    }
}

/// Materials carry their own surface properties from this version on.
pub open spec fn has_material_surface(version: u32) -> bool {
    version > MATERIAL_SURFACE_VERSION
}

/// Length of a material's structure data without surface properties, and
/// with them.
pub const MATERIAL_STRUCT_LEN: usize = 16;
pub const MATERIAL_SURFACE_STRUCT_LEN: usize = 28;

/// The texture reference of a texture chunk, before its addressing modes
/// are checked: entry name, then the raw modes for the two axes.
pub open spec fn texture_fields(t: Chunk) -> Result<(Seq<u8>, u32, u32), DecodeError> {
    let k = first_of_kind(t.children@, KIND_STRING, 0);
    if !has_struct(t, 4) || k >= t.children@.len() {
        Err(DecodeError::MalformedContainer)
    } else {
        let mode = u32_le(struct_data(t), 0);
        Ok(
            (
                lower(field_text(t.children@[k].data@)),
                (mode >> 8u32) & 0xFu32,
                (mode >> 12u32) & 0xFu32,
            ),
        )
    }
}

pub open spec fn texture_ref_spec(t: Chunk, dictionary: Seq<u8>) -> Result<TextureRefView, DecodeError> {
    match texture_fields(t) {
        Err(e) => Err(e),
        Ok((name, u, v)) => match (address_mode_of(u), address_mode_of(v)) {
            (Some(mu), Some(mv)) => Ok((dictionary, name, mu, mv)),
            _ => Err(DecodeError::UnknownAddressingMode),
        },
    }
}

/// What the material chunk `mc` resolves to. The geometry's surface
/// properties, when it has them, take precedence over the material's own,
/// which files of newer versions may carry after the first 16 bytes.
pub open spec fn material_spec(
    mc: Chunk,
    version: u32,
    geo_surface: Option<SurfaceProps>,
    dictionary: Seq<u8>,
) -> Result<MaterialView, DecodeError> {
    let s = struct_data(mc);
    let k = first_of_kind(mc.children@, KIND_TEXTURE, 0);
    if !has_struct(mc, MATERIAL_STRUCT_LEN as nat) {
        Err(DecodeError::MalformedContainer)
    } else {
        let tex: Result<Option<TextureRefView>, DecodeError> = if k < mc.children@.len() {
            match texture_ref_spec(mc.children@[k], dictionary) {
                Ok(t) => Ok(Some(t)),
                Err(e) => Err(e),
            }
        } else {
            Ok(None)
        };
        match tex {
            Err(e) => Err(e),
            Ok(t) => match geo_surface {
                Some(sp) => Ok((rgba_at(s, 4), t, sp.ambient, sp.diffuse)),
                None => if has_material_surface(version) && s.len() >= MATERIAL_SURFACE_STRUCT_LEN {
                    Ok((rgba_at(s, 4), t, f32_at(s, 16), f32_at(s, 24)))
                } else {
                    Err(DecodeError::MissingSurfaceProperties)
                },
            },
        }
    }
}

/// Reads the texture reference of a texture chunk.
pub fn resolve_texture(t: &Chunk, dictionary: &Vec<u8>) -> (r: Result<TextureRef, DecodeError>)
    ensures
        match (r, texture_ref_spec(*t, dictionary@)) {
            (Ok(x), Ok(v)) => (x.dictionary@, x.name@, x.address_u, x.address_v) == v,
            (Err(e), Err(e2)) => e == e2,
            _ => false,
        },
{
    let k = t.find_child(KIND_STRING);
    if t.children.len() < 1 || t.children[0].kind != KIND_STRUCT || t.children[0].data.len() < 4 {
        return Err(DecodeError::MalformedContainer);
    }
    let k = match k {
        Some(k) => k,
        None => return Err(DecodeError::MalformedContainer),
    };
    let mode = read_u32_le(t.children[0].data.as_slice(), 0);
    let raw = t.children[k].data.as_slice();
    let text = read_field_text(raw, 0, raw.len());
    assert(raw@.subrange(0, raw@.len() as int) =~= raw@);
    let name = to_lower(&text);
    let address_u = match address_mode((mode >> 8u32) & 0xFu32) {
        Ok(m) => m,
        Err(e) => return Err(e),
    };
    let address_v = match address_mode((mode >> 12u32) & 0xFu32) {
        Ok(m) => m,
        Err(e) => return Err(e),
    };
    Ok(TextureRef { dictionary: dictionary.clone(), name, address_u, address_v })
}

/// Resolves one material chunk of a geometry into what its meshes are drawn
/// with.
pub fn resolve_material(
    mc: &Chunk,
    version: u32,
    geo_surface: Option<SurfaceProps>,
    dictionary: &Vec<u8>,
) -> (r: Result<GTAMaterial, DecodeError>)
    ensures
        match (r, material_spec(*mc, version, geo_surface, dictionary@)) {
            (Ok(m), Ok(v)) => m.view_of() == v,
            (Err(e), Err(e2)) => e == e2,
            _ => false,
        },
{
    if mc.children.len() < 1 || mc.children[0].kind != KIND_STRUCT || mc.children[0].data.len()
        < MATERIAL_STRUCT_LEN {
        return Err(DecodeError::MalformedContainer);
    }
    let s = mc.children[0].data.as_slice();
    let color = [s[4], s[5], s[6], s[7]];
    let texture = match mc.find_child(KIND_TEXTURE) {
        Some(k) => match resolve_texture(&mc.children[k], dictionary) {
            Ok(t) => Some(t),
            Err(e) => return Err(e),
        },
        None => None,
    };
    let (ambient_fac, diffuse_fac) = match geo_surface {
        Some(sp) => (sp.ambient, sp.diffuse),
        None => {
            if version > MATERIAL_SURFACE_VERSION && s.len() >= MATERIAL_SURFACE_STRUCT_LEN {
                (F32Bits { bits: read_u32_le(s, 16) }, F32Bits { bits: read_u32_le(s, 24) })
            } else {
                return Err(DecodeError::MissingSurfaceProperties);
            }
        },
    };
    Ok(GTAMaterial { color, texture, ambient_fac, diffuse_fac })
}

} // verus!
