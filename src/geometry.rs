use vstd::prelude::*;

use crate::bytes::{read_u16_le, read_u32_le, u16_le, u32_le};
use crate::error::DecodeError;
use crate::partition::Triangle;
use crate::utils::F32Bits;

verus! {

/// Geometry flag: triangles form a strip rather than a list.
pub const GEO_TRISTRIP: u16 = 0x01;
/// Geometry flag: one texture coordinate set.
pub const GEO_TEXTURED: u16 = 0x04;
/// Geometry flag: a colour per vertex.
pub const GEO_PRELIT: u16 = 0x08;
/// Geometry flag: two texture coordinate sets.
pub const GEO_TEXTURED2: u16 = 0x80;

/// Files before this library version keep surface properties in the
/// geometry rather than in each material.
pub const SURFACE_IN_MATERIAL_VERSION: u32 = 0x34000;
/// Materials carry surface properties from this library version on.
pub const MATERIAL_SURFACE_VERSION: u32 = 0x30400;

/// Ambient, specular and diffuse lighting coefficients.
#[derive(Clone, Copy, Debug, PartialEq, Eq, Structural)]
pub struct SurfaceProps {
    pub ambient: F32Bits,
    pub specular: F32Bits,
    pub diffuse: F32Bits,
}

/// One geometry record: parallel per-vertex arrays and the triangles.
#[derive(Clone, Debug)]
pub struct Geometry {
    pub flags: u16,
    pub vertex_count: u32,
    pub triangles: Vec<Triangle>,
    /// Present in files older than `SURFACE_IN_MATERIAL_VERSION`.
    pub surface: Option<SurfaceProps>,
    /// One colour per vertex, or none.
    pub prelit: Vec<[u8; 4]>,
    /// How many texture coordinate sets the record holds.
    pub uv_sets: u32,
    /// The first texture coordinate set, or none.
    pub tex_coords: Vec<[F32Bits; 2]>,
    /// Positions in the source axis convention, or none.
    pub positions: Vec<[F32Bits; 3]>,
    /// Normals in the source axis convention, or none.
    pub normals: Vec<[F32Bits; 3]>,
}

/// The library version that a chunk header's version stamp stands for.
pub open spec fn library_version(stamp: u32) -> u32 {
    if stamp & 0xFFFF_0000u32 != 0 {
        ((((stamp >> 14u32) & 0x3FF00u32) + 0x30000u32) as u32) | ((stamp >> 16u32) & 0x3Fu32)
    } else {
        ((stamp & 0xFFFFu32) << 8u32)
    }
}

/// Reads the library version out of a chunk header's version stamp.
pub fn library_version_of(stamp: u32) -> (r: u32)
    ensures
        r == library_version(stamp),
{
    if stamp & 0xFFFF_0000u32 != 0 {
        assert(((stamp >> 14u32) & 0x3FF00u32) <= 0x3FF00u32) by (bit_vector);
        (((stamp >> 14u32) & 0x3FF00u32) + 0x30000u32) | ((stamp >> 16u32) & 0x3Fu32)
    } else {
        assert((stamp & 0xFFFFu32) <= 0xFFFFu32) by (bit_vector);
        ((stamp & 0xFFFFu32) << 8u32)
    }
}

pub open spec fn f32_at(s: Seq<u8>, i: int) -> F32Bits {
    F32Bits { bits: u32_le(s, i) }
}

pub open spec fn vec2_at(s: Seq<u8>, i: int) -> [F32Bits; 2] {
    [f32_at(s, i), f32_at(s, i + 4)]
}

pub open spec fn vec3_at(s: Seq<u8>, i: int) -> [F32Bits; 3] {
    [f32_at(s, i), f32_at(s, i + 4), f32_at(s, i + 8)]
}

pub open spec fn rgba_at(s: Seq<u8>, i: int) -> [u8; 4] {
    [s[i], s[i + 1], s[i + 2], s[i + 3]]
}

/// Triangles are stored as second vertex, first vertex, material id, third
/// vertex.
pub open spec fn triangle_at(s: Seq<u8>, i: int) -> Triangle {
    Triangle {
        vertex1: u16_le(s, i + 2),
        vertex2: u16_le(s, i),
        vertex3: u16_le(s, i + 6),
        material_id: u16_le(s, i + 4),
    }
}

/// `n` items read from `s`, one after another from `off` on.
pub open spec fn vec3s(s: Seq<u8>, off: int, n: nat) -> Seq<[F32Bits; 3]> {
    Seq::new(n, |k: int| vec3_at(s, off + 12 * k))
}

pub open spec fn vec2s(s: Seq<u8>, off: int, n: nat) -> Seq<[F32Bits; 2]> {
    Seq::new(n, |k: int| vec2_at(s, off + 8 * k))
}

pub open spec fn rgbas(s: Seq<u8>, off: int, n: nat) -> Seq<[u8; 4]> {
    Seq::new(n, |k: int| rgba_at(s, off + 4 * k))
}

pub open spec fn triangles(s: Seq<u8>, off: int, n: nat) -> Seq<Triangle> {
    Seq::new(n, |k: int| triangle_at(s, off + 8 * k))
}

fn read_vec3s(s: &[u8], off: usize, n: usize) -> (r: Vec<[F32Bits; 3]>)
    requires
        off + 12 * n <= s@.len(),
    ensures
        r@ == vec3s(s@, off as int, n as nat),
{
    let mut out: Vec<[F32Bits; 3]> = Vec::new();
    let slen = s.len();
    let mut k: usize = 0;
    while k < n
        invariant
            k <= n,
            slen == s@.len(),
            off + 12 * n <= s@.len(),
            out@ =~= vec3s(s@, off as int, k as nat),
        decreases n - k,
    {
        assert(off + 12 * k + 12 <= s@.len()) by (nonlinear_arith)
            requires
                k < n,
                off + 12 * n <= s@.len(),
        ;
        let i = off + 12 * k;
        out.push(
            [
                F32Bits { bits: read_u32_le(s, i) },
                F32Bits { bits: read_u32_le(s, i + 4) },
                F32Bits { bits: read_u32_le(s, i + 8) },
            ],
        );
        k = k + 1;
    }
    out
}

fn read_vec2s(s: &[u8], off: usize, n: usize) -> (r: Vec<[F32Bits; 2]>)
    requires
        off + 8 * n <= s@.len(),
    ensures
        r@ == vec2s(s@, off as int, n as nat),
{
    let mut out: Vec<[F32Bits; 2]> = Vec::new();
    let slen = s.len();
    let mut k: usize = 0;
    while k < n
        invariant
            k <= n,
            slen == s@.len(),
            off + 8 * n <= s@.len(),
            out@ =~= vec2s(s@, off as int, k as nat),
        decreases n - k,
    {
        assert(off + 8 * k + 8 <= s@.len()) by (nonlinear_arith)
            requires
                k < n,
                off + 8 * n <= s@.len(),
        ;
        let i = off + 8 * k;
        out.push([F32Bits { bits: read_u32_le(s, i) }, F32Bits { bits: read_u32_le(s, i + 4) }]);
        k = k + 1;
    }
    out
}

fn read_rgbas(s: &[u8], off: usize, n: usize) -> (r: Vec<[u8; 4]>)
    requires
        off + 4 * n <= s@.len(),
    ensures
        r@ == rgbas(s@, off as int, n as nat),
{
    let mut out: Vec<[u8; 4]> = Vec::new();
    let slen = s.len();
    let mut k: usize = 0;
    while k < n
        invariant
            k <= n,
            slen == s@.len(),
            off + 4 * n <= s@.len(),
            out@ =~= rgbas(s@, off as int, k as nat),
        decreases n - k,
    {
        assert(off + 4 * k + 4 <= s@.len()) by (nonlinear_arith)
            requires
                k < n,
                off + 4 * n <= s@.len(),
        ;
        let i = off + 4 * k;
        out.push([s[i], s[i + 1], s[i + 2], s[i + 3]]);
        k = k + 1;
    }
    out
}

fn read_triangles(s: &[u8], off: usize, n: usize) -> (r: Vec<Triangle>)
    requires
        off + 8 * n <= s@.len(),
    ensures
        r@ == triangles(s@, off as int, n as nat),
{
    let mut out: Vec<Triangle> = Vec::new();
    let slen = s.len();
    let mut k: usize = 0;
    while k < n
        invariant
            k <= n,
            slen == s@.len(),
            off + 8 * n <= s@.len(),
            out@ =~= triangles(s@, off as int, k as nat),
        decreases n - k,
    {
        assert(off + 8 * k + 8 <= s@.len()) by (nonlinear_arith)
            requires
                k < n,
                off + 8 * n <= s@.len(),
        ;
        let i = off + 8 * k;
        out.push(
            Triangle {
                vertex1: read_u16_le(s, i + 2),
                vertex2: read_u16_le(s, i),
                vertex3: read_u16_le(s, i + 6),
                material_id: read_u16_le(s, i + 4),
            },
        );
        k = k + 1;
    }
    out
}

/// How many texture coordinate sets a record holds: the stored count, or
/// when that is zero, what the flags say.
pub open spec fn uv_set_count(flags: u16, stored: u8) -> u32 {
    if stored != 0 {
        stored as u32
    } else if flags & GEO_TEXTURED2 != 0 {
        2
    } else if flags & GEO_TEXTURED != 0 {
        1
    } else {
        0
    }
}

pub open spec fn has_geometry_surface(version: u32) -> bool {
    version < SURFACE_IN_MATERIAL_VERSION
}

pub open spec fn geo_flags(s: Seq<u8>) -> u16 {
    u16_le(s, 0)
}

pub open spec fn geo_uv_sets(s: Seq<u8>) -> u32 {
    uv_set_count(geo_flags(s), s[2])
}

pub open spec fn geo_triangle_count(s: Seq<u8>) -> int {
    u32_le(s, 4) as int
}

pub open spec fn geo_vertex_count(s: Seq<u8>) -> int {
    u32_le(s, 8) as int
}

pub open spec fn geo_has_morph(s: Seq<u8>) -> bool {
    u32_le(s, 12) != 0
}

pub open spec fn prelit_offset(version: u32) -> int {
    if has_geometry_surface(version) {
        28
    } else {
        16
    }
}

pub open spec fn uv_offset(s: Seq<u8>, version: u32) -> int {
    prelit_offset(version) + if geo_flags(s) & GEO_PRELIT != 0 {
        4 * geo_vertex_count(s)
    } else {
        0
    }
}

pub open spec fn triangle_offset(s: Seq<u8>, version: u32) -> int {
    uv_offset(s, version) + 8 * geo_uv_sets(s) * geo_vertex_count(s)
}

/// Where the first morph target starts: its bounding sphere, then whether
/// it has positions and whether it has normals.
pub open spec fn morph_offset(s: Seq<u8>, version: u32) -> int {
    triangle_offset(s, version) + 8 * geo_triangle_count(s)
}

pub open spec fn position_offset(s: Seq<u8>, version: u32) -> int {
    morph_offset(s, version) + 24
}

pub open spec fn geo_has_positions(s: Seq<u8>, version: u32) -> bool {
    geo_has_morph(s) && u32_le(s, morph_offset(s, version) + 16) != 0
}

pub open spec fn geo_has_normals(s: Seq<u8>, version: u32) -> bool {
    geo_has_morph(s) && u32_le(s, morph_offset(s, version) + 20) != 0
}

pub open spec fn normal_offset(s: Seq<u8>, version: u32) -> int {
    position_offset(s, version) + if geo_has_positions(s, version) {
        12 * geo_vertex_count(s)
    } else {
        0
    }
}

pub open spec fn geometry_end(s: Seq<u8>, version: u32) -> int {
    normal_offset(s, version) + if geo_has_normals(s, version) {
        12 * geo_vertex_count(s)
    } else {
        0
    }
}

/// The structure data `s` is long enough for everything its counts and flags
/// announce.
pub open spec fn geometry_fits(s: Seq<u8>, version: u32) -> bool {
    &&& s.len() >= 16
    &&& morph_offset(s, version) <= s.len()
    &&& geo_has_morph(s) ==> position_offset(s, version) <= s.len() && geometry_end(s, version)
        <= s.len()
}

/// A geometry record as mathematical values.
pub struct GeometryModel {
    pub flags: u16,
    pub vertex_count: nat,
    pub uv_sets: u32,
    pub triangles: Seq<Triangle>,
    pub surface: Option<SurfaceProps>,
    pub prelit: Seq<[u8; 4]>,
    pub tex_coords: Seq<[F32Bits; 2]>,
    pub positions: Seq<[F32Bits; 3]>,
    pub normals: Seq<[F32Bits; 3]>,
}

impl View for Geometry {
    type V = GeometryModel;

    open spec fn view(&self) -> GeometryModel {
        GeometryModel {
            flags: self.flags,
            vertex_count: self.vertex_count as nat,
            uv_sets: self.uv_sets,
            triangles: self.triangles@,
            surface: self.surface,
            prelit: self.prelit@,
            tex_coords: self.tex_coords@,
            positions: self.positions@,
            normals: self.normals@,
        }
    }
}

/// The geometry record held in the structure data `s` of a file of library
/// version `version`. Only the first morph target is read.
pub open spec fn geometry_model(s: Seq<u8>, version: u32) -> GeometryModel {
    let nv = geo_vertex_count(s) as nat;
    GeometryModel {
        flags: geo_flags(s),
        vertex_count: nv,
        uv_sets: geo_uv_sets(s),
        triangles: triangles(s, triangle_offset(s, version), geo_triangle_count(s) as nat),
        surface: if has_geometry_surface(version) {
            Some(
                SurfaceProps {
                    ambient: f32_at(s, 16),
                    specular: f32_at(s, 20),
                    diffuse: f32_at(s, 24),
                },
            )
        } else {
            None
        },
        prelit: if geo_flags(s) & GEO_PRELIT != 0 {
            rgbas(s, prelit_offset(version), nv)
        } else {
            Seq::empty()
        },
        tex_coords: if geo_uv_sets(s) > 0 {
            vec2s(s, uv_offset(s, version), nv)
        } else {
            Seq::empty()
        },
        positions: if geo_has_positions(s, version) {
            vec3s(s, position_offset(s, version), nv)
        } else {
            Seq::empty()
        },
        normals: if geo_has_normals(s, version) {
            vec3s(s, normal_offset(s, version), nv)
        } else {
            Seq::empty()
        },
    }
}

/// Reads a geometry record from its structure data.
pub fn parse_geometry(s: &[u8], version: u32) -> (r: Result<Geometry, DecodeError>)
    ensures
        match r {
            Ok(g) => geometry_fits(s@, version) && g@ == geometry_model(s@, version),
            Err(e) => !geometry_fits(s@, version) && e == DecodeError::MalformedContainer,
        },
{
    let len = s.len() as u64;
    if len < 16 {
        return Err(DecodeError::MalformedContainer);
    }
    let flags = read_u16_le(s, 0);
    let stored_uv = s[2];
    let uv_sets: u32 = if stored_uv != 0 {
        stored_uv as u32
    } else if flags & GEO_TEXTURED2 != 0 {
        2
    } else if flags & GEO_TEXTURED != 0 {
        1
    } else {
        0
    };
    let nt = read_u32_le(s, 4);
    let nv = read_u32_le(s, 8);
    let morphs = read_u32_le(s, 12);
    let surface = version < SURFACE_IN_MATERIAL_VERSION;
    let prelit = flags & GEO_PRELIT != 0;
    let prelit_off: u64 = if surface { 28 } else { 16 };
    let uv_off: u64 = prelit_off + if prelit { 4 * nv as u64 } else { 0 };
    assert(uv_sets <= 255);
    assert(uv_sets as u64 * nv as u64 <= 0xFF * 0xFFFF_FFFFu64) by (nonlinear_arith)
        requires
            uv_sets <= 255,
            nv <= 0xFFFF_FFFFu32,
    ;
    let tri_off: u64 = uv_off + 8 * (uv_sets as u64 * nv as u64);
    let morph_off: u64 = tri_off + 8 * nt as u64;
    assert(tri_off == triangle_offset(s@, version)) by (nonlinear_arith)
        requires
            tri_off == uv_off + 8 * (uv_sets as u64 * nv as u64),
            uv_off == uv_offset(s@, version),
            uv_sets == geo_uv_sets(s@),
            nv == geo_vertex_count(s@),
    ;
    if morph_off > len {
        return Err(DecodeError::MalformedContainer);
    }
    let mut has_pos = false;
    let mut has_norm = false;
    let pos_off: u64 = morph_off + 24;
    let mut norm_off: u64 = pos_off;
    let mut end: u64 = morph_off;
    if morphs != 0 {
        if pos_off > len {
            return Err(DecodeError::MalformedContainer);
        }
        has_pos = read_u32_le(s, (morph_off + 16) as usize) != 0;
        has_norm = read_u32_le(s, (morph_off + 20) as usize) != 0;
        norm_off = pos_off + if has_pos { 12 * nv as u64 } else { 0 };
        end = norm_off + if has_norm { 12 * nv as u64 } else { 0 };
        if end > len {
            return Err(DecodeError::MalformedContainer);
        }
    }
    let surface_props = if surface {
        Some(SurfaceProps {
            ambient: F32Bits { bits: read_u32_le(s, 16) },
            specular: F32Bits { bits: read_u32_le(s, 20) },
            diffuse: F32Bits { bits: read_u32_le(s, 24) },
        })
    } else {
        None
    };
    let n = nv as usize;
    let prelit_v = if prelit {
        read_rgbas(s, prelit_off as usize, n)
    } else {
        Vec::new()
    };
    let tex_coords = if uv_sets > 0 {
        assert(uv_off + 8 * nv <= tri_off) by (nonlinear_arith)
            requires
                uv_sets >= 1,
                tri_off == uv_off + 8 * (uv_sets as u64 * nv as u64),
        ;
        read_vec2s(s, uv_off as usize, n)
    } else {
        Vec::new()
    };
    let tris = read_triangles(s, tri_off as usize, nt as usize);
    let positions = if has_pos {
        read_vec3s(s, pos_off as usize, n)
    } else {
        Vec::new()
    };
    let normals = if has_norm {
        read_vec3s(s, norm_off as usize, n)
    } else {
        Vec::new()
    };
    Ok(Geometry {
        flags,
        vertex_count: nv,
        triangles: tris,
        surface: surface_props,
        prelit: prelit_v,
        uv_sets,
        tex_coords,
        positions,
        normals,
    })
}

} // verus!
