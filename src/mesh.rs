use vstd::prelude::*;

use crate::bytes::{read_u32_le, u32_le};
use crate::chunk::{
    first_of_kind, has_struct, struct_data, Chunk, KIND_GEOMETRY, KIND_GEOMETRY_LIST, KIND_MATERIAL, KIND_MATERIAL_LIST,
    KIND_STRUCT,
};
use crate::error::DecodeError;
use crate::geometry::{
    geometry_fits, geometry_model, library_version, library_version_of, parse_geometry,
    Geometry, GeometryModel, GEO_TRISTRIP,
};
use crate::material::{material_spec, resolve_material, GTAMaterial, MaterialView};
use crate::partition::{
    indices_valid, lemma_kept_bounded, material_positions, part_indices, part_vertices,
    partition_all, positions_of, table_valid, MeshPart, Triangle,
};
use crate::utils::{to_xzy, xzy_of, F32Bits};

verus! {

/// The part of a geometry drawn with one material, ready for a renderer:
/// per-vertex arrays in the Y-up convention and an index list.
#[derive(Clone, Debug)]
pub struct Mesh {
    /// Indices form a triangle strip rather than a list.
    pub tristrip: bool,
    /// The geometry-wide index of each vertex of the mesh.
    pub vertices: Vec<u32>,
    pub positions: Vec<[F32Bits; 3]>,
    /// Empty when the geometry has no normals.
    pub normals: Vec<[F32Bits; 3]>,
    /// Empty unless the geometry has exactly one texture coordinate set.
    pub tex_coords: Vec<[F32Bits; 2]>,
    /// Empty when the geometry has no vertex colours.
    pub colors: Vec<[u8; 4]>,
    pub indices: Vec<u16>,
}

pub struct MeshModel {
    pub tristrip: bool,
    pub vertices: Seq<u32>,
    pub positions: Seq<[F32Bits; 3]>,
    pub normals: Seq<[F32Bits; 3]>,
    pub tex_coords: Seq<[F32Bits; 2]>,
    pub colors: Seq<[u8; 4]>,
    pub indices: Seq<u16>,
}

impl View for Mesh {
    type V = MeshModel;

    open spec fn view(&self) -> MeshModel {
        MeshModel {
            tristrip: self.tristrip,
            vertices: self.vertices@,
            positions: self.positions@,
            normals: self.normals@,
            tex_coords: self.tex_coords@,
            colors: self.colors@,
            indices: self.indices@,
        }
    }
}

/// The entries `keep` of a per-vertex array, converted to Y-up; nothing when
/// the geometry does not have the array.
pub open spec fn pick_xzy(attr: Seq<[F32Bits; 3]>, keep: Seq<u32>) -> Seq<[F32Bits; 3]> {
    if attr.len() == 0 {
        Seq::empty()
    } else {
        keep.map_values(|k: u32| xzy_of(attr[k as int]))
    }
}

/// The entries `keep` of a per-vertex array; nothing when the geometry does
/// not have the array.
pub open spec fn pick<T>(attr: Seq<T>, keep: Seq<u32>) -> Seq<T> {
    if attr.len() == 0 {
        Seq::empty()
    } else {
        keep.map_values(|k: u32| attr[k as int])
    }
}

/// The mesh of material `m` of geometry `g`, whose material ids stand for
/// the material positions `positions`. Texture coordinates are carried only
/// when the geometry has a single set.
pub open spec fn mesh_model(g: GeometryModel, positions: Seq<u32>, m: int) -> MeshModel {
    let keep = part_vertices(g.triangles, positions, m, g.vertex_count);
    MeshModel {
        tristrip: g.flags & GEO_TRISTRIP != 0,
        vertices: keep,
        positions: pick_xzy(g.positions, keep),
        normals: pick_xzy(g.normals, keep),
        tex_coords: if g.uv_sets == 1 {
            pick(g.tex_coords, keep)
        } else {
            Seq::empty()
        },
        colors: pick(g.prelit, keep),
        indices: part_indices(g.triangles, positions, m, g.vertex_count),
    }
}

/// Every triangle's material id is an entry of a table of `n` entries.
pub open spec fn ids_in_table(tris: Seq<Triangle>, n: nat) -> bool {
    forall|i: int| 0 <= i < tris.len() ==> (#[trigger] tris[i]).material_id < n
}

/// A mesh and what its material resolved to; an unusable material fails
/// alone.
pub type MeshOutput = (Mesh, Result<GTAMaterial, DecodeError>);

pub type MeshOutputView = (MeshModel, Result<MaterialView, DecodeError>);

pub open spec fn material_result_view(r: Result<GTAMaterial, DecodeError>) -> Result<
    MaterialView,
    DecodeError,
> {
    match r {
        Ok(m) => Ok(m.view_of()),
        Err(e) => Err(e),
    }
}

/// Every per-vertex array is either absent or has one entry per vertex,
/// positions are present, and every triangle index names a vertex.
pub open spec fn geometry_consistent(g: GeometryModel) -> bool {
    &&& g.positions.len() == g.vertex_count
    &&& g.normals.len() == 0 || g.normals.len() == g.vertex_count
    &&& g.tex_coords.len() == 0 || g.tex_coords.len() == g.vertex_count
    &&& g.prelit.len() == 0 || g.prelit.len() == g.vertex_count
    &&& indices_valid(g.triangles, g.vertex_count)
}

/// The material list's index table is all there.
pub open spec fn table_fits(s: Seq<u8>) -> bool {
    s.len() >= 4 && s.len() >= 4 + 4 * u32_le(s, 0) as int
}

/// The material list's index table: for each material id, the position it
/// stands for, or -1 for itself.
pub open spec fn table_model(s: Seq<u8>) -> Seq<i32> {
    Seq::new(u32_le(s, 0) as nat, |k: int| u32_le(s, 4 + 4 * k) as i32)
}

/// How many of `cs[..n]` are materials.
pub open spec fn material_count(cs: Seq<Chunk>, n: int) -> int
    decreases n,
{
    if n <= 0 {
        0
    } else {
        material_count(cs, n - 1) + if cs[n - 1].kind == KIND_MATERIAL {
            1int
        } else {
            0int
        }
    }
}

/// The meshes of the material chunks among `cs[..n]`, each with what its
/// material resolves to. A material that no triangle uses gives no mesh.
pub open spec fn meshes_spec(
    cs: Seq<Chunk>,
    n: int,
    g: GeometryModel,
    positions: Seq<u32>,
    version: u32,
    dictionary: Seq<u8>,
) -> Seq<MeshOutputView>
    decreases n,
{
    if n <= 0 {
        Seq::empty()
    } else {
        let s = meshes_spec(cs, n - 1, g, positions, version, dictionary);
        if cs[n - 1].kind != KIND_MATERIAL {
            s
        } else {
            let mesh = mesh_model(g, positions, material_count(cs, n - 1));
            if mesh.indices.len() == 0 {
                s
            } else {
                s.push((mesh, material_spec(cs[n - 1], version, g.surface, dictionary)))
            }
        }
    }
}

/// What the geometry chunk `gc` decodes to, with textures looked up in the
/// dictionary `dictionary`.
pub open spec fn geometry_spec(gc: Chunk, dictionary: Seq<u8>) -> Result<
    Seq<MeshOutputView>,
    DecodeError,
> {
    let version = library_version(gc.version);
    let s = struct_data(gc);
    let k = first_of_kind(gc.children@, KIND_MATERIAL_LIST, 0);
    if !has_struct(gc, 0) || !geometry_fits(s, version) {
        Err(DecodeError::MalformedContainer)
    } else if !geometry_consistent(geometry_model(s, version)) {
        Err(DecodeError::MalformedContainer)
    } else if k >= gc.children@.len() {
        Err(DecodeError::MissingMaterialList)
    } else if !has_struct(gc.children@[k], 0) || !table_fits(struct_data(gc.children@[k])) {
        Err(DecodeError::MalformedContainer)
    } else if !table_valid(table_model(struct_data(gc.children@[k]))) || !ids_in_table(
        geometry_model(s, version).triangles,
        table_model(struct_data(gc.children@[k])).len(),
    ) {
        Err(DecodeError::MalformedContainer)
    } else {
        let ml = gc.children@[k];
        Ok(
            meshes_spec(
                ml.children@,
                ml.children@.len() as int,
                geometry_model(s, version),
                positions_of(table_model(struct_data(ml))),
                version,
                dictionary,
            ),
        )
    }
}

pub open spec fn outputs_view(v: Seq<MeshOutput>) -> Seq<MeshOutputView> {
    v.map_values(|x: MeshOutput| (x.0@, material_result_view(x.1)))
}

proof fn lemma_material_count_grows(cs: Seq<Chunk>, i: int, n: int)
    requires
        0 <= i < n <= cs.len(),
        cs[i].kind == KIND_MATERIAL,
    ensures
        material_count(cs, i) < material_count(cs, n),
    decreases n - i,
{
    if n > i + 1 {
        lemma_material_count_grows(cs, i, n - 1);
    }
}

/// Whether every triangle's material id is below `n`.
fn ids_fit(tris: &Vec<Triangle>, n: usize) -> (r: bool)
    ensures
        r == ids_in_table(tris@, n as nat),
{
    let mut i: usize = 0;
    while i < tris.len()
        invariant
            i <= tris@.len(),
            forall|j: int| 0 <= j < i ==> (#[trigger] tris@[j]).material_id < n,
        decreases tris@.len() - i,
    {
        if tris[i].material_id as usize >= n {
            return false;
        }
        i = i + 1;
    }
    true
}

/// Reads a material list's index table from its structure data.
fn read_table(s: &[u8]) -> (r: Result<Vec<i32>, DecodeError>)
    ensures
        match r {
            Ok(t) => table_fits(s@) && t@ == table_model(s@),
            Err(e) => !table_fits(s@) && e == DecodeError::MalformedContainer,
        },
{
    if s.len() < 4 {
        return Err(DecodeError::MalformedContainer);
    }
    let count = read_u32_le(s, 0);
    if (s.len() as u64 - 4) / 4 < count as u64 {
        return Err(DecodeError::MalformedContainer);
    }
    let n = count as usize;
    let slen = s.len();
    let mut t: Vec<i32> = Vec::new();
    let mut k: usize = 0;
    while k < n
        invariant
            k <= n,
            n == u32_le(s@, 0),
            slen == s@.len(),
            4 + 4 * n <= s@.len(),
            t@ =~= table_model(s@).subrange(0, k as int),
        decreases n - k,
    {
        t.push(read_u32_le(s, 4 + 4 * k) as i32);
        k = k + 1;
    }
    Ok(t)
}

/// Whether the geometry's arrays agree with its vertex count and every
/// triangle index names a vertex.
fn is_consistent(g: &Geometry) -> (r: bool)
    ensures
        r == geometry_consistent(g@),
{
    let nv = g.vertex_count as usize;
    if g.positions.len() != nv || (g.normals.len() != 0 && g.normals.len() != nv) || (
    g.tex_coords.len() != 0 && g.tex_coords.len() != nv) || (g.prelit.len() != 0
        && g.prelit.len() != nv) {
        return false;
    }
    let mut i: usize = 0;
    while i < g.triangles.len()
        invariant
            i <= g.triangles@.len(),
            nv == g.vertex_count,
            forall|j: int|
                0 <= j < i ==> (#[trigger] g.triangles@[j]).vertex1 < nv
                    && g.triangles@[j].vertex2 < nv && g.triangles@[j].vertex3 < nv,
        decreases g.triangles@.len() - i,
    {
        let t = g.triangles[i];
        if t.vertex1 as usize >= nv || t.vertex2 as usize >= nv || t.vertex3 as usize >= nv {
            return false;
        }
        i = i + 1;
    }
    true
}

/// The entries `keep` of `attr`, converted to Y-up, or nothing if `attr` is empty.
fn gather_xzy(attr: &Vec<[F32Bits; 3]>, keep: &Vec<u32>) -> (r: Vec<[F32Bits; 3]>)
    requires
        forall|k: int| 0 <= k < keep@.len() ==> (#[trigger] keep@[k]) < attr@.len() || attr@.len() == 0,
    ensures
        r@ == pick_xzy(attr@, keep@),
{
    let mut out: Vec<[F32Bits; 3]> = Vec::new();
    if attr.len() == 0 {
        return out;
    }
    let mut i: usize = 0;
    while i < keep.len()
        invariant
            i <= keep@.len(),
            attr@.len() > 0,
            forall|k: int| 0 <= k < keep@.len() ==> (#[trigger] keep@[k]) < attr@.len(),
            out@ =~= keep@.subrange(0, i as int).map_values(|k: u32| xzy_of(attr@[k as int])),
        decreases keep@.len() - i,
    {
        let p = to_xzy(attr[keep[i] as usize]);
        assert(p =~= xzy_of(attr@[keep@[i as int] as int]));
        out.push(p);
        i = i + 1;
    }
    assert(keep@.subrange(0, keep@.len() as int) =~= keep@);
    out
}

/// The entries `keep` of `attr`, or nothing if `attr` is empty.
fn gather<T: Copy>(attr: &Vec<T>, keep: &Vec<u32>) -> (r: Vec<T>)
    requires
        forall|k: int| 0 <= k < keep@.len() ==> (#[trigger] keep@[k]) < attr@.len() || attr@.len() == 0,
    ensures
        r@ == pick(attr@, keep@),
{
    let mut out: Vec<T> = Vec::new();
    if attr.len() == 0 {
        return out;
    }
    let mut i: usize = 0;
    while i < keep.len()
        invariant
            i <= keep@.len(),
            attr@.len() > 0,
            forall|k: int| 0 <= k < keep@.len() ==> (#[trigger] keep@[k]) < attr@.len(),
            out@ =~= keep@.subrange(0, i as int).map_values(|k: u32| attr@[k as int]),
        decreases keep@.len() - i,
    {
        out.push(attr[keep[i] as usize]);
        i = i + 1;
    }
    assert(keep@.subrange(0, keep@.len() as int) =~= keep@);
    out
}

/// Gathers the mesh of one part: the kept vertices' attributes, converted
/// to Y-up, and the part's indices.
fn build_mesh(g: &Geometry, part: &MeshPart, positions: &Vec<u32>, m: u64) -> (r: Mesh)
    requires
        geometry_consistent(g@),
        part.vertices@ == part_vertices(g@.triangles, positions@, m as int, g@.vertex_count),
        part.indices@ == part_indices(g@.triangles, positions@, m as int, g@.vertex_count),
    ensures
        r@ == mesh_model(g@, positions@, m as int),
{
    let ghost keep = part.vertices@;
    let ghost nv = g@.vertex_count;
    proof {
        let sel = crate::partition::selected(
            g@.triangles,
            positions@,
            m as int,
            g@.triangles.len() as int,
        );
        assert forall|k: int| 0 <= k < keep.len() implies (#[trigger] keep[k]) < nv by {
            lemma_kept_bounded(crate::partition::used_flags(sel, nv), nv as int, k);
        }
    }
    let positions = gather_xzy(&g.positions, &part.vertices);
    let normals = gather_xzy(&g.normals, &part.vertices);
    let tex_coords = if g.uv_sets == 1 {
        gather(&g.tex_coords, &part.vertices)
    } else {
        Vec::new()
    };
    let colors = gather(&g.prelit, &part.vertices);
    let indices = part.indices.clone();
    let vertices = part.vertices.clone();
    Mesh {
        tristrip: g.flags & GEO_TRISTRIP != 0,
        vertices,
        positions,
        normals,
        tex_coords,
        colors,
        indices,
    }
}

/// `r` is the decode of a geometry whose specified outcome is `s`.
pub open spec fn result_matches(
    r: Result<Vec<MeshOutput>, DecodeError>,
    s: Result<Seq<MeshOutputView>, DecodeError>,
) -> bool {
    match (r, s) {
        (Ok(v), Ok(w)) => outputs_view(v@) == w,
        (Err(e), Err(e2)) => e == e2,
        _ => false,
    }
}

/// Decodes one geometry chunk into one mesh per material that its triangles
/// use, each with its resolved material or why that material is unusable.
/// Textures are referred to in the dictionary `dictionary`.
pub fn extract_geometry(gc: &Chunk, dictionary: &Vec<u8>) -> (r: Result<
    Vec<MeshOutput>,
    DecodeError,
>)
    ensures
        result_matches(r, geometry_spec(*gc, dictionary@)),
{
    let version = library_version_of(gc.version);
    if gc.children.len() < 1 || gc.children[0].kind != KIND_STRUCT {
        return Err(DecodeError::MalformedContainer);
    }
    let g = match parse_geometry(gc.children[0].data.as_slice(), version) {
        Ok(g) => g,
        Err(e) => return Err(e),
    };
    if !is_consistent(&g) {
        return Err(DecodeError::MalformedContainer);
    }
    let k = match gc.find_child(KIND_MATERIAL_LIST) {
        Some(k) => k,
        None => return Err(DecodeError::MissingMaterialList),
    };
    let ml = &gc.children[k];
    if ml.children.len() < 1 || ml.children[0].kind != KIND_STRUCT {
        return Err(DecodeError::MalformedContainer);
    }
    let table = match read_table(ml.children[0].data.as_slice()) {
        Ok(t) => t,
        Err(e) => return Err(e),
    };
    let positions = match material_positions(&table) {
        Some(p) => p,
        None => return Err(DecodeError::MalformedContainer),
    };
    if !ids_fit(&g.triangles, table.len()) {
        return Err(DecodeError::MalformedContainer);
    }
    let cs = &ml.children;
    let mut total: u64 = 0;
    let mut i: usize = 0;
    while i < cs.len()
        invariant
            i <= cs@.len(),
            total == material_count(cs@, i as int),
            total <= i,
        decreases cs@.len() - i,
    {
        if cs[i].kind == KIND_MATERIAL {
            total = total + 1;
        }
        i = i + 1;
    }
    let parts = partition_all(&g.triangles, &positions, total, g.vertex_count);
    let ghost gm = g@;
    let mut out: Vec<MeshOutput> = Vec::new();
    let mut mc: u64 = 0;
    assert(outputs_view(out@) =~= Seq::empty());
    assert(geometry_spec(*gc, dictionary@) == Ok::<Seq<MeshOutputView>, DecodeError>(
        meshes_spec(cs@, cs@.len() as int, gm, positions@, version, dictionary@),
    ));
    i = 0;
    while i < cs.len()
        invariant
            i <= cs@.len(),
            gm == g@,
            geometry_spec(*gc, dictionary@) == Ok::<Seq<MeshOutputView>, DecodeError>(
                meshes_spec(cs@, cs@.len() as int, gm, positions@, version, dictionary@),
            ),
            geometry_consistent(gm),
            cs@ == ml.children@,
            total == material_count(cs@, cs@.len() as int),
            mc == material_count(cs@, i as int),
            parts@.len() == total,
            forall|m: int|
                0 <= m < total ==> crate::partition::part_of(
                    #[trigger] parts@[m],
                    gm.triangles,
                    positions@,
                    m,
                    gm.vertex_count,
                ),
            meshes_spec(cs@, i as int, gm, positions@, version, dictionary@) == outputs_view(
                out@,
            ),
        decreases cs@.len() - i,
    {
        if cs[i].kind == KIND_MATERIAL {
            proof {
                lemma_material_count_grows(cs@, i as int, cs@.len() as int);
            }
            let part = &parts[mc as usize];
            assert(crate::partition::part_of(
                parts@[mc as int],
                gm.triangles,
                positions@,
                mc as int,
                gm.vertex_count,
            ));
            if part.indices.len() > 0 {
                let mesh = build_mesh(&g, part, &positions, mc);
                let mat = resolve_material(&cs[i], version, g.surface, dictionary);
                assert(material_result_view(mat) == material_spec(
                    cs@[i as int],
                    version,
                    gm.surface,
                    dictionary@,
                ));
                let ghost before = out@;
                out.push((mesh, mat));
                assert(outputs_view(out@) =~= outputs_view(before).push(
                    (mesh@, material_result_view(mat)),
                ));
            }
            mc = mc + 1;
        }
        i = i + 1;
    }
    Ok(out)
}

/// What each geometry among `cs[..n]` decodes to; the first child is the
/// list's own data.
pub open spec fn dff_spec(cs: Seq<Chunk>, n: int, dictionary: Seq<u8>) -> Seq<
    Result<Seq<MeshOutputView>, DecodeError>,
>
    decreases n,
{
    if n <= 1 {
        Seq::empty()
    } else if cs[n - 1].kind == KIND_GEOMETRY {
        dff_spec(cs, n - 1, dictionary).push(geometry_spec(cs[n - 1], dictionary))
    } else {
        dff_spec(cs, n - 1, dictionary)
    }
}

/// The geometry list of a model chunk.
pub open spec fn geometry_list(model: Chunk) -> Chunk {
    model.children@[first_of_kind(model.children@, KIND_GEOMETRY_LIST, 0)]
}

/// Decodes every geometry of a model: for each, in order, its meshes and
/// materials or why it failed. A failing geometry does not stop the others.
/// Fails only when the model has no geometry list.
pub fn load_dff(model: &Chunk, dictionary: &Vec<u8>) -> (r: Result<
    Vec<Result<Vec<MeshOutput>, DecodeError>>,
    DecodeError,
>)
    ensures
        first_of_kind(model.children@, KIND_GEOMETRY_LIST, 0) >= model.children@.len() ==> r
            is Err && r->Err_0 == DecodeError::InvalidContainer,
        first_of_kind(model.children@, KIND_GEOMETRY_LIST, 0) < model.children@.len() ==> r is Ok
            && ({
            let cs = geometry_list(*model).children@;
            let s = dff_spec(cs, cs.len() as int, dictionary@);
            r->Ok_0@.len() == s.len() && forall|j: int|
                0 <= j < s.len() ==> result_matches(#[trigger] r->Ok_0@[j], s[j])
        }),
{
    let k = match model.find_child(KIND_GEOMETRY_LIST) {
        Some(k) => k,
        None => return Err(DecodeError::InvalidContainer),
    };
    let cs = &model.children[k].children;
    let mut res: Vec<Result<Vec<MeshOutput>, DecodeError>> = Vec::new();
    let mut i: usize = 1;
    while i < cs.len()
        invariant
            1 <= i,
            i <= cs@.len() || i == 1,
            cs@ == geometry_list(*model).children@,
            res@.len() == dff_spec(cs@, i as int, dictionary@).len(),
            forall|j: int|
                0 <= j < res@.len() ==> result_matches(
                    #[trigger] res@[j],
                    dff_spec(cs@, i as int, dictionary@)[j],
                ),
        decreases cs@.len() - i,
    {
        let ghost prev = dff_spec(cs@, i as int, dictionary@);
        let ghost before = res@;
        if cs[i].kind == KIND_GEOMETRY {
            let g = extract_geometry(&cs[i], dictionary);
            res.push(g);
            assert(dff_spec(cs@, i + 1, dictionary@) == prev.push(geometry_spec(cs@[i as int], dictionary@)));
            assert forall|j: int| 0 <= j < res@.len() implies result_matches(
                #[trigger] res@[j],
                dff_spec(cs@, i + 1, dictionary@)[j],
            ) by {
                if j < before.len() {
                    assert(res@[j] == before[j]);
                }
            }
        }
        i = i + 1;
    }
    proof {
        if cs@.len() == 0 {
            assert(dff_spec(cs@, 0, dictionary@) =~= dff_spec(cs@, 1, dictionary@));
        } else {
            assert(i == cs@.len());
        }
    }
    Ok(res)
}

} // verus!
