use gtc::chunk::{
    read_chunk, KIND_CLUMP, KIND_GEOMETRY, KIND_GEOMETRY_LIST, KIND_MATERIAL, KIND_MATERIAL_LIST,
    KIND_STRING, KIND_STRUCT, KIND_TEXTURE,
};
use gtc::error::DecodeError;
use gtc::geometry::library_version_of;
use gtc::material::{address_mode, AddressMode};
use gtc::mesh::{extract_geometry, load_dff};
use gtc::partition::{material_of_id, material_positions, partition, partition_all, Triangle};
use gtc::utils::{to_path, to_xzy, F32Bits};

const OLD_STAMP: u32 = 0x0800_FFFF;
const NEW_STAMP: u32 = 0x1803_FFFF;

fn chunk(kind: u32, stamp: u32, body: &[u8]) -> Vec<u8> {
    let mut out = Vec::new();
    out.extend_from_slice(&kind.to_le_bytes());
    out.extend_from_slice(&(body.len() as u32).to_le_bytes());
    out.extend_from_slice(&stamp.to_le_bytes());
    out.extend_from_slice(body);
    out
}

fn f(x: f32) -> F32Bits {
    F32Bits { bits: x.to_bits() }
}

fn put_f32(out: &mut Vec<u8>, x: f32) {
    out.extend_from_slice(&x.to_le_bytes());
}

/// Triangles as (vertex1, vertex2, vertex3, material id).
fn geometry_struct(
    with_surface: bool,
    positions: &[[f32; 3]],
    tris: &[(u16, u16, u16, u16)],
    prelit: bool,
) -> Vec<u8> {
    geometry_struct_uv(with_surface, positions, tris, prelit, 0)
}

/// Set `k` gives vertex `i` the coordinates `(i, k)`.
fn geometry_struct_uv(
    with_surface: bool,
    positions: &[[f32; 3]],
    tris: &[(u16, u16, u16, u16)],
    prelit: bool,
    uv_sets: u8,
) -> Vec<u8> {
    let nv = positions.len() as u32;
    let mut s = Vec::new();
    let flags: u16 = 0x02 | if prelit { 0x08 } else { 0 };
    s.extend_from_slice(&flags.to_le_bytes());
    s.push(uv_sets);
    s.push(0);
    s.extend_from_slice(&(tris.len() as u32).to_le_bytes());
    s.extend_from_slice(&nv.to_le_bytes());
    s.extend_from_slice(&1u32.to_le_bytes());
    if with_surface {
        put_f32(&mut s, 1.0);
        put_f32(&mut s, 0.5);
        put_f32(&mut s, 0.75);
    }
    if prelit {
        for i in 0..nv {
            s.extend_from_slice(&[i as u8, 0, 0, 255]);
        }
    }
    for k in 0..uv_sets {
        for i in 0..nv {
            put_f32(&mut s, i as f32);
            put_f32(&mut s, k as f32);
        }
    }
    for t in tris {
        s.extend_from_slice(&t.1.to_le_bytes());
        s.extend_from_slice(&t.0.to_le_bytes());
        s.extend_from_slice(&t.3.to_le_bytes());
        s.extend_from_slice(&t.2.to_le_bytes());
    }
    s.extend_from_slice(&[0; 16]);
    s.extend_from_slice(&1u32.to_le_bytes());
    s.extend_from_slice(&0u32.to_le_bytes());
    for p in positions {
        for c in p {
            put_f32(&mut s, *c);
        }
    }
    s
}

fn texture_chunk(stamp: u32, name: &str, u: u32, v: u32) -> Vec<u8> {
    let mode: u32 = 2 | (u << 8) | (v << 12);
    let mut body = chunk(KIND_STRUCT, stamp, &mode.to_le_bytes());
    let mut text = name.as_bytes().to_vec();
    text.extend_from_slice(&[0, 0, 0, 0]);
    body.extend(chunk(KIND_STRING, stamp, &text));
    body.extend(chunk(KIND_STRING, stamp, &[0, 0, 0, 0]));
    chunk(KIND_TEXTURE, stamp, &body)
}

fn material_chunk(stamp: u32, color: [u8; 4], texture: Option<Vec<u8>>) -> Vec<u8> {
    let mut s = vec![0u8; 16];
    s[4..8].copy_from_slice(&color);
    let mut body = chunk(KIND_STRUCT, stamp, &s);
    if let Some(t) = texture {
        body.extend(t);
    }
    chunk(KIND_MATERIAL, stamp, &body)
}

fn material_list(stamp: u32, table: &[i32], materials: &[Vec<u8>]) -> Vec<u8> {
    let mut s = Vec::new();
    s.extend_from_slice(&(table.len() as u32).to_le_bytes());
    for t in table {
        s.extend_from_slice(&t.to_le_bytes());
    }
    let mut body = chunk(KIND_STRUCT, stamp, &s);
    for m in materials {
        body.extend_from_slice(m);
    }
    chunk(KIND_MATERIAL_LIST, stamp, &body)
}

fn geometry_chunk(stamp: u32, geo: &[u8], mat_list: Option<Vec<u8>>) -> Vec<u8> {
    let mut body = chunk(KIND_STRUCT, stamp, geo);
    if let Some(ml) = mat_list {
        body.extend(ml);
    }
    chunk(KIND_GEOMETRY, stamp, &body)
}

fn quad() -> Vec<[f32; 3]> {
    vec![[0.0, 0.0, 0.0], [1.0, 0.0, 0.0], [1.0, 1.0, 0.5], [0.0, 1.0, -2.0]]
}

fn xzy(p: [f32; 3]) -> [F32Bits; 3] {
    [f(-p[0]), f(p[2]), f(p[1])]
}

#[test]
fn one_material_keeps_every_vertex_and_triangle() {
    let tris = [(0, 1, 2, 0), (0, 2, 3, 0)];
    let geo = geometry_struct(true, &quad(), &tris, false);
    let ml = material_list(OLD_STAMP, &[-1], &[material_chunk(OLD_STAMP, [255, 128, 0, 255], None)]);
    let gc = read_chunk(&geometry_chunk(OLD_STAMP, &geo, Some(ml))).unwrap();
    let out = extract_geometry(&gc, &b"dict".to_vec()).unwrap();
    assert_eq!(out.len(), 1);
    let (mesh, mat) = &out[0];
    assert_eq!(mesh.indices, vec![0, 1, 2, 0, 2, 3]);
    let expected: Vec<[F32Bits; 3]> = quad().into_iter().map(xzy).collect();
    assert_eq!(mesh.positions, expected);
    assert!(mesh.normals.is_empty());
    assert!(mesh.tex_coords.is_empty());
    assert!(!mesh.tristrip);
    let mat = mat.as_ref().unwrap();
    assert_eq!(mesh.vertices, vec![0, 1, 2, 3]);
    assert_eq!(mat.color, [255, 128, 0, 255]);
    assert!(mat.texture.is_none());
    assert_eq!(mat.ambient_fac, f(1.0));
    assert_eq!(mat.diffuse_fac, f(0.75));
}

#[test]
fn each_material_gets_its_own_compacted_vertices() {
    let tris = [(0, 1, 2, 0), (1, 3, 2, 1)];
    let geo = geometry_struct(true, &quad(), &tris, true);
    let mats = vec![
        material_chunk(OLD_STAMP, [1, 1, 1, 1], None),
        material_chunk(OLD_STAMP, [2, 2, 2, 2], None),
        material_chunk(OLD_STAMP, [3, 3, 3, 3], None),
    ];
    let ml = material_list(OLD_STAMP, &[-1, -1, -1], &mats);
    let gc = read_chunk(&geometry_chunk(OLD_STAMP, &geo, Some(ml))).unwrap();
    let out = extract_geometry(&gc, &b"dict".to_vec()).unwrap();
    assert_eq!(out.len(), 2);
    assert_eq!(out[0].1.as_ref().unwrap().color, [1, 1, 1, 1]);
    assert_eq!(out[0].0.indices, vec![0, 1, 2]);
    assert_eq!(out[1].1.as_ref().unwrap().color, [2, 2, 2, 2]);
    assert_eq!(out[1].0.vertices, vec![1, 2, 3]);
    assert_eq!(out[1].0.indices, vec![0, 2, 1]);
    let q = quad();
    assert_eq!(out[1].0.positions, vec![xzy(q[1]), xzy(q[2]), xzy(q[3])]);
    assert_eq!(out[1].0.colors, vec![[1, 0, 0, 255], [2, 0, 0, 255], [3, 0, 0, 255]]);
}

#[test]
fn material_ids_go_through_the_index_table() {
    assert_eq!(material_positions(&vec![-1, 0, -1]), Some(vec![0, 0, 1]));
    assert_eq!(material_positions(&vec![-1, -1, 1, 0]), Some(vec![0, 1, 1, 0]));
    assert_eq!(material_positions(&vec![-1, 3]), None);
    assert_eq!(material_of_id(&vec![0, 0, 1], 2), Some(1));
    assert_eq!(material_of_id(&vec![0, 0, 1], 3), None);
    let tris = vec![Triangle { vertex1: 0, vertex2: 1, vertex3: 2, material_id: 1 }];
    let p = partition(&tris, &vec![0, 0], 0, 3);
    assert_eq!(p.vertices, vec![0, 1, 2]);
    assert_eq!(p.indices, vec![0, 1, 2]);
}

#[test]
fn instanced_material_entry_shares_its_chunk() {
    let tris = [(0, 1, 2, 0), (1, 2, 3, 1), (0, 2, 3, 2)];
    let geo = geometry_struct(true, &quad(), &tris, false);
    let mats = vec![
        material_chunk(OLD_STAMP, [1, 1, 1, 1], None),
        material_chunk(OLD_STAMP, [2, 2, 2, 2], None),
    ];
    let ml = material_list(OLD_STAMP, &[-1, 0, -1], &mats);
    let gc = read_chunk(&geometry_chunk(OLD_STAMP, &geo, Some(ml))).unwrap();
    let out = extract_geometry(&gc, &b"d".to_vec()).unwrap();
    assert_eq!(out.len(), 2);
    assert_eq!(out[0].1.as_ref().unwrap().color, [1, 1, 1, 1]);
    assert_eq!(out[0].0.vertices, vec![0, 1, 2, 3]);
    assert_eq!(out[0].0.indices, vec![0, 1, 2, 1, 2, 3]);
    assert_eq!(out[1].1.as_ref().unwrap().color, [2, 2, 2, 2]);
    assert_eq!(out[1].0.vertices, vec![0, 2, 3]);
    assert_eq!(out[1].0.indices, vec![0, 1, 2]);
}

#[test]
fn material_id_past_the_table_is_malformed() {
    let tris = [(0, 1, 2, 1)];
    let geo = geometry_struct(true, &quad(), &tris, false);
    let ml = material_list(OLD_STAMP, &[-1], &[material_chunk(OLD_STAMP, [1, 2, 3, 4], None)]);
    let gc = read_chunk(&geometry_chunk(OLD_STAMP, &geo, Some(ml))).unwrap();
    let r = extract_geometry(&gc, &b"d".to_vec());
    assert_eq!(r.unwrap_err(), DecodeError::MalformedContainer);
    let tris = [(0, 1, 2, 0)];
    let geo = geometry_struct(true, &quad(), &tris, false);
    let ml = material_list(OLD_STAMP, &[5], &[material_chunk(OLD_STAMP, [1, 2, 3, 4], None)]);
    let gc = read_chunk(&geometry_chunk(OLD_STAMP, &geo, Some(ml))).unwrap();
    let r = extract_geometry(&gc, &b"d".to_vec());
    assert_eq!(r.unwrap_err(), DecodeError::MalformedContainer);
}

#[test]
fn texture_coordinates_only_with_a_single_set() {
    let tris = [(1, 2, 3, 0)];
    let ml = || material_list(OLD_STAMP, &[-1], &[material_chunk(OLD_STAMP, [1, 2, 3, 4], None)]);
    let one = geometry_struct_uv(true, &quad(), &tris, false, 1);
    let gc = read_chunk(&geometry_chunk(OLD_STAMP, &one, Some(ml()))).unwrap();
    let out = extract_geometry(&gc, &b"d".to_vec()).unwrap();
    assert_eq!(out[0].0.tex_coords, vec![[f(1.0), f(0.0)], [f(2.0), f(0.0)], [f(3.0), f(0.0)]]);
    let two = geometry_struct_uv(true, &quad(), &tris, false, 2);
    let gc = read_chunk(&geometry_chunk(OLD_STAMP, &two, Some(ml()))).unwrap();
    let out = extract_geometry(&gc, &b"d".to_vec()).unwrap();
    assert!(out[0].0.tex_coords.is_empty());
    assert_eq!(out[0].0.positions.len(), 3);
}

#[test]
fn partition_gives_one_part_per_material_within_its_vertices() {
    let tris = vec![
        Triangle { vertex1: 4, vertex2: 2, vertex3: 7, material_id: 1 },
        Triangle { vertex1: 7, vertex2: 0, vertex3: 4, material_id: 0 },
        Triangle { vertex1: 2, vertex2: 5, vertex3: 4, material_id: 1 },
    ];
    let parts = partition_all(&tris, &vec![0, 1, 2, 3], 4, 8);
    assert_eq!(parts.len(), 4);
    assert_eq!(parts[0].vertices, vec![0, 4, 7]);
    assert_eq!(parts[0].indices, vec![2, 0, 1]);
    assert_eq!(parts[1].vertices, vec![2, 4, 5, 7]);
    assert_eq!(parts[1].indices, vec![1, 0, 3, 0, 2, 1]);
    assert!(parts[2].vertices.is_empty() && parts[2].indices.is_empty());
    assert!(parts[3].vertices.is_empty() && parts[3].indices.is_empty());
    for p in &parts {
        for i in &p.indices {
            assert!((*i as usize) < p.vertices.len());
        }
    }
}

#[test]
fn texture_reference_and_addressing_modes() {
    let tris = [(0, 1, 2, 0)];
    let geo = geometry_struct(true, &quad(), &tris, false);
    let tex = texture_chunk(OLD_STAMP, "Brick", 1, 3);
    let ml = material_list(OLD_STAMP, &[-1], &[material_chunk(OLD_STAMP, [9, 9, 9, 9], Some(tex))]);
    let gc = read_chunk(&geometry_chunk(OLD_STAMP, &geo, Some(ml))).unwrap();
    let out = extract_geometry(&gc, &b"walls".to_vec()).unwrap();
    let t = out[0].1.as_ref().unwrap().texture.as_ref().unwrap();
    assert_eq!(t.dictionary, b"walls".to_vec());
    assert_eq!(t.name, b"brick".to_vec());
    assert_eq!(t.address_u, AddressMode::Wrap);
    assert_eq!(t.address_v, AddressMode::Clamp);
    assert_eq!(out[0].0.positions.len(), 3);
}

#[test]
fn addressing_mode_values() {
    assert_eq!(address_mode(1), Ok(AddressMode::Wrap));
    assert_eq!(address_mode(2), Ok(AddressMode::Mirror));
    assert_eq!(address_mode(3), Ok(AddressMode::Clamp));
    assert_eq!(address_mode(4), Ok(AddressMode::Border));
    assert_eq!(address_mode(0), Err(DecodeError::UnknownAddressingMode));
    assert_eq!(address_mode(5), Err(DecodeError::UnknownAddressingMode));
}

#[test]
fn no_addressing_mode_fails_that_material_only() {
    let tris = [(0, 1, 2, 0), (0, 2, 3, 1)];
    let geo = geometry_struct(true, &quad(), &tris, false);
    let tex = texture_chunk(OLD_STAMP, "brick", 0, 1);
    let mats = vec![
        material_chunk(OLD_STAMP, [9, 9, 9, 9], Some(tex)),
        material_chunk(OLD_STAMP, [7, 7, 7, 7], None),
    ];
    let ml = material_list(OLD_STAMP, &[-1, -1], &mats);
    let gc = read_chunk(&geometry_chunk(OLD_STAMP, &geo, Some(ml))).unwrap();
    let out = extract_geometry(&gc, &b"walls".to_vec()).unwrap();
    assert_eq!(out.len(), 2);
    assert_eq!(out[0].1.as_ref().unwrap_err(), &DecodeError::UnknownAddressingMode);
    assert_eq!(out[0].0.indices, vec![0, 1, 2]);
    assert_eq!(out[1].1.as_ref().unwrap().color, [7, 7, 7, 7]);
}

#[test]
fn geometry_without_material_list_fails_alone() {
    let tris = [(0, 1, 2, 0)];
    let geo = geometry_struct(true, &quad(), &tris, false);
    let good_ml = material_list(OLD_STAMP, &[-1], &[material_chunk(OLD_STAMP, [1, 2, 3, 4], None)]);
    let mut list = chunk(KIND_STRUCT, OLD_STAMP, &2u32.to_le_bytes());
    list.extend(geometry_chunk(OLD_STAMP, &geo, None));
    list.extend(geometry_chunk(OLD_STAMP, &geo, Some(good_ml)));
    let mut clump = chunk(KIND_STRUCT, OLD_STAMP, &[1, 0, 0, 0, 0, 0, 0, 0, 0, 0, 0, 0]);
    clump.extend(chunk(KIND_GEOMETRY_LIST, OLD_STAMP, &list));
    let model = read_chunk(&chunk(KIND_CLUMP, OLD_STAMP, &clump)).unwrap();
    let res = load_dff(&model, &b"d".to_vec()).unwrap();
    assert_eq!(res.len(), 2);
    assert_eq!(res[0].as_ref().unwrap_err(), &DecodeError::MissingMaterialList);
    assert_eq!(res[1].as_ref().unwrap().len(), 1);
}

#[test]
fn model_without_geometry_list_is_invalid() {
    let model = read_chunk(&chunk(KIND_CLUMP, OLD_STAMP, &chunk(KIND_STRUCT, OLD_STAMP, &[0; 12])))
        .unwrap();
    assert_eq!(load_dff(&model, &b"d".to_vec()).unwrap_err(), DecodeError::InvalidContainer);
}

#[test]
fn triangle_index_past_vertices_is_malformed() {
    let tris = [(0, 1, 4, 0)];
    let geo = geometry_struct(true, &quad(), &tris, false);
    let ml = material_list(OLD_STAMP, &[-1], &[material_chunk(OLD_STAMP, [1, 2, 3, 4], None)]);
    let gc = read_chunk(&geometry_chunk(OLD_STAMP, &geo, Some(ml))).unwrap();
    let r = extract_geometry(&gc, &b"d".to_vec());
    assert_eq!(r.unwrap_err(), DecodeError::MalformedContainer);
}

#[test]
fn newer_files_take_surface_from_the_material() {
    let tris = [(0, 1, 2, 0)];
    let geo = geometry_struct(false, &quad(), &tris, false);
    let mut s = vec![0u8; 16];
    s[4..8].copy_from_slice(&[5, 6, 7, 8]);
    s.extend_from_slice(&0.25f32.to_le_bytes());
    s.extend_from_slice(&0.0f32.to_le_bytes());
    s.extend_from_slice(&0.5f32.to_le_bytes());
    let mat = chunk(KIND_MATERIAL, NEW_STAMP, &chunk(KIND_STRUCT, NEW_STAMP, &s));
    let ml = material_list(NEW_STAMP, &[-1], &[mat]);
    let gc = read_chunk(&geometry_chunk(NEW_STAMP, &geo, Some(ml))).unwrap();
    let out = extract_geometry(&gc, &b"d".to_vec()).unwrap();
    let mat = out[0].1.as_ref().unwrap();
    assert_eq!(mat.ambient_fac, f(0.25));
    assert_eq!(mat.diffuse_fac, f(0.5));
}

#[test]
fn missing_surface_properties_are_an_error() {
    let tris = [(0, 1, 2, 0)];
    let geo = geometry_struct(false, &quad(), &tris, false);
    let ml = material_list(NEW_STAMP, &[-1], &[material_chunk(NEW_STAMP, [1, 2, 3, 4], None)]);
    let gc = read_chunk(&geometry_chunk(NEW_STAMP, &geo, Some(ml))).unwrap();
    let out = extract_geometry(&gc, &b"d".to_vec()).unwrap();
    assert_eq!(out.len(), 1);
    assert_eq!(out[0].1.as_ref().unwrap_err(), &DecodeError::MissingSurfaceProperties);
}

#[test]
fn library_versions_from_stamps() {
    assert_eq!(library_version_of(0x0310), 0x31000);
    assert_eq!(library_version_of(OLD_STAMP), 0x32000);
    assert_eq!(library_version_of(0x0C02_FFFF), 0x33002);
    assert_eq!(library_version_of(NEW_STAMP), 0x36003);
}

#[test]
fn axis_conversion_and_its_inverse() {
    let p = [f(1.5), f(-2.0), f(3.0)];
    let q = to_xzy(p);
    assert_eq!(q, [f(-1.5), f(3.0), f(-2.0)]);
    assert_eq!(to_xzy(q), p);
    assert_eq!(to_xzy([1i32, 2, 3]), [-1, 3, 2]);
}

#[test]
fn windows_separators_become_slashes() {
    assert_eq!(to_path("models\\gta3.img"), "models/gta3.img");
    assert_eq!(to_path("data/maps"), "data/maps");
}
