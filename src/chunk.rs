use vstd::prelude::*;

use crate::bytes::{copy_range, read_u32_le, u32_le};
use crate::error::DecodeError;

verus! {

/// Chunk kind: raw structure data of the enclosing chunk.
pub const KIND_STRUCT: u32 = 0x01;
/// Chunk kind: a NUL-terminated string.
pub const KIND_STRING: u32 = 0x02;
/// Chunk kind: plugin extensions, kept as opaque bytes.
pub const KIND_EXTENSION: u32 = 0x03;
/// Chunk kind: a reference to a texture by name.
pub const KIND_TEXTURE: u32 = 0x06;
/// Chunk kind: one material.
pub const KIND_MATERIAL: u32 = 0x07;
/// Chunk kind: the materials of one geometry.
pub const KIND_MATERIAL_LIST: u32 = 0x08;
/// Chunk kind: the frame hierarchy of a model.
pub const KIND_FRAME_LIST: u32 = 0x0E;
/// Chunk kind: one geometry.
pub const KIND_GEOMETRY: u32 = 0x0F;
/// Chunk kind: a whole model.
pub const KIND_CLUMP: u32 = 0x10;
/// Chunk kind: binds a geometry to a frame.
pub const KIND_ATOMIC: u32 = 0x14;
/// Chunk kind: one texture with its pixels.
pub const KIND_RASTER: u32 = 0x15;
/// Chunk kind: a texture dictionary.
pub const KIND_TEXTURE_DICTIONARY: u32 = 0x16;
/// Chunk kind: the geometries of a model.
pub const KIND_GEOMETRY_LIST: u32 = 0x1A;

/// Every chunk starts with its kind, its body length and a library version.
pub const HEADER_LEN: usize = 12;

/// One node of the container format. A container's body is a sequence of
/// child chunks; any other chunk keeps its body as bytes.
#[derive(Debug)]
pub struct Chunk {
    pub kind: u32,
    pub version: u32,
    pub data: Vec<u8>,
    pub children: Vec<Chunk>,
}

/// The kinds whose body is a sequence of chunks.
pub open spec fn is_container(kind: u32) -> bool {
    kind == KIND_TEXTURE || kind == KIND_MATERIAL || kind == KIND_MATERIAL_LIST || kind
        == KIND_FRAME_LIST || kind == KIND_GEOMETRY || kind == KIND_CLUMP || kind == KIND_ATOMIC
        || kind == KIND_RASTER || kind == KIND_TEXTURE_DICTIONARY || kind == KIND_GEOMETRY_LIST
}

/// Header plus body length of the chunk that starts `b`.
pub open spec fn chunk_len(b: Seq<u8>) -> int {
    HEADER_LEN + u32_le(b, 4) as int
}

/// `b` is exactly one well-formed chunk.
pub open spec fn chunk_ok(b: Seq<u8>) -> bool
    decreases b.len(), 0int,
{
    b.len() >= HEADER_LEN && b.len() == chunk_len(b) && (is_container(u32_le(b, 0)) ==> list_ok(
        b.subrange(HEADER_LEN as int, b.len() as int),
    ))
}

/// `b` is a sequence of well-formed chunks, back to back, filling it exactly.
pub open spec fn list_ok(b: Seq<u8>) -> bool
    decreases b.len(), 1int,
{
    if b.len() == 0 {
        true
    } else {
        b.len() >= HEADER_LEN && chunk_len(b) <= b.len() && chunk_ok(b.subrange(0, chunk_len(b)))
            && list_ok(b.subrange(chunk_len(b), b.len() as int))
    }
}

/// `c` is the chunk that the bytes `b` hold.
pub open spec fn chunk_encodes(c: Chunk, b: Seq<u8>) -> bool
    decreases b.len(), 0int,
{
    b.len() >= HEADER_LEN && b.len() == chunk_len(b) && c.kind == u32_le(b, 0) && c.version
        == u32_le(b, 8) && if is_container(c.kind) {
        c.data@.len() == 0 && list_encodes(
            c.children@,
            b.subrange(HEADER_LEN as int, b.len() as int),
        )
    } else {
        c.children@.len() == 0 && c.data@ == b.subrange(HEADER_LEN as int, b.len() as int)
    }
}

/// `cs` are the chunks that the bytes `b` hold, in order.
pub open spec fn list_encodes(cs: Seq<Chunk>, b: Seq<u8>) -> bool
    decreases b.len(), 1int,
{
    if b.len() == 0 {
        cs.len() == 0
    } else {
        cs.len() > 0 && b.len() >= HEADER_LEN && chunk_len(b) <= b.len() && chunk_encodes(
            cs[0],
            b.subrange(0, chunk_len(b)),
        ) && list_encodes(cs.drop_first(), b.subrange(chunk_len(b), b.len() as int))
    }
}

/// The bytes of the first chunk of `b`, when its header fits.
pub open spec fn first_chunk(b: Seq<u8>) -> Seq<u8> {
    b.subrange(0, chunk_len(b))
}

/// The first chunk of `b` is there and well-formed; bytes after it are ignored.
pub open spec fn starts_with_chunk(b: Seq<u8>) -> bool {
    b.len() >= HEADER_LEN && chunk_len(b) <= b.len() && chunk_ok(first_chunk(b))
}

fn is_container_kind(kind: u32) -> (r: bool)
    ensures
        r == is_container(kind),
{
    kind == KIND_TEXTURE || kind == KIND_MATERIAL || kind == KIND_MATERIAL_LIST || kind
        == KIND_FRAME_LIST || kind == KIND_GEOMETRY || kind == KIND_CLUMP || kind == KIND_ATOMIC
        || kind == KIND_RASTER || kind == KIND_TEXTURE_DICTIONARY || kind == KIND_GEOMETRY_LIST
}

/// Parses `b[start..end]` as exactly one chunk.
fn parse_chunk_at(b: &[u8], start: usize, end: usize) -> (r: Result<Chunk, DecodeError>)
    requires
        start <= end <= b@.len(),
    ensures
        match r {
            Ok(c) => chunk_ok(b@.subrange(start as int, end as int)) && chunk_encodes(
                c,
                b@.subrange(start as int, end as int),
            ),
            Err(e) => !chunk_ok(b@.subrange(start as int, end as int)) && e
                == DecodeError::MalformedContainer,
        },
    decreases end - start, 0int,
{
    let ghost s = b@.subrange(start as int, end as int);
    if end - start < HEADER_LEN {
        return Err(DecodeError::MalformedContainer);
    }
    let kind = read_u32_le(b, start);
    let size = read_u32_le(b, start + 4);
    let version = read_u32_le(b, start + 8);
    assert(u32_le(s, 0) == kind && u32_le(s, 4) == size && u32_le(s, 8) == version);
    if (end - start - HEADER_LEN) as u64 != size as u64 {
        return Err(DecodeError::MalformedContainer);
    }
    let body_start = start + HEADER_LEN;
    assert(s.subrange(HEADER_LEN as int, s.len() as int) =~= b@.subrange(
        body_start as int,
        end as int,
    ));
    if is_container_kind(kind) {
        match parse_list_at(b, body_start, end) {
            Ok(children) => Ok(Chunk { kind, version, data: Vec::new(), children }),
            Err(e) => Err(e),
        }
    } else {
        let data = copy_range(b, body_start, end);
        Ok(Chunk { kind, version, data, children: Vec::new() })
    }
}

/// Parses `b[start..end]` as a sequence of chunks that fills it exactly.
fn parse_list_at(b: &[u8], start: usize, end: usize) -> (r: Result<Vec<Chunk>, DecodeError>)
    requires
        start <= end <= b@.len(),
    ensures
        match r {
            Ok(cs) => list_ok(b@.subrange(start as int, end as int)) && list_encodes(
                cs@,
                b@.subrange(start as int, end as int),
            ),
            Err(e) => !list_ok(b@.subrange(start as int, end as int)) && e
                == DecodeError::MalformedContainer,
        },
    decreases end - start, 1int,
{
    let ghost s = b@.subrange(start as int, end as int);
    if start == end {
        return Ok(Vec::new());
    }
    if end - start < HEADER_LEN {
        return Err(DecodeError::MalformedContainer);
    }
    let size = read_u32_le(b, start + 4);
    assert(u32_le(s, 4) == size);
    if (size as u64) > (end - start - HEADER_LEN) as u64 {
        return Err(DecodeError::MalformedContainer);
    }
    let next = start + HEADER_LEN + size as usize;
    assert(s.subrange(0, chunk_len(s)) =~= b@.subrange(start as int, next as int));
    assert(s.subrange(chunk_len(s), s.len() as int) =~= b@.subrange(next as int, end as int));
    let first = match parse_chunk_at(b, start, next) {
        Ok(c) => c,
        Err(e) => return Err(e),
    };
    let mut rest = match parse_list_at(b, next, end) {
        Ok(cs) => cs,
        Err(e) => return Err(e),
    };
    let ghost tail = rest@;
    rest.insert(0, first);
    assert(rest@.drop_first() =~= tail);
    Ok(rest)
}

/// Reads the chunk at the start of `bytes`, with all the chunks nested in it.
/// Bytes after that chunk are ignored.
pub fn read_chunk(bytes: &[u8]) -> (r: Result<Chunk, DecodeError>)
    ensures
        match r {
            Ok(c) => starts_with_chunk(bytes@) && chunk_encodes(c, first_chunk(bytes@)),
            Err(e) => !starts_with_chunk(bytes@) && e == DecodeError::MalformedContainer,
        },
{
    if bytes.len() < HEADER_LEN {
        return Err(DecodeError::MalformedContainer);
    }
    let size = read_u32_le(bytes, 4);
    if (size as u64) > (bytes.len() - HEADER_LEN) as u64 {
        return Err(DecodeError::MalformedContainer);
    }
    let end = HEADER_LEN + size as usize;
    parse_chunk_at(bytes, 0, end)
}

/// The structure data of a chunk: its first child, which must be raw data.
pub open spec fn struct_data(c: Chunk) -> Seq<u8> {
    c.children@[0].data@
}

/// `c` starts with a structure data child of at least `min_len` bytes.
pub open spec fn has_struct(c: Chunk, min_len: nat) -> bool {
    c.children@.len() >= 1 && c.children@[0].kind == KIND_STRUCT && struct_data(c).len()
        >= min_len
}

/// Position of the first of `cs[i..]` that is of kind `kind`, or `cs.len()`.
pub open spec fn first_of_kind(cs: Seq<Chunk>, kind: u32, i: int) -> int
    decreases cs.len() - i,
{
    if i >= cs.len() {
        cs.len() as int
    } else if cs[i].kind == kind {
        i
    } else {
        first_of_kind(cs, kind, i + 1)
    }
}

impl Chunk {
    /// The first child of kind `kind`, if there is one.
    pub fn find_child(&self, kind: u32) -> (r: Option<usize>)
        ensures
            match r {
                Some(i) => i == first_of_kind(self.children@, kind, 0) && i < self.children@.len(),
                None => first_of_kind(self.children@, kind, 0) == self.children@.len(),
            },
    {
        let mut i: usize = 0;
        while i < self.children.len()
            invariant
                i <= self.children@.len(),
                first_of_kind(self.children@, kind, 0) == first_of_kind(self.children@, kind, i as int),
            decreases self.children@.len() - i,
        {
            if self.children[i].kind == kind {
                return Some(i);
            }
            i = i + 1;
        }
        None
    }
}

} // verus!
