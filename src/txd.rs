use vstd::prelude::*;

use crate::bytes::{copy_range, field_text, read_field_text, read_u16_le, read_u32_le, u16_le, u32_le};
use crate::chunk::{
    chunk_encodes, first_chunk, has_struct, read_chunk, starts_with_chunk, struct_data, Chunk,
    KIND_RASTER, KIND_STRUCT, KIND_TEXTURE_DICTIONARY,
};
use crate::error::DecodeError;
use crate::raster::{decode_raster, decode_spec, DecodedImage, Raster};
use crate::utils::{find_ignoring_case, lower, same_ignoring_case, to_lower};

verus! {

/// Length of the fixed part of a raster's structure data; the palette and
/// the mip levels follow it.
pub const RASTER_HEADER_LEN: usize = 88;
/// Offset and length of the NUL-padded name field.
pub const NAME_OFFSET: usize = 8;
pub const NAME_LEN: usize = 32;

/// A decoded texture and the lower-cased name it is looked up by.
#[derive(Clone, Debug)]
pub struct NamedImage {
    pub name: Vec<u8>,
    pub image: DecodedImage,
}

/// The decoded textures of one dictionary, in the order they are stored.
#[derive(Clone, Debug)]
pub struct Txd {
    pub textures: Vec<NamedImage>,
}

/// Decodes texture dictionaries.
pub struct TxdLoader;

/// What a decoded texture amounts to: name, width, height and RGBA bytes.
pub type TextureView = (Seq<u8>, u32, u32, Seq<u8>);

impl NamedImage {
    pub open spec fn view_of(&self) -> TextureView {
        (self.name@, self.image.width, self.image.height, self.image.data@)
    }
}

/// `r` is the raster that the structure data `s` describes.
pub open spec fn raster_from(r: Raster, s: Seq<u8>) -> bool {
    &&& s.len() >= RASTER_HEADER_LEN
    &&& r.raster_format == u32_le(s, 72)
    &&& r.width == u16_le(s, 80)
    &&& r.height == u16_le(s, 82)
    &&& r.depth == s[84]
    &&& r.name@ == field_text(s.subrange(NAME_OFFSET as int, (NAME_OFFSET + NAME_LEN) as int))
    &&& r.data@ == s.subrange(RASTER_HEADER_LEN as int, s.len() as int)
}

/// What one raster chunk of a dictionary decodes to.
pub open spec fn texture_spec(c: Chunk) -> Result<TextureView, DecodeError> {
    if !has_struct(c, RASTER_HEADER_LEN as nat) {
        Err(DecodeError::MalformedContainer)
    } else {
        let s = struct_data(c);
        let w = u16_le(s, 80);
        let h = u16_le(s, 82);
        match decode_spec(
            u32_le(s, 72),
            s.subrange(RASTER_HEADER_LEN as int, s.len() as int),
            w as nat * h as nat,
        ) {
            Ok(bytes) => Ok(
                (
                    lower(
                        field_text(
                            s.subrange(NAME_OFFSET as int, (NAME_OFFSET + NAME_LEN) as int),
                        ),
                    ),
                    w as u32,
                    h as u32,
                    bytes,
                ),
            ),
            Err(e) => Err(e),
        }
    }
}

/// The textures of a dictionary whose children are `cs`, looking at the
/// children before `n`. The first child is the dictionary's own data and
/// children that are not rasters are skipped; the first raster that fails
/// decides the error.
pub open spec fn txd_spec(cs: Seq<Chunk>, n: int) -> Result<Seq<TextureView>, DecodeError>
    decreases n,
{
    if n <= 1 {
        Ok(Seq::empty())
    } else {
        match txd_spec(cs, n - 1) {
            Err(e) => Err(e),
            Ok(s) => if cs[n - 1].kind != KIND_RASTER {
                Ok(s)
            } else {
                match texture_spec(cs[n - 1]) {
                    Ok(t) => Ok(s.push(t)),
                    Err(e) => Err(e),
                }
            },
        }
    }
}

/// `r` is what decoding the dictionary chunk `root` gives.
pub open spec fn txd_result(root: Chunk, r: Result<Txd, DecodeError>) -> bool {
    if root.kind != KIND_TEXTURE_DICTIONARY {
        r == Err::<Txd, DecodeError>(DecodeError::InvalidContainer)
    } else {
        match (r, txd_spec(root.children@, root.children@.len() as int)) {
            (Ok(t), Ok(s)) => t.textures@.map_values(|x: NamedImage| x.view_of()) == s,
            (Err(e), Err(e2)) => e == e2,
            _ => false,
        }
    }
}

proof fn lemma_txd_error_persists(cs: Seq<Chunk>, m: int, n: int)
    requires
        m <= n,
        txd_spec(cs, m) is Err,
    ensures
        txd_spec(cs, n) == txd_spec(cs, m),
    decreases n - m,
{
    if m < n {
        lemma_txd_error_persists(cs, m, n - 1);
    }
}

/// Reads the raster record held in a raster chunk's structure data.
pub fn raster_from_chunk(c: &Chunk) -> (r: Result<Raster, DecodeError>)
    ensures
        match r {
            Ok(ras) => has_struct(*c, RASTER_HEADER_LEN as nat) && raster_from(
                ras,
                struct_data(*c),
            ),
            Err(e) => !has_struct(*c, RASTER_HEADER_LEN as nat) && e
                == DecodeError::MalformedContainer,
        },
{
    if c.children.len() < 1 || c.children[0].kind != KIND_STRUCT {
        return Err(DecodeError::MalformedContainer);
    }
    let s = c.children[0].data.as_slice();
    if s.len() < RASTER_HEADER_LEN {
        return Err(DecodeError::MalformedContainer);
    }
    Ok(Raster {
        width: read_u16_le(s, 80),
        height: read_u16_le(s, 82),
        depth: s[84],
        raster_format: read_u32_le(s, 72),
        name: read_field_text(s, NAME_OFFSET, NAME_LEN),
        data: copy_range(s, RASTER_HEADER_LEN, s.len()),
    })
}

impl Txd {
    /// The texture stored at position `index`.
    pub fn index(&self, index: usize) -> (r: &NamedImage)
        requires
            index < self.textures@.len(),
        ensures
            r == self.textures@[index as int],
    {
        &self.textures[index]
    }

    /// Position of the first texture called `name`, ignoring ASCII case, as
    /// materials refer to them.
    pub fn find(&self, name: &Vec<u8>) -> (r: Option<usize>)
        ensures
            match r {
                Some(i) => i < self.textures@.len() && same_ignoring_case(
                    self.textures@[i as int].name@,
                    name@,
                ) && forall|j: int|
                    0 <= j < i ==> !same_ignoring_case(#[trigger] self.textures@[j].name@, name@),
                None => forall|j: int|
                    0 <= j < self.textures@.len() ==> !same_ignoring_case(
                        #[trigger] self.textures@[j].name@,
                        name@,
                    ),
            },
    {
        let mut names: Vec<Vec<u8>> = Vec::new();
        let mut i: usize = 0;
        while i < self.textures.len()
            invariant
                i <= self.textures@.len(),
                names@.len() == i,
                forall|j: int| 0 <= j < i ==> (#[trigger] names@[j])@ == self.textures@[j].name@,
            decreases self.textures@.len() - i,
        {
            names.push(self.textures[i].name.clone());
            i = i + 1;
        }
        let r = find_ignoring_case(&names, name);
        proof {
            if r is None {
                assert forall|j: int| 0 <= j < self.textures@.len() implies !same_ignoring_case(
                    #[trigger] self.textures@[j].name@,
                    name@,
                ) by {
                    assert(names@[j]@ == self.textures@[j].name@);
                }
            } else {
                let k = r->Some_0 as int;
                assert forall|j: int| 0 <= j < k implies !same_ignoring_case(
                    #[trigger] self.textures@[j].name@,
                    name@,
                ) by {
                    assert(names@[j]@ == self.textures@[j].name@);
                }
                assert(names@[k]@ == self.textures@[k].name@);
            }
        }
        r
    }
}

impl TxdLoader {
    /// Decodes the textures of a dictionary chunk whose children are
    /// already parsed.
    pub fn load_chunk(&self, root: &Chunk) -> (r: Result<Txd, DecodeError>)
        ensures
            txd_result(*root, r),
    {
        if root.kind != KIND_TEXTURE_DICTIONARY {
            return Err(DecodeError::InvalidContainer);
        }
        let cs = &root.children;
        let mut textures: Vec<NamedImage> = Vec::new();
        let mut i: usize = 1;
        if cs.len() == 0 {
            i = 0;
        }
        assert(textures@.map_values(|x: NamedImage| x.view_of()) =~= Seq::empty());
        while i < cs.len()
            invariant
                i <= cs@.len(),
                cs@ == root.children@,
                root.kind == KIND_TEXTURE_DICTIONARY,
                cs@.len() == 0 ==> i == 0,
                cs@.len() > 0 ==> i >= 1,
                txd_spec(cs@, i as int) == Ok::<Seq<TextureView>, DecodeError>(
                    textures@.map_values(|x: NamedImage| x.view_of()),
                ),
            decreases cs@.len() - i,
        {
            let c = &cs[i];
            if c.kind == KIND_RASTER {
                let ras = match raster_from_chunk(c) {
                    Ok(ras) => ras,
                    Err(e) => {
                        assert(texture_spec(cs@[i as int]) == Err::<TextureView, DecodeError>(e));
                        assert(txd_spec(cs@, i + 1) == Err::<Seq<TextureView>, DecodeError>(e));
                        proof {
                            lemma_txd_error_persists(cs@, i + 1, cs@.len() as int);
                        }
                        return Err(e);
                    },
                };
                let img = match decode_raster(&ras) {
                    Ok(img) => img,
                    Err(e) => {
                        assert(texture_spec(cs@[i as int]) == Err::<TextureView, DecodeError>(e));
                        assert(txd_spec(cs@, i + 1) == Err::<Seq<TextureView>, DecodeError>(e));
                        proof {
                            lemma_txd_error_persists(cs@, i + 1, cs@.len() as int);
                        }
                        return Err(e);
                    },
                };
                let name = to_lower(&ras.name);
                let ghost before = textures@;
                textures.push(NamedImage { name, image: img });
                assert(textures@.map_values(|x: NamedImage| x.view_of()) =~= before.map_values(
                    |x: NamedImage| x.view_of(),
                ).push(textures@[textures@.len() - 1].view_of()));
            }
            i = i + 1;
        }
        Ok(Txd { textures })
    }

    /// Decodes a texture dictionary file. A failing raster fails the whole
    /// dictionary.
    pub fn load(&self, bytes: &[u8]) -> (r: Result<Txd, DecodeError>)
        ensures
            !starts_with_chunk(bytes@) ==> r == Err::<Txd, DecodeError>(
                DecodeError::MalformedContainer,
            ),
            starts_with_chunk(bytes@) ==> exists|c: Chunk|
                chunk_encodes(c, first_chunk(bytes@)) && #[trigger] txd_result(c, r),
    {
        match read_chunk(bytes) {
            Ok(root) => self.load_chunk(&root),
            Err(e) => Err(e),
        }
    }
}

} // verus!
