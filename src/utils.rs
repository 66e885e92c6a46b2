use vstd::prelude::*;
use vstd::std_specs::ops::NegSpec;

verus! {

/// A single-precision float held by its IEEE-754 bit pattern.
///
/// Decoding only moves coordinates around and flips their sign, both of
/// which are exact operations on the bit pattern.
#[derive(Clone, Copy, Debug, PartialEq, Eq, Structural)]
pub struct F32Bits {
    pub bits: u32,
}

pub open spec fn flip_sign(bits: u32) -> u32 {
    bits ^ 0x8000_0000u32
}

impl core::ops::Neg for F32Bits {
    type Output = F32Bits;

    /// Negation flips the sign bit, as IEEE-754 negation does.
    fn neg(self) -> (r: F32Bits) {
        F32Bits { bits: self.bits ^ 0x8000_0000u32 }
    }
}

impl vstd::std_specs::ops::NegSpecImpl for F32Bits {
    open spec fn obeys_neg_spec() -> bool {
        true
    }

    open spec fn neg_req(self) -> bool {
        true
    }

    open spec fn neg_spec(self) -> F32Bits {
        F32Bits { bits: flip_sign(self.bits) }
    }
}

/// The source axis convention `(x, y, z)` (right-handed, Y as depth) as seen
/// in the Y-up target convention: `(-x, z, y)`.
pub open spec fn xzy_of(c: [F32Bits; 3]) -> [F32Bits; 3] {
    [F32Bits { bits: flip_sign(c[0].bits) }, c[2], c[1]]
}

/// `(x, y, z)` as `(-x, z, y)`, for any type with a negation.
pub open spec fn xzy_spec<T: core::ops::Neg<Output = T>>(c: [T; 3]) -> [T; 3] {
    [c[0].neg_spec(), c[2], c[1]]
}

/// Converts a coordinate triple from the source axis convention to Y-up.
pub fn to_xzy<T: Copy + core::ops::Neg<Output = T>>(coords: [T; 3]) -> (r: [T; 3])
    requires
        coords[0].neg_req(),
    ensures
        T::obeys_neg_spec() ==> r == xzy_spec(coords),
{
    [coords[0].neg(), coords[2], coords[1]]
}

/// Applying the axis conversion twice gives back the triple it started from,
/// for any type whose negation undoes itself on the first coordinate.
pub proof fn lemma_xzy_spec_involution<T: core::ops::Neg<Output = T>>(c: [T; 3])
    requires
        c[0].neg_spec().neg_spec() == c[0],
    ensures
        xzy_spec(xzy_spec(c)) == c,
{
    assert(xzy_spec(xzy_spec(c)) =~= c);
}

/// For positions, negation always undoes itself, so converting twice gives
/// back the triple it started from.
pub proof fn lemma_xzy_involution(c: [F32Bits; 3])
    ensures
        xzy_of(xzy_of(c)) == c,
        xzy_spec(xzy_spec(c)) == c,
{
    let b = c[0].bits;
    assert(flip_sign(flip_sign(b)) == b) by (bit_vector);
    assert(xzy_of(xzy_of(c))@ =~= c@);
    lemma_xzy_spec_involution(c);
}

/// A path written with `\` separators, rewritten with `/`.
pub open spec fn slashed(s: Seq<char>) -> Seq<char> {
    s.map_values(|c: char| if c == '\\' { '/' } else { c })
}

/// Relies on `str::replace`: every `\` becomes `/`, all else is kept.
#[verifier::external_body]
fn replace_backslashes(s: &str) -> (r: String)
    ensures
        r@ == slashed(s@),
{
    s.replace('\\', "/")
}

/// Normalises a path written with Windows separators so that it can be used
/// on any platform.
pub fn to_path(input: &str) -> (r: String)
    ensures
        r@ == slashed(input@),
{
    replace_backslashes(input)
}

pub open spec fn ascii_lower(c: u8) -> u8 {
    if 65 <= c <= 90 {
        (c + 32) as u8
    } else {
        c
    }
}

pub open spec fn lower(s: Seq<u8>) -> Seq<u8> {
    s.map_values(|c: u8| ascii_lower(c))
}

/// ASCII upper-case letters become lower-case; other bytes stay.
pub fn to_lower(s: &Vec<u8>) -> (r: Vec<u8>)
    ensures
        r@ == lower(s@),
{
    let mut out: Vec<u8> = Vec::new();
    let mut i: usize = 0;
    while i < s.len()
        invariant
            i <= s@.len(),
            out@ =~= lower(s@).subrange(0, i as int),
        decreases s@.len() - i,
    {
        let c = s[i];
        out.push(if 65 <= c && c <= 90 { c + 32 } else { c });
        i = i + 1;
    }
    out
}

/// `a` and `b` are the same text when ASCII case is ignored.
pub open spec fn same_ignoring_case(a: Seq<u8>, b: Seq<u8>) -> bool {
    lower(a) == lower(b)
}

fn bytes_equal(a: &Vec<u8>, b: &Vec<u8>) -> (r: bool)
    ensures
        r == (a@ == b@),
{
    if a.len() != b.len() {
        return false;
    }
    let mut i: usize = 0;
    while i < a.len()
        invariant
            i <= a@.len(),
            a@.len() == b@.len(),
            forall|k: int| 0 <= k < i ==> a@[k] == b@[k],
        decreases a@.len() - i,
    {
        if a[i] != b[i] {
            return false;
        }
        i = i + 1;
    }
    assert(a@ =~= b@);
    true
}

/// The first of `names` that is `wanted` when ASCII case is ignored: how a
/// path component is found in a directory of a case-insensitive file system.
pub fn find_ignoring_case(names: &Vec<Vec<u8>>, wanted: &Vec<u8>) -> (r: Option<usize>)
    ensures
        match r {
            Some(i) => i < names@.len() && same_ignoring_case(names@[i as int]@, wanted@)
                && forall|j: int| 0 <= j < i ==> !same_ignoring_case(#[trigger] names@[j]@, wanted@),
            None => forall|j: int|
                0 <= j < names@.len() ==> !same_ignoring_case(#[trigger] names@[j]@, wanted@),
        },
{
    let key = to_lower(wanted);
    let mut i: usize = 0;
    while i < names.len()
        invariant
            i <= names@.len(),
            key@ == lower(wanted@),
            forall|j: int| 0 <= j < i ==> !same_ignoring_case(#[trigger] names@[j]@, wanted@),
        decreases names@.len() - i,
    {
        let candidate = to_lower(&names[i]);
        if bytes_equal(&candidate, &key) {
            return Some(i);
        }
        i = i + 1;
    }
    None
}

} // verus!
