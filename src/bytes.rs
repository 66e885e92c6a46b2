use vstd::prelude::*;

verus! {

/// The little-endian `u16` at `b[i..i + 2]`.
pub open spec fn u16_le(b: Seq<u8>, i: int) -> u16 {
    (b[i] as u16) | ((b[i + 1] as u16) << 8u16)
}

/// The little-endian `u32` at `b[i..i + 4]`.
pub open spec fn u32_le(b: Seq<u8>, i: int) -> u32 {
    (b[i] as u32) | ((b[i + 1] as u32) << 8u32) | ((b[i + 2] as u32) << 16u32) | ((b[i + 3]
        as u32) << 24u32)
}

pub(crate) fn read_u16_le(b: &[u8], i: usize) -> (r: u16)
    requires
        i + 2 <= b@.len(),
    ensures
        r == u16_le(b@, i as int),
{
    (b[i] as u16) | ((b[i + 1] as u16) << 8u16)
}

pub(crate) fn read_u32_le(b: &[u8], i: usize) -> (r: u32)
    requires
        i + 4 <= b@.len(),
    ensures
        r == u32_le(b@, i as int),
{
    (b[i] as u32) | ((b[i + 1] as u32) << 8u32) | ((b[i + 2] as u32) << 16u32) | ((b[i + 3]
        as u32) << 24u32)
}

pub(crate) fn copy_range(b: &[u8], start: usize, end: usize) -> (r: Vec<u8>)
    requires
        start <= end <= b@.len(),
    ensures
        r@ == b@.subrange(start as int, end as int),
{
    let mut out: Vec<u8> = Vec::new();
    let mut i = start;
    while i < end
        invariant
            start <= i <= end <= b@.len(),
            out@ == b@.subrange(start as int, i as int),
        decreases end - i,
    {
        out.push(b[i]);
        i = i + 1;
        assert(out@ =~= b@.subrange(start as int, i as int));
    }
    out
}


/// Index of the first NUL in `s` at or after `i`, or `s.len()` if none.
pub open spec fn nul_from(s: Seq<u8>, i: int) -> int
    decreases s.len() - i,
{
    if i >= s.len() {
        s.len() as int
    } else if s[i] == 0 {
        i
    } else {
        nul_from(s, i + 1)
    }
}

/// A NUL-padded text field without its padding.
pub open spec fn field_text(s: Seq<u8>) -> Seq<u8> {
    s.subrange(0, nul_from(s, 0))
}

/// Reads the NUL-padded text field `b[start..start + len]`.
pub(crate) fn read_field_text(b: &[u8], start: usize, len: usize) -> (r: Vec<u8>)
    requires
        start + len <= b@.len(),
    ensures
        r@ == field_text(b@.subrange(start as int, start + len)),
{
    let ghost f = b@.subrange(start as int, start + len);
    let blen = b.len();
    let mut k: usize = 0;
    while k < len && b[start + k] != 0
        invariant
            k <= len,
            blen == b@.len(),
            start + len <= b@.len(),
            f == b@.subrange(start as int, start + len),
            nul_from(f, 0) == nul_from(f, k as int),
        decreases len - k,
    {
        k = k + 1;
    }
    let r = copy_range(b, start, start + k);
    assert(r@ =~= f.subrange(0, nul_from(f, 0)));
    r
}

} // verus!
