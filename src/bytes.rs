use vstd::prelude::*;

verus! {

/// The little-endian 32-bit integer stored at `p`.
pub open spec fn le_u32(s: Seq<u8>, p: int) -> int {
    s[p] as int + 256 * s[p + 1] as int + 65536 * s[p + 2] as int + 16777216 * s[p + 3] as int
}

/// Reads the little-endian 32-bit integer at `p`.
pub fn read_u32_le(b: &[u8], p: usize) -> (r: u32)
    requires
        p + 4 <= b@.len(),
    ensures
        r as int == le_u32(b@, p as int),
{
    let v: u64 = b[p] as u64 + 256 * (b[p + 1] as u64) + 65536 * (b[p + 2] as u64) + 16777216 * (
    b[p + 3] as u64);
    v as u32
}

/// Copies `b[start..end]` into a new vector.
pub fn copy_range(b: &[u8], start: usize, end: usize) -> (r: Vec<u8>)
    requires
        start <= end <= b@.len(),
    ensures
        r@ == b@.subrange(start as int, end as int),
{
    let mut out: Vec<u8> = Vec::new();
    let mut i: usize = start;
    while i < end
        invariant
            start <= i <= end <= b@.len(),
            out@ == b@.subrange(start as int, i as int),
        decreases end - i,
    {
        out.push(b[i]);
        i += 1;
        assert(out@ =~= b@.subrange(start as int, i as int));
    }
    out
}

/// Whether `p` is a prefix of `s`.
pub open spec fn has_prefix(s: Seq<u8>, p: Seq<u8>) -> bool {
    p.len() <= s.len() && s.subrange(0, p.len() as int) == p
}

/// Tests whether `p` is a prefix of `s`.
pub fn starts_with(s: &[u8], p: &[u8]) -> (r: bool)
    ensures
        r == has_prefix(s@, p@),
{
    if p.len() > s.len() {
        return false;
    }
    let mut i: usize = 0;
    while i < p.len()
        invariant
            p@.len() <= s@.len(),
            i <= p@.len(),
            forall|j: int| 0 <= j < i ==> s@[j] == p@[j],
        decreases p.len() - i,
    {
        if s[i] != p[i] {
            assert(s@.subrange(0, p@.len() as int)[i as int] != p@[i as int]);
            return false;
        }
        i += 1;
    }
    assert(s@.subrange(0, p@.len() as int) =~= p@);
    true
}

} // verus!

verus! {

/// Whether the non-empty token `tok` occurs in `s` at `pos`.
pub open spec fn token_at(s: Seq<u8>, pos: int, tok: Seq<u8>) -> bool {
    &&& tok.len() > 0
    &&& 0 <= pos
    &&& pos + tok.len() <= s.len()
    &&& s.subrange(pos, pos + tok.len()) == tok
}

/// Tests whether the non-empty token `tok` occurs in `s` at `pos`.
pub fn bytes_at(s: &[u8], pos: usize, tok: &[u8]) -> (r: bool)
    ensures
        r == token_at(s@, pos as int, tok@),
{
    if tok.len() == 0 || pos > s.len() || tok.len() > s.len() - pos {
        return false;
    }
    let end: usize = pos + tok.len();
    let mut i: usize = 0;
    while i < tok.len()
        invariant
            end == pos + tok@.len(),
            pos + tok@.len() <= s@.len(),
            i <= tok@.len(),
            forall|j: int| 0 <= j < i ==> s@[pos + j] == tok@[j],
        decreases tok.len() - i,
    {
        if s[pos + i] != tok[i] {
            assert(s@.subrange(pos as int, pos + tok@.len())[i as int] != tok@[i as int]);
            return false;
        }
        i += 1;
    }
    assert(s@.subrange(pos as int, pos + tok@.len()) =~= tok@);
    true
}

} // verus!

verus! {

/// Tests whether two byte sequences are equal.
pub fn bytes_equal(a: &[u8], b: &[u8]) -> (r: bool)
    ensures
        r == (a@ == b@),
{
    if a.len() != b.len() {
        return false;
    }
    let r = starts_with(a, b);
    if r {
        assert(a@.subrange(0, b@.len() as int) =~= a@);
    } else {
        assert(a@ != b@) by {
            if a@ == b@ {
                assert(a@.subrange(0, b@.len() as int) =~= b@);
            }
        }
    }
    r
}

} // verus!

verus! {

/// Whether the token `tok` occurs anywhere in `s`.
pub open spec fn contains_token(s: Seq<u8>, tok: Seq<u8>) -> bool {
    exists|p: int| #[trigger] token_at(s, p, tok)
}

/// Tests whether the token `tok` occurs anywhere in `s`.
pub fn find_token(s: &[u8], tok: &[u8]) -> (r: bool)
    ensures
        r == contains_token(s@, tok@),
{
    let mut p: usize = 0;
    while p < s.len()
        invariant
            p <= s@.len(),
            forall|q: int| 0 <= q < p ==> !token_at(s@, q, tok@),
        decreases s.len() - p,
    {
        if bytes_at(s, p, tok) {
            return true;
        }
        p += 1;
    }
    assert forall|q: int| !token_at(s@, q, tok@) by {
        if q >= s@.len() && token_at(s@, q, tok@) {
            assert(tok@.len() > 0);
        }
    }
    false
}

} // verus!
