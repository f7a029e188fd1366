use vstd::prelude::*;

verus! {

/// What inflating `b` as a raw deflate stream gives; `None` where it is
/// truncated or corrupt.
pub uninterp spec fn raw_inflate(b: Seq<u8>) -> Option<Seq<u8>>;

/// Relies on flate2::read::DeflateDecoder read to the end: the inflated bytes
/// of a raw deflate stream, or an error for a truncated or corrupt one. The
/// outcome depends on the bytes alone.
#[verifier::external_body]
pub(crate) fn inflate_raw(b: &[u8]) -> (r: Result<Vec<u8>, String>)
    ensures
        r is Ok <==> raw_inflate(b@) is Some,
        r is Ok ==> r->Ok_0@ == raw_inflate(b@)->Some_0,
{
    let mut decoder = flate2::read::DeflateDecoder::new(b);
    let mut out = Vec::new();
    match std::io::Read::read_to_end(&mut decoder, &mut out) {
        Ok(_) => Ok(out),
        Err(e) => Err(e.to_string()),
    }
}

/// Whether a code unit is a leading (high) surrogate.
pub open spec fn is_high_surrogate(c: u16) -> bool {
    0xd800 <= c && c < 0xdc00
}

/// Whether a code unit is a trailing (low) surrogate.
pub open spec fn is_low_surrogate(c: u16) -> bool {
    0xdc00 <= c && c < 0xe000
}

/// The text that UTF-16 code units decode to: a surrogate pair gives one
/// supplementary character, any other surrogate the replacement character
/// U+FFFD, and every other unit the character of that value.
pub open spec fn utf16_lossy(u: Seq<u16>) -> Seq<char>
    decreases u.len(),
{
    if u.len() == 0 {
        Seq::empty()
    } else if u.len() >= 2 && is_high_surrogate(u[0]) && is_low_surrogate(u[1]) {
        let cp = 0x10000 + (u[0] - 0xd800) * 0x400 + (u[1] - 0xdc00);
        seq![(cp as u32) as char] + utf16_lossy(u.subrange(2, u.len() as int))
    } else if is_high_surrogate(u[0]) || is_low_surrogate(u[0]) {
        seq!['\u{fffd}'] + utf16_lossy(u.drop_first())
    } else {
        seq![(u[0] as u32) as char] + utf16_lossy(u.drop_first())
    }
}

/// Relies on String::from_utf16_lossy: decodes UTF-16, replacing each
/// unpaired surrogate with U+FFFD.
#[verifier::external_body]
pub(crate) fn string_from_utf16(u: &[u16]) -> (r: String)
    ensures
        r@ == utf16_lossy(u@),
{
    String::from_utf16_lossy(u)
}

} // verus!
