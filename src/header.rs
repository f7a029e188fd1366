use vstd::prelude::*;

use crate::bytes::{le_u32, read_u32_le};
use crate::error::HwpError;

verus! {

/// A format version, ordered from most to least significant part.
#[derive(Clone, Copy, Debug, PartialEq, Eq, Structural)]
pub struct Version {
    pub major: u8,
    pub minor: u8,
    pub build: u8,
    pub revision: u8,
}

/// What the header stream of a legacy document says.
#[derive(Clone, Copy, Debug, PartialEq, Eq, Structural)]
pub struct HeaderInfo {
    pub version: Version,
    /// The properties bitmask as stored.
    pub flags: u32,
    pub is_compressed: bool,
    pub is_password_protected: bool,
    pub is_distribution_document: bool,
}

/// The length of the part of the header stream that is read.
pub const HEADER_LEN: usize = 40;

/// Where the properties bitmask starts.
pub const FLAGS_OFFSET: usize = 36;

/// The only major version that is decoded.
pub const SUPPORTED_MAJOR: u8 = 5;

/// The header stream starts with the text "HWP Document File".
pub open spec fn has_hwp_signature(h: Seq<u8>) -> bool {
    &&& h.len() >= 17
    &&& h[0] == 0x48 && h[1] == 0x57 && h[2] == 0x50 && h[3] == 0x20
    &&& h[4] == 0x44 && h[5] == 0x6f && h[6] == 0x63 && h[7] == 0x75
    &&& h[8] == 0x6d && h[9] == 0x65 && h[10] == 0x6e && h[11] == 0x74
    &&& h[12] == 0x20 && h[13] == 0x46 && h[14] == 0x69 && h[15] == 0x6c
    &&& h[16] == 0x65
}


/// The version stored at its offset: the most significant byte is the major part.
pub open spec fn version_at(h: Seq<u8>) -> Version {
    Version { major: h[35], minor: h[34], build: h[33], revision: h[32] }
}

pub open spec fn flags_at(h: Seq<u8>) -> int {
    le_u32(h, FLAGS_OFFSET as int)
}

/// The header that a well-formed header stream describes.
pub open spec fn header_of(h: Seq<u8>) -> HeaderInfo {
    HeaderInfo {
        version: version_at(h),
        flags: flags_at(h) as u32,
        is_compressed: flags_at(h) % 2 == 1,
        is_password_protected: (flags_at(h) / 2) % 2 == 1,
        is_distribution_document: (flags_at(h) / 4) % 2 == 1,
    }
}

/// Whether the header stream holds a signature and all fixed fields.
pub open spec fn valid_signature(h: Seq<u8>) -> bool {
    h.len() >= HEADER_LEN && has_hwp_signature(h)
}

pub open spec fn supported_version(v: Version) -> bool {
    v.major == SUPPORTED_MAJOR
}

fn signature_matches(h: &[u8]) -> (r: bool)
    requires
        h@.len() >= 17,
    ensures
        r == has_hwp_signature(h@),
{
    h[0] == 0x48 && h[1] == 0x57 && h[2] == 0x50 && h[3] == 0x20 && h[4] == 0x44 && h[5] == 0x6f
        && h[6] == 0x63 && h[7] == 0x75 && h[8] == 0x6d && h[9] == 0x65 && h[10] == 0x6e && h[11]
        == 0x74 && h[12] == 0x20 && h[13] == 0x46 && h[14] == 0x69 && h[15] == 0x6c && h[16]
        == 0x65
}

/// Reads the header stream of a legacy document.
///
/// A stream that is too short or lacks the signature is refused with
/// `InvalidSignature`; a version other than the supported major one with
/// `UnsupportedVersion`, which carries the version read. Otherwise the flags
/// are returned exactly as the bitmask holds them.
pub fn inspect(h: &[u8]) -> (r: Result<HeaderInfo, HwpError>)
    ensures
        !valid_signature(h@) <==> r matches Err(HwpError::InvalidSignature),
        valid_signature(h@) && !supported_version(version_at(h@)) <==> r matches Err(
            HwpError::UnsupportedVersion(_),
        ),
        valid_signature(h@) && !supported_version(version_at(h@)) ==> r == Err::<
            HeaderInfo,
            HwpError,
        >(HwpError::UnsupportedVersion(version_at(h@))),
        valid_signature(h@) && supported_version(version_at(h@)) ==> r == Ok::<
            HeaderInfo,
            HwpError,
        >(header_of(h@)),
{
    if h.len() < HEADER_LEN || !signature_matches(h) {
        return Err(HwpError::InvalidSignature);
    }
    let version = Version { major: h[35], minor: h[34], build: h[33], revision: h[32] };
    if version.major != SUPPORTED_MAJOR {
        return Err(HwpError::UnsupportedVersion(version));
    }
    let flags = read_u32_le(h, FLAGS_OFFSET);
    Ok(
        HeaderInfo {
            version,
            flags,
            is_compressed: flags % 2 == 1,
            is_password_protected: (flags / 2) % 2 == 1,
            is_distribution_document: (flags / 4) % 2 == 1,
        },
    )
}

/// The protection gate: a protected document goes no further.
pub fn check_protection(info: &HeaderInfo) -> (r: Result<(), HwpError>)
    ensures
        info.is_password_protected <==> r matches Err(HwpError::PasswordProtected),
        !info.is_password_protected <==> r is Ok,
{
    if info.is_password_protected {
        Err(HwpError::PasswordProtected)
    } else {
        Ok(())
    }
}


/// The four little-endian bytes of a properties bitmask.
pub open spec fn flag_bytes(f: u32) -> Seq<u8> {
    seq![
        (f % 256) as u8,
        ((f / 256) % 256) as u8,
        ((f / 65536) % 256) as u8,
        (f / 16777216) as u8,
    ]
}

/// The header stream `h` with its properties bitmask replaced by `f`.
pub open spec fn with_flags(h: Seq<u8>, f: u32) -> Seq<u8> {
    h.subrange(0, FLAGS_OFFSET as int) + flag_bytes(f) + h.subrange(
        HEADER_LEN as int,
        h.len() as int,
    )
}

/// Flags survive a round trip: whatever bitmask a header with a valid
/// signature and a supported version carries, `inspect` accepts it and hands
/// back the same bitmask, with each flag read from its own bit.
pub proof fn inspect_round_trips_flags(h: Seq<u8>, f: u32)
    requires
        valid_signature(h),
        supported_version(version_at(h)),
    ensures
        valid_signature(with_flags(h, f)),
        supported_version(version_at(with_flags(h, f))),
        header_of(with_flags(h, f)).flags == f,
        header_of(with_flags(h, f)).version == version_at(h),
        header_of(with_flags(h, f)).is_compressed == (f % 2 == 1),
        header_of(with_flags(h, f)).is_password_protected == ((f / 2) % 2 == 1),
        header_of(with_flags(h, f)).is_distribution_document == ((f / 4) % 2 == 1),
{
    let g = with_flags(h, f);
    assert(g.len() == h.len());
    assert forall|i: int| 0 <= i < FLAGS_OFFSET implies g[i] == h[i] by {}
    assert(g[36] == (f % 256) as u8);
    assert(g[37] == ((f / 256) % 256) as u8);
    assert(g[38] == ((f / 65536) % 256) as u8);
    assert(g[39] == (f / 16777216) as u8);
    let x = f as int;
    assert(x % 256 + 256 * ((x / 256) % 256) + 65536 * ((x / 65536) % 256) + 16777216 * (x
        / 16777216) == x) by (nonlinear_arith)
        requires
            0 <= x < 4294967296,
    ;
    assert(flags_at(g) == x);
}

} // verus!
