use vstd::prelude::*;

use crate::header::Version;

verus! {

/// The kind of a failure, without its context.
#[derive(Clone, Copy, Debug, PartialEq, Eq, Structural)]
pub enum ErrorKind {
    Io,
    InvalidSignature,
    UnsupportedVersion,
    PasswordProtected,
    StreamNotFound,
    InvalidRecordHeader,
    DecompressFailed,
    DecryptFailed,
    Parse,
    UnsupportedFormat,
    Hwpx,
}

/// Every way in which an extraction can fail.
#[derive(Clone, Debug)]
pub enum HwpError {
    /// The source could not be opened or read.
    Io(String),
    /// The leading magic bytes are not those of a known format.
    InvalidSignature,
    /// A known signature with a version outside the supported range.
    UnsupportedVersion(Version),
    /// The document is password protected; nothing of its body is read.
    PasswordProtected,
    /// A requested stream is not in the container.
    StreamNotFound(String),
    /// A record header is truncated or declares more bytes than remain.
    InvalidRecordHeader,
    /// A compressed stream could not be inflated.
    DecompressFailed(String),
    /// A stream is encrypted beyond a password flag.
    DecryptFailed(String),
    /// A structural or text-decoding failure.
    Parse(String),
    /// The container lacks a mandatory stream or entry.
    UnsupportedFormat,
    /// A failure specific to the archive format.
    Hwpx(String),
}

pub open spec fn kind_of(e: HwpError) -> ErrorKind {
    match e {
        HwpError::Io(_) => ErrorKind::Io,
        HwpError::InvalidSignature => ErrorKind::InvalidSignature,
        HwpError::UnsupportedVersion(_) => ErrorKind::UnsupportedVersion,
        HwpError::PasswordProtected => ErrorKind::PasswordProtected,
        HwpError::StreamNotFound(_) => ErrorKind::StreamNotFound,
        HwpError::InvalidRecordHeader => ErrorKind::InvalidRecordHeader,
        HwpError::DecompressFailed(_) => ErrorKind::DecompressFailed,
        HwpError::DecryptFailed(_) => ErrorKind::DecryptFailed,
        HwpError::Parse(_) => ErrorKind::Parse,
        HwpError::UnsupportedFormat => ErrorKind::UnsupportedFormat,
        HwpError::Hwpx(_) => ErrorKind::Hwpx,
    }
}

impl HwpError {
    /// The kind of this error.
    pub fn kind(&self) -> (k: ErrorKind)
        ensures
            k == kind_of(*self),
    {
        match self {
            HwpError::Io(_) => ErrorKind::Io,
            HwpError::InvalidSignature => ErrorKind::InvalidSignature,
            HwpError::UnsupportedVersion(_) => ErrorKind::UnsupportedVersion,
            HwpError::PasswordProtected => ErrorKind::PasswordProtected,
            HwpError::StreamNotFound(_) => ErrorKind::StreamNotFound,
            HwpError::InvalidRecordHeader => ErrorKind::InvalidRecordHeader,
            HwpError::DecompressFailed(_) => ErrorKind::DecompressFailed,
            HwpError::DecryptFailed(_) => ErrorKind::DecryptFailed,
            HwpError::Parse(_) => ErrorKind::Parse,
            HwpError::UnsupportedFormat => ErrorKind::UnsupportedFormat,
            HwpError::Hwpx(_) => ErrorKind::Hwpx,
        }
    }
}

} // verus!
