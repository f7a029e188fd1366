use vstd::prelude::*;

use crate::document::{Stream, extract_hwp_text, hwp_text_spec, streams_view, text_outcome};
use crate::error::{ErrorKind, HwpError};
use crate::hwpx::{chars_outcome, extract_hwpx_text, hwpx_text_spec};
use crate::inflate::utf16_lossy;

verus! {

/// The two container formats.
#[derive(Clone, Copy, Debug, PartialEq, Eq, Structural)]
pub enum Format {
    /// A compound-file container: the legacy binary format.
    Compound,
    /// A zip archive: the XML-in-archive format.
    Archive,
}

/// The compound-file magic D0 CF 11 E0 A1 B1 1A E1.
pub open spec fn has_compound_magic(b: Seq<u8>) -> bool {
    &&& b.len() >= 8
    &&& b[0] == 0xd0 && b[1] == 0xcf && b[2] == 0x11 && b[3] == 0xe0
    &&& b[4] == 0xa1 && b[5] == 0xb1 && b[6] == 0x1a && b[7] == 0xe1
}

/// The zip local-file magic "PK\x03\x04".
pub open spec fn has_archive_magic(b: Seq<u8>) -> bool {
    &&& b.len() >= 4
    &&& b[0] == 0x50 && b[1] == 0x4b && b[2] == 0x03 && b[3] == 0x04
}

/// Tells the container format from the first bytes of a file.
///
/// Anything that starts with neither magic sequence is refused with
/// `InvalidSignature`, before any stream is looked at.
pub fn detect_format(b: &[u8]) -> (r: Result<Format, HwpError>)
    ensures
        has_compound_magic(b@) ==> r == Ok::<Format, HwpError>(Format::Compound),
        has_archive_magic(b@) ==> r == Ok::<Format, HwpError>(Format::Archive),
        !has_compound_magic(b@) && !has_archive_magic(b@) ==> r matches Err(
            HwpError::InvalidSignature,
        ),
{
    if b.len() >= 8 && b[0] == 0xd0 && b[1] == 0xcf && b[2] == 0x11 && b[3] == 0xe0 && b[4] == 0xa1
        && b[5] == 0xb1 && b[6] == 0x1a && b[7] == 0xe1 {
        Ok(Format::Compound)
    } else if b.len() >= 4 && b[0] == 0x50 && b[1] == 0x4b && b[2] == 0x03 && b[3] == 0x04 {
        Ok(Format::Archive)
    } else {
        Err(HwpError::InvalidSignature)
    }
}

/// The text a document of either format gives, or the kind of its failure.
pub open spec fn document_text_spec(format: Format, ss: Seq<(Seq<char>, Seq<u8>)>) -> Result<
    Seq<char>,
    ErrorKind,
> {
    match format {
        Format::Compound => match hwp_text_spec(ss) {
            Err(k) => Err(k),
            Ok(u) => Ok(utf16_lossy(u)),
        },
        Format::Archive => hwpx_text_spec(ss),
    }
}

/// Extracts the text of a document from its streams (or archive entries) in
/// container order.
pub fn extract_text(format: Format, streams: &Vec<Stream>) -> (r: Result<String, HwpError>)
    ensures
        chars_outcome(r, document_text_spec(format, streams_view(streams@))),
{
    match format {
        Format::Compound => {
            let r = extract_hwp_text(streams);
            assert(text_outcome(r, hwp_text_spec(streams_view(streams@))));
            r
        },
        Format::Archive => extract_hwpx_text(streams),
    }
}

/// A document of a batch: where it came from and what its container holds.
#[derive(Clone, Debug)]
pub struct Document {
    pub path: String,
    pub format: Format,
    pub streams: Vec<Stream>,
}

/// Extracts every document of a batch on its own: one failure leaves the
/// others untouched. Entry `i` pairs the path of document `i` with its outcome.
pub fn extract_batch(docs: &Vec<Document>) -> (r: Vec<(String, Result<String, HwpError>)>)
    ensures
        r@.len() == docs@.len(),
        forall|i: int|
            0 <= i < r@.len() ==> {
                &&& (#[trigger] r@[i]).0@ == docs@[i].path@
                &&& chars_outcome(
                    r@[i].1,
                    document_text_spec(docs@[i].format, streams_view(docs@[i].streams@)),
                )
            },
{
    let mut out: Vec<(String, Result<String, HwpError>)> = Vec::new();
    let mut i: usize = 0;
    while i < docs.len()
        invariant
            i <= docs@.len(),
            out@.len() == i,
            forall|j: int|
                0 <= j < i ==> {
                    &&& (#[trigger] out@[j]).0@ == docs@[j].path@
                    &&& chars_outcome(
                        out@[j].1,
                        document_text_spec(docs@[j].format, streams_view(docs@[j].streams@)),
                    )
                },
        decreases docs.len() - i,
    {
        let result = extract_text(docs[i].format, &docs[i].streams);
        out.push((docs[i].path.clone(), result));
        i += 1;
    }
    out
}

} // verus!
