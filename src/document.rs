use vstd::prelude::*;
use vstd::utf8::encode_utf8;

use crate::bytes::{copy_range, has_prefix, starts_with};
use crate::error::{ErrorKind, HwpError, kind_of};
use crate::header::{
    HeaderInfo,
    check_protection,
    flags_at,
    header_of,
    inspect,
    supported_version,
    valid_signature,
    version_at,
};
use crate::inflate::{inflate_raw, raw_inflate, string_from_utf16, utf16_lossy};
use crate::record::{parse_records, parse_spec, records_view};
use crate::text::{append_record_text, join_lines, record_paragraphs};

verus! {

/// A named stream of a container, with its bytes as stored.
#[derive(Clone, Debug)]
pub struct Stream {
    pub name: String,
    pub data: Vec<u8>,
}

pub type StreamModel = (Seq<char>, Seq<u8>);

impl View for Stream {
    type V = StreamModel;

    open spec fn view(&self) -> StreamModel {
        (self.name@, self.data@)
    }
}

pub open spec fn streams_view(ss: Seq<Stream>) -> Seq<StreamModel> {
    ss.map_values(|s: Stream| s@)
}

/// The index of the first stream called `name` at or after `i`.
pub open spec fn find_from(ss: Seq<StreamModel>, name: Seq<char>, i: int) -> Option<int>
    decreases ss.len() - i,
{
    if i < 0 || i >= ss.len() {
        None
    } else if ss[i].0 == name {
        Some(i)
    } else {
        find_from(ss, name, i + 1)
    }
}

pub open spec fn find_stream_spec(ss: Seq<StreamModel>, name: Seq<char>) -> Option<int> {
    find_from(ss, name, 0)
}

/// Whether a stream holds body text: its name starts with "BodyText/".
pub open spec fn is_body_stream(name: Seq<char>) -> bool {
    has_prefix(encode_utf8(name), encode_utf8("BodyText/"@))
}

/// The paragraphs of one body stream, or why it cannot be read.
pub open spec fn stream_paragraphs(data: Seq<u8>, compressed: bool) -> Result<
    Seq<Seq<u16>>,
    ErrorKind,
> {
    match raw_stream(data, compressed) {
        None => Err(ErrorKind::DecompressFailed),
        Some(bytes) => match parse_spec(bytes) {
            None => Err(ErrorKind::InvalidRecordHeader),
            Some(rs) => Ok(record_paragraphs(rs)),
        },
    }
}

/// The paragraphs of all body streams in container order; the first stream
/// that fails decides the error.
pub open spec fn body_paragraphs(ss: Seq<StreamModel>, compressed: bool) -> Result<
    Seq<Seq<u16>>,
    ErrorKind,
>
    decreases ss.len(),
{
    if ss.len() == 0 {
        Ok(Seq::empty())
    } else {
        match body_paragraphs(ss.drop_last(), compressed) {
            Err(k) => Err(k),
            Ok(ps) => if is_body_stream(ss.last().0) {
                match stream_paragraphs(ss.last().1, compressed) {
                    Err(k) => Err(k),
                    Ok(qs) => Ok(ps + qs),
                }
            } else {
                Ok(ps)
            },
        }
    }
}

/// The text units of a legacy document, or the kind of its failure.
///
/// The header stream is required; its signature and version are checked, then
/// the protection flag, before any body stream is read.
pub open spec fn hwp_text_spec(ss: Seq<StreamModel>) -> Result<Seq<u16>, ErrorKind> {
    match find_stream_spec(ss, "FileHeader"@) {
        None => Err(ErrorKind::UnsupportedFormat),
        Some(i) => {
            let h = ss[i].1;
            if !valid_signature(h) {
                Err(ErrorKind::InvalidSignature)
            } else if !supported_version(version_at(h)) {
                Err(ErrorKind::UnsupportedVersion)
            } else if header_of(h).is_password_protected {
                Err(ErrorKind::PasswordProtected)
            } else if header_of(h).is_distribution_document {
                Err(ErrorKind::DecryptFailed)
            } else {
                match body_paragraphs(ss, header_of(h).is_compressed) {
                    Err(k) => Err(k),
                    Ok(ps) => Ok(join_lines(ps)),
                }
            }
        },
    }
}

/// What the header stream alone decides: the error that stops the document
/// before any body stream is read, or `None` where decoding goes on.
pub open spec fn header_gate(h: Seq<u8>) -> Option<ErrorKind> {
    if !valid_signature(h) {
        Some(ErrorKind::InvalidSignature)
    } else if !supported_version(version_at(h)) {
        Some(ErrorKind::UnsupportedVersion)
    } else if header_of(h).is_password_protected {
        Some(ErrorKind::PasswordProtected)
    } else if header_of(h).is_distribution_document {
        Some(ErrorKind::DecryptFailed)
    } else {
        None
    }
}

/// Whether a result agrees with a specified outcome: the same units, or an
/// error of the same kind.
pub open spec fn units_outcome(r: Result<Vec<u16>, HwpError>, s: Result<Seq<u16>, ErrorKind>) -> bool {
    match s {
        Ok(u) => r is Ok && r->Ok_0@ == u,
        Err(k) => r is Err && kind_of(r->Err_0) == k,
    }
}

/// Whether a text result agrees with a specified outcome.
pub open spec fn text_outcome(r: Result<String, HwpError>, s: Result<Seq<u16>, ErrorKind>) -> bool {
    match s {
        Ok(u) => r is Ok && r->Ok_0@ == utf16_lossy(u),
        Err(k) => r is Err && kind_of(r->Err_0) == k,
    }
}

/// Finds the first stream called `name`.
pub fn find_stream(streams: &Vec<Stream>, name: &str) -> (r: Option<usize>)
    ensures
        r is None <==> find_stream_spec(streams_view(streams@), name@) is None,
        r matches Some(i) ==> i < streams@.len() && find_stream_spec(streams_view(streams@), name@)
            == Some(i as int),
{
    let ghost ss = streams_view(streams@);
    let wanted = name.to_owned();
    let mut i: usize = 0;
    while i < streams.len()
        invariant
            i <= streams@.len(),
            ss == streams_view(streams@),
            wanted@ == name@,
            find_stream_spec(ss, name@) == find_from(ss, name@, i as int),
        decreases streams.len() - i,
    {
        assert(ss[i as int] == streams@[i as int]@);
        if streams[i].name == wanted {
            return Some(i);
        }
        i += 1;
    }
    None
}

/// The raw bytes of a body stream: inflated when the document is compressed,
/// passed through unchanged otherwise.
pub open spec fn raw_stream(data: Seq<u8>, compressed: bool) -> Option<Seq<u8>> {
    if compressed {
        raw_inflate(data)
    } else {
        Some(data)
    }
}

/// Inflates a stream of a compressed document; an uncompressed one passes
/// through unchanged. A truncated or corrupt stream fails with
/// `DecompressFailed`, carrying the inflater's description.
pub fn inflate(data: &[u8], compressed: bool) -> (r: Result<Vec<u8>, HwpError>)
    ensures
        r is Ok <==> raw_stream(data@, compressed) is Some,
        r matches Ok(raw) ==> raw@ == raw_stream(data@, compressed)->Some_0,
        r matches Err(e) ==> e is DecompressFailed,
{
    if compressed {
        match inflate_raw(data) {
            Ok(raw) => Ok(raw),
            Err(detail) => Err(HwpError::DecompressFailed(detail)),
        }
    } else {
        Ok(copy_range(data, 0, data.len()))
    }
}

/// The bytes of the first stream called `name`; `StreamNotFound` with that
/// name where there is none.
pub fn read_stream(streams: &Vec<Stream>, name: &str) -> (r: Result<Vec<u8>, HwpError>)
    ensures
        r is Err <==> find_stream_spec(streams_view(streams@), name@) is None,
        r matches Err(e) ==> e matches HwpError::StreamNotFound(n) && n@ == name@,
        r matches Ok(data) ==> data@ == streams_view(streams@)[find_stream_spec(
            streams_view(streams@),
            name@,
        )->Some_0].1,
{
    match find_stream(streams, name) {
        None => Err(HwpError::StreamNotFound(name.to_owned())),
        Some(i) => {
            assert(streams_view(streams@)[i as int].1 == streams@[i as int].data@);
            Ok(streams[i].data.clone())
        },
    }
}

/// Lists the names of the streams in container order, unchanged.
pub fn list_streams(streams: &Vec<Stream>) -> (r: Vec<String>)
    ensures
        r@.len() == streams@.len(),
        forall|i: int| 0 <= i < r@.len() ==> r@[i]@ == streams@[i].name@,
{
    let mut out: Vec<String> = Vec::new();
    let mut i: usize = 0;
    while i < streams.len()
        invariant
            i <= streams@.len(),
            out@.len() == i,
            forall|j: int| 0 <= j < i ==> out@[j]@ == streams@[j].name@,
        decreases streams.len() - i,
    {
        out.push(streams[i].name.clone());
        i += 1;
    }
    out
}

/// Tests whether a stream name marks a body stream.
pub fn body_stream_name(name: &String) -> (r: bool)
    ensures
        r == is_body_stream(name@),
{
    starts_with(name.as_str().as_bytes(), "BodyText/".as_bytes())
}

/// Appends the paragraphs of a body stream's raw (inflated) bytes to text that
/// holds `done` paragraphs.
pub fn append_stream_text(
    out: &mut Vec<u16>,
    any: &mut bool,
    raw: &[u8],
    Ghost(done): Ghost<Seq<Seq<u16>>>,
) -> (r: Result<Ghost<Seq<Seq<u16>>>, HwpError>)
    requires
        old(out)@ == join_lines(done),
        *old(any) == (done.len() > 0),
    ensures
        r is Err <==> parse_spec(raw@) is None,
        r is Err ==> r matches Err(HwpError::InvalidRecordHeader),
        r matches Ok(all) ==> {
            &&& all@ == done + record_paragraphs(parse_spec(raw@)->Some_0)
            &&& final(out)@ == join_lines(all@)
            &&& *final(any) == (all@.len() > 0)
        },
{
    match parse_records(raw) {
        Err(e) => Err(e),
        Ok(records) => {
            let all = append_record_text(out, any, &records, Ghost(done));
            Ok(all)
        },
    }
}

/// The text units of all body streams, in container order.
fn body_units(streams: &Vec<Stream>, compressed: bool) -> (r: Result<Vec<u16>, HwpError>)
    ensures
        match body_paragraphs(streams_view(streams@), compressed) {
            Ok(ps) => r is Ok && r->Ok_0@ == join_lines(ps),
            Err(k) => r is Err && kind_of(r->Err_0) == k,
        },
{
    let ghost ss = streams_view(streams@);
    let mut out: Vec<u16> = Vec::new();
    let mut any = false;
    let ghost mut done: Seq<Seq<u16>> = Seq::empty();
    let mut i: usize = 0;
    assert(ss.subrange(0, 0) =~= Seq::<StreamModel>::empty());
    while i < streams.len()
        invariant
            i <= streams@.len(),
            ss == streams_view(streams@),
            body_paragraphs(ss.subrange(0, i as int), compressed) == Ok::<
                Seq<Seq<u16>>,
                ErrorKind,
            >(done),
            out@ == join_lines(done),
            any == (done.len() > 0),
        decreases streams.len() - i,
    {
        let ghost next = ss.subrange(0, i as int + 1);
        assert(next.drop_last() =~= ss.subrange(0, i as int));
        assert(next.last() == streams@[i as int]@);
        if body_stream_name(&streams[i].name) {
            let appended = match inflate(streams[i].data.as_slice(), compressed) {
                Err(e) => Err(e),
                Ok(raw) => append_stream_text(&mut out, &mut any, raw.as_slice(), Ghost(done)),
            };
            match appended {
                Err(e) => {
                    proof {
                        lemma_body_error_persists(ss, i as int + 1, compressed);
                        assert(ss.subrange(0, ss.len() as int) =~= ss);
                    }
                    return Err(e);
                },
                Ok(all) => {
                    proof {
                        done = all@;
                    }
                },
            }
        }
        i += 1;
    }
    assert(ss.subrange(0, i as int) =~= ss);
    Ok(out)
}

/// Once a prefix of the streams fails, every longer prefix fails the same way.
proof fn lemma_body_error_persists(ss: Seq<StreamModel>, n: int, compressed: bool)
    requires
        0 <= n <= ss.len(),
        body_paragraphs(ss.subrange(0, n), compressed) is Err,
    ensures
        body_paragraphs(ss.subrange(0, ss.len() as int), compressed) == body_paragraphs(
            ss.subrange(0, n),
            compressed,
        ),
    decreases ss.len() - n,
{
    if n < ss.len() {
        let next = ss.subrange(0, n + 1);
        assert(next.drop_last() =~= ss.subrange(0, n));
        lemma_body_error_persists(ss, n + 1, compressed);
    }
}

/// The text units of a legacy document whose streams are given in container order.
///
/// The header stream "FileHeader" is required (`UnsupportedFormat`); it is
/// inspected, and a password-protected document is refused before any body
/// stream is read. A distribution document's body is encrypted and is refused
/// with `DecryptFailed`. Body streams are inflated when the header says the
/// document is compressed, split into records and turned into paragraphs.
pub fn hwp_text_units(streams: &Vec<Stream>) -> (r: Result<Vec<u16>, HwpError>)
    ensures
        units_outcome(r, hwp_text_spec(streams_view(streams@))),
{
    let h = match find_stream(streams, "FileHeader") {
        None => {
            return Err(HwpError::UnsupportedFormat);
        },
        Some(i) => i,
    };
    assert(streams_view(streams@)[h as int].1 == streams@[h as int].data@);
    let info = match inspect(streams[h].data.as_slice()) {
        Err(e) => {
            return Err(e);
        },
        Ok(info) => info,
    };
    match check_protection(&info) {
        Err(e) => {
            return Err(e);
        },
        Ok(()) => {},
    }
    if info.is_distribution_document {
        return Err(HwpError::DecryptFailed("distribution document body is encrypted".to_owned()));
    }
    body_units(streams, info.is_compressed)
}

/// Reads the header stream and applies every check that it alone decides:
/// signature, version, password protection, and the encrypted body of a
/// distribution document.
pub fn gate(h: &[u8]) -> (r: Result<HeaderInfo, HwpError>)
    ensures
        match header_gate(h@) {
            Some(k) => r matches Err(e) && kind_of(e) == k,
            None => r == Ok::<HeaderInfo, HwpError>(header_of(h@)),
        },
{
    let info = match inspect(h) {
        Err(e) => {
            return Err(e);
        },
        Ok(info) => info,
    };
    match check_protection(&info) {
        Err(e) => {
            return Err(e);
        },
        Ok(()) => {},
    }
    if info.is_distribution_document {
        return Err(HwpError::DecryptFailed("distribution document body is encrypted".to_owned()));
    }
    Ok(info)
}

/// Extracts the text of a legacy document whose streams are given in container order.
pub fn extract_hwp_text(streams: &Vec<Stream>) -> (r: Result<String, HwpError>)
    ensures
        text_outcome(r, hwp_text_spec(streams_view(streams@))),
{
    match hwp_text_units(streams) {
        Err(e) => Err(e),
        Ok(units) => Ok(string_from_utf16(units.as_slice())),
    }
}


/// A protected document yields `PasswordProtected` whatever its body streams
/// hold: two containers whose header streams agree give that same outcome.
pub proof fn protected_document_reads_no_body(
    a: Seq<StreamModel>,
    b: Seq<StreamModel>,
    i: int,
    j: int,
)
    requires
        find_stream_spec(a, "FileHeader"@) == Some(i),
        find_stream_spec(b, "FileHeader"@) == Some(j),
        a[i].1 == b[j].1,
        valid_signature(a[i].1),
        supported_version(version_at(a[i].1)),
        header_of(a[i].1).is_password_protected,
    ensures
        hwp_text_spec(a) == Err::<Seq<u16>, ErrorKind>(ErrorKind::PasswordProtected),
        hwp_text_spec(b) == Err::<Seq<u16>, ErrorKind>(ErrorKind::PasswordProtected),
{
}

/// A compressed body stream that does not inflate fails with
/// `DecompressFailed`, before any record is parsed.
pub proof fn failed_inflate_is_decompress_failed(data: Seq<u8>)
    requires
        raw_inflate(data) is None,
    ensures
        stream_paragraphs(data, true) == Err::<Seq<Seq<u16>>, ErrorKind>(
            ErrorKind::DecompressFailed,
        ),
{
}

/// The header's flags take effect unchanged: a legacy document with a valid
/// header is refused as protected exactly when its password bit is set; with
/// neither the password nor the distribution bit it decodes its body streams,
/// inflating them exactly when the compression bit is set.
pub proof fn header_flags_take_effect(ss: Seq<StreamModel>, i: int)
    requires
        find_stream_spec(ss, "FileHeader"@) == Some(i),
        valid_signature(ss[i].1),
        supported_version(version_at(ss[i].1)),
    ensures
        hwp_text_spec(ss) == Err::<Seq<u16>, ErrorKind>(ErrorKind::PasswordProtected) <==> (
        flags_at(ss[i].1) / 2) % 2 == 1,
        (flags_at(ss[i].1) / 2) % 2 == 0 && (flags_at(ss[i].1) / 4) % 2 == 0 ==> hwp_text_spec(ss)
            == match body_paragraphs(ss, flags_at(ss[i].1) % 2 == 1) {
            Err(k) => Err(k),
            Ok(ps) => Ok(join_lines(ps)),
        },
{
    if (flags_at(ss[i].1) / 2) % 2 == 0 && (flags_at(ss[i].1) / 4) % 2 != 0 {
        assert(hwp_text_spec(ss) == Err::<Seq<u16>, ErrorKind>(ErrorKind::DecryptFailed));
    }
    if (flags_at(ss[i].1) / 2) % 2 == 0 && (flags_at(ss[i].1) / 4) % 2 == 0 {
        lemma_body_never_protected(ss, flags_at(ss[i].1) % 2 == 1);
    }
}

/// Decoding body streams never yields `PasswordProtected`.
proof fn lemma_body_never_protected(ss: Seq<StreamModel>, compressed: bool)
    ensures
        body_paragraphs(ss, compressed) != Err::<Seq<Seq<u16>>, ErrorKind>(
            ErrorKind::PasswordProtected,
        ),
    decreases ss.len(),
{
    if ss.len() > 0 {
        lemma_body_never_protected(ss.drop_last(), compressed);
    }
}

} // verus!
