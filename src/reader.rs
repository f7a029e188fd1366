use vstd::prelude::*;
use vstd::utf8::{
    decode_utf8,
    encode_utf8,
    encode_utf8_valid_utf8,
    pop_first_scalar,
    valid_utf8,
    valid_utf8_concat,
};

use crate::bytes::copy_range;
use crate::container::{
    Format,
    detect_format,
    document_text_spec,
    extract_text,
    has_archive_magic,
    has_compound_magic,
};
use crate::document::{Stream, StreamModel, gate, header_gate, streams_view};
use crate::header::{header_of, supported_version, valid_signature, version_at};
use crate::error::{ErrorKind, HwpError, kind_of};
use crate::hwpx::{chars_outcome, manifest_name, string_from_utf8};
use crate::text::{append_piece, join_with};

verus! {

#[verifier::external_type_specification]
#[verifier::external_body]
#[verifier::reject_recursive_types(T)]
pub struct ExCursor<T>(std::io::Cursor<T>);

#[verifier::external_type_specification]
#[verifier::external_body]
#[verifier::reject_recursive_types(F)]
pub struct ExCompoundFile<F>(cfb::CompoundFile<F>);

#[verifier::external_type_specification]
#[verifier::external_body]
#[verifier::reject_recursive_types(R)]
pub struct ExZipArchive<R>(zip::ZipArchive<R>);

/// A compound file opened over bytes in memory.
pub type CompoundBytes = cfb::CompoundFile<std::io::Cursor<Vec<u8>>>;

/// A zip archive opened over bytes in memory.
pub type ArchiveBytes = zip::ZipArchive<std::io::Cursor<Vec<u8>>>;

/// The entries of a compound file in preorder, each as the components of its
/// path (the first being the root "/") and whether it is a stream.
pub uninterp spec fn compound_entries(f: cfb::CompoundFile<std::io::Cursor<Vec<u8>>>) -> Seq<
    (Seq<Seq<char>>, bool),
>;

/// The bytes that a compound file was opened over.
pub uninterp spec fn compound_source(f: cfb::CompoundFile<std::io::Cursor<Vec<u8>>>) -> Seq<u8>;

/// The entries that cfb finds in the bytes `b`, as `compound_entries` gives
/// them; `None` where the bytes do not open as a compound file.
pub uninterp spec fn compound_listing(b: Seq<u8>) -> Option<Seq<(Seq<Seq<char>>, bool)>>;

/// The bytes that cfb reads for the stream at `path` of the compound file
/// `b`; `None` where reading it fails.
pub uninterp spec fn compound_stream_data(b: Seq<u8>, path: Seq<Seq<char>>) -> Option<Seq<u8>>;

/// The entry names of a zip archive in central-directory order.
pub uninterp spec fn archive_entries(a: zip::ZipArchive<std::io::Cursor<Vec<u8>>>) -> Seq<
    Seq<char>,
>;

/// The bytes that an archive was opened over.
pub uninterp spec fn archive_source(a: zip::ZipArchive<std::io::Cursor<Vec<u8>>>) -> Seq<u8>;

/// The entry names that zip finds in the bytes `b`; `None` where the bytes do
/// not open as an archive.
pub uninterp spec fn archive_listing(b: Seq<u8>) -> Option<Seq<Seq<char>>>;

/// The decompressed bytes that zip reads for entry `i` of the archive `b`;
/// `None` where reading it fails.
pub uninterp spec fn archive_entry_bytes(b: Seq<u8>, i: int) -> Option<Seq<u8>>;

/// Relies on cfb::CompoundFile::open: parses the header, allocation tables and
/// directory of a compound file, or fails; the outcome depends on the bytes
/// alone.
#[verifier::external_body]
fn open_compound(bytes: Vec<u8>) -> (r: Result<CompoundBytes, String>)
    ensures
        r is Ok <==> compound_listing(bytes@) is Some,
        r matches Ok(f) ==> compound_source(f) == bytes@ && compound_entries(f) == compound_listing(
            bytes@,
        )->Some_0,
{
    cfb::CompoundFile::open(std::io::Cursor::new(bytes)).map_err(|e| e.to_string())
}

/// Relies on cfb::CompoundFile::walk: every entry in preorder, with its path
/// split into components and its stream flag.
#[verifier::external_body]
fn compound_walk(f: &CompoundBytes) -> (r: Vec<(Vec<String>, bool)>)
    ensures
        r@.len() == compound_entries(*f).len(),
        forall|i: int|
            0 <= i < r@.len() ==> (#[trigger] r@[i]).0@.map_values(|c: String| c@)
                == compound_entries(*f)[i].0 && r@[i].1 == compound_entries(*f)[i].1,
{
    f.walk().map(
        |e| (e.path().iter().map(|c| c.to_string_lossy().into_owned()).collect(), e.is_stream()),
    ).collect()
}

/// Relies on cfb::CompoundFile::open_stream, read to the end: the bytes of the
/// stream at `path`; reading leaves the directory and the source as they were.
#[verifier::external_body]
fn read_compound_stream(f: &mut CompoundBytes, path: &Vec<String>) -> (r: Result<Vec<u8>, String>)
    ensures
        compound_entries(*final(f)) == compound_entries(*old(f)),
        compound_source(*final(f)) == compound_source(*old(f)),
        r is Ok <==> compound_stream_data(
            compound_source(*old(f)),
            path@.map_values(|c: String| c@),
        ) is Some,
        r matches Ok(d) ==> d@ == compound_stream_data(
            compound_source(*old(f)),
            path@.map_values(|c: String| c@),
        )->Some_0,
{
    let p: std::path::PathBuf = path.iter().collect();
    let mut data = Vec::new();
    match f.open_stream(&p).and_then(|mut s| std::io::Read::read_to_end(&mut s, &mut data)) {
        Ok(_) => Ok(data),
        Err(e) => Err(e.to_string()),
    }
}

/// Relies on zip::ZipArchive::new: reads the central directory of an archive,
/// or fails; the outcome depends on the bytes alone.
#[verifier::external_body]
fn open_archive(bytes: Vec<u8>) -> (r: Result<ArchiveBytes, String>)
    ensures
        r is Ok <==> archive_listing(bytes@) is Some,
        r matches Ok(a) ==> archive_source(a) == bytes@ && archive_entries(a) == archive_listing(
            bytes@,
        )->Some_0,
{
    zip::ZipArchive::new(std::io::Cursor::new(bytes)).map_err(|e| e.to_string())
}

/// Relies on zip::ZipArchive::len: the number of entries.
#[verifier::external_body]
fn archive_len(a: &ArchiveBytes) -> (r: usize)
    ensures
        r == archive_entries(*a).len(),
{
    a.len()
}

/// Relies on zip::ZipArchive::name_for_index: the name of entry `i`.
#[verifier::external_body]
fn archive_entry_name(a: &ArchiveBytes, i: usize) -> (r: String)
    requires
        i < archive_entries(*a).len(),
    ensures
        r@ == archive_entries(*a)[i as int],
{
    match a.name_for_index(i) {
        Some(n) => n.to_string(),
        None => String::new(),
    }
}

/// Relies on zip::ZipArchive::by_index, read to the end: the decompressed
/// bytes of entry `i`; reading leaves the entries and the source as they were.
#[verifier::external_body]
fn archive_entry_data(a: &mut ArchiveBytes, i: usize) -> (r: Result<Vec<u8>, String>)
    requires
        i < archive_entries(*old(a)).len(),
    ensures
        archive_entries(*final(a)) == archive_entries(*old(a)),
        archive_source(*final(a)) == archive_source(*old(a)),
        r is Ok <==> archive_entry_bytes(archive_source(*old(a)), i as int) is Some,
        r matches Ok(d) ==> d@ == archive_entry_bytes(archive_source(*old(a)), i as int)->Some_0,
{
    let mut data = Vec::new();
    match a.by_index(i) {
        Ok(mut file) => match std::io::Read::read_to_end(&mut file, &mut data) {
            Ok(_) => Ok(data),
            Err(e) => Err(e.to_string()),
        },
        Err(e) => Err(e.to_string()),
    }
}

/// The separator of path components in stream names.
pub const SLASH: u8 = 0x2f;

/// The UTF-8 bytes of a stream name: the path components below the root,
/// joined by slashes.
pub open spec fn entry_name_bytes(comps: Seq<Seq<char>>) -> Seq<u8> {
    let below = if comps.len() == 0 {
        comps
    } else {
        comps.drop_first()
    };
    join_with(below.map_values(|c: Seq<char>| encode_utf8(c)), SLASH)
}

/// The names of the stream entries of a compound file, in walk order.
pub open spec fn compound_stream_names(es: Seq<(Seq<Seq<char>>, bool)>) -> Seq<Seq<char>>
    decreases es.len(),
{
    if es.len() == 0 {
        Seq::empty()
    } else {
        let more = if es.last().1 {
            seq![decode_utf8(entry_name_bytes(es.last().0))]
        } else {
            Seq::empty()
        };
        compound_stream_names(es.drop_last()) + more
    }
}

/// Whether an archive entry is a directory: its name ends in a slash or a
/// backslash.
pub open spec fn is_dir_name(n: Seq<char>) -> bool {
    let b = encode_utf8(n);
    b.len() > 0 && (b.last() == SLASH || b.last() == BACKSLASH)
}

/// The separator that some archivers write in directory names.
pub const BACKSLASH: u8 = 0x5c;

/// The names of the file entries of an archive, in directory order.
pub open spec fn archive_file_names(es: Seq<Seq<char>>) -> Seq<Seq<char>>
    decreases es.len(),
{
    if es.len() == 0 {
        Seq::empty()
    } else {
        let more = if !is_dir_name(es.last()) {
            seq![es.last()]
        } else {
            Seq::empty()
        };
        archive_file_names(es.drop_last()) + more
    }
}

/// The streams of the compound file `b` whose entries are `es`, in walk
/// order; `None` where one of them cannot be read.
pub open spec fn compound_streams_spec(b: Seq<u8>, es: Seq<(Seq<Seq<char>>, bool)>) -> Option<
    Seq<StreamModel>,
>
    decreases es.len(),
{
    if es.len() == 0 {
        Some(Seq::empty())
    } else {
        match compound_streams_spec(b, es.drop_last()) {
            None => None,
            Some(ss) => if es.last().1 {
                match compound_stream_data(b, es.last().0) {
                    None => None,
                    Some(d) => Some(ss.push((decode_utf8(entry_name_bytes(es.last().0)), d))),
                }
            } else {
                Some(ss)
            },
        }
    }
}

/// The file entries of the archive `b` among its first `n` entries `es`, in
/// directory order; `None` where one of them cannot be read.
pub open spec fn archive_streams_spec(b: Seq<u8>, es: Seq<Seq<char>>) -> Option<Seq<StreamModel>>
    decreases es.len(),
{
    if es.len() == 0 {
        Some(Seq::empty())
    } else {
        match archive_streams_spec(b, es.drop_last()) {
            None => None,
            Some(ss) => if !is_dir_name(es.last()) {
                match archive_entry_bytes(b, es.len() - 1) {
                    None => None,
                    Some(d) => Some(ss.push((es.last(), d))),
                }
            } else {
                Some(ss)
            },
        }
    }
}

/// The streams of a compound file held in `b`, or `None` where it does not
/// open or a stream cannot be read.
pub open spec fn compound_doc(b: Seq<u8>) -> Option<Seq<StreamModel>> {
    match compound_listing(b) {
        None => None,
        Some(es) => compound_streams_spec(b, es),
    }
}

/// The file entries of an archive held in `b`, or `None` where it does not
/// open or an entry cannot be read.
pub open spec fn archive_doc(b: Seq<u8>) -> Option<Seq<StreamModel>> {
    match archive_listing(b) {
        None => None,
        Some(es) => archive_streams_spec(b, es),
    }
}

/// The texts of a sequence of strings.
pub open spec fn string_views(v: Seq<String>) -> Seq<Seq<char>> {
    v.map_values(|s: String| s@)
}


/// Builds the name of a compound-file stream from its path components.
pub fn entry_name(comps: &Vec<String>) -> (r: String)
    ensures
        valid_utf8(entry_name_bytes(comps@.map_values(|c: String| c@))),
        r@ == decode_utf8(entry_name_bytes(comps@.map_values(|c: String| c@))),
{
    let ghost cs = comps@.map_values(|c: String| c@);
    let ghost below = if cs.len() == 0 {
        cs
    } else {
        cs.drop_first()
    };
    let ghost pieces = below.map_values(|c: Seq<char>| encode_utf8(c));
    let mut out: Vec<u8> = Vec::new();
    let ghost mut done: Seq<Seq<u8>> = Seq::empty();
    let mut k: usize = 1;
    if comps.len() == 0 {
        assert(pieces =~= Seq::<Seq<u8>>::empty());
        k = 0;
    }
    while k < comps.len()
        invariant
            comps.len() > 0 ==> 1 <= k,
            comps.len() == 0 ==> k == 0 && done == pieces,
            k <= comps@.len(),
            cs == comps@.map_values(|c: String| c@),
            below == (if cs.len() == 0 {
                cs
            } else {
                cs.drop_first()
            }),
            pieces == below.map_values(|c: Seq<char>| encode_utf8(c)),
            comps.len() > 0 ==> done == pieces.subrange(0, k - 1),
            out@ == join_with(done, SLASH),
            valid_utf8(out@),
        decreases comps.len() - k,
    {
        let b = comps[k].as_str().as_bytes();
        let piece = copy_range(b, 0, b.len());
        assert(piece@ =~= pieces[k - 1]);
        let ghost before = out@;
        append_piece(&mut out, &piece, SLASH, k == 1, Ghost(done));
        proof {
            encode_utf8_valid_utf8(below[k - 1]);
            let ps = done.push(piece@);
            assert(ps.drop_last() =~= done);
            if k == 1 {
                assert(out@ == piece@);
            } else {
                lemma_slash_valid();
                valid_utf8_concat(before, seq![SLASH]);
                valid_utf8_concat(before + seq![SLASH], piece@);
                assert(out@ == before + seq![SLASH] + piece@);
            }
            assert(pieces.subrange(0, k as int) =~= done.push(piece@));
            done = done.push(piece@);
        }
        k += 1;
    }
    if comps.len() > 0 {
        assert(cs.len() == comps@.len());
        assert(pieces.len() == cs.len() - 1);
        assert(pieces.len() == k - 1);
        assert(pieces.subrange(0, pieces.len() as int) =~= pieces);
        assert(done == pieces);
    } else {
        assert(done =~= pieces);
    }
    match string_from_utf8(out) {
        Some(n) => n,
        None => {
            assert(false);
            String::new()
        },
    }
}

proof fn lemma_slash_valid()
    ensures
        valid_utf8(seq![SLASH]),
{
    let b = seq![SLASH];
    assert(pop_first_scalar(b) =~= Seq::<u8>::empty());
    assert(valid_utf8(Seq::<u8>::empty()));
}


/// Tests whether an archive entry name marks a directory.
pub fn dir_name(n: &String) -> (r: bool)
    ensures
        r == is_dir_name(n@),
{
    let b = n.as_str().as_bytes();
    b.len() > 0 && (b[b.len() - 1] == SLASH || b[b.len() - 1] == BACKSLASH)
}

/// Reads every stream of a compound file, in walk order, named by its path
/// below the root. Fails with `Parse` exactly where a stream cannot be read.
pub fn compound_streams(f: &mut CompoundBytes) -> (r: Result<Vec<Stream>, HwpError>)
    ensures
        r is Ok <==> compound_streams_spec(compound_source(*old(f)), compound_entries(*old(f))) is Some,
        r matches Ok(v) ==> streams_view(v@) == compound_streams_spec(
            compound_source(*old(f)),
            compound_entries(*old(f)),
        )->Some_0,
        r matches Err(e) ==> e is Parse,
{
    let entries = compound_walk(f);
    let ghost es = compound_entries(*f);
    let ghost b = compound_source(*f);
    let mut out: Vec<Stream> = Vec::new();
    let mut i: usize = 0;
    assert(es.subrange(0, 0) =~= Seq::<(Seq<Seq<char>>, bool)>::empty());
    assert(streams_view(out@) =~= Seq::<StreamModel>::empty());
    while i < entries.len()
        invariant
            i <= entries@.len(),
            entries@.len() == es.len(),
            es == compound_entries(*old(f)),
            b == compound_source(*old(f)),
            compound_entries(*f) == es,
            compound_source(*f) == b,
            forall|j: int|
                0 <= j < entries@.len() ==> (#[trigger] entries@[j]).0@.map_values(
                    |c: String| c@,
                ) == es[j].0 && entries@[j].1 == es[j].1,
            compound_streams_spec(b, es.subrange(0, i as int)) == Some(streams_view(out@)),
        decreases entries.len() - i,
    {
        let ghost next = es.subrange(0, i as int + 1);
        assert(next.drop_last() =~= es.subrange(0, i as int));
        assert(next.last() == es[i as int]);
        if entries[i].1 {
            let name = entry_name(&entries[i].0);
            let data = match read_compound_stream(f, &entries[i].0) {
                Ok(d) => d,
                Err(detail) => {
                    proof {
                        lemma_compound_none_persists(b, es, i as int + 1);
                    }
                    return Err(HwpError::Parse(detail));
                },
            };
            let ghost before = out@;
            out.push(Stream { name, data });
            assert(streams_view(out@) =~= streams_view(before).push(out@.last()@));
        }
        i += 1;
    }
    assert(es.subrange(0, i as int) =~= es);
    Ok(out)
}

proof fn lemma_compound_none_persists(b: Seq<u8>, es: Seq<(Seq<Seq<char>>, bool)>, n: int)
    requires
        0 <= n <= es.len(),
        compound_streams_spec(b, es.subrange(0, n)) is None,
    ensures
        compound_streams_spec(b, es) is None,
    decreases es.len() - n,
{
    if n < es.len() {
        let next = es.subrange(0, n + 1);
        assert(next.drop_last() =~= es.subrange(0, n));
        lemma_compound_none_persists(b, es, n + 1);
    } else {
        assert(es.subrange(0, n) =~= es);
    }
}

/// The names of the streams of a compound file, in walk order, without
/// reading any stream.
pub fn compound_names(f: &CompoundBytes) -> (r: Vec<String>)
    ensures
        string_views(r@) == compound_stream_names(compound_entries(*f)),
{
    let entries = compound_walk(f);
    let ghost es = compound_entries(*f);
    let mut out: Vec<String> = Vec::new();
    let mut i: usize = 0;
    assert(es.subrange(0, 0) =~= Seq::<(Seq<Seq<char>>, bool)>::empty());
    assert(string_views(out@) =~= Seq::<Seq<char>>::empty());
    while i < entries.len()
        invariant
            i <= entries@.len(),
            entries@.len() == es.len(),
            es == compound_entries(*f),
            forall|j: int|
                0 <= j < entries@.len() ==> (#[trigger] entries@[j]).0@.map_values(
                    |c: String| c@,
                ) == es[j].0 && entries@[j].1 == es[j].1,
            string_views(out@) == compound_stream_names(es.subrange(0, i as int)),
        decreases entries.len() - i,
    {
        let ghost next = es.subrange(0, i as int + 1);
        assert(next.drop_last() =~= es.subrange(0, i as int));
        assert(next.last() == es[i as int]);
        if entries[i].1 {
            let name = entry_name(&entries[i].0);
            let ghost before = out@;
            out.push(name);
            assert(string_views(out@) =~= before.map_values(|s: String| s@).push(
                out@.last()@,
            ));
        }
        i += 1;
    }
    assert(es.subrange(0, i as int) =~= es);
    out
}

/// Reads every file entry of an archive, in directory order; directories are
/// left out. Fails with `Hwpx` exactly where an entry cannot be read.
pub fn archive_streams(a: &mut ArchiveBytes) -> (r: Result<Vec<Stream>, HwpError>)
    ensures
        r is Ok <==> archive_streams_spec(archive_source(*old(a)), archive_entries(*old(a))) is Some,
        r matches Ok(v) ==> streams_view(v@) == archive_streams_spec(
            archive_source(*old(a)),
            archive_entries(*old(a)),
        )->Some_0,
        r matches Err(e) ==> e is Hwpx,
{
    let n = archive_len(a);
    let ghost es = archive_entries(*a);
    let ghost b = archive_source(*a);
    let mut out: Vec<Stream> = Vec::new();
    let mut i: usize = 0;
    assert(es.subrange(0, 0) =~= Seq::<Seq<char>>::empty());
    assert(streams_view(out@) =~= Seq::<StreamModel>::empty());
    while i < n
        invariant
            i <= n,
            n == es.len(),
            es == archive_entries(*old(a)),
            b == archive_source(*old(a)),
            archive_entries(*a) == es,
            archive_source(*a) == b,
            archive_streams_spec(b, es.subrange(0, i as int)) == Some(streams_view(out@)),
        decreases n - i,
    {
        let ghost next = es.subrange(0, i as int + 1);
        assert(next.drop_last() =~= es.subrange(0, i as int));
        assert(next.last() == es[i as int]);
        let name = archive_entry_name(a, i);
        if !dir_name(&name) {
            let data = match archive_entry_data(a, i) {
                Ok(d) => d,
                Err(detail) => {
                    proof {
                        lemma_archive_none_persists(b, es, i as int + 1);
                    }
                    return Err(HwpError::Hwpx(detail));
                },
            };
            let ghost before = out@;
            out.push(Stream { name, data });
            assert(streams_view(out@) =~= streams_view(before).push(out@.last()@));
        }
        i += 1;
    }
    assert(es.subrange(0, i as int) =~= es);
    Ok(out)
}

proof fn lemma_archive_none_persists(b: Seq<u8>, es: Seq<Seq<char>>, n: int)
    requires
        0 <= n <= es.len(),
        archive_streams_spec(b, es.subrange(0, n)) is None,
    ensures
        archive_streams_spec(b, es) is None,
    decreases es.len() - n,
{
    if n < es.len() {
        let next = es.subrange(0, n + 1);
        assert(next.drop_last() =~= es.subrange(0, n));
        lemma_archive_none_persists(b, es, n + 1);
    } else {
        assert(es.subrange(0, n) =~= es);
    }
}

/// The names of the file entries of an archive, in directory order, without
/// reading any entry.
pub fn archive_names(a: &ArchiveBytes) -> (r: Vec<String>)
    ensures
        string_views(r@) == archive_file_names(archive_entries(*a)),
{
    let n = archive_len(a);
    let ghost es = archive_entries(*a);
    let mut out: Vec<String> = Vec::new();
    let mut i: usize = 0;
    assert(es.subrange(0, 0) =~= Seq::<Seq<char>>::empty());
    assert(string_views(out@) =~= Seq::<Seq<char>>::empty());
    while i < n
        invariant
            i <= n,
            n == es.len(),
            es == archive_entries(*a),
            string_views(out@) == archive_file_names(es.subrange(0, i as int)),
        decreases n - i,
    {
        let ghost next = es.subrange(0, i as int + 1);
        assert(next.drop_last() =~= es.subrange(0, i as int));
        assert(next.last() == es[i as int]);
        let name = archive_entry_name(a, i);
        if !dir_name(&name) {
            let ghost before = out@;
            out.push(name);
            assert(string_views(out@) =~= before.map_values(|s: String| s@).push(
                out@.last()@,
            ));
        }
        i += 1;
    }
    assert(es.subrange(0, i as int) =~= es);
    out
}

/// Whether a result of `open_document` agrees with the streams `doc` that the
/// container holds, or fails with `Parse` (compound file) or `Hwpx` (archive)
/// where there are none.
pub open spec fn opened_as(
    r: Result<(Format, Vec<Stream>), HwpError>,
    format: Format,
    doc: Option<Seq<StreamModel>>,
) -> bool {
    match doc {
        Some(ss) => r matches Ok((f, v)) && f == format && streams_view(v@) == ss,
        None => r matches Err(e) && (if format == Format::Compound {
            e is Parse
        } else {
            e is Hwpx
        }),
    }
}

/// Opens a document held in memory: the magic bytes decide the format, and
/// anything with neither magic is refused with `InvalidSignature` before any
/// container parsing. Then every stream (or file entry) is read.
pub fn open_document(bytes: Vec<u8>) -> (r: Result<(Format, Vec<Stream>), HwpError>)
    ensures
        !has_compound_magic(bytes@) && !has_archive_magic(bytes@) <==> r matches Err(
            HwpError::InvalidSignature,
        ),
        has_compound_magic(bytes@) ==> opened_as(r, Format::Compound, compound_doc(bytes@)),
        has_archive_magic(bytes@) ==> opened_as(r, Format::Archive, archive_doc(bytes@)),
{
    let ghost b = bytes@;
    let format = match detect_format(bytes.as_slice()) {
        Ok(format) => format,
        Err(e) => {
            return Err(e);
        },
    };
    assert(!(has_compound_magic(b) && has_archive_magic(b)));
    match format {
        Format::Compound => {
            let mut file = match open_compound(bytes) {
                Ok(file) => file,
                Err(detail) => {
                    return Err(HwpError::Parse(detail));
                },
            };
            match compound_streams(&mut file) {
                Ok(streams) => Ok((format, streams)),
                Err(e) => Err(e),
            }
        },
        Format::Archive => {
            let mut archive = match open_archive(bytes) {
                Ok(archive) => archive,
                Err(detail) => {
                    return Err(HwpError::Hwpx(detail));
                },
            };
            match archive_streams(&mut archive) {
                Ok(streams) => Ok((format, streams)),
                Err(e) => Err(e),
            }
        },
    }
}

/// The path of the header stream: "FileHeader" under the root.
pub open spec fn header_path() -> Seq<Seq<char>> {
    seq!["/"@, "FileHeader"@]
}

/// The outcome of extracting a compound file held in `b`.
///
/// The header stream is read first, and what it alone decides (signature,
/// version, protection) stops the document before any other stream is read.
/// Otherwise every stream is read and the legacy document decoded.
pub open spec fn compound_text_spec(b: Seq<u8>) -> Result<Seq<char>, ErrorKind> {
    match compound_listing(b) {
        None => Err(ErrorKind::Parse),
        Some(es) => {
            let early = match compound_stream_data(b, header_path()) {
                Some(h) => header_gate(h),
                None => None,
            };
            match early {
                Some(k) => Err(k),
                None => match compound_streams_spec(b, es) {
                    None => Err(ErrorKind::Parse),
                    Some(ss) => document_text_spec(Format::Compound, ss),
                },
            }
        },
    }
}

/// The outcome of extracting an archive held in `b`.
pub open spec fn archive_text_spec(b: Seq<u8>) -> Result<Seq<char>, ErrorKind> {
    match archive_doc(b) {
        None => Err(ErrorKind::Hwpx),
        Some(ss) => document_text_spec(Format::Archive, ss),
    }
}

/// A protected compound document fails with `PasswordProtected` whatever its
/// other streams hold, readable or not: only its header stream decides.
pub proof fn protected_compound_reads_no_body(b: Seq<u8>, h: Seq<u8>)
    requires
        compound_listing(b) is Some,
        compound_stream_data(b, header_path()) == Some(h),
        valid_signature(h),
        supported_version(version_at(h)),
        header_of(h).is_password_protected,
    ensures
        compound_text_spec(b) == Err::<Seq<char>, ErrorKind>(ErrorKind::PasswordProtected),
{
}

fn header_path_exec() -> (r: Vec<String>)
    ensures
        string_views(r@) == header_path(),
{
    let mut r: Vec<String> = Vec::new();
    r.push("/".to_owned());
    r.push("FileHeader".to_owned());
    assert(string_views(r@) =~= header_path());
    r
}

/// Extracts the text of a compound file, reading its header stream first.
fn compound_text(bytes: Vec<u8>) -> (r: Result<String, HwpError>)
    ensures
        chars_outcome(r, compound_text_spec(bytes@)),
{
    let ghost b = bytes@;
    let mut file = match open_compound(bytes) {
        Ok(file) => file,
        Err(detail) => {
            return Err(HwpError::Parse(detail));
        },
    };
    let path = header_path_exec();
    match read_compound_stream(&mut file, &path) {
        Ok(h) => match gate(h.as_slice()) {
            Err(e) => {
                return Err(e);
            },
            Ok(_) => {},
        },
        Err(_) => {},
    }
    match compound_streams(&mut file) {
        Err(e) => Err(e),
        Ok(streams) => extract_text(Format::Compound, &streams),
    }
}

/// Extracts the text of an archive.
fn archive_text(bytes: Vec<u8>) -> (r: Result<String, HwpError>)
    ensures
        chars_outcome(r, archive_text_spec(bytes@)),
{
    let mut archive = match open_archive(bytes) {
        Ok(archive) => archive,
        Err(detail) => {
            return Err(HwpError::Hwpx(detail));
        },
    };
    match archive_streams(&mut archive) {
        Err(e) => Err(e),
        Ok(streams) => extract_text(Format::Archive, &streams),
    }
}

/// Extracts the text of a document held in memory.
///
/// Bytes with neither magic sequence fail with `InvalidSignature` before any
/// container parsing. A compound file has its header stream read and checked
/// before any other stream; an archive has its entries read and decoded.
pub fn extract_document_text(bytes: Vec<u8>) -> (r: Result<String, HwpError>)
    ensures
        !has_compound_magic(bytes@) && !has_archive_magic(bytes@) ==> r matches Err(
            HwpError::InvalidSignature,
        ),
        has_compound_magic(bytes@) ==> chars_outcome(r, compound_text_spec(bytes@)),
        has_archive_magic(bytes@) ==> chars_outcome(r, archive_text_spec(bytes@)),
{
    let ghost b = bytes@;
    match detect_format(bytes.as_slice()) {
        Err(e) => Err(e),
        Ok(Format::Compound) => {
            assert(!has_archive_magic(b));
            compound_text(bytes)
        },
        Ok(Format::Archive) => {
            assert(!has_compound_magic(b));
            archive_text(bytes)
        },
    }
}

/// What listing the names of a document held in `b` gives: the stream names
/// of a compound file; the file names of an archive, which must hold its
/// manifest.
pub open spec fn listing_spec(b: Seq<u8>) -> Result<Seq<Seq<char>>, ErrorKind> {
    if has_compound_magic(b) {
        match compound_listing(b) {
            None => Err(ErrorKind::Parse),
            Some(es) => Ok(compound_stream_names(es)),
        }
    } else if has_archive_magic(b) {
        match archive_listing(b) {
            None => Err(ErrorKind::Hwpx),
            Some(es) => if archive_file_names(es).contains(manifest_name()) {
                Ok(archive_file_names(es))
            } else {
                Err(ErrorKind::UnsupportedFormat)
            },
        }
    } else {
        Err(ErrorKind::InvalidSignature)
    }
}

/// Lists the stream (or archive entry) names of a document held in memory,
/// in container order, without reading any stream. An archive without its
/// manifest fails with `UnsupportedFormat`.
pub fn list_document_streams(bytes: Vec<u8>) -> (r: Result<Vec<String>, HwpError>)
    ensures
        match listing_spec(bytes@) {
            Ok(names) => r matches Ok(v) && string_views(v@) == names,
            Err(k) => r matches Err(e) && kind_of(e) == k,
        },
{
    let ghost b = bytes@;
    let format = match detect_format(bytes.as_slice()) {
        Ok(format) => format,
        Err(e) => {
            return Err(e);
        },
    };
    assert(!(has_compound_magic(b) && has_archive_magic(b)));
    match format {
        Format::Compound => match open_compound(bytes) {
            Ok(file) => Ok(compound_names(&file)),
            Err(detail) => Err(HwpError::Parse(detail)),
        },
        Format::Archive => {
            let archive = match open_archive(bytes) {
                Ok(archive) => archive,
                Err(detail) => {
                    return Err(HwpError::Hwpx(detail));
                },
            };
            let names = archive_names(&archive);
            let mut i: usize = 0;
            let wanted = "Contents/content.hpf".to_owned();
            while i < names.len()
                invariant
                    i <= names@.len(),
                    wanted@ == manifest_name(),
                    forall|j: int| 0 <= j < i ==> names@[j]@ != manifest_name(),
                    has_archive_magic(b) && !has_compound_magic(b),
                    b == bytes@,
                    archive_listing(b) is Some,
                    string_views(names@) == archive_file_names(
                        archive_listing(b)->Some_0,
                    ),
                decreases names.len() - i,
            {
                if names[i] == wanted {
                    let ghost shown = string_views(names@);
                    assert(shown[i as int] == manifest_name());
                    assert(shown.contains(manifest_name()));
                    assert(archive_file_names(archive_listing(b)->Some_0).contains(manifest_name()));
                    return Ok(names);
                }
                i += 1;
            }
            assert(!string_views(names@).contains(manifest_name()));
            Err(HwpError::UnsupportedFormat)
        },
    }
}

/// Extraction is deterministic: two results that `extract_document_text`
/// may give for the same bytes hold the same text, or errors of the same kind.
pub proof fn extraction_deterministic(
    b: Seq<u8>,
    r1: Result<String, HwpError>,
    r2: Result<String, HwpError>,
)
    requires
        has_compound_magic(b) ==> chars_outcome(r1, compound_text_spec(b)) && chars_outcome(
            r2,
            compound_text_spec(b),
        ),
        has_archive_magic(b) ==> chars_outcome(r1, archive_text_spec(b)) && chars_outcome(
            r2,
            archive_text_spec(b),
        ),
        !has_compound_magic(b) && !has_archive_magic(b) ==> (r1 matches Err(
            HwpError::InvalidSignature,
        )) && (r2 matches Err(HwpError::InvalidSignature)),
    ensures
        r1 is Ok <==> r2 is Ok,
        r1 is Ok ==> r1->Ok_0@ == r2->Ok_0@,
        r1 is Err ==> kind_of(r1->Err_0) == kind_of(r2->Err_0),
{
}

} // verus!
