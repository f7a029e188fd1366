use vstd::prelude::*;
use vstd::utf8::{decode_utf8, encode_utf8, valid_utf8};

use crate::bytes::{
    bytes_at,
    bytes_equal,
    contains_token,
    find_token,
    has_prefix,
    starts_with,
    token_at,
};
use crate::document::{
    Stream,
    StreamModel,
    find_stream,
    find_stream_spec,
    streams_view,
};
use crate::error::{ErrorKind, HwpError, kind_of};
use crate::text::{append_piece, join_with};

verus! {

/// The byte that separates paragraphs in archive text.
pub const NEWLINE: u8 = 10;

pub open spec fn t_open() -> Seq<u8> {
    encode_utf8("<hp:t>"@)
}

pub open spec fn t_close() -> Seq<u8> {
    encode_utf8("</hp:t>"@)
}

pub open spec fn p_close() -> Seq<u8> {
    encode_utf8("</hp:p>"@)
}

/// The five predefined XML entities and the byte each stands for.
pub open spec fn entity(i: int) -> (Seq<u8>, u8) {
    if i == 0 {
        (encode_utf8("&amp;"@), 0x26)
    } else if i == 1 {
        (encode_utf8("&lt;"@), 0x3c)
    } else if i == 2 {
        (encode_utf8("&gt;"@), 0x3e)
    } else if i == 3 {
        (encode_utf8("&quot;"@), 0x22)
    } else {
        (encode_utf8("&apos;"@), 0x27)
    }
}

/// The first entity that occurs at `pos`, if any.
pub open spec fn entity_at(s: Seq<u8>, pos: int) -> Option<int> {
    if token_at(s, pos, entity(0).0) {
        Some(0)
    } else if token_at(s, pos, entity(1).0) {
        Some(1)
    } else if token_at(s, pos, entity(2).0) {
        Some(2)
    } else if token_at(s, pos, entity(3).0) {
        Some(3)
    } else if token_at(s, pos, entity(4).0) {
        Some(4)
    } else {
        None
    }
}

/// The scanner is outside text elements.
pub const OUTSIDE: u8 = 0;

/// The scanner is inside a text element.
pub const IN_TEXT: u8 = 1;

/// The scanner is inside markup nested in a text element.
pub const IN_MARKUP: u8 = 2;

/// The scanner is inside the attributes of a text element's start tag.
pub const IN_START_TAG: u8 = 3;

pub open spec fn t_open_attrs() -> Seq<u8> {
    encode_utf8("<hp:t "@)
}

pub open spec fn tab_tag() -> Seq<u8> {
    encode_utf8("<hp:tab/>"@)
}

/// The paragraphs of a section part, scanned from `pos` in state `st`.
///
/// Text is the content of `<hp:t>` elements (with or without attributes),
/// with entities decoded and `<hp:tab/>` read as a tab; other markup nested in
/// a text element is skipped. Each `</hp:p>` closes the paragraph gathered so
/// far. `None` where the part ends inside a text element or a tag.
pub open spec fn scan(
    s: Seq<u8>,
    pos: int,
    st: u8,
    cur: Seq<u8>,
    done: Seq<Seq<u8>>,
) -> Option<Seq<Seq<u8>>>
    decreases s.len() - pos,
{
    if pos < 0 || pos >= s.len() {
        if st != OUTSIDE {
            None
        } else if cur.len() > 0 {
            Some(done.push(cur))
        } else {
            Some(done)
        }
    } else if st == IN_TEXT {
        if token_at(s, pos, t_close()) {
            scan(s, pos + t_close().len(), OUTSIDE, cur, done)
        } else if token_at(s, pos, tab_tag()) {
            scan(s, pos + tab_tag().len(), IN_TEXT, cur.push(TAB), done)
        } else if s[pos] == LT {
            scan(s, pos + 1, IN_MARKUP, cur, done)
        } else {
            match entity_at(s, pos) {
                Some(e) => scan(s, pos + entity(e).0.len(), IN_TEXT, cur.push(entity(e).1), done),
                None => scan(s, pos + 1, IN_TEXT, cur.push(s[pos]), done),
            }
        }
    } else if st == IN_MARKUP {
        if s[pos] == GT {
            scan(s, pos + 1, IN_TEXT, cur, done)
        } else {
            scan(s, pos + 1, IN_MARKUP, cur, done)
        }
    } else if st == IN_START_TAG {
        if s[pos] == GT {
            if pos > 0 && s[pos - 1] == SOLIDUS {
                scan(s, pos + 1, OUTSIDE, cur, done)
            } else {
                scan(s, pos + 1, IN_TEXT, cur, done)
            }
        } else {
            scan(s, pos + 1, IN_START_TAG, cur, done)
        }
    } else if token_at(s, pos, t_open()) {
        scan(s, pos + t_open().len(), IN_TEXT, cur, done)
    } else if token_at(s, pos, t_open_attrs()) {
        scan(s, pos + t_open_attrs().len(), IN_START_TAG, cur, done)
    } else if token_at(s, pos, p_close()) {
        scan(s, pos + p_close().len(), OUTSIDE, Seq::empty(), done.push(cur))
    } else {
        scan(s, pos + 1, OUTSIDE, cur, done)
    }
}

/// The bytes `<`, `>`, `/` and tab.
pub const LT: u8 = 0x3c;

pub const GT: u8 = 0x3e;

pub const SOLIDUS: u8 = 0x2f;

pub const TAB: u8 = 9;

pub open spec fn section_paragraphs(s: Seq<u8>) -> Option<Seq<Seq<u8>>> {
    scan(s, 0, OUTSIDE, Seq::empty(), Seq::empty())
}

/// The manifest part that lists the content parts.
pub open spec fn manifest_name() -> Seq<char> {
    "Contents/content.hpf"@
}

pub open spec fn href_open() -> Seq<u8> {
    encode_utf8("href=\""@)
}

pub open spec fn section_prefix() -> Seq<u8> {
    encode_utf8("Contents/section"@)
}

/// The byte that closes an attribute value.
pub const QUOTE: u8 = 0x22;

/// The `href` values of the manifest that name section parts, in manifest
/// order, scanned from `pos`. A value left open at the end is dropped.
pub open spec fn scan_hrefs(
    m: Seq<u8>,
    pos: int,
    in_value: bool,
    cur: Seq<u8>,
    done: Seq<Seq<u8>>,
) -> Seq<Seq<u8>>
    decreases m.len() - pos,
{
    if pos < 0 || pos >= m.len() {
        done
    } else if in_value {
        if m[pos] == QUOTE {
            let kept = if has_prefix(cur, section_prefix()) {
                done.push(cur)
            } else {
                done
            };
            scan_hrefs(m, pos + 1, false, Seq::empty(), kept)
        } else {
            scan_hrefs(m, pos + 1, true, cur.push(m[pos]), done)
        }
    } else if token_at(m, pos, href_open()) {
        scan_hrefs(m, pos + href_open().len(), true, Seq::empty(), done)
    } else {
        scan_hrefs(m, pos + 1, false, cur, done)
    }
}

pub open spec fn section_hrefs(m: Seq<u8>) -> Seq<Seq<u8>> {
    scan_hrefs(m, 0, false, Seq::empty(), Seq::empty())
}

/// The index of the first entry at or after `i` whose name is `name` in UTF-8.
pub open spec fn find_bytes_from(ss: Seq<StreamModel>, name: Seq<u8>, i: int) -> Option<int>
    decreases ss.len() - i,
{
    if i < 0 || i >= ss.len() {
        None
    } else if encode_utf8(ss[i].0) == name {
        Some(i)
    } else {
        find_bytes_from(ss, name, i + 1)
    }
}

/// The paragraphs of the section parts that `hs` names, in that order.
/// A named part that is absent is `UnsupportedFormat`; an unreadable one `Hwpx`.
pub open spec fn sections_paragraphs(ss: Seq<StreamModel>, hs: Seq<Seq<u8>>) -> Result<
    Seq<Seq<u8>>,
    ErrorKind,
>
    decreases hs.len(),
{
    if hs.len() == 0 {
        Ok(Seq::empty())
    } else {
        match sections_paragraphs(ss, hs.drop_last()) {
            Err(k) => Err(k),
            Ok(ps) => match find_bytes_from(ss, hs.last(), 0) {
                None => Err(ErrorKind::UnsupportedFormat),
                Some(j) => match section_paragraphs(ss[j].1) {
                    None => Err(ErrorKind::Hwpx),
                    Some(qs) => Ok(ps + qs),
                },
            },
        }
    }
}

/// The package manifest, which lists encrypted parts.
pub open spec fn package_manifest_name() -> Seq<char> {
    "META-INF/manifest.xml"@
}

/// Whether the package manifest declares encrypted parts: the document is
/// password protected.
pub open spec fn is_protected_package(ss: Seq<StreamModel>) -> bool {
    match find_stream_spec(ss, package_manifest_name()) {
        None => false,
        Some(j) => contains_token(ss[j].1, encode_utf8("encryption-data"@)),
    }
}

/// The text of an archive document, as UTF-8 bytes, or the kind of its failure.
pub open spec fn hwpx_bytes_spec(ss: Seq<StreamModel>) -> Result<Seq<u8>, ErrorKind> {
    match find_stream_spec(ss, manifest_name()) {
        None => Err(ErrorKind::UnsupportedFormat),
        Some(i) => if is_protected_package(ss) {
            Err(ErrorKind::PasswordProtected)
        } else {
            match sections_paragraphs(ss, section_hrefs(ss[i].1)) {
            Err(k) => Err(k),
            Ok(ps) => Ok(join_with(ps, NEWLINE)),
        }
        },
    }
}

/// The text of an archive document, or the kind of its failure.
pub open spec fn hwpx_text_spec(ss: Seq<StreamModel>) -> Result<Seq<char>, ErrorKind> {
    match hwpx_bytes_spec(ss) {
        Err(k) => Err(k),
        Ok(b) => if valid_utf8(b) {
            Ok(decode_utf8(b))
        } else {
            Err(ErrorKind::Hwpx)
        },
    }
}

fn entity_index(s: &[u8], pos: usize) -> (r: Option<usize>)
    ensures
        match entity_at(s@, pos as int) {
            None => r is None,
            Some(e) => r == Some(e as usize),
        },
{
    if bytes_at(s, pos, "&amp;".as_bytes()) {
        Some(0)
    } else if bytes_at(s, pos, "&lt;".as_bytes()) {
        Some(1)
    } else if bytes_at(s, pos, "&gt;".as_bytes()) {
        Some(2)
    } else if bytes_at(s, pos, "&quot;".as_bytes()) {
        Some(3)
    } else if bytes_at(s, pos, "&apos;".as_bytes()) {
        Some(4)
    } else {
        None
    }
}

/// Appends the paragraphs of one section part to text that holds `done`
/// paragraphs joined by newlines.
pub fn append_section_text(
    out: &mut Vec<u8>,
    any: &mut bool,
    s: &[u8],
    Ghost(done): Ghost<Seq<Seq<u8>>>,
) -> (r: Result<Ghost<Seq<Seq<u8>>>, HwpError>)
    requires
        old(out)@ == join_with(done, NEWLINE),
        *old(any) == (done.len() > 0),
    ensures
        r is Err <==> section_paragraphs(s@) is None,
        r is Err ==> r->Err_0 is Hwpx,
        r matches Ok(all) ==> {
            &&& all@ == done + section_paragraphs(s@)->Some_0
            &&& final(out)@ == join_with(all@, NEWLINE)
            &&& *final(any) == (all@.len() > 0)
        },
{
    let len = s.len();
    let mut pos: usize = 0;
    let mut st: u8 = OUTSIDE;
    let mut cur: Vec<u8> = Vec::new();
    let ghost mut local: Seq<Seq<u8>> = Seq::empty();
    let ghost mut acc: Seq<Seq<u8>> = done;
    while pos < len
        invariant
            len == s@.len(),
            pos <= len,
            acc == done + local,
            out@ == join_with(acc, NEWLINE),
            *any == (acc.len() > 0),
            section_paragraphs(s@) == scan(s@, pos as int, st, cur@, local),
            st <= IN_START_TAG,
        decreases len - pos,
    {
        if st == IN_TEXT {
            if bytes_at(s, pos, "</hp:t>".as_bytes()) {
                st = OUTSIDE;
                pos = pos + "</hp:t>".len();
            } else if bytes_at(s, pos, "<hp:tab/>".as_bytes()) {
                cur.push(TAB);
                pos = pos + "<hp:tab/>".len();
            } else if s[pos] == LT {
                st = IN_MARKUP;
                pos = pos + 1;
            } else {
                match entity_index(s, pos) {
                    Some(e) => {
                        let (tok, b): (&str, u8) = if e == 0 {
                            ("&amp;", 0x26)
                        } else if e == 1 {
                            ("&lt;", 0x3c)
                        } else if e == 2 {
                            ("&gt;", 0x3e)
                        } else if e == 3 {
                            ("&quot;", 0x22)
                        } else {
                            ("&apos;", 0x27)
                        };
                        cur.push(b);
                        pos = pos + tok.len();
                    },
                    None => {
                        cur.push(s[pos]);
                        pos = pos + 1;
                    },
                }
            }
        } else if st == IN_MARKUP {
            if s[pos] == GT {
                st = IN_TEXT;
            }
            pos = pos + 1;
        } else if st == IN_START_TAG {
            if s[pos] == GT {
                if pos > 0 && s[pos - 1] == SOLIDUS {
                    st = OUTSIDE;
                } else {
                    st = IN_TEXT;
                }
            }
            pos = pos + 1;
        } else if bytes_at(s, pos, "<hp:t>".as_bytes()) {
            st = IN_TEXT;
            pos = pos + "<hp:t>".len();
        } else if bytes_at(s, pos, "<hp:t ".as_bytes()) {
            st = IN_START_TAG;
            pos = pos + "<hp:t ".len();
        } else if bytes_at(s, pos, "</hp:p>".as_bytes()) {
            append_piece(out, &cur, NEWLINE, !*any, Ghost(acc));
            *any = true;
            proof {
                assert(done + local.push(cur@) =~= acc.push(cur@));
                acc = acc.push(cur@);
                local = local.push(cur@);
            }
            cur = Vec::new();
            pos = pos + "</hp:p>".len();
        } else {
            pos = pos + 1;
        }
    }
    if st != OUTSIDE {
        return Err(HwpError::Hwpx("section ends inside a text element".to_owned()));
    }
    if cur.len() > 0 {
        append_piece(out, &cur, NEWLINE, !*any, Ghost(acc));
        *any = true;
        proof {
            assert(done + local.push(cur@) =~= acc.push(cur@));
            acc = acc.push(cur@);
            local = local.push(cur@);
        }
    }
    Ok(Ghost(acc))
}

/// The section parts that the manifest names, in manifest order.
pub fn manifest_sections(m: &[u8]) -> (r: Vec<Vec<u8>>)
    ensures
        r@.map_values(|h: Vec<u8>| h@) == section_hrefs(m@),
{
    let len = m.len();
    let mut pos: usize = 0;
    let mut in_value = false;
    let mut cur: Vec<u8> = Vec::new();
    let mut out: Vec<Vec<u8>> = Vec::new();
    assert(out@.map_values(|h: Vec<u8>| h@) =~= Seq::<Seq<u8>>::empty());
    while pos < len
        invariant
            len == m@.len(),
            pos <= len,
            section_hrefs(m@) == scan_hrefs(
                m@,
                pos as int,
                in_value,
                cur@,
                out@.map_values(|h: Vec<u8>| h@),
            ),
        decreases len - pos,
    {
        if in_value {
            if m[pos] == QUOTE {
                let keep = starts_with(cur.as_slice(), "Contents/section".as_bytes());
                if keep {
                    let ghost before = out@;
                    let ghost c = cur@;
                    out.push(cur);
                    assert(out@.map_values(|h: Vec<u8>| h@) =~= before.map_values(
                        |h: Vec<u8>| h@,
                    ).push(c));
                }
                cur = Vec::new();
                in_value = false;
            } else {
                cur.push(m[pos]);
            }
            pos = pos + 1;
        } else if bytes_at(m, pos, "href=\"".as_bytes()) {
            in_value = true;
            cur = Vec::new();
            pos = pos + "href=\"".len();
        } else {
            pos = pos + 1;
        }
    }
    out
}

/// Finds the first entry whose name is `name` in UTF-8.
pub fn find_entry_bytes(entries: &Vec<Stream>, name: &[u8]) -> (r: Option<usize>)
    ensures
        r is None <==> find_bytes_from(streams_view(entries@), name@, 0) is None,
        r matches Some(i) ==> i < entries@.len() && find_bytes_from(
            streams_view(entries@),
            name@,
            0,
        ) == Some(i as int),
{
    let ghost ss = streams_view(entries@);
    let mut i: usize = 0;
    while i < entries.len()
        invariant
            i <= entries@.len(),
            ss == streams_view(entries@),
            find_bytes_from(ss, name@, 0) == find_bytes_from(ss, name@, i as int),
        decreases entries.len() - i,
    {
        assert(ss[i as int] == entries@[i as int]@);
        if bytes_equal(entries[i].name.as_str().as_bytes(), name) {
            return Some(i);
        }
        i += 1;
    }
    None
}

/// Relies on String::from_utf8: the decoded text exactly when the bytes are
/// valid UTF-8.
#[verifier::external_body]
pub(crate) fn string_from_utf8(b: Vec<u8>) -> (r: Option<String>)
    ensures
        r is Some <==> valid_utf8(b@),
        r matches Some(t) ==> t@ == decode_utf8(b@),
{
    String::from_utf8(b).ok()
}

/// Whether a result agrees with a specified outcome.
pub open spec fn bytes_outcome(r: Result<Vec<u8>, HwpError>, s: Result<Seq<u8>, ErrorKind>) -> bool {
    match s {
        Ok(b) => r is Ok && r->Ok_0@ == b,
        Err(k) => r is Err && kind_of(r->Err_0) == k,
    }
}

/// Whether a text result agrees with a specified outcome.
pub open spec fn chars_outcome(r: Result<String, HwpError>, s: Result<Seq<char>, ErrorKind>) -> bool {
    match s {
        Ok(t) => r is Ok && r->Ok_0@ == t,
        Err(k) => r is Err && kind_of(r->Err_0) == k,
    }
}

/// The text of an archive document as UTF-8 bytes, from its entries.
///
/// A package whose "META-INF/manifest.xml" declares encryption data is
/// password protected and fails with `PasswordProtected` before any section
/// is decoded.
/// The manifest "Contents/content.hpf" is required, and so is every section
/// part that it names (`UnsupportedFormat`); the sections are read in
/// manifest order and their paragraphs joined by newlines; an unterminated
/// text element fails with `Hwpx`.
pub fn hwpx_text_bytes(entries: &Vec<Stream>) -> (r: Result<Vec<u8>, HwpError>)
    ensures
        bytes_outcome(r, hwpx_bytes_spec(streams_view(entries@))),
{
    let ghost ss = streams_view(entries@);
    let mi = match find_stream(entries, "Contents/content.hpf") {
        None => {
            return Err(HwpError::UnsupportedFormat);
        },
        Some(mi) => mi,
    };
    assert(ss[mi as int].1 == entries@[mi as int].data@);
    match find_stream(entries, "META-INF/manifest.xml") {
        None => {},
        Some(j) => {
            assert(ss[j as int].1 == entries@[j as int].data@);
            if find_token(entries[j].data.as_slice(), "encryption-data".as_bytes()) {
                return Err(HwpError::PasswordProtected);
            }
        },
    }
    let hrefs = manifest_sections(entries[mi].data.as_slice());
    let ghost hs = hrefs@.map_values(|h: Vec<u8>| h@);
    let mut out: Vec<u8> = Vec::new();
    let mut any = false;
    let ghost mut done: Seq<Seq<u8>> = Seq::empty();
    let mut k: usize = 0;
    assert(hs.subrange(0, 0) =~= Seq::<Seq<u8>>::empty());
    while k < hrefs.len()
        invariant
            k <= hrefs@.len(),
            ss == streams_view(entries@),
            hs == hrefs@.map_values(|h: Vec<u8>| h@),
            hs == section_hrefs(ss[mi as int].1),
            find_stream_spec(ss, manifest_name()) == Some(mi as int),
            !is_protected_package(ss),
            sections_paragraphs(ss, hs.subrange(0, k as int)) == Ok::<Seq<Seq<u8>>, ErrorKind>(
                done,
            ),
            out@ == join_with(done, NEWLINE),
            any == (done.len() > 0),
        decreases hrefs.len() - k,
    {
        let ghost next = hs.subrange(0, k as int + 1);
        assert(next.drop_last() =~= hs.subrange(0, k as int));
        assert(next.last() == hrefs@[k as int]@);
        let j = match find_entry_bytes(entries, hrefs[k].as_slice()) {
            None => {
                proof {
                    lemma_sections_error_persists(ss, hs, k as int + 1);
                }
                return Err(HwpError::UnsupportedFormat);
            },
            Some(j) => j,
        };
        assert(ss[j as int].1 == entries@[j as int].data@);
        match append_section_text(&mut out, &mut any, entries[j].data.as_slice(), Ghost(done)) {
            Err(e) => {
                proof {
                    lemma_sections_error_persists(ss, hs, k as int + 1);
                }
                return Err(e);
            },
            Ok(all) => {
                proof {
                    done = all@;
                }
            },
        }
        k += 1;
    }
    assert(hs.subrange(0, k as int) =~= hs);
    Ok(out)
}

proof fn lemma_sections_error_persists(ss: Seq<StreamModel>, hs: Seq<Seq<u8>>, n: int)
    requires
        0 <= n <= hs.len(),
        sections_paragraphs(ss, hs.subrange(0, n)) is Err,
    ensures
        sections_paragraphs(ss, hs) == sections_paragraphs(ss, hs.subrange(0, n)),
    decreases hs.len() - n,
{
    if n < hs.len() {
        let next = hs.subrange(0, n + 1);
        assert(next.drop_last() =~= hs.subrange(0, n));
        lemma_sections_error_persists(ss, hs, n + 1);
    } else {
        assert(hs.subrange(0, n) =~= hs);
    }
}

/// Extracts the text of an archive document from its entries in archive order.
pub fn extract_hwpx_text(entries: &Vec<Stream>) -> (r: Result<String, HwpError>)
    ensures
        chars_outcome(r, hwpx_text_spec(streams_view(entries@))),
{
    match hwpx_text_bytes(entries) {
        Err(e) => Err(e),
        Ok(b) => match string_from_utf8(b) {
            Some(t) => Ok(t),
            None => Err(HwpError::Hwpx("section text is not valid UTF-8".to_owned())),
        },
    }
}

/// A protected archive fails with `PasswordProtected` whatever its sections
/// hold: no section is decoded.
pub proof fn protected_package_reads_no_section(ss: Seq<StreamModel>)
    requires
        find_stream_spec(ss, manifest_name()) is Some,
        is_protected_package(ss),
    ensures
        hwpx_text_spec(ss) == Err::<Seq<char>, ErrorKind>(ErrorKind::PasswordProtected),
{
}

} // verus!
