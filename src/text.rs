use vstd::prelude::*;

use crate::record::{Record, RecordModel, records_view};

verus! {

/// The tag of a record that holds the characters of one paragraph.
pub const TAG_PARA_TEXT: u16 = 67;

/// The unit that separates paragraphs in extracted text (line feed).
pub const LINE_FEED: u16 = 10;

/// The payload read as little-endian 16-bit code units; an odd last byte is ignored.
pub open spec fn units_of(b: Seq<u8>) -> Seq<u16> {
    Seq::new(b.len() / 2, |i: int| (b[2 * i] as int + 256 * b[2 * i + 1] as int) as u16)
}

/// Control codes that stand alone, one unit wide.
pub open spec fn is_char_control(c: u16) -> bool {
    c == 0 || c == 10 || c == 13 || (24 <= c && c <= 31)
}

/// How many units the character or control starting with `c` occupies.
/// Inline and extended controls carry seven units of parameters.
pub open spec fn unit_width(c: u16) -> int {
    if c >= 32 || is_char_control(c) {
        1
    } else {
        8
    }
}

/// What a character or control contributes to the text: ordinary characters
/// themselves, tab and line break as such, the two fixed spaces as a space;
/// other controls (paragraph end, objects, fields) contribute nothing, their
/// own text coming from the records nested under them.
pub open spec fn emitted(c: u16) -> Seq<u16> {
    if c >= 32 || c == 9 || c == 10 {
        seq![c]
    } else if c == 30 || c == 31 {
        seq![32u16]
    } else {
        Seq::empty()
    }
}

pub open spec fn min_int(a: int, b: int) -> int {
    if a <= b {
        a
    } else {
        b
    }
}

/// The text of one paragraph's code units.
pub open spec fn para_text(u: Seq<u16>) -> Seq<u16>
    decreases u.len(),
{
    if u.len() == 0 {
        Seq::empty()
    } else {
        let w = min_int(unit_width(u[0]), u.len() as int);
        emitted(u[0]) + para_text(u.subrange(w, u.len() as int))
    }
}

/// The paragraphs of a record sequence, in record order.
pub open spec fn record_paragraphs(rs: Seq<RecordModel>) -> Seq<Seq<u16>>
    decreases rs.len(),
{
    if rs.len() == 0 {
        Seq::empty()
    } else {
        let last = rs.last();
        let more = if last.0 == TAG_PARA_TEXT {
            seq![para_text(units_of(last.2))]
        } else {
            Seq::empty()
        };
        record_paragraphs(rs.drop_last()) + more
    }
}

/// Pieces joined by a separator.
pub open spec fn join_with<T>(ps: Seq<Seq<T>>, sep: T) -> Seq<T>
    decreases ps.len(),
{
    if ps.len() == 0 {
        Seq::empty()
    } else if ps.len() == 1 {
        ps[0]
    } else {
        join_with(ps.drop_last(), sep) + seq![sep] + ps.last()
    }
}

/// Paragraphs joined by line feeds.
pub open spec fn join_lines(ps: Seq<Seq<u16>>) -> Seq<u16> {
    join_with(ps, LINE_FEED)
}

/// Reads a payload as little-endian code units.
pub fn decode_units(b: &[u8]) -> (r: Vec<u16>)
    ensures
        r@ == units_of(b@),
{
    let n = b.len() / 2;
    let mut out: Vec<u16> = Vec::new();
    let mut i: usize = 0;
    let mut j: usize = 0;
    while i < n
        invariant
            n == b@.len() / 2,
            i <= n,
            j == 2 * i,
            out@ == units_of(b@).subrange(0, i as int),
        decreases n - i,
    {
        let lo: u8 = b[j];
        let hi: u8 = b[j + 1];
        let w: u32 = lo as u32 + 256 * (hi as u32);
        let u: u16 = w as u16;
        out.push(u);
        i += 1;
        j += 2;
        assert(out@ =~= units_of(b@).subrange(0, i as int));
    }
    assert(out@ =~= units_of(b@));
    out
}

/// Reconstructs one paragraph from its code units, honouring control codes.
pub fn paragraph_text(u: &[u16]) -> (r: Vec<u16>)
    ensures
        r@ == para_text(u@),
{
    let len = u.len();
    let mut out: Vec<u16> = Vec::new();
    let mut i: usize = 0;
    assert(u@.subrange(0, len as int) =~= u@);
    while i < len
        invariant
            len == u@.len(),
            i <= len,
            out@ + para_text(u@.subrange(i as int, len as int)) == para_text(u@),
        decreases len - i,
    {
        let c = u[i];
        let width: usize = if c >= 32 || c == 0 || c == 10 || c == 13 || (24 <= c && c <= 31) {
            1
        } else {
            8
        };
        let step: usize = if width <= len - i {
            width
        } else {
            len - i
        };
        let ghost suffix = u@.subrange(i as int, len as int);
        let ghost before = out@;
        assert(suffix.subrange(step as int, suffix.len() as int) =~= u@.subrange(
            (i + step) as int,
            len as int,
        ));
        assert(para_text(suffix) == emitted(c) + para_text(
            suffix.subrange(step as int, suffix.len() as int),
        ));
        if c >= 32 || c == 9 || c == 10 {
            out.push(c);
        } else if c == 30 || c == 31 {
            out.push(32);
        }
        assert(out@ =~= before + emitted(c));
        assert(before + emitted(c) + para_text(u@.subrange((i + step) as int, len as int))
            =~= before + (emitted(c) + para_text(u@.subrange((i + step) as int, len as int))));
        i = i + step;
    }
    assert(out@ + para_text(u@.subrange(len as int, len as int)) =~= out@);
    out
}

/// Appends the piece `p` to pieces `done` already joined by `sep`.
pub fn append_piece<T: Copy>(
    out: &mut Vec<T>,
    p: &Vec<T>,
    sep: T,
    first: bool,
    Ghost(done): Ghost<Seq<Seq<T>>>,
)
    requires
        old(out)@ == join_with(done, sep),
        first == (done.len() == 0),
    ensures
        final(out)@ == join_with(done.push(p@), sep),
{
    let ghost ps = done.push(p@);
    assert(ps.drop_last() =~= done);
    if !first {
        out.push(sep);
    } else {
        assert(old(out)@ =~= Seq::<T>::empty());
    }
    let mut j: usize = 0;
    let ghost base = out@;
    while j < p.len()
        invariant
            j <= p@.len(),
            out@ == base + p@.subrange(0, j as int),
        decreases p.len() - j,
    {
        out.push(p[j]);
        j += 1;
        assert(out@ =~= base + p@.subrange(0, j as int));
    }
    assert(p@.subrange(0, p@.len() as int) =~= p@);
    if first {
        assert(out@ =~= p@);
    }
}

/// Appends the paragraphs of `records` to text that holds `done` paragraphs,
/// and returns the paragraphs now held.
pub fn append_record_text(
    out: &mut Vec<u16>,
    any: &mut bool,
    records: &Vec<Record>,
    Ghost(done): Ghost<Seq<Seq<u16>>>,
) -> (all: Ghost<Seq<Seq<u16>>>)
    requires
        old(out)@ == join_lines(done),
        *old(any) == (done.len() > 0),
    ensures
        all@ == done + record_paragraphs(records_view(records@)),
        final(out)@ == join_lines(all@),
        *final(any) == (all@.len() > 0),
{
    let ghost rv = records_view(records@);
    let ghost mut acc: Seq<Seq<u16>> = done;
    let mut k: usize = 0;
    assert(rv.subrange(0, 0) =~= Seq::<RecordModel>::empty());
    assert(done + record_paragraphs(rv.subrange(0, 0)) =~= done);
    while k < records.len()
        invariant
            k <= records@.len(),
            rv == records_view(records@),
            acc == done + record_paragraphs(rv.subrange(0, k as int)),
            out@ == join_lines(acc),
            *any == (acc.len() > 0),
        decreases records.len() - k,
    {
        let ghost pre = rv.subrange(0, k as int);
        let ghost next = rv.subrange(0, k as int + 1);
        assert(next.drop_last() =~= pre);
        assert(next.last() == records@[k as int]@);
        if records[k].tag == TAG_PARA_TEXT {
            let units = decode_units(records[k].payload.as_slice());
            let p = paragraph_text(units.as_slice());
            append_piece(out, &p, LINE_FEED, !*any, Ghost(acc));
            *any = true;
            proof {
                assert(done + record_paragraphs(next) =~= acc.push(p@));
                acc = acc.push(p@);
            }
        } else {
            assert(done + record_paragraphs(next) =~= acc);
        }
        k += 1;
    }
    assert(rv.subrange(0, k as int) =~= rv);
    Ghost(acc)
}

} // verus!
