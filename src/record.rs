use vstd::prelude::*;

use crate::bytes::{copy_range, le_u32, read_u32_le};
use crate::error::HwpError;

verus! {

/// One tagged, length-prefixed unit of a body stream.
///
/// Tags that the library does not interpret are kept with their raw payload.
#[derive(Clone, Debug)]
pub struct Record {
    pub tag: u16,
    pub level: u16,
    pub payload: Vec<u8>,
}

/// A record as a mathematical value: tag, level and payload.
pub type RecordModel = (u16, u16, Seq<u8>);

impl View for Record {
    type V = RecordModel;

    open spec fn view(&self) -> RecordModel {
        (self.tag, self.level, self.payload@)
    }
}

pub open spec fn records_view(rs: Seq<Record>) -> Seq<RecordModel> {
    rs.map_values(|r: Record| r@)
}

/// The size field value that announces a separate 32-bit size.
pub const EXTENDED_SIZE: u32 = 0xfff;

pub open spec fn tag_of(word: int) -> int {
    word % 1024
}

pub open spec fn level_of(word: int) -> int {
    (word / 1024) % 1024
}

pub open spec fn short_size_of(word: int) -> int {
    word / 1048576
}

/// Where the payload of the record at `pos` starts, if its header is complete.
pub open spec fn payload_start(s: Seq<u8>, pos: int) -> Option<int> {
    if pos + 4 > s.len() {
        None
    } else if short_size_of(le_u32(s, pos)) == EXTENDED_SIZE {
        if pos + 8 > s.len() {
            None
        } else {
            Some(pos + 8)
        }
    } else {
        Some(pos + 4)
    }
}

/// The payload size that the record header at `pos` declares.
pub open spec fn declared_size(s: Seq<u8>, pos: int) -> int {
    if short_size_of(le_u32(s, pos)) == EXTENDED_SIZE {
        le_u32(s, pos + 4)
    } else {
        short_size_of(le_u32(s, pos))
    }
}

/// The records that start at `pos` and run to the end of `s`, or `None` where
/// a header is truncated or a record declares more bytes than remain.
pub open spec fn parse_from(s: Seq<u8>, pos: int) -> Option<Seq<RecordModel>>
    decreases s.len() - pos,
{
    if pos < 0 {
        None
    } else if pos >= s.len() {
        Some(Seq::empty())
    } else {
        match payload_start(s, pos) {
            None => None,
            Some(start) => {
                let end = start + declared_size(s, pos);
                if end > s.len() {
                    None
                } else {
                    let word = le_u32(s, pos);
                    let rec = (
                        tag_of(word) as u16,
                        level_of(word) as u16,
                        s.subrange(start, end),
                    );
                    match parse_from(s, end) {
                        None => None,
                        Some(rest) => Some(seq![rec] + rest),
                    }
                }
            },
        }
    }
}

/// The records of a whole stream.
pub open spec fn parse_spec(s: Seq<u8>) -> Option<Seq<RecordModel>> {
    parse_from(s, 0)
}

pub open spec fn prepend(pre: Seq<RecordModel>, o: Option<Seq<RecordModel>>) -> Option<
    Seq<RecordModel>,
> {
    match o {
        None => None,
        Some(rest) => Some(pre + rest),
    }
}

/// Splits a stream into its records, in stream order, in one pass.
///
/// Fails with `InvalidRecordHeader`, and only with it, where a header is
/// truncated or a declared size runs past the end of the buffer.
pub fn parse_records(data: &[u8]) -> (r: Result<Vec<Record>, HwpError>)
    ensures
        r is Ok <==> parse_spec(data@) is Some,
        r is Ok ==> records_view(r->Ok_0@) == parse_spec(data@)->Some_0,
        r is Err ==> r matches Err(HwpError::InvalidRecordHeader),
{
    let mut out: Vec<Record> = Vec::new();
    let mut pos: usize = 0;
    let len = data.len();
    assert(records_view(out@) =~= Seq::<RecordModel>::empty());
    assert(prepend(records_view(out@), parse_from(data@, 0)) =~= parse_from(data@, 0));
    while pos < len
        invariant
            len == data@.len(),
            pos <= len,
            parse_spec(data@) == prepend(records_view(out@), parse_from(data@, pos as int)),
        decreases len - pos,
    {
        if len - pos < 4 {
            return Err(HwpError::InvalidRecordHeader);
        }
        let word = read_u32_le(data, pos);
        let tag = (word % 1024) as u16;
        let level = ((word / 1024) % 1024) as u16;
        let short = word / 1048576;
        let start: usize;
        let size: u32;
        if short == EXTENDED_SIZE {
            if len - pos < 8 {
                return Err(HwpError::InvalidRecordHeader);
            }
            size = read_u32_le(data, pos + 4);
            start = pos + 8;
        } else {
            size = short;
            start = pos + 4;
        }
        if size as usize > len - start {
            return Err(HwpError::InvalidRecordHeader);
        }
        let end = start + size as usize;
        let payload = copy_range(data, start, end);
        let rec = Record { tag, level, payload };
        proof {
            let pre = records_view(out@);
            let tail = parse_from(data@, end as int);
            assert(rec@ == (
                tag_of(le_u32(data@, pos as int)) as u16,
                level_of(le_u32(data@, pos as int)) as u16,
                data@.subrange(start as int, end as int),
            ));
            if let Some(rest) = tail {
                assert(pre + (seq![rec@] + rest) =~= pre.push(rec@) + rest);
            }
        }
        let ghost before = out@;
        out.push(rec);
        assert(records_view(out@) =~= records_view(before).push(rec@));
        pos = end;
    }
    assert(records_view(out@) + Seq::<RecordModel>::empty() =~= records_view(out@));
    Ok(out)
}


/// The records that a result of `parse_records` holds, or `None` for an error.
pub open spec fn parse_outcome(r: Result<Vec<Record>, HwpError>) -> Option<Seq<RecordModel>> {
    match r {
        Ok(v) => Some(records_view(v@)),
        Err(_) => None,
    }
}

/// Parsing is deterministic: two runs of `parse_records` on the same bytes
/// give the same records, or both fail with `InvalidRecordHeader`.
pub proof fn parse_records_deterministic(
    data: Seq<u8>,
    r1: Result<Vec<Record>, HwpError>,
    r2: Result<Vec<Record>, HwpError>,
)
    requires
        r1 is Ok <==> parse_spec(data) is Some,
        r1 is Ok ==> records_view(r1->Ok_0@) == parse_spec(data)->Some_0,
        r1 is Err ==> r1 matches Err(HwpError::InvalidRecordHeader),
        r2 is Ok <==> parse_spec(data) is Some,
        r2 is Ok ==> records_view(r2->Ok_0@) == parse_spec(data)->Some_0,
        r2 is Err ==> r2 matches Err(HwpError::InvalidRecordHeader),
    ensures
        parse_outcome(r1) == parse_outcome(r2),
        r1 is Err <==> r2 is Err,
{
}

/// A record whose declared size runs past the end of the buffer makes the
/// whole stream fail, wherever it stands after well-formed records.
pub proof fn oversized_record_fails(s: Seq<u8>, pre: Seq<RecordModel>, pos: int, start: int)
    requires
        0 <= pos < s.len(),
        parse_spec(s) == prepend(pre, parse_from(s, pos)),
        payload_start(s, pos) == Some(start),
        start + declared_size(s, pos) > s.len(),
    ensures
        parse_spec(s) is None,
{
}

} // verus!
