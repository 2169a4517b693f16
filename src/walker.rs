use vstd::prelude::*;

use crate::entry::{decode_entry, parse_entry, CacheEntry, CACHE_ENTRY_SIZE};
use crate::error::DecodeError;
use crate::file_identification::{classify, determine_file_type, FileType};
use crate::header::{parse_header_layout, read_header};

verus! {

/// One entry that carries a payload, with where its payload lies in the
/// buffer and how the payload was classified.
#[derive(Debug, PartialEq, Eq, Structural, Clone, Copy)]
pub struct DecodedRecord {
    /// Where the entry starts.
    pub offset: usize,
    pub entry: CacheEntry,
    /// The payload is the buffer's bytes from `data_start` up to `data_end`.
    pub data_start: usize,
    pub data_end: usize,
    /// The payload's encoding, or `None` when no signature matches.
    pub classification: Option<FileType>,
}

impl DecodedRecord {
    /// The payload bytes of this record in `buf`, or `None` when its payload
    /// range does not lie inside `buf`.
    pub fn payload<'a>(&self, buf: &'a [u8]) -> (r: Option<&'a [u8]>)
        ensures
            r is Some <==> self.data_start <= self.data_end <= buf@.len(),
            r matches Some(p) ==> p@ == buf@.subrange(self.data_start as int, self.data_end as int),
    {
        if self.data_start <= self.data_end && self.data_end <= buf.len() {
            Some(&buf[self.data_start..self.data_end])
        } else {
            None
        }
    }
}

/// What decoding the entry at one offset leads to.
#[derive(Debug, PartialEq, Eq, Structural, Clone, Copy)]
pub enum Step {
    /// An entry with a payload, and the offset of the entry after it.
    Emit { record: DecodedRecord, next_offset: usize },
    /// The chain ends here: past the buffer, or at an entry without payload.
    Done,
    /// The entry here is malformed or leaves the buffer.
    Failed(DecodeError),
}

/// How a walk ended.
#[derive(Debug, PartialEq, Eq, Structural, Clone, Copy)]
pub enum WalkEnd {
    Done,
    /// Decoding stopped with `error` at the record that starts at `offset`.
    Failed { error: DecodeError, offset: usize },
}

/// The records found by a walk, in buffer order, and how the walk ended.
pub struct WalkOutcome {
    pub records: Vec<DecodedRecord>,
    pub end: WalkEnd,
}

/// The step taken at offset `off` of `s`.
pub open spec fn step_at(s: Seq<u8>, off: int) -> Step {
    if off >= s.len() {
        Step::Done
    } else {
        match parse_entry(s, off) {
            Err(e) => Step::Failed(e),
            Ok(e) => {
                let name_end = off + CACHE_ENTRY_SIZE + e.filename_length;
                let data_start = name_end + e.padding_size;
                let data_end = data_start + e.data_size;
                let next = off + e.entry_size;
                if name_end > s.len() || data_end > s.len() {
                    Step::Failed(DecodeError::OffsetOutOfRange)
                } else if e.data_size == 0 {
                    Step::Done
                } else if next > usize::MAX {
                    Step::Failed(DecodeError::OffsetOutOfRange)
                } else {
                    Step::Emit {
                        record: DecodedRecord {
                            offset: #[verifier::truncate] (off as usize),
                            entry: e,
                            data_start: #[verifier::truncate] (data_start as usize),
                            data_end: #[verifier::truncate] (data_end as usize),
                            classification: classify(s.subrange(data_start, data_end)),
                        },
                        next_offset: next as usize,
                    }
                }
            },
        }
    }
}

/// The records of the chain that starts at `off`, and how it ends.
pub open spec fn walk_from(s: Seq<u8>, off: int) -> (Seq<DecodedRecord>, WalkEnd)
    decreases s.len() - off,
{
    if off < 0 || off >= s.len() {
        (Seq::empty(), WalkEnd::Done)
    } else {
        match step_at(s, off) {
            Step::Done => (Seq::empty(), WalkEnd::Done),
            Step::Failed(e) => (Seq::empty(), WalkEnd::Failed { error: e, offset: #[verifier::truncate] (off as usize) }),
            Step::Emit { record, next_offset } => {
                if next_offset >= s.len() {
                    (seq![record], WalkEnd::Done)
                } else {
                    let rest = walk_from(s, next_offset as int);
                    (seq![record] + rest.0, rest.1)
                }
            },
        }
    }
}

/// The records of the whole database `s`, starting at the header's first
/// entry offset, and how the walk ended.
pub open spec fn walk_spec(s: Seq<u8>) -> (Seq<DecodedRecord>, WalkEnd) {
    match parse_header_layout(s) {
        Err(e) => (Seq::empty(), WalkEnd::Failed { error: e, offset: 0 }),
        Ok(h) => walk_from(s, h.first_entry_offset as int),
    }
}

/// Decodes the entry at `offset`, checks that its filename, padding and
/// payload lie inside the buffer, and classifies its payload. All offset
/// arithmetic is checked: a region whose end would overflow is reported as
/// `OffsetOutOfRange`.
pub fn next_step(buf: &[u8], offset: usize) -> (r: Step)
    ensures
        r == step_at(buf@, offset as int),
{
    if offset >= buf.len() {
        return Step::Done;
    }
    let e = match decode_entry(buf, offset) {
        Ok(e) => e,
        Err(err) => {
            return Step::Failed(err);
        },
    };
    let name_end = match offset.checked_add(CACHE_ENTRY_SIZE) {
        Some(x) => x.checked_add(e.filename_length as usize),
        None => None,
    };
    let name_end = match name_end {
        Some(x) if x <= buf.len() => x,
        _ => {
            return Step::Failed(DecodeError::OffsetOutOfRange);
        },
    };
    let data_end = match name_end.checked_add(e.padding_size as usize) {
        Some(x) => match x.checked_add(e.data_size as usize) {
            Some(y) => Some((x, y)),
            None => None,
        },
        None => None,
    };
    let (data_start, data_end) = match data_end {
        Some((x, y)) if y <= buf.len() => (x, y),
        _ => {
            return Step::Failed(DecodeError::OffsetOutOfRange);
        },
    };
    if e.data_size == 0 {
        return Step::Done;
    }
    let next_offset = match offset.checked_add(e.entry_size as usize) {
        Some(x) => x,
        None => {
            return Step::Failed(DecodeError::OffsetOutOfRange);
        },
    };
    let payload = &buf[data_start..data_end];
    let classification = match determine_file_type(payload) {
        Some(id) => Some(id.file_type),
        None => None,
    };
    Step::Emit {
        record: DecodedRecord { offset, entry: e, data_start, data_end, classification },
        next_offset,
    }
}

/// Walks the chain of entries that starts at `start`, collecting each entry
/// that carries a payload, until the chain ends or an entry fails to decode.
pub fn walk_entries(buf: &[u8], start: usize) -> (r: WalkOutcome)
    ensures
        (r.records@, r.end) == walk_from(buf@, start as int),
{
    let mut records: Vec<DecodedRecord> = Vec::new();
    let mut offset: usize = start;
    loop
        invariant
            walk_from(buf@, start as int) == (
                records@ + walk_from(buf@, offset as int).0,
                walk_from(buf@, offset as int).1,
            ),
        decreases buf@.len() - offset,
    {
        if offset >= buf.len() {
            assert(records@ + Seq::<DecodedRecord>::empty() =~= records@);
            return WalkOutcome { records, end: WalkEnd::Done };
        }
        match next_step(buf, offset) {
            Step::Done => {
                assert(records@ + Seq::<DecodedRecord>::empty() =~= records@);
                return WalkOutcome { records, end: WalkEnd::Done };
            },
            Step::Failed(error) => {
                assert(records@ + Seq::<DecodedRecord>::empty() =~= records@);
                return WalkOutcome { records, end: WalkEnd::Failed { error, offset } };
            },
            Step::Emit { record, next_offset } => {
                let ghost before = records@;
                records.push(record);
                if next_offset >= buf.len() {
                    assert(before + seq![record] =~= records@);
                    return WalkOutcome { records, end: WalkEnd::Done };
                }
                assert(before + (seq![record] + walk_from(buf@, next_offset as int).0) =~= records@
                    + walk_from(buf@, next_offset as int).0);
                offset = next_offset;
            },
        }
    }
}

/// Decodes a whole database: reads the header, then walks the chain of
/// entries from the header's first entry offset. A header that cannot be
/// decoded ends the walk at offset 0. An unknown cache type does not stop it.
pub fn walk(buf: &[u8]) -> (r: WalkOutcome)
    ensures
        (r.records@, r.end) == walk_spec(buf@),
{
    match read_header(buf) {
        Err(error) => WalkOutcome { records: Vec::new(), end: WalkEnd::Failed { error, offset: 0 } },
        Ok(h) => walk_entries(buf, h.first_entry_offset as usize),
    }
}

/// The regions of `r` lie in order inside a buffer of length `len`: the fixed
/// part, the filename and the padding end where the payload starts, and the
/// payload ends at or before the end of the buffer.
pub open spec fn record_in_bounds(r: DecodedRecord, len: int) -> bool {
    &&& r.offset + CACHE_ENTRY_SIZE + r.entry.filename_length + r.entry.padding_size
        == r.data_start
    &&& r.data_start + r.entry.data_size == r.data_end
    &&& r.data_end <= len
}

/// What a step that yields a record says of it.
proof fn lemma_step_emit(s: Seq<u8>, off: int)
    requires
        0 <= off,
        s.len() <= usize::MAX,
        step_at(s, off) is Emit,
    ensures
        ({
            let r = step_at(s, off)->record;
            &&& r.offset == off < s.len()
            &&& step_at(s, off)->next_offset == off + r.entry.entry_size > off
            &&& record_in_bounds(r, s.len() as int)
            &&& r.entry.data_size > 0
            &&& r.classification == classify(s.subrange(r.data_start as int, r.data_end as int))
        }),
{
}

/// Where the records of a chain start, and where it fails.
proof fn lemma_walk_from_offsets(s: Seq<u8>, off: int)
    requires
        0 <= off,
        s.len() <= usize::MAX,
    ensures
        ({
            let rs = walk_from(s, off).0;
            &&& rs.len() == 0 || rs.len() <= s.len() - off
            &&& forall|i: int| 0 <= i < rs.len() ==> off <= (#[trigger] rs[i]).offset < s.len()
            &&& forall|i: int, j: int|
                0 <= i < j < rs.len() ==> (#[trigger] rs[i]).offset < (#[trigger] rs[j]).offset
            &&& walk_from(s, off).1 matches WalkEnd::Failed { offset: fo, .. } ==> off <= fo
                < s.len() && forall|i: int| 0 <= i < rs.len() ==> (#[trigger] rs[i]).offset < fo
        }),
    decreases s.len() - off,
{
    if off < s.len() {
        if let Step::Emit { record, next_offset } = step_at(s, off) {
            lemma_step_emit(s, off);
            if next_offset < s.len() {
                lemma_walk_from_offsets(s, next_offset as int);
                let rest = walk_from(s, next_offset as int).0;
                let rs = walk_from(s, off).0;
                assert(rs == seq![record] + rest);
                assert forall|i: int| 0 < i < rs.len() implies rs[i] == rest[i - 1] by {}
            }
        }
    }
}

/// What every record of a chain satisfies on its own.
proof fn lemma_walk_from_records(s: Seq<u8>, off: int)
    requires
        0 <= off,
        s.len() <= usize::MAX,
    ensures
        forall|i: int|
            0 <= i < walk_from(s, off).0.len() ==> {
                let r = #[trigger] walk_from(s, off).0[i];
                &&& record_in_bounds(r, s.len() as int)
                &&& r.entry.data_size > 0
                &&& r.classification == classify(
                    s.subrange(r.data_start as int, r.data_end as int),
                )
            },
    decreases s.len() - off,
{
    if off < s.len() {
        if let Step::Emit { record, next_offset } = step_at(s, off) {
            lemma_step_emit(s, off);
            if next_offset < s.len() {
                lemma_walk_from_records(s, next_offset as int);
                let rest = walk_from(s, next_offset as int).0;
                let rs = walk_from(s, off).0;
                assert(rs == seq![record] + rest);
                assert forall|i: int| 0 < i < rs.len() implies rs[i] == rest[i - 1] by {}
            }
        }
    }
}

/// Bounds safety: every record of a walk over `s` has its filename, padding
/// and payload regions inside `s`, laid out one after the other from the
/// entry's fixed part.
pub proof fn lemma_walk_in_bounds(s: Seq<u8>)
    requires
        s.len() <= usize::MAX,
    ensures
        forall|i: int|
            0 <= i < walk_spec(s).0.len() ==> record_in_bounds(
                #[trigger] walk_spec(s).0[i],
                s.len() as int,
            ),
{
    if let Ok(h) = parse_header_layout(s) {
        lemma_walk_from_records(s, h.first_entry_offset as int);
    }
}

/// Forward progress: a walk over `s` visits strictly increasing offsets, all
/// inside `s`, so it yields at most one record per byte; where it fails, it
/// fails past every record it yielded.
pub proof fn lemma_walk_progress(s: Seq<u8>)
    requires
        s.len() <= usize::MAX,
    ensures
        walk_spec(s).0.len() <= s.len(),
        forall|i: int, j: int|
            0 <= i < j < walk_spec(s).0.len() ==> walk_spec(s).0[i].offset < walk_spec(
                s,
            ).0[j].offset,
        forall|i: int| 0 <= i < walk_spec(s).0.len() ==> walk_spec(s).0[i].offset < s.len(),
        walk_spec(s).1 matches WalkEnd::Failed { offset: fo, .. } ==> forall|i: int|
            0 <= i < walk_spec(s).0.len() ==> walk_spec(s).0[i].offset < fo,
{
    if let Ok(h) = parse_header_layout(s) {
        lemma_walk_from_offsets(s, h.first_entry_offset as int);
    }
}

/// Sentinel termination: an entry without payload whose regions fit in the
/// buffer ends the walk there, as `Done`, and is not yielded; no record of
/// any walk has an empty payload.
pub proof fn lemma_sentinel_ends_walk(s: Seq<u8>, off: int)
    requires
        0 <= off < s.len(),
        s.len() <= usize::MAX,
        parse_entry(s, off) is Ok,
        parse_entry(s, off)->Ok_0.data_size == 0,
        off + CACHE_ENTRY_SIZE + parse_entry(s, off)->Ok_0.filename_length
            + parse_entry(s, off)->Ok_0.padding_size <= s.len(),
    ensures
        walk_from(s, off) == (Seq::<DecodedRecord>::empty(), WalkEnd::Done),
        forall|i: int| 0 <= i < walk_spec(s).0.len() ==> (#[trigger] walk_spec(s).0[i]).entry.data_size > 0,
{
    if let Ok(h) = parse_header_layout(s) {
        lemma_walk_from_records(s, h.first_entry_offset as int);
    }
}

} // verus!
