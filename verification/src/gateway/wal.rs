//! A journal of one writer: lines of JSON, with a durable cursor of what was
//! acknowledged that only ever moves to the next record. Nothing is compacted;
//! keeping the file keeps the evidence.
use crate::crypto::{fingerprint, fingerprint_text};
use crate::text::same;
use vstd::prelude::*;

verus! {

pub const MAX_RECORD: u64 = 1_048_576;

/// The record that was acknowledged last. Without one all fields are empty.
#[derive(Clone, Debug)]
pub struct Checkpoint {
    pub version: u32,
    pub start: u64,
    pub end: u64,
    pub sha256: String,
}

impl Default for Checkpoint {
    fn default() -> (r: Self)
        ensures
            r.version == 0,
            r.start == 0,
            r.end == 0,
            r.sha256@.len() == 0,
    {
        Checkpoint { version: 0, start: 0, end: 0, sha256: String::new() }
    }
}

/// A record with its newline, and where it stands in the file.
pub struct Record {
    pub bytes: Vec<u8>,
    pub start: u64,
    pub end: u64,
}

/// The cursor of a journal: how much of the file was acknowledged, and how long
/// it is.
#[derive(Clone, Copy, Debug, PartialEq, Eq, Structural)]
pub struct Journal {
    pub offset: u64,
    pub end: u64,
    pub failed: bool,
}

pub open spec fn ends_in_newline(bytes: Seq<u8>) -> bool {
    bytes.len() > 0 && bytes.last() == 10
}

fn is_terminated(bytes: &[u8]) -> (r: bool)
    ensures
        r == ends_in_newline(bytes@),
{
    bytes.len() > 0 && bytes[bytes.len() - 1] == 10
}

/// The checkpoint lies within a file of this length.
pub open spec fn within(c: Checkpoint, end: u64) -> bool {
    &&& c.version == 1
    &&& c.start < c.end
    &&& c.end <= end
    &&& c.end - c.start <= MAX_RECORD
}

/// What is wrong with a journal: with its last byte, with its checkpoint, or
/// with the bytes that the checkpoint says were acknowledged.
pub open spec fn open_fault(
    end: u64,
    last: Option<u8>,
    c: Checkpoint,
    acknowledged: Seq<u8>,
) -> Option<Seq<char>> {
    if end > 0 && last != Some(10u8) {
        Some(
            "WAL has an incomplete tail; preserve and repair it before restarting (no records were discarded)"@,
        )
    } else if c.end != 0 && !within(c, end) {
        Some("WAL checkpoint is outside the journal"@)
    } else if c.end != 0 && !(ends_in_newline(acknowledged) && fingerprint_text(acknowledged)
        == c.sha256@) {
        Some("WAL checkpoint does not match the acknowledged record"@)
    } else if c.end == 0 && (c.version != 0 || c.start != 0 || c.sha256@.len() != 0) {
        Some("invalid empty WAL checkpoint"@)
    } else {
        None
    }
}

/// Why a record is not appended.
pub open spec fn append_fault(journal: Journal, bytes: Seq<u8>) -> Option<Seq<char>> {
    if journal.failed {
        Some("WAL writer failed; restart after storage repair"@)
    } else if bytes.len() >= MAX_RECORD || bytes.contains(10u8) {
        Some("WAL record exceeds the limit or contains a raw newline"@)
    } else {
        None
    }
}

impl Journal {
    /// Opens a journal: a file of `end` bytes with its last byte, what is kept
    /// of the last acknowledgement, and the bytes of the file from its start to
    /// its end.
    pub fn open(end: u64, last: Option<u8>, checkpoint: &Checkpoint, acknowledged: &[u8]) -> (r:
        Result<Self, &'static str>)
        ensures
            match r {
                Ok(journal) => {
                    &&& open_fault(end, last, *checkpoint, acknowledged@) is None
                    &&& journal == (Journal { offset: checkpoint.end, end, failed: false })
                },
                Err(message) => open_fault(end, last, *checkpoint, acknowledged@) == Some(message@),
            },
    {
        if end > 0 {
            match last {
                Some(10) => {},
                _ => return Err(
                    "WAL has an incomplete tail; preserve and repair it before restarting (no records were discarded)",
                ),
            }
        }
        if checkpoint.end != 0 {
            if checkpoint.version != 1 || checkpoint.start >= checkpoint.end || checkpoint.end > end
                || checkpoint.end - checkpoint.start > MAX_RECORD {
                return Err("WAL checkpoint is outside the journal");
            }
            if !is_terminated(acknowledged) || !same(
                fingerprint(acknowledged).as_str(),
                checkpoint.sha256.as_str(),
            ) {
                return Err("WAL checkpoint does not match the acknowledged record");
            }
        } else if checkpoint.version != 0 || checkpoint.start != 0
            || !checkpoint.sha256.as_str().is_empty() {
            return Err("invalid empty WAL checkpoint");
        }
        Ok(Journal { offset: checkpoint.end, end, failed: false })
    }

    /// The line that a record is written as, at the end of the file.
    pub fn append(&self, bytes: &[u8]) -> (r: Result<Vec<u8>, &'static str>)
        ensures
            match r {
                Ok(line) => append_fault(*self, bytes@) is None && line@ == bytes@.push(10),
                Err(message) => append_fault(*self, bytes@) == Some(message@),
            },
    {
        if self.failed {
            return Err("WAL writer failed; restart after storage repair");
        }
        if bytes.len() as u64 >= MAX_RECORD {
            return Err("WAL record exceeds the limit or contains a raw newline");
        }
        let mut line: Vec<u8> = Vec::new();
        let mut i: usize = 0;
        while i < bytes.len()
            invariant
                i <= bytes.len(),
                bytes@.len() < MAX_RECORD,
                !self.failed,
                line@ == bytes@.take(i as int),
                !bytes@.take(i as int).contains(10u8),
            decreases bytes.len() - i,
        {
            if bytes[i] == 10 {
                assert(bytes@.contains(bytes@[i as int]));
                return Err("WAL record exceeds the limit or contains a raw newline");
            }
            line.push(bytes[i]);
            proof {
                let next = bytes@.take(i as int + 1);
                assert(next =~= bytes@.take(i as int).push(bytes@[i as int]));
                assert forall|j: int| 0 <= j < next.len() implies next[j] != 10 by {
                    if j < i {
                        assert(bytes@.take(i as int).contains(bytes@.take(i as int)[j]));
                    }
                }
            }
            i += 1;
        }
        assert(bytes@.take(bytes@.len() as int) =~= bytes@);
        line.push(10);
        Ok(line)
    }

    /// Whether a line was written and made durable. After a failure nothing more
    /// is appended.
    pub fn appended(&mut self, line: &Vec<u8>, durable: bool)
        requires
            old(self).end + line@.len() <= u64::MAX,
        ensures
            *final(self) == if durable {
                Journal { end: (old(self).end + line@.len()) as u64, ..*old(self) }
            } else {
                Journal { failed: true, ..*old(self) }
            },
    {
        if durable {
            self.end = self.end + line.len() as u64;
        } else {
            self.failed = true;
        }
    }

    /// The next record that is not acknowledged, out of what the file holds from
    /// the cursor up to a newline or the largest record.
    pub fn next(&self, bytes: Vec<u8>) -> (r: Result<Option<Record>, &'static str>)
        requires
            self.offset + bytes@.len() <= u64::MAX,
        ensures
            if self.offset == self.end {
                r matches Ok(None)
            } else if !ends_in_newline(bytes@) {
                r matches Err(message) && message@ == "incomplete or oversized WAL record"@
            } else {
                r matches Ok(Some(record)) && record.bytes@ == bytes@ && record.start == self.offset
                    && record.end == self.offset + bytes@.len()
            },
    {
        if self.offset == self.end {
            return Ok(None);
        }
        if !is_terminated(bytes.as_slice()) {
            return Err("incomplete or oversized WAL record");
        }
        let end = self.offset + bytes.len() as u64;
        Ok(Some(Record { bytes, start: self.offset, end }))
    }

    /// The checkpoint that acknowledges a record. It has to be the next one.
    pub fn acknowledge(&self, record: &Record) -> (r: Result<Checkpoint, &'static str>)
        ensures
            match r {
                Ok(c) => {
                    &&& follows(*self, *record)
                    &&& c.version == 1
                    &&& c.start == record.start
                    &&& c.end == record.end
                    &&& c.sha256@ == fingerprint_text(record.bytes@)
                },
                Err(message) => !follows(*self, *record) && message@
                    == "WAL acknowledgement must advance contiguously"@,
            },
    {
        if record.start != self.offset || record.end > self.end {
            return Err("WAL acknowledgement must advance contiguously");
        }
        Ok(
            Checkpoint {
                version: 1,
                start: record.start,
                end: record.end,
                sha256: fingerprint(record.bytes.as_slice()),
            },
        )
    }

    /// The checkpoint of a record is durable.
    pub fn acknowledged(&mut self, record: &Record)
        ensures
            *final(self) == (Journal { offset: record.end, ..*old(self) }),
    {
        self.offset = record.end;
    }

    /// Whether everything was acknowledged.
    pub fn drained(&self) -> (r: bool)
        ensures
            r == (self.offset == self.end),
    {
        self.offset == self.end
    }

    pub fn len(&self) -> (r: u64)
        ensures
            r == self.end,
    {
        self.end
    }
}

/// The record stands right behind what was acknowledged, and within the file.
pub open spec fn follows(journal: Journal, record: Record) -> bool {
    record.start == journal.offset && record.end <= journal.end
}

/// What stands up to the first newline, with it.
pub open spec fn first_line(bytes: Seq<u8>) -> Seq<u8>
    decreases bytes.len(),
{
    if bytes.len() == 0 {
        Seq::empty()
    } else if bytes[0] == 10 {
        seq![10u8]
    } else {
        seq![bytes[0]] + first_line(bytes.drop_first())
    }
}

/// What a reader finds in a file from an offset, up to a newline or the largest
/// record.
pub open spec fn read_at(file: Seq<u8>, offset: int) -> Seq<u8> {
    let rest = file.skip(offset);
    first_line(
        if rest.len() <= MAX_RECORD {
            rest
        } else {
            rest.take(MAX_RECORD as int)
        },
    )
}

proof fn lemma_first_line_of_record(record: Seq<u8>, rest: Seq<u8>)
    requires
        !record.contains(10u8),
    ensures
        first_line(record.push(10) + rest) == record.push(10),
    decreases record.len(),
{
    let all = record.push(10) + rest;
    if record.len() == 0 {
        assert(all[0] == 10);
        assert(record.push(10) =~= seq![10u8]);
    } else {
        assert(record.contains(record[0]));
        assert(all[0] == record[0]);
        let tail = record.drop_first();
        assert(all.drop_first() =~= tail.push(10) + rest);
        assert forall|i: int| 0 <= i < tail.len() implies tail[i] != 10 by {
            assert(record.contains(record[i + 1]));
        }
        lemma_first_line_of_record(tail, rest);
        assert(seq![record[0]] + tail.push(10) =~= record.push(10));
    }
}

/// A record that was appended is read back as it was, however much follows it:
/// where the cursor reaches it, the reader finds its line.
pub proof fn law_appended_records_are_read_back(
    journal: Journal,
    before: Seq<u8>,
    record: Seq<u8>,
    later: Seq<u8>,
)
    requires
        append_fault(journal, record) is None,
    ensures
        read_at(before + record.push(10) + later, before.len() as int) == record.push(10),
        ends_in_newline(record.push(10)),
{
    let file = before + record.push(10) + later;
    let rest = file.skip(before.len() as int);
    assert(rest =~= record.push(10) + later);
    if rest.len() <= MAX_RECORD {
        lemma_first_line_of_record(record, later);
    } else {
        let kept = MAX_RECORD - record.push(10).len();
        assert(rest.take(MAX_RECORD as int) =~= record.push(10) + later.take(kept));
        lemma_first_line_of_record(record, later.take(kept));
    }
}

/// A restart skips what was acknowledged and nothing else: with the checkpoint
/// of a record of the file, the journal opens right behind that record.
pub proof fn law_restarts_resume_behind_the_checkpoint(file: Seq<u8>, record: Record, c: Checkpoint)
    requires
        file.len() <= u64::MAX,
        ends_in_newline(file),
        record.start < record.end <= file.len(),
        record.end - record.start <= MAX_RECORD,
        record.bytes@ == file.subrange(record.start as int, record.end as int),
        ends_in_newline(record.bytes@),
        c.version == 1,
        c.start == record.start,
        c.end == record.end,
        c.sha256@ == fingerprint_text(record.bytes@),
    ensures
        open_fault(
            file.len() as u64,
            Some(file.last()),
            c,
            file.subrange(c.start as int, c.end as int),
        ) is None,
{
}

/// A file whose last record is torn is refused, whatever was acknowledged.
pub proof fn law_torn_tails_are_refused(file: Seq<u8>, c: Checkpoint, acknowledged: Seq<u8>)
    requires
        0 < file.len() <= u64::MAX,
        !ends_in_newline(file),
    ensures
        open_fault(file.len() as u64, Some(file.last()), c, acknowledged) is Some,
{
}

/// A file whose acknowledged record does not have the digest of the checkpoint
/// any more is refused.
pub proof fn law_altered_records_are_refused(file: Seq<u8>, c: Checkpoint)
    requires
        file.len() <= u64::MAX,
        c.end != 0,
        within(c, file.len() as u64),
        fingerprint_text(file.subrange(c.start as int, c.end as int)) != c.sha256@,
    ensures
        open_fault(
            file.len() as u64,
            if file.len() > 0 {
                Some(file.last())
            } else {
                None
            },
            c,
            file.subrange(c.start as int, c.end as int),
        ) is Some,
{
}

/// Acknowledgements only move forward: after one, the same record does not
/// follow any more.
pub proof fn law_a_record_is_acknowledged_once(journal: Journal, record: Record)
    requires
        follows(journal, record),
        record.start < record.end,
    ensures
        !follows(Journal { offset: record.end, ..journal }, record),
        journal.offset < record.end,
{
}

/// A record is taken exactly if it fits a line and holds no line end, and the writer has not
/// failed.
pub proof fn law_records_are_single_lines(journal: Journal, bytes: Seq<u8>)
    ensures
        append_fault(journal, bytes) is None <==> !journal.failed && bytes.len() < 1024 * 1024
            && forall|i: int| 0 <= i < bytes.len() ==> #[trigger] bytes[i] != 10,
{
    if bytes.contains(10u8) {
        let i = choose|i: int| 0 <= i < bytes.len() && bytes[i] == 10u8;
        assert(bytes[i] == 10);
    } else {
        assert forall|i: int| 0 <= i < bytes.len() implies #[trigger] bytes[i] != 10 by {
            if bytes[i] == 10 {
                assert(bytes.contains(10u8));
            }
        }
    }
}

/// A journal is opened only if its last line is whole and the record that its checkpoint names
/// is in it, unaltered; an empty checkpoint names nothing.
pub proof fn law_journals_open_at_their_checkpoint(
    end: u64,
    last: Option<u8>,
    c: Checkpoint,
    acknowledged: Seq<u8>,
)
    requires
        open_fault(end, last, c, acknowledged) is None,
    ensures
        end > 0 ==> last == Some(10u8),
        c.end > 0 ==> c.version == 1 && c.start < c.end && c.end <= end && c.end - c.start <= 1024
            * 1024 && acknowledged.len() > 0 && acknowledged.last() == 10 && fingerprint_text(
            acknowledged,
        ) == c.sha256@,
        c.end == 0 ==> c.version == 0 && c.start == 0 && c.sha256@.len() == 0,
{
}

/// Records are acknowledged in order: the next one starts where the last one ended, and lies
/// within the journal.
pub proof fn law_records_are_acknowledged_in_order(journal: Journal, a: Record, b: Record)
    requires
        follows(journal, a),
        follows(Journal { offset: a.end, ..journal }, b),
    ensures
        a.start == journal.offset,
        b.start == a.end,
        a.end <= journal.end,
        b.end <= journal.end,
{
}

} // verus!
