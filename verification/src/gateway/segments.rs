//! Only journals that were acknowledged to the end become archives, which never
//! change. Nothing is deleted: an acknowledged delivery is no proof of
//! settlement.
use crate::crypto::{fingerprint, fingerprint_text};
use crate::gateway::wal;
use crate::text::{
    join, nat_text, parse_u64, same, strip_suffix, unsigned_decimal, unsigned_value,
};
use vstd::prelude::*;

verus! {

/// The most generations of a journal.
pub const MAX_GENERATION: u64 = 1_000_000;

#[derive(Clone, Copy, Debug, PartialEq, Eq, Structural)]
pub struct Manifest {
    pub version: u32,
    pub active: u64,
}

/// What an archived segment is.
#[derive(Clone, Debug)]
pub struct Seal {
    pub version: u32,
    pub generation: u64,
    pub bytes: u64,
    pub sha256: String,
}

impl Seal {
    pub open spec fn equals(self, other: Seal) -> bool {
        &&& self.version == other.version
        &&& self.generation == other.generation
        &&& self.bytes == other.bytes
        &&& self.sha256@ == other.sha256@
    }

    pub fn same(&self, other: &Seal) -> (r: bool)
        ensures
            r == self.equals(*other),
    {
        self.version == other.version && self.generation == other.generation && self.bytes
            == other.bytes && same(self.sha256.as_str(), other.sha256.as_str())
    }
}

pub struct Record {
    pub inner: wal::Record,
    pub generation: u64,
}

/// The active segment of a journal.
pub struct Journal {
    pub current: wal::Journal,
    pub generation: u64,
    pub failed: bool,
}

/// A file that stands beside another.
pub fn sidecar(path: &str, suffix: &str) -> (r: String)
    ensures
        r@ == path@ + suffix@,
{
    join(path, suffix)
}

/// As many zeros.
pub open spec fn zeros(n: int) -> Seq<char>
    decreases n,
{
    if n <= 0 {
        Seq::empty()
    } else {
        zeros(n - 1).push('0')
    }
}

/// The name of a segment: its generation with at least twenty digits.
pub open spec fn segment_name_text(generation: u64) -> Seq<char> {
    zeros(20 - nat_text(generation as nat).len()) + nat_text(generation as nat) + ".jsonl"@
}

fn segment_name(generation: u64) -> (r: String)
    ensures
        r@ == segment_name_text(generation),
{
    let digits = unsigned_decimal(generation);
    let count = digits.as_str().unicode_len();
    let mut name = String::new();
    let mut i: usize = 0;
    proof {
        reveal_strlit("0");
        assert("0"@ =~= seq!['0']);
    }
    while i < 20 && count < 20 - i
        invariant
            i <= 20,
            count == digits@.len(),
            i == 0 || count + i <= 20,
            name@ == zeros(i as int),
            "0"@ =~= seq!['0'],
        decreases 20 - i,
    {
        name.append("0");
        assert(name@ =~= zeros(i as int + 1));
        i += 1;
    }
    assert(zeros(i as int) == zeros(20 - digits@.len())) by {
        if digits@.len() >= 20 {
            assert(i == 0);
        }
    }
    name.append(digits.as_str());
    name.append(".jsonl");
    name
}

pub open spec fn segment_path(base: Seq<char>, generation: u64) -> Seq<char> {
    if generation == 0 {
        base
    } else {
        base + ".segments"@ + "/"@ + segment_name_text(generation)
    }
}

/// Where a segment stands: the first one is the journal itself.
pub fn segment(base: &str, generation: u64) -> (r: String)
    ensures
        r@ == segment_path(base@, generation),
{
    if generation == 0 {
        return base.to_owned();
    }
    let mut path = sidecar(base, ".segments");
    path.append("/");
    path.append(segment_name(generation).as_str());
    path
}

/// The active generation: none but the first before there is a manifest.
pub fn active_generation(manifest: Option<Manifest>) -> (r: Result<u64, &'static str>)
    ensures
        match manifest {
            None => r == Ok::<u64, &'static str>(0),
            Some(m) => if m.version == 1 && 0 < m.active <= MAX_GENERATION {
                r == Ok::<u64, &'static str>(m.active)
            } else {
                r matches Err(message) && message@ == "invalid segment manifest"@
            },
        },
{
    match manifest {
        None => Ok(0),
        Some(m) => {
            if m.version != 1 || m.active == 0 || m.active > MAX_GENERATION {
                return Err("invalid segment manifest");
            }
            Ok(m.active)
        },
    }
}

/// The name without the suffix of a segment, if it has it.
pub open spec fn segment_stem(name: Seq<char>) -> Option<Seq<char>> {
    if ".jsonl"@.is_suffix_of(name) {
        Some(name.take(name.len() - ".jsonl"@.len()))
    } else {
        None
    }
}

/// What is wrong with a file among the segments. The only one that no manifest
/// names is the next, while it is empty.
pub open spec fn entry_fault(name: Seq<char>, regular: bool, bytes: u64, generation: u64) -> Option<
    Seq<char>,
> {
    match segment_stem(name) {
        None => None,
        Some(stem) => match unsigned_value(stem) {
            Some(n) if n <= u64::MAX => {
                let id = n as u64;
                if id == 0 || !regular || name != segment_name_text(id) || id > generation + 1 || (
                id > generation && bytes != 0) {
                    Some("unreferenced nonempty segment; preserve and repair manifest"@)
                } else {
                    None
                }
            },
            _ => Some("invalid segment number"@),
        },
    }
}

/// Checks a file among the segments.
pub fn check_entry(name: &str, regular: bool, bytes: u64, generation: u64) -> (r: Result<
    (),
    &'static str,
>)
    requires
        generation <= MAX_GENERATION,
    ensures
        match r {
            Ok(()) => entry_fault(name@, regular, bytes, generation) is None,
            Err(message) => entry_fault(name@, regular, bytes, generation) == Some(message@),
        },
{
    let stem = match strip_suffix(name, ".jsonl") {
        Some(stem) => stem,
        None => return Ok(()),
    };
    proof {
        let suffix = ".jsonl"@;
        assert(name@.take(name@.len() - suffix.len()) =~= stem@);
        assert(name@.subrange(stem@.len() as int, name@.len() as int) =~= suffix);
        assert(suffix.is_suffix_of(name@));
    }
    let id: u64 = match parse_u64(stem) {
        Some(id) => id,
        None => return Err("invalid segment number"),
    };
    if id == 0 || !regular || !same(name, segment_name(id).as_str()) || id > generation + 1 || (id
        > generation && bytes != 0) {
        return Err("unreferenced nonempty segment; preserve and repair manifest");
    }
    Ok(())
}

pub open spec fn sealed(generation: u64, contents: Seq<u8>, s: Seal) -> bool {
    &&& s.version == 1
    &&& s.generation == generation
    &&& s.bytes == contents.len()
    &&& s.sha256@ == fingerprint_text(contents)
}

/// The seal of a segment with these contents.
pub fn seal(generation: u64, contents: &[u8]) -> (r: Seal)
    ensures
        sealed(generation, contents@, r),
{
    Seal {
        version: 1,
        generation,
        bytes: contents.len() as u64,
        sha256: fingerprint(contents),
    }
}

/// Checks an archived segment against its seal and adds its size.
pub fn archived(retained: u64, expected: &Seal, actual: &Seal) -> (r: Result<u64, &'static str>)
    ensures
        if !actual.equals(*expected) {
            r matches Err(message) && message@ == "archived segment checksum mismatch"@
        } else if retained + actual.bytes > u64::MAX {
            r matches Err(message) && message@ == "WAL size overflow"@
        } else {
            r matches Ok(sum) && sum == retained + actual.bytes
        },
{
    if !actual.same(expected) {
        return Err("archived segment checksum mismatch");
    }
    match retained.checked_add(actual.bytes) {
        Some(sum) => Ok(sum),
        None => Err("WAL size overflow"),
    }
}

/// A file among the segments.
#[derive(Clone, Debug)]
pub struct Entry {
    pub name: String,
    pub regular: bool,
    pub bytes: u64,
}

/// What is wrong with the first file that something is wrong with.
pub open spec fn entries_fault(entries: Seq<Entry>, generation: u64) -> Option<Seq<char>>
    decreases entries.len(),
{
    if entries.len() == 0 {
        None
    } else {
        let e = entries[0];
        match entry_fault(e.name@, e.regular, e.bytes, generation) {
            Some(fault) => Some(fault),
            None => entries_fault(entries.skip(1), generation),
        }
    }
}

/// The generation that a manifest names, if it is a valid one.
pub open spec fn manifest_generation(manifest: Option<Manifest>) -> Option<u64> {
    match manifest {
        None => Some(0),
        Some(m) => if m.version == 1 && 0 < m.active <= MAX_GENERATION {
            Some(m.active)
        } else {
            None
        },
    }
}

/// Why no segment is looked into: the manifest, a file among the segments, or
/// the first segment, which has to be there once another is active.
pub open spec fn start_fault(manifest: Option<Manifest>, entries: Seq<Entry>, first: bool) -> Option<
    Seq<char>,
> {
    match manifest_generation(manifest) {
        None => Some("invalid segment manifest"@),
        Some(generation) => if entries_fault(entries, generation) is Some {
            entries_fault(entries, generation)
        } else if !first && generation > 0 {
            Some("legacy archive missing"@)
        } else {
            None
        },
    }
}

/// A journal that is being opened: the archives before `next` were checked and
/// hold `retained` bytes.
#[derive(Clone, Copy, Debug, PartialEq, Eq, Structural)]
pub struct Opening {
    pub generation: u64,
    pub next: u64,
    pub retained: u64,
}

/// What opening a journal looks into next.
#[derive(Clone, Copy, Debug, PartialEq, Eq, Structural)]
pub enum OpenStep {
    /// An archived segment and its seal.
    Archive(u64),
    /// The active segment, when every archive was checked.
    Active(u64),
}

impl Opening {
    /// Starts from the manifest, the files among the segments, and whether the
    /// first segment is there.
    pub fn start(manifest: Option<Manifest>, entries: &Vec<Entry>, first: bool) -> (r: Result<
        Self,
        &'static str,
    >)
        ensures
            match r {
                Ok(opening) => {
                    &&& start_fault(manifest, entries@, first) is None
                    &&& Some(opening.generation) == manifest_generation(manifest)
                    &&& opening.next == 0
                    &&& opening.retained == 0
                },
                Err(message) => start_fault(manifest, entries@, first) == Some(message@),
            },
    {
        let generation: u64 = match active_generation(manifest) {
            Ok(generation) => generation,
            Err(message) => return Err(message),
        };
        let mut i: usize = 0;
        assert(entries@.skip(0) =~= entries@);
        while i < entries.len()
            invariant
                i <= entries.len(),
                generation <= MAX_GENERATION,
                manifest_generation(manifest) == Some(generation),
                entries_fault(entries@, generation) == entries_fault(
                    entries@.skip(i as int),
                    generation,
                ),
            decreases entries.len() - i,
        {
            let e = &entries[i];
            assert(entries@.skip(i as int).skip(1) =~= entries@.skip(i as int + 1));
            match check_entry(e.name.as_str(), e.regular, e.bytes, generation) {
                Ok(()) => {},
                Err(message) => return Err(message),
            }
            i += 1;
        }
        if !first && generation > 0 {
            return Err("legacy archive missing");
        }
        Ok(Opening { generation, next: 0, retained: 0 })
    }

    /// The archives come first, from the oldest on.
    pub fn step(&self) -> (r: OpenStep)
        ensures
            r == if self.next < self.generation {
                OpenStep::Archive(self.next)
            } else {
                OpenStep::Active(self.generation)
            },
    {
        if self.next < self.generation {
            OpenStep::Archive(self.next)
        } else {
            OpenStep::Active(self.generation)
        }
    }

    /// Checks the next archive: the seal that is kept of it against the one that
    /// its contents have.
    pub fn archive(&mut self, expected: &Option<Seal>, actual: &Seal) -> (r: Result<
        (),
        &'static str,
    >)
        requires
            old(self).next < old(self).generation,
        ensures
            match r {
                Ok(()) => {
                    &&& archive_fault(old(self).retained, *expected, *actual) is None
                    &&& *final(self) == (Opening {
                        next: (old(self).next + 1) as u64,
                        retained: (old(self).retained + actual.bytes) as u64,
                        ..*old(self)
                    })
                },
                Err(message) => {
                    &&& archive_fault(old(self).retained, *expected, *actual) == Some(message@)
                    &&& *final(self) == *old(self)
                },
            },
    {
        let expected = match expected {
            Some(expected) => expected,
            None => return Err("WAL metadata missing"),
        };
        match archived(self.retained, expected, actual) {
            Ok(sum) => {
                self.retained = sum;
                self.next = self.next + 1;
                Ok(())
            },
            Err(message) => Err(message),
        }
    }

    /// The opened journal with the bytes that it keeps in all, or a refusal where
    /// the active segment is not there.
    pub fn finish(&self, active: Option<wal::Journal>) -> (r: Result<
        (Journal, u64),
        &'static str,
    >)
        requires
            self.next == self.generation,
        ensures
            match r {
                Ok(opened) => {
                    &&& active == Some(opened.0.current)
                    &&& opened.0.generation == self.generation
                    &&& !opened.0.failed
                    &&& opened.1 == self.retained + opened.0.current.end
                },
                Err(message) => match active {
                    None => message@ == "active segment missing"@,
                    Some(current) => {
                        &&& self.retained + current.end > u64::MAX
                        &&& message@ == "WAL size overflow"@
                    },
                },
            },
    {
        let current = match active {
            Some(current) => current,
            None => return Err("active segment missing"),
        };
        match self.retained.checked_add(current.len()) {
            Some(sum) => Ok((Journal { current, generation: self.generation, failed: false }, sum)),
            None => Err("WAL size overflow"),
        }
    }
}

/// Why an archive is refused: it has no seal, its contents are not the sealed
/// ones, or its size cannot be counted.
pub open spec fn archive_fault(retained: u64, expected: Option<Seal>, actual: Seal) -> Option<
    Seq<char>,
> {
    match expected {
        None => Some("WAL metadata missing"@),
        Some(expected) => if !actual.equals(expected) {
            Some("archived segment checksum mismatch"@)
        } else if retained + actual.bytes > u64::MAX {
            Some("WAL size overflow"@)
        } else {
            None
        },
    }
}

/// What an append does next.
#[derive(Clone, Copy, Debug, PartialEq, Eq, Structural)]
pub enum AppendStep {
    /// The next segment takes over.
    Rotate,
    /// The line is written to the active segment.
    Write,
}

/// A segment is full, or was sealed already, and everything in it was
/// acknowledged.
pub open spec fn rotates(journal: Journal, segment_bytes: u64, has_seal: bool) -> bool {
    &&& journal.current.offset == journal.current.end
    &&& journal.current.end > 0
    &&& journal.current.end >= segment_bytes || has_seal
}

/// Why a segment is not followed by the next: its seal says something else, its
/// number is the last, or the next one is not empty.
pub open spec fn rotation_fault(
    generation: u64,
    frozen: Seal,
    existing: Option<Seal>,
    next_bytes: Option<u64>,
) -> Option<Seq<char>> {
    if existing matches Some(seal) && !seal.equals(frozen) {
        Some("sealed data was modified"@)
    } else if generation >= MAX_GENERATION {
        Some("segment number overflow"@)
    } else if next_bytes matches Some(bytes) && bytes != 0 {
        Some("next segment already contains data"@)
    } else {
        None
    }
}

impl Journal {
    /// Whether the segment is followed by the next before anything is appended.
    pub fn should_rotate(&self, segment_bytes: u64, has_seal: bool) -> (r: bool)
        ensures
            r == rotates(*self, segment_bytes, has_seal),
    {
        self.current.drained() && self.current.len() > 0 && (self.current.len() >= segment_bytes
            || has_seal)
    }

    /// What an append does next: a segment that is done with is followed by the
    /// next before anything is written.
    pub fn append_step(&self, segment_bytes: u64, has_seal: bool) -> (r: Result<
        AppendStep,
        &'static str,
    >)
        ensures
            match r {
                Ok(step) => {
                    &&& !self.failed
                    &&& step == if rotates(*self, segment_bytes, has_seal) {
                        AppendStep::Rotate
                    } else {
                        AppendStep::Write
                    }
                },
                Err(message) => self.failed && message@
                    == "segmented WAL failed; repair storage before restart"@,
            },
    {
        if self.failed {
            return Err("segmented WAL failed; repair storage before restart");
        }
        if self.should_rotate(segment_bytes, has_seal) {
            Ok(AppendStep::Rotate)
        } else {
            Ok(AppendStep::Write)
        }
    }

    /// The generation that follows, if it can: the segment is sealed as `frozen`,
    /// a seal that is there already says the same, and the next segment holds
    /// nothing.
    pub fn rotate(&self, frozen: &Seal, existing: &Option<Seal>, next_bytes: Option<u64>) -> (r:
        Result<u64, &'static str>)
        ensures
            match r {
                Ok(generation) => {
                    &&& rotation_fault(self.generation, *frozen, *existing, next_bytes) is None
                    &&& generation == self.generation + 1
                },
                Err(message) => rotation_fault(self.generation, *frozen, *existing, next_bytes)
                    == Some(message@),
            },
    {
        if let Some(seal) = existing {
            if !seal.same(frozen) {
                return Err("sealed data was modified");
            }
        }
        if self.generation >= MAX_GENERATION {
            return Err("segment number overflow");
        }
        if let Some(bytes) = next_bytes {
            if bytes != 0 {
                return Err("next segment already contains data");
            }
        }
        Ok(self.generation + 1)
    }

    /// The next segment takes over, once its file and the pointer to it are
    /// durable.
    pub fn rotated(&mut self, generation: u64, next: wal::Journal) -> (r: Result<(), &'static str>)
        ensures
            if next.offset == next.end && next.end == 0 {
                &&& r is Ok
                &&& *final(self) == (Journal { current: next, generation, ..*old(self) })
            } else {
                &&& r matches Err(message) && message@ == "next segment is not empty"@
                &&& *final(self) == *old(self)
            },
    {
        if !next.drained() || next.len() != 0 {
            return Err("next segment is not empty");
        }
        self.current = next;
        self.generation = generation;
        Ok(())
    }

    /// The line that a record is written as.
    pub fn append(&self, bytes: &[u8]) -> (r: Result<Vec<u8>, &'static str>)
        ensures
            match r {
                Ok(line) => !self.failed && wal::append_fault(self.current, bytes@) is None
                    && line@ == bytes@.push(10),
                Err(message) => if self.failed {
                    message@ == "segmented WAL failed; repair storage before restart"@
                } else {
                    wal::append_fault(self.current, bytes@) == Some(message@)
                },
            },
    {
        if self.failed {
            return Err("segmented WAL failed; repair storage before restart");
        }
        self.current.append(bytes)
    }

    /// How an append ended. A failure of any part of it ends the journal.
    pub fn appended(&mut self, succeeded: bool)
        ensures
            *final(self) == (Journal { failed: old(self).failed || !succeeded, ..*old(self) }),
    {
        if !succeeded {
            self.failed = true;
        }
    }

    /// The next record that is not acknowledged.
    pub fn next(&self, bytes: Vec<u8>) -> (r: Result<Option<Record>, &'static str>)
        requires
            self.current.offset + bytes@.len() <= u64::MAX,
        ensures
            if self.current.offset == self.current.end {
                r matches Ok(None)
            } else if !wal::ends_in_newline(bytes@) {
                r matches Err(message) && message@ == "incomplete or oversized WAL record"@
            } else {
                r matches Ok(Some(record)) && record.generation == self.generation
                    && record.inner.bytes@ == bytes@ && record.inner.start == self.current.offset
                    && record.inner.end == self.current.offset + bytes@.len()
            },
    {
        match self.current.next(bytes) {
            Ok(Some(inner)) => Ok(Some(Record { inner, generation: self.generation })),
            Ok(None) => Ok(None),
            Err(message) => Err(message),
        }
    }

    /// The checkpoint that acknowledges a record of the active segment.
    pub fn acknowledge(&self, record: &Record) -> (r: Result<wal::Checkpoint, &'static str>)
        ensures
            if record.generation != self.generation {
                r matches Err(message) && message@ == "ACK belongs to an archived generation"@
            } else if !wal::follows(self.current, record.inner) {
                r matches Err(message) && message@
                    == "WAL acknowledgement must advance contiguously"@
            } else {
                r matches Ok(c) && c.version == 1 && c.start == record.inner.start && c.end
                    == record.inner.end && c.sha256@ == fingerprint_text(record.inner.bytes@)
            },
    {
        if record.generation != self.generation {
            return Err("ACK belongs to an archived generation");
        }
        self.current.acknowledge(&record.inner)
    }
}

/// A segment with records that were not acknowledged stays the active one.
pub proof fn law_unacknowledged_segments_stay_active(
    journal: Journal,
    segment_bytes: u64,
    has_seal: bool,
)
    requires
        journal.current.offset < journal.current.end,
    ensures
        !rotates(journal, segment_bytes, has_seal),
{
}

/// A segment that just took over is written to: an append is followed by the
/// next segment once at most.
pub proof fn law_fresh_segments_are_written_to(
    journal: Journal,
    segment_bytes: u64,
    has_seal: bool,
)
    requires
        journal.current.end == 0,
    ensures
        !rotates(journal, segment_bytes, has_seal),
{
}

/// An archive whose contents have another digest than its seal says is refused.
pub proof fn law_altered_archives_are_refused(
    generation: u64,
    before: Seq<u8>,
    after: Seq<u8>,
    expected: Seal,
    actual: Seal,
)
    requires
        sealed(generation, before, expected),
        sealed(generation, after, actual),
        fingerprint_text(before) != fingerprint_text(after),
    ensures
        !actual.equals(expected),
{
}

/// A segment that holds data and that the manifest does not name is refused.
pub proof fn law_unreferenced_data_is_refused(generation: u64, id: u64, bytes: u64, name: Seq<char>)
    requires
        segment_stem(name) matches Some(stem) && unsigned_value(stem) == Some(id as nat),
        id > generation,
        bytes > 0,
    ensures
        entry_fault(name, true, bytes, generation) is Some,
{
}

/// A segment is sealed exactly when everything in it is acknowledged, there is something in it,
/// and it is full or its seal was written already.
pub proof fn law_full_and_acknowledged_segments_are_sealed(
    journal: Journal,
    segment_bytes: u64,
    has_seal: bool,
)
    ensures
        rotates(journal, segment_bytes, has_seal) <==> journal.current.offset == journal.current.end
            && journal.current.end > 0 && (has_seal || segment_bytes <= journal.current.end),
{
}

/// A seal is of one segment and its contents: it equals another exactly if both are of the
/// same segment, size and digest.
pub proof fn law_seals_are_compared_in_whole(a: Seal, b: Seal)
    ensures
        a.equals(b) <==> a.version == b.version && a.generation == b.generation && a.bytes
            == b.bytes && a.sha256@ == b.sha256@,
{
}

/// An archive is taken only with the seal that it was sealed with, and as long as all archives
/// together can be counted; a segment is followed only by one that holds nothing yet.
pub proof fn law_archives_keep_their_seal(
    retained: u64,
    expected: Option<Seal>,
    actual: Seal,
    generation: u64,
    existing: Option<Seal>,
    next_bytes: Option<u64>,
)
    ensures
        archive_fault(retained, expected, actual) is None <==> expected is Some && actual.version
            == expected->0.version && actual.generation == expected->0.generation && actual.bytes
            == expected->0.bytes && actual.sha256@ == expected->0.sha256@ && retained + actual.bytes
            <= u64::MAX,
        rotation_fault(generation, actual, existing, next_bytes) is None ==> generation < 1_000_000
            && (next_bytes is None || next_bytes->0 == 0) && (existing is None
            || existing->0.sha256@ == actual.sha256@ && existing->0.bytes == actual.bytes
            && existing->0.generation == actual.generation),
{
}

/// A journal starts only from a manifest of the known version, with the first segment there if
/// there are later ones.
pub proof fn law_journals_start_from_their_manifest(
    manifest: Option<Manifest>,
    entries: Seq<Entry>,
    first: bool,
)
    requires
        start_fault(manifest, entries, first) is None,
    ensures
        manifest is Some ==> manifest->0.version == 1 && 0 < manifest->0.active <= 1_000_000
            && first,
        entries.len() > 0 ==> entry_fault(
            entries[0].name@,
            entries[0].regular,
            entries[0].bytes,
            if manifest is Some {
                manifest->0.active
            } else {
                0
            },
        ) is None,
{
}

} // verus!
