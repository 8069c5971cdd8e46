use xscope::gateway::segments::{self, AppendStep, OpenStep};
use xscope::gateway::storage::{StorageBudget, StorageSettings, REQUEST_SPACE};
use xscope::gateway::wal;

use std::collections::BTreeMap;

/// A journal with its file and the checkpoint beside it.
#[derive(Clone, Default)]
struct File {
    bytes: Vec<u8>,
    checkpoint: wal::Checkpoint,
}

fn open(file: &File) -> Result<wal::Journal, &'static str> {
    let c = &file.checkpoint;
    let range = c.start as usize..(c.end as usize).min(file.bytes.len());
    let acknowledged = file.bytes.get(range).unwrap_or_default();
    wal::Journal::open(
        file.bytes.len() as u64,
        file.bytes.last().copied(),
        c,
        acknowledged,
    )
}

/// What the file holds from the cursor up to a newline or the largest record.
fn read(file: &File, offset: u64) -> Vec<u8> {
    let rest = &file.bytes[offset as usize..];
    let rest = &rest[..rest.len().min(wal::MAX_RECORD as usize)];
    match rest.iter().position(|b| *b == b'\n') {
        Some(p) => rest[..=p].to_vec(),
        None => rest.to_vec(),
    }
}

fn append(wal: &mut wal::Journal, file: &mut File, bytes: &[u8]) -> Result<(), &'static str> {
    let line = wal.append(bytes)?;
    file.bytes.extend_from_slice(&line);
    wal.appended(&line, true);
    Ok(())
}

fn acknowledge(
    wal: &mut wal::Journal,
    file: &mut File,
    record: &wal::Record,
) -> Result<(), &'static str> {
    file.checkpoint = wal.acknowledge(record)?;
    wal.acknowledged(record);
    Ok(())
}

#[test]
fn checkpoint_skips_acked_events_and_replays_unacked_after_restart() {
    let mut file = File::default();
    let mut wal = open(&file).unwrap();
    append(&mut wal, &mut file, br#"{"event_id":"one"}"#).unwrap();
    append(&mut wal, &mut file, br#"{"event_id":"two"}"#).unwrap();
    let first = wal.next(read(&file, wal.offset)).unwrap().unwrap();
    acknowledge(&mut wal, &mut file, &first).unwrap();
    assert!(wal.acknowledge(&first).is_err());
    let second = wal.next(read(&file, wal.offset)).unwrap().unwrap();
    let mut wal = open(&file).unwrap();
    assert_eq!(
        wal.next(read(&file, wal.offset)).unwrap().unwrap().bytes,
        second.bytes
    );
    acknowledge(&mut wal, &mut file, &second).unwrap();
    let wal = open(&file).unwrap();
    assert!(wal.next(read(&file, wal.offset)).unwrap().is_none());
}

#[test]
fn torn_tail_and_mismatched_checkpoint_fail_without_discarding_evidence() {
    let mut file = File {
        bytes: b"{\"torn\":".to_vec(),
        ..File::default()
    };
    assert!(open(&file).is_err());
    assert_eq!(file.bytes, b"{\"torn\":");
    file.bytes = b"{}\n".to_vec();
    let mut wal = open(&file).unwrap();
    let record = wal.next(read(&file, wal.offset)).unwrap().unwrap();
    acknowledge(&mut wal, &mut file, &record).unwrap();
    file.bytes = b"[]\n".to_vec();
    assert!(open(&file).is_err());
}

#[test]
fn journals_say_what_is_wrong_with_them() {
    let mut file = File {
        bytes: b"{}\n".to_vec(),
        ..File::default()
    };
    let wal = open(&file).unwrap();
    let limit = "WAL record exceeds the limit or contains a raw newline";
    assert_eq!(wal.append(b"a\nb").err(), Some(limit));
    assert_eq!(wal.append(&vec![b'a'; 1 << 20]).err(), Some(limit));
    assert_eq!(wal.append(&vec![b'a'; (1 << 20) - 1]).unwrap().len(), 1 << 20);
    let mut failed = wal;
    failed.appended(&vec![b'a', b'\n'], false);
    assert_eq!(
        failed.append(b"a").err(),
        Some("WAL writer failed; restart after storage repair")
    );
    assert_eq!(
        wal.next(b"{}".to_vec()).err(),
        Some("incomplete or oversized WAL record")
    );
    file.checkpoint.end = 4;
    file.checkpoint.version = 1;
    assert_eq!(
        open(&file).err(),
        Some("WAL checkpoint is outside the journal")
    );
    file.checkpoint = wal::Checkpoint {
        version: 1,
        ..wal::Checkpoint::default()
    };
    assert_eq!(open(&file).err(), Some("invalid empty WAL checkpoint"));
    file.checkpoint = wal::Checkpoint {
        version: 1,
        start: 0,
        end: 3,
        sha256: "ca3d163bab055381827226140568f3bef7eaac187cebd76878e0b63e9e442356".into(),
    };
    assert!(open(&file).is_ok());
    file.checkpoint.sha256 = "ca3d".into();
    assert_eq!(
        open(&file).err(),
        Some("WAL checkpoint does not match the acknowledged record")
    );
}

/// The files of a segmented journal.
#[derive(Clone, Default)]
struct Disk {
    segments: BTreeMap<u64, File>,
    seals: BTreeMap<u64, segments::Seal>,
    manifest: Option<segments::Manifest>,
}

struct Store {
    journal: segments::Journal,
    budget: StorageBudget,
}

fn budget() -> StorageBudget {
    StorageBudget::new(StorageSettings {
        segment_bytes: 1,
        max_bytes: 100 * REQUEST_SPACE,
        min_free_bytes: 4096,
    })
}

fn open_store(disk: &mut Disk) -> Result<Store, &'static str> {
    let entries = disk.segments.iter().filter(|(id, _)| **id > 0).map(|(id, file)| {
        let path = segments::segment("", *id);
        segments::Entry {
            name: path.rsplit('/').next().unwrap().to_owned(),
            regular: true,
            bytes: file.bytes.len() as u64,
        }
    });
    let entries = entries.collect();
    let first = disk.segments.contains_key(&0);
    let mut opening = segments::Opening::start(disk.manifest, &entries, first)?;
    let original = open(disk.segments.entry(0).or_default())?;
    let active = loop {
        match opening.step() {
            OpenStep::Archive(id) => {
                let actual = segments::seal(id, &disk.segments.entry(id).or_default().bytes);
                opening.archive(&disk.seals.get(&id).cloned(), &actual)?;
            }
            OpenStep::Active(0) => break Some(original),
            OpenStep::Active(id) => break disk.segments.get(&id).map(open).transpose()?,
        }
    };
    let (journal, retained) = opening.finish(active)?;
    let mut budget = budget();
    budget.add_retained(retained)?;
    Ok(Store { journal, budget })
}

fn rotate(store: &mut Store, disk: &mut Disk) -> Result<(), &'static str> {
    let generation = store.journal.generation;
    let frozen = segments::seal(generation, &disk.segments[&generation].bytes);
    let existing = disk.seals.get(&generation).cloned();
    let next_bytes = disk.segments.get(&(generation + 1)).map(|f| f.bytes.len() as u64);
    let next = store.journal.rotate(&frozen, &existing, next_bytes)?;
    disk.seals.insert(generation, frozen);
    let current = open(disk.segments.entry(next).or_default())?;
    store.journal.rotated(next, current)?;
    disk.manifest = Some(segments::Manifest {
        version: 1,
        active: next,
    });
    Ok(())
}

fn append_store(store: &mut Store, disk: &mut Disk, bytes: &[u8]) -> Result<(), &'static str> {
    let sealed = disk.seals.contains_key(&store.journal.generation);
    let segment_bytes = store.budget.settings.segment_bytes;
    if store.journal.append_step(segment_bytes, sealed)? == AppendStep::Rotate {
        rotate(store, disk)?;
    }
    let line = store.journal.append(bytes)?;
    let file = disk.segments.get_mut(&store.journal.generation).unwrap();
    file.bytes.extend_from_slice(&line);
    store.journal.current.appended(&line, true);
    store.journal.appended(true);
    store.budget.add_retained(line.len() as u64)
}

fn next_store(store: &Store, disk: &Disk) -> Option<segments::Record> {
    let file = &disk.segments[&store.journal.generation];
    store.journal.next(read(file, store.journal.current.offset)).unwrap()
}

fn acknowledge_store(
    store: &mut Store,
    disk: &mut Disk,
    record: &segments::Record,
) -> Result<(), &'static str> {
    let checkpoint = store.journal.acknowledge(record)?;
    disk.segments.get_mut(&record.generation).unwrap().checkpoint = checkpoint;
    store.journal.current.acknowledged(&record.inner);
    Ok(())
}

#[test]
fn sealed_rotation_restart_and_corruption_preserve_every_record() {
    let mut disk = Disk::default();
    let mut store = open_store(&mut disk).unwrap();
    append_store(&mut store, &mut disk, b"one").unwrap();
    let first = next_store(&store, &disk).unwrap();
    acknowledge_store(&mut store, &mut disk, &first).unwrap();
    append_store(&mut store, &mut disk, b"two").unwrap();
    assert_eq!(
        acknowledge_store(&mut store, &mut disk, &first).err(),
        Some("ACK belongs to an archived generation")
    );
    let mut store = open_store(&mut disk).unwrap();
    assert_eq!(store.budget.retained, 8);
    let second = next_store(&store, &disk).unwrap();
    assert_eq!(second.inner.bytes, b"two\n");
    acknowledge_store(&mut store, &mut disk, &second).unwrap();
    append_store(&mut store, &mut disk, b"three").unwrap();
    assert_eq!(disk.segments[&0].bytes, b"one\n");
    assert_eq!(disk.segments[&1].bytes, b"two\n");
    disk.segments.get_mut(&0).unwrap().bytes = b"bad\n".to_vec();
    assert_eq!(
        open_store(&mut disk).err(),
        Some("WAL checkpoint does not match the acknowledged record")
    );
}

#[test]
fn rotation_orphan_before_manifest_is_reused_but_nonempty_orphan_fails_closed() {
    let mut disk = Disk::default();
    let mut store = open_store(&mut disk).unwrap();
    append_store(&mut store, &mut disk, b"one").unwrap();
    let first = next_store(&store, &disk).unwrap();
    acknowledge_store(&mut store, &mut disk, &first).unwrap();
    let seal = segments::seal(0, &disk.segments[&0].bytes);
    disk.seals.insert(0, seal);
    disk.segments.insert(1, File::default());
    let mut store = open_store(&mut disk).unwrap();
    append_store(&mut store, &mut disk, b"two").unwrap();
    disk.manifest = None;
    assert_eq!(
        open_store(&mut disk).err(),
        Some("unreferenced nonempty segment; preserve and repair manifest")
    );
    assert_eq!(disk.segments[&1].bytes, b"two\n");
}

#[test]
fn unacked_data_stays_active_and_committed_empty_segment_survives_restart() {
    let mut disk = Disk::default();
    let mut store = open_store(&mut disk).unwrap();
    append_store(&mut store, &mut disk, b"one").unwrap();
    append_store(&mut store, &mut disk, b"two").unwrap();
    assert!(disk.manifest.is_none());
    for _ in 0..2 {
        let record = next_store(&store, &disk).unwrap();
        acknowledge_store(&mut store, &mut disk, &record).unwrap();
    }
    rotate(&mut store, &mut disk).unwrap();
    let mut store = open_store(&mut disk).unwrap();
    assert!(next_store(&store, &disk).is_none());
    append_store(&mut store, &mut disk, b"three").unwrap();
    assert_eq!(next_store(&store, &disk).unwrap().inner.bytes, b"three\n");
    disk.seals.remove(&0);
    assert!(open_store(&mut disk).is_err());
    assert_eq!(disk.segments[&1].bytes, b"three\n");
}

#[test]
fn opening_refuses_what_is_missing() {
    let manifest = Some(segments::Manifest {
        version: 1,
        active: 2,
    });
    let none = Vec::new();
    assert_eq!(
        segments::Opening::start(manifest, &none, false).err(),
        Some("legacy archive missing")
    );
    assert!(segments::Opening::start(None, &none, false).is_ok());
    let stray = segments::Entry {
        name: "x.jsonl".into(),
        regular: true,
        bytes: 0,
    };
    assert_eq!(
        segments::Opening::start(manifest, &vec![stray], false).err(),
        Some("invalid segment number")
    );
    let mut opening = segments::Opening::start(manifest, &none, true).unwrap();
    assert_eq!(opening.step(), OpenStep::Archive(0));
    let actual = segments::seal(0, b"one\n");
    assert_eq!(opening.archive(&None, &actual), Err("WAL metadata missing"));
    assert_eq!(
        opening.archive(&Some(segments::seal(0, b"two\n")), &actual),
        Err("archived segment checksum mismatch")
    );
    opening.archive(&Some(actual.clone()), &actual).unwrap();
    assert_eq!(opening.step(), OpenStep::Archive(1));
    let actual = segments::seal(1, b"three\n");
    opening.archive(&Some(actual.clone()), &actual).unwrap();
    assert_eq!(opening.step(), OpenStep::Active(2));
    assert_eq!(opening.finish(None).err(), Some("active segment missing"));
    let current = wal::Journal {
        offset: 0,
        end: 5,
        failed: false,
    };
    let (journal, retained) = opening.finish(Some(current)).unwrap();
    assert_eq!((journal.generation, journal.failed, retained), (2, false, 15));
}

#[test]
fn an_append_rotates_a_finished_segment_first() {
    let journal = |offset, end, failed| segments::Journal {
        current: wal::Journal {
            offset,
            end,
            failed: false,
        },
        generation: 0,
        failed,
    };
    assert_eq!(journal(9, 9, false).append_step(9, false), Ok(AppendStep::Rotate));
    assert_eq!(journal(9, 9, false).append_step(10, false), Ok(AppendStep::Write));
    assert_eq!(journal(9, 9, false).append_step(10, true), Ok(AppendStep::Rotate));
    assert_eq!(journal(4, 9, false).append_step(1, true), Ok(AppendStep::Write));
    assert_eq!(journal(0, 0, false).append_step(0, true), Ok(AppendStep::Write));
    assert_eq!(
        journal(9, 9, true).append_step(1, true),
        Err("segmented WAL failed; repair storage before restart")
    );
}

#[test]
fn segments_are_named_by_their_generation() {
    assert_eq!(segments::segment("usage.jsonl", 0), "usage.jsonl");
    assert_eq!(
        segments::segment("usage.jsonl", 12),
        "usage.jsonl.segments/00000000000000000012.jsonl"
    );
    assert_eq!(segments::sidecar("usage.jsonl", ".manifest"), "usage.jsonl.manifest");
    assert_eq!(segments::check_entry("notes.txt", true, 5, 0), Ok(()));
    assert_eq!(
        segments::check_entry("x.jsonl", true, 0, 0),
        Err("invalid segment number")
    );
    let repair = Err("unreferenced nonempty segment; preserve and repair manifest");
    assert_eq!(segments::check_entry("1.jsonl", true, 0, 0), repair);
    assert_eq!(
        segments::check_entry("00000000000000000001.jsonl", true, 0, 0),
        Ok(())
    );
    assert_eq!(
        segments::check_entry("00000000000000000001.jsonl", false, 0, 0),
        repair
    );
    assert_eq!(
        segments::check_entry("00000000000000000002.jsonl", true, 0, 0),
        repair
    );
    assert_eq!(
        segments::active_generation(Some(segments::Manifest {
            version: 2,
            active: 1
        })),
        Err("invalid segment manifest")
    );
}
