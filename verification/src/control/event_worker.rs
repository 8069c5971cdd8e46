//! Leased consumption of an account's outbox. Nothing is acknowledged unless
//! its effect commits in the same transaction, and nothing settles by itself.
use crate::control::clusters::{audit, audited, AuditDraft, AuditPayload};
use crate::control::error::{conflict, invalid, refused, Fault, ServiceError, ServiceResult};
use crate::crypto::{fingerprint, fingerprint_text, fresh_uuid, uuid_text};
use crate::domain::{clock_in_range, Timestamp};
use crate::json::{document_bytes, encode, integer, integer_json, json_of, text, Json, Record};
use crate::text::{blank, byte_len, bytes_of, is_blank, same};
use crate::time::{datable, instant_text, write_instant};
use vstd::prelude::*;

verus! {

/// The job of an account is waiting, running, up to date, or given up.
#[derive(Clone, Copy, Debug, PartialEq, Eq, Structural)]
pub enum JobState {
    Pending,
    Running,
    Idle,
    Dead,
    /// A state that this version does not know; nothing moves out of it.
    Unknown,
}

#[derive(Clone, Debug)]
pub struct JobRow {
    pub billing_account_id: String,
    pub consumer: String,
    pub acknowledged: i64,
    pub target_sequence: i64,
    pub lease_epoch: i64,
    pub lease_through: i64,
    pub lease_token: Option<String>,
    pub lease_until: Option<Timestamp>,
    pub available_at: Timestamp,
    pub state: JobState,
    pub attempts: i32,
    pub last_error: Option<String>,
    pub updated_at: Timestamp,
}

#[derive(Clone, Copy, Debug)]
pub struct ClaimRequest {
    pub limit: u64,
    pub lease_seconds: i64,
}

#[derive(Clone, Debug)]
pub struct Lease {
    pub billing_account_id: String,
    pub lease_epoch: i64,
    pub lease_token: String,
    pub expected_sequence: i64,
    pub through_sequence: i64,
}

#[derive(Clone, Debug)]
pub struct FailRequest {
    pub lease: Lease,
    pub reason: String,
}

/// What has happened in the loop of the worker.
pub enum WorkerEvent {
    Started,
    Claimed(Option<Lease>),
    Completed,
    /// The batch failed; its source and acknowledgement stay as they were.
    Failed(Lease),
    FailureRecorded,
    /// The database could not be reached or refused.
    Error,
}

/// What the loop of the worker does next.
pub enum WorkerAction {
    Claim(ClaimRequest),
    Complete(Lease),
    Fail(FailRequest),
    /// Wait for so many milliseconds, and start again.
    Sleep(u64),
}

/// Decides what the worker does next: batches follow each other closely, and
/// an empty queue or an error is waited out.
pub fn run(event: WorkerEvent) -> (r: WorkerAction)
    ensures
        match event {
            WorkerEvent::Started => r == WorkerAction::Claim(
                ClaimRequest { limit: 100, lease_seconds: 30 },
            ),
            WorkerEvent::Claimed(None) => r == WorkerAction::Sleep(1000),
            WorkerEvent::Claimed(Some(lease)) => r == WorkerAction::Complete(lease),
            WorkerEvent::Completed | WorkerEvent::FailureRecorded => r == WorkerAction::Sleep(10),
            WorkerEvent::Failed(lease) => r matches WorkerAction::Fail(q) && q.lease == lease
                && q.reason@ == "handler_failed"@,
            WorkerEvent::Error => r == WorkerAction::Sleep(1000),
        },
{
    match event {
        WorkerEvent::Started => WorkerAction::Claim(
            ClaimRequest { limit: 100, lease_seconds: 30 },
        ),
        WorkerEvent::Claimed(None) => WorkerAction::Sleep(1000),
        WorkerEvent::Claimed(Some(lease)) => WorkerAction::Complete(lease),
        WorkerEvent::Completed => WorkerAction::Sleep(10),
        WorkerEvent::FailureRecorded => WorkerAction::Sleep(10),
        WorkerEvent::Failed(lease) => WorkerAction::Fail(
            FailRequest { lease, reason: "handler_failed".to_owned() },
        ),
        WorkerEvent::Error => WorkerAction::Sleep(1000),
    }
}

/// How many whole seconds ago something happened; nothing is ahead of time.
pub fn age_seconds(oldest: Option<Timestamp>, now: Timestamp) -> (r: i64)
    ensures
        r == match oldest {
            Some(time) if now > time => (now - time) / 1_000_000,
            _ => 0,
        },
{
    match oldest {
        Some(time) => if now > time {
            let age: i128 = now as i128 - time as i128;
            (age / 1_000_000) as i64
        } else {
            0
        },
        None => 0,
    }
}

/// Wakes the job of an account for a new event: a job that is up to date waits
/// again, but neither a backoff nor a job that was given up is cleared.
pub fn schedule(existing: Option<JobRow>, account: &str, sequence: i64, now: Timestamp) -> (r:
    JobRow)
    ensures
        match existing {
            Some(row) => r == (JobRow {
                target_sequence: sequence,
                state: if row.state == JobState::Idle {
                    JobState::Pending
                } else {
                    row.state
                },
                ..row
            }),
            None => {
                &&& r.billing_account_id@ == account@
                &&& r.consumer@ == "ledger.audit.v1"@
                &&& r.acknowledged == 0
                &&& r.target_sequence == sequence
                &&& r.lease_epoch == 0
                &&& r.lease_through == 0
                &&& r.lease_token is None
                &&& r.lease_until is None
                &&& r.available_at == now
                &&& r.state == JobState::Pending
                &&& r.attempts == 0
                &&& r.last_error is None
                &&& r.updated_at == now
            },
        },
{
    match existing {
        Some(row) => {
            let state = if row.state == JobState::Idle {
                JobState::Pending
            } else {
                row.state
            };
            JobRow { target_sequence: sequence, state, ..row }
        },
        None => JobRow {
            billing_account_id: account.to_owned(),
            consumer: "ledger.audit.v1".to_owned(),
            acknowledged: 0,
            target_sequence: sequence,
            lease_epoch: 0,
            lease_through: 0,
            lease_token: None,
            lease_until: None,
            available_at: now,
            state: JobState::Pending,
            attempts: 0,
            last_error: None,
            updated_at: now,
        },
    }
}

/// How many events a job has before it.
pub fn backlog(row: &JobRow) -> (r: i64)
    requires
        i64::MIN <= row.target_sequence - row.acknowledged <= i64::MAX,
    ensures
        r == row.target_sequence - row.acknowledged,
{
    row.target_sequence - row.acknowledged
}

/// The lease is the one that the job runs under, and it has not run out.
pub open spec fn lease_held(row: JobRow, lease: Lease, time: Timestamp) -> bool {
    &&& row.state == JobState::Running
    &&& row.lease_epoch == lease.lease_epoch
    &&& row.lease_token matches Some(token) && token@ == lease.lease_token@
    &&& row.lease_until matches Some(until) && until > time
    &&& row.acknowledged == lease.expected_sequence
    &&& lease.through_sequence > lease.expected_sequence
    &&& row.lease_through == lease.through_sequence
    &&& lease.through_sequence <= row.target_sequence
}

pub open spec fn lease_fault(row: Option<JobRow>, lease: Lease, time: Timestamp) -> Option<Fault> {
    match row {
        None => Some(Fault::NotFound),
        Some(row) => if lease_held(row, lease, time) {
            None
        } else {
            Some(Fault::Conflict("stale, expired, or mismatched worker lease"@))
        },
    }
}

/// The job that a lease is for, under the lock of the job.
pub fn locked(row: Option<JobRow>, lease: &Lease, time: Timestamp) -> (r: ServiceResult<JobRow>)
    ensures
        refused(r, lease_fault(row, *lease, time)),
        r matches Ok(job) ==> job == row->0,
{
    let row = match row {
        Some(row) => row,
        None => return Err(ServiceError::NotFound),
    };
    let token_held = match &row.lease_token {
        Some(token) => same(token.as_str(), lease.lease_token.as_str()),
        None => false,
    };
    let in_time = match row.lease_until {
        Some(until) => until > time,
        None => false,
    };
    if row.state != JobState::Running || row.lease_epoch != lease.lease_epoch || !token_held
        || !in_time || row.acknowledged != lease.expected_sequence || lease.through_sequence
        <= lease.expected_sequence || row.lease_through != lease.through_sequence
        || lease.through_sequence > row.target_sequence {
        return Err(conflict("stale, expired, or mismatched worker lease"));
    }
    Ok(row)
}

/// How long to wait after a number of attempts: twice as long each time, from
/// two seconds up to 256.
pub open spec fn backoff_seconds(attempt: int) -> int {
    if attempt <= 1 {
        2
    } else if attempt == 2 {
        4
    } else if attempt == 3 {
        8
    } else if attempt == 4 {
        16
    } else if attempt == 5 {
        32
    } else if attempt == 6 {
        64
    } else if attempt == 7 {
        128
    } else {
        256
    }
}

pub fn backoff(attempt: i32) -> (r: i64)
    ensures
        r == backoff_seconds(attempt as int),
        0 < r <= 300,
{
    if attempt <= 1 {
        2
    } else if attempt == 2 {
        4
    } else if attempt == 3 {
        8
    } else if attempt == 4 {
        16
    } else if attempt == 5 {
        32
    } else if attempt == 6 {
        64
    } else if attempt == 7 {
        128
    } else {
        256
    }
}

/// A later attempt never waits for a shorter time.
pub proof fn law_backoff_is_monotonic(a: int, b: int)
    requires
        a <= b,
    ensures
        0 < backoff_seconds(a) <= backoff_seconds(b) <= 300,
{
}

pub open spec fn next_attempt(attempts: i32) -> i32 {
    if attempts == i32::MAX {
        attempts
    } else {
        (attempts + 1) as i32
    }
}

/// A job after a failed attempt: it waits, or after the eighth is given up.
pub open spec fn failed_job(row: JobRow, time: Timestamp, next: JobRow) -> bool {
    let attempts = next_attempt(row.attempts);
    &&& next.last_error is Some
    &&& next == (JobRow {
        state: if attempts >= 8 {
            JobState::Dead
        } else {
            JobState::Pending
        },
        attempts,
        last_error: next.last_error,
        lease_token: None,
        lease_until: None,
        available_at: (time + backoff_seconds(attempts as int) * 1_000_000) as i64,
        updated_at: time,
        ..row
    })
}

fn fail_row(row: JobRow, reason: &str, time: Timestamp) -> (r: JobRow)
    requires
        clock_in_range(time),
    ensures
        failed_job(row, time, r),
        r.last_error->0@ == reason@,
{
    let attempts: i32 = if row.attempts == i32::MAX {
        row.attempts
    } else {
        row.attempts + 1
    };
    let delay = backoff(attempts);
    JobRow {
        state: if attempts >= 8 {
            JobState::Dead
        } else {
            JobState::Pending
        },
        attempts,
        last_error: Some(reason.to_owned()),
        lease_token: None,
        lease_until: None,
        available_at: time + delay * 1_000_000,
        updated_at: time,
        ..row
    }
}

/// The job has work, is due, and nobody holds it.
pub open spec fn claimable(row: JobRow, time: Timestamp) -> bool {
    &&& row.target_sequence > row.acknowledged
    &&& row.available_at <= time
    &&& {
        ||| row.state == JobState::Pending
        ||| row.state == JobState::Running && (row.lease_until matches Some(until) && until <= time)
    }
}

pub fn is_claimable(row: &JobRow, time: Timestamp) -> (r: bool)
    ensures
        r == claimable(*row, time),
{
    let run_out = match row.lease_until {
        Some(until) => until <= time,
        None => false,
    };
    row.target_sequence > row.acknowledged && row.available_at <= time && (row.state
        == JobState::Pending || (row.state == JobState::Running && run_out))
}

/// What became of a claim.
pub enum Claim {
    /// There is nothing to do.
    Nothing,
    /// A worker crashed under its lease: the job waits like after a failure.
    Expired(JobRow),
    /// The job is leased.
    Leased(JobRow, Lease),
}

pub open spec fn claim_fault(
    q: ClaimRequest,
    row: Option<JobRow>,
    last_sequence: Option<i64>,
    time: Timestamp,
) -> Option<Fault> {
    if !(1 <= q.limit <= 100) || !(1 <= q.lease_seconds <= 60) {
        Some(Fault::Invalid("invalid event batch or lease duration"@))
    } else if row is None || !claimable(row->0, time) || row->0.state == JobState::Running {
        None
    } else if last_sequence is None {
        Some(Fault::Conflict("job high watermark has no committed source events"@))
    } else if row->0.lease_epoch == i64::MAX {
        Some(Fault::Invalid("lease epoch exhausted"@))
    } else {
        None
    }
}

/// What a claim comes to: a job that is due is leased under the token.
pub open spec fn claimed(
    q: ClaimRequest,
    row: Option<JobRow>,
    last_sequence: Option<i64>,
    token: Seq<char>,
    time: Timestamp,
    claim: Claim,
) -> bool {
    match claim {
        Claim::Nothing => row is None || !claimable(row->0, time),
        Claim::Expired(next) => {
            &&& row is Some && claimable(row->0, time) && row->0.state == JobState::Running
            &&& failed_job(row->0, time, next)
            &&& next.last_error->0@ == "worker_crashed"@
        },
        Claim::Leased(next, lease) => {
            &&& row is Some && claimable(row->0, time) && row->0.state == JobState::Pending
            &&& lease.billing_account_id == row->0.billing_account_id
            &&& lease.lease_epoch == row->0.lease_epoch + 1
            &&& lease.lease_token@ == token
            &&& lease.expected_sequence == row->0.acknowledged
            &&& Some(lease.through_sequence) == last_sequence
            &&& next.lease_token is Some && next.lease_token->0@ == token
            &&& next == (JobRow {
                state: JobState::Running,
                lease_epoch: lease.lease_epoch,
                lease_through: lease.through_sequence,
                lease_token: next.lease_token,
                lease_until: Some((time + q.lease_seconds * 1_000_000) as i64),
                updated_at: time,
                ..row->0
            })
        },
    }
}

/// Claims a job under a token. `last_sequence` is that of the last of the events
/// that follow what is acknowledged, up to the limit.
pub fn claim_event_job_with(
    request: &ClaimRequest,
    row: Option<JobRow>,
    last_sequence: Option<i64>,
    token: &str,
    time: Timestamp,
) -> (r: ServiceResult<Claim>)
    requires
        clock_in_range(time),
    ensures
        refused(r, claim_fault(*request, row, last_sequence, time)),
        r matches Ok(claim) ==> claimed(*request, row, last_sequence, token@, time, claim),
{
    if request.limit < 1 || request.limit > 100 || request.lease_seconds < 1
        || request.lease_seconds > 60 {
        return Err(invalid("invalid event batch or lease duration"));
    }
    let row = match row {
        Some(row) => row,
        None => return Ok(Claim::Nothing),
    };
    if !is_claimable(&row, time) {
        return Ok(Claim::Nothing);
    }
    if row.state == JobState::Running {
        return Ok(Claim::Expired(fail_row(row, "worker_crashed", time)));
    }
    let through = match last_sequence {
        Some(sequence) => sequence,
        None => return Err(conflict("job high watermark has no committed source events")),
    };
    let epoch = match row.lease_epoch.checked_add(1) {
        Some(epoch) => epoch,
        None => return Err(invalid("lease epoch exhausted")),
    };
    let lease = Lease {
        billing_account_id: row.billing_account_id.clone(),
        lease_epoch: epoch,
        lease_token: token.to_owned(),
        expected_sequence: row.acknowledged,
        through_sequence: through,
    };
    let next = JobRow {
        state: JobState::Running,
        lease_epoch: epoch,
        lease_through: through,
        lease_token: Some(token.to_owned()),
        lease_until: Some(time + request.lease_seconds * 1_000_000),
        updated_at: time,
        ..row
    };
    Ok(Claim::Leased(next, lease))
}

/// Claims a job under a fresh token.
pub fn claim_event_job(
    request: &ClaimRequest,
    row: Option<JobRow>,
    last_sequence: Option<i64>,
    time: Timestamp,
) -> (r: ServiceResult<Claim>)
    requires
        clock_in_range(time),
    ensures
        refused(r, claim_fault(*request, row, last_sequence, time)),
        r matches Ok(claim) ==> exists|token: Seq<char>|
            uuid_text(token) && #[trigger] claimed(
                *request,
                row,
                last_sequence,
                token,
                time,
                claim,
            ),
{
    let token = fresh_uuid();
    claim_event_job_with(request, row, last_sequence, token.as_str(), time)
}

/// One line of a ledger transaction.
#[derive(Clone, Debug)]
pub struct SourceLine {
    pub billing_account_id: String,
    pub amount_microunits: i64,
}

/// An event of the outbox with what its source looks like now.
#[derive(Clone, Debug)]
pub struct SourceEvent {
    pub billing_account_id: String,
    pub sequence: i64,
    pub kind: String,
    pub aggregate_id: String,
    pub payload: serde_json::Value,
    pub created_at: Timestamp,
    /// The fingerprint under which it was processed before.
    pub processed: Option<String>,
    /// The lines of the transaction, of a ledger event; up to 101.
    pub lines: Vec<SourceLine>,
    /// The account of the reservation, of a reservation event or a review.
    pub reservation_account: Option<String>,
    /// Whether the review is there, of a review event.
    pub review_found: bool,
}

/// An event as it is written.
pub open spec fn source_json(e: SourceEvent) -> Json {
    Json::Object(
        map![
            "billing_account_id"@ => Json::Text(e.billing_account_id@),
            "sequence"@ => integer_json(e.sequence as int),
            "kind"@ => Json::Text(e.kind@),
            "aggregate_id"@ => Json::Text(e.aggregate_id@),
            "payload"@ => json_of(e.payload),
            "created_at"@ => Json::Text(instant_text(e.created_at)),
        ],
    )
}

/// The fingerprint of an event: of all that it says.
pub open spec fn source_hash(e: SourceEvent) -> Seq<char> {
    fingerprint_text(document_bytes(source_json(e))->0)
}

/// Fingerprints an event.
pub fn hash_event(e: &SourceEvent) -> (r: String)
    requires
        datable(e.created_at),
    ensures
        r@ == source_hash(*e),
{
    let record = Record::new().with(
        "billing_account_id",
        text(e.billing_account_id.as_str()),
    ).with("sequence", integer(e.sequence)).with("kind", text(e.kind.as_str())).with(
        "aggregate_id",
        text(e.aggregate_id.as_str()),
    ).with("payload", e.payload.clone()).with(
        "created_at",
        text(write_instant(e.created_at).as_str()),
    ).done();
    fingerprint(encode(&record).unwrap().as_slice())
}

pub open spec fn line_total(lines: Seq<SourceLine>) -> int
    decreases lines.len(),
{
    if lines.len() == 0 {
        0
    } else {
        line_total(lines.drop_last()) + lines.last().amount_microunits
    }
}

/// A transaction of the account with two to a hundred lines that cancel out.
pub open spec fn ledger_sound(lines: Seq<SourceLine>, account: Seq<char>) -> bool {
    &&& 2 <= lines.len() <= 100
    &&& forall|i: int| 0 <= i < lines.len() ==> (#[trigger] lines[i]).billing_account_id@ == account
    &&& line_total(lines) == 0
}

pub open spec fn reservation_kind(kind: Seq<char>) -> bool {
    ||| kind == "reservation.created"@
    ||| kind == "reservation.dispatched"@
    ||| kind == "reservation.released"@
    ||| kind == "reservation.unresolved"@
    ||| kind == "reservation.waived"@
    ||| kind == "reservation.settled"@
}

pub open spec fn review_kind(kind: Seq<char>) -> bool {
    ||| kind == "review.submitted"@
    ||| kind == "review.settled"@
    ||| kind == "review.rejected"@
    ||| kind == "review.waived"@
}

/// What is wrong with the source of an event.
pub open spec fn event_fault(e: SourceEvent) -> Option<Fault> {
    if e.kind@ == "ledger.posted"@ {
        if ledger_sound(e.lines@, e.billing_account_id@) {
            None
        } else {
            Some(Fault::Conflict("ledger integrity verification failed"@))
        }
    } else if reservation_kind(e.kind@) {
        match e.reservation_account {
            None => Some(Fault::Conflict("reservation source missing"@)),
            Some(account) => if account@ == e.billing_account_id@ {
                None
            } else {
                Some(Fault::Conflict("reservation source account mismatch"@))
            },
        }
    } else if review_kind(e.kind@) {
        if !e.review_found {
            Some(Fault::Conflict("review source missing"@))
        } else {
            match e.reservation_account {
                None => Some(Fault::Conflict("review reservation missing"@)),
                Some(account) => if account@ == e.billing_account_id@ {
                    None
                } else {
                    Some(Fault::Conflict("review source account mismatch"@))
                },
            }
        }
    } else if e.kind@ == "projection.rebuilt"@ {
        None
    } else {
        Some(Fault::Invalid("unsupported financial event kind; source retained"@))
    }
}

fn ledger_is_sound(lines: &Vec<SourceLine>, account: &str) -> (r: bool)
    ensures
        r == ledger_sound(lines@, account@),
{
    if lines.len() < 2 || lines.len() > 100 {
        return false;
    }
    let mut total: i128 = 0;
    let mut i: usize = 0;
    assert(lines@.take(0) =~= Seq::empty());
    while i < lines.len()
        invariant
            i <= lines.len() <= 100,
            total == line_total(lines@.take(i as int)),
            -(i * 0x8000_0000_0000_0000) <= total <= i * 0x8000_0000_0000_0000,
            forall|j: int| 0 <= j < i ==> (#[trigger] lines@[j]).billing_account_id@ == account@,
        decreases lines.len() - i,
    {
        if !same(lines[i].billing_account_id.as_str(), account) {
            assert(lines@[i as int].billing_account_id@ != account@);
            return false;
        }
        assert(lines@.take(i as int + 1).drop_last() =~= lines@.take(i as int));
        total = total + lines[i].amount_microunits as i128;
        i += 1;
    }
    assert(lines@.take(lines@.len() as int) =~= lines@);
    total == 0
}

/// Checks an event against its source before it is acknowledged.
pub fn validate_event(e: &SourceEvent) -> (r: ServiceResult<()>)
    ensures
        refused(r, event_fault(*e)),
{
    let kind = e.kind.as_str();
    let own_account = match &e.reservation_account {
        Some(account) => same(account.as_str(), e.billing_account_id.as_str()),
        None => false,
    };
    if same(kind, "ledger.posted") {
        if !ledger_is_sound(&e.lines, e.billing_account_id.as_str()) {
            return Err(conflict("ledger integrity verification failed"));
        }
    } else if same(kind, "reservation.created") || same(kind, "reservation.dispatched") || same(
        kind,
        "reservation.released",
    ) || same(kind, "reservation.unresolved") || same(kind, "reservation.waived") || same(
        kind,
        "reservation.settled",
    ) {
        if e.reservation_account.is_none() {
            return Err(conflict("reservation source missing"));
        }
        if !own_account {
            return Err(conflict("reservation source account mismatch"));
        }
    } else if same(kind, "review.submitted") || same(kind, "review.settled") || same(
        kind,
        "review.rejected",
    ) || same(kind, "review.waived") {
        if !e.review_found {
            return Err(conflict("review source missing"));
        }
        if e.reservation_account.is_none() {
            return Err(conflict("review reservation missing"));
        }
        if !own_account {
            return Err(conflict("review source account mismatch"));
        }
    } else if !same(kind, "projection.rebuilt") {
        return Err(invalid("unsupported financial event kind; source retained"));
    }
    Ok(())
}

/// That an event was processed.
#[derive(Clone, Debug)]
pub struct Effect {
    pub sequence: i64,
    pub kind: String,
    pub payload_sha256: String,
}

pub enum Completion {
    /// The batch was acknowledged before; nothing is written.
    Duplicate(i64),
    Done(JobRow, Vec<Effect>),
}

/// What stops a batch at its event `i`, given that nothing stopped it before.
pub open spec fn batch_fault(start: int, events: Seq<SourceEvent>, i: int) -> Option<Fault> {
    let e = events[i];
    if start + i + 1 > i64::MAX {
        Some(Fault::Invalid("event sequence exhausted"@))
    } else if e.sequence != start + i + 1 {
        Some(Fault::Conflict("event source has a sequence gap"@))
    } else if event_fault(e) is Some {
        event_fault(e)
    } else if e.processed matches Some(prior) && prior@ != source_hash(e) {
        Some(Fault::Conflict("processed event changed"@))
    } else {
        None
    }
}

pub open spec fn batch_sound(start: int, events: Seq<SourceEvent>, n: int) -> bool {
    forall|i: int| 0 <= i < n ==> #[trigger] batch_fault(start, events, i) is None
}

/// The batch of a lease is refused with `fault`.
pub open spec fn completion_fault(
    row: JobRow,
    lease: Lease,
    events: Seq<SourceEvent>,
    time: Timestamp,
    fault: Fault,
) -> bool {
    let start = row.acknowledged as int;
    if events.len() == 0 || events.len() > 100 {
        fault == Fault::Conflict("invalid worker batch"@)
    } else if !batch_sound(start, events, events.len() as int) {
        exists|i: int|
            0 <= i < events.len() && batch_sound(start, events, i) && #[trigger] batch_fault(
                start,
                events,
                i,
            ) == Some(fault)
    } else if start + events.len() != lease.through_sequence {
        fault == Fault::Conflict("event source did not reach requested boundary"@)
    } else {
        !(row.lease_until matches Some(until) && until > time) && fault == Fault::Conflict(
            "lease expired during processing"@,
        )
    }
}

/// The batch can be acknowledged.
pub open spec fn completes(
    row: JobRow,
    lease: Lease,
    events: Seq<SourceEvent>,
    time: Timestamp,
) -> bool {
    &&& 1 <= events.len() <= 100
    &&& batch_sound(row.acknowledged as int, events, events.len() as int)
    &&& row.acknowledged + events.len() == lease.through_sequence
    &&& row.lease_until matches Some(until) && until > time
}

/// The events that were not processed before.
pub open spec fn unprocessed(events: Seq<SourceEvent>) -> Seq<SourceEvent> {
    events.filter(|e: SourceEvent| e.processed is None)
}

pub open spec fn effects_of(effects: Seq<Effect>, events: Seq<SourceEvent>) -> bool {
    &&& effects.len() == events.len()
    &&& forall|i: int|
        0 <= i < effects.len() ==> (#[trigger] effects[i]).sequence == events[i].sequence
            && effects[i].kind == events[i].kind && effects[i].payload_sha256@
            == source_hash(events[i])
}

/// The batch of a lease was acknowledged before.
pub open spec fn acknowledged_before(job: JobRow, lease: Lease) -> bool {
    job.acknowledged >= lease.through_sequence && lease.through_sequence > lease.expected_sequence
}

/// A job after the batch of a lease was acknowledged.
pub open spec fn completed_job(job: JobRow, lease: Lease, time: Timestamp) -> JobRow {
    JobRow {
        acknowledged: lease.through_sequence,
        state: if lease.through_sequence < job.target_sequence {
            JobState::Pending
        } else {
            JobState::Idle
        },
        lease_token: None,
        lease_until: None,
        attempts: 0,
        last_error: None,
        available_at: time,
        updated_at: time,
        ..job
    }
}

/// Acknowledges a batch: every event up to the boundary of the lease, without
/// a gap, each checked against its source. `locked_at` and `time` are the
/// database's clock when the job was locked and right before the commit.
#[verifier::loop_isolation(false)]
pub fn complete_event_job(
    row: Option<JobRow>,
    lease: &Lease,
    events: &Vec<SourceEvent>,
    locked_at: Timestamp,
    time: Timestamp,
) -> (r: ServiceResult<Completion>)
    requires
        forall|i: int| 0 <= i < events@.len() ==> datable((#[trigger] events@[i]).created_at),
    ensures
        row is None ==> (r matches Err(e) && e@ == Fault::NotFound),
        row matches Some(job) ==> {
            let duplicate = acknowledged_before(job, *lease);
            &&& duplicate ==> (r matches Ok(Completion::Duplicate(n)) && n == job.acknowledged)
            &&& !duplicate && !lease_held(job, *lease, locked_at) ==> (r matches Err(e) && e@
                == Fault::Conflict("stale, expired, or mismatched worker lease"@))
            &&& !duplicate && lease_held(job, *lease, locked_at) ==> match r {
                Ok(Completion::Done(next, effects)) => {
                    &&& completes(job, *lease, events@, time)
                    &&& effects_of(effects@, unprocessed(events@))
                    &&& next == completed_job(job, *lease, time)
                },
                Ok(Completion::Duplicate(_)) => false,
                Err(e) => !completes(job, *lease, events@, time) && completion_fault(
                    job,
                    *lease,
                    events@,
                    time,
                    e@,
                ),
            }
        },
{
    if let Some(job) = &row {
        if job.acknowledged >= lease.through_sequence && lease.through_sequence
            > lease.expected_sequence {
            return Ok(Completion::Duplicate(job.acknowledged));
        }
    }
    let row = locked(row, lease, locked_at)?;
    if events.len() == 0 || events.len() > 100 {
        return Err(conflict("invalid worker batch"));
    }
    let ghost start = row.acknowledged as int;
    let ghost keep = |e: SourceEvent| e.processed is None;
    let mut effects: Vec<Effect> = Vec::new();
    let mut expected: i64 = row.acknowledged;
    let mut i: usize = 0;
    assert(events@.take(0).filter(keep) =~= Seq::empty());
    while i < events.len()
        invariant
            i <= events.len() <= 100,
            start == row.acknowledged,
            expected == start + i,
            keep == (|e: SourceEvent| e.processed is None),
            batch_sound(start, events@, i as int),
            effects_of(effects@, events@.take(i as int).filter(keep)),
            1 <= events.len(),
        decreases events.len() - i,
    {
        let event = &events[i];
        let ghost kept = events@.take(i as int).filter(keep);
        proof {
            broadcast use Seq::lemma_filter_push;

            assert(events@.take(i as int + 1) == events@.take(i as int).push(events@[i as int]));
        }
        expected = match expected.checked_add(1) {
            Some(next) => next,
            None => {
                assert(batch_fault(start, events@, i as int) == Some(
                    Fault::Invalid("event sequence exhausted"@),
                ));
                return Err(invalid("event sequence exhausted"));
            },
        };
        if event.sequence != expected {
            assert(batch_fault(start, events@, i as int) == Some(
                Fault::Conflict("event source has a sequence gap"@),
            ));
            return Err(conflict("event source has a sequence gap"));
        }
        if let Err(e) = validate_event(event) {
            assert(batch_fault(start, events@, i as int) == Some(e@));
            return Err(e);
        }
        let hash = hash_event(event);
        match &event.processed {
            Some(prior) => {
                if !same(prior.as_str(), hash.as_str()) {
                    assert(batch_fault(start, events@, i as int) == Some(
                        Fault::Conflict("processed event changed"@),
                    ));
                    return Err(conflict("processed event changed"));
                }
                assert(!keep(events@[i as int]));
            },
            None => {
                assert(keep(events@[i as int]));
                effects.push(
                    Effect {
                        sequence: event.sequence,
                        kind: event.kind.clone(),
                        payload_sha256: hash,
                    },
                );
                assert(events@.take(i as int + 1).filter(keep) == kept.push(events@[i as int]));
            },
        }
        assert(batch_fault(start, events@, i as int) is None);
        i += 1;
    }
    assert(events@.take(events@.len() as int) == events@);
    if expected != lease.through_sequence {
        return Err(conflict("event source did not reach requested boundary"));
    }
    let in_time = match row.lease_until {
        Some(until) => until > time,
        None => false,
    };
    if !in_time {
        return Err(conflict("lease expired during processing"));
    }
    let state = if expected < row.target_sequence {
        JobState::Pending
    } else {
        JobState::Idle
    };
    Ok(
        Completion::Done(
            JobRow {
                acknowledged: expected,
                state,
                lease_token: None,
                lease_until: None,
                attempts: 0,
                last_error: None,
                available_at: time,
                updated_at: time,
                ..row
            },
            effects,
        ),
    )
}

pub open spec fn failure_code(s: Seq<char>) -> bool {
    s == "handler_failed"@ || s == "source_invalid"@ || s == "dependency_unavailable"@
}

/// Reports that a batch failed: the job waits, or after eight attempts is
/// given up. What is acknowledged stays as it was.
pub fn fail_event_job(request: &FailRequest, row: Option<JobRow>, time: Timestamp) -> (r:
    ServiceResult<JobRow>)
    requires
        clock_in_range(time),
    ensures
        refused(
            r,
            if !failure_code(request.reason@) {
                Some(Fault::Invalid("invalid bounded failure code"@))
            } else {
                lease_fault(row, request.lease, time)
            },
        ),
        r matches Ok(next) ==> failed_job(row->0, time, next) && next.last_error->0@
            == request.reason@,
{
    if !same(request.reason.as_str(), "handler_failed") && !same(
        request.reason.as_str(),
        "source_invalid",
    ) && !same(request.reason.as_str(), "dependency_unavailable") {
        return Err(invalid("invalid bounded failure code"));
    }
    let row = locked(row, &request.lease, time)?;
    Ok(fail_row(row, request.reason.as_str(), time))
}

/// Wakes the job of an account that was given up, and records who asked for it. What is
/// acknowledged stays as it was.
pub fn retry_event_job(
    row: Option<JobRow>,
    account: &str,
    actor: &str,
    reason: &str,
    time: Timestamp,
) -> (r: ServiceResult<(JobRow, AuditDraft)>)
    ensures
        refused(
            r,
            if blank(reason@) || bytes_of(reason@).len() > 256 {
                Some(Fault::Invalid("retry requires a bounded reason"@))
            } else if row is None {
                Some(Fault::NotFound)
            } else if row->0.state != JobState::Dead {
                Some(Fault::Conflict("only dead jobs may be explicitly retried"@))
            } else {
                None
            },
        ),
        r matches Ok(done) ==> {
            &&& done.0 == (JobRow {
                state: JobState::Pending,
                available_at: time,
                attempts: 0,
                updated_at: time,
                ..row->0
            })
            &&& audited(done.1, actor@, "event_job.retry"@, account@, done.1.payload)
            &&& done.1.payload matches AuditPayload::JobRetried { consumer, reason: told }
                && consumer@ == "ledger.audit.v1"@ && told@ == reason@
        },
{
    if is_blank(reason) || byte_len(reason) > 256 {
        return Err(invalid("retry requires a bounded reason"));
    }
    let row = match row {
        Some(row) => row,
        None => return Err(ServiceError::NotFound),
    };
    if row.state != JobState::Dead {
        return Err(conflict("only dead jobs may be explicitly retried"));
    }
    let trail = audit(
        actor,
        "event_job.retry",
        account,
        AuditPayload::JobRetried {
            consumer: "ledger.audit.v1".to_owned(),
            reason: reason.to_owned(),
        },
    );
    let row = JobRow {
        state: JobState::Pending,
        available_at: time,
        attempts: 0,
        updated_at: time,
        ..row
    };
    Ok((row, trail))
}

/// A new lease fences every lease that was given out before: none of them can
/// complete or fail the job any more.
pub proof fn law_a_new_lease_fences_the_old(
    row: JobRow,
    next: JobRow,
    old_lease: Lease,
    time: Timestamp,
)
    requires
        next.lease_epoch == row.lease_epoch + 1,
        old_lease.lease_epoch <= row.lease_epoch,
    ensures
        !lease_held(next, old_lease, time),
{
}

/// A failed attempt, a crash or a retry never acknowledges anything.
pub proof fn law_failure_acknowledges_nothing(row: JobRow, next: JobRow, time: Timestamp)
    requires
        failed_job(row, time, next),
    ensures
        next.acknowledged == row.acknowledged,
        next.target_sequence == row.target_sequence,
        forall|lease: Lease, at: Timestamp| !#[trigger] lease_held(next, lease, at),
{
}

/// A completion whose answer was lost can be sent again: the batch is known to be
/// acknowledged, and no effect is repeated.
pub proof fn law_completions_can_be_repeated(
    job: JobRow,
    lease: Lease,
    locked_at: Timestamp,
    time: Timestamp,
)
    requires
        lease_held(job, lease, locked_at),
    ensures
        !acknowledged_before(job, lease),
        acknowledged_before(completed_job(job, lease, time), lease),
        completed_job(job, lease, time).acknowledged > job.acknowledged,
{
}

/// A job is leased only when it has something to do, its time has come, and nobody works on
/// it; the lease covers what is behind the acknowledgement up to the last event of the batch,
/// under a new epoch, and ends after the seconds that were asked for.
pub proof fn law_leases_cover_what_is_left(
    q: ClaimRequest,
    row: Option<JobRow>,
    last_sequence: Option<i64>,
    token: Seq<char>,
    time: Timestamp,
    next: JobRow,
    lease: Lease,
)
    requires
        clock_in_range(time),
        claim_fault(q, row, last_sequence, time) is None,
        claimed(q, row, last_sequence, token, time, Claim::Leased(next, lease)),
    ensures
        row is Some,
        row->0.state == JobState::Pending,
        row->0.acknowledged < row->0.target_sequence,
        row->0.available_at <= time,
        0 < q.limit < 101,
        0 < q.lease_seconds < 61,
        lease.lease_epoch == row->0.lease_epoch + 1,
        lease.expected_sequence == row->0.acknowledged,
        last_sequence == Some(lease.through_sequence),
        lease.lease_token@ == token,
        next.state == JobState::Running,
        next.acknowledged == row->0.acknowledged,
        next.lease_until == Some((time + q.lease_seconds * 1_000_000) as i64),
        row->0.acknowledged < lease.through_sequence <= row->0.target_sequence ==> lease_held(
            next,
            lease,
            time,
        ),
        forall|at: Timestamp|
            at >= time + q.lease_seconds * 1_000_000 ==> !#[trigger] lease_held(next, lease, at),
{
}

/// A job that waits, has something to do and whose time has come is leased; one whose worker
/// let its lease run out waits like after a failure; any other is left alone.
pub proof fn law_jobs_are_claimed_when_they_are_due(
    q: ClaimRequest,
    row: Option<JobRow>,
    last_sequence: Option<i64>,
    token: Seq<char>,
    time: Timestamp,
    claim: Claim,
)
    requires
        claimed(q, row, last_sequence, token, time, claim),
    ensures
        row is None ==> claim is Nothing,
        row is Some && (row->0.acknowledged >= row->0.target_sequence || row->0.available_at > time)
            ==> claim is Nothing,
        row is Some && (row->0.state == JobState::Idle || row->0.state == JobState::Dead
            || row->0.state == JobState::Unknown) ==> claim is Nothing,
        row is Some && row->0.acknowledged < row->0.target_sequence && row->0.available_at <= time
            && row->0.state == JobState::Pending ==> claim is Leased,
        row is Some && row->0.acknowledged < row->0.target_sequence && row->0.available_at <= time
            && row->0.state == JobState::Running && row->0.lease_until is Some
            && row->0.lease_until->0 <= time ==> claim is Expired,
        row is Some && row->0.state == JobState::Running && row->0.lease_until is Some
            && row->0.lease_until->0 > time ==> claim is Nothing,
{
}

/// Every failure makes a job wait twice as long as the one before, from two seconds on, and
/// the eighth ends it.
pub proof fn law_failures_wait_longer_and_end(row: JobRow, time: Timestamp, next: JobRow)
    requires
        clock_in_range(time),
        0 <= row.attempts < i32::MAX,
        failed_job(row, time, next),
    ensures
        next.attempts == row.attempts + 1,
        next.state == JobState::Dead <==> next.attempts >= 8,
        next.state == JobState::Pending <==> next.attempts < 8,
        next.lease_token is None && next.lease_until is None,
        next.available_at == time + backoff_seconds(next.attempts as int) * 1_000_000,
        next.acknowledged == row.acknowledged,
        backoff_seconds(1) == 2,
        1 <= row.attempts < 8 ==> backoff_seconds(row.attempts + 1) == 2 * backoff_seconds(
            row.attempts as int,
        ),
        row.attempts >= 8 ==> backoff_seconds(row.attempts + 1) == backoff_seconds(
            row.attempts as int,
        ),
{
}

/// A batch is completed without a gap: its events follow the acknowledgement one by one, up to
/// the end of the lease, which is still held; each of them is sound, and none that was
/// processed before has changed.
pub proof fn law_batches_have_no_gaps(
    row: JobRow,
    lease: Lease,
    events: Seq<SourceEvent>,
    time: Timestamp,
    i: int,
)
    requires
        completes(row, lease, events, time),
        0 <= i < events.len(),
    ensures
        events[i].sequence == row.acknowledged + i + 1,
        event_fault(events[i]) is None,
        events[i].processed is Some ==> events[i].processed->0@ == source_hash(events[i]),
        row.acknowledged + events.len() == lease.through_sequence,
        0 < events.len() < 101,
        row.lease_until is Some && time < row.lease_until->0,
{
    assert(batch_fault(row.acknowledged as int, events, i) is None);
}

/// A completed batch is acknowledged in whole; the job rests when nothing is left and waits
/// for the next batch otherwise, with its failures forgotten.
pub proof fn law_completed_batches_are_acknowledged(job: JobRow, lease: Lease, time: Timestamp)
    ensures
        ({
            let next = completed_job(job, lease, time);
            &&& next.acknowledged == lease.through_sequence
            &&& next.state == JobState::Idle <==> lease.through_sequence >= job.target_sequence
            &&& next.state == JobState::Pending <==> lease.through_sequence < job.target_sequence
            &&& next.attempts == 0
            &&& next.last_error is None
            &&& next.lease_token is None
            &&& next.lease_until is None
            &&& next.available_at == time
            &&& next.target_sequence == job.target_sequence
            &&& next.lease_epoch == job.lease_epoch
        }),
{
}

/// A lease is worth something only to whoever holds it now: under the same epoch and token,
/// over the same events, before its time is up.
pub proof fn law_leases_are_held_by_one_worker(row: JobRow, lease: Lease, time: Timestamp)
    ensures
        lease_fault(Some(row), lease, time) is None <==> {
            &&& row.state == JobState::Running
            &&& row.lease_epoch == lease.lease_epoch
            &&& row.lease_token is Some && row.lease_token->0@ == lease.lease_token@
            &&& row.lease_until is Some && time < row.lease_until->0
            &&& row.acknowledged == lease.expected_sequence
            &&& row.lease_through == lease.through_sequence
            &&& lease.expected_sequence < lease.through_sequence <= row.target_sequence
        },
        lease_fault(None, lease, time) == Some(Fault::NotFound),
{
}

/// A ledger event is sound only if its lines are of its own account and add up to nothing; a
/// line more or less by any amount makes it unsound.
pub proof fn law_ledger_events_balance(e: SourceEvent, line: SourceLine)
    requires
        e.kind@ == "ledger.posted"@,
        event_fault(e) is None,
    ensures
        line_total(e.lines@) == 0,
        1 < e.lines@.len() < 101,
        forall|i: int|
            0 <= i < e.lines@.len() ==> (#[trigger] e.lines@[i]).billing_account_id@
                == e.billing_account_id@,
        line_total(e.lines@.push(line)) == line.amount_microunits,
{
    assert(e.lines@.push(line).drop_last() =~= e.lines@);
}

/// An event of a reservation or a review is sound only with a source of the same account, and
/// an event of a kind that is not known never is.
pub proof fn law_events_have_a_source(e: SourceEvent)
    requires
        event_fault(e) is None,
    ensures
        e.kind@ == "reservation.created"@ || e.kind@ == "reservation.settled"@ || e.kind@
            == "reservation.released"@ || e.kind@ == "reservation.dispatched"@ || e.kind@
            == "reservation.unresolved"@ || e.kind@ == "reservation.waived"@ || e.kind@
            == "review.submitted"@ || e.kind@ == "review.settled"@ || e.kind@ == "review.rejected"@
            || e.kind@ == "review.waived"@ || e.kind@ == "ledger.posted"@ || e.kind@
            == "projection.rebuilt"@,
        e.kind@ != "ledger.posted"@ && e.kind@ != "projection.rebuilt"@ ==> e.reservation_account
            is Some && e.reservation_account->0@ == e.billing_account_id@,
        !e.review_found ==> e.kind@ != "review.submitted"@ && e.kind@ != "review.settled"@
            && e.kind@ != "review.rejected"@ && e.kind@ != "review.waived"@,
{
    reveal_strlit("reservation.created");
    reveal_strlit("reservation.settled");
    reveal_strlit("reservation.released");
    reveal_strlit("reservation.dispatched");
    reveal_strlit("reservation.unresolved");
    reveal_strlit("reservation.waived");
    reveal_strlit("review.submitted");
    reveal_strlit("review.settled");
    reveal_strlit("review.rejected");
    reveal_strlit("review.waived");
    reveal_strlit("ledger.posted");
    assert("ledger.posted"@[0] == 'l');
    assert("review.submitted"@[2] == 'v' && "review.settled"@[2] == 'v' && "review.rejected"@[2]
        == 'v' && "review.waived"@[2] == 'v');
    assert("reservation.created"@[2] == 's' && "reservation.settled"@[2] == 's'
        && "reservation.released"@[2] == 's' && "reservation.dispatched"@[2] == 's'
        && "reservation.unresolved"@[2] == 's' && "reservation.waived"@[2] == 's');
}

/// Jobs are claimed in batches of up to a hundred, under leases of up to a minute; a job with
/// nothing to do, or that somebody works on, is no fault.
pub proof fn law_claims_are_bounded(
    q: ClaimRequest,
    row: Option<JobRow>,
    last_sequence: Option<i64>,
    time: Timestamp,
)
    ensures
        !(0 < q.limit < 101 && 0 < q.lease_seconds < 61) ==> claim_fault(
            q,
            row,
            last_sequence,
            time,
        ) is Some,
        0 < q.limit < 101 && 0 < q.lease_seconds < 61 && (row is None || row->0.acknowledged
            >= row->0.target_sequence || row->0.available_at > time || row->0.state
            != JobState::Pending) ==> claim_fault(q, row, last_sequence, time) is None,
        0 < q.limit < 101 && 0 < q.lease_seconds < 61 && row is Some && last_sequence is Some
            && row->0.lease_epoch < i64::MAX ==> claim_fault(q, row, last_sequence, time) is None,
{
}

/// A batch whose events follow each other up to the end of the lease, each of them sound and
/// unchanged, is completed while the lease is held, up to a hundred events at once.
pub proof fn law_whole_batches_are_completed(
    row: JobRow,
    lease: Lease,
    events: Seq<SourceEvent>,
    time: Timestamp,
)
    requires
        0 < events.len() < 101,
        0 <= row.acknowledged,
        row.acknowledged + events.len() == lease.through_sequence,
        row.lease_until is Some && time < row.lease_until->0,
        forall|i: int|
            0 <= i < events.len() ==> (#[trigger] events[i]).sequence == row.acknowledged + i + 1
                && event_fault(events[i]) is None && (events[i].processed is None
                || events[i].processed->0@ == source_hash(events[i])),
    ensures
        completes(row, lease, events, time),
{
    assert forall|i: int| 0 <= i < events.len() implies #[trigger] batch_fault(
        row.acknowledged as int,
        events,
        i,
    ) is None by {
        assert(events[i].sequence == row.acknowledged + i + 1);
    }
}

/// Each event that was not processed before has one effect, under its own number and digest.
pub proof fn law_every_event_has_one_effect(
    effects: Seq<Effect>,
    events: Seq<SourceEvent>,
    i: int,
)
    requires
        effects_of(effects, events),
    ensures
        effects.len() == events.len(),
        0 <= i < events.len() ==> effects[i].sequence == events[i].sequence && effects[i].kind
            == events[i].kind && effects[i].payload_sha256@ == source_hash(events[i]),
{
}

/// An event of a reservation whose reservation is of the same account is sound, a review with
/// its review too, and a ledger event whose two to a hundred lines are of its account and
/// cancel out.
pub proof fn law_events_with_their_source_are_sound(e: SourceEvent)
    ensures
        (e.kind@ == "reservation.created"@ || e.kind@ == "reservation.settled"@ || e.kind@
            == "reservation.released"@ || e.kind@ == "reservation.dispatched"@ || e.kind@
            == "reservation.unresolved"@ || e.kind@ == "reservation.waived"@)
            && e.reservation_account is Some && e.reservation_account->0@ == e.billing_account_id@
            ==> event_fault(e) is None,
        (e.kind@ == "review.submitted"@ || e.kind@ == "review.settled"@ || e.kind@
            == "review.rejected"@ || e.kind@ == "review.waived"@) && e.review_found
            && e.reservation_account is Some && e.reservation_account->0@ == e.billing_account_id@
            ==> event_fault(e) is None,
        e.kind@ == "projection.rebuilt"@ ==> event_fault(e) is None,
        e.kind@ == "ledger.posted"@ && 2 <= e.lines@.len() <= 100 && line_total(e.lines@) == 0 && (
        forall|i: int|
            0 <= i < e.lines@.len() ==> (#[trigger] e.lines@[i]).billing_account_id@
                == e.billing_account_id@) ==> event_fault(e) is None,
{
    reveal_strlit("reservation.created");
    reveal_strlit("reservation.settled");
    reveal_strlit("reservation.released");
    reveal_strlit("reservation.dispatched");
    reveal_strlit("reservation.unresolved");
    reveal_strlit("reservation.waived");
    reveal_strlit("review.submitted");
    reveal_strlit("review.settled");
    reveal_strlit("review.rejected");
    reveal_strlit("review.waived");
    reveal_strlit("ledger.posted");
    reveal_strlit("projection.rebuilt");
    assert("ledger.posted"@[0] == 'l' && "projection.rebuilt"@[0] == 'p');
    assert("review.submitted"@[2] == 'v' && "review.settled"@[2] == 'v' && "review.rejected"@[2]
        == 'v' && "review.waived"@[2] == 'v');
    assert("reservation.created"@[2] == 's' && "reservation.settled"@[2] == 's'
        && "reservation.released"@[2] == 's' && "reservation.dispatched"@[2] == 's'
        && "reservation.unresolved"@[2] == 's' && "reservation.waived"@[2] == 's');
    assert("reservation.created"@[0] == 'r' && "review.submitted"@[0] == 'r'
        && "reservation.settled"@[0] == 'r' && "review.settled"@[0] == 'r'
        && "reservation.released"@[0] == 'r' && "review.rejected"@[0] == 'r'
        && "reservation.dispatched"@[0] == 'r' && "review.waived"@[0] == 'r'
        && "reservation.unresolved"@[0] == 'r' && "reservation.waived"@[0] == 'r');
}

/// A worker says why it failed by one of three codes.
pub proof fn law_failures_are_coded(s: Seq<char>)
    ensures
        failure_code(s) <==> s == "handler_failed"@ || s == "source_invalid"@ || s
            == "dependency_unavailable"@,
{
}

} // verus!
