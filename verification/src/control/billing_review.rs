//! Reviewed recovery of reservations whose usage is not known: settlement by
//! evidence, or a loss waiver that two people stand for. Nothing is released
//! because time has passed.
use crate::control::billing::{
    counters, identifier, identifier_text,
    law_settlements_of_sound_reservations_are_in_range, settle_fault, settle_in_range, settle_locked, settles,
    settles_in_range, unheld, Reservation, ReservationState, Settlement,
};
use crate::control::billing_projection::{
    change_hold, hold_fault, AccountBalance, KeyHold, MonthSpend,
};
use crate::control::error::{conflict, invalid, refused, Fault, ServiceError, ServiceResult};
use crate::control::ledger::{AccountRow, EntryIds, EventDraft, EventKind};
use crate::crypto::{fingerprint, fingerprint_text};
use crate::domain::billing::{same_settle, same_settle_view, SettleRequest};
use crate::domain::Timestamp;
use crate::json::{boolean, document_bytes, encode, integer, integer_json, json_of, text, Json, Record};
use crate::text::{blank, byte_len, bytes_of, is_blank, same};
use vstd::prelude::*;

verus! {

#[derive(Clone, Debug)]
pub struct EvidenceRequest {
    pub id: String,
    /// Names the provider or runtime that made the evidence, not a URL.
    pub source: String,
    pub source_request_id: String,
    /// The original usage receipt or log, bounded and never fetched.
    pub document: String,
    pub explanation: String,
    pub usage: SettleRequest,
}

#[derive(Clone, Debug)]
pub struct DecisionRequest {
    pub evidence_sha256: String,
    pub action: String,
    pub reason: String,
}

#[derive(Clone, Debug)]
pub struct WaiverRequest {
    pub id: String,
    pub reason: String,
    /// The identity of an incident, not a URL or an invented receipt.
    pub incident_reference: String,
    pub request_terminated: bool,
    pub platform_absorbs_loss: bool,
}

#[derive(Clone, Debug)]
pub struct ListRequest {
    pub after_id: Option<String>,
    pub limit: Option<u64>,
}

/// What a review is about.
#[derive(Clone, Debug)]
pub enum Evidence {
    Usage(EvidenceRequest),
    Waiver(WaiverRequest),
}

#[derive(Clone, Copy, Debug, PartialEq, Eq, Structural)]
pub enum ReviewState {
    Submitted,
    Rejected,
    Waived,
    Settled,
}

#[derive(Clone, Debug)]
pub struct ReviewRow {
    pub id: String,
    pub reservation_id: String,
    pub project_id: String,
    pub submitted_by: String,
    pub evidence: Evidence,
    pub evidence_sha256: String,
    pub state: ReviewState,
    pub reviewed_by: Option<String>,
    pub decision: Option<DecisionRequest>,
    pub created_at: Timestamp,
    pub updated_at: Timestamp,
}

/// One line of the trail of a review: the submission, then the decision.
#[derive(Clone, Debug)]
pub struct ReviewAudit {
    pub review_id: String,
    pub sequence: i32,
    pub kind: ReviewState,
    pub actor_id: String,
    pub subject: String,
    pub evidence_sha256: String,
    pub created_at: Timestamp,
}

pub open spec fn audit_of(
    row: ReviewRow,
    sequence: int,
    actor: Seq<char>,
    subject: Seq<char>,
    now: Timestamp,
    a: ReviewAudit,
) -> bool {
    &&& a.review_id == row.id
    &&& a.sequence == sequence
    &&& a.kind == row.state
    &&& a.actor_id@ == actor
    &&& a.subject@ == subject
    &&& a.evidence_sha256 == row.evidence_sha256
    &&& a.created_at == now
}

fn append_audit(
    row: &ReviewRow,
    sequence: i32,
    actor: &str,
    subject: &str,
    now: Timestamp,
) -> (r: ReviewAudit)
    ensures
        audit_of(*row, sequence as int, actor@, subject@, now, r),
{
    ReviewAudit {
        review_id: row.id.clone(),
        sequence,
        kind: row.state,
        actor_id: actor.to_owned(),
        subject: subject.to_owned(),
        evidence_sha256: row.evidence_sha256.clone(),
        created_at: now,
    }
}

pub open spec fn waiver_sound(q: WaiverRequest) -> bool {
    &&& identifier_text(q.id@)
    &&& identifier_text(q.incident_reference@)
    &&& !blank(q.reason@)
    &&& bytes_of(q.reason@).len() <= 2048
    &&& q.request_terminated
    &&& q.platform_absorbs_loss
}

pub open spec fn waiver_fault() -> Fault {
    Fault::Invalid(
        "loss waiver requires an incident, reason, terminated request and explicit platform loss acceptance"@,
    )
}

/// A waiver names an incident and says that the request has ended and that the
/// platform takes the loss.
pub fn validate_waiver(request: &WaiverRequest) -> (r: ServiceResult<()>)
    ensures
        refused(
            r,
            if waiver_sound(*request) {
                None
            } else {
                Some(waiver_fault())
            },
        ),
{
    if !identifier(request.id.as_str()) || !identifier(request.incident_reference.as_str())
        || is_blank(request.reason.as_str()) || byte_len(request.reason.as_str()) > 2048
        || !request.request_terminated || !request.platform_absorbs_loss {
        return Err(
            invalid(
                "loss waiver requires an incident, reason, terminated request and explicit platform loss acceptance",
            ),
        );
    }
    Ok(())
}

pub open spec fn evidence_sound(q: EvidenceRequest) -> bool {
    &&& identifier_text(q.id@)
    &&& identifier_text(q.source@)
    &&& identifier_text(q.source_request_id@)
    &&& !blank(q.document@)
    &&& bytes_of(q.document@).len() <= 65_536
    &&& !blank(q.explanation@)
    &&& bytes_of(q.explanation@).len() <= 2_048
    &&& q.usage.input_tokens >= 0
    &&& q.usage.output_tokens >= 0
    &&& q.usage.latency_ms >= 0
    &&& identifier_text(q.usage.endpoint_id@)
    &&& identifier_text(q.usage.region@)
    &&& q.usage.status@ == "succeeded"@ || q.usage.status@ == "cancelled"@ || q.usage.status@
        == "provider_error"@
}

pub open spec fn evidence_fault() -> Fault {
    Fault::Invalid("bounded original evidence, explanation and known final usage are required"@)
}

/// Evidence holds the original receipt and the final usage that it proves.
pub fn validate_evidence(request: &EvidenceRequest) -> (r: ServiceResult<()>)
    ensures
        refused(
            r,
            if evidence_sound(*request) {
                None
            } else {
                Some(evidence_fault())
            },
        ),
{
    let status = request.usage.status.as_str();
    if !identifier(request.id.as_str()) || !identifier(request.source.as_str()) || !identifier(
        request.source_request_id.as_str(),
    ) || is_blank(request.document.as_str()) || byte_len(request.document.as_str()) > 65_536
        || is_blank(request.explanation.as_str()) || byte_len(request.explanation.as_str()) > 2_048
        || request.usage.input_tokens < 0 || request.usage.output_tokens < 0
        || request.usage.latency_ms < 0 || !identifier(request.usage.endpoint_id.as_str())
        || !identifier(request.usage.region.as_str()) || !(same(status, "succeeded") || same(
        status,
        "cancelled",
    ) || same(status, "provider_error")) {
        return Err(
            invalid("bounded original evidence, explanation and known final usage are required"),
        );
    }
    Ok(())
}

pub open spec fn same_evidence_view(a: Evidence, b: Evidence) -> bool {
    match (a, b) {
        (Evidence::Usage(x), Evidence::Usage(y)) => {
            &&& x.id@ == y.id@
            &&& x.source@ == y.source@
            &&& x.source_request_id@ == y.source_request_id@
            &&& x.document@ == y.document@
            &&& x.explanation@ == y.explanation@
            &&& same_settle_view(x.usage, y.usage)
        },
        (Evidence::Waiver(x), Evidence::Waiver(y)) => {
            &&& x.id@ == y.id@
            &&& x.reason@ == y.reason@
            &&& x.incident_reference@ == y.incident_reference@
            &&& x.request_terminated == y.request_terminated
            &&& x.platform_absorbs_loss == y.platform_absorbs_loss
        },
        _ => false,
    }
}

fn same_evidence(a: &Evidence, b: &Evidence) -> (r: bool)
    ensures
        r == same_evidence_view(*a, *b),
{
    match (a, b) {
        (Evidence::Usage(x), Evidence::Usage(y)) => same(x.id.as_str(), y.id.as_str()) && same(
            x.source.as_str(),
            y.source.as_str(),
        ) && same(x.source_request_id.as_str(), y.source_request_id.as_str()) && same(
            x.document.as_str(),
            y.document.as_str(),
        ) && same(x.explanation.as_str(), y.explanation.as_str()) && same_settle(
            &x.usage,
            &y.usage,
        ),
        (Evidence::Waiver(x), Evidence::Waiver(y)) => same(x.id.as_str(), y.id.as_str()) && same(
            x.reason.as_str(),
            y.reason.as_str(),
        ) && same(x.incident_reference.as_str(), y.incident_reference.as_str())
            && x.request_terminated == y.request_terminated && x.platform_absorbs_loss
            == y.platform_absorbs_loss,
        _ => false,
    }
}

pub open spec fn same_decision_view(a: DecisionRequest, b: DecisionRequest) -> bool {
    a.evidence_sha256@ == b.evidence_sha256@ && a.action@ == b.action@ && a.reason@ == b.reason@
}

fn same_decision(a: &DecisionRequest, b: &DecisionRequest) -> (r: bool)
    ensures
        r == same_decision_view(*a, *b),
{
    same(a.evidence_sha256.as_str(), b.evidence_sha256.as_str()) && same(
        a.action.as_str(),
        b.action.as_str(),
    ) && same(a.reason.as_str(), b.reason.as_str())
}

/// The usage that evidence proves, as it is written.
pub open spec fn usage_json(q: SettleRequest) -> Json {
    Json::Object(
        map![
            "input_tokens"@ => integer_json(q.input_tokens as int),
            "output_tokens"@ => integer_json(q.output_tokens as int),
            "latency_ms"@ => integer_json(q.latency_ms as int),
            "endpoint_id"@ => Json::Text(q.endpoint_id@),
            "region"@ => Json::Text(q.region@),
            "status"@ => Json::Text(q.status@),
        ],
    )
}

/// What a review is about, as it is written. A waiver says that it is one.
pub open spec fn evidence_json(evidence: Evidence) -> Json {
    match evidence {
        Evidence::Usage(q) => Json::Object(
            map![
                "id"@ => Json::Text(q.id@),
                "source"@ => Json::Text(q.source@),
                "source_request_id"@ => Json::Text(q.source_request_id@),
                "document"@ => Json::Text(q.document@),
                "explanation"@ => Json::Text(q.explanation@),
                "usage"@ => usage_json(q.usage),
            ],
        ),
        Evidence::Waiver(q) => Json::Object(
            map![
                "id"@ => Json::Text(q.id@),
                "reason"@ => Json::Text(q.reason@),
                "incident_reference"@ => Json::Text(q.incident_reference@),
                "request_terminated"@ => Json::Bool(q.request_terminated),
                "platform_absorbs_loss"@ => Json::Bool(q.platform_absorbs_loss),
                "kind"@ => Json::Text("loss_waiver"@),
            ],
        ),
    }
}

/// A whole submission: what it is about, bound to its project and reservation.
pub open spec fn submission_json(
    project: Seq<char>,
    reservation_id: Seq<char>,
    evidence: Evidence,
) -> Json {
    Json::Object(
        map![
            "project"@ => Json::Text(project),
            "reservation"@ => Json::Text(reservation_id),
            "submission"@ => evidence_json(evidence),
        ],
    )
}

/// The fingerprint of a whole submission.
pub open spec fn submission_hash(
    project: Seq<char>,
    reservation_id: Seq<char>,
    evidence: Evidence,
) -> Seq<char> {
    fingerprint_text(document_bytes(submission_json(project, reservation_id, evidence))->0)
}

/// The fingerprint of a review is that of what was submitted, nothing that a caller says.
pub open spec fn evidence_bound(row: ReviewRow) -> bool {
    row.evidence_sha256@ == submission_hash(row.project_id@, row.reservation_id@, row.evidence)
}

fn write_usage(q: &SettleRequest) -> (r: serde_json::Value)
    ensures
        json_of(r) == usage_json(*q),
{
    Record::new().with("input_tokens", integer(q.input_tokens)).with(
        "output_tokens",
        integer(q.output_tokens),
    ).with("latency_ms", integer(q.latency_ms)).with(
        "endpoint_id",
        text(q.endpoint_id.as_str()),
    ).with("region", text(q.region.as_str())).with("status", text(q.status.as_str())).done()
}

/// Writes what a review is about.
pub fn write_evidence(evidence: &Evidence) -> (r: serde_json::Value)
    ensures
        json_of(r) == evidence_json(*evidence),
{
    match evidence {
        Evidence::Usage(q) => Record::new().with("id", text(q.id.as_str())).with(
            "source",
            text(q.source.as_str()),
        ).with("source_request_id", text(q.source_request_id.as_str())).with(
            "document",
            text(q.document.as_str()),
        ).with("explanation", text(q.explanation.as_str())).with(
            "usage",
            write_usage(&q.usage),
        ).done(),
        Evidence::Waiver(q) => Record::new().with("id", text(q.id.as_str())).with(
            "reason",
            text(q.reason.as_str()),
        ).with("incident_reference", text(q.incident_reference.as_str())).with(
            "request_terminated",
            boolean(q.request_terminated),
        ).with("platform_absorbs_loss", boolean(q.platform_absorbs_loss)).with(
            "kind",
            text("loss_waiver"),
        ).done(),
    }
}

/// Fingerprints a whole submission.
fn hash_submission(project: &str, reservation_id: &str, evidence: &Evidence) -> (r: String)
    ensures
        r@ == submission_hash(project@, reservation_id@, *evidence),
{
    let submission = Record::new().with("project", text(project)).with(
        "reservation",
        text(reservation_id),
    ).with("submission", write_evidence(evidence)).done();
    fingerprint(encode(&submission).unwrap().as_slice())
}

impl Evidence {
    pub open spec fn identity(self) -> String {
        match self {
            Evidence::Usage(q) => q.id,
            Evidence::Waiver(q) => q.id,
        }
    }

    /// What the review list shows as its kind.
    pub open spec fn label(self) -> Seq<char> {
        match self {
            Evidence::Usage(_) => "usage_evidence"@,
            Evidence::Waiver(_) => "loss_waiver"@,
        }
    }

    pub fn kind(&self) -> (r: &'static str)
        ensures
            r@ == self.label(),
    {
        match self {
            Evidence::Usage(_) => "usage_evidence",
            Evidence::Waiver(_) => "loss_waiver",
        }
    }

    fn id(&self) -> (r: String)
        ensures
            r == self.identity(),
    {
        match self {
            Evidence::Usage(q) => q.id.clone(),
            Evidence::Waiver(q) => q.id.clone(),
        }
    }
}

/// A review after a call. Without an event nothing was written: the call
/// repeated one that had been made before.
pub struct Submission {
    pub row: ReviewRow,
    pub audit: Option<ReviewAudit>,
    pub event: Option<EventDraft>,
}

/// The same person submitted the same evidence for the same reservation.
pub open spec fn same_submission(
    row: ReviewRow,
    project: Seq<char>,
    reservation_id: Seq<char>,
    actor: Seq<char>,
    evidence: Evidence,
) -> bool {
    &&& row.project_id@ == project
    &&& row.reservation_id@ == reservation_id
    &&& row.submitted_by@ == actor
    &&& same_evidence_view(row.evidence, evidence)
}

pub open spec fn submit_fault(
    account_found: bool,
    existing: Option<ReviewRow>,
    held: Option<ReservationState>,
    project: Seq<char>,
    reservation_id: Seq<char>,
    actor: Seq<char>,
    evidence: Evidence,
) -> Option<Fault> {
    if evidence matches Evidence::Usage(q) && !evidence_sound(q) {
        Some(evidence_fault())
    } else if evidence matches Evidence::Waiver(q) && !waiver_sound(q) {
        Some(waiver_fault())
    } else if !account_found {
        Some(Fault::NotFound)
    } else if existing is Some {
        if same_submission(existing->0, project, reservation_id, actor, evidence) {
            None
        } else {
            Some(Fault::Conflict("evidence ID is bound to a different submission"@))
        }
    } else if held is None {
        Some(Fault::NotFound)
    } else if held->0 != ReservationState::Dispatched && !(evidence is Waiver && held->0
        == ReservationState::Reserved) {
        Some(
            Fault::Conflict(
                "review requires a pending reservation (usage evidence requires dispatched)"@,
            ),
        )
    } else {
        None
    }
}

/// Submits evidence or a waiver for review. `held` is the state of the
/// reservation. The whole submission is fingerprinted, with the project and the
/// reservation that it is bound to.
pub fn submit_review(
    project: &str,
    reservation_id: &str,
    actor: &str,
    subject: &str,
    evidence: Evidence,
    account_found: bool,
    existing: Option<ReviewRow>,
    held: Option<ReservationState>,
    now: Timestamp,
) -> (r: ServiceResult<Submission>)
    ensures
        refused(
            r,
            submit_fault(
                account_found,
                existing,
                held,
                project@,
                reservation_id@,
                actor@,
                evidence,
            ),
        ),
        r matches Ok(s) ==> existing is Some ==> s.row == existing->0 && s.audit is None
            && s.event is None,
        r matches Ok(s) ==> existing is None ==> {
            &&& s.row.id == evidence.identity()
            &&& s.row.reservation_id@ == reservation_id@
            &&& s.row.project_id@ == project@
            &&& s.row.submitted_by@ == actor@
            &&& s.row.evidence == evidence
            &&& s.row.evidence_sha256@ == submission_hash(project@, reservation_id@, evidence)
            &&& evidence_bound(s.row)
            &&& s.row.state == ReviewState::Submitted
            &&& s.row.reviewed_by is None
            &&& s.row.decision is None
            &&& s.row.created_at == now
            &&& s.row.updated_at == now
            &&& s.audit matches Some(a) && audit_of(s.row, 1, actor@, subject@, now, a)
            &&& s.event matches Some(e) && e.aggregate_id == s.row.id && (e.kind matches
                EventKind::ReviewSubmitted {
                reservation_id: reserved,
                actor_id,
                evidence_sha256,
            } && reserved@ == reservation_id@ && actor_id@ == actor@ && evidence_sha256
                == s.row.evidence_sha256)
        },
{
    match &evidence {
        Evidence::Usage(q) => validate_evidence(q)?,
        Evidence::Waiver(q) => validate_waiver(q)?,
    }
    if !account_found {
        return Err(ServiceError::NotFound);
    }
    if let Some(existing) = existing {
        if !same(existing.project_id.as_str(), project) || !same(
            existing.reservation_id.as_str(),
            reservation_id,
        ) || !same(existing.submitted_by.as_str(), actor) || !same_evidence(
            &existing.evidence,
            &evidence,
        ) {
            return Err(conflict("evidence ID is bound to a different submission"));
        }
        return Ok(Submission { row: existing, audit: None, event: None });
    }
    let state = match held {
        Some(state) => state,
        None => return Err(ServiceError::NotFound),
    };
    let waiver = match &evidence {
        Evidence::Waiver(_) => true,
        Evidence::Usage(_) => false,
    };
    if state != ReservationState::Dispatched && !(waiver && state == ReservationState::Reserved) {
        return Err(
            conflict("review requires a pending reservation (usage evidence requires dispatched)"),
        );
    }
    let hash = hash_submission(project, reservation_id, &evidence);
    let id = evidence.id();
    let event = EventDraft {
        kind: EventKind::ReviewSubmitted {
            reservation_id: reservation_id.to_owned(),
            actor_id: actor.to_owned(),
            evidence_sha256: hash.clone(),
        },
        aggregate_id: id.clone(),
    };
    let row = ReviewRow {
        id,
        reservation_id: reservation_id.to_owned(),
        project_id: project.to_owned(),
        submitted_by: actor.to_owned(),
        evidence,
        evidence_sha256: hash,
        state: ReviewState::Submitted,
        reviewed_by: None,
        decision: None,
        created_at: now,
        updated_at: now,
    };
    let audit = append_audit(&row, 1, actor, subject, now);
    Ok(Submission { row, audit: Some(audit), event: Some(event) })
}

/// The limit of a page of reviews, where the request is sound.
pub fn billing_reviews(request: &ListRequest) -> (r: ServiceResult<u64>)
    ensures
        ({
            let limit: u64 = match request.limit {
                Some(n) => n,
                None => 20,
            };
            &&& refused(
                r,
                if !(1 <= limit <= 100) || (request.after_id matches Some(id) && !identifier_text(
                    id@,
                )) {
                    Some(Fault::Invalid("invalid review cursor or limit"@))
                } else {
                    None
                },
            )
            &&& r matches Ok(n) ==> n == limit
        }),
{
    let limit = request.limit.unwrap_or(20);
    let bad_id = match &request.after_id {
        Some(id) => !identifier(id.as_str()),
        None => false,
    };
    if limit < 1 || limit > 100 || bad_id {
        return Err(invalid("invalid review cursor or limit"));
    }
    Ok(limit)
}

/// Cuts fetched reviews down to a page. `rows` holds up to one row more than
/// the limit; the cursor of the next page is the last row that stays.
pub fn review_page(rows: &mut Vec<ReviewRow>, limit: u64) -> (r: Option<String>)
    requires
        limit >= 1,
        old(rows)@.len() <= limit + 1,
    ensures
        final(rows)@ == if old(rows)@.len() > limit {
            old(rows)@.drop_last()
        } else {
            old(rows)@
        },
        r == if old(rows)@.len() > limit {
            Some(final(rows)@.last().id)
        } else {
            None
        },
{
    if rows.len() as u64 > limit {
        let ghost before = rows@;
        let _ = rows.pop();
        assert(rows@ =~= before.drop_last());
        Some(rows[rows.len() - 1].id.clone())
    } else {
        None
    }
}

pub open spec fn hex_byte(b: u8) -> bool {
    0x30 <= b <= 0x39 || 0x41 <= b <= 0x46 || 0x61 <= b <= 0x66
}

pub open spec fn digest_text(s: Seq<char>) -> bool {
    &&& bytes_of(s).len() == 64
    &&& forall|i: int| 0 <= i < bytes_of(s).len() ==> hex_byte(#[trigger] bytes_of(s)[i])
}

pub(crate) fn is_digest(s: &str) -> (r: bool)
    ensures
        r == digest_text(s@),
{
    let bytes = s.as_bytes();
    if bytes.len() != 64 {
        return false;
    }
    let mut i: usize = 0;
    while i < bytes.len()
        invariant
            i <= bytes.len(),
            bytes@ == bytes_of(s@),
            forall|j: int| 0 <= j < i ==> hex_byte(#[trigger] bytes@[j]),
        decreases bytes.len() - i,
    {
        let b = bytes[i];
        if !((0x30 <= b && b <= 0x39) || (0x41 <= b && b <= 0x46) || (0x61 <= b && b <= 0x66)) {
            assert(!hex_byte(bytes_of(s@)[i as int]));
            return false;
        }
        i += 1;
    }
    true
}

pub open spec fn decision_sound(q: DecisionRequest) -> bool {
    &&& q.action@ == "approve"@ || q.action@ == "reject"@
    &&& !blank(q.reason@)
    &&& bytes_of(q.reason@).len() <= 2_048
    &&& digest_text(q.evidence_sha256@)
}

/// What a decision writes. Nothing but the review is there when the call
/// repeated one that had been made before.
pub struct Decided {
    pub row: ReviewRow,
    pub audit: Option<ReviewAudit>,
    pub settlement: Option<Settlement>,
    pub waived: Option<Reservation>,
    /// What happened to the reservation, then the decision itself.
    pub waiver_event: Option<EventDraft>,
    pub event: Option<EventDraft>,
}

/// A decision on this review was made before, by the same person and with the
/// same words.
pub open spec fn repeated_decision(row: ReviewRow, actor: Seq<char>, q: DecisionRequest) -> bool {
    &&& row.reviewed_by matches Some(by) && by@ == actor
    &&& row.decision matches Some(prior) && same_decision_view(prior, q)
}

/// Money and counters that an approval touches.
pub struct ReviewMoney {
    pub account: AccountRow,
    pub held: Option<Reservation>,
    pub balance: AccountBalance,
    pub hold: KeyHold,
    pub spend: MonthSpend,
}

pub open spec fn approval_fault(row: ReviewRow, m: ReviewMoney, now: Timestamp) -> Option<Fault> {
    match m.held {
        None => Some(Fault::NotFound),
        Some(held) => match row.evidence {
            Evidence::Waiver(_) => if !held.pending() {
                Some(Fault::Conflict("only pending reservations can be waived"@))
            } else {
                hold_fault(m.balance, m.hold, -held.reserved_microunits)
            },
            Evidence::Usage(q) => settle_fault(
                m.account,
                held,
                q.usage,
                m.balance,
                m.hold,
                m.spend,
                now,
            ),
        },
    }
}

pub open spec fn decision_fault(
    row: Option<ReviewRow>,
    actor: Seq<char>,
    q: DecisionRequest,
    m: ReviewMoney,
    now: Timestamp,
) -> Option<Fault> {
    if !decision_sound(q) {
        Some(Fault::Invalid("decision requires action, exact evidence SHA-256 and reason"@))
    } else if row is None {
        Some(Fault::NotFound)
    } else if row->0.submitted_by@ == actor {
        Some(Fault::Forbidden)
    } else if row->0.evidence_sha256@ != q.evidence_sha256@ {
        Some(Fault::Conflict("reviewed evidence SHA-256 changed"@))
    } else if row->0.state != ReviewState::Submitted {
        if repeated_decision(row->0, actor, q) {
            None
        } else {
            Some(Fault::Conflict("review already decided with another payload/actor"@))
        }
    } else if q.action@ == "approve"@ {
        approval_fault(row->0, m, now)
    } else {
        None
    }
}

/// The state that a decision leads to.
pub open spec fn decided_state(row: ReviewRow, q: DecisionRequest) -> ReviewState {
    if q.action@ != "approve"@ {
        ReviewState::Rejected
    } else {
        match row.evidence {
            Evidence::Waiver(_) => ReviewState::Waived,
            Evidence::Usage(_) => ReviewState::Settled,
        }
    }
}

pub open spec fn decision_event(row: ReviewRow, q: DecisionRequest, actor: Seq<char>, e: EventDraft) -> bool {
    &&& e.aggregate_id == row.id
    &&& match e.kind {
        EventKind::ReviewRejected { reservation_id, actor_id, evidence_sha256 } => decided_state(
            row,
            q,
        ) == ReviewState::Rejected && reservation_id == row.reservation_id && actor_id@ == actor
            && evidence_sha256 == row.evidence_sha256,
        EventKind::ReviewWaived { reservation_id, actor_id, evidence_sha256 } => decided_state(
            row,
            q,
        ) == ReviewState::Waived && reservation_id == row.reservation_id && actor_id@ == actor
            && evidence_sha256 == row.evidence_sha256,
        EventKind::ReviewSettled { reservation_id, actor_id, evidence_sha256 } => decided_state(
            row,
            q,
        ) == ReviewState::Settled && reservation_id == row.reservation_id && actor_id@ == actor
            && evidence_sha256 == row.evidence_sha256,
        _ => false,
    }
}

/// The decision is one that moves money: an approval of what is still open, by somebody
/// else and of just this evidence.
pub open spec fn approves(row: Option<ReviewRow>, actor: Seq<char>, q: DecisionRequest) -> bool {
    &&& decision_sound(q)
    &&& row matches Some(review) && review.submitted_by@ != actor && review.evidence_sha256@
        == q.evidence_sha256@ && review.state == ReviewState::Submitted
    &&& q.action@ == "approve"@
}

/// The amounts that an approval moves stay in range. Nothing is asked of any other
/// decision.
pub open spec fn decision_in_range(
    row: Option<ReviewRow>,
    actor: Seq<char>,
    q: DecisionRequest,
    m: ReviewMoney,
) -> bool {
    approves(row, actor, q) && m.held is Some ==> match row->0.evidence {
        Evidence::Waiver(_) => m.held->0.pending() ==> m.held->0.reserved_microunits != i64::MIN,
        Evidence::Usage(e) => settle_in_range(m.held->0, e.usage, m.balance, m.hold),
    }
}

fn is_decision_sound(q: &DecisionRequest) -> (r: bool)
    ensures
        r == decision_sound(*q),
{
    (same(q.action.as_str(), "approve") || same(q.action.as_str(), "reject")) && !is_blank(
        q.reason.as_str(),
    ) && byte_len(q.reason.as_str()) <= 2_048 && is_digest(q.evidence_sha256.as_str())
}

/// Whether the amounts that a decision moves stay in range.
pub fn decides_in_range(
    row: &Option<ReviewRow>,
    actor: &str,
    request: &DecisionRequest,
    money: &ReviewMoney,
) -> (r: bool)
    ensures
        r == decision_in_range(*row, actor@, *request, *money),
{
    let review = match row {
        Some(review) => review,
        None => return true,
    };
    if !is_decision_sound(request) || same(review.submitted_by.as_str(), actor) || !same(
        review.evidence_sha256.as_str(),
        request.evidence_sha256.as_str(),
    ) || review.state != ReviewState::Submitted || !same(request.action.as_str(), "approve") {
        return true;
    }
    match &money.held {
        Some(held) => match &review.evidence {
            Evidence::Waiver(_) => (held.state != ReservationState::Reserved && held.state
                != ReservationState::Dispatched) || held.reserved_microunits != i64::MIN,
            Evidence::Usage(e) => settles_in_range(held, &e.usage, &money.balance, &money.hold),
        },
        None => true,
    }
}

/// What a waiver leaves of the money: the hold of the reservation is free again, and
/// nothing is spent.
pub open spec fn waived_money(m: ReviewMoney, now: Timestamp, after: ReviewMoney) -> bool {
    let held = m.held->0;
    &&& after.balance == unheld(m.balance, held.reserved_microunits as int, now)
    &&& after.hold == (KeyHold {
        held_microunits: (m.hold.held_microunits - held.reserved_microunits) as i64,
        updated_at: now,
        ..m.hold
    })
    &&& after.spend == m.spend
}

/// What an accepted decision comes to. One that was made before comes to nothing.
pub open spec fn decides(
    review: ReviewRow,
    actor: Seq<char>,
    subject: Seq<char>,
    q: DecisionRequest,
    ids: EntryIds,
    now: Timestamp,
    m: ReviewMoney,
    d: Decided,
    after: ReviewMoney,
) -> bool {
    let approved = q.action@ == "approve"@;
    let held = m.held->0;
    if review.state != ReviewState::Submitted {
        &&& d.row == review
        &&& d.audit is None
        &&& d.settlement is None
        &&& d.waived is None
        &&& d.waiver_event is None
        &&& d.event is None
        &&& after == m
    } else {
        &&& d.row.reviewed_by matches Some(by) && by@ == actor
        &&& d.row == (ReviewRow {
            state: decided_state(review, q),
            reviewed_by: d.row.reviewed_by,
            decision: Some(q),
            updated_at: now,
            ..review
        })
        &&& d.audit matches Some(a) && audit_of(d.row, 2, actor, subject, now, a)
        &&& d.event matches Some(e) && decision_event(review, q, actor, e)
        &&& d.waived is Some <==> approved && review.evidence is Waiver
        &&& d.settlement is Some <==> approved && review.evidence is Usage
        &&& d.waiver_event is Some <==> d.waived is Some
        &&& !approved ==> after == m
        &&& d.waived matches Some(next) ==> {
            &&& next == (Reservation { state: ReservationState::Waived, updated_at: now, ..held })
            &&& d.waiver_event->0.aggregate_id == held.id
            &&& d.waiver_event->0.kind matches EventKind::ReservationWaived {
                review_id,
                actor_id,
                evidence_sha256,
            } && review_id == review.id && actor_id@ == actor && evidence_sha256
                == review.evidence_sha256
            &&& waived_money(m, now, after)
        }
        &&& d.settlement matches Some(s) ==> settles(
            m.account,
            held,
            review.evidence->Usage_0.usage,
            ids,
            now,
            counters(m.balance, m.hold, m.spend),
            s,
            counters(after.balance, after.hold, after.spend),
        )
    }
}

/// Decides a review. Whoever submitted the evidence cannot decide on it, and
/// the decision names the evidence by its fingerprint. A waiver keeps the cost
/// unknown: it is neither a settlement at zero nor a credit.
pub fn decide_billing_review(
    row: Option<ReviewRow>,
    actor: &str,
    subject: &str,
    request: DecisionRequest,
    money: &mut ReviewMoney,
    ids: &EntryIds,
    now: Timestamp,
) -> (r: ServiceResult<Decided>)
    requires
        decision_in_range(row, actor@, request, *old(money)),
    ensures
        refused(r, decision_fault(row, actor@, request, *old(money), now)),
        final(money).account == old(money).account,
        final(money).held == old(money).held,
        r is Err ==> *final(money) == *old(money),
        r matches Ok(d) ==> decides(
            row->0,
            actor@,
            subject@,
            request,
            *ids,
            now,
            *old(money),
            d,
            *final(money),
        ),
{
    if !is_decision_sound(&request) {
        return Err(invalid("decision requires action, exact evidence SHA-256 and reason"));
    }
    let review = match row {
        Some(row) => row,
        None => return Err(ServiceError::NotFound),
    };
    if same(review.submitted_by.as_str(), actor) {
        return Err(ServiceError::Forbidden);
    }
    if !same(review.evidence_sha256.as_str(), request.evidence_sha256.as_str()) {
        return Err(conflict("reviewed evidence SHA-256 changed"));
    }
    if review.state != ReviewState::Submitted {
        let by_actor = match &review.reviewed_by {
            Some(by) => same(by.as_str(), actor),
            None => false,
        };
        let same_words = match &review.decision {
            Some(prior) => same_decision(prior, &request),
            None => false,
        };
        if !by_actor || !same_words {
            return Err(conflict("review already decided with another payload/actor"));
        }
        return Ok(
            Decided {
                row: review,
                audit: None,
                settlement: None,
                waived: None,
                waiver_event: None,
                event: None,
            },
        );
    }
    let approve = same(request.action.as_str(), "approve");
    let mut settlement: Option<Settlement> = None;
    let mut waived: Option<Reservation> = None;
    let mut waiver_event: Option<EventDraft> = None;
    let mut state = ReviewState::Rejected;
    if approve {
        let held = match &money.held {
            Some(held) => held.copy(),
            None => return Err(ServiceError::NotFound),
        };
        match &review.evidence {
            Evidence::Waiver(_) => {
                if held.state != ReservationState::Reserved && held.state
                    != ReservationState::Dispatched {
                    return Err(conflict("only pending reservations can be waived"));
                }
                change_hold(
                    &mut money.balance,
                    &mut money.hold,
                    -held.reserved_microunits,
                    now,
                )?;
                waiver_event = Some(
                    EventDraft {
                        kind: EventKind::ReservationWaived {
                            review_id: review.id.clone(),
                            actor_id: actor.to_owned(),
                            evidence_sha256: review.evidence_sha256.clone(),
                        },
                        aggregate_id: held.id.clone(),
                    },
                );
                waived = Some(
                    Reservation { state: ReservationState::Waived, updated_at: now, ..held },
                );
                state = ReviewState::Waived;
            },
            Evidence::Usage(q) => {
                let usage = q.usage.copy();
                let done = settle_locked(
                    &money.account,
                    held,
                    usage,
                    &mut money.balance,
                    &mut money.hold,
                    &mut money.spend,
                    ids,
                    now,
                )?;
                settlement = Some(done);
                state = ReviewState::Settled;
            },
        }
    }
    let reservation_id = review.reservation_id.clone();
    let actor_id = actor.to_owned();
    let evidence_sha256 = review.evidence_sha256.clone();
    let kind = match state {
        ReviewState::Waived => EventKind::ReviewWaived {
            reservation_id,
            actor_id,
            evidence_sha256,
        },
        ReviewState::Settled => EventKind::ReviewSettled {
            reservation_id,
            actor_id,
            evidence_sha256,
        },
        _ => EventKind::ReviewRejected { reservation_id, actor_id, evidence_sha256 },
    };
    let event = EventDraft { kind, aggregate_id: review.id.clone() };
    let row = ReviewRow {
        state,
        reviewed_by: Some(actor.to_owned()),
        decision: Some(request),
        updated_at: now,
        ..review
    };
    let audit = append_audit(&row, 2, actor, subject, now);
    Ok(
        Decided {
            row,
            audit: Some(audit),
            settlement,
            waived,
            waiver_event,
            event: Some(event),
        },
    )
}

/// Nobody decides on what they submitted themselves, whatever they decide.
pub proof fn law_reviews_take_two_people(
    row: ReviewRow,
    q: DecisionRequest,
    m: ReviewMoney,
    now: Timestamp,
)
    ensures
        decision_fault(Some(row), row.submitted_by@, q, m, now) == Some(
            if decision_sound(q) {
                Fault::Forbidden
            } else {
                Fault::Invalid("decision requires action, exact evidence SHA-256 and reason"@)
            },
        ),
{
}

/// Every decision on a well-formed reservation stays in range, as long as what was held
/// for it can be rounded up to whole minor units.
pub proof fn law_decisions_on_sound_reservations_are_in_range(
    row: Option<ReviewRow>,
    actor: Seq<char>,
    q: DecisionRequest,
    m: ReviewMoney,
)
    requires
        m.held matches Some(held) ==> held.well_formed() && held.reserved_microunits <= i64::MAX
            - 999_999,
    ensures
        decision_in_range(row, actor, q, m),
{
    if approves(row, actor, q) && m.held is Some {
        if let Evidence::Usage(e) = row->0.evidence {
            law_settlements_of_sound_reservations_are_in_range(
                m.held->0,
                e.usage,
                m.balance,
                m.hold,
            );
        }
    }
}

/// A sound decision on evidence that has changed since is refused as a conflict.
pub proof fn law_decisions_are_on_the_evidence_that_is_there(
    row: ReviewRow,
    actor: Seq<char>,
    q: DecisionRequest,
    m: ReviewMoney,
    now: Timestamp,
)
    requires
        decision_sound(q),
        row.submitted_by@ != actor,
        row.evidence_sha256@ != q.evidence_sha256@,
    ensures
        decision_fault(Some(row), actor, q, m, now) == Some(
            Fault::Conflict("reviewed evidence SHA-256 changed"@),
        ),
{
}

/// Whoever decides names what was submitted, the project and the reservation: the
/// fingerprint of a decision that is accepted is that of the whole submission, and the
/// decided review keeps it.
pub proof fn law_decisions_name_the_whole_submission(
    review: ReviewRow,
    actor: Seq<char>,
    subject: Seq<char>,
    q: DecisionRequest,
    ids: EntryIds,
    now: Timestamp,
    m: ReviewMoney,
    d: Decided,
    after: ReviewMoney,
)
    requires
        evidence_bound(review),
        decision_fault(Some(review), actor, q, m, now) is None,
        decides(review, actor, subject, q, ids, now, m, d, after),
    ensures
        q.evidence_sha256@ == submission_hash(
            review.project_id@,
            review.reservation_id@,
            review.evidence,
        ),
        evidence_bound(d.row),
        d.row.evidence == review.evidence,
{
}

/// A decision on another submission than the one that is there is refused, unless both
/// have one fingerprint.
pub proof fn law_other_submissions_are_not_decided(
    review: ReviewRow,
    actor: Seq<char>,
    q: DecisionRequest,
    m: ReviewMoney,
    now: Timestamp,
    project: Seq<char>,
    reservation_id: Seq<char>,
    evidence: Evidence,
)
    requires
        evidence_bound(review),
        q.evidence_sha256@ == submission_hash(project, reservation_id, evidence),
        submission_hash(project, reservation_id, evidence) != submission_hash(
            review.project_id@,
            review.reservation_id@,
            review.evidence,
        ),
    ensures
        decision_fault(Some(review), actor, q, m, now) is Some,
{
}

/// A rejection moves no money and leaves the reservation as it is, with its hold.
pub proof fn law_rejections_keep_the_hold(
    review: ReviewRow,
    actor: Seq<char>,
    subject: Seq<char>,
    q: DecisionRequest,
    ids: EntryIds,
    now: Timestamp,
    m: ReviewMoney,
    d: Decided,
    after: ReviewMoney,
)
    requires
        q.action@ == "reject"@,
        decides(review, actor, subject, q, ids, now, m, d, after),
    ensures
        after == m,
        d.settlement is None,
        d.waived is None,
{
    reveal_strlit("approve");
    reveal_strlit("reject");
    assert("approve"@[0] == 'a' && "reject"@[0] == 'r');
}

/// An approved waiver gives back exactly what was held. It is neither a settlement
/// at zero nor a credit: nothing is charged, and the cost stays unknown.
pub proof fn law_waivers_free_the_hold_and_charge_nothing(
    review: ReviewRow,
    actor: Seq<char>,
    subject: Seq<char>,
    q: DecisionRequest,
    ids: EntryIds,
    now: Timestamp,
    m: ReviewMoney,
    d: Decided,
    after: ReviewMoney,
)
    requires
        review.state == ReviewState::Submitted,
        review.evidence is Waiver,
        q.action@ == "approve"@,
        decision_fault(Some(review), actor, q, m, now) is None,
        decides(review, actor, subject, q, ids, now, m, d, after),
    ensures
        m.held->0.pending(),
        after.balance.held_microunits == m.balance.held_microunits - m.held->0.reserved_microunits,
        after.hold.held_microunits == m.hold.held_microunits - m.held->0.reserved_microunits,
        after.balance.balance_microunits == m.balance.balance_microunits,
        after.spend == m.spend,
        d.settlement is None,
        d.waived matches Some(next) && next.state == ReservationState::Waived
            && next.settled_microunits == m.held->0.settled_microunits,
{
}

/// A review is decided once: the one who decided it may say the same again, which
/// changes nothing, and every other decision is refused.
pub proof fn law_reviews_are_decided_once(
    review: ReviewRow,
    actor: Seq<char>,
    subject: Seq<char>,
    q: DecisionRequest,
    ids: EntryIds,
    now: Timestamp,
    m: ReviewMoney,
    d: Decided,
    after: ReviewMoney,
    by: Seq<char>,
    again: DecisionRequest,
    later: Timestamp,
    start: ReviewMoney,
    repeat: Decided,
    end: ReviewMoney,
)
    requires
        review.state == ReviewState::Submitted,
        decision_fault(Some(review), actor, q, m, now) is None,
        decides(review, actor, subject, q, ids, now, m, d, after),
    ensures
        decision_fault(Some(d.row), by, again, start, later) is None <==> by == actor
            && same_decision_view(q, again),
        decides(d.row, by, subject, again, ids, later, start, repeat, end) ==> {
            &&& end == start
            &&& repeat.row == d.row
            &&& repeat.settlement is None
            &&& repeat.waived is None
            &&& repeat.event is None
        },
{
}

/// Evidence is taken for a request that was sent, and a waiver also for one whose money is
/// only held; nothing is taken for a request that has ended. Evidence that was submitted is
/// given back to whoever submits the very same again, and to nobody else.
pub proof fn law_reviews_are_of_pending_requests(
    existing: Option<ReviewRow>,
    held: Option<ReservationState>,
    project: Seq<char>,
    reservation_id: Seq<char>,
    actor: Seq<char>,
    evidence: Evidence,
)
    requires
        submit_fault(true, existing, held, project, reservation_id, actor, evidence) is None,
    ensures
        existing is None ==> held == Some(ReservationState::Dispatched) || (evidence is Waiver
            && held == Some(ReservationState::Reserved)),
        existing is Some ==> {
            &&& existing->0.project_id@ == project
            &&& existing->0.reservation_id@ == reservation_id
            &&& existing->0.submitted_by@ == actor
            &&& existing->0.evidence is Usage <==> evidence is Usage
        },
        existing is Some && evidence is Usage ==> {
            let prior = existing->0.evidence->Usage_0;
            let q = evidence->Usage_0;
            &&& prior.document@ == q.document@
            &&& prior.explanation@ == q.explanation@
            &&& prior.source@ == q.source@
            &&& prior.source_request_id@ == q.source_request_id@
            &&& prior.usage.input_tokens == q.usage.input_tokens
            &&& prior.usage.output_tokens == q.usage.output_tokens
            &&& prior.usage.latency_ms == q.usage.latency_ms
            &&& prior.usage.status@ == q.usage.status@
        },
        existing is Some && evidence is Waiver ==> {
            let prior = existing->0.evidence->Waiver_0;
            let q = evidence->Waiver_0;
            &&& prior.reason@ == q.reason@
            &&& prior.incident_reference@ == q.incident_reference@
        },
{
}

/// A waiver names an incident and a reason, and says outright that the request has ended and
/// that the platform bears the loss; usage evidence holds a bounded document and usage that
/// is known and final.
pub proof fn law_submissions_are_explicit(
    existing: Option<ReviewRow>,
    held: Option<ReservationState>,
    project: Seq<char>,
    reservation_id: Seq<char>,
    actor: Seq<char>,
    evidence: Evidence,
)
    requires
        submit_fault(true, existing, held, project, reservation_id, actor, evidence) is None,
    ensures
        evidence is Waiver ==> {
            let q = evidence->Waiver_0;
            &&& q.request_terminated
            &&& q.platform_absorbs_loss
            &&& !blank(q.reason@)
            &&& bytes_of(q.reason@).len() < 2049
        },
        evidence is Usage ==> {
            let q = evidence->Usage_0;
            &&& !blank(q.document@)
            &&& bytes_of(q.document@).len() < 65_537
            &&& !blank(q.explanation@)
            &&& bytes_of(q.explanation@).len() < 2049
            &&& q.usage.input_tokens >= 0 && q.usage.output_tokens >= 0 && q.usage.latency_ms >= 0
            &&& q.usage.status@ == "succeeded"@ || q.usage.status@ == "cancelled"@
                || q.usage.status@ == "provider_error"@
        },
{
}

/// Approved usage evidence settles its request with the usage that was submitted: the cost is
/// charged, what was held is free again, and the review is settled.
pub proof fn law_approved_evidence_settles_the_request(
    review: ReviewRow,
    actor: Seq<char>,
    subject: Seq<char>,
    q: DecisionRequest,
    ids: EntryIds,
    now: Timestamp,
    m: ReviewMoney,
    d: Decided,
    after: ReviewMoney,
)
    requires
        review.state == ReviewState::Submitted,
        review.evidence is Usage,
        q.action@ == "approve"@,
        m.held is Some,
        m.held->0.well_formed(),
        m.held->0.state == ReservationState::Dispatched,
        decision_fault(Some(review), actor, q, m, now) is None,
        decides(review, actor, subject, q, ids, now, m, d, after),
    ensures
        ({
            let usage = review.evidence->Usage_0.usage;
            let held = m.held->0;
            let cost = usage.input_tokens * held.price.input_per_million_tokens.amount
                + usage.output_tokens * held.price.output_per_million_tokens.amount;
            &&& d.row.state == ReviewState::Settled
            &&& d.settlement is Some
            &&& d.settlement->0.row.state == ReservationState::Settled
            &&& d.waived is None
            &&& after.balance.balance_microunits == m.balance.balance_microunits - cost
            &&& after.balance.held_microunits == m.balance.held_microunits
                - held.reserved_microunits
            &&& after.hold.held_microunits == m.hold.held_microunits - held.reserved_microunits
            &&& after.spend.spent_microunits == m.spend.spent_microunits + cost
        }),
{
    crate::control::billing::law_settlements_charge_the_cost_and_free_the_hold(
        m.account,
        m.held->0,
        review.evidence->Usage_0.usage,
        ids,
        now,
        counters(m.balance, m.hold, m.spend),
        d.settlement->0,
        counters(after.balance, after.hold, after.spend),
    );
}

/// A decision approves or rejects, for a reason, and names the digest of the evidence in full;
/// what was decided is written down with whoever decided it.
pub proof fn law_decisions_are_explicit_and_signed(
    review: ReviewRow,
    actor: Seq<char>,
    subject: Seq<char>,
    q: DecisionRequest,
    ids: EntryIds,
    now: Timestamp,
    m: ReviewMoney,
    d: Decided,
    after: ReviewMoney,
)
    requires
        review.state == ReviewState::Submitted,
        decision_fault(Some(review), actor, q, m, now) is None,
        decides(review, actor, subject, q, ids, now, m, d, after),
    ensures
        q.action@ == "approve"@ || q.action@ == "reject"@,
        !blank(q.reason@),
        bytes_of(q.reason@).len() < 2049,
        bytes_of(q.evidence_sha256@).len() == 64,
        actor != review.submitted_by@,
        d.row.reviewed_by is Some && d.row.reviewed_by->0@ == actor,
        d.row.submitted_by == review.submitted_by,
        d.row.decision == Some(q),
        q.action@ == "reject"@ <==> d.row.state == ReviewState::Rejected,
        q.action@ == "approve"@ && review.evidence is Waiver <==> d.row.state
            == ReviewState::Waived,
        q.action@ == "approve"@ && review.evidence is Usage <==> d.row.state
            == ReviewState::Settled,
        d.audit is Some && d.audit->0.actor_id@ == actor && d.audit->0.sequence == 2
            && d.audit->0.kind == d.row.state,
{
    reveal_strlit("approve");
    reveal_strlit("reject");
    assert("approve"@.len() != "reject"@.len());
}

/// Two submissions are one exactly if they are of one kind and say the same in every word.
pub proof fn law_submissions_are_compared_in_whole(a: Evidence, b: Evidence)
    ensures
        a == b ==> same_evidence_view(a, b),
        same_evidence_view(a, b) ==> (a is Usage <==> b is Usage),
        same_evidence_view(a, b) && a is Waiver ==> {
            let x = a->Waiver_0;
            let y = b->Waiver_0;
            &&& x.id@ == y.id@ && x.reason@ == y.reason@ && x.incident_reference@
                == y.incident_reference@
            &&& x.request_terminated == y.request_terminated && x.platform_absorbs_loss
                == y.platform_absorbs_loss
        },
        same_evidence_view(a, b) && a is Usage ==> {
            let x = a->Usage_0;
            let y = b->Usage_0;
            &&& x.id@ == y.id@ && x.source@ == y.source@ && x.source_request_id@
                == y.source_request_id@
            &&& x.document@ == y.document@ && x.explanation@ == y.explanation@
            &&& x.usage.input_tokens == y.usage.input_tokens && x.usage.output_tokens
                == y.usage.output_tokens && x.usage.latency_ms == y.usage.latency_ms
            &&& x.usage.endpoint_id@ == y.usage.endpoint_id@ && x.usage.region@ == y.usage.region@
                && x.usage.status@ == y.usage.status@
        },
{
}

/// A decision is told as what it was, of the review and the reservation that it is about, by
/// whoever made it and on the evidence that they saw; a decision that is repeated tells nothing.
pub proof fn law_decisions_are_told(
    review: ReviewRow,
    actor: Seq<char>,
    subject: Seq<char>,
    q: DecisionRequest,
    ids: EntryIds,
    now: Timestamp,
    m: ReviewMoney,
    d: Decided,
    after: ReviewMoney,
)
    requires
        decides(review, actor, subject, q, ids, now, m, d, after),
    ensures
        review.state != ReviewState::Submitted ==> d.event is None && d.audit is None
            && d.waiver_event is None && d.row == review,
        review.state == ReviewState::Submitted ==> {
            &&& d.event is Some && d.event->0.aggregate_id == review.id
            &&& d.event->0.kind is ReviewRejected <==> q.action@ != "approve"@
            &&& d.event->0.kind is ReviewWaived <==> q.action@ == "approve"@ && review.evidence
                is Waiver
            &&& d.event->0.kind is ReviewSettled <==> q.action@ == "approve"@ && review.evidence
                is Usage
            &&& d.audit is Some && d.audit->0.review_id == review.id && d.audit->0.created_at == now
                && d.audit->0.subject@ == subject && d.audit->0.evidence_sha256
                == review.evidence_sha256
        },
        review.state == ReviewState::Submitted && d.event->0.kind is ReviewRejected
            ==> d.event->0.kind->ReviewRejected_actor_id@ == actor
            && d.event->0.kind->ReviewRejected_reservation_id == review.reservation_id
            && d.event->0.kind->ReviewRejected_evidence_sha256 == review.evidence_sha256,
        review.state == ReviewState::Submitted && d.event->0.kind is ReviewWaived
            ==> d.event->0.kind->ReviewWaived_actor_id@ == actor
            && d.event->0.kind->ReviewWaived_reservation_id == review.reservation_id
            && d.event->0.kind->ReviewWaived_evidence_sha256 == review.evidence_sha256,
        review.state == ReviewState::Submitted && d.event->0.kind is ReviewSettled
            ==> d.event->0.kind->ReviewSettled_actor_id@ == actor
            && d.event->0.kind->ReviewSettled_reservation_id == review.reservation_id
            && d.event->0.kind->ReviewSettled_evidence_sha256 == review.evidence_sha256,
{
}

/// A sound decision of somebody else on the evidence that is there is taken: a rejection always,
/// and an approved waiver of a pending request whose hold is counted.
pub proof fn law_sound_decisions_are_taken(
    row: ReviewRow,
    actor: Seq<char>,
    q: DecisionRequest,
    m: ReviewMoney,
    now: Timestamp,
)
    requires
        decision_sound(q),
        row.submitted_by@ != actor,
        row.evidence_sha256@ == q.evidence_sha256@,
        row.state == ReviewState::Submitted,
    ensures
        q.action@ == "reject"@ ==> decision_fault(Some(row), actor, q, m, now) is None,
        q.action@ == "approve"@ && row.evidence is Waiver && m.held is Some && m.held->0.pending()
            && m.held->0.reserved_microunits >= 0 && m.balance.held_microunits
            >= m.held->0.reserved_microunits && m.hold.held_microunits
            >= m.held->0.reserved_microunits ==> decision_fault(Some(row), actor, q, m, now)
            is None,
        q.action@ == "approve"@ && m.held is None ==> decision_fault(Some(row), actor, q, m, now)
            is Some,
{
    reveal_strlit("approve");
    reveal_strlit("reject");
    assert("approve"@.len() != "reject"@.len());
}

/// A byte of a digest is one of the ten digits or of the first six letters, in either case.
pub proof fn law_digests_are_hexadecimal(b: u8)
    ensures
        hex_byte(b) <==> '0' as u8 <= b < '0' as u8 + 10 || 'A' as u8 <= b < 'A' as u8 + 6
            || 'a' as u8 <= b < 'a' as u8 + 6,
{
}

/// A decision is announced once it is made: that of a waiver under the reservation that it
/// frees.
pub proof fn law_waivers_are_announced_under_their_reservation(
    review: ReviewRow,
    actor: Seq<char>,
    subject: Seq<char>,
    q: DecisionRequest,
    ids: EntryIds,
    now: Timestamp,
    m: ReviewMoney,
    d: Decided,
    after: ReviewMoney,
)
    requires
        decides(review, actor, subject, q, ids, now, m, d, after),
        d.waived is Some,
    ensures
        review.state == ReviewState::Submitted && q.action@ == "approve"@ && review.evidence
            is Waiver,
        d.waiver_event is Some && d.waiver_event->0.aggregate_id == m.held->0.id,
        d.event is Some && d.audit is Some && d.settlement is None,
{
}

} // verus!
