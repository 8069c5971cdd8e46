use xscope::control::audit::{fresh_audit_id, list_operation_audits, AuditQuery};
use xscope::control::billing::{
    dispatch_money, release_money, releases_in_range, reserve_money, settle_locked,
    settles_in_range, unresolved_money, Completion, KeyTerms, ReleaseRequest, Reservation, ReservationState, ReserveFacts,
};
use xscope::control::billing_feed::{
    ack_billing_events, first_cursor, page, pending_page, pending_reservations,
    poll_billing_events, validate_poll, AckRequest, PendingRequest, PollRequest, PENDING_AGE,
};
use xscope::control::billing_projection::{
    account, change_balance, change_hold, change_spend, key_hold, monthly, period_end,
    projection_check, AccountBalance, CheckRequest, Date, HistoricalTotals, KeyHold, MonthSpend,
    StoredCounters,
};
use xscope::control::billing_review::{
    billing_reviews, decide_billing_review, decides_in_range, review_page, submit_review, DecisionRequest, Evidence,
    EvidenceRequest, ListRequest, ReviewMoney, ReviewRow, ReviewState, WaiverRequest,
};
use xscope::control::error::ServiceError;
use xscope::control::event_worker::{
    age_seconds, backlog, claim_event_job, claim_event_job_with, complete_event_job, fail_event_job, is_claimable, locked,
    retry_event_job, run, schedule, validate_event, Claim, ClaimRequest, Completion as JobCompletion,
    FailRequest, JobRow, JobState, Lease, SourceEvent, SourceLine, WorkerAction, WorkerEvent,
};
use xscope::control::ledger::{
    append_event, insert_balanced_entries, AccountRow, EntryIds, EventKind, Posting,
};
use xscope::domain::billing::{ReserveRequest, SettleRequest, UnresolvedRequest};
use xscope::domain::Model;

const NOW: i64 = 1_700_000_000_000_000;

fn request() -> ReserveRequest {
    ReserveRequest {
        id: "hold-1".into(),
        tenant_id: "tenant".into(),
        project_id: "project".into(),
        api_key_id: "key".into(),
        request_id: "hold-1".into(),
        model_id: "xscope-demo".into(),
        model_revision: "r1".into(),
        price_version: Model::default().price_version,
        input_token_limit: 1000,
        output_token_limit: 1000,
    }
}

fn account_row() -> AccountRow {
    AccountRow {
        id: "account-project".into(),
        tenant_id: "tenant".into(),
        project_id: "project".into(),
        currency: "CNY".into(),
        enforce_balance: true,
        status: "active".into(),
    }
}

fn facts() -> ReserveFacts {
    ReserveFacts {
        account: Some(account_row()),
        existing: None,
        key: Some(KeyTerms {
            id: "key".into(),
            tenant_id: "tenant".into(),
            project_id: "project".into(),
            scopes: vec!["chat.completions".into()],
            allowed_models: vec!["xscope-demo".into()],
            expires_at: None,
            revoked_at: None,
            monthly_budget_amount: 0,
        }),
        model: Some(Model::default()),
        identity_used: false,
        spent_this_month: 0,
        now: NOW,
    }
}

fn balance(booked: i64, held: i64) -> AccountBalance {
    AccountBalance {
        billing_account_id: "account-project".into(),
        balance_microunits: booked,
        held_microunits: held,
        updated_at: 0,
    }
}

fn hold(held: i64) -> KeyHold {
    KeyHold {
        api_key_id: "key".into(),
        held_microunits: held,
        updated_at: 0,
    }
}

fn spend(spent: i64) -> MonthSpend {
    MonthSpend {
        api_key_id: "key".into(),
        month: Date {
            year: 2023,
            month: 11,
            day: 1,
        },
        spent_microunits: spent,
        updated_at: 0,
    }
}

fn ids() -> EntryIds {
    EntryIds {
        transaction: "txn-1".into(),
        customer: "entry-1".into(),
        counter: "entry-2".into(),
    }
}

fn reserved() -> Reservation {
    reserve_money(request(), facts(), &mut balance(10_000_000, 0), &mut hold(0))
        .unwrap()
        .row
}

fn usage(input_tokens: i64, output_tokens: i64) -> SettleRequest {
    SettleRequest {
        input_tokens,
        output_tokens,
        latency_ms: 5,
        endpoint_id: "pool-a".into(),
        region: "local".into(),
        status: "succeeded".into(),
    }
}

#[test]
fn reserving_holds_the_most_that_a_request_can_cost() {
    let mut b = balance(10_000_000, 0);
    let mut h = hold(0);
    let t = reserve_money(request(), facts(), &mut b, &mut h).unwrap();
    // 1000 tokens at 100 fen and 1000 at 200 fen per million.
    let price = Model::default();
    let cost = price.input_per_million_tokens.amount * 1000
        + price.output_per_million_tokens.amount * 1000;
    assert_eq!(t.row.reserved_microunits, cost);
    assert_eq!((b.held_microunits, h.held_microunits), (cost, cost));
    assert_eq!(b.balance_microunits, 10_000_000);
    assert_eq!(t.row.state, ReservationState::Reserved);
    assert_eq!(t.row.price, price);
    assert!(matches!(
        t.event.unwrap().kind,
        EventKind::ReservationCreated { reserved_microunits, .. } if reserved_microunits == cost
    ));
}

#[test]
fn reserving_again_returns_the_frozen_terms() {
    let first = reserved();
    let mut b = balance(0, 0);
    let mut h = hold(0);
    let again = ReserveFacts {
        existing: Some(first.clone()),
        key: None,
        model: None,
        ..facts()
    };
    let t = reserve_money(request(), again, &mut b, &mut h).unwrap();
    assert_eq!(t.row.reserved_microunits, first.reserved_microunits);
    assert!(t.event.is_none());
    assert_eq!((b.held_microunits, h.held_microunits), (0, 0));
    let changed = ReserveRequest {
        output_token_limit: 999,
        ..request()
    };
    let again = ReserveFacts {
        existing: Some(first),
        ..facts()
    };
    assert!(matches!(
        reserve_money(changed, again, &mut b, &mut h),
        Err(ServiceError::Conflict(m)) if m == "reservation ID is bound to a different payload"
    ));
}

#[test]
fn reserving_is_refused_for_each_reason() {
    let refused = |q: ReserveRequest, f: ReserveFacts, booked: i64| {
        let mut b = balance(booked, 0);
        let mut h = hold(0);
        let e = reserve_money(q, f, &mut b, &mut h).unwrap_err();
        assert_eq!((b.held_microunits, h.held_microunits), (0, 0));
        e
    };
    let rich = 10_000_000;
    assert!(matches!(
        refused(ReserveRequest { id: " ".into(), ..request() }, facts(), rich),
        ServiceError::Invalid(m) if m == "invalid reservation identity or token bounds"
    ));
    assert!(matches!(
        refused(request(), ReserveFacts { account: None, ..facts() }, rich),
        ServiceError::NotFound
    ));
    let suspended = AccountRow {
        status: "suspended".into(),
        ..account_row()
    };
    assert!(matches!(
        refused(request(), ReserveFacts { account: Some(suspended), ..facts() }, rich),
        ServiceError::Forbidden
    ));
    assert!(matches!(
        refused(request(), ReserveFacts { key: None, ..facts() }, rich),
        ServiceError::Forbidden
    ));
    let expired = KeyTerms {
        expires_at: Some(NOW),
        ..facts().key.unwrap()
    };
    assert!(matches!(
        refused(request(), ReserveFacts { key: Some(expired), ..facts() }, rich),
        ServiceError::Forbidden
    ));
    assert!(matches!(
        refused(request(), ReserveFacts { model: None, ..facts() }, rich),
        ServiceError::Invalid(m) if m == "model is unknown or disabled"
    ));
    assert!(matches!(
        refused(
            ReserveRequest { input_token_limit: 0, output_token_limit: 0, ..request() },
            facts(),
            rich
        ),
        ServiceError::Invalid(m) if m == "unknown price/model or invalid context bounds"
    ));
    assert!(matches!(
        refused(request(), ReserveFacts { identity_used: true, ..facts() }, rich),
        ServiceError::Conflict(m) if m == "request identity has already been used"
    ));
    assert!(matches!(
        refused(request(), facts(), 1),
        ServiceError::InsufficientFunds(m) if m == "available balance cannot cover the reservation"
    ));
    let frugal = KeyTerms {
        monthly_budget_amount: 1,
        ..facts().key.unwrap()
    };
    let spent = ReserveFacts {
        key: Some(frugal),
        spent_this_month: 1_000_000,
        ..facts()
    };
    assert!(matches!(
        refused(request(), spent, rich),
        ServiceError::InsufficientFunds(m) if m == "monthly budget cannot cover the reservation"
    ));
}

#[test]
fn releasing_gives_back_what_was_held() {
    let reason = |reason: &str| ReleaseRequest {
        reason: reason.into(),
    };
    let least = Reservation {
        reserved_microunits: i64::MIN,
        ..reserved()
    };
    assert!(!releases_in_range(&Some(least.clone()), &reason("not_dispatched")));
    assert!(releases_in_range(&Some(least), &reason("other")));
    assert!(releases_in_range(&Some(reserved()), &reason("not_dispatched")));
    assert!(releases_in_range(&None, &reason("not_dispatched")));
    let row = reserved();
    let amount = row.reserved_microunits;
    let mut b = balance(10_000_000, amount);
    let mut h = hold(amount);
    let reason = ReleaseRequest {
        reason: "not_dispatched".into(),
    };
    let t = release_money(Some(row), &reason, &mut b, &mut h, NOW).unwrap();
    assert_eq!((b.held_microunits, h.held_microunits), (0, 0));
    assert_eq!(t.row.state, ReservationState::Released);
    assert!(matches!(t.row.completion, Some(Completion::Released)));
    let again = release_money(Some(t.row), &reason, &mut b, &mut h, NOW).unwrap();
    assert!(again.event.is_none());
    assert_eq!(b.held_microunits, 0);
    assert!(matches!(
        release_money(Some(again.row.clone()), &ReleaseRequest { reason: "bored".into() }, &mut b, &mut h, NOW),
        Err(ServiceError::Invalid(_))
    ));
    assert!(matches!(
        dispatch_money(Some(again.row), NOW),
        Err(ServiceError::Conflict(m)) if m == "only reserved requests may be dispatched"
    ));
}

#[test]
fn a_dispatched_hold_is_settled_once_and_within_its_bounds() {
    let row = dispatch_money(Some(reserved()), NOW).unwrap().row;
    let amount = row.reserved_microunits;
    let mut b = balance(10_000_000, amount);
    let mut h = hold(amount);
    let mut s = spend(7);
    assert!(matches!(
        release_money(
            Some(row.clone()),
            &ReleaseRequest { reason: "not_dispatched".into() },
            &mut b,
            &mut h,
            NOW
        ),
        Err(ServiceError::Conflict(_))
    ));
    let account = account_row();
    assert!(matches!(
        settle_locked(&account, row.clone(), usage(1001, 0), &mut b, &mut h, &mut s, &ids(), NOW),
        Err(ServiceError::Conflict(m))
            if m == "actual usage exceeds reserved bounds; hold retained for reconciliation"
    ));
    // So is usage that no price can be put on.
    let endless = usage(i64::MAX, i64::MAX);
    assert!(settles_in_range(&row, &endless, &b, &h));
    assert!(matches!(
        settle_locked(&account, row.clone(), endless, &mut b, &mut h, &mut s, &ids(), NOW),
        Err(ServiceError::Conflict(_))
    ));
    assert!(settles_in_range(&row, &usage(7, 13), &b, &h));
    let mut priceless = row.clone();
    priceless.price.input_per_million_tokens.amount = i64::MAX;
    assert!(!settles_in_range(&priceless, &usage(1, 0), &b, &h));
    assert_eq!(b.held_microunits, amount);
    let done =
        settle_locked(&account, row, usage(7, 13), &mut b, &mut h, &mut s, &ids(), NOW).unwrap();
    assert_eq!(done.row.settled_microunits, Some(33_000));
    assert_eq!((b.held_microunits, h.held_microunits), (0, 0));
    assert_eq!(b.balance_microunits, 10_000_000 - 33_000);
    assert_eq!(s.spent_microunits, 33_007);
    let usage_row = done.usage.unwrap();
    assert_eq!(usage_row.event_id, "evt-reservation-hold-1");
    assert_eq!((usage_row.cost_microunits, usage_row.cost_amount), (33_000, 1));
    let entries = done.entries.unwrap();
    assert_eq!(entries.customer.amount_microunits, -33_000);
    assert_eq!(entries.counter.amount_microunits, 33_000);
    assert_eq!(entries.counter.ledger_account, "usage_revenue");
    let again = settle_locked(
        &account,
        done.row.clone(),
        usage(7, 13),
        &mut b,
        &mut h,
        &mut s,
        &ids(),
        NOW,
    )
    .unwrap();
    assert!(again.usage.is_none() && again.entries.is_none() && again.event.is_none());
    assert_eq!(b.balance_microunits, 10_000_000 - 33_000);
    assert!(matches!(
        settle_locked(&account, done.row, usage(7, 12), &mut b, &mut h, &mut s, &ids(), NOW),
        Err(ServiceError::Conflict(m)) if m == "settlement payload changed"
    ));
}

#[test]
fn unknown_usage_keeps_the_money_held() {
    let row = dispatch_money(Some(reserved()), NOW).unwrap().row;
    let report = UnresolvedRequest {
        event_id: "evt-1".into(),
        reason: "usage_missing".into(),
        input_tokens: None,
        output_tokens: None,
    };
    let t = unresolved_money(Some(row.clone()), report.clone(), NOW).unwrap();
    assert_eq!(t.row.state, ReservationState::Dispatched);
    assert_eq!(t.row.reserved_microunits, row.reserved_microunits);
    assert!(t.event.is_some());
    assert!(unresolved_money(Some(t.row.clone()), report.clone(), NOW).unwrap().event.is_none());
    let changed = UnresolvedRequest {
        event_id: "evt-2".into(),
        ..report.clone()
    };
    assert!(matches!(
        unresolved_money(Some(t.row), changed, NOW),
        Err(ServiceError::Conflict(m)) if m == "unresolved evidence changed"
    ));
    let bad = UnresolvedRequest {
        input_tokens: Some(1),
        ..report
    };
    assert!(matches!(
        unresolved_money(Some(row), bad, NOW),
        Err(ServiceError::Invalid(_))
    ));
}

#[test]
fn counters_move_together_or_not_at_all() {
    let mut b = balance(5, 3);
    let mut h = hold(2);
    assert!(change_hold(&mut b, &mut h, -3, NOW).is_err());
    assert_eq!((b.held_microunits, h.held_microunits), (3, 2));
    change_hold(&mut b, &mut h, -2, NOW).unwrap();
    assert_eq!((b.held_microunits, h.held_microunits, b.updated_at), (1, 0, NOW));
    change_balance(&mut b, -9, NOW).unwrap();
    assert_eq!(b.balance_microunits, -4);
    let mut s = spend(1);
    change_spend(&mut s, 4, NOW).unwrap();
    assert_eq!(s.spent_microunits, 5);
    assert!(change_spend(&mut s, i64::MAX, NOW).is_err());
    assert_eq!(account(None, "a", 9, 4, NOW).held_microunits, 4);
    assert_eq!(account(Some(balance(5, 3)), "a", 9, 4, NOW).held_microunits, 3);
    assert_eq!(key_hold(None, "k", 6, NOW).held_microunits, 6);
    let november = Date {
        year: 2023,
        month: 11,
        day: 1,
    };
    assert_eq!(monthly(None, "k", november, 8, NOW).spent_microunits, 8);
    assert_eq!(
        period_end(Date {
            year: 2023,
            month: 12,
            day: 1
        })
        .unwrap(),
        Date {
            year: 2024,
            month: 1,
            day: 1
        }
    );
}

#[test]
fn projections_are_checked_against_history() {
    let expected = HistoricalTotals {
        balance_microunits: 5,
        held_microunits: 3,
        key_held_microunits: 2,
        spent_microunits: 1,
    };
    let request = CheckRequest {
        api_key_id: "key".into(),
        month: Date {
            year: 2023,
            month: 11,
            day: 1,
        },
    };
    let stored = StoredCounters {
        account: Some(balance(5, 3)),
        key: Some(hold(2)),
        month: Some(spend(1)),
    };
    let check = projection_check(&request, true, true, expected, &stored, false).unwrap();
    assert!(check.consistent_before && check.write.is_none());
    let stale = StoredCounters {
        key: Some(hold(1)),
        ..stored
    };
    let check = projection_check(&request, true, true, expected, &stale, true).unwrap();
    assert!(!check.consistent_before);
    assert_eq!(check.write, Some(expected));
    assert!(projection_check(&request, false, true, expected, &stale, true).is_err());
}

#[test]
fn entries_balance_and_name_their_event() {
    let mut b = balance(0, 0);
    let posting = Posting {
        tenant_id: "tenant".into(),
        kind: "topup".into(),
        reference_type: "payment".into(),
        reference_id: "pay-1".into(),
        idempotency_key: "key-1".into(),
        description: "d".into(),
        customer_delta_microunits: 500,
        counter_account: "provider_cash".into(),
    };
    let e = insert_balanced_entries(&account_row(), &mut b, posting, &ids(), NOW).unwrap();
    assert_eq!(b.balance_microunits, 500);
    assert_eq!(e.customer.amount_microunits + e.counter.amount_microunits, 0);
    assert_eq!(e.customer.ledger_account, "customer_balance");
    assert_eq!(e.event.kind.name(), "ledger.posted");
    assert_eq!(append_event(None).unwrap(), 1);
    assert_eq!(append_event(Some(4)).unwrap(), 5);
    assert!(append_event(Some(i64::MAX)).is_err());
}

#[test]
fn cursors_stay_behind_what_was_delivered() {
    let row = first_cursor("account", "mail", NOW);
    let poll = PollRequest {
        limit: 2,
        ack: None,
    };
    assert!(validate_poll("mail", &poll).is_ok());
    assert!(validate_poll(" ", &poll).is_err());
    let first = page(&row, &poll, &vec![1, 2, 3]).unwrap();
    assert_eq!((first.count, first.delivered, first.has_more), (2, 2, true));
    let (p, row) = poll_billing_events(row, &poll, &vec![1, 2, 3], NOW).unwrap();
    assert_eq!((p.acknowledged, row.delivered), (0, 2));
    let ack = |expected_sequence, sequence| AckRequest {
        expected_sequence,
        sequence,
    };
    assert!(ack_billing_events("mail", Some(row.clone()), ack(0, 3), NOW).is_err());
    let row = ack_billing_events("mail", Some(row), ack(0, 2), NOW).unwrap();
    assert_eq!((row.acknowledged, row.delivered), (2, 2));
    assert!(ack_billing_events("mail", None, ack(0, 2), NOW).is_err());
}

#[test]
fn pending_reservations_are_old_ones() {
    let ask = PendingRequest {
        limit: 1,
        created_before: None,
        after_created_at: None,
        after_id: None,
    };
    let cutoff = pending_reservations(&ask, NOW).unwrap();
    assert_eq!(cutoff, NOW - PENDING_AGE);
    let half = PendingRequest {
        after_id: Some("x".into()),
        ..ask
    };
    assert!(pending_reservations(&half, NOW).is_err());
    let mut rows = vec![reserved(), reserved()];
    let next = pending_page(&mut rows, 1, cutoff).unwrap();
    assert_eq!((rows.len(), next.after_id.as_str()), (1, "hold-1"));
    assert!(pending_page(&mut rows, 1, cutoff).is_none());
}

fn evidence() -> Evidence {
    Evidence::Usage(EvidenceRequest {
        id: "case-1".into(),
        source: "runtime".into(),
        source_request_id: "req-1".into(),
        document: "receipt".into(),
        explanation: "final provider usage".into(),
        usage: usage(7, 13),
    })
}

fn submit(evidence: Evidence, existing: Option<ReviewRow>) -> Result<ReviewRow, ServiceError> {
    submit_review(
        "project",
        "hold-1",
        "user-1",
        "subject-1",
        evidence,
        true,
        existing,
        Some(ReservationState::Dispatched),
        NOW,
    )
    .map(|s| s.row)
}

fn money() -> ReviewMoney {
    let held = dispatch_money(Some(reserved()), NOW).unwrap().row;
    let amount = held.reserved_microunits;
    ReviewMoney {
        account: account_row(),
        held: Some(held),
        balance: balance(10_000_000, amount),
        hold: hold(amount),
        spend: spend(0),
    }
}

fn decision(row: &ReviewRow, action: &str) -> DecisionRequest {
    DecisionRequest {
        evidence_sha256: row.evidence_sha256.clone(),
        action: action.into(),
        reason: "checked against the provider".into(),
    }
}

#[test]
fn a_case_is_decided_by_another_person() {
    let row = submit(evidence(), None).unwrap();
    assert_eq!(row.state, ReviewState::Submitted);
    // The whole submission is fingerprinted, with its project and its reservation.
    assert_eq!(
        row.evidence_sha256,
        "18b49536b8fe93b5bb77b2b4cdcc7599eef86fec20d02eabcf460b506e0dbbf9"
    );
    let mut m = money();
    let own = decide_billing_review(
        Some(row.clone()),
        "user-1",
        "subject-1",
        decision(&row, "approve"),
        &mut m,
        &ids(),
        NOW,
    );
    assert!(own.is_err());
    assert_eq!(m.balance.balance_microunits, 10_000_000);
    let done = decide_billing_review(
        Some(row.clone()),
        "user-2",
        "subject-2",
        decision(&row, "approve"),
        &mut m,
        &ids(),
        NOW,
    )
    .unwrap();
    assert_eq!(done.row.state, ReviewState::Settled);
    assert_eq!(done.settlement.unwrap().row.settled_microunits, Some(33_000));
    assert_eq!(m.balance.balance_microunits, 10_000_000 - 33_000);
    assert_eq!(m.balance.held_microunits, 0);
}

#[test]
fn a_rejected_case_moves_no_money() {
    let row = submit(evidence(), None).unwrap();
    let mut m = money();
    let done = decide_billing_review(
        Some(row.clone()),
        "user-2",
        "subject-2",
        decision(&row, "reject"),
        &mut m,
        &ids(),
        NOW,
    )
    .unwrap();
    assert_eq!(done.row.state, ReviewState::Rejected);
    assert!(done.settlement.is_none() && done.waived.is_none());
    assert_eq!(m.balance.held_microunits, m.held.unwrap().reserved_microunits);
}

#[test]
fn usage_that_cannot_be_charged_can_be_rejected() {
    let endless = match evidence() {
        Evidence::Usage(request) => Evidence::Usage(EvidenceRequest {
            usage: usage(i64::MAX, i64::MAX),
            ..request
        }),
        other => other,
    };
    let row = submit(endless, None).unwrap();
    let mut m = money();
    let reject = decision(&row, "reject");
    assert!(decides_in_range(&Some(row.clone()), "user-2", &reject, &m));
    let done =
        decide_billing_review(Some(row), "user-2", "subject-2", reject, &mut m, &ids(), NOW).unwrap();
    assert_eq!(done.row.state, ReviewState::Rejected);
    assert_eq!(m.balance.balance_microunits, 10_000_000);
}

#[test]
fn a_waiver_frees_the_hold_without_a_charge() {
    let waiver = Evidence::Waiver(WaiverRequest {
        id: "case-2".into(),
        reason: "Unrecoverable synthetic receipt".into(),
        incident_reference: "incident-fixture".into(),
        request_terminated: true,
        platform_absorbs_loss: true,
    });
    assert_eq!(waiver.kind(), "loss_waiver");
    let row = submit(waiver, None).unwrap();
    assert_eq!(
        row.evidence_sha256,
        "9a492a9e6b40b7f32fb0e80c22902258c688b830dc904dd3f714f7fd65542f98"
    );
    let mut stale = decision(&row, "approve");
    stale.evidence_sha256 = submit(evidence(), None).unwrap().evidence_sha256;
    assert!(matches!(
        decide_billing_review(
            Some(row.clone()),
            "user-2",
            "subject-2",
            stale,
            &mut money(),
            &ids(),
            NOW
        ),
        Err(ServiceError::Conflict(m)) if m == "reviewed evidence SHA-256 changed"
    ));
    let mut m = money();
    let done = decide_billing_review(
        Some(row.clone()),
        "user-2",
        "subject-2",
        decision(&row, "approve"),
        &mut m,
        &ids(),
        NOW,
    )
    .unwrap();
    assert_eq!(done.row.state, ReviewState::Waived);
    assert_eq!(done.waived.unwrap().state, ReservationState::Waived);
    assert_eq!((m.balance.balance_microunits, m.balance.held_microunits), (10_000_000, 0));
}

#[test]
fn cases_are_listed_in_pages() {
    let ask = |limit| ListRequest {
        after_id: None,
        limit,
    };
    assert!(billing_reviews(&ask(Some(0))).is_err());
    let limit = billing_reviews(&ask(Some(1))).unwrap();
    let row = submit(evidence(), None).unwrap();
    let mut rows = vec![row.clone(), row];
    assert_eq!(review_page(&mut rows, limit).as_deref(), Some("case-1"));
    assert_eq!(rows.len(), 1);
}

fn job() -> JobRow {
    schedule(None, "account", 3, NOW)
}

fn leased() -> (JobRow, Lease) {
    match claim_event_job_with(
        &ClaimRequest {
            limit: 10,
            lease_seconds: 30,
        },
        Some(job()),
        Some(3),
        "token-1",
        NOW,
    )
    .unwrap()
    {
        Claim::Leased(row, lease) => (row, lease),
        _ => panic!("the job is due"),
    }
}

fn source(sequence: i64) -> SourceEvent {
    SourceEvent {
        billing_account_id: "account".into(),
        sequence,
        kind: "ledger.posted".into(),
        aggregate_id: "txn-1".into(),
        payload: serde_json::from_str(r#"{"b":1,"a":[]}"#).unwrap(),
        created_at: NOW,
        processed: None,
        lines: vec![
            SourceLine {
                billing_account_id: "account".into(),
                amount_microunits: 5,
            },
            SourceLine {
                billing_account_id: "account".into(),
                amount_microunits: -5,
            },
        ],
        reservation_account: None,
        review_found: false,
    }
}

#[test]
fn a_lease_completes_what_it_covers() {
    let (row, lease) = leased();
    assert_eq!(row.state, JobState::Running);
    assert_eq!((lease.expected_sequence, lease.through_sequence), (0, 3));
    assert_eq!(backlog(&row), 3);
    assert!(!is_claimable(&row, NOW));
    let events = vec![source(1), source(2), source(3)];
    assert!(validate_event(&events[0]).is_ok());
    match complete_event_job(Some(row), &lease, &events, NOW, NOW).unwrap() {
        JobCompletion::Done(row, effects) => {
            assert_eq!((row.acknowledged, row.state), (3, JobState::Idle));
            assert_eq!(effects.len(), 3);
            let digest = "5d682703168f3605ad7c48f4627ed312f24d9da092365fb8a4ec51050c4dcfcd";
            assert_eq!(effects[0].payload_sha256, digest);
            assert_ne!(effects[1].payload_sha256, digest);
            let again = complete_event_job(Some(row), &lease, &events, NOW, NOW).unwrap();
            assert!(matches!(again, JobCompletion::Duplicate(3)));
            let changed = SourceEvent {
                payload: serde_json::Value::Null,
                processed: Some(digest.into()),
                ..source(1)
            };
            let (row, lease) = leased();
            let events = vec![changed, source(2), source(3)];
            assert!(matches!(
                complete_event_job(Some(row), &lease, &events, NOW, NOW),
                Err(ServiceError::Conflict(m)) if m == "processed event changed"
            ));
        }
        JobCompletion::Duplicate(_) => panic!("nothing was completed before"),
    }
}

#[test]
fn leases_are_drawn_one_by_one() {
    let draw = || {
        let request = ClaimRequest {
            limit: 10,
            lease_seconds: 30,
        };
        match claim_event_job(&request, Some(job()), Some(3), NOW).unwrap() {
            Claim::Leased(row, lease) => (row, lease),
            _ => panic!("the job is due"),
        }
    };
    let (row, lease) = draw();
    assert_eq!(lease.lease_token.len(), 36);
    assert_ne!(lease.lease_token, draw().1.lease_token);
    assert!(locked(Some(row), &lease, NOW).is_ok());
}

#[test]
fn entries_and_audits_are_named_afresh() {
    let (first, second) = (EntryIds::fresh(), EntryIds::fresh());
    let mut names = vec![
        first.transaction,
        first.customer,
        first.counter,
        second.transaction,
        second.customer,
        second.counter,
        fresh_audit_id(),
        fresh_audit_id(),
    ];
    assert!(names.iter().all(|name| name.len() == 36));
    names.sort();
    names.dedup();
    assert_eq!(names.len(), 8);
    let page = |after: &str| {
        list_operation_audits(&AuditQuery {
            after: Some(after.into()),
            limit: None,
        })
    };
    assert!(page(&fresh_audit_id()).is_ok());
    assert!(page("last").is_err());
}

#[test]
fn a_new_lease_fences_the_old_one() {
    let (row, lease) = leased();
    let later = row.lease_until.unwrap();
    let again = claim_event_job_with(
        &ClaimRequest {
            limit: 10,
            lease_seconds: 30,
        },
        Some(row),
        Some(3),
        "token-2",
        later,
    )
    .unwrap();
    let row = match again {
        Claim::Leased(row, _) | Claim::Expired(row) => row,
        Claim::Nothing => panic!("the lease is over"),
    };
    assert!(locked(Some(row), &lease, later).is_err());
}

#[test]
fn a_failure_acknowledges_nothing() {
    let (row, lease) = leased();
    let failed = fail_event_job(
        &FailRequest {
            lease,
            reason: "handler_failed".into(),
        },
        Some(row),
        NOW,
    )
    .unwrap();
    assert_eq!(failed.acknowledged, 0);
    assert!(failed.available_at > NOW);
    assert!(retry_event_job(Some(failed), "acct", "user", "operator asked", NOW).is_err());
    let dead = JobRow {
        state: JobState::Dead,
        ..job()
    };
    let (retried, audit) =
        retry_event_job(Some(dead), "acct", "user", "operator asked", NOW).unwrap();
    assert_eq!((audit.action.as_str(), audit.resource_id.as_str()), ("event_job.retry", "acct"));
    assert_eq!(
        audit.payload.to_json().to_string(),
        r#"{"consumer":"ledger.audit.v1","reason":"operator asked"}"#
    );
    assert_eq!((retried.state, retried.attempts), (JobState::Pending, 0));
}

#[test]
fn unbalanced_postings_are_refused() {
    let mut event = source(1);
    event.lines[1].amount_microunits = -4;
    assert!(validate_event(&event).is_err());
    event.lines.clear();
    assert!(validate_event(&event).is_err());
}

#[test]
fn the_worker_claims_completes_and_waits() {
    assert!(matches!(
        run(WorkerEvent::Started),
        WorkerAction::Claim(ClaimRequest {
            limit: 100,
            lease_seconds: 30
        })
    ));
    let (_, lease) = leased();
    assert!(matches!(run(WorkerEvent::Claimed(Some(lease))), WorkerAction::Complete(_)));
    assert!(matches!(run(WorkerEvent::Claimed(None)), WorkerAction::Sleep(1000)));
    assert!(matches!(run(WorkerEvent::Completed), WorkerAction::Sleep(10)));
    let (_, lease) = leased();
    assert!(matches!(run(WorkerEvent::Failed(lease)), WorkerAction::Fail(f) if f.reason == "handler_failed"));
    assert!(matches!(run(WorkerEvent::Error), WorkerAction::Sleep(1000)));
    assert_eq!(age_seconds(Some(NOW - 2_500_000), NOW), 2);
    assert_eq!(age_seconds(Some(NOW + 1), NOW), 0);
    assert_eq!(age_seconds(None, NOW), 0);
}
