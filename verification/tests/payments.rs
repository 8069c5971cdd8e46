use xscope::control::api::{authorize_order, authorize_refund, UserContext};
use xscope::control::billing_projection::{AccountBalance, Date, MonthSpend};
use xscope::control::error::ServiceError;
use xscope::control::ledger::{AccountRow, EntryIds};
use xscope::control::payment_service::{
    accept_alipay_trade, alipay_checkout, checkout_created, payment_id, provider_error, receipt_id,
    Checkout, CheckoutStep, Merchant, ProviderError, TradeFacts, TradeVerdict, VerifiedTrade,
};
use xscope::control::reconciliation::{reconcile, reconciles_in_range, CapturedAmount};
use xscope::control::refund_service::{
    alipay_refund_operation, complete_alipay_refund, prepare_alipay_refund, CompletionFacts,
    RefundFacts, RefundStep, VerifiedRefund,
};
use xscope::control::repository::{
    billing_position, capture_payment, create_invoice, create_order, create_refund,
    floor_minor_units, quote, quotes_in_range, record_usage, records_in_range, KeyOwner, UsageFacts,
};
use xscope::control::summary::{billing_summary, summarizes_in_range, UsageLine};
use xscope::control::tax::{request_tax_invoice, tax_request_status, TaxRequest};
use xscope::domain::{
    BillingOrder, CapturePaymentRequest, CreateInvoiceRequest, CreateOrderRequest,
    CreateRefundRequest, Model, Money, Payment, PlatformUser, Project, ProviderSettlement,
    ReconcileRequest, Refund, TenantMembership, UsageEvent,
};

const NOW: i64 = 1_700_000_000_000_000;

fn project() -> Project {
    Project {
        id: "project".into(),
        tenant_id: "tenant".into(),
        name: "Project".into(),
    }
}

fn account() -> AccountRow {
    AccountRow {
        id: "account-project".into(),
        tenant_id: "tenant".into(),
        project_id: "project".into(),
        currency: "CNY".into(),
        enforce_balance: false,
        status: "active".into(),
    }
}

fn balance(booked: i64, held: i64) -> AccountBalance {
    AccountBalance {
        billing_account_id: "account-project".into(),
        balance_microunits: booked,
        held_microunits: held,
        updated_at: 0,
    }
}

fn ids() -> EntryIds {
    EntryIds {
        transaction: "1".into(),
        customer: "2".into(),
        counter: "3".into(),
    }
}

fn order() -> BillingOrder {
    create_order(
        CreateOrderRequest {
            id: "order-00000001".into(),
            tenant_id: "tenant".into(),
            project_id: "project".into(),
            amount: Money::cny(500),
            description: "top-up".into(),
        },
        Some(&project()),
        NOW,
    )
    .unwrap()
}

fn merchant(environment: &str) -> Merchant {
    Merchant {
        profile: "main".into(),
        environment: environment.into(),
    }
}

fn checkout(environment: &str) -> Checkout {
    let step = alipay_checkout(Some(&order()), Ok(()), None, &merchant(environment), NOW).unwrap();
    match step {
        CheckoutStep::Created(row) => row,
        _ => panic!("there was no checkout before"),
    }
}

fn trade() -> VerifiedTrade {
    VerifiedTrade {
        order_id: "order-00000001".into(),
        trade_id: "trade-1".into(),
        state: "TRADE_SUCCESS".into(),
        amount_minor: 500,
        paid: true,
        proof_sha256: "ab".repeat(32),
        evidence: serde_json::from_str(r#"{"trade_no":"trade-1"}"#).unwrap(),
    }
}

fn trade_facts(environment: &str) -> TradeFacts {
    TradeFacts {
        order: Some(order()),
        checkout: Some(checkout(environment)),
        receipt_known: false,
        existing: None,
        account: Some(account()),
    }
}

fn paid() -> (Payment, BillingOrder) {
    let done = accept_alipay_trade(
        &merchant("production"),
        &trade(),
        trade_facts("production"),
        &mut balance(0, 0),
        &ids(),
        NOW,
    )
    .unwrap();
    (done.payment.unwrap(), done.order.unwrap())
}

#[test]
fn a_verified_trade_is_credited_once() {
    let mut b = balance(0, 0);
    let done = accept_alipay_trade(
        &merchant("production"),
        &trade(),
        trade_facts("production"),
        &mut b,
        &ids(),
        NOW,
    )
    .unwrap();
    assert_eq!(b.balance_microunits, 500_000_000);
    assert_eq!(done.order.unwrap().status, "paid");
    let payment = done.payment.unwrap();
    assert_eq!(payment.id, payment_id("main", "trade-1"));
    assert_eq!((payment.amount.amount, payment.status.as_str()), (500, "succeeded"));
    assert_eq!(
        done.receipt.unwrap().id,
        receipt_id("main", "order-00000001", &"ab".repeat(32))
    );
    assert_eq!(done.entries.unwrap().posting.customer_delta_microunits, 500_000_000);
    let again = TradeFacts {
        existing: Some(payment),
        ..trade_facts("production")
    };
    let done = accept_alipay_trade(
        &merchant("production"),
        &trade(),
        again,
        &mut b,
        &ids(),
        NOW,
    )
    .unwrap();
    assert!(matches!(done.verdict, TradeVerdict::Duplicate { .. }));
    assert!(done.entries.is_none());
    assert_eq!(b.balance_microunits, 500_000_000);
}

#[test]
fn sandbox_trades_and_foreign_amounts_credit_nothing() {
    let mut b = balance(0, 0);
    let done = accept_alipay_trade(
        &merchant("sandbox"),
        &trade(),
        trade_facts("sandbox"),
        &mut b,
        &ids(),
        NOW,
    )
    .unwrap();
    assert!(matches!(done.verdict, TradeVerdict::Sandbox));
    assert_eq!(done.receipt.unwrap().evidence["trade_no"], "trade-1");
    assert_eq!(b.balance_microunits, 0);
    let foreign = VerifiedTrade {
        amount_minor: 501,
        ..trade()
    };
    assert!(matches!(
        accept_alipay_trade(
            &merchant("production"),
            &foreign,
            trade_facts("production"),
            &mut b,
            &ids(),
            NOW
        ),
        Err(ServiceError::Conflict(m))
            if m == "verified trade does not match bound checkout amount or merchant"
    ));
    let no_checkout = TradeFacts {
        checkout: None,
        ..trade_facts("production")
    };
    assert!(matches!(
        accept_alipay_trade(&merchant("production"), &trade(), no_checkout, &mut b, &ids(), NOW),
        Err(ServiceError::Conflict(m)) if m == "no checkout was initiated for this order"
    ));
}

#[test]
fn a_checkout_keeps_its_code() {
    let row = checkout("production");
    let row = checkout_created(true, Some(row), Ok("https://qr".into()), NOW).unwrap();
    assert_eq!(row.qr_code.as_deref(), Some("https://qr"));
    assert!(checkout_created(true, None, Ok("x".into()), NOW).is_err());
    let again = alipay_checkout(Some(&order()), Ok(()), Some(row), &merchant("production"), NOW);
    assert!(matches!(again, Ok(CheckoutStep::Known(_))));
    assert!(alipay_checkout(None, Ok(()), None, &merchant("production"), NOW).is_err());
    assert!(matches!(
        provider_error(ProviderError::Unavailable),
        ServiceError::Dependency(_)
    ));
    assert!(matches!(
        provider_error(ProviderError::Signature),
        ServiceError::Unauthorized | ServiceError::Invalid(_) | ServiceError::Forbidden
    ));
}

fn refund_request(amount: i64) -> CreateRefundRequest {
    CreateRefundRequest {
        id: "refund-00000001".into(),
        payment_id: payment_id("main", "trade-1"),
        amount: Money::cny(amount),
        reason: "asked".into(),
    }
}

fn refund_facts(prior_total: i64) -> RefundFacts {
    let (payment, order) = paid();
    RefundFacts {
        payment: Some(payment),
        order: Some(order),
        checkout: Some(checkout("production")),
        prior: None,
        prior_total,
        account: Some(account()),
    }
}

fn prepare(amount: i64, prior_total: i64, b: &mut AccountBalance) -> Result<Refund, ServiceError> {
    prepare_alipay_refund(
        refund_request(amount),
        Ok(()),
        &merchant("production"),
        refund_facts(prior_total),
        b,
        &ids(),
        NOW,
    )
    .map(|p| p.refund)
}

#[test]
fn refunds_use_only_free_balance() {
    let mut b = balance(500_000_000, 100_000_000);
    assert!(matches!(
        prepare(450, 0, &mut b),
        Err(ServiceError::InsufficientFunds(m))
            if m == "refund would consume spent or reserved balance"
    ));
    assert_eq!(b.balance_microunits, 500_000_000);
    assert!(matches!(
        prepare(200, 400, &mut b),
        Err(ServiceError::Conflict(m)) if m == "refund total exceeds captured amount"
    ));
    let refund = prepare(400, 0, &mut b).unwrap();
    assert_eq!(refund.status, "pending");
    assert_eq!((b.balance_microunits, b.held_microunits), (100_000_000, 100_000_000));
}

#[test]
fn completing_a_refund_clears_what_was_prepared() {
    let mut b = balance(500_000_000, 0);
    let refund = prepare(400, 0, &mut b).unwrap();
    let (payment, order) = paid();
    let row = Some(checkout("production"));
    let some = (Some(refund.clone()), Some(payment.clone()));
    assert_eq!(
        alipay_refund_operation(&some.0, &some.1, &row, &merchant("production"), true).unwrap(),
        RefundStep::Submit
    );
    assert_eq!(
        alipay_refund_operation(&some.0, &some.1, &row, &merchant("production"), false).unwrap(),
        RefundStep::Query
    );
    assert!(alipay_refund_operation(&some.0, &some.1, &row, &merchant("sandbox"), true).is_err());
    let proof = VerifiedRefund {
        request_id: refund.id.clone(),
        order_id: order.id.clone(),
        trade_id: "trade-1".into(),
        amount_minor: 400,
        evidence: serde_json::from_str(r#"{"out_request_no":"refund-1","fund_change":"Y"}"#)
            .unwrap(),
    };
    let facts = |refund: Refund| CompletionFacts {
        refund: Some(refund),
        payment: Some(payment.clone()),
        order: Some(order.clone()),
        checkout: Some(checkout("production")),
        account: Some(account()),
    };
    let done = complete_alipay_refund(
        &merchant("production"),
        &proof,
        facts(refund.clone()),
        &ids(),
        NOW,
    )
    .unwrap();
    assert_eq!(done.refund.status, "succeeded");
    let receipt = done.receipt.unwrap();
    assert_eq!(receipt.evidence, proof.evidence);
    assert_eq!(
        receipt.id,
        "refund-0ba6b5f9474df1141935419b7f155d5d627a4d6a67524d1b5186467b7cf575ee"
    );
    let clearing = done.clearing.unwrap();
    assert_eq!(
        clearing.pending.amount_microunits + clearing.cash.amount_microunits,
        0
    );
    let again = complete_alipay_refund(
        &merchant("production"),
        &proof,
        facts(done.refund),
        &ids(),
        NOW,
    )
    .unwrap();
    assert!(again.clearing.is_none());
    let short = VerifiedRefund {
        amount_minor: 399,
        ..proof
    };
    assert!(matches!(
        complete_alipay_refund(
            &merchant("production"),
            &short,
            facts(refund),
            &ids(),
            NOW
        ),
        Err(ServiceError::Conflict(m)) if m == "refund evidence does not match durable request"
    ));
}

#[test]
fn manual_payments_and_refunds_balance() {
    let mut b = balance(0, 0);
    let request = CapturePaymentRequest {
        id: "pay-1".into(),
        provider: "manual-test".into(),
        provider_reference: "ref-1".into(),
    };
    let done = capture_payment(
        "order-00000001",
        request.clone(),
        "key-0000000000001",
        None,
        Some(order()),
        &account(),
        &mut b,
        &ids(),
        NOW,
    )
    .unwrap();
    assert_eq!(b.balance_microunits, 500_000_000);
    let again = capture_payment(
        "order-00000001",
        request,
        "key-0000000000001",
        Some(done.payment.clone()),
        None,
        &account(),
        &mut b,
        &ids(),
        NOW,
    )
    .unwrap();
    assert!(again.entries.is_none());
    let order = done.order.unwrap();
    let request = |amount| CreateRefundRequest {
        id: "refund-1".into(),
        payment_id: "pay-1".into(),
        amount: Money::cny(amount),
        reason: "asked".into(),
    };
    let mut refund = |amount, already| {
        create_refund(
            request(amount),
            "key-0000000000002",
            None,
            Some(&done.payment),
            Some(&order),
            already,
            &account(),
            &mut b,
            &ids(),
            NOW,
        )
        .map(|r| r.refund.status)
    };
    assert_eq!(refund(300, 0).unwrap(), "succeeded");
    assert!(refund(300, 300).is_err());
    assert!(refund(501, 0).is_err());
    assert!(refund(0, 0).is_err());
    assert_eq!(b.balance_microunits, 200_000_000);
    let position = billing_position(&b).unwrap();
    assert_eq!(position.available_microunits, "200000000");
}

#[test]
fn usage_is_recorded_and_charged_once() {
    let model = Model::default();
    let event = UsageEvent {
        schema_version: "v1".into(),
        event_id: "evt-1".into(),
        request_id: "req-1".into(),
        occurred_at: NOW,
        tenant_id: "tenant".into(),
        project_id: "project".into(),
        api_key_id: "key".into(),
        model_id: model.id.clone(),
        model_revision: "r1".into(),
        endpoint_id: "pool".into(),
        region: "local".into(),
        price_version: model.price_version.clone(),
        input_tokens: 7,
        output_tokens: 13,
        cached_input_tokens: 0,
        latency_ms: 1,
        status: "succeeded".into(),
        cost: Money::default(),
    };
    let facts = |recorded| UsageFacts {
        key_owner: Some(KeyOwner {
            tenant_id: "tenant".into(),
            project_id: "project".into(),
        }),
        reserved: false,
        recorded,
        received_at: NOW,
    };
    let mut b = balance(0, 0);
    let mut s = MonthSpend {
        api_key_id: "key".into(),
        month: Date {
            year: 2023,
            month: 11,
            day: 1,
        },
        spent_microunits: 0,
        updated_at: 0,
    };
    let done = record_usage(event.clone(), &model, &facts(false), &account(), &mut b, &mut s, &ids())
        .unwrap()
        .unwrap();
    assert_eq!(done.usage.cost_microunits, 33_000);
    assert_eq!((b.balance_microunits, s.spent_microunits), (-33_000, 33_000));
    assert!(
        record_usage(event.clone(), &model, &facts(true), &account(), &mut b, &mut s, &ids())
            .unwrap()
            .is_none()
    );
    assert_eq!((b.balance_microunits, s.spent_microunits), (-33_000, 33_000));
    let reserved = UsageFacts {
        reserved: true,
        ..facts(false)
    };
    let endless = UsageEvent {
        input_tokens: i64::MAX,
        ..event.clone()
    };
    assert!(records_in_range(&event, &model, &facts(false)));
    assert!(records_in_range(&endless, &model, &reserved));
    let before = b.balance_microunits;
    assert!(
        record_usage(endless, &model, &facts(false), &account(), &mut b, &mut s, &ids()).is_err()
    );
    assert_eq!(b.balance_microunits, before);
    assert!(matches!(
        record_usage(event, &model, &reserved, &account(), &mut b, &mut s, &ids()),
        Err(ServiceError::Conflict(_))
    ));
    assert_eq!(floor_minor_units(-1), -1);
    assert!(quotes_in_range(&model, &model.id, 7, 13));
    let most = i64::MAX / model.input_per_million_tokens.amount;
    assert!(!quotes_in_range(&model, &model.id, most, 0));
    assert!(quotes_in_range(&model, "other", most, 0));
    assert!(quotes_in_range(&model, &model.id, i64::MAX, i64::MAX));
    assert!(quote(&model, &model.id, i64::MAX, i64::MAX).is_err());
    assert_eq!(floor_minor_units(1_999_999), 1);
    let q = quote(&model, &model.id, 7, 13).unwrap();
    assert_eq!(q.maximum.amount, 1);
    assert!(quote(&model, "other", 7, 13).is_err());
}

#[test]
fn summaries_add_up() {
    let line = |project: &str, occurred_at| UsageLine {
        project_id: project.into(),
        occurred_at,
        input_tokens: 1,
        output_tokens: 2,
        cost_microunits: 600_000,
    };
    let lines = vec![line("b", 5), line("a", 6), line("b", 7), line("a", 10)];
    let all = billing_summary(&lines, None, 5, 10).unwrap();
    assert_eq!((all.requests, all.input_tokens, all.output_tokens), (3, 3, 6));
    // Each project is rounded up by itself.
    assert_eq!(all.total.amount, 3);
    assert_eq!(all.projects.len(), 2);
    assert_eq!(all.projects[0].project_id, "a");
    let b = billing_summary(&lines, Some("b"), 5, 10).unwrap();
    assert_eq!((b.requests, b.total.amount), (2, 2));
    assert!(billing_summary(&lines, None, 10, 5).is_err());
    // What is not asked for does not count.
    let huge = |project: &str, occurred_at| UsageLine {
        cost_microunits: i64::MAX,
        ..line(project, occurred_at)
    };
    let lines = vec![line("a", 6), huge("b", 6), huge("a", 20), huge("a", 21)];
    assert!(summarizes_in_range(&lines, Some("a"), 5, 10));
    assert!(!summarizes_in_range(&lines, Some("a"), 5, 30));
    assert!(!summarizes_in_range(&lines, None, 5, 10));
    // The projects are bounded one by one.
    let large = |project: &str| UsageLine {
        cost_microunits: 6_000_000_000_000_000_000,
        ..line(project, 6)
    };
    let both = vec![large("a"), large("b")];
    assert!(summarizes_in_range(&both, None, 5, 10));
    assert_eq!(
        billing_summary(&both, None, 5, 10).unwrap().total.amount,
        12_000_000_000_000
    );
    assert!(!summarizes_in_range(&vec![large("a"), large("a")], None, 5, 10));
    assert!(summarizes_in_range(&lines, None, 10, 5));
    let a = billing_summary(&lines, Some("a"), 5, 10).unwrap();
    assert_eq!((a.requests, a.total.amount), (1, 1));
}

#[test]
fn settlements_are_compared_with_captures() {
    let captured = vec![
        CapturedAmount {
            provider_reference: "a".into(),
            amount: 5,
        },
        CapturedAmount {
            provider_reference: "b".into(),
            amount: 6,
        },
        CapturedAmount {
            provider_reference: "c".into(),
            amount: -7,
        },
    ];
    let settled = |reference: &str, amount| ProviderSettlement {
        provider_reference: reference.into(),
        amount: Money::cny(amount),
    };
    let request = |settlements| ReconcileRequest {
        tenant_id: "tenant".into(),
        provider: "alipay".into(),
        settlements,
    };
    let asked = request(vec![settled("a", 5), settled("b", 1), settled("d", 4)]);
    assert!(reconciles_in_range(&asked, &captured));
    let apart = request(vec![settled("c", i64::MAX)]);
    assert!(!reconciles_in_range(&apart, &captured));
    assert!(reconciles_in_range(&request(vec![settled("a", i64::MAX)]), &captured));
    let report = reconcile(asked, &captured, NOW).unwrap();
    assert_eq!(report.matched, 1);
    assert_eq!(report.platform_only, vec!["c".to_owned()]);
    assert_eq!(report.provider_only, vec!["d".to_owned()]);
    assert_eq!(report.amount_mismatches.len(), 1);
    assert_eq!(report.amount_mismatches[0].0, "b");
}

#[test]
fn invoices_and_tax_requests() {
    let request = CreateInvoiceRequest {
        id: "inv-1".into(),
        tenant_id: "tenant".into(),
        project_id: "project".into(),
        period_start: 1,
        period_end: 2,
        title: "Title".into(),
    };
    let invoice = create_invoice(request.clone(), Some(&project()), Money::cny(9), NOW).unwrap();
    assert_eq!((invoice.amount.amount, invoice.status.as_str()), (9, "issued"));
    let empty = CreateInvoiceRequest {
        period_end: 1,
        ..request
    };
    assert!(create_invoice(empty, Some(&project()), Money::cny(9), NOW).is_err());
    let ask = |title: &str| TaxRequest {
        title: title.into(),
        taxpayer_id: Some("91310000X".into()),
    };
    assert_eq!(tax_request_status(&None), "not_requested");
    let row = request_tax_invoice(ask("Company"), Some(&invoice), &None, NOW).unwrap();
    assert_eq!(tax_request_status(&row), "pending_provider");
    assert!(request_tax_invoice(ask("Company"), Some(&invoice), &row, NOW).unwrap().is_none());
    assert!(matches!(
        request_tax_invoice(ask("Other"), Some(&invoice), &row, NOW),
        Err(ServiceError::Conflict(_))
    ));
    assert!(matches!(
        request_tax_invoice(ask("a\tb"), Some(&invoice), &None, NOW),
        Err(ServiceError::Invalid(_))
    ));
}

#[test]
fn money_is_the_business_of_owners() {
    let context = |role: &str| UserContext {
        user: PlatformUser {
            id: "user".into(),
            external_subject: "subject".into(),
            username: "user".into(),
            email: String::new(),
            status: "active".into(),
            last_login_at: 0,
            created_at: 0,
            updated_at: 0,
            memberships: vec![TenantMembership {
                tenant_id: "tenant".into(),
                role: role.into(),
            }],
        },
        auth_disabled: false,
    };
    let orders = vec![order()];
    let payments = vec![paid().0];
    let payment = payments[0].id.clone();
    assert!(authorize_order(&orders, &context("owner"), "order-00000001").is_ok());
    assert!(matches!(
        authorize_order(&orders, &context("member"), "order-00000001"),
        Err(ServiceError::Forbidden)
    ));
    assert!(matches!(
        authorize_order(&orders, &context("owner"), "order-2"),
        Err(ServiceError::NotFound)
    ));
    assert!(authorize_refund(&payments, &orders, &context("owner"), &payment).is_ok());
    assert!(matches!(
        authorize_refund(&payments, &vec![], &context("owner"), &payment),
        Err(ServiceError::NotFound)
    ));
}
