use xscope::control::billing_feed::{acknowledged, AckRequest, ConsumerRow};
use xscope::control::billing_projection::{add, month, Date};
use xscope::control::billing_review::{
    validate_evidence, validate_waiver, EvidenceRequest, WaiverRequest,
};
use xscope::control::config::DatabasePool;
use xscope::control::event_worker::backoff;
use xscope::control::repository::is_chargeable_usage;
use xscope::domain::billing::SettleRequest;
use xscope::domain::{Money, UsageEvent};

#[test]
fn cumulative_ack_preserves_idempotence_and_delivery_boundary() {
    let row = ConsumerRow {
        billing_account_id: "a".into(),
        consumer: "c".into(),
        acknowledged: 10,
        delivered: 20,
        updated_at: 0,
    };
    assert_eq!(acknowledged(&row, None).unwrap(), 10);
    for (expected_sequence, sequence, ok) in [
        (0, 10, true),
        (10, 20, true),
        (0, 20, false),
        (10, 9, false),
        (10, 21, false),
        (-1, 10, false),
    ] {
        assert_eq!(
            acknowledged(
                &row,
                Some(&AckRequest {
                    expected_sequence,
                    sequence
                })
            )
            .is_ok(),
            ok
        );
    }
}

#[test]
fn checked_projection_arithmetic() {
    assert_eq!(add(10, -10, true).unwrap(), 0);
    assert_eq!(add(0, -10, false).unwrap(), -10);
    assert!(add(0, -1, true).is_err());
    assert!(add(i64::MAX, 1, false).is_err());
    assert_eq!(
        month(Date {
            year: 2024,
            month: 2,
            day: 29
        })
        .day,
        1
    );
}

#[test]
fn waiver_requires_explicit_loss_and_termination_attestations() {
    let mut request = WaiverRequest {
        id: "waiver-fixture".into(),
        reason: "Unrecoverable synthetic receipt".into(),
        incident_reference: "incident-fixture".into(),
        request_terminated: true,
        platform_absorbs_loss: true,
    };
    assert!(validate_waiver(&request).is_ok());
    request.platform_absorbs_loss = false;
    assert!(validate_waiver(&request).is_err());
    request.platform_absorbs_loss = true;
    request.request_terminated = false;
    assert!(validate_waiver(&request).is_err());
}

#[test]
fn receipt_is_required_and_bounded() {
    let mut request = EvidenceRequest {
        id: "case-1".into(),
        source: "runtime".into(),
        source_request_id: "req-1".into(),
        document: "receipt".into(),
        explanation: "final provider usage".into(),
        usage: SettleRequest {
            input_tokens: 0,
            output_tokens: 0,
            latency_ms: 0,
            endpoint_id: "endpoint".into(),
            region: "local".into(),
            status: "cancelled".into(),
        },
    };
    assert!(validate_evidence(&request).is_ok());
    request.document = " ".into();
    assert!(validate_evidence(&request).is_err());
    request.document = "x".repeat(65_537);
    assert!(validate_evidence(&request).is_err());
    request.document = "receipt".into();
    request.usage.status = "unknown".into();
    assert!(validate_evidence(&request).is_err());
}

#[test]
fn database_pool_rejects_unbounded_or_inverted_configuration() {
    assert_eq!(DatabasePool::parse(|_| None).unwrap().max, 4);
    assert!(
        DatabasePool::parse(|key| (key == "XSCOPE_DB_MIN_CONNECTIONS").then(|| "5".into()))
            .is_err()
    );
    assert!(
        DatabasePool::parse(|key| (key == "XSCOPE_DB_MAX_CONNECTIONS").then(|| "0".into()))
            .is_err()
    );
}

#[test]
fn retries_are_positive_bounded_and_monotonic() {
    let delays: Vec<_> = (1..=20).map(backoff).collect();
    assert!(delays.iter().all(|delay| *delay > 0 && *delay <= 300));
    assert!(delays.windows(2).all(|w| w[0] <= w[1]));
}

fn usage(status: &str, input_tokens: i64, output_tokens: i64) -> UsageEvent {
    UsageEvent {
        schema_version: "v1".to_owned(),
        event_id: "event".to_owned(),
        request_id: "request".to_owned(),
        occurred_at: 0,
        tenant_id: "tenant".to_owned(),
        project_id: "project".to_owned(),
        api_key_id: "key".to_owned(),
        model_id: "model".to_owned(),
        model_revision: "revision".to_owned(),
        endpoint_id: "endpoint".to_owned(),
        region: "local".to_owned(),
        price_version: "price".to_owned(),
        input_tokens,
        output_tokens,
        cached_input_tokens: 0,
        latency_ms: 0,
        status: status.to_owned(),
        cost: Money::default(),
    }
}

#[test]
fn failed_zero_token_events_are_audited_without_charge() {
    assert!(!is_chargeable_usage(&usage("provider_error", 0, 0)));
}

#[test]
fn successful_token_usage_is_chargeable() {
    assert!(is_chargeable_usage(&usage("succeeded", 2, 4)));
}
