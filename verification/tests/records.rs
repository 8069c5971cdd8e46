use xscope::control::clusters::AuditPayload;
use xscope::control::ledger::EventKind;
use xscope::control::managed_pools::PoolState;
use xscope::domain::billing::UnresolvedRequest;
use xscope::domain::cluster::DeploymentSpec;
use xscope::gateway::proxy::ReplyBody;
use xscope::json::error_body;

fn parsed(text: &str) -> serde_json::Value {
    serde_json::from_str(text).unwrap()
}

fn specification(text: &str) -> DeploymentSpec {
    DeploymentSpec {
        value: parsed(text),
    }
}

#[test]
fn specifications_are_read_by_their_members() {
    let spec = specification(
        r#"{"replicas":3,"model":{"id":"m","revision":"r"},
        "runtime":{"protocol":"openai"},"serving":{"endpointPickerService":"picker"},
        "autoscaling":{"managed":true,"minReplicas":1,"maxReplicas":4}}"#,
    );
    assert!(spec.is_record());
    assert_eq!(spec.replica_count(), Some(3));
    assert_eq!(spec.model_id().as_deref(), Some("m"));
    assert_eq!(spec.model_revision().as_deref(), Some("r"));
    assert_eq!(spec.protocol().as_deref(), Some("openai"));
    assert_eq!(spec.picker().as_deref(), Some("picker"));
    assert!(spec.autoscaled() && spec.managed_scaling());
    assert_eq!((spec.min_replicas(), spec.max_replicas()), (Some(1), Some(4)));
}

#[test]
fn specifications_without_fields_are_read_too() {
    let bare = specification(r#"{"autoscaling":null,"replicas":1.5}"#);
    assert!(!bare.autoscaled() && !bare.managed_scaling());
    assert_eq!(bare.replica_count(), None);
    let text = specification(r#""text""#);
    assert!(!text.is_record());
    assert!(text.replica_count().is_none() && text.model_id().is_none());
}

#[test]
fn events_carry_what_consumers_need() {
    let created = EventKind::ReservationCreated {
        reserved_microunits: -5,
        price_version: "v1".into(),
    };
    assert_eq!(
        created.payload().unwrap(),
        parsed(r#"{"reserved_microunits":-5,"price_version":"v1"}"#)
    );
    assert_eq!(EventKind::ReservationDispatched.payload().unwrap(), parsed("{}"));
    assert_eq!(
        EventKind::ReservationReleased.payload().unwrap(),
        parsed(r#"{"reason":"not_dispatched"}"#)
    );
    let unresolved = EventKind::ReservationUnresolved(UnresolvedRequest {
        event_id: "e".into(),
        reason: "usage_over_limit".into(),
        input_tokens: Some(u64::MAX),
        output_tokens: None,
    });
    assert_eq!(
        unresolved.payload().unwrap(),
        parsed(
            r#"{"event_id":"e","reason":"usage_over_limit",
                "input_tokens":18446744073709551615,"output_tokens":null}"#
        )
    );
    let waived = EventKind::ReservationWaived {
        review_id: "r".into(),
        actor_id: "a".into(),
        evidence_sha256: "s".into(),
    };
    assert_eq!(
        waived.payload().unwrap(),
        parsed(r#"{"review_id":"r","actor_id":"a","evidence_sha256":"s"}"#)
    );
    let settled = EventKind::ReviewSettled {
        reservation_id: "h".into(),
        actor_id: "a".into(),
        evidence_sha256: "s".into(),
    };
    assert_eq!(
        settled.payload().unwrap(),
        parsed(r#"{"reservation_id":"h","actor_id":"a","evidence_sha256":"s"}"#)
    );
    let posted = EventKind::LedgerPosted {
        kind: "usage".into(),
        reference_type: "usage_event".into(),
        reference_id: "u".into(),
        customer_delta_microunits: -7,
        currency: "CNY".into(),
    };
    assert_eq!(
        posted.payload().unwrap(),
        parsed(
            r#"{"kind":"usage","reference_type":"usage_event","reference_id":"u",
                "customer_delta_microunits":-7,"currency":"CNY"}"#
        )
    );
    assert!(EventKind::ProjectionRebuilt.payload().is_none());
}

#[test]
fn audit_lines_show_what_was_done() {
    let shown = |payload: AuditPayload| payload.to_json();
    assert_eq!(shown(AuditPayload::CredentialEpoch(2)), parsed(r#"{"credential_epoch":2}"#));
    assert_eq!(shown(AuditPayload::ResourcesKept), parsed(r#"{"resources_deleted":false}"#));
    assert_eq!(
        shown(AuditPayload::Reported { version: 1, sha256: "s".into(), error_code: None }),
        parsed(r#"{"version":1,"sha256":"s","error_code":null}"#)
    );
    assert_eq!(
        shown(AuditPayload::PoolMoved { generation: 4, state: PoolState::Draining }),
        parsed(r#"{"generation":4,"state":"draining"}"#)
    );
    assert_eq!(
        shown(AuditPayload::ScaleApplied {
            replicas: 2,
            desired_version: 9,
            drain_required: true,
        }),
        parsed(r#"{"replicas":2,"desired_version":9,"drain_required":true}"#)
    );
    assert_eq!(
        shown(AuditPayload::Completed { intent_id: "i".into(), status: 204 }),
        parsed(r#"{"intent_id":"i","status":204}"#)
    );
    assert_eq!(shown(AuditPayload::DemandRecovered), parsed(r#"{"reason":"demand_recovered"}"#));
}

#[test]
fn replies_are_written_for_clients() {
    let ready = ReplyBody::Status { status: "ready", component: None };
    assert_eq!(ready.to_json(), parsed(r#"{"status":"ready"}"#));
    let health = ReplyBody::Status { status: "ok", component: Some("gateway") };
    assert_eq!(health.to_json(), parsed(r#"{"status":"ok","component":"gateway"}"#));
    let bare = ReplyBody::Error { code: "not_found", message: None };
    assert_eq!(bare.to_json(), parsed(r#"{"error":{"code":"not_found"}}"#));
    assert_eq!(
        error_body("conflict", Some("taken")),
        parsed(r#"{"error":{"code":"conflict","message":"taken"}}"#)
    );
    let models = ReplyBody::Models(vec!["a".into(), "b".into()]);
    assert_eq!(
        models.to_json(),
        parsed(
            r#"{"object":"list","data":[{"id":"a","object":"model"},{"id":"b","object":"model"}]}"#
        )
    );
}
