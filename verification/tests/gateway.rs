use xscope::domain::routing::{HeaderRoute, RouteTarget};
use xscope::domain::traffic::{PoolControl, TrafficSnapshot, LEASE_SECONDS};
use xscope::gateway::admission::{money_token_limits, parse_request};
use xscope::gateway::auth::{DynamicKeySet, GatewayKey, GatewaySnapshot, KeySet};
use xscope::gateway::billing;
use xscope::gateway::config::{ApiKeyConfig, ServingConfig};
use xscope::gateway::context::RequestContext;
use xscope::gateway::delivery::{backoff, Queue, Settings};
use xscope::gateway::proxy::{header_matches, strip_serving_control_headers};
use xscope::gateway::storage::{StorageBudget, StorageSettings, REQUEST_SPACE};
use xscope::gateway::streaming::{StreamMeter, MAX_EVENT_BYTES};
use xscope::gateway::traffic::Traffic;
use xscope::gateway::usage::CompletionUsage;

use base64::Engine;
use pingora_http::RequestHeader;

#[test]
fn authenticates_bearer_secret_without_retaining_plaintext() {
    let keys = DynamicKeySet::new(&[ApiKeyConfig {
        id: "key-1".into(),
        tenant_id: "tenant-1".into(),
        project_id: "project-1".into(),
        secret: "secret-value".into(),
    }]);
    assert!(keys.current.traffic.is_none());
    let principal = keys.authenticate(Some("Bearer secret-value"), 0).unwrap();
    assert_eq!(principal.project_id, "project-1");
    assert!(principal.has_scope("chat.completions"));
    assert!(principal.allows_model("xscope-demo"));
    assert!(keys.authenticate(Some("Bearer wrong"), 0).is_none());
}

#[test]
fn accepts_snapshot_from_a_control_plane_during_rolling_upgrade() {
    let digest = base64::engine::general_purpose::STANDARD.encode([7_u8; 32]);
    let snapshot = GatewaySnapshot {
        keys: vec![GatewayKey {
            id: "key-1".into(),
            tenant_id: "tenant-1".into(),
            project_id: "project-1".into(),
            secret_hash: digest,
            scopes: vec!["chat.completions".into()],
            allowed_models: vec!["xscope-demo".into()],
            expires_at: None,
            rate_limit_rpm: 60,
            rate_limit_tpm: None,
            monthly_budget: 0,
            current_month_spend: 0,
            balance_enforced: None,
            available_balance: None,
        }],
        route_policies: vec![],
        catalog: None,
        traffic: None,
    };
    let keys = KeySet::from_snapshot(snapshot).unwrap();
    assert_eq!(keys.credentials[0].principal.rate_limit_tpm(), 60_000);
    assert!(!keys.credentials[0].principal.funds_exhausted());
}

#[test]
fn concurrency_settings_are_bounded_and_invalid_values_fail_closed() {
    let defaults = billing::Settings::parse(|_| None).unwrap();
    assert_eq!((defaults.workers, defaults.capacity), (4, 64));
    for (key, value) in [
        ("WORKERS", "0"),
        ("WORKERS", "33"),
        ("CAPACITY", "4097"),
        ("TIMEOUT_MS", "-1"),
    ] {
        assert!(
            billing::Settings::parse(|name| (name == format!("XSCOPE_BILLING_ADMISSION_{key}"))
                .then(|| value.into()))
            .is_err()
        );
    }
}

fn entry(json: &str) -> Option<ServingConfig> {
    ServingConfig::from_json(&serde_json::from_str(json).unwrap())
}

#[test]
fn serving_entries_are_read_with_their_defaults() {
    let bare = entry(r#"{"id":"pool-a","model":"demo","address":"serving:8085"}"#).unwrap();
    assert_eq!((bare.revision.as_str(), bare.tls, bare.server_name.as_str()), ("", false, ""));
    let full = entry(
        r#"{"id":"a","model":"m","address":"h:1","revision":"r","tls":true,"server_name":"n"}"#,
    )
    .unwrap();
    assert_eq!((full.id.as_str(), full.model.as_str(), full.address.as_str()), ("a", "m", "h:1"));
    assert_eq!((full.revision.as_str(), full.tls, full.server_name.as_str()), ("r", true, "n"));
    let listed = entry(r#"["a","m","h:1"]"#).unwrap();
    assert_eq!((listed.id.as_str(), listed.address.as_str(), listed.tls), ("a", "h:1", false));
    let listed = entry(r#"["a","m","h:1","r",true,"n"]"#).unwrap();
    assert_eq!((listed.revision.as_str(), listed.server_name.as_str()), ("r", "n"));
    for refused in [
        "[]",
        r#"["a","m"]"#,
        r#"["a","m",7]"#,
        r#"["a","m","h:1",null]"#,
        r#"["a","m","h:1","r",true,"n",0]"#,
        r#"{"id":"a","model":"m"}"#,
        r#"{"id":"a","model":"m","address":7}"#,
        r#"{"id":"a","model":"m","address":"h:1","tls":"yes"}"#,
        r#"{"id":"a","model":"m","address":"h:1","revision":null}"#,
    ] {
        assert!(entry(refused).is_none());
    }
}

#[test]
fn serving_entry_requires_identity_and_rejects_legacy_weights() {
    let entry_a = entry(r#"{"id":"pool-a","model":"demo","address":"serving:8085"}"#).unwrap();
    assert!(entry_a.validate().is_ok());
    let invalid = ServingConfig {
        model: String::new(),
        ..entry_a
    };
    assert!(invalid.validate().is_err());
    assert!(
        entry(r#"{"id":"pod-a","model":"demo","address":"10.0.0.1:8000","weight":100}"#).is_none()
    );
}

fn queue() -> Queue {
    Queue::new(Settings {
        capacity: 1,
        workers: 1,
        max_age_ms: 1000,
        drain_ms: 1,
        grace_seconds: 1,
    })
}

#[test]
fn in_flight_reserves_capacity_and_cancel_returns_it() {
    let mut q = queue();
    let p = q.reserve(0).unwrap();
    assert!(!q.is_ready(0));
    assert!(q.reserve(0).is_err());
    q.cancel(p);
    assert!(q.is_ready(0));
    q.begin_drain();
    assert!(q.reserve(0).is_err());
}

#[test]
fn slots_are_of_one_outbox() {
    let (mut a, mut b) = (queue(), queue());
    assert_ne!(a.identity, b.identity);
    let permit = a.reserve(0).unwrap();
    assert_eq!(permit.queue, a.identity);
    let _own = b.reserve(0).unwrap();
    b.cancel(permit);
    assert!(!b.is_ready(0));
    assert!(!a.is_ready(0));
}

#[test]
fn old_pending_blocks_admission_but_not_retries() {
    let mut q = queue();
    let _p = q.reserve(0).unwrap();
    q.settings.capacity = 2;
    assert!(q.is_ready(0));
    q.entries[0].queued = Some(-2_000_000);
    assert!(!q.is_ready(0));
    assert!(backoff(1, 0) < backoff(4, 0));
    assert!(backoff(u32::MAX, u64::MAX) <= 10_250);
}

#[test]
fn client_cannot_override_epp_destination_retries_or_objective() {
    let mut request = RequestHeader::build("POST", b"/v1/chat/completions", None).unwrap();
    for name in [
        "x-gateway-destination-endpoint",
        "x-envoy-original-dst-host",
        "x-envoy-retry-on",
        "x-inference-objective",
        "authorization",
        "accept-encoding",
        "x-route-cohort",
        "x-xscope-pool",
    ] {
        request.insert_header(name, "untrusted").unwrap();
    }
    request.insert_header("x-canary", "preview").unwrap();
    request.insert_header("x-request-id", "trace-id").unwrap();
    strip_serving_control_headers(&mut request);
    assert_eq!(request.headers.len(), 2);
    assert_eq!(request.headers["x-canary"], "preview");
    assert_eq!(request.headers["x-request-id"], "trace-id");
}

#[test]
fn cohort_names_are_case_insensitive_but_values_are_exact_and_unambiguous() {
    let rule = HeaderRoute {
        name: "x-route-cohort".into(),
        value: "qa".into(),
        target: RouteTarget::Canary,
    };
    let mut headers = http::HeaderMap::new();
    headers.insert("X-Route-Cohort", http::HeaderValue::from_static("qa"));
    assert!(header_matches(&headers, &rule));
    headers.append("x-route-cohort", http::HeaderValue::from_static("qa"));
    assert!(!header_matches(&headers, &rule));
    headers.insert("x-route-cohort", http::HeaderValue::from_static("QA"));
    assert!(!header_matches(&headers, &rule));
}

#[test]
fn missing_usage_is_pending_but_missing_done_is_provider_error() {
    let mut ctx = RequestContext {
        stream_requested: true,
        stream_response: true,
        response_status: 200,
        response_complete: true,
        ..RequestContext::default()
    };
    assert_eq!(ctx.outcome(None), "provider_error");
    ctx.stream_meter.observe(b"data: [DONE]\n\n").unwrap();
    assert_eq!(ctx.outcome(None), "usage_pending");
}

#[test]
fn text_completion_contract_is_separate_and_financially_bounded() {
    let body = br#"{"model":"synthetic","prompt":"hello","max_tokens":4,"stream":true}"#;
    let request = parse_request(body, true).unwrap();
    assert_eq!(money_token_limits(&request, 700).unwrap(), (696, 4));
    assert!(request.stream);
    assert!(parse_request(body, false).is_err());
    assert!(parse_request(
        br#"{"model":"synthetic","messages":[],"max_tokens":4}"#,
        true
    )
    .is_err());
    assert!(parse_request(br#"{"model":"synthetic","prompt":["a","b"]}"#, true).is_err());
    assert!(parse_request(
        br#"{"model":"synthetic","prompt":"x","max_completion_tokens":4}"#,
        true
    )
    .is_err());
}

#[test]
fn handles_every_utf8_and_crlf_split_and_does_not_sum_repeated_usage() {
    let data = ": heartbeat\r\ndata: {\"choices\":[{\"delta\":{\"content\":\"你好\"}}],\"usage\":null}\r\n\r\ndata: {\"usage\":{\"prompt_tokens\":2,\"completion_tokens\":3}}\r\n\r\ndata: {\"usage\":{\"prompt_tokens\":2,\"completion_tokens\":3}}\n\ndata: [DONE]\n\n";
    for split in 0..=data.len() {
        let mut meter = StreamMeter::default();
        meter
            .observe(&data.as_bytes()[..split])
            .unwrap_or_else(|e| panic!("split {split} prefix: {e}"));
        meter
            .observe(&data.as_bytes()[split..])
            .unwrap_or_else(|e| panic!("split {split} suffix: {e}"));
        assert!(meter.done);
        assert_eq!(
            meter.usage.unwrap(),
            CompletionUsage {
                prompt_tokens: 2,
                completion_tokens: 3
            }
        );
    }
}

#[test]
fn long_stream_keeps_only_one_event_in_memory() {
    let mut meter = StreamMeter::default();
    for _ in 0..40_000 {
        meter
            .observe(b"data: {\"choices\":[],\"usage\":null}\n\n")
            .unwrap();
    }
    assert!(meter.usage.is_none());
}

#[test]
fn rejects_oversized_or_conflicting_or_error_events() {
    let mut meter = StreamMeter::default();
    let oversized = format!("data: {}", "a".repeat(MAX_EVENT_BYTES + 1));
    assert!(meter.observe(oversized.as_bytes()).is_err());
    assert!(meter.invalid);
    let mut meter = StreamMeter::default();
    meter
        .observe(b"data: {\"usage\":{\"prompt_tokens\":1,\"completion_tokens\":2}}\n\n")
        .unwrap();
    assert!(meter
        .observe(b"data: {\"usage\":{\"prompt_tokens\":1,\"completion_tokens\":3}}\n\n")
        .is_err());
    assert!(meter.usage.is_none());
    assert!(StreamMeter::default()
        .observe(b"data: {\"error\":{\"message\":\"failed\"}}\n\n")
        .is_err());
}

#[test]
fn eof_without_terminal_marker_is_not_success() {
    let mut meter = StreamMeter::default();
    meter.observe(b"data: {\"usage\":null}\n\n").unwrap();
    assert!(!meter.done);
    assert!(meter.usage.is_none());
}

fn snapshot(t: &Traffic, sequence: i64, generation: i64, accepting: bool) -> TrafficSnapshot {
    TrafficSnapshot {
        admission_token: String::new(),
        session_id: t.session_id.clone(),
        sequence,
        nonce: uuid::Uuid::now_v7().to_string(),
        lease_seconds: LEASE_SECONDS,
        pools: vec![PoolControl {
            id: "managed-synthetic".into(),
            generation,
            accepting,
        }],
    }
}

#[test]
fn drain_fences_old_contexts_and_counts_until_drop() {
    let now = 1_000_000_000;
    let mut t = Traffic::new();
    let active = |t: &Traffic| *t.report().unwrap().active.get("managed-synthetic").unwrap();
    t.install(snapshot(&t, 1, 1, true), now).unwrap();
    let first = t.enter("managed-synthetic", 1, now).unwrap();
    t.install(snapshot(&t, 2, 2, false), now).unwrap();
    assert!(t.enter("managed-synthetic", 1, now).is_err());
    assert!(t.enter("managed-synthetic", 2, now).is_err());
    assert_eq!(active(&t), 1);
    t.leave(first);
    assert_eq!(active(&t), 0);
    assert!(t.install(snapshot(&t, 3, 1, true), now).is_err());
    t.install(
        snapshot(&t, 4, 3, true),
        now - (LEASE_SECONDS as i64 + 1) * 1_000_000,
    )
    .unwrap();
    assert!(t.enter("managed-synthetic", 3, now).is_err());
    t.close();
    t.install(snapshot(&t, 5, 3, true), now).unwrap();
    assert!(t.enter("managed-synthetic", 3, now).is_err());
}

#[test]
fn permits_are_counted_over_all_grants() {
    let now = 1_000_000_000;
    let mut t = Traffic::new();
    let active = |t: &Traffic| *t.report().unwrap().active.get("managed-synthetic").unwrap();
    t.install(snapshot(&t, 1, 1, true), now).unwrap();
    let first = t.enter("managed-synthetic", 1, now).unwrap();
    let second = t.enter("managed-synthetic", 1, now).unwrap();
    t.install(snapshot(&t, 2, 2, false), now).unwrap();
    t.leave(first);
    t.install(snapshot(&t, 3, 3, true), now).unwrap();
    let third = t.enter("managed-synthetic", 3, now).unwrap();
    assert_eq!(active(&t), 2);
    t.close();
    t.leave(second);
    assert_eq!(active(&t), 1);
    t.leave(third);
    assert_eq!(active(&t), 0);
}

#[test]
fn reservations_are_bounded_and_returned_only_after_last_owner() {
    let free = u64::MAX;
    let mut budget = StorageBudget::new(StorageSettings {
        segment_bytes: 1,
        max_bytes: REQUEST_SPACE,
        min_free_bytes: 4096,
    });
    let mut permit = budget.reserve(free).unwrap();
    permit.share();
    assert!(!budget.is_ready(free));
    budget.release(&mut permit);
    assert!(budget.reserve(free).is_err());
    budget.release(&mut permit);
    assert!(budget.is_ready(free));
    budget.add_retained(1).unwrap();
    assert!(budget.reserve(free).is_err());
}
