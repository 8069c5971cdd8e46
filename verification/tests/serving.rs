use xscope::collections::TextMap;
use xscope::domain::catalog::{CatalogModel, CatalogSnapshot, ServingEndpoint};
use xscope::domain::routing::{HeaderRoute, RoutePolicy, RoutePolicySpec, RouteTarget};
use xscope::domain::traffic::{PoolControl, TrafficSnapshot, LEASE_SECONDS};
use xscope::domain::Model;
use xscope::gateway::admission::{
    admit_request, are_limits_in_range, bound_output, checked_request, context_of,
    estimate_reserved_tokens, financial_refusal, include_usage, is_countable, money_token_limits,
    parse_request, quota_outcome, reservation, reservation_with, ModelRequest, MAX_WHITESPACE,
};
use xscope::gateway::auth::{DynamicKeySet, GatewayKey, GatewaySnapshot, KeySet, Principal};
use xscope::gateway::billing::{
    admitted_ticket, after_dispatch, after_release, after_reserve, decode, decode_with, expired_before_reserve,
    needs_recovery, outcome, recover, reserve_url, ticket_of, transition_url, Admission, AdmitStep,
    Decision, RecoverStep,
};
use xscope::gateway::config::{ApiKeyConfig, Environment, ServingConfig, Settings};
use xscope::gateway::context::{
    resolution_refusal, Change, Failure, Peer, RequestContext, Resolution,
};
use xscope::gateway::delivery::{Permit, Queue, Settings as QueueSettings};
use xscope::gateway::filter::{Filtered, Gateway};
use xscope::gateway::proxy::{
    body_end, extend_body, fresh_roll, health, list_models, readiness, request_id, roll_of, route,
    select_pool, trace_route, BodyEnd, Pools, ReplyBody, Route,
    MAX_CAPTURE_BYTES,
};
use xscope::gateway::quota::{
    another_attempt, awaited, execute, map_send_error, reserve_command, reserve_command_with,
    reserve_reply, settle_reply, Answer, Command, CommandResult, QuotaDecision, QuotaDenial,
    QuotaError, QuotaReservation, Wait, script,
};
use xscope::gateway::storage::StorageSettings;
use xscope::gateway::streaming::StreamMeter;
use xscope::gateway::traffic::Traffic;
use xscope::gateway::usage::{
    acknowledged, deliver, http_failure, write_event, CompletionResponse, CompletionUsage,
    DeliveryError, Report, UsageEvent, UsageRecord, UsageSink,
};
use xscope::time::{is_datable, FIRST_INSTANT, LAST_INSTANT};

use base64::Engine;
use http::{HeaderMap, HeaderValue};
use sha2::Digest;

const NOW: i64 = 1_700_000_000_000_000;

fn keys() -> DynamicKeySet {
    DynamicKeySet::new(&[ApiKeyConfig {
        id: "key-1".into(),
        tenant_id: "tenant-1".into(),
        project_id: "project-1".into(),
        secret: "secret-value".into(),
    }])
}

fn principal() -> Principal {
    keys().authenticate(Some("Bearer secret-value"), 0).unwrap().clone()
}

fn serving(id: &str) -> ServingConfig {
    ServingConfig {
        id: id.into(),
        model: "xscope-demo".into(),
        address: "serving:8085".into(),
        revision: "r1".into(),
        tls: false,
        server_name: String::new(),
    }
}

fn transports() -> TextMap<ServingConfig> {
    let mut map = TextMap::new();
    map.insert("pool-a", serving("pool-a"));
    map.insert("pool-b", serving("pool-b"));
    map
}

fn gateway(capacity: u64) -> Gateway {
    Gateway {
        transports: transports(),
        serving: serving("pool-a"),
        keys: keys(),
        queue: Queue::new(QueueSettings {
            capacity,
            workers: 1,
            max_age_ms: 1000,
            drain_ms: 1,
            grace_seconds: 1,
        }),
        traffic: Traffic::new(),
        distributed: false,
        billing_healthy: None,
    }
}

fn headers(pairs: &[(&'static str, &'static str)]) -> HeaderMap {
    let mut map = HeaderMap::new();
    for (name, value) in pairs {
        map.append(*name, HeaderValue::from_static(value));
    }
    map
}

fn chat(model: &str) -> ModelRequest {
    ModelRequest {
        model: model.into(),
        messages: serde_json::from_str(r#"[{"role":"user","content":"hello"}]"#).unwrap(),
        prompt: None,
        max_tokens: Some(4),
        max_completion_tokens: None,
        n: None,
        stream: false,
    }
}

#[test]
fn requests_are_routed_by_method_and_path() {
    assert_eq!(route("GET", "/healthz"), Route::Health);
    assert_eq!(route("GET", "/readyz"), Route::Ready);
    assert_eq!(route("GET", "/v1/models"), Route::Models);
    assert_eq!(route("POST", "/v1/chat/completions"), Route::ChatCompletions);
    assert_eq!(route("POST", "/v1/completions"), Route::Completions);
    assert_eq!(route("GET", "/v1/completions"), Route::Unknown);
    assert_eq!(trace_route("/healthz"), None);
    assert_eq!(trace_route("/v1/models"), Some("/v1/models"));
    assert_eq!(health().status, 200);
}

#[test]
fn a_request_is_let_in_by_key_rate_and_room() {
    let mut g = gateway(1);
    let auth = headers(&[("authorization", "Bearer secret-value")]);
    let ask = |g: &mut Gateway, h: &HeaderMap| {
        g.request_filter("POST", "/v1/chat/completions", h, true, NOW, 1_700_000_000)
    };
    assert!(matches!(
        ask(&mut g, &headers(&[])),
        Filtered::Answer(reply) if reply.status == 401
    ));
    let permit = match ask(&mut g, &auth) {
        Filtered::Admitted {
            caller: 0,
            permit,
            text_completion: false,
        } => permit,
        _ => panic!("the key is known"),
    };
    assert!(matches!(
        ask(&mut g, &auth),
        Filtered::Answer(reply) if reply.status == 503
    ));
    g.queue.cancel(permit);
    assert!(matches!(ask(&mut g, &auth), Filtered::Admitted { .. }));
    assert!(matches!(
        g.request_filter("GET", "/nowhere", &auth, true, NOW, 0),
        Filtered::Answer(reply) if reply.status == 404
    ));
    let found = g.keys.current.clone();
    let (parsed, selection, permit) = g
        .place_with(&found, 0, Some(chat("xscope-demo")), false, &auth, 0, NOW)
        .unwrap();
    assert_eq!((parsed.model.as_str(), selection.pool_id.as_str()), ("xscope-demo", "pool-a"));
    assert!(permit.is_none());
    assert!(g.place(&found, 0, b"{}", false, &auth, NOW).is_err());
    let body = br#"{"model":"xscope-demo","messages":[]}"#;
    let again = g.place(&found, 0, body, false, &auth, NOW);
    let twice = br#"{"model":"xscope-demo","messages":[],"model":"xscope-demo"}"#;
    assert!(g.place(&found, 0, twice, false, &auth, NOW).is_err());
    assert_eq!(again.ok().unwrap().1.pool_id, "pool-a");
}

#[test]
fn the_rate_of_a_key_is_bounded() {
    let mut k = keys();
    let p = principal();
    let limit = p.rate_limit_rpm();
    for _ in 0..limit {
        assert!(k.check_rate_limit(&p, 60));
    }
    assert!(!k.check_rate_limit(&p, 119));
    assert!(k.check_rate_limit(&p, 120));
}

#[test]
fn expired_keys_are_nobodys() {
    let key = |hash: &str, expires_at| GatewayKey {
        id: "k".into(),
        tenant_id: "t".into(),
        project_id: "p".into(),
        secret_hash: hash.into(),
        scopes: vec!["completions".into()],
        allowed_models: vec!["m".into()],
        expires_at,
        rate_limit_rpm: 1,
        rate_limit_tpm: Some(2),
        monthly_budget: 5,
        current_month_spend: 5,
        balance_enforced: Some(true),
        available_balance: Some(0),
    };
    let snapshot = |key| GatewaySnapshot {
        keys: vec![key],
        route_policies: vec![],
        catalog: None,
        traffic: None,
    };
    let digest = sha2::Sha256::digest(b"secret-value");
    let hash = base64::engine::general_purpose::STANDARD.encode(digest);
    let bad = KeySet::from_snapshot(snapshot(key("AAAA", None)));
    assert!(bad.is_err());
    let set = KeySet::from_snapshot(snapshot(key(&hash, Some(100)))).unwrap();
    assert_eq!(set.find(Some("Bearer secret-value"), 99), Some(0));
    assert!(set.find(Some("Bearer secret-value"), 100).is_none());
    let p = &set.credentials[0].principal;
    assert!(p.budget_exhausted() && p.funds_exhausted());
    assert_eq!(p.rate_limit_tpm(), 2);
}

#[test]
fn pools_are_selected_by_policy_header_and_roll() {
    let mut p = principal();
    p.route_policies = vec![RoutePolicy {
        tenant_id: "tenant-1".into(),
        project_id: "project-1".into(),
        model: "xscope-demo".into(),
        revision: 3,
        spec: RoutePolicySpec {
            stable_pool: "pool-a".into(),
            canary_pool: Some("pool-b".into()),
            canary_percent: 10,
            headers: vec![HeaderRoute {
                name: "x-route-cohort".into(),
                value: "qa".into(),
                target: RouteTarget::Canary,
            }],
        },
    }];
    let map = transports();
    let base = serving("pool-a");
    let pools = Pools {
        catalog: None,
        serving: &base,
        transports: &map,
    };
    let none = headers(&[]);
    let pick = |roll, h: &HeaderMap| select_pool(&p, "xscope-demo", &pools, h, roll).unwrap();
    assert_eq!(pick(9, &none).pool_id, "pool-b");
    assert_eq!(pick(10, &none).pool_id, "pool-a");
    let qa = headers(&[("x-route-cohort", "qa")]);
    let chosen = pick(99, &qa);
    assert_eq!((chosen.pool_id.as_str(), chosen.reason), ("pool-b", "header"));
    assert_eq!(chosen.policy_revision, 3);
    assert!(select_pool(&p, "other", &pools, &none, 0).is_err());
    assert!((0..50).all(|_| fresh_roll() < 100));
    assert_eq!(roll_of(1234), 34);
}

#[test]
fn catalogs_name_the_models_that_can_be_asked_for() {
    let catalog = CatalogSnapshot {
        models: vec![CatalogModel {
            revision: 1,
            enabled: true,
            default_pool: Some("pool-z".into()),
            model: Model::default(),
        }],
        endpoints: vec![ServingEndpoint {
            id: "pool-z".into(),
            model: "xscope-demo".into(),
            revision: "r2".into(),
            address: "z:1".into(),
            tls: false,
            server_name: String::new(),
        }],
    };
    let p = principal();
    let map = transports();
    let reply = list_models(Some(&p), Some(&catalog), &map);
    assert_eq!(reply.status, 200);
    assert!(matches!(reply.body, ReplyBody::Models(models) if models == vec!["xscope-demo".to_owned()]));
    assert_eq!(list_models(None, Some(&catalog), &map).status, 401);
    let base = serving("pool-a");
    let pools = Pools {
        catalog: Some(&catalog),
        serving: &base,
        transports: &map,
    };
    let chosen = select_pool(&p, "xscope-demo", &pools, &headers(&[]), 0).unwrap();
    assert_eq!((chosen.pool_id.as_str(), chosen.model_revision.as_str()), ("pool-z", "r2"));
    assert_eq!(readiness(true, &keys(), true).status, 200);
    assert_eq!(readiness(false, &keys(), true).status, 503);
}

#[test]
fn managed_pools_are_entered_under_a_grant() {
    let mut g = gateway(1);
    let grant = TrafficSnapshot {
        admission_token: "t".repeat(43),
        session_id: g.traffic.session_id.clone(),
        sequence: 1,
        nonce: uuid::Uuid::now_v7().to_string(),
        lease_seconds: LEASE_SECONDS,
        pools: vec![PoolControl {
            id: "managed-1".into(),
            generation: 4,
            accepting: true,
        }],
    };
    assert!(g.traffic.admission_headers(NOW).is_none());
    g.traffic.install(grant, NOW).unwrap();
    let (session, token) = g.traffic.admission_headers(NOW).unwrap();
    assert_eq!((session, token), (g.traffic.session_id.clone(), "t".repeat(43)));
    assert!(g.traffic.enter("managed-1", 3, NOW).is_err());
    let permit = g.traffic.enter("managed-1", 4, NOW).unwrap();
    let report = g.traffic.report().unwrap();
    assert_eq!((report.sequence, report.active.get("managed-1")), (1, Some(&1)));
    g.traffic.leave(permit);
    assert_eq!(g.traffic.report().unwrap().active.get("managed-1"), Some(&0));
    assert!(g.traffic.enter("managed-1", 4, NOW + 15_000_000).is_err());
}

#[test]
fn bodies_are_bounded() {
    let mut body = vec![0; MAX_CAPTURE_BYTES];
    assert!(extend_body(&mut body, b"").is_ok());
    assert_eq!(extend_body(&mut body, b"a").unwrap_err().status, Some(413));
    assert!(body_end(BodyEnd::Complete).is_ok());
    assert_eq!(body_end(BodyEnd::DeadlinePassed).unwrap_err().status, Some(408));
    assert!(body_end(BodyEnd::Truncated).is_err());
    assert_eq!(request_id(&headers(&[("x-request-id", "abc")])), "abc");
    assert_ne!(request_id(&headers(&[])), request_id(&headers(&[])));
}

#[test]
fn what_is_paid_for_is_what_is_sent() {
    let request = chat("xscope-demo");
    assert!(is_countable(&request));
    let (input, output) = money_token_limits(&request, 100).unwrap();
    assert_eq!((input, output), (96, 4));
    assert!(money_token_limits(&request, 4).is_err());
    // The messages are counted as the text that they are written with.
    let counted = estimate_reserved_tokens(&request);
    assert!(counted > 4 && counted < 100);
    let body = br#"{"model":"xscope-demo","max_completion_tokens":9,"max_tokens":4,"x":1}"#;
    let bounded = bound_output(body, "max_tokens", 4).unwrap();
    assert_eq!(
        String::from_utf8(bounded).unwrap(),
        r#"{"max_tokens":4,"model":"xscope-demo","x":1}"#
    );
    let metered = include_usage(br#"{"stream":true,"stream_options":null}"#).unwrap();
    assert_eq!(
        String::from_utf8(metered).unwrap(),
        r#"{"stream":true,"stream_options":{"include_usage":true}}"#
    );
    assert!(include_usage(br#"{"stream_options":1}"#).is_err());
    let model = Model::default();
    let p = principal();
    let done = admit_request(
        br#"{"model":"xscope-demo","messages":[],"max_tokens":4}"#.to_vec(),
        &request,
        Some(&p),
        Some(&model),
        Some(100),
    )
    .unwrap()
    .unwrap();
    assert_eq!(done.limits, Some((96, 4)));
    assert_eq!(done.tokens, counted);
    assert!(admit_request(vec![], &request, None, None, None).unwrap().is_err());
    let other = chat("other");
    let refused = admit_request(vec![], &other, Some(&p), None, None).unwrap().err().unwrap();
    assert_eq!(refused.status, Some(403));
    let endless = ModelRequest {
        max_tokens: Some(u64::MAX),
        ..chat("xscope-demo")
    };
    assert!(are_limits_in_range(&endless, 32_768) && are_limits_in_range(&endless, i64::MIN));
    assert_eq!(money_token_limits(&endless, 32_768).err().unwrap().status, Some(400));
    let refused = admit_request(vec![], &endless, Some(&p), Some(&model), Some(32_768));
    assert_eq!(refused.unwrap().err().unwrap().status, Some(400));
    assert_eq!(context_of(None, 100), 100);
    assert_eq!(context_of(Some(&model), i64::MAX), model.max_context_tokens);
    assert_eq!(parse_request(b"{", false).err().unwrap().status, Some(400));
    assert_eq!(checked_request(None, false).err().unwrap().status, Some(400));
}

#[test]
fn long_rows_of_whitespace_are_counted_up_to_a_bound() {
    let spaced = |count: usize| ModelRequest {
        messages: serde_json::Value::String(" ".repeat(count)),
        ..chat("xscope-demo")
    };
    let longest = spaced(MAX_WHITESPACE);
    assert!(is_countable(&longest));
    assert!(estimate_reserved_tokens(&longest) > 4);
    let longer = spaced(MAX_WHITESPACE + 1);
    assert!(!is_countable(&longer));
    let p = principal();
    assert!(admit_request(vec![], &longer, Some(&p), None, None).is_none());
}

#[test]
fn bodies_are_read_field_by_field() {
    let read = |body: &[u8]| ModelRequest::from_slice(body);
    let full = read(
        br#"{"model":"m","messages":[1],"prompt":"p","max_tokens":4,"n":2,"stream":true,"x":0}"#,
    )
    .unwrap();
    assert_eq!((full.model.as_str(), full.max_tokens, full.n), ("m", Some(4), Some(2)));
    assert_eq!(full.prompt.unwrap().as_str(), Some("p"));
    assert!(full.messages.is_array() && full.stream && full.max_completion_tokens.is_none());
    let bare = read(br#"{"model":"m","prompt":null,"max_tokens":null}"#).unwrap();
    assert!(bare.messages.is_null() && bare.prompt.is_none() && bare.max_tokens.is_none());
    assert!(!bare.stream);
    // What no field is read from may hold anything that is well formed.
    let deep = format!(r#"{{"model":"m","x":{}{}}}"#, "[".repeat(100), "]".repeat(100));
    for unread in [r#"{"x":1e999,"model":"m"}"#, r#"{"model":"m","x":"\ud800"}"#, &deep] {
        assert_eq!(read(unread.as_bytes()).unwrap().model, "m");
    }
    assert!(read(br#"{"model":"m","max_tokens":1e999}"#).is_none());
    assert!(read(br#"{"model":"\ud800"}"#).is_none());
    let listed = read(br#"["m",[],null,4,null,1]"#).unwrap();
    assert_eq!((listed.model.as_str(), listed.max_tokens, listed.n), ("m", Some(4), Some(1)));
    for body in [
        &br#"{"messages":[]}"#[..],
        br#"{"model":7}"#,
        br#"{"model":"m","max_tokens":-1}"#,
        br#"{"model":"m","n":1.5}"#,
        br#"{"model":"m","stream":null}"#,
        br#"["m",[],null,4,null]"#,
        br#""m""#,
        b"",
    ] {
        assert!(read(body).is_none(), "{body:?}");
    }
    // A field that is given twice is refused, however it is written.
    assert!(read(br#"{"model":"m","model":"m"}"#).is_none());
    assert!(read(br#" { "n":1 , "model" : "m", "x":{"n":[]}, "\u006e" : 1 } "#).is_none());
    let once = br#" { "n":1 , "model" : "m", "x":{"n":[],"n":"\"}"}, "x":1 } "#;
    assert_eq!(read(once).unwrap().n, Some(1));
    assert_eq!(read(br#"{"x":[1,2],"model":"m","x":null}"#).unwrap().model, "m");
}

#[test]
fn kept_bodies_state_their_usage() {
    let usage = |body: &[u8]| CompletionResponse::from_slice(body).map(|read| read.usage);
    let stated = CompletionUsage { prompt_tokens: 2, completion_tokens: 3 };
    let body = br#"{"id":"c","usage":{"prompt_tokens":2,"completion_tokens":3,"total":5}}"#;
    assert_eq!(usage(body), Some(stated));
    assert_eq!(usage(br#"[[2,3]]"#), Some(stated));
    let body = br#"{"id":"\ud800","x":1e999,"usage":{"x":1e999,"completion_tokens":3,"prompt_tokens":2}}"#;
    assert_eq!(usage(body), Some(stated));
    assert_eq!(usage(br#"{"usage":{"prompt_tokens":2,"completion_tokens":1e999}}"#), None);
    assert_eq!(usage(br#"{"usage":null}"#), None);
    assert_eq!(usage(br#"{"usage":{"prompt_tokens":2}}"#), None);
    assert_eq!(usage(b"not json"), None);
    let body = br#"{"usage":{"prompt_tokens":2,"completion_tokens":3}}"#;
    let ctx = RequestContext { response_body: body.to_vec(), ..RequestContext::default() };
    assert_eq!(ctx.captured_usage(), Some(stated));
    assert_eq!(ctx.actual_usage(), Some(stated));
    for twice in [
        &br#"{"usage":[2,3],"usage":[2,3]}"#[..],
        br#"{"usage":{"prompt_tokens":2,"completion_tokens":3,"prompt_tokens":2}}"#,
        br#"[{"completion_tokens":3,"prompt_tokens":2,"completion_tokens":3}]"#,
    ] {
        assert_eq!(usage(twice), None);
    }
    assert_eq!(usage(br#"{"id":1,"usage":[2,3],"id":2}"#), Some(stated));
}

#[test]
fn reservations_name_the_caller_and_the_bound() {
    let p = principal();
    let model = Model::default();
    let r = reservation_with(&p, "xscope-demo", "r1", Some(&model), "old", (96, 4), "req-1".into());
    assert_eq!((r.id.as_str(), r.request_id.as_str()), ("req-1", "req-1"));
    assert_eq!(r.price_version, model.price_version);
    assert_eq!((r.input_token_limit, r.output_token_limit), (96, 4));
    let fresh = reservation(&p, "xscope-demo", "r1", None, "old", (96, 4));
    assert!(fresh.id.starts_with("req-"));
    assert_eq!(fresh.price_version, "old");
    assert_eq!(ticket_of(&r).id, "req-1");
    assert_eq!(reserve_url("http://c"), "http://c/billing/reservations");
    let url = transition_url("http://c", &r, "dispatch");
    assert!(url.contains("project-1") && url.contains("req-1") && url.ends_with("dispatch"), "{url}");
    assert_ne!(financial_refusal(402).status, Some(200));
}

#[test]
fn only_fresh_holds_are_dispatched() {
    let state = |body: &[u8]| decode(true, 200, body);
    assert_eq!(state(br#"{"id":1e999,"state":"reserved"}"#), Ok("reserved".into()));
    assert_eq!(state(br#"["reserved"]"#), Ok("reserved".into()));
    for body in [
        &br#"{"state":"reserved","state":"reserved"}"#[..],
        br#"{"state":7}"#,
        br#"["reserved",1]"#,
        b"{}",
        b"",
    ] {
        assert_eq!(state(body), Err(503));
    }
    assert_eq!(decode(false, 402, br#"{"state":"reserved"}"#), Err(402));
    assert_eq!(decode_with(true, 200, Some("held".into())), Ok("held".into()));
    assert!(expired_before_reserve(true, false) && expired_before_reserve(false, true));
    assert_eq!(after_reserve(&Ok("reserved".into()), false, false), AdmitStep::Dispatch);
    assert!(matches!(
        after_reserve(&Ok("dispatched".into()), false, false),
        AdmitStep::Decided(_)
    ));
    assert!(matches!(after_reserve(&Err(402), false, false), AdmitStep::Decided(Decision::Rejected(402))));
    assert_eq!(after_dispatch(&Ok("dispatched".into())), Decision::Dispatched);
    assert_eq!(outcome(Decision::Dispatched), Ok(()));
    assert!(outcome(Decision::Uncertain(503)).is_err());
    assert!(needs_recovery(Decision::Uncertain(503), false));
    assert!(!needs_recovery(Decision::Rejected(402), false));
    assert_eq!(recover(&Ok("reserved".into())), RecoverStep::Release);
    assert_eq!(recover(&Ok("dispatched".into())), RecoverStep::Reconciled);
    assert!(after_release(&Ok("released".into())).is_ok());
    let r = reservation(&principal(), "m", "r", None, "v", (1, 1));
    assert!(admitted_ticket(&r, Admission::Answered(Ok(()))).is_ok());
    assert!(admitted_ticket(&r, Admission::QueueFull).is_err());
    assert!(admitted_ticket(&r, Admission::Answered(Err(402))).is_err());
}

#[test]
fn quotas_are_kept_by_the_minute() {
    let p = principal();
    let command = reserve_command_with(&p, 7, 125, "id-1".into());
    assert!(matches!(
        &command,
        Command::Reserve { id, expires_at: 240, tokens: 7, .. } if id == "id-1"
    ));
    assert!(matches!(
        execute(&command, Answer::Numbers(vec![1])),
        Ok(CommandResult::Reserved(QuotaDecision::Allowed(r))) if r.id == "id-1" && r.reserved_tokens == 7
    ));
    assert!(matches!(
        execute(&command, Answer::Failed("down".into())),
        Err(QuotaError::Redis(_))
    ));
    assert!(matches!(reserve_command(&p, 7, 125), Command::Reserve { .. }));
    let kept = || QuotaReservation {
        key: "k".into(),
        id: "i".into(),
        reserved_tokens: 1,
    };
    assert!(matches!(
        quota_outcome(Ok(Some(QuotaDecision::Allowed(kept())))),
        Ok(Some(_))
    ));
    let denied = quota_outcome(Ok(Some(QuotaDecision::Denied(QuotaDenial::TokensPerMinute))));
    assert_eq!(denied.unwrap_err().status, Some(429));
    assert_eq!(quota_outcome(Err(QuotaError::Timeout)).unwrap_err().status, Some(503));
    assert!(quota_outcome(Ok(None)).unwrap().is_none());
    assert!(another_attempt(0, false, false) && !another_attempt(0, true, false));
    assert!(settle_reply(Ok(CommandResult::Settled)).is_ok());
    assert!(reserve_reply(Ok(CommandResult::Settled)).is_err());
    assert!(matches!(awaited::<()>(Wait::Expired), Err(QuotaError::Timeout)));
    assert!(matches!(map_send_error(), QuotaError::Unavailable));
}

fn context() -> RequestContext {
    RequestContext {
        request_id: "req-1".into(),
        principal: Some(principal()),
        endpoint_id: "pool-a".into(),
        model_revision: "r1".into(),
        policy_revision: 3,
        model_id: "xscope-demo".into(),
        request_body: b"{}".to_vec(),
        meterable: true,
        ..RequestContext::default()
    }
}

#[test]
fn a_body_is_forwarded_once() {
    let mut ctx = context();
    assert!(ctx.forward_body(false).is_err());
    assert_eq!(ctx.forward_body(true).unwrap(), b"{}");
    assert!(ctx.forward_body(true).is_err());
}

#[test]
fn requests_leave_with_the_headers_of_the_gateway() {
    let ctx = context();
    let map = transports();
    assert!(matches!(ctx.peer(&map), Ok(Peer::Reached(c)) if c.id == "pool-a"));
    let lost = RequestContext {
        endpoint_id: "pool-z".into(),
        ..context()
    };
    assert_eq!(lost.peer(&map).err().unwrap().status, Some(503));
    let names = |changes: &[Change]| {
        changes
            .iter()
            .map(|c| (c.name.clone(), c.value.clone()))
            .collect::<Vec<_>>()
    };
    let changes = ctx.upstream_changes(None, false);
    assert_eq!(
        names(&changes),
        vec![
            ("x-request-id".to_owned(), Some("req-1".to_owned())),
            ("content-length".to_owned(), None),
            ("transfer-encoding".to_owned(), Some("chunked".to_owned())),
        ]
    );
    let trace = vec![Change {
        name: "traceparent".into(),
        value: Some("00-x".into()),
    }];
    let traced = ctx.upstream_changes(Some(trace), true);
    assert_eq!(traced.len(), 6);
    assert_eq!(traced[4].value.as_deref(), Some("00-x"));
    assert!(resolution_refusal(Resolution::Found).is_none());
    assert_eq!(
        resolution_refusal(Resolution::Empty).unwrap().message,
        "serving DNS returned no addresses"
    );
}

#[test]
fn responses_are_metered_and_reported() {
    let mut ctx = context();
    ctx.start_response(200, Some("Text/Event-Stream; charset=utf-8"));
    assert!(ctx.stream_response);
    let sent = ctx.response_headers(Some("trace"));
    assert_eq!(sent.len(), 7);
    assert_eq!((sent[2].name, sent[2].value.as_str()), ("x-xscope-route-revision", "3"));
    ctx.observe_response(
        Some(b"data: {\"usage\":{\"prompt_tokens\":2,\"completion_tokens\":3}}\n\ndata: [DONE]\n\n"),
        true,
    )
    .unwrap();
    assert_eq!(ctx.outcome(None), "succeeded");
    assert_eq!(ctx.settled_tokens(), Some(5));
    assert_eq!(ctx.outcome(Some(Failure::Downstream)), "cancelled");
    assert_eq!(ctx.traced_outcome(None, Some(503)), (503, "succeeded"));
    let sink = UsageSink {
        region: "local".into(),
        model_revision: "r0".into(),
        price_version: "p0".into(),
    };
    let event = ctx.emit_usage(&sink, None, 12, NOW).unwrap();
    assert_eq!((event.input_tokens, event.output_tokens), (2, 3));
    assert_eq!((event.schema_version.as_str(), event.model_revision.as_str()), ("v1", "r1"));
    assert!(event.usage_known);
    let mut plain = context();
    plain.start_response(200, Some("application/json"));
    plain.observe_response(Some(b"{}"), true).unwrap();
    assert_eq!(plain.response_body, b"{}");
    let usage = CompletionUsage {
        prompt_tokens: 1,
        completion_tokens: 1,
    };
    assert_eq!(plain.outcome_with(None, Some(usage)), "succeeded");
    assert_eq!(plain.outcome(None), "usage_pending");
    plain.observe_response(Some(&vec![0; MAX_CAPTURE_BYTES]), true).unwrap();
    assert!(plain.response_overflow);
    assert_eq!(plain.actual_usage_with(Some(usage)), None);
}

fn event(known: bool) -> UsageEvent {
    let sink = UsageSink {
        region: "local".into(),
        model_revision: "r0".into(),
        price_version: "p0".into(),
    };
    let p = principal();
    let r = reservation_with(&p, "m", "r", None, "v", (10, 20), "req-1".into());
    let ticket = ticket_of(&r);
    sink.event_with(
        &UsageRecord {
            price_version: None,
            request_id: "client",
            principal: &p,
            endpoint_id: "pool-a",
            model_id: "m",
            model_revision: "",
            input_tokens: if known { 3 } else { 0 },
            output_tokens: 4,
            latency_ms: 5,
            status: if known { "succeeded" } else { "usage_pending" },
            billing: Some(&ticket),
            usage_known: known,
        },
        NOW,
        "evt-1".into(),
    )
}

#[test]
fn unknown_usage_is_reported_as_unknown() {
    assert_eq!(event(true).schema_version, "v2");
    assert_eq!(event(true).model_revision, "r0");
    match deliver("http://c/usage-events", &event(true)).unwrap() {
        Report::Settle { settlement, .. } => {
            assert_eq!((settlement.input_tokens, settlement.output_tokens), (3, 4));
        }
        _ => panic!("known usage is settled"),
    }
    match deliver("http://c/usage-events", &event(false)).unwrap() {
        Report::Unresolved { outcome, .. } => {
            assert_eq!(outcome.reason, "usage_missing");
            assert!(outcome.input_tokens.is_none());
        }
        _ => panic!("unknown usage is not settled"),
    }
    let over = UsageEvent {
        output_tokens: 21,
        ..event(true)
    };
    assert!(matches!(
        deliver("http://c/usage-events", &over).unwrap(),
        Report::Unresolved { outcome, .. } if outcome.reason == "usage_over_limit"
    ));
    let plain = UsageEvent {
        schema_version: "v1".into(),
        billing: None,
        ..event(true)
    };
    let mixed = UsageEvent {
        billing: None,
        ..event(true)
    };
    assert!(matches!(
        deliver("http://c/usage-events", &mixed),
        Err(DeliveryError::Permanent(400))
    ));
    assert!(matches!(
        deliver("http://c/elsewhere", &event(true)),
        Err(DeliveryError::Permanent(0))
    ));
    assert!(matches!(deliver("http://c/usage-events", &plain), Ok(Report::Event { .. })));
    assert!(matches!(http_failure(None), DeliveryError::Retry(_)));
    assert!(acknowledged(Some(204)).is_ok());
    assert!(acknowledged(Some(500)).is_err());
}

#[test]
fn events_are_written_with_their_ticket_and_time() {
    let mut e = event(true);
    e.occurred_at = 1_700_000_000_250_000;
    let written = write_event(&e);
    assert_eq!(written["occurred_at"], "2023-11-14T22:13:20.250Z");
    assert_eq!(written["billing"]["input_token_limit"], 10);
    assert_eq!(written["input_tokens"], 3);
    assert_eq!(written["event_id"], "evt-1");
    assert_eq!(written.as_object().unwrap().len(), 19);
    e.billing = None;
    e.occurred_at = 0;
    let written = write_event(&e);
    assert_eq!(written["occurred_at"], "1970-01-01T00:00:00Z");
    assert!(written.get("billing").is_none());
    for edge in [FIRST_INSTANT, LAST_INSTANT] {
        e.occurred_at = edge;
        assert!(is_datable(edge) && write_event(&e)["occurred_at"] != "1970-01-01T00:00:00Z");
    }
    assert!(!is_datable(FIRST_INSTANT - 1) && !is_datable(LAST_INSTANT + 1));
}

#[test]
fn an_accepted_event_is_kept_until_it_is_delivered() {
    let mut q = Queue::new(QueueSettings {
        capacity: 2,
        workers: 1,
        max_age_ms: 1000,
        drain_ms: 1,
        grace_seconds: 1,
    });
    let permit = q.reserve(NOW).unwrap();
    let foreign = Permit {
        queue: "another".into(),
        id: permit.id,
    };
    assert_eq!(
        q.submit(&foreign, event(true), NOW),
        Err("usage permit belongs to another queue")
    );
    let missing = Permit {
        queue: q.identity.clone(),
        id: 9,
    };
    assert_eq!(q.submit(&missing, event(true), NOW), Err("missing usage queue permit"));
    let empty = UsageEvent {
        status: String::new(),
        ..event(true)
    };
    let length = write_event(&empty).to_string().len();
    let sized = |bytes: usize| UsageEvent {
        status: "x".repeat(bytes - length),
        ..event(true)
    };
    assert_eq!(
        q.submit(&permit, sized(32_769), NOW),
        Err("usage event exceeds 32 KiB")
    );
    let other = q.reserve(NOW).unwrap();
    assert_eq!(q.submit(&other, sized(32_768), NOW), Ok(()));
    q.complete(other.id, Ok(()), NOW);
    q.submit(&permit, event(true), NOW).unwrap();
    assert_eq!(
        q.submit(&permit, event(true), NOW),
        Err("usage permit already submitted")
    );
    let (id, taken) = q.take(NOW).unwrap();
    assert_eq!(taken.event_id, "evt-1");
    assert!(q.take(NOW).is_none());
    q.complete(id, Err(DeliveryError::Retry(503)), NOW);
    assert_eq!(q.entries.len(), 1);
    assert!(q.take(NOW).is_none());
    let (id, _) = q.take(NOW + 60_000_000).unwrap();
    q.complete(id, Ok(()), NOW);
    assert!(q.entries.is_empty());
    q.begin_drain();
    assert!(q.drained(NOW, NOW + 1));
    assert_eq!(q.stop(), 0);
}

#[test]
fn splits_of_a_stream_do_not_matter() {
    let data = b"data: {\"usage\":{\"prompt_tokens\":2,\"completion_tokens\":3}}\n\n";
    let mut whole = StreamMeter::default();
    whole.observe(data).unwrap();
    let mut parts = StreamMeter::default();
    for byte in data {
        parts.observe(&[*byte]).unwrap();
    }
    assert_eq!((whole.usage, whole.done), (parts.usage, parts.done));
    let number: serde_json::Value =
        serde_json::from_str(r#"{"prompt_tokens":1,"completion_tokens":-1}"#).unwrap();
    assert_eq!(CompletionUsage::from_json(&number), None);
}

#[test]
fn each_command_has_its_script() {
    let reservation = QuotaReservation {
        key: "k".into(),
        id: "i".into(),
        reserved_tokens: 1,
    };
    let settle = Command::Settle {
        reservation,
        actual_tokens: 1,
    };
    assert!(script(&settle).contains("settlement payload conflict"));
    let reserve = Command::Reserve {
        key: "k".into(),
        id: "i".into(),
        expires_at: 1,
        rpm: 1,
        tpm: 1,
        tokens: 1,
    };
    assert!(script(&reserve).contains("reservation payload conflict"));
}

#[test]
fn the_environment_is_read_by_its_names() {
    let broken = || Err("broken".to_owned());
    let env = Environment::read(
        |name| Some(format!("<{name}>")),
        Ok(vec![]),
        Err("broken".to_owned()),
        broken(),
    );
    assert!(env.upstreams_set && env.serving.is_err() && env.api_keys.is_ok());
    assert_eq!(env.listen.as_deref(), Some("<XSCOPE_GATEWAY_ADDRESS>"));
    let bare = Environment::read(|_| None, Err("broken".to_owned()), Err("broken".to_owned()), broken());
    assert!(!bare.upstreams_set && bare.redis_url.is_none());
}

fn environment() -> Environment {
    Environment {
        api_keys: Ok(vec![]),
        upstreams_set: false,
        serving: Ok(serving("pool-a")),
        additional_serving: Ok(vec![]),
        model_revision: None,
        control_internal_url: Some("http://control:8084".into()),
        internal_token: Some("token".into()),
        usage_mode: Some("memory".into()),
        billing_reservations: None,
        model_context_tokens: None,
        listen: None,
        region: None,
        price_version: None,
        policy_refresh_seconds: None,
        redis_url: None,
    }
}

#[test]
fn settings_are_read_from_the_environment() {
    let s = Settings::from_env(environment());
    assert!(s.is_ok(), "{}", s.err().unwrap().message());
    let legacy = Environment {
        upstreams_set: true,
        ..environment()
    };
    assert!(Settings::from_env(legacy).is_err());
    let twice = Environment {
        additional_serving: Ok(vec![serving("pool-a")]),
        ..environment()
    };
    assert!(Settings::from_env(twice).is_err());
    let broken = Environment {
        api_keys: Err("eof".into()),
        ..environment()
    };
    assert!(Settings::from_env(broken).err().unwrap().message().contains("eof"));
    let text = |n: &str| Some(n.to_owned());
    assert!(StorageSettings::from_env(&None, &None, &None).is_ok());
    assert!(StorageSettings::from_env(&text("x"), &None, &None).is_err());
    assert!(QueueSettings::from_env(&None, &None, &None, &None, &None).is_ok());
    assert!(QueueSettings::from_env(&text("0"), &None, &None, &None, &None).is_err());
}
