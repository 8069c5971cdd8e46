use xscope::collections::TextMap;
use xscope::control::api::{
    admit_alerts, alipay_notify, authorize_billing_review_read, authorize_evidence,
    authorize_project, authorize_project_owner, billing_period, cluster_bearer, cluster_proxy,
    component_answer, console_completion, console_identity, console_intent, internal_auth,
    is_billing_reviewer, is_mutation, is_observed, manual_capture, outcome, platform_admin,
    recorded_status, require_billing_reviewer, require_idempotency_key, require_owner,
    require_tenant, restrict_summary, retain_accessible, retain_managed, retain_memberships,
    retain_payments, retain_refunds, shown_reason, ConsoleSettings, UserContext,
};
use xscope::control::audit::{audit_page, list_operation_audits, AuditQuery, AuditRow};
use xscope::control::billing_projection::{date, Date};
use xscope::control::catalog::{
    active_model, bootstrap_catalog, models, put_model, put_serving_endpoint, route_pools,
    EndpointRow,
};
use xscope::control::clusters::AuditPayload;
use xscope::control::config::{list, Config, Environment, Parsed};
use xscope::control::error::ServiceError;
use xscope::control::ops::{
    acknowledge_alert, alert_page, backup_answer, backup_readings, extend_backup, merge_alert,
    ops_alerts, receive_alerts, Acknowledge, Alert, AlertQuery, MAX_BACKUP_BYTES, Webhook,
};
use xscope::control::releases::{
    history_page, release_action, route_history, HistoryQuery, RouteRevision,
};
use xscope::control::repository::{
    api_key_from_row, bootstrap, conflict_or_database, create_project, ensure_account_for_project,
    drawn_secret, fresh_secret, gateway_snapshot, issue_api_key, issue_api_key_with, list_route_policies, put_route_policy,
    revoke_api_key, secret_of, stable_id, sync_user, update_membership, AccountPosition,
    BootstrapApiKey, MembershipRow, PolicyRow,
};
use xscope::domain::catalog::{CatalogSnapshot, PutModel, ServingEndpoint};
use xscope::domain::routing::{PutRoutePolicy, ReleaseAction, RoutePolicySpec, RoutePool};
use xscope::domain::{
    ApiKeyRequest, BillingOrder, BillingSummary, KeyStatus, Model, Money, Payment, PlatformUser,
    Project, ProjectBilling, Refund, TenantMembership,
};
use xscope::time::{FIRST_INSTANT, LAST_INSTANT};

use http::{HeaderMap, HeaderValue};

const NOW: i64 = 1_700_000_000_000_000;

fn context(role: &str) -> UserContext {
    UserContext {
        user: PlatformUser {
            id: "user".into(),
            external_subject: "subject".into(),
            username: "user".into(),
            email: "user@example".into(),
            status: "active".into(),
            last_login_at: 0,
            created_at: 0,
            updated_at: 0,
            memberships: vec![TenantMembership {
                tenant_id: "tenant".into(),
                role: role.into(),
            }],
        },
        auth_disabled: false,
    }
}

fn project() -> Project {
    Project {
        id: "project".into(),
        tenant_id: "tenant".into(),
        name: "Project".into(),
    }
}

fn headers(pairs: &[(&'static str, &'static str)]) -> HeaderMap {
    let mut map = HeaderMap::new();
    for (name, value) in pairs {
        map.append(*name, HeaderValue::from_static(value));
    }
    map
}

fn settings(console_auth: bool) -> ConsoleSettings {
    ConsoleSettings {
        console_auth,
        bootstrap_admin_users: vec!["root".into()],
        auto_join_default_tenant: true,
    }
}

#[test]
fn identities_come_from_trusted_headers() {
    let h = headers(&[
        ("x-forwarded-user", "sub-1"),
        ("x-auth-request-preferred-username", " alice "),
        ("x-forwarded-email", "alice@example"),
    ]);
    let who = console_identity(&settings(true), &h).unwrap();
    assert_eq!(who.username, "alice");
    assert_eq!((who.subject.as_str(), who.email.as_str()), ("sub-1", "alice@example"));
    assert_eq!(who.default_role, Some("member"));
    assert!(!who.auth_disabled);
    let root = headers(&[("x-forwarded-user", "root")]);
    assert_eq!(
        console_identity(&settings(true), &root).unwrap().default_role,
        Some("owner")
    );
    assert!(matches!(
        console_identity(&settings(true), &headers(&[])),
        Err(ServiceError::Unauthorized)
    ));
    let dev = console_identity(&settings(false), &headers(&[])).unwrap();
    assert_eq!(dev.username, "development-user");
    assert!(dev.auth_disabled);
}

#[test]
fn changes_are_recorded_before_they_run() {
    assert!(is_mutation("PATCH") && !is_mutation("GET"));
    assert!(console_intent("user", "GET", Some("/v1/projects")).is_none());
    let intent = console_intent("user", "POST", Some("/v1/projects")).unwrap();
    assert_eq!(intent.action, "console.intent");
    assert_eq!(intent.resource_id, "/v1/projects");
    assert!(matches!(intent.payload, AuditPayload::Intended { method } if method == "POST"));
    let done = console_completion("user", None, "intent-1", 201);
    assert_eq!((done.action.as_str(), done.resource_id.as_str()), ("console.completed", "unmatched"));
    assert!(matches!(
        done.payload,
        AuditPayload::Completed { intent_id, status: 201 } if intent_id == "intent-1"
    ));
}

#[test]
fn roles_decide_what_is_seen() {
    let owner = context("owner");
    let member = context("member");
    assert!(owner.can_manage("tenant") && owner.can_access("tenant") && owner.is_owner());
    assert!(!member.can_manage("tenant") && member.can_access("tenant"));
    assert!(!owner.can_access("other"));
    assert!(require_tenant(&member, "tenant").is_ok());
    assert!(require_owner(&member).is_err());
    let projects = vec![project()];
    assert!(authorize_project(&projects, &member, "project").is_ok());
    assert!(matches!(
        authorize_project(&projects, &member, "none"),
        Err(ServiceError::NotFound)
    ));
    assert!(matches!(
        authorize_project_owner(&projects, &member, "project"),
        Err(ServiceError::Forbidden)
    ));
    let subjects = vec!["subject".to_owned()];
    assert!(is_billing_reviewer(&subjects, &member));
    assert!(platform_admin(&subjects, &member).is_ok());
    assert!(platform_admin(&vec![], &member).is_err());
    assert!(authorize_billing_review_read(&subjects, &projects, &member, "project").is_ok());
    assert!(authorize_billing_review_read(&vec![], &projects, &member, "project").is_err());
    let disabled = UserContext {
        auth_disabled: true,
        ..context("member")
    };
    assert!(!is_billing_reviewer(&subjects, &disabled));
    assert!(require_billing_reviewer(&subjects, &disabled).is_err());
    assert!(require_billing_reviewer(&subjects, &member).is_ok());
    assert!(require_billing_reviewer(&vec![], &owner).is_err());
    assert!(authorize_evidence(&projects, &owner, "project").is_ok());
    assert!(authorize_evidence(&projects, &member, "project").is_err());
    assert!(authorize_evidence(&projects, &disabled, "project").is_err());
    assert!(platform_admin(&vec![], &disabled).is_ok());
}

#[test]
fn lists_are_cut_to_what_the_user_may_see() {
    let other = Project {
        id: "other".into(),
        tenant_id: "other".into(),
        name: "Other".into(),
    };
    let mut projects = vec![project(), other];
    retain_accessible(&context("member"), &mut projects);
    assert_eq!(projects.len(), 1);
    retain_managed(&context("member"), &mut projects);
    assert!(projects.is_empty());
    let order = BillingOrder {
        id: "o".into(),
        tenant_id: "tenant".into(),
        project_id: "project".into(),
        kind: "top_up".into(),
        amount: Money::cny(1),
        status: "paid".into(),
        description: String::new(),
        created_at: 0,
        updated_at: 0,
    };
    let payment = |id: &str, order: &str| Payment {
        id: id.into(),
        order_id: order.into(),
        provider: "p".into(),
        provider_reference: "r".into(),
        amount: Money::cny(1),
        status: "succeeded".into(),
        paid_at: None,
        created_at: 0,
    };
    let mut payments = vec![payment("a", "o"), payment("b", "x")];
    retain_payments(&context("owner"), &vec![order], &mut payments);
    assert_eq!(payments.len(), 1);
    let refund = |payment: &str| Refund {
        id: "f".into(),
        payment_id: payment.into(),
        amount: Money::cny(1),
        reason: String::new(),
        status: "succeeded".into(),
        provider_reference: None,
        created_at: 0,
        completed_at: None,
    };
    let mut refunds = vec![refund("b"), refund("a")];
    retain_refunds(&payments, &mut refunds);
    assert_eq!(refunds.len(), 1);
    assert_eq!(refunds[0].payment_id, "a");
    let mut user = context("member").user;
    assert!(!retain_memberships(&context("member"), &mut user));
    let mut user = context("member").user;
    assert!(retain_memberships(&context("owner"), &mut user));
}

#[test]
fn summaries_are_cut_to_the_projects_of_the_user() {
    let item = |project: &str, requests| ProjectBilling {
        project_id: project.into(),
        requests,
        input_tokens: requests,
        output_tokens: 2 * requests,
        cost: Money::cny(requests),
    };
    let mut summary = BillingSummary {
        period_start: 0,
        period_end: 1,
        requests: 7,
        input_tokens: 7,
        output_tokens: 14,
        total: Money::cny(7),
        projects: vec![item("project", 3), item("secret", 4)],
    };
    restrict_summary(&context("member"), &vec![project()], &mut summary);
    assert_eq!(summary.projects.len(), 1);
    assert_eq!((summary.requests, summary.output_tokens, summary.total.amount), (3, 6, 3));
}

#[test]
fn periods_default_to_the_month() {
    // 9 December 2023, and the first days of that month and the next.
    let (now, first, next) = (
        1_702_080_001_000_000,
        1_701_388_800_000_000,
        1_704_067_200_000_000,
    );
    let day = Date {
        year: 2023,
        month: 12,
        day: 9,
    };
    assert_eq!(date(now), day);
    assert_eq!(billing_period(None, None, now).unwrap(), (first, next));
    assert_eq!(billing_period(Some(now), None, 0).unwrap(), (now, next));
    assert_eq!(billing_period(Some(3), Some(4), now).unwrap(), (3, 4));
    assert!(matches!(
        billing_period(Some(LAST_INSTANT), None, now),
        Err(ServiceError::Internal(m)) if m == "could not construct next month"
    ));
    assert!(billing_period(Some(FIRST_INSTANT), None, now).unwrap().1 > FIRST_INSTANT);
}

#[test]
fn callers_are_known_by_their_tokens() {
    let member = headers(&[(
        "authorization",
        "Bearer abcdefghijklmnopqrstuvwxyz0123456789ABCDEFG",
    )]);
    assert_eq!(
        cluster_bearer(&member).unwrap(),
        "abcdefghijklmnopqrstuvwxyz0123456789ABCDEFG"
    );
    let bearer = headers(&[("authorization", "Bearer cluster-token")]);
    assert!(matches!(
        cluster_bearer(&bearer),
        Err(ServiceError::Unauthorized)
    ));
    assert!(internal_auth("cluster-token", &bearer).is_ok());
    assert!(matches!(
        internal_auth("other", &bearer),
        Err(ServiceError::InvalidInternalToken)
    ));
    assert!(matches!(
        internal_auth("", &bearer),
        Err(ServiceError::InternalAuthUnavailable)
    ));
    let token = Some("cluster-token".to_owned());
    assert!(admit_alerts(&token, &bearer, b"{}").is_ok());
    assert!(matches!(
        admit_alerts(&token, &bearer, &vec![0; 262_145]),
        Err(ServiceError::Invalid(m)) if m == "alert payload too large"
    ));
    assert!(admit_alerts(&None, &bearer, b"{}").is_err());
    let keyed = headers(&[("idempotency-key", "0123456789abcdef")]);
    assert_eq!(require_idempotency_key(&keyed).unwrap(), "0123456789abcdef");
    assert!(require_idempotency_key(&headers(&[("idempotency-key", "short")])).is_err());
    let form = headers(&[("content-type", "application/x-www-form-urlencoded; charset=utf-8")]);
    assert!(alipay_notify(&form, &vec![0; 65_536]).is_ok());
    assert!(alipay_notify(&form, &vec![0; 65_537]).is_err());
    assert!(alipay_notify(&headers(&[]), b"x").is_err());
    assert!(manual_capture(false, false, "manual-test").is_ok());
    assert!(manual_capture(true, false, "manual-test").is_err());
    assert!(manual_capture(false, false, "alipay").is_err());
}

#[test]
fn small_answers_of_the_console() {
    assert!(is_observed("/v1/projects") && !is_observed("/api/readyz"));
    assert_eq!((outcome(204), outcome(404), outcome(503)), ("succeeded", "rejected", "provider_error"));
    assert_eq!((recorded_status(true), recorded_status(false)), (201, 200));
    assert_eq!(shown_reason(Some("usage_missing")), Some("usage_missing"));
    assert_eq!(shown_reason(Some("secret")), None);
    let url = cluster_proxy("http://agent:8083/", "/api/v1/clusters/local/x", Some("a=b"));
    assert!(url.starts_with("http://agent:8083/") && url.ends_with("?a=b"), "{url}");
}

fn environment() -> Environment {
    Environment {
        database_url: Some("postgres://db".into()),
        internal_token: Some("token".into()),
        db_max_connections: None,
        db_min_connections: None,
        db_acquire_timeout_ms: None,
        alert_webhook_token: Some("short".into()),
        console_auth: Some("trusted-headers".into()),
        cluster_agent_url: Some("http://agent/".into()),
        default_tenant_id: None,
        auto_join_default_tenant: Some("true".into()),
        bootstrap_admin_users: Some(" a, ,b ".into()),
        platform_admin_subjects: None,
        billing_reviewer_subjects: None,
        gateway_health_url: None,
        runtime_health_url: None,
        operator_health_url: None,
    }
}

fn parsed() -> Parsed {
    Parsed {
        route_pools: Ok(vec![]),
        public_address: Ok(()),
        internal_address: Ok(()),
    }
}

#[test]
fn the_configuration_is_read_from_the_environment() {
    let c = Config::from_env(&environment(), parsed()).unwrap();
    assert!(c.console_auth && c.auto_join_default_tenant);
    assert_eq!(c.bootstrap_admin_users, vec!["a".to_owned(), "b".to_owned()]);
    assert_eq!(c.default_tenant_id, "tenant-local");
    assert!(c.alert_webhook_token.is_none());
    assert_eq!(c.component_targets[3].1, "http://agent/healthz");
    assert_eq!(list("x, y,,"), vec!["x".to_owned(), "y".to_owned()]);
    let missing = Environment {
        database_url: None,
        ..environment()
    };
    let error = Config::from_env(&missing, parsed()).err().unwrap();
    assert!(error.message().contains("XSCOPE_DATABASE_URL"));
    let broken = Parsed {
        route_pools: Err("eof".into()),
        ..parsed()
    };
    let error = Config::from_env(&environment(), broken).err().unwrap();
    assert!(error.message().contains("XSCOPE_ROUTE_POOLS_JSON"));
}

#[test]
fn the_environment_is_read_by_name() {
    let env = Environment::read(|name| Some(format!("<{name}>")));
    assert_eq!(env.database_url.as_deref(), Some("<XSCOPE_DATABASE_URL>"));
    assert_eq!(env.db_max_connections.as_deref(), Some("<XSCOPE_DB_MAX_CONNECTIONS>"));
    assert_eq!(env.operator_health_url.as_deref(), Some("<XSCOPE_OPERATOR_HEALTH_URL>"));
    assert!(Environment::read(|_| None).internal_token.is_none());
}

#[test]
fn failures_hide_what_is_internal() {
    let (status, code, message) = ServiceError::Database("secret".into()).into_response();
    assert_eq!(status, 503);
    assert!(!message.contains("secret") && !code.is_empty());
    assert_eq!(ServiceError::Internal("secret".into()).into_response().0, 500);
    assert_eq!(ServiceError::InternalAuthUnavailable.into_response().0, 503);
    assert_eq!(ServiceError::InvalidInternalToken.into_response().0, 401);
    assert_eq!(ServiceError::Dependency("d".into()).into_response().0, 503);
    assert_eq!(ServiceError::NotFound.into_response().0, 404);
    assert_eq!(ServiceError::Unauthorized.into_response().0, 401);
    assert_eq!(ServiceError::Forbidden.into_response().0, 403);
    assert_eq!(ServiceError::Conflict("c".into()).into_response().0, 409);
    assert_eq!(ServiceError::Invalid("i".into()).into_response().0, 400);
    assert_eq!(ServiceError::InsufficientFunds("f".into()).into_response().0, 402);
    assert!(matches!(
        conflict_or_database("violates unique constraint x".into()),
        ServiceError::Conflict(m) if m == "resource already exists"
    ));
    assert!(matches!(conflict_or_database("io".into()), ServiceError::Database(_)));
}

fn key_request() -> ApiKeyRequest {
    ApiKeyRequest {
        id: "key".into(),
        tenant_id: "tenant".into(),
        project_id: "project".into(),
        name: "Key".into(),
        scopes: vec![],
        allowed_models: vec!["xscope-demo".into()],
        expires_at: None,
        rate_limit_rpm: 0,
        rate_limit_tpm: 0,
        monthly_budget: Money::default(),
    }
}

#[test]
fn keys_are_issued_hashed_and_revoked() {
    let model = Model::default();
    let issued = issue_api_key_with(
        key_request(),
        &model.id,
        Some(&project()),
        false,
        "xs_1",
        NOW,
    )
    .unwrap();
    assert_eq!(issued.row.scopes, vec!["chat.completions".to_owned()]);
    assert_eq!((issued.row.rate_limit_rpm, issued.row.rate_limit_tpm), (60, 60_000));
    assert_eq!(issued.issued.secret, "xs_1");
    assert_eq!(issued.row.secret_hash.len(), 32);
    assert_ne!(issued.row.secret_hash, b"xs_1".to_vec());
    assert_eq!(api_key_from_row(issued.row.clone(), NOW).status, KeyStatus::Active);
    let revoked = revoke_api_key(Some(issued.row.clone()), NOW).unwrap();
    assert_eq!(api_key_from_row(revoked.clone(), NOW).status, KeyStatus::Revoked);
    assert!(revoke_api_key(None, NOW).is_err());
    assert!(matches!(
        issue_api_key(key_request(), &model.id, None, false, NOW),
        Err(ServiceError::Invalid(m)) if m == "project not found"
    ));
    assert!(matches!(
        issue_api_key(key_request(), &model.id, Some(&project()), true, NOW),
        Err(ServiceError::Conflict(m)) if m == "API key already exists"
    ));
    let fresh = issue_api_key(key_request(), &model.id, Some(&project()), false, NOW).unwrap();
    assert!(fresh.issued.secret.starts_with("xs_"));
    let secret = secret_of(&[0; 24]);
    assert_eq!(secret, format!("xs_{}", "A".repeat(32)));
    assert_ne!(fresh_secret().unwrap(), fresh_secret().unwrap());
    assert_eq!(drawn_secret(Ok([0; 24])).unwrap(), format!("xs_{}", "A".repeat(32)));
    assert!(matches!(
        drawn_secret(Err("no source".into())),
        Err(ServiceError::Internal(m)) if m == "no source"
    ));
    let mut spends = TextMap::new();
    spends.insert("key", 1_500_000);
    let mut accounts = TextMap::new();
    accounts.insert(
        "project",
        AccountPosition {
            enforce_balance: true,
            balance_microunits: -1,
        },
    );
    let snapshot = gateway_snapshot(
        &vec![issued.row, revoked],
        &spends,
        &accounts,
        vec![],
        CatalogSnapshot::default(),
        NOW,
    );
    assert_eq!(snapshot.keys.len(), 1);
    assert!(snapshot.keys[0].balance_enforced);
    assert_eq!(snapshot.keys[0].available_balance.amount, -1);
    let (p, k) = bootstrap(&BootstrapApiKey {
        id: "b".into(),
        tenant_id: "t".into(),
        project_id: "p".into(),
        secret: "s".into(),
    });
    assert_eq!((p.id.as_str(), k.id.as_str()), ("p", "b"));
}

#[test]
fn projects_have_an_account() {
    let row = create_project(&project(), false).unwrap();
    assert_eq!(row.id, "account-project");
    assert!(!row.enforce_balance);
    assert!(matches!(create_project(&project(), true), Err(ServiceError::Conflict(_))));
    assert!(ensure_account_for_project(None, None).is_err());
    assert_eq!(ensure_account_for_project(None, Some(&project())).unwrap().id, "account-project");
}

#[test]
fn users_are_synchronised_and_tenants_keep_an_owner() {
    let made = sync_user("sub", "alice", "a@x", "tenant-local", Some("member"), None, false, NOW).unwrap();
    assert_eq!(made.row.id, format!("user-{}", stable_id("sub")));
    assert_eq!(stable_id("sub").len(), 22);
    let joined = made.joined.unwrap();
    assert_eq!((joined.tenant_id.as_str(), joined.role.as_str()), ("tenant-local", "member"));
    let again =
        sync_user("sub", "bob", "b@x", "tenant-local", Some("member"), Some(made.row), true, NOW + 1).unwrap();
    assert_eq!(again.row.username, "bob");
    assert_eq!(again.row.created_at, NOW);
    assert!(again.joined.is_none());
    assert!(sync_user("", "x", "", "t", None, None, false, NOW).is_err());
    let owner = MembershipRow {
        id: "m".into(),
        user_id: "u".into(),
        tenant_id: "t".into(),
        role: "owner".into(),
        created_at: 0,
    };
    assert!(matches!(
        update_membership("u", "t", "member", true, Some(owner.clone()), 1, NOW),
        Err(ServiceError::Conflict(m)) if m == "a tenant must keep at least one owner"
    ));
    let row = update_membership("u", "t", "member", true, Some(owner), 2, NOW).unwrap();
    assert_eq!(row.role, "member");
    assert!(update_membership("u", "t", "admin", true, None, 0, NOW).is_err());
    assert!(update_membership("u", "t", "member", false, None, 0, NOW).is_err());
}

fn endpoint(id: &str) -> ServingEndpoint {
    ServingEndpoint {
        id: id.into(),
        model: "xscope-demo".into(),
        revision: "r1".into(),
        address: "serving:8085".into(),
        tls: false,
        server_name: String::new(),
    }
}

#[test]
fn the_catalog_is_written_by_revision() {
    let first = bootstrap_catalog();
    assert_eq!(first.model.id, "xscope-demo");
    assert!(active_model(Some(first.clone())).is_ok());
    assert!(active_model(None).is_err());
    assert_eq!(models(&vec![first.clone()]).len(), 1);
    let put = |expected_revision, model: Model| PutModel {
        expected_revision,
        enabled: true,
        default_pool: None,
        model,
    };
    let made = put_model("xscope-demo", put(0, Model::default()), None, None).unwrap();
    assert_eq!((made.entry.revision, made.inserted, made.new_price), (1, true, true));
    assert!(matches!(
        put_model("xscope-demo", put(0, Model::default()), Some(1), None),
        Err(ServiceError::Conflict(m)) if m == "resource already exists"
    ));
    assert!(put_model("xscope-demo", put(2, Model::default()), Some(1), None).is_err());
    let mut dearer = Model::default();
    dearer.input_per_million_tokens.amount += 1;
    assert!(matches!(
        put_model("xscope-demo", put(1, dearer), Some(1), Some(&Model::default())),
        Err(ServiceError::Conflict(m)) if m == "price version is immutable; use a new version"
    ));
    let e = endpoint("pool-a");
    assert_eq!(
        put_serving_endpoint("pool-a", 0, &e, true, Some(first.clone()), &vec![], &None).unwrap(),
        1
    );
    let row = Some(EndpointRow {
        generation: 1,
        endpoint: endpoint("pool-a"),
    });
    assert!(put_serving_endpoint("pool-a", 0, &e, true, Some(first.clone()), &vec![], &row).is_err());
    assert_eq!(
        put_serving_endpoint("pool-a", 1, &e, true, Some(first.clone()), &vec![], &row).unwrap(),
        2
    );
    assert!(matches!(
        put_serving_endpoint("pool-a", 1, &e, true, Some(first), &vec![endpoint("managed-x")], &row),
        Err(ServiceError::Conflict(_))
    ));
    let pools = route_pools(
        &vec![RoutePool {
            id: "boot".into(),
            model: "m".into(),
            revision: "r".into(),
        }],
        &vec![endpoint("pool-a")],
        &vec![endpoint("managed-x")],
    );
    assert_eq!(pools.entries.len(), 3);
    assert_eq!(pools.get("pool-a").unwrap().revision, "r1");
}

fn spec(stable: &str, canary: Option<&str>) -> RoutePolicySpec {
    RoutePolicySpec {
        stable_pool: stable.into(),
        canary_pool: canary.map(Into::into),
        canary_percent: if canary.is_some() { 10 } else { 0 },
        headers: vec![],
    }
}

fn pools() -> Vec<RoutePool> {
    ["a", "b"]
        .iter()
        .map(|id| RoutePool {
            id: (*id).into(),
            model: "m".into(),
            revision: "r".into(),
        })
        .collect()
}

#[test]
fn route_policies_are_swapped_and_released() {
    let put = |expected_revision| PutRoutePolicy {
        expected_revision,
        spec: spec("a", Some("b")),
    };
    let made = put_route_policy(&project(), "m", true, put(0), &pools(), None).unwrap();
    assert_eq!((made.revision, made.tenant_id.as_str()), (1, "tenant"));
    assert!(put_route_policy(&project(), "m", true, put(0), &pools(), Some(1)).is_err());
    assert!(put_route_policy(&project(), "m", true, put(1), &pools(), Some(2)).is_err());
    assert!(put_route_policy(&project(), "m", false, put(0), &pools(), None).is_err());
    let current = || {
        Some(RouteRevision {
            revision: 1,
            spec: spec("a", Some("b")),
        })
    };
    let pause = ReleaseAction::Pause {
        expected_revision: 1,
    };
    let paused = release_action(&project(), "m", true, &pause, current(), None, &pools()).unwrap();
    assert_eq!((paused.revision, paused.spec.canary_percent), (2, 0));
    let promote = ReleaseAction::Promote {
        expected_revision: 1,
    };
    let promoted = release_action(&project(), "m", true, &promote, current(), None, &pools()).unwrap();
    assert_eq!(promoted.spec.stable_pool, "b");
    let rollback = ReleaseAction::Rollback {
        expected_revision: 2,
        target_revision: 1,
    };
    let later = || {
        Some(RouteRevision {
            revision: 2,
            spec: spec("a", Some("b")),
        })
    };
    assert!(matches!(
        release_action(&project(), "m", true, &rollback, later(), None, &pools()),
        Err(ServiceError::NotFound)
    ));
    let target = Some(spec("b", None));
    let back = release_action(&project(), "m", true, &rollback, later(), target, &pools()).unwrap();
    assert_eq!((back.revision, back.spec.stable_pool.as_str()), (3, "b"));
    let ahead = ReleaseAction::Rollback {
        expected_revision: 2,
        target_revision: 2,
    };
    assert!(matches!(
        release_action(&project(), "m", true, &ahead, later(), None, &pools()),
        Err(ServiceError::Invalid(m)) if m == "rollback requires an earlier recorded revision"
    ));
    let row = |spec| PolicyRow {
        project_id: "project".into(),
        model: "m".into(),
        revision: 1,
        spec,
    };
    let listed = list_route_policies(vec![row(Ok(spec("a", None)))], &vec![project()]).unwrap();
    assert_eq!(listed[0].tenant_id, "tenant");
    assert!(matches!(
        list_route_policies(vec![row(Err("eof".into()))], &vec![project()]),
        Err(ServiceError::Internal(m)) if m == "eof"
    ));
    assert!(matches!(
        list_route_policies(vec![row(Ok(spec("a", None)))], &vec![]),
        Err(ServiceError::NotFound)
    ));
    let ask = |limit| HistoryQuery {
        before: None,
        limit,
    };
    let limit = route_history(&ask(Some(1))).unwrap();
    let mut rows = vec![
        RouteRevision {
            revision: 3,
            spec: spec("a", None),
        },
        RouteRevision {
            revision: 2,
            spec: spec("a", None),
        },
    ];
    assert_eq!(history_page(&mut rows, limit), Some(3));
    assert!(route_history(&ask(Some(0))).is_err());
}

fn alert(status: &str, starts_at: i64) -> Alert {
    let mut labels = TextMap::new();
    labels.insert("alertname", "XScopeDown".to_owned());
    labels.insert("severity", "critical".to_owned());
    let mut annotations = TextMap::new();
    annotations.insert("summary", "down".to_owned());
    Alert {
        status: status.into(),
        labels,
        annotations,
        starts_at,
        ends_at: starts_at + 1,
        fingerprint: "0123456789ABCDEF".into(),
    }
}

#[test]
fn alerts_are_kept_and_acknowledged() {
    let a = alert("firing", NOW);
    assert!(a.validate(NOW).is_ok());
    assert!(alert("firing", NOW + 300_000_001).validate(NOW).is_err());
    assert!(alert("gone", NOW).validate(NOW).is_err());
    assert_eq!(a.id().len(), 64);
    assert_ne!(a.id(), alert("firing", NOW + 1000).id());
    let batch = receive_alerts(
        &Webhook {
            alerts: vec![alert("firing", NOW), alert("resolved", NOW)],
            truncated_alerts: 0,
        },
        NOW,
    )
    .unwrap();
    assert_eq!(batch.entries.len(), 1);
    let row = merge_alert(&a, None, NOW).unwrap();
    assert_eq!((row.name.as_str(), row.state.as_str()), ("XScopeDown", "firing"));
    let solved = merge_alert(&alert("resolved", NOW), Some(row.clone()), NOW).unwrap();
    assert_eq!(solved.state, "resolved");
    assert!(merge_alert(&a, Some(solved.clone()), NOW + 1).is_none());
    assert!(merge_alert(&alert("resolved", NOW), Some(solved), NOW + 1).is_none());
    let ack = Acknowledge {
        reason: "seen".into(),
    };
    let (acked, audit) = acknowledge_alert(Some(row), "user", &ack, NOW).unwrap().unwrap();
    assert_eq!(acked.acknowledged_by.as_deref(), Some("user"));
    assert_eq!(acked.state, "firing");
    let later = merge_alert(&alert("resolved", NOW), Some(acked.clone()), NOW + 1).unwrap();
    assert_eq!(later.acknowledged_by.as_deref(), Some("user"));
    assert!(matches!(audit.payload, AuditPayload::Reason(r) if r == "seen"));
    assert!(acknowledge_alert(None, "user", &ack, NOW).is_err());
    let query = AlertQuery {
        after: None,
        state: Some("odd".into()),
    };
    assert!(ops_alerts(&query).is_err());
    let mut rows = vec![acked; 51];
    assert!(alert_page(&mut rows).is_some());
    assert_eq!(rows.len(), 50);
}

#[test]
fn backups_are_read_from_one_sample_each() {
    let answer = |rows: &str| -> serde_json::Value {
        serde_json::from_str(&format!(
            r#"{{"status":"success","data":{{"resultType":"vector","result":[{rows}]}}}}"#
        ))
        .unwrap()
    };
    let created = r#"{"metric":{"__name__":"kube_cronjob_created"},"value":[1,"12.5"]}"#;
    let found = backup_readings(&answer(created)).unwrap();
    assert_eq!(found.created_at.as_deref(), Some("12.5"));
    assert!(found.active_jobs.is_none());
    assert!(backup_readings(&answer(&format!("{created},{created}"))).is_err());
    let textless = r#"{"metric":{"__name__":"kube_cronjob_created"},"value":[1,12]}"#;
    assert!(matches!(
        backup_readings(&answer(textless)),
        Err(ServiceError::Dependency(m)) if m == "backup telemetry unavailable"
    ));
    assert!(backup_readings(&serde_json::Value::Null).is_err());
    let bytes = answer(created).to_string().into_bytes();
    assert_eq!(backup_answer(&bytes).unwrap().created_at.as_deref(), Some("12.5"));
    for body in [&b"{"[..], b"null"] {
        assert!(matches!(
            backup_answer(body),
            Err(ServiceError::Dependency(m)) if m == "backup telemetry unavailable"
        ));
    }
    let mut read = vec![0; MAX_BACKUP_BYTES - 1];
    assert!(extend_backup(&mut read, b"12").is_err());
    assert!(extend_backup(&mut read, b"1").is_ok());
    assert_eq!(read.len(), 65_536);
}

#[test]
fn components_answer_for_themselves() {
    assert_eq!(component_answer("gateway", r#"{"status":"ready"}"#)["status"], "ready");
    assert_eq!(
        component_answer("gateway", "fine").to_string(),
        r#"{"component":"gateway","status":"ok"}"#
    );
}

#[test]
fn audits_are_listed_in_pages() {
    let ask = |after: Option<&str>, limit| AuditQuery {
        after: after.map(Into::into),
        limit,
    };
    assert_eq!(list_operation_audits(&ask(None, None)).unwrap(), 50);
    assert!(list_operation_audits(&ask(None, Some(101))).is_err());
    assert!(list_operation_audits(&ask(Some("x"), None)).is_err());
    let id = "0190b6a4-0000-7000-8000-000000000000";
    assert!(list_operation_audits(&ask(Some(id), None)).is_ok());
    let row = AuditRow {
        id: id.into(),
        actor_id: "a".into(),
        action: "b".into(),
        resource_id: "c".into(),
        created_at: 0,
    };
    let mut rows = vec![row.clone(), row];
    assert_eq!(audit_page(&mut rows, 1).as_deref(), Some(id));
    assert_eq!(rows.len(), 1);
}
