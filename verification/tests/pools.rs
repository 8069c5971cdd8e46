use xscope::agent::pull::{validate_delivery, Config, ItemCheck};
use xscope::collections::TextMap;
use xscope::control::catalog::bootstrap_catalog;
use xscope::control::clusters::{
    authenticated, credential, credential_of, name, plan_desired, poll_cluster, poll_cluster_with,
    put_cluster_desired, register_cluster, report_cluster, revoke_cluster,
    rotate_cluster_credential, validate_desired, ClusterRow, RegisterCluster, RotateCredential,
    StoredRevision,
};
use xscope::control::error::ServiceError;
use xscope::control::gateway_proofs::{
    confirm_idle, gateway_proof, gateway_proof_tasks, idle_after, read_orphan, validate_identity, Orphan,
};
use xscope::control::managed_pools::{
    bind_pool, guard_desired, managed_id, managed_pool_status, observation_tasks, observe_pool,
    pool_transition, BindFacts, Guarded, ObserveFacts, ObservedPool, PoolRow, PoolState, ViewRow,
};
use xscope::control::scaling::{apply, reconcile, Operation, ScaleStep};
use xscope::control::traffic::{
    authorize, authorize_serving, grant_key, route_acks, traffic_report, traffic_snapshot,
    traffic_snapshot_with, Served, SnapshotFacts,
};
use xscope::domain::catalog::CatalogSnapshot;
use xscope::domain::cluster::{ClusterReport, DeploymentSpec, DesiredDeployment, DesiredState};
use xscope::domain::traffic::{
    GatewayIdentity, GatewayProof, GatewayRuntime, PoolBinding, PoolObservation, ScaleEvidence,
    TrafficReport,
};
use xscope::domain::GatewaySnapshot;

const NOW: i64 = 1_700_000_000_000_000;
const SESSION: &str = "0190b6a4-0000-7000-8000-000000000001";
const UID: &str = "0190b6a4-0000-4000-8000-000000000002";

fn token() -> String {
    credential_of(&[7; 32]).token
}

fn cluster() -> ClusterRow {
    let (mut row, _) = register_cluster(
        RegisterCluster {
            id: "cluster-a".into(),
            namespace: "serving".into(),
            credential_days: 30,
        },
        Ok(credential_of(&[7; 32])),
        false,
        "admin",
        NOW,
    )
    .unwrap();
    row.desired_version = 1;
    row.acknowledged_version = 1;
    row
}

fn parsed(text: &str) -> DeploymentSpec {
    DeploymentSpec {
        value: serde_json::from_str(text).unwrap(),
    }
}

fn spec(replicas: i64) -> DeploymentSpec {
    let mut spec = parsed(
        r#"{"autoscaling":{"managed":true,"minReplicas":1,"maxReplicas":5},
            "runtime":{"protocol":"openai"},"serving":{"endpointPickerService":"entry"},
            "model":{"id":"xscope-demo","revision":"r9"},"weight":0.0}"#,
    );
    spec.value["replicas"] = replicas.into();
    spec
}

fn desired() -> DesiredDeployment {
    DesiredDeployment {
        name: "demo".into(),
        spec: Some(spec(2)),
        delete_uid: None,
        expected_uid: None,
    }
}

fn binding() -> PoolBinding {
    PoolBinding {
        traffic_protocol: 2,
        make_default: true,
        cluster_id: "cluster-a".into(),
        deployment: "demo".into(),
        serving_service: "entry".into(),
        address: "entry.serving:8085".into(),
        tls: false,
        server_name: String::new(),
        expected_desired_version: 1,
    }
}

fn facts() -> BindFacts {
    BindFacts {
        guard_found: true,
        cluster: Some(cluster()),
        deployments: Some(vec![desired()]),
        model: Some(bootstrap_catalog()),
        legacy: vec![],
        entries: vec![],
        pools: vec![],
    }
}

fn pending() -> PoolRow {
    bind_pool(binding(), facts(), "managed-1".into(), "admin", NOW).unwrap().0
}

fn issued(row: PoolRow) -> PoolRow {
    let pools = vec![ObservedPool {
        row,
        orphans: vec![],
    }];
    let mut tasks = observation_tasks(Some(cluster()), &token(), pools, NOW).unwrap();
    tasks.remove(0).row
}

fn observation(row: &PoolRow) -> PoolObservation {
    PoolObservation {
        idle_after: None,
        applied_replicas: 2,
        scaling: None,
        idle: false,
        pool_id: row.id.clone(),
        generation: row.generation,
        nonce: row.observation_nonce.clone().unwrap(),
        deployment_uid: Some(UID.into()),
        ready: true,
        code: "ok".into(),
    }
}

fn observed(row: PoolRow) -> ObserveFacts {
    ObserveFacts {
        cluster: Some(cluster()),
        row: Some(row),
        orphans: vec![],
        views: vec![],
        deployments: Some(vec![desired()]),
    }
}

fn active() -> PoolRow {
    let row = issued(pending());
    let report = observation(&row);
    observe_pool("cluster-a", &token(), report, observed(row), NOW).unwrap().row
}

fn view(generation: i64, active_requests: i64) -> ViewRow {
    ViewRow {
        pool_id: "managed-1".into(),
        session_id: SESSION.into(),
        delivered_generation: generation,
        acknowledged_generation: generation,
        active_requests,
        retired: false,
        reported_at: Some(NOW),
    }
}

#[test]
fn clusters_are_known_by_their_credential() {
    assert!(name("cluster-a") && !name("Cluster") && !name("-a"));
    assert!(authenticated(Some(cluster()), &token(), NOW).is_ok());
    assert!(matches!(
        authenticated(Some(cluster()), "other", NOW),
        Err(ServiceError::Unauthorized)
    ));
    let expired = ClusterRow {
        expires_at: NOW,
        ..cluster()
    };
    assert!(authenticated(Some(expired), &token(), NOW).is_err());
    assert!(credential(0).is_err());
    assert_ne!(credential(1).unwrap().token, credential(1).unwrap().token);
    assert_eq!(token().len(), 43);
    let rotate = |expected_epoch| RotateCredential {
        expected_epoch,
        credential_days: 10,
    };
    let fresh = || Ok(credential_of(&[8; 32]));
    let (row, _) =
        rotate_cluster_credential(Some(cluster()), rotate(1), fresh(), "admin", NOW).unwrap();
    assert_eq!(row.credential_epoch, 2);
    assert!(authenticated(Some(row), &token(), NOW).is_err());
    assert!(rotate_cluster_credential(Some(cluster()), rotate(2), fresh(), "admin", NOW).is_err());
    let (gone, _) = revoke_cluster(Some(cluster()), "admin", NOW).unwrap().unwrap();
    assert!(authenticated(Some(gone.clone()), &token(), NOW).is_err());
    assert!(revoke_cluster(Some(gone), "admin", NOW).unwrap().is_none());
}

#[test]
fn desired_states_are_versioned_and_delivered_until_acknowledged() {
    let state = |expected_version| DesiredState {
        expected_version,
        deployments: vec![desired()],
    };
    assert!(validate_desired(&state(1)).is_ok());
    assert!(validate_desired(&state(-1)).is_err());
    let twice = DesiredState {
        expected_version: 1,
        deployments: vec![desired(), desired()],
    };
    assert!(validate_desired(&twice).is_err());
    let of = |spec| DesiredState {
        expected_version: 1,
        deployments: vec![DesiredDeployment {
            spec: Some(spec),
            ..desired()
        }],
    };
    for text in ["\"text\"", "7", "[]", "null"] {
        assert!(validate_desired(&of(parsed(text))).is_err());
    }
    assert!(validate_desired(&of(parsed("{}"))).is_ok());
    let mut large = parsed("{}");
    large.value["text"] = "a".repeat(262_144).into();
    assert!(matches!(
        validate_desired(&of(large)),
        Err(ServiceError::Invalid(m)) if m == "desired state exceeds 256 KiB"
    ));
    let plan = plan_desired(&Some(cluster()), state(1), vec![], NOW).unwrap();
    assert_eq!(plan.version, 2);
    assert!(plan_desired(&Some(cluster()), state(0), vec![], NOW).is_err());
    let written = put_cluster_desired(cluster(), 2, &plan.deployments, "admin", NOW).unwrap();
    assert_eq!(written.cluster.desired_version, 2);
    let sha256 = written.revision.sha256.clone();
    let revision = || {
        Some(StoredRevision {
            version: 2,
            sha256: sha256.clone(),
            deployments: Some(vec![desired()]),
        })
    };
    let lease = "0190b6a4-0000-7000-8000-000000000003";
    let drawn = |cluster| poll_cluster(Some(cluster), &token(), revision(), NOW).unwrap();
    let first = drawn(written.cluster.clone()).delivery.unwrap().lease;
    assert_eq!(first.len(), 36);
    assert_ne!(first, drawn(written.cluster.clone()).delivery.unwrap().lease);
    let poll = poll_cluster_with(Some(written.cluster), &token(), revision(), lease, NOW).unwrap();
    let delivery = poll.delivery.unwrap();
    assert_eq!((delivery.version, delivery.lease.as_str()), (2, lease));
    let agent = Config {
        prometheus_url: None,
        cluster_id: delivery.cluster_id.clone(),
        namespace: delivery.namespace.clone(),
        control_url: "https://control.example".into(),
        credential_file: "/var/run/credential".into(),
        allow_local_http: false,
    };
    let checks = vec![ItemCheck {
        name_valid: true,
        spec_valid: true,
    }];
    assert!(validate_delivery(&agent, &delivery, &checks).is_ok());
    let row = poll.cluster.unwrap();
    let again = poll_cluster_with(Some(row.clone()), &token(), revision(), "x", NOW).unwrap();
    assert!(again.delivery.is_none());
    let report = |version, outcome: &str| ClusterReport {
        version,
        sha256: sha256.clone(),
        lease: lease.into(),
        outcome: outcome.into(),
        error_code: if outcome == "applied" {
            None
        } else {
            Some("apply_timeout".into())
        },
    };
    let sha = || Some(sha256.clone());
    let (done, _) = report_cluster(Some(row.clone()), &token(), &report(2, "applied"), sha(), NOW)
        .unwrap()
        .unwrap();
    assert_eq!(done.acknowledged_version, 2);
    assert!(report_cluster(Some(done), &token(), &report(2, "applied"), sha(), NOW)
        .unwrap()
        .is_none());
    let (failed, _) = report_cluster(Some(row.clone()), &token(), &report(2, "rejected"), sha(), NOW)
        .unwrap()
        .unwrap();
    assert_eq!(failed.acknowledged_version, 1);
    assert!(report_cluster(Some(row), &token(), &report(2, "applied"), Some("x".into()), NOW).is_err());
}

#[test]
fn a_pool_is_bound_to_one_entry() {
    let row = pending();
    assert_eq!((row.generation, row.state), (1, PoolState::Pending));
    assert_eq!(row.endpoint.model, "xscope-demo");
    assert!(managed_id().starts_with("managed-"));
    assert_ne!(managed_id(), managed_id());
    let stale = PoolBinding {
        expected_desired_version: 0,
        ..binding()
    };
    assert!(matches!(
        bind_pool(stale, facts(), "managed-1".into(), "admin", NOW),
        Err(ServiceError::Conflict(m)) if m == "cluster credential or desired version changed"
    ));
    let taken = BindFacts {
        pools: vec![row.endpoint],
        ..facts()
    };
    assert!(matches!(
        bind_pool(binding(), taken, "managed-2".into(), "admin", NOW),
        Err(ServiceError::Conflict(m)) if m == "managed entries must be dedicated to one pool"
    ));
    let unguarded = BindFacts {
        guard_found: false,
        ..facts()
    };
    assert!(bind_pool(binding(), unguarded, "managed-1".into(), "admin", NOW).is_err());
}

#[test]
fn readiness_registers_a_pool_once() {
    let row = active();
    assert_eq!((row.state, row.generation), (PoolState::Active, 2));
    assert_eq!(row.deployment_uid.as_deref(), Some(UID));
    let row = issued(row);
    let stale = PoolObservation {
        nonce: "old".into(),
        ..observation(&row)
    };
    assert!(matches!(
        observe_pool("cluster-a", &token(), stale, observed(row.clone()), NOW),
        Err(ServiceError::Conflict(m)) if m == "stale observation generation or lease"
    ));
    let replaced = PoolObservation {
        deployment_uid: Some("0190b6a4-0000-4000-8000-000000000009".into()),
        ..observation(&row)
    };
    assert!(matches!(
        observe_pool("cluster-a", &token(), replaced, observed(row.clone()), NOW),
        Err(ServiceError::Conflict(m)) if m == "deployment identity was replaced; rebind explicitly"
    ));
    let report = observation(&row);
    let seen = observe_pool("cluster-a", &token(), report, observed(row), NOW).unwrap();
    assert!(seen.registered.is_none());
    assert_eq!(seen.row.generation, 2);
}

#[test]
fn offline_is_not_drained() {
    let row = active();
    let (draining, _) = pool_transition(Some(row), 2, "drain", &vec![], "admin", NOW).unwrap();
    assert_eq!((draining.state, draining.generation), (PoolState::Draining, 3));
    let busy = vec![view(3, 1)];
    assert_eq!(managed_pool_status(&draining, &busy), (1, false));
    assert!(matches!(
        pool_transition(Some(draining.clone()), 3, "finish-drain", &busy, "admin", NOW),
        Err(ServiceError::Conflict(m))
            if m == "gateway ACK or in-flight completion is missing; offline is not drained"
    ));
    let behind = vec![view(2, 0)];
    assert!(pool_transition(Some(draining.clone()), 3, "finish-drain", &behind, "admin", NOW).is_err());
    let idle = vec![view(3, 0)];
    let (drained, _) =
        pool_transition(Some(draining), 3, "finish-drain", &idle, "admin", NOW).unwrap();
    assert_eq!((drained.state, drained.generation), (PoolState::Drained, 3));
    assert!(pool_transition(Some(drained.clone()), 2, "activate", &idle, "admin", NOW).is_err());
    let (back, _) = pool_transition(Some(drained), 3, "activate", &idle, "admin", NOW).unwrap();
    assert_eq!((back.state, back.generation), (PoolState::Active, 4));
}

#[test]
fn a_serving_pool_is_not_changed_under_its_requests() {
    let mut same = vec![desired()];
    let kept = guard_desired(vec![active()], 2, &mut same, NOW).unwrap();
    assert!(matches!(kept[0], Guarded::Kept));
    let mut changed = vec![DesiredDeployment {
        spec: Some(spec(3)),
        ..desired()
    }];
    assert!(guard_desired(vec![active()], 2, &mut changed, NOW).is_err());
}

#[test]
fn specifications_are_compared_as_values() {
    let of = |spec| {
        vec![DesiredDeployment {
            spec: Some(spec),
            ..desired()
        }]
    };
    let mut zero = spec(2);
    zero.value["weight"] = (-0.0).into();
    let kept = guard_desired(vec![active()], 2, &mut of(zero.clone()), NOW).unwrap();
    assert!(matches!(kept[0], Guarded::Kept));
    let drained = || PoolRow {
        state: PoolState::Drained,
        ..active()
    };
    zero.value["replicas"] = 4.into();
    let moved = guard_desired(vec![drained()], 2, &mut of(zero), NOW).unwrap();
    match &moved[0] {
        Guarded::Changed(row) => assert_eq!(row.expected_spec.replica_count(), Some(4)),
        Guarded::Kept => panic!("the replicas changed"),
    }
    let mut other = spec(4);
    other.value["weight"] = 1.into();
    assert!(guard_desired(vec![drained()], 2, &mut of(other), NOW).is_err());
    assert!(guard_desired(vec![drained()], 2, &mut of(spec(10_001)), NOW).is_err());
    let mut bare = active();
    bare.expected_spec = parsed("{}");
    bare.state = PoolState::Drained;
    let with = parsed(r#"{"replicas":1}"#);
    assert!(guard_desired(vec![bare], 2, &mut of(with), NOW).is_err());
}

fn scaled(row: &PoolRow, replicas: i32, views: &Vec<ViewRow>) -> ScaleStep {
    let evidence = Some(ScaleEvidence {
        uid: "u".into(),
        resource_version: "1".into(),
        replicas,
        applied_replicas: 2,
    });
    reconcile(
        &cluster(),
        row,
        &evidence,
        2,
        true,
        views,
        Some(vec![desired()]),
    )
    .unwrap()
}

#[test]
fn shrinking_waits_for_the_drain() {
    let row = active();
    assert!(matches!(scaled(&row, 2, &vec![]), ScaleStep::Idle));
    let plan = match scaled(&row, 3, &vec![]) {
        ScaleStep::Apply(plan) => plan,
        _ => panic!("growing needs no drain"),
    };
    assert_eq!((plan.from, plan.target, plan.up), (2, 3, true));
    let row = match scaled(&row, 1, &vec![]) {
        ScaleStep::Moved { row, .. } => row,
        _ => panic!("shrinking starts with a drain"),
    };
    assert_eq!(row.state, PoolState::Draining);
    assert!(matches!(
        scaled(&row, 1, &vec![view(row.generation, 1)]),
        ScaleStep::Idle
    ));
    let plan = match scaled(&row, 1, &vec![view(row.generation, 0)]) {
        ScaleStep::Apply(plan) => plan,
        _ => panic!("the pool is drained"),
    };
    assert_eq!((plan.from, plan.target, plan.up), (2, 1, false));
    let done = apply(cluster(), row, plan.from, plan.target, plan.up, plan.spec, &plan.deployments, NOW).unwrap();
    assert_eq!(done.version, 2);
    assert_eq!(done.row.expected_spec.replica_count(), Some(1));
    assert_eq!(done.row.expected_spec.value, spec(1).value);
    let written = put_cluster_desired(cluster(), 2, &plan.deployments, "admin", NOW).unwrap();
    assert_eq!(done.sha256, written.revision.sha256);
    assert!(matches!(
        done.row.scale_operation,
        Some(Operation { up: false, target: 1, .. })
    ));
}

#[test]
fn idleness_is_confirmed_behind_the_last_orphan() {
    assert_eq!(idle_after(&vec![]).unwrap(), None);
    assert_eq!(
        idle_after(&vec![Orphan::At(3), Orphan::At(9), Orphan::At(5)]).unwrap(),
        Some(9)
    );
    assert!(idle_after(&vec![Orphan::BadTime]).is_err());
    let stored = |json: &str| read_orphan(Some(&serde_json::from_str(json).unwrap()));
    assert_eq!(read_orphan(None), Orphan::NoSession);
    assert_eq!(stored("null"), Orphan::NoTime);
    assert_eq!(stored(r#"{"observed_at":5}"#), Orphan::NoTime);
    assert_eq!(stored(r#"{"observed_at":"yesterday"}"#), Orphan::BadTime);
    assert_eq!(
        stored(r#"{"observed_at":"2023-11-14T23:13:20.5+01:00"}"#),
        Orphan::At(1_700_000_000_500_000)
    );
    assert!(confirm_idle(&active(), &vec![Orphan::At(NOW + 1)]).is_err());
}

fn identity() -> GatewayIdentity {
    GatewayIdentity {
        cluster_id: "cluster-a".into(),
        namespace: "serving".into(),
        pod: "gateway-0".into(),
        pod_uid: UID.into(),
    }
}

fn snapshot_facts() -> SnapshotFacts {
    SnapshotFacts {
        snapshot: GatewaySnapshot {
            generated_at: NOW,
            keys: vec![],
            route_policies: vec![],
            catalog: CatalogSnapshot::default(),
            traffic: None,
        },
        identity_cluster: Some(cluster()),
        session: None,
        pools: vec![active()],
        clusters: vec![cluster()],
        views: vec![],
        attribution_required: false,
    }
}

fn served() -> Served {
    traffic_snapshot_with(SESSION, None, snapshot_facts(), Some([3; 32]), NOW).unwrap()
}

#[test]
fn grants_are_bound_to_a_generation() {
    let s = served();
    let grant = s.snapshot.traffic.as_ref().unwrap();
    assert_eq!(grant.sequence, 1);
    assert_eq!((grant.pools[0].id.as_str(), grant.pools[0].generation), ("managed-1", 2));
    assert!(grant.pools[0].accepting);
    assert_eq!(s.grant.token_hash, grant_key(&grant.admission_token));
    assert_eq!(s.grant.pools.get("managed-1"), Some(&2));
    let token = grant.admission_token.clone();
    let session = Some(s.session);
    let lease = Some(s.grant);
    let ask = |pool: PoolRow, now| {
        authorize(
            Some(SESSION),
            Some(&token),
            Some("managed-1"),
            &lease,
            &session,
            &Some(pool),
            &Some(cluster()),
            false,
            now,
        )
    };
    assert!(ask(active(), NOW).is_ok());
    let moved = PoolRow {
        generation: 3,
        ..active()
    };
    assert!(matches!(ask(moved, NOW), Err(ServiceError::Forbidden)));
    let draining = PoolRow {
        state: PoolState::Draining,
        ..active()
    };
    assert!(ask(draining, NOW).is_err());
    assert!(ask(active(), NOW + 3_600_000_000).is_err());
    let none = http::HeaderMap::new();
    assert!(authorize_serving(
        &none,
        &lease,
        &session,
        &Some(active()),
        &Some(cluster()),
        false,
        NOW
    )
    .is_err());
}

#[test]
fn sessions_keep_their_identity_and_stay_retired() {
    let fresh = traffic_snapshot(SESSION, Some(identity()), snapshot_facts(), NOW).unwrap();
    let other = GatewayIdentity {
        pod: "gateway-1".into(),
        ..identity()
    };
    let mut session = fresh.session;
    session.closed = false;
    let facts = SnapshotFacts {
        session: Some(session),
        ..snapshot_facts()
    };
    assert!(matches!(
        traffic_snapshot_with(SESSION, Some(other), facts, Some([1; 32]), NOW),
        Err(ServiceError::Conflict(m)) if m == "gateway incarnation identity changed"
    ));
    let mut session = served().session;
    session.closed = true;
    let facts = SnapshotFacts {
        session: Some(session),
        ..snapshot_facts()
    };
    assert!(matches!(
        traffic_snapshot_with(SESSION, None, facts, Some([1; 32]), NOW),
        Err(ServiceError::Conflict(m)) if m == "gateway incarnation was permanently retired"
    ));
    assert!(matches!(
        traffic_snapshot_with("x", None, snapshot_facts(), Some([1; 32]), NOW),
        Err(ServiceError::Invalid(m)) if m == "invalid gateway incarnation"
    ));
    assert!(traffic_snapshot_with(SESSION, None, snapshot_facts(), None, NOW).is_err());
    assert!(validate_identity(&identity(), &Some(cluster()), NOW).is_ok());
    assert!(validate_identity(&identity(), &None, NOW).is_err());
}

fn report(s: &Served, count: u64, closed: bool) -> TrafficReport {
    let grant = s.snapshot.traffic.as_ref().unwrap();
    let mut active = TextMap::new();
    active.insert("managed-1", count);
    TrafficReport {
        closed,
        session_id: SESSION.into(),
        sequence: grant.sequence,
        nonce: grant.nonce.clone(),
        active,
    }
}

#[test]
fn acknowledgements_cover_every_pool() {
    let s = served();
    let views: Vec<ViewRow> = s.views.iter().flatten().cloned().collect();
    let silent = TrafficReport {
        active: TextMap::new(),
        ..report(&s, 0, false)
    };
    let session = || Some(served().session);
    assert_eq!(views.len(), 1);
    assert!(matches!(
        traffic_report(silent, Some(s.session), &views, NOW),
        Err(ServiceError::Invalid(m))
            if m == "ACK must include every exposed pool, including zero counts"
    ));
    let s = served();
    let mut row = session();
    row.as_mut().unwrap().nonce = s.session.nonce.clone();
    let done = traffic_report(report(&s, 4, false), row, &views, NOW).unwrap();
    assert_eq!(done.views[0].active_requests, 4);
    assert_eq!(done.views[0].acknowledged_generation, 2);
    let stale = TrafficReport {
        sequence: 9,
        ..report(&s, 4, false)
    };
    assert!(matches!(
        traffic_report(stale, session(), &views, NOW),
        Err(ServiceError::Conflict(m)) if m == "stale gateway ACK"
    ));
    assert!(matches!(
        traffic_report(report(&s, 4, false), None, &views, NOW),
        Err(ServiceError::NotFound)
    ));
    let acks = route_acks(Some(1), &vec![served().session], "project", "model").unwrap();
    assert!(!acks.all_known_acknowledged);
    assert!(route_acks(None, &vec![], "project", "model").is_err());
}

#[test]
fn ended_gateways_keep_their_unfinished_work() {
    let mut session = traffic_snapshot(SESSION, Some(identity()), snapshot_facts(), NOW)
        .unwrap()
        .session;
    let runtime = GatewayRuntime {
        container_id: format!("containerd://{}", "a".repeat(64)),
        node: "node-1".into(),
        node_uid: UID.into(),
    };
    let tasks =
        gateway_proof_tasks(Some(cluster()), &token(), &vec![session], &vec![], NOW).unwrap();
    assert_eq!(tasks.len(), 1);
    session = traffic_snapshot(SESSION, Some(identity()), snapshot_facts(), NOW)
        .unwrap()
        .session;
    session.proof_nonce = Some(tasks[0].task.nonce.clone());
    session.proof_until = Some(tasks[0].proof_until);
    let proof = |outcome: &str, runtime: Option<GatewayRuntime>| GatewayProof {
        session_id: SESSION.into(),
        nonce: tasks[0].task.nonce.clone(),
        outcome: outcome.into(),
        runtime,
    };
    let mut views = vec![view(2, 3)];
    assert!(matches!(
        gateway_proof(
            Some(cluster()),
            "cluster-a",
            &token(),
            None,
            proof("bound", Some(runtime.clone())),
            &mut views,
            NOW
        ),
        Err(ServiceError::NotFound)
    ));
    let mut bound = gateway_proof(
        Some(cluster()),
        "cluster-a",
        &token(),
        Some(session),
        proof("bound", Some(runtime.clone())),
        &mut views,
        NOW,
    )
    .unwrap()
    .session;
    assert_eq!(bound.runtime, Some(runtime.clone()));
    bound.proof_nonce = Some(tasks[0].task.nonce.clone());
    bound.proof_until = Some(tasks[0].proof_until);
    let ended = gateway_proof(
        Some(cluster()),
        "cluster-a",
        &token(),
        Some(bound),
        proof("terminated", Some(runtime)),
        &mut views,
        NOW,
    )
    .unwrap();
    assert!(ended.session.closed);
    // What it had in flight is unknown, not finished.
    assert_eq!((views[0].active_requests, views[0].retired), (-1, true));
}
