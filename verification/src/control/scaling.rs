//! Replica changes that a recommendation asks for. Growing is applied at once;
//! shrinking waits until every gateway has proved that the pool is drained.
use crate::control::clusters::{audit, audited, AuditDraft, AuditPayload, ClusterRow};
use crate::control::error::{conflict, invalid, refused, Fault, ServiceResult};
use crate::control::managed_pools::{PoolRow, PoolState, ViewRow};
use crate::crypto::fingerprint;
use crate::domain::cluster::{
    canonical, delivered_under, deployment_index, deployments_bytes, find_deployment, managed_in,
    nested_integer, replicas_in, DeploymentSpec, DesiredDeployment, DESIRED_BYTES,
};
use crate::domain::traffic::ScaleEvidence;
use crate::domain::Timestamp;
use crate::text::{byte_len, bytes_of, copy_option, same};
use vstd::prelude::*;

verus! {

/// A replica change under way.
#[derive(Clone, Debug)]
pub struct Operation {
    pub phase: String,
    pub target: i32,
    pub from: i32,
    pub previous_version: i64,
    pub up: bool,
}

impl Operation {
    pub(crate) fn copy(&self) -> (r: Self)
        ensures
            r == *self,
    {
        Operation {
            phase: self.phase.clone(),
            target: self.target,
            from: self.from,
            previous_version: self.previous_version,
            up: self.up,
        }
    }
}

/// What an observation leads to.
pub enum Verdict {
    Refused(Fault),
    Idle,
    Completed,
    Cancelled,
    Drain,
    Apply { up: bool },
}

/// A gateway has requests in flight, or may still send some.
pub open spec fn waits(v: ViewRow, generation: i64) -> bool {
    v.active_requests != 0 || (!v.retired && v.acknowledged_generation < generation)
}

pub open spec fn any_waits(views: Seq<ViewRow>, generation: i64) -> bool {
    exists|i: int| 0 <= i < views.len() && waits(#[trigger] views[i], generation)
}

pub open spec fn evidence_sound(row: PoolRow, e: ScaleEvidence) -> bool {
    &&& 1 <= bytes_of(e.uid@).len() <= 128
    &&& 1 <= bytes_of(e.resource_version@).len() <= 128
    &&& nested_integer(row.expected_spec.json(), "autoscaling"@, "minReplicas"@).unwrap_or(1)
        <= e.replicas
    &&& e.replicas <= nested_integer(
        row.expected_spec.json(),
        "autoscaling"@,
        "maxReplicas"@,
    ).unwrap_or(0)
}

pub open spec fn exhausted() -> Verdict {
    Verdict::Refused(Fault::Invalid("pool generation exhausted"@))
}

/// Whether a change can be applied now. The revision before it must have been
/// acknowledged.
pub open spec fn apply_verdict(
    cluster: ClusterRow,
    row: PoolRow,
    revision_found: bool,
    up: bool,
) -> Verdict {
    if cluster.desired_version != cluster.acknowledged_version {
        Verdict::Idle
    } else if row.deployment_uid is None {
        Verdict::Refused(Fault::Conflict("deployment UID evidence missing"@))
    } else if !revision_found {
        Verdict::Refused(Fault::Conflict("desired revision missing"@))
    } else {
        Verdict::Apply { up }
    }
}

pub open spec fn scale_verdict(
    cluster: ClusterRow,
    row: PoolRow,
    evidence: Option<ScaleEvidence>,
    applied: i32,
    ready: bool,
    views: Seq<ViewRow>,
    revision_found: bool,
) -> Verdict {
    let full = row.generation == i64::MAX;
    if !managed_in(row.expected_spec.json()) {
        Verdict::Idle
    } else if row.scale_operation is Some && row.scale_operation->0.phase@ == "applying"@ {
        let op = row.scale_operation->0;
        if !(ready && applied == op.target && cluster.acknowledged_version >= row.desired_version) {
            Verdict::Idle
        } else if !op.up && full {
            exhausted()
        } else {
            Verdict::Completed
        }
    } else if evidence is None {
        Verdict::Idle
    } else if !evidence_sound(row, evidence->0) {
        Verdict::Refused(Fault::Invalid("invalid KEDA recommendation evidence"@))
    } else if !(replicas_in(row.expected_spec.json()) matches Some(n) && i32::MIN <= n <= i32::MAX) {
        Verdict::Refused(Fault::Invalid("stored replica count invalid"@))
    } else {
        let current = replicas_in(row.expected_spec.json())->0;
        let target = evidence->0.replicas;
        if row.scale_operation is Some {
            if row.state != PoolState::Draining || row.scale_operation->0.phase@ != "draining"@ {
                Verdict::Refused(Fault::Conflict("scaling operation state changed"@))
            } else if target >= current && ready {
                if full {
                    exhausted()
                } else {
                    Verdict::Cancelled
                }
            } else if any_waits(views, row.generation) || !ready {
                Verdict::Idle
            } else {
                apply_verdict(cluster, row, revision_found, false)
            }
        } else if row.state != PoolState::Active || !ready || target == current {
            Verdict::Idle
        } else if target > current {
            apply_verdict(cluster, row, revision_found, true)
        } else if full {
            exhausted()
        } else {
            Verdict::Drain
        }
    }
}

/// A change that is to be applied, before its deployments are serialised.
pub struct ScalePlan {
    pub from: i32,
    pub target: i32,
    pub up: bool,
    pub spec: DeploymentSpec,
    pub deployments: Vec<DesiredDeployment>,
}

pub enum ScaleStep {
    Idle,
    Moved { row: PoolRow, audit: AuditDraft },
    Apply(ScalePlan),
}

/// The deployments of a revision with one of them put in the place of the one
/// of its name, or at the end.
pub open spec fn placed(
    deployments: Seq<DesiredDeployment>,
    item: DesiredDeployment,
) -> Seq<DesiredDeployment> {
    let i = deployment_index(deployments, item.name@);
    if i < deployments.len() {
        deployments.update(i, item)
    } else {
        deployments.push(item)
    }
}

pub open spec fn plan_of(
    row: PoolRow,
    target: i32,
    up: bool,
    previous: Seq<DesiredDeployment>,
    plan: ScalePlan,
) -> bool {
    &&& plan.from == replicas_in(row.expected_spec.json())->0
    &&& plan.target == target
    &&& plan.up == up
    &&& row.expected_spec.scaled_to(target as int, plan.spec)
    &&& plan.deployments@ == placed(
        previous,
        DesiredDeployment {
            name: row.deployment,
            spec: Some(plan.spec),
            delete_uid: None,
            expected_uid: row.deployment_uid,
        },
    )
}

/// A step is the one of its verdict.
pub open spec fn step_of(
    verdict: Verdict,
    row: PoolRow,
    evidence: Option<ScaleEvidence>,
    previous: Option<Vec<DesiredDeployment>>,
    step: ScaleStep,
) -> bool {
    match verdict {
        Verdict::Refused(_) => false,
        Verdict::Idle => step is Idle,
        Verdict::Completed => step matches ScaleStep::Moved { row: next, audit: trail } && next == (
        PoolRow {
            scale_operation: None,
            state: if row.scale_operation->0.up {
                row.state
            } else {
                PoolState::Active
            },
            generation: if row.scale_operation->0.up {
                row.generation
            } else {
                (row.generation + 1) as i64
            },
            ..row
        }) && audited(
            trail,
            "keda"@,
            "pool.scale_completed"@,
            row.id@,
            AuditPayload::Replicas(row.scale_operation->0.target),
        ),
        Verdict::Cancelled => step matches ScaleStep::Moved { row: next, audit: trail } && next == (
        PoolRow {
            scale_operation: None,
            state: PoolState::Active,
            generation: (row.generation + 1) as i64,
            ..row
        }) && audited(
            trail,
            "keda"@,
            "pool.scale_cancelled"@,
            row.id@,
            AuditPayload::DemandRecovered,
        ),
        Verdict::Drain => step matches ScaleStep::Moved { row: next, audit: trail }
            && next.scale_operation matches Some(op) && op.phase@ == "draining"@ && op == (
        Operation {
            phase: op.phase,
            target: evidence->0.replicas,
            from: replicas_in(row.expected_spec.json())->0 as i32,
            previous_version: row.desired_version,
            up: false,
        }) && next == (PoolRow {
            scale_operation: next.scale_operation,
            state: PoolState::Draining,
            generation: (row.generation + 1) as i64,
            ..row
        }) && audited(
            trail,
            "keda"@,
            "pool.scale_draining"@,
            row.id@,
            AuditPayload::ScaleDraining {
                from: replicas_in(row.expected_spec.json())->0 as i32,
                target: evidence->0.replicas,
                recommendation_uid: evidence->0.uid,
            },
        ),
        Verdict::Apply { up } => step matches ScaleStep::Apply(plan) && plan_of(
            row,
            evidence->0.replicas,
            up,
            previous->0@,
            plan,
        ),
    }
}

/// What an observation comes to.
pub open spec fn scaled(
    cluster: ClusterRow,
    row: PoolRow,
    evidence: Option<ScaleEvidence>,
    applied: i32,
    ready: bool,
    views: Seq<ViewRow>,
    previous: Option<Vec<DesiredDeployment>>,
    r: ServiceResult<ScaleStep>,
) -> bool {
    let verdict = scale_verdict(cluster, row, evidence, applied, ready, views, previous is Some);
    match r {
        Err(e) => verdict == Verdict::Refused(e@),
        Ok(step) => step_of(verdict, row, evidence, previous, step),
    }
}

fn is_waiting(views: &Vec<ViewRow>, generation: i64) -> (r: bool)
    ensures
        r == any_waits(views@, generation),
{
    let mut i: usize = 0;
    while i < views.len()
        invariant
            i <= views@.len(),
            forall|j: int| 0 <= j < i ==> !waits(#[trigger] views@[j], generation),
        decreases views.len() - i,
    {
        let v = &views[i];
        if v.active_requests != 0 || (!v.retired && v.acknowledged_generation < generation) {
            assert(waits(views@[i as int], generation));
            return true;
        }
        i += 1;
    }
    false
}

fn plan(
    cluster: &ClusterRow,
    row: &PoolRow,
    from: i32,
    target: i32,
    up: bool,
    previous: Option<Vec<DesiredDeployment>>,
) -> (r: ServiceResult<ScaleStep>)
    requires
        replicas_in(row.expected_spec.json()) == Some(from as i64),
    ensures
        match apply_verdict(*cluster, *row, previous is Some, up) {
            Verdict::Refused(fault) => r matches Err(e) && e@ == fault,
            Verdict::Idle => r matches Ok(step) && step is Idle,
            _ => r matches Ok(ScaleStep::Apply(p)) && plan_of(*row, target, up, previous->0@, p),
        },
{
    if cluster.desired_version != cluster.acknowledged_version {
        return Ok(ScaleStep::Idle);
    }
    if row.deployment_uid.is_none() {
        return Err(conflict("deployment UID evidence missing"));
    }
    let mut deployments = match previous {
        Some(deployments) => deployments,
        None => return Err(conflict("desired revision missing")),
    };
    let spec = row.expected_spec.with_replicas(target);
    let item = DesiredDeployment {
        name: row.deployment.clone(),
        spec: Some(spec.copy()),
        delete_uid: None,
        expected_uid: copy_option(&row.deployment_uid),
    };
    let i = find_deployment(&deployments, row.deployment.as_str());
    if i < deployments.len() {
        deployments.set(i, item);
    } else {
        deployments.push(item);
    }
    Ok(ScaleStep::Apply(ScalePlan { from, target, up, spec, deployments }))
}

/// Decides what a fresh observation of a pool means for its replicas, under
/// the locks of the cluster and the pool. `previous` is the revision that is
/// desired of the cluster.
pub fn reconcile(
    cluster: &ClusterRow,
    row: &PoolRow,
    evidence: &Option<ScaleEvidence>,
    applied: i32,
    ready: bool,
    views: &Vec<ViewRow>,
    previous: Option<Vec<DesiredDeployment>>,
) -> (r: ServiceResult<ScaleStep>)
    ensures
        scaled(*cluster, *row, *evidence, applied, ready, views@, previous, r),
{
    if !row.expected_spec.managed_scaling() {
        return Ok(ScaleStep::Idle);
    }
    if let Some(op) = &row.scale_operation {
        if same(op.phase.as_str(), "applying") {
            if !(ready && applied == op.target && cluster.acknowledged_version
                >= row.desired_version) {
                return Ok(ScaleStep::Idle);
            }
            let mut next = PoolRow { scale_operation: None, ..row.copy() };
            if !op.up {
                next.state = PoolState::Active;
                next.generation = match row.generation.checked_add(1) {
                    Some(generation) => generation,
                    None => return Err(invalid("pool generation exhausted")),
                };
            }
            let trail = audit(
                "keda",
                "pool.scale_completed",
                row.id.as_str(),
                AuditPayload::Replicas(op.target),
            );
            return Ok(ScaleStep::Moved { row: next, audit: trail });
        }
    }
    let evidence = match evidence {
        Some(evidence) => evidence,
        None => return Ok(ScaleStep::Idle),
    };
    let minimum: i64 = match row.expected_spec.min_replicas() {
        Some(n) => n,
        None => 1,
    };
    let maximum: i64 = match row.expected_spec.max_replicas() {
        Some(n) => n,
        None => 0,
    };
    let replicas: i64 = evidence.replicas as i64;
    if byte_len(evidence.uid.as_str()) < 1 || byte_len(evidence.uid.as_str()) > 128 || byte_len(
        evidence.resource_version.as_str(),
    ) < 1 || byte_len(evidence.resource_version.as_str()) > 128 || replicas < minimum || replicas
        > maximum {
        return Err(invalid("invalid KEDA recommendation evidence"));
    }
    let current: i32 = match row.expected_spec.replica_count() {
        Some(n) => if n >= i32::MIN as i64 && n <= i32::MAX as i64 {
            n as i32
        } else {
            return Err(invalid("stored replica count invalid"));
        },
        None => return Err(invalid("stored replica count invalid")),
    };
    if let Some(op) = &row.scale_operation {
        if row.state != PoolState::Draining || !same(op.phase.as_str(), "draining") {
            return Err(conflict("scaling operation state changed"));
        }
        if evidence.replicas >= current && ready {
            let generation = match row.generation.checked_add(1) {
                Some(generation) => generation,
                None => return Err(invalid("pool generation exhausted")),
            };
            let trail = audit(
                "keda",
                "pool.scale_cancelled",
                row.id.as_str(),
                AuditPayload::DemandRecovered,
            );
            let next = PoolRow {
                scale_operation: None,
                state: PoolState::Active,
                generation,
                ..row.copy()
            };
            return Ok(ScaleStep::Moved { row: next, audit: trail });
        }
        if is_waiting(views, row.generation) || !ready {
            return Ok(ScaleStep::Idle);
        }
        return plan(cluster, row, current, evidence.replicas, false, previous);
    }
    if row.state != PoolState::Active || !ready || evidence.replicas == current {
        return Ok(ScaleStep::Idle);
    }
    if evidence.replicas > current {
        return plan(cluster, row, current, evidence.replicas, true, previous);
    }
    let generation = match row.generation.checked_add(1) {
        Some(generation) => generation,
        None => return Err(invalid("pool generation exhausted")),
    };
    let trail = audit(
        "keda",
        "pool.scale_draining",
        row.id.as_str(),
        AuditPayload::ScaleDraining {
            from: current,
            target: evidence.replicas,
            recommendation_uid: evidence.uid.clone(),
        },
    );
    let operation = Operation {
        phase: "draining".to_owned(),
        target: evidence.replicas,
        from: current,
        previous_version: row.desired_version,
        up: false,
    };
    let next = PoolRow {
        scale_operation: Some(operation),
        state: PoolState::Draining,
        generation,
        ..row.copy()
    };
    Ok(ScaleStep::Moved { row: next, audit: trail })
}

/// What an applied change writes.
pub struct ScaleApplied {
    pub version: i64,
    pub sha256: String,
    pub cluster: ClusterRow,
    pub row: PoolRow,
    pub audit: AuditDraft,
}

pub open spec fn apply_fault(
    cluster: ClusterRow,
    row: PoolRow,
    up: bool,
    deployments: Seq<DesiredDeployment>,
) -> Option<Fault> {
    if deployments_bytes(deployments) is None {
        Some(Fault::Invalid("invalid scale payload"@))
    } else if deployments_bytes(deployments)->0.len() > DESIRED_BYTES {
        Some(Fault::Invalid("scale payload too large"@))
    } else if cluster.desired_version == i64::MAX {
        Some(Fault::Invalid("desired version exhausted"@))
    } else if !up && row.generation == i64::MAX {
        Some(Fault::Invalid("pool generation exhausted"@))
    } else {
        None
    }
}

/// Applies a planned change as a new revision of the cluster, of the deployments
/// of the plan. A pool that shrinks stays closed until the change is seen to
/// have been made.
pub fn apply(
    cluster: ClusterRow,
    row: PoolRow,
    from: i32,
    target: i32,
    up: bool,
    spec: DeploymentSpec,
    deployments: &Vec<DesiredDeployment>,
    now: Timestamp,
) -> (r: ServiceResult<ScaleApplied>)
    ensures
        refused(r, apply_fault(cluster, row, up, deployments@)),
        r matches Ok(done) ==> {
            &&& done.version == cluster.desired_version + 1
            &&& delivered_under(deployments@, done.sha256@)
            &&& done.cluster == (ClusterRow {
                desired_version: done.version,
                updated_at: now,
                ..cluster
            })
            &&& done.row.scale_operation matches Some(op) && op.phase@ == "applying"@ && op == (
            Operation {
                phase: op.phase,
                target,
                from,
                previous_version: row.desired_version,
                up,
            })
            &&& done.row == (PoolRow {
                expected_spec: spec,
                desired_version: done.version,
                scale_operation: done.row.scale_operation,
                observation_nonce: None,
                observation_until: None,
                state: if up {
                    row.state
                } else {
                    PoolState::Drained
                },
                ready_until: if up {
                    row.ready_until
                } else {
                    None
                },
                generation: if up {
                    row.generation
                } else {
                    (row.generation + 1) as i64
                },
                updated_at: now,
                ..row
            })
            &&& audited(
                done.audit,
                "keda"@,
                "pool.scale_applied"@,
                row.id@,
                AuditPayload::ScaleApplied {
                    replicas: target,
                    desired_version: done.version,
                    drain_required: !up,
                },
            )
        },
{
    let payload = match canonical(deployments) {
        Some(payload) => payload,
        None => return Err(invalid("invalid scale payload")),
    };
    if payload.len() > DESIRED_BYTES {
        return Err(invalid("scale payload too large"));
    }
    let version = match cluster.desired_version.checked_add(1) {
        Some(version) => version,
        None => return Err(invalid("desired version exhausted")),
    };
    let generation = if up {
        row.generation
    } else {
        match row.generation.checked_add(1) {
            Some(generation) => generation,
            None => return Err(invalid("pool generation exhausted")),
        }
    };
    let trail = audit(
        "keda",
        "pool.scale_applied",
        row.id.as_str(),
        AuditPayload::ScaleApplied {
            replicas: target,
            desired_version: version,
            drain_required: !up,
        },
    );
    let operation = Operation {
        phase: "applying".to_owned(),
        target,
        from,
        previous_version: row.desired_version,
        up,
    };
    let state = if up {
        row.state
    } else {
        PoolState::Drained
    };
    let ready_until = if up {
        row.ready_until
    } else {
        None
    };
    let row = PoolRow {
        expected_spec: spec,
        desired_version: version,
        scale_operation: Some(operation),
        observation_nonce: None,
        observation_until: None,
        state,
        ready_until,
        generation,
        updated_at: now,
        ..row
    };
    Ok(
        ScaleApplied {
            version,
            sha256: fingerprint(payload.as_slice()),
            cluster: ClusterRow { desired_version: version, updated_at: now, ..cluster },
            row,
            audit: trail,
        },
    )
}

/// A pool shrinks only when it is closed, no gateway has requests in flight,
/// and every gateway that is not retired has acknowledged the closure.
pub proof fn law_shrinking_waits_for_the_drain(
    cluster: ClusterRow,
    row: PoolRow,
    evidence: Option<ScaleEvidence>,
    applied: i32,
    ready: bool,
    views: Seq<ViewRow>,
    revision_found: bool,
)
    requires
        scale_verdict(cluster, row, evidence, applied, ready, views, revision_found) == (
        Verdict::Apply { up: false }),
    ensures
        row.state == PoolState::Draining,
        forall|i: int|
            0 <= i < views.len() ==> (#[trigger] views[i]).active_requests == 0 && (
            views[i].retired || views[i].acknowledged_generation >= row.generation),
{
    assert forall|i: int| 0 <= i < views.len() implies (#[trigger] views[i]).active_requests == 0
        && (views[i].retired || views[i].acknowledged_generation >= row.generation) by {
        assert(!waits(views[i], row.generation));
    }
}

/// A recommendation that a pool can follow: it is named and versioned in 1 to 128 bytes each,
/// and stays between the least and the most replicas of the pool.
pub open spec fn proposes(row: PoolRow, e: ScaleEvidence, current: i32, target: i32) -> bool {
    &&& managed_in(row.expected_spec.json())
    &&& 1 <= bytes_of(e.uid@).len() <= 128
    &&& 1 <= bytes_of(e.resource_version@).len() <= 128
    &&& nested_integer(row.expected_spec.json(), "autoscaling"@, "minReplicas"@) matches Some(least)
        && least <= target
    &&& nested_integer(row.expected_spec.json(), "autoscaling"@, "maxReplicas"@) matches Some(most)
        && target <= most
    &&& replicas_in(row.expected_spec.json()) == Some(current as i64)
    &&& e.replicas == target
}

/// A pool that drains for a shrink and is ready opens again as soon as at least its current
/// replicas are recommended, whether or not gateways still have requests in flight: its
/// operation is gone, its generation is a new one, and nothing else of it changes.
pub proof fn law_demand_that_is_back_reopens_a_draining_pool(
    cluster: ClusterRow,
    row: PoolRow,
    e: ScaleEvidence,
    current: i32,
    target: i32,
    applied: i32,
    views: Seq<ViewRow>,
    previous: Option<Vec<DesiredDeployment>>,
    r: ServiceResult<ScaleStep>,
)
    requires
        proposes(row, e, current, target),
        row.state == PoolState::Draining,
        row.scale_operation matches Some(op) && op.phase@ == "draining"@,
        row.generation < i64::MAX,
        target >= current,
        scaled(cluster, row, Some(e), applied, true, views, previous, r),
    ensures
        r matches Ok(ScaleStep::Moved { row: next, audit: trail }) && next == (PoolRow {
            state: PoolState::Active,
            scale_operation: None,
            generation: (row.generation + 1) as i64,
            ..row
        }) && trail.action@ == "pool.scale_cancelled"@,
{
    reveal_strlit("draining");
    reveal_strlit("applying");
    assert("draining"@[0] != "applying"@[0]);
}

/// A change is applied as growth if and only if its target is above the current replicas, and
/// as a shrink if and only if its target is below them. A shrink is applied to a pool that is
/// draining, growth to one that is open; both to a pool that is ready, towards what was
/// recommended.
pub proof fn law_changes_go_the_way_that_they_say(
    cluster: ClusterRow,
    row: PoolRow,
    evidence: Option<ScaleEvidence>,
    applied: i32,
    ready: bool,
    views: Seq<ViewRow>,
    previous: Option<Vec<DesiredDeployment>>,
    r: ServiceResult<ScaleStep>,
    plan: ScalePlan,
)
    requires
        scaled(cluster, row, evidence, applied, ready, views, previous, r),
        r == Ok::<ScaleStep, crate::control::error::ServiceError>(ScaleStep::Apply(plan)),
    ensures
        ready,
        evidence is Some,
        plan.target == evidence->0.replicas,
        Some(plan.from as i64) == replicas_in(row.expected_spec.json()),
        plan.up <==> plan.target > plan.from,
        !plan.up <==> plan.target < plan.from,
        plan.up ==> row.state == PoolState::Active && row.scale_operation is None,
        !plan.up ==> row.state == PoolState::Draining && row.scale_operation is Some,
        cluster.desired_version == cluster.acknowledged_version,
        row.deployment_uid is Some,
        previous is Some,
{
}

/// An open pool that is ready grows at once when more replicas are recommended, provided that
/// the revision before was acknowledged.
pub proof fn law_growth_is_applied_at_once(
    cluster: ClusterRow,
    row: PoolRow,
    e: ScaleEvidence,
    current: i32,
    target: i32,
    applied: i32,
    views: Seq<ViewRow>,
    previous: Option<Vec<DesiredDeployment>>,
    r: ServiceResult<ScaleStep>,
)
    requires
        proposes(row, e, current, target),
        row.state == PoolState::Active,
        row.scale_operation is None,
        row.deployment_uid is Some,
        previous is Some,
        cluster.desired_version == cluster.acknowledged_version,
        target > current,
        scaled(cluster, row, Some(e), applied, true, views, previous, r),
    ensures
        r matches Ok(ScaleStep::Apply(plan)) && plan.up && plan.from == current && plan.target
            == target,
{
}

/// An open pool that is ready closes for a drain before it shrinks: fewer replicas are
/// recommended, and nothing is applied yet. Its replicas stay as they are.
pub proof fn law_shrinks_begin_with_a_drain(
    cluster: ClusterRow,
    row: PoolRow,
    e: ScaleEvidence,
    current: i32,
    target: i32,
    applied: i32,
    views: Seq<ViewRow>,
    previous: Option<Vec<DesiredDeployment>>,
    r: ServiceResult<ScaleStep>,
)
    requires
        proposes(row, e, current, target),
        row.state == PoolState::Active,
        row.scale_operation is None,
        row.generation < i64::MAX,
        target < current,
        scaled(cluster, row, Some(e), applied, true, views, previous, r),
    ensures
        r is Ok,
        r->Ok_0 is Moved,
        ({
            let next = r->Ok_0->Moved_row;
            &&& next.state == PoolState::Draining
            &&& next.generation == row.generation + 1
            &&& next.expected_spec == row.expected_spec
            &&& next.desired_version == row.desired_version
            &&& next.scale_operation matches Some(op) && op.phase@ == "draining"@ && !op.up
                && op.from == current && op.target == target
        }),
{
}

/// A drained pool shrinks when no gateway has requests in flight and every gateway that is
/// not retired has acknowledged the closure.
pub proof fn law_drained_pools_shrink(
    cluster: ClusterRow,
    row: PoolRow,
    e: ScaleEvidence,
    current: i32,
    target: i32,
    applied: i32,
    views: Seq<ViewRow>,
    previous: Option<Vec<DesiredDeployment>>,
    r: ServiceResult<ScaleStep>,
)
    requires
        proposes(row, e, current, target),
        row.state == PoolState::Draining,
        row.scale_operation matches Some(op) && op.phase@ == "draining"@,
        row.deployment_uid is Some,
        previous is Some,
        cluster.desired_version == cluster.acknowledged_version,
        target < current,
        forall|i: int|
            0 <= i < views.len() ==> (#[trigger] views[i]).active_requests == 0 && (
            views[i].retired || views[i].acknowledged_generation >= row.generation),
        scaled(cluster, row, Some(e), applied, true, views, previous, r),
    ensures
        r matches Ok(ScaleStep::Apply(plan)) && !plan.up && plan.from == current && plan.target
            == target,
{
    reveal_strlit("draining");
    reveal_strlit("applying");
    assert("draining"@[0] != "applying"@[0]);
    assert(!any_waits(views, row.generation));
}

/// A change under way ends when it is seen to have been made, and not before: the pool is
/// ready with the replicas that were asked for, under an acknowledged revision. A pool that
/// shrank is open again from there, in a new generation.
pub proof fn law_changes_end_when_they_are_seen(
    cluster: ClusterRow,
    row: PoolRow,
    evidence: Option<ScaleEvidence>,
    applied: i32,
    ready: bool,
    views: Seq<ViewRow>,
    previous: Option<Vec<DesiredDeployment>>,
    r: ServiceResult<ScaleStep>,
)
    requires
        managed_in(row.expected_spec.json()),
        row.scale_operation matches Some(op) && op.phase@ == "applying"@,
        row.generation < i64::MAX,
        scaled(cluster, row, evidence, applied, ready, views, previous, r),
    ensures
        r is Ok,
        r->Ok_0 is Moved <==> ready && applied == row.scale_operation->0.target
            && cluster.acknowledged_version >= row.desired_version,
        r->Ok_0 is Moved || r->Ok_0 is Idle,
        r->Ok_0 is Moved ==> ({
            let next = r->Ok_0->Moved_row;
            &&& next.scale_operation is None
            &&& next.expected_spec == row.expected_spec
            &&& if row.scale_operation->0.up {
                next.state == row.state && next.generation == row.generation
            } else {
                next.state == PoolState::Active && next.generation == row.generation + 1
            }
        }),
{
}

/// Without a recommendation, with one that is out of bounds, or with a pool that is not ready,
/// nothing is begun.
pub proof fn law_nothing_is_begun_without_grounds(
    cluster: ClusterRow,
    row: PoolRow,
    evidence: Option<ScaleEvidence>,
    applied: i32,
    ready: bool,
    views: Seq<ViewRow>,
    previous: Option<Vec<DesiredDeployment>>,
    r: ServiceResult<ScaleStep>,
)
    requires
        scaled(cluster, row, evidence, applied, ready, views, previous, r),
        row.scale_operation is None,
        ({
            ||| evidence is None
            ||| !ready
            ||| row.state != PoolState::Active
            ||| nested_integer(row.expected_spec.json(), "autoscaling"@, "minReplicas"@) matches
                Some(least) && evidence->0.replicas < least
            ||| nested_integer(row.expected_spec.json(), "autoscaling"@, "maxReplicas"@) matches
                Some(most) && evidence->0.replicas > most
        }),
    ensures
        r is Err || r->Ok_0 is Idle,
{
}

/// A change puts its deployment in the place of the one of its name, or at the end, and leaves
/// every other deployment of the revision as it was.
pub proof fn law_changes_leave_other_deployments_alone(
    row: PoolRow,
    target: i32,
    up: bool,
    previous: Seq<DesiredDeployment>,
    plan: ScalePlan,
    j: int,
)
    requires
        plan_of(row, target, up, previous, plan),
        0 <= j < previous.len(),
    ensures
        previous[j].name@ != row.deployment@ ==> plan.deployments@[j] == previous[j],
        plan.deployments@.len() == previous.len() || plan.deployments@.len() == previous.len() + 1,
        exists|i: int|
            0 <= i < plan.deployments@.len() && (#[trigger] plan.deployments@[i]).name
                == row.deployment && plan.deployments@[i].spec == Some(plan.spec)
                && plan.deployments@[i].expected_uid == row.deployment_uid
                && plan.deployments@[i].delete_uid is None,
{
    crate::domain::cluster::law_deployments_are_found_by_name(previous, row.deployment@);
    let i = deployment_index(previous, row.deployment@);
    assert(plan.deployments@[i].name == row.deployment);
}

} // verus!
