//! Managed pools. Readiness and drain are independent proofs, and an expired
//! lease never means that no request is left.
use crate::control::catalog::{active_model, inactive_model};
use crate::control::clusters::{
    audit, audited, authenticated, authentication_fault, is_uid, label_text, name, uid_text,
    AuditDraft, AuditPayload, ClusterRow,
};
use crate::control::error::{conflict, invalid, refused, Fault, ServiceError, ServiceResult};
use crate::control::gateway_proofs::{
    clear_orphans, cleared, confirm_fault, confirm_idle, idle_after, idle_fault, idle_time, Orphan,
};
use crate::control::scaling::{reconcile, scale_verdict, step_of, Operation, ScaleStep, Verdict};
use crate::crypto::{fresh_uuid, uuid_text};
use crate::domain::catalog::{entry_fault, CatalogModel, ServingEndpoint};
use crate::domain::cluster::{
    autoscaled_in, deployment_index, find_deployment, managed_in, nested_text, replicas_in,
    DeploymentSpec, DesiredDeployment,
};
use crate::domain::routing::RoutePool;
use crate::domain::traffic::{ObservationTask, PoolBinding, PoolObservation};
use crate::domain::{clock_in_range, Timestamp};
use crate::text::{copy_option, join, same, same_option, same_option_view};
use vstd::prelude::*;

verus! {

/// Where a pool stands. Only an active one takes requests.
#[derive(Clone, Copy, Debug, PartialEq, Eq, Structural)]
pub enum PoolState {
    Pending,
    Active,
    Draining,
    Drained,
    Retired,
    /// A state that this version does not know; nothing moves out of it.
    Unknown,
}

impl PoolState {
    pub open spec fn reads(s: Seq<char>) -> PoolState {
        if s == "pending"@ {
            PoolState::Pending
        } else if s == "active"@ {
            PoolState::Active
        } else if s == "draining"@ {
            PoolState::Draining
        } else if s == "drained"@ {
            PoolState::Drained
        } else if s == "retired"@ {
            PoolState::Retired
        } else {
            PoolState::Unknown
        }
    }

    pub fn parse(s: &str) -> (r: PoolState)
        ensures
            r == PoolState::reads(s@),
    {
        if same(s, "pending") {
            PoolState::Pending
        } else if same(s, "active") {
            PoolState::Active
        } else if same(s, "draining") {
            PoolState::Draining
        } else if same(s, "drained") {
            PoolState::Drained
        } else if same(s, "retired") {
            PoolState::Retired
        } else {
            PoolState::Unknown
        }
    }

    pub open spec fn text(self) -> Seq<char> {
        match self {
            PoolState::Pending => "pending"@,
            PoolState::Active => "active"@,
            PoolState::Draining => "draining"@,
            PoolState::Drained => "drained"@,
            PoolState::Retired => "retired"@,
            PoolState::Unknown => "unknown"@,
        }
    }

    pub fn name(self) -> (r: &'static str)
        ensures
            r@ == self.text(),
    {
        match self {
            PoolState::Pending => "pending",
            PoolState::Active => "active",
            PoolState::Draining => "draining",
            PoolState::Drained => "drained",
            PoolState::Retired => "retired",
            PoolState::Unknown => "unknown",
        }
    }
}

/// A managed pool as it is locked for a transaction. Its generation grows
/// whenever what a gateway may do with it changes.
#[derive(Clone, Debug)]
pub struct PoolRow {
    pub id: String,
    pub cluster_id: String,
    pub deployment: String,
    pub generation: i64,
    pub state: PoolState,
    pub binding: PoolBinding,
    pub endpoint: ServingEndpoint,
    pub expected_spec: DeploymentSpec,
    pub desired_version: i64,
    pub deployment_uid: Option<String>,
    pub ready_until: Option<Timestamp>,
    pub observation_nonce: Option<String>,
    pub observation_until: Option<Timestamp>,
    pub observation_code: String,
    pub observed_at: Option<Timestamp>,
    pub updated_at: Timestamp,
    pub scale_operation: Option<Operation>,
}

impl PoolRow {
    /// The last proof of readiness has not expired.
    pub open spec fn ready(self, now: Timestamp) -> bool {
        self.ready_until matches Some(until) && until > now
    }

    pub(crate) fn is_ready(&self, now: Timestamp) -> (r: bool)
        ensures
            r == self.ready(now),
    {
        match self.ready_until {
            Some(until) => until > now,
            None => false,
        }
    }

    pub(crate) fn copy(&self) -> (r: Self)
        ensures
            r == *self,
    {
        PoolRow {
            id: self.id.clone(),
            cluster_id: self.cluster_id.clone(),
            deployment: self.deployment.clone(),
            generation: self.generation,
            state: self.state,
            binding: self.binding.copy(),
            endpoint: self.endpoint.copy(),
            expected_spec: self.expected_spec.copy(),
            desired_version: self.desired_version,
            deployment_uid: copy_option(&self.deployment_uid),
            ready_until: self.ready_until,
            observation_nonce: copy_option(&self.observation_nonce),
            observation_until: self.observation_until,
            observation_code: self.observation_code.clone(),
            observed_at: self.observed_at,
            updated_at: self.updated_at,
            scale_operation: match &self.scale_operation {
                Some(op) => Some(op.copy()),
                None => None,
            },
        }
    }
}

/// What a gateway was shown of a pool, and what it said of it. Fewer than no
/// active requests stand for work that nobody can report on any more.
#[derive(Clone, Debug)]
pub struct ViewRow {
    pub pool_id: String,
    pub session_id: String,
    pub delivered_generation: i64,
    pub acknowledged_generation: i64,
    pub active_requests: i64,
    pub retired: bool,
    pub reported_at: Option<Timestamp>,
}

impl ViewRow {
    pub(crate) fn copy(&self) -> (r: Self)
        ensures
            r == *self,
    {
        ViewRow {
            pool_id: self.pool_id.clone(),
            session_id: self.session_id.clone(),
            delivered_generation: self.delivered_generation,
            acknowledged_generation: self.acknowledged_generation,
            active_requests: self.active_requests,
            retired: self.retired,
            reported_at: self.reported_at,
        }
    }

    /// The gateway may still send requests to the pool, or has some in flight.
    pub open spec fn blocks(self, generation: i64) -> bool {
        !self.retired && (self.acknowledged_generation < generation || self.active_requests != 0)
    }
}

/// A fresh identifier of a managed pool.
pub fn managed_id() -> (r: String)
    ensures
        crate::domain::traffic::managed_name(r@),
        uuid_text(r@.skip("managed-"@.len() as int)),
{
    let id = fresh_uuid();
    let r = join("managed-", id.as_str());
    assert(r@.skip("managed-"@.len() as int) =~= id@);
    assert("managed-"@ =~= r@.subrange(0, "managed-"@.len() as int));
    r
}

/// The rows that a binding is held against: `deployments` is the revision that
/// is desired of the cluster, `model` the entry of the model that the bound
/// deployment runs, `legacy` and `entries` what is routed without a binding,
/// and `pools` the entries of the managed pools.
pub struct BindFacts {
    pub guard_found: bool,
    pub cluster: Option<ClusterRow>,
    pub deployments: Option<Vec<DesiredDeployment>>,
    pub model: Option<CatalogModel>,
    pub legacy: Vec<RoutePool>,
    pub entries: Vec<ServingEndpoint>,
    pub pools: Vec<ServingEndpoint>,
}

/// The specification of a deployment of a revision.
pub open spec fn spec_of(deployments: Seq<DesiredDeployment>, name: Seq<char>) -> Option<
    DeploymentSpec,
> {
    let i = deployment_index(deployments, name);
    if i < deployments.len() {
        deployments[i].spec
    } else {
        None
    }
}

/// The deployment can be drained: its replicas are set by hand or by the
/// platform, and the entry is its own.
pub open spec fn bindable(spec: DeploymentSpec, service: Seq<char>) -> bool {
    &&& autoscaled_in(spec.json()) ==> managed_in(spec.json())
    &&& nested_text(spec.json(), "runtime"@, "protocol"@) == Some("openai"@)
    &&& nested_text(spec.json(), "serving"@, "endpointPickerService"@) == Some(service)
}

/// The model that a deployment serves.
pub open spec fn model_of(spec: DeploymentSpec) -> Option<Seq<char>> {
    nested_text(spec.json(), "model"@, "id"@)
}

pub open spec fn revision_of(spec: DeploymentSpec) -> Option<Seq<char>> {
    nested_text(spec.json(), "model"@, "revision"@)
}

/// The entry that a deployment is bound to.
pub open spec fn entry_of(
    q: PoolBinding,
    spec: DeploymentSpec,
    id: String,
    entry: ServingEndpoint,
) -> bool {
    &&& model_of(spec) == Some(entry.model@)
    &&& revision_of(spec) == Some(entry.revision@)
    &&& entry == (ServingEndpoint {
        id,
        model: entry.model,
        revision: entry.revision,
        address: q.address,
        tls: q.tls,
        server_name: q.server_name,
    })
}

pub open spec fn legacy_clash(
    p: RoutePool,
    deployment: Seq<char>,
    model: Seq<char>,
    revision: Seq<char>,
) -> bool {
    p.id@ == deployment || (p.model@ == model && p.revision@ == revision)
}

pub open spec fn entry_clash(
    old: ServingEndpoint,
    address: Seq<char>,
    model: Seq<char>,
    revision: Seq<char>,
) -> bool {
    old.address@ == address || (old.model@ == model && old.revision@ == revision)
}

pub open spec fn any_legacy_clash(
    legacy: Seq<RoutePool>,
    deployment: Seq<char>,
    model: Seq<char>,
    revision: Seq<char>,
) -> bool {
    exists|i: int|
        0 <= i < legacy.len() && legacy_clash(#[trigger] legacy[i], deployment, model, revision)
}

pub open spec fn any_entry_clash(
    entries: Seq<ServingEndpoint>,
    address: Seq<char>,
    model: Seq<char>,
    revision: Seq<char>,
) -> bool {
    exists|i: int|
        0 <= i < entries.len() && entry_clash(#[trigger] entries[i], address, model, revision)
}

pub open spec fn address_taken(entries: Seq<ServingEndpoint>, address: Seq<char>) -> bool {
    exists|i: int| 0 <= i < entries.len() && (#[trigger] entries[i]).address@ == address
}

fn has_legacy_clash(legacy: &Vec<RoutePool>, deployment: &str, e: &ServingEndpoint) -> (r: bool)
    ensures
        r == any_legacy_clash(legacy@, deployment@, e.model@, e.revision@),
{
    let mut i: usize = 0;
    while i < legacy.len()
        invariant
            i <= legacy@.len(),
            forall|j: int|
                0 <= j < i ==> !legacy_clash(
                    #[trigger] legacy@[j],
                    deployment@,
                    e.model@,
                    e.revision@,
                ),
        decreases legacy.len() - i,
    {
        let p = &legacy[i];
        if same(p.id.as_str(), deployment) || (same(p.model.as_str(), e.model.as_str()) && same(
            p.revision.as_str(),
            e.revision.as_str(),
        )) {
            assert(legacy_clash(legacy@[i as int], deployment@, e.model@, e.revision@));
            return true;
        }
        i += 1;
    }
    false
}

pub(crate) fn has_entry_clash(entries: &Vec<ServingEndpoint>, e: &ServingEndpoint) -> (r: bool)
    ensures
        r == any_entry_clash(entries@, e.address@, e.model@, e.revision@),
{
    let mut i: usize = 0;
    while i < entries.len()
        invariant
            i <= entries@.len(),
            forall|j: int|
                0 <= j < i ==> !entry_clash(
                    #[trigger] entries@[j],
                    e.address@,
                    e.model@,
                    e.revision@,
                ),
        decreases entries.len() - i,
    {
        let old = &entries[i];
        if same(old.address.as_str(), e.address.as_str()) || (same(
            old.model.as_str(),
            e.model.as_str(),
        ) && same(old.revision.as_str(), e.revision.as_str())) {
            assert(entry_clash(entries@[i as int], e.address@, e.model@, e.revision@));
            return true;
        }
        i += 1;
    }
    false
}

fn is_address_taken(entries: &Vec<ServingEndpoint>, address: &str) -> (r: bool)
    ensures
        r == address_taken(entries@, address@),
{
    let mut i: usize = 0;
    while i < entries.len()
        invariant
            i <= entries@.len(),
            forall|j: int| 0 <= j < i ==> (#[trigger] entries@[j]).address@ != address@,
        decreases entries.len() - i,
    {
        if same(entries[i].address.as_str(), address) {
            return true;
        }
        i += 1;
    }
    false
}

pub open spec fn bind_fault(
    q: PoolBinding,
    facts: BindFacts,
    id: String,
    now: Timestamp,
) -> Option<Fault> {
    if !label_text(q.cluster_id@) || !label_text(q.deployment@) || !label_text(
        q.serving_service@,
    ) {
        Some(Fault::Invalid("invalid cluster, deployment or serving Service name"@))
    } else if !facts.guard_found {
        Some(Fault::Conflict("traffic registry guard missing"@))
    } else if facts.cluster is None {
        Some(Fault::NotFound)
    } else if !facts.cluster->0.trusted(now) || q.expected_desired_version
        != facts.cluster->0.desired_version {
        Some(Fault::Conflict("cluster credential or desired version changed"@))
    } else if facts.deployments is None || spec_of(facts.deployments->0@, q.deployment@) is None {
        Some(Fault::NotFound)
    } else {
        let spec = spec_of(facts.deployments->0@, q.deployment@)->0;
        let model = model_of(spec)->0;
        let revision = revision_of(spec)->0;
        let refusal = entry_fault(id@, model, revision, q.address@, q.tls, q.server_name@);
        if !bindable(spec, q.serving_service@) {
            Some(
                Fault::Invalid(
                    "managed drain currently requires manual replicas and a pool-specific combined Envoy/EPP entry"@,
                ),
            )
        } else if model_of(spec) is None {
            Some(Fault::Invalid("model ID missing"@))
        } else if inactive_model(facts.model) is Some {
            inactive_model(facts.model)
        } else if revision_of(spec) is None {
            Some(Fault::Invalid("model revision missing"@))
        } else if refusal is Some {
            Some(Fault::Invalid(refusal->0))
        } else if any_legacy_clash(facts.legacy@, q.deployment@, model, revision) {
            Some(
                Fault::Conflict("managed pool must not reuse a legacy model revision or entry"@),
            )
        } else if any_entry_clash(facts.entries@, q.address@, model, revision) {
            Some(
                Fault::Conflict("serving entry is already exposed through the legacy catalog"@),
            )
        } else if address_taken(facts.pools@, q.address@) {
            Some(Fault::Conflict("managed entries must be dedicated to one pool"@))
        } else {
            None
        }
    }
}

/// Binds a deployment of a cluster to a dedicated serving entry, as a pending
/// pool under a fresh identifier. The caller holds the guard of the registry.
pub fn bind_pool(
    request: PoolBinding,
    facts: BindFacts,
    id: String,
    actor: &str,
    now: Timestamp,
) -> (r: ServiceResult<(PoolRow, AuditDraft)>)
    ensures
        refused(r, bind_fault(request, facts, id, now)),
        r matches Ok(made) ==> {
            let spec = spec_of(facts.deployments->0@, request.deployment@)->0;
            &&& made.0.observation_code@ == "not_ready"@
            &&& entry_of(request, spec, id, made.0.endpoint)
            &&& made.0 == (PoolRow {
                id,
                cluster_id: facts.cluster->0.id,
                deployment: request.deployment,
                generation: 1,
                state: PoolState::Pending,
                binding: request,
                endpoint: made.0.endpoint,
                expected_spec: spec,
                desired_version: request.expected_desired_version,
                deployment_uid: None,
                ready_until: None,
                observation_nonce: None,
                observation_until: None,
                observation_code: made.0.observation_code,
                observed_at: None,
                updated_at: now,
                scale_operation: None,
            })
            &&& audited(
                made.1,
                actor@,
                "pool.bound"@,
                id@,
                AuditPayload::PoolMoved { generation: 1, state: PoolState::Pending },
            )
        },
{
    if !name(request.cluster_id.as_str()) || !name(request.deployment.as_str()) || !name(
        request.serving_service.as_str(),
    ) {
        return Err(invalid("invalid cluster, deployment or serving Service name"));
    }
    if !facts.guard_found {
        return Err(conflict("traffic registry guard missing"));
    }
    let cluster = match facts.cluster {
        Some(cluster) => cluster,
        None => return Err(ServiceError::NotFound),
    };
    if !cluster.is_trusted(now) || request.expected_desired_version != cluster.desired_version {
        return Err(conflict("cluster credential or desired version changed"));
    }
    let deployments = match facts.deployments {
        Some(deployments) => deployments,
        None => return Err(ServiceError::NotFound),
    };
    let i = find_deployment(&deployments, request.deployment.as_str());
    if i >= deployments.len() {
        return Err(ServiceError::NotFound);
    }
    let spec = match &deployments[i].spec {
        Some(spec) => spec.copy(),
        None => return Err(ServiceError::NotFound),
    };
    let protocol_fits = match &spec.protocol() {
        Some(protocol) => same(protocol.as_str(), "openai"),
        None => false,
    };
    let picker_fits = match &spec.picker() {
        Some(picker) => same(picker.as_str(), request.serving_service.as_str()),
        None => false,
    };
    if (spec.autoscaled() && !spec.managed_scaling()) || !protocol_fits || !picker_fits {
        return Err(
            invalid(
                "managed drain currently requires manual replicas and a pool-specific combined Envoy/EPP entry",
            ),
        );
    }
    let model = match spec.model_id() {
        Some(model) => model,
        None => return Err(invalid("model ID missing")),
    };
    let _ = active_model(facts.model)?;
    let revision = match spec.model_revision() {
        Some(revision) => revision,
        None => return Err(invalid("model revision missing")),
    };
    let endpoint = ServingEndpoint {
        id: id.clone(),
        model,
        revision,
        address: request.address.clone(),
        tls: request.tls,
        server_name: request.server_name.clone(),
    };
    if let Err(message) = endpoint.validate() {
        return Err(ServiceError::Invalid(message));
    }
    if has_legacy_clash(&facts.legacy, request.deployment.as_str(), &endpoint) {
        return Err(conflict("managed pool must not reuse a legacy model revision or entry"));
    }
    if has_entry_clash(&facts.entries, &endpoint) {
        return Err(conflict("serving entry is already exposed through the legacy catalog"));
    }
    if is_address_taken(&facts.pools, endpoint.address.as_str()) {
        return Err(conflict("managed entries must be dedicated to one pool"));
    }
    let trail = audit(
        actor,
        "pool.bound",
        id.as_str(),
        AuditPayload::PoolMoved { generation: 1, state: PoolState::Pending },
    );
    let row = PoolRow {
        id,
        cluster_id: cluster.id,
        deployment: request.deployment.clone(),
        generation: 1,
        state: PoolState::Pending,
        endpoint,
        expected_spec: spec,
        desired_version: request.expected_desired_version,
        binding: request,
        deployment_uid: None,
        ready_until: None,
        observation_nonce: None,
        observation_until: None,
        observation_code: "not_ready".to_owned(),
        observed_at: None,
        updated_at: now,
        scale_operation: None,
    };
    Ok((row, trail))
}

/// The gateways that still stand in the way of a drain.
pub open spec fn blocking(views: Seq<ViewRow>, generation: i64) -> Seq<ViewRow> {
    views.filter(|v: ViewRow| v.blocks(generation))
}

/// How many gateways still stand in the way of a drain, and whether it can be
/// finished.
pub fn managed_pool_status(row: &PoolRow, views: &Vec<ViewRow>) -> (r: (usize, bool))
    ensures
        r.0 == blocking(views@, row.generation).len(),
        r.1 == (row.state == PoolState::Draining && r.0 == 0),
{
    let ghost keep = |v: ViewRow| v.blocks(row.generation);
    let mut count: usize = 0;
    let mut i: usize = 0;
    assert(views@.take(0).filter(keep) =~= Seq::empty());
    while i < views.len()
        invariant
            i <= views@.len(),
            count <= i,
            keep == (|v: ViewRow| v.blocks(row.generation)),
            count == views@.take(i as int).filter(keep).len(),
        decreases views.len() - i,
    {
        proof {
            broadcast use Seq::lemma_filter_push;

            assert(views@.take(i as int + 1) == views@.take(i as int).push(views@[i as int]));
        }
        let v = &views[i];
        if !v.retired && (v.acknowledged_generation < row.generation || v.active_requests != 0) {
            assert(keep(views@[i as int]));
            count += 1;
        }
        i += 1;
    }
    assert(views@.take(i as int) =~= views@);
    (count, row.state == PoolState::Draining && count == 0)
}

fn is_blocked(views: &Vec<ViewRow>, generation: i64) -> (r: bool)
    ensures
        r == any_blocked(views@, generation),
{
    let mut i: usize = 0;
    while i < views.len()
        invariant
            i <= views@.len(),
            forall|j: int| 0 <= j < i ==> !(#[trigger] views@[j]).blocks(generation),
        decreases views.len() - i,
    {
        let v = &views[i];
        if !v.retired && (v.acknowledged_generation < generation || v.active_requests != 0) {
            assert(views@[i as int].blocks(generation));
            return true;
        }
        i += 1;
    }
    false
}

pub open spec fn any_blocked(views: Seq<ViewRow>, generation: i64) -> bool {
    exists|i: int| 0 <= i < views.len() && (#[trigger] views[i]).blocks(generation)
}

/// The state that an action leads to, where the pool is in one that it starts
/// from.
pub open spec fn transition(row: PoolRow, action: Seq<char>, now: Timestamp) -> Option<PoolState> {
    if action == "drain"@ && (row.state == PoolState::Active || row.state == PoolState::Pending) {
        Some(PoolState::Draining)
    } else if action == "finish-drain"@ && row.state == PoolState::Draining {
        Some(PoolState::Drained)
    } else if action == "activate"@ && row.state == PoolState::Drained && row.ready(now) {
        Some(PoolState::Active)
    } else {
        None
    }
}

pub open spec fn transition_fault(
    row: Option<PoolRow>,
    expected: i64,
    action: Seq<char>,
    views: Seq<ViewRow>,
    now: Timestamp,
) -> Option<Fault> {
    if row is None {
        Some(Fault::NotFound)
    } else if row->0.generation != expected {
        Some(Fault::Conflict("pool generation changed"@))
    } else if row->0.scale_operation is Some {
        Some(Fault::Conflict("automatic scaling operation is in progress"@))
    } else if transition(row->0, action, now) is None {
        Some(Fault::Conflict("invalid pool state or missing fresh readiness proof"@))
    } else if action == "finish-drain"@ {
        if any_blocked(views, row->0.generation) {
            Some(
                Fault::Conflict(
                    "gateway ACK or in-flight completion is missing; offline is not drained"@,
                ),
            )
        } else {
            None
        }
    } else if row->0.generation == i64::MAX {
        Some(Fault::Invalid("pool generation exhausted"@))
    } else {
        None
    }
}

/// A pool after an action. Finishing a drain stays in the generation that was
/// closed; closing and reopening make a new one.
pub open spec fn moved(row: PoolRow, action: Seq<char>, now: Timestamp) -> PoolRow {
    PoolRow {
        generation: if action == "finish-drain"@ {
            row.generation
        } else {
            (row.generation + 1) as i64
        },
        state: transition(row, action, now)->0,
        updated_at: now,
        observation_nonce: None,
        observation_until: None,
        ..row
    }
}

/// Drains a pool, finishes the drain, or activates it again.
pub fn pool_transition(
    row: Option<PoolRow>,
    expected: i64,
    action: &str,
    views: &Vec<ViewRow>,
    actor: &str,
    now: Timestamp,
) -> (r: ServiceResult<(PoolRow, AuditDraft)>)
    ensures
        refused(r, transition_fault(row, expected, action@, views@, now)),
        r matches Ok(made) ==> made.0 == moved(row->0, action@, now) && audited(
            made.1,
            actor@,
            "pool."@ + action@,
            row->0.id@,
            AuditPayload::PoolMoved { generation: made.0.generation, state: made.0.state },
        ),
{
    proof {
        reveal_strlit("drain");
        reveal_strlit("finish-drain");
        reveal_strlit("activate");
        assert("drain"@.len() == 5 && "finish-drain"@.len() == 12 && "activate"@.len() == 8);
    }
    let row = match row {
        Some(row) => row,
        None => return Err(ServiceError::NotFound),
    };
    if row.generation != expected {
        return Err(conflict("pool generation changed"));
    }
    if row.scale_operation.is_some() {
        return Err(conflict("automatic scaling operation is in progress"));
    }
    let finishing = same(action, "finish-drain");
    let state = if same(action, "drain") && (row.state == PoolState::Active || row.state
        == PoolState::Pending) {
        PoolState::Draining
    } else if finishing && row.state == PoolState::Draining {
        if is_blocked(views, row.generation) {
            return Err(
                conflict("gateway ACK or in-flight completion is missing; offline is not drained"),
            );
        }
        PoolState::Drained
    } else if same(action, "activate") && row.state == PoolState::Drained && row.is_ready(now) {
        PoolState::Active
    } else {
        return Err(conflict("invalid pool state or missing fresh readiness proof"));
    };
    let generation = if finishing {
        row.generation
    } else {
        match row.generation.checked_add(1) {
            Some(generation) => generation,
            None => return Err(invalid("pool generation exhausted")),
        }
    };
    let trail = audit(
        actor,
        join("pool.", action).as_str(),
        row.id.as_str(),
        AuditPayload::PoolMoved { generation, state },
    );
    let next = PoolRow {
        generation,
        state,
        updated_at: now,
        observation_nonce: None,
        observation_until: None,
        ..row
    };
    Ok((next, trail))
}

/// A pool that may be observed, with what is left behind in it.
pub struct ObservedPool {
    pub row: PoolRow,
    pub orphans: Vec<Orphan>,
}

/// The cluster has acknowledged what the pool runs.
pub open spec fn observable(p: ObservedPool, acknowledged: i64) -> bool {
    acknowledged >= p.row.desired_version
}

pub open spec fn tasks_fault(pools: Seq<ObservedPool>, acknowledged: i64) -> Option<Fault>
    decreases pools.len(),
{
    if pools.len() == 0 {
        None
    } else if tasks_fault(pools.drop_last(), acknowledged) is Some {
        tasks_fault(pools.drop_last(), acknowledged)
    } else if observable(pools.last(), acknowledged) {
        idle_fault(pools.last().orphans@)
    } else {
        None
    }
}

/// A task of an observable pool, and the pool as it waits for the answer.
pub struct IssuedTask {
    pub task: ObservationTask,
    pub row: PoolRow,
}

pub open spec fn issued(p: ObservedPool, now: Timestamp, t: IssuedTask) -> bool {
    &&& uuid_text(t.task.nonce@)
    &&& t.task == (ObservationTask {
        traffic_protocol: p.row.binding.traffic_protocol,
        idle_after: idle_time(p.orphans@),
        pool_id: p.row.id,
        generation: p.row.generation,
        nonce: t.task.nonce,
        desired_version: p.row.desired_version,
        deployment: p.row.deployment,
        serving_service: p.row.binding.serving_service,
        expected_uid: p.row.deployment_uid,
        expected_spec: p.row.expected_spec,
    })
    &&& t.row == (PoolRow {
        observation_nonce: Some(t.task.nonce),
        observation_until: Some((now + 60_000_000) as i64),
        ..p.row
    })
}

fn observation_task(p: &ObservedPool, idle_after: Option<Timestamp>, now: Timestamp) -> (r:
    IssuedTask)
    requires
        clock_in_range(now),
        idle_after == idle_time(p.orphans@),
    ensures
        issued(*p, now, r),
{
    let row = &p.row;
    let nonce = fresh_uuid();
    IssuedTask {
        task: ObservationTask {
            traffic_protocol: row.binding.traffic_protocol,
            idle_after,
            pool_id: row.id.clone(),
            generation: row.generation,
            nonce: nonce.clone(),
            desired_version: row.desired_version,
            deployment: row.deployment.clone(),
            serving_service: row.binding.serving_service.clone(),
            expected_uid: copy_option(&row.deployment_uid),
            expected_spec: row.expected_spec.copy(),
        },
        row: PoolRow {
            observation_nonce: Some(nonce),
            observation_until: Some(now + 60_000_000),
            ..row.copy()
        },
    }
}

pub open spec fn observable_pools(pools: Seq<ObservedPool>, acknowledged: i64) -> Seq<ObservedPool> {
    pools.filter(|p: ObservedPool| observable(p, acknowledged))
}

/// The observation tasks of a cluster, under the locks of its pools: one for
/// each pool whose revision it has acknowledged, each with a fresh nonce.
#[verifier::loop_isolation(false)]
pub fn observation_tasks(
    cluster: Option<ClusterRow>,
    token: &str,
    pools: Vec<ObservedPool>,
    now: Timestamp,
) -> (r: ServiceResult<Vec<IssuedTask>>)
    requires
        clock_in_range(now),
    ensures
        refused(
            r,
            if authentication_fault(cluster, token@, now) is Some {
                authentication_fault(cluster, token@, now)
            } else {
                tasks_fault(pools@, cluster->0.acknowledged_version)
            },
        ),
        r matches Ok(tasks) ==> {
            let due = observable_pools(pools@, cluster->0.acknowledged_version);
            &&& tasks@.len() == due.len()
            &&& forall|i: int| 0 <= i < tasks@.len() ==> issued(due[i], now, #[trigger] tasks@[i])
        },
{
    let cluster = authenticated(cluster, token, now)?;
    let acknowledged = cluster.acknowledged_version;
    let ghost keep = |p: ObservedPool| observable(p, acknowledged);
    let mut out: Vec<IssuedTask> = Vec::new();
    let mut i: usize = 0;
    assert(pools@.take(0).filter(keep) =~= Seq::empty());
    while i < pools.len()
        invariant
            i <= pools@.len(),
            clock_in_range(now),
            keep == (|p: ObservedPool| observable(p, acknowledged)),
            tasks_fault(pools@.take(i as int), acknowledged) is None,
            out@.len() == pools@.take(i as int).filter(keep).len(),
            forall|j: int|
                0 <= j < out@.len() ==> issued(
                    pools@.take(i as int).filter(keep)[j],
                    now,
                    #[trigger] out@[j],
                ),
        decreases pools.len() - i,
    {
        let ghost kept = pools@.take(i as int).filter(keep);
        proof {
            broadcast use Seq::lemma_filter_push;

            assert(pools@.take(i as int + 1) == pools@.take(i as int).push(pools@[i as int]));
            assert(pools@.take(i as int + 1).drop_last() =~= pools@.take(i as int));
        }
        let p = &pools[i];
        if acknowledged >= p.row.desired_version {
            assert(keep(pools@[i as int]));
            match idle_after(&p.orphans) {
                Ok(idle) => {
                    out.push(observation_task(p, idle, now));
                },
                Err(e) => {
                    proof {
                        lemma_tasks_fault(pools@, acknowledged, i as int + 1);
                    }
                    return Err(e);
                },
            }
        }
        i += 1;
    }
    assert(pools@.take(i as int) =~= pools@);
    Ok(out)
}

/// A fault among the first pools is the fault of all of them.
proof fn lemma_tasks_fault(pools: Seq<ObservedPool>, acknowledged: i64, n: int)
    requires
        0 <= n <= pools.len(),
        tasks_fault(pools.take(n), acknowledged) is Some,
    ensures
        tasks_fault(pools, acknowledged) == tasks_fault(pools.take(n), acknowledged),
    decreases pools.len(),
{
    if n < pools.len() {
        assert(pools.drop_last().take(n) =~= pools.take(n));
        lemma_tasks_fault(pools.drop_last(), acknowledged, n);
    } else {
        assert(pools.take(n) =~= pools);
    }
}

pub open spec fn observation_code(code: Seq<char>) -> bool {
    ||| code == "ok"@
    ||| code == "not_ready"@
    ||| code == "spec_drift"@
    ||| code == "identity_mismatch"@
    ||| code == "kubernetes_unavailable"@
}

/// An observation has a known code, is ready exactly when the code says so,
/// and then names the deployment that it saw.
pub open spec fn observation_sound(o: PoolObservation) -> bool {
    &&& observation_code(o.code@)
    &&& o.ready == (o.code@ == "ok"@)
    &&& o.deployment_uid matches Some(uid) ==> uid_text(uid@)
    &&& o.ready ==> o.deployment_uid is Some
}

/// The observation answers the task that is out.
pub open spec fn observation_current(
    row: PoolRow,
    o: PoolObservation,
    acknowledged: i64,
    now: Timestamp,
) -> bool {
    &&& row.generation == o.generation
    &&& row.observation_nonce matches Some(nonce) && nonce@ == o.nonce@
    &&& row.observation_until matches Some(until) && until > now
    &&& acknowledged >= row.desired_version
}

/// The observation registers the pool: it was pending and is ready.
pub open spec fn registers(row: PoolRow, o: PoolObservation) -> bool {
    o.ready && row.state == PoolState::Pending
}

/// The pool after an observation. Readiness never reopens a pool that drains
/// or is drained.
pub open spec fn observed(row: PoolRow, o: PoolObservation, now: Timestamp) -> PoolRow {
    PoolRow {
        observed_at: Some(now),
        observation_code: o.code,
        observation_nonce: None,
        observation_until: None,
        ready_until: if o.ready {
            Some((now + 45_000_000) as i64)
        } else {
            None
        },
        deployment_uid: if row.deployment_uid is None {
            o.deployment_uid
        } else {
            row.deployment_uid
        },
        state: if registers(row, o) {
            PoolState::Active
        } else {
            row.state
        },
        generation: if registers(row, o) {
            (row.generation + 1) as i64
        } else {
            row.generation
        },
        updated_at: now,
        ..row
    }
}

/// What an observation is held against: the views of the pool, the evidence on
/// the gateways that left work in it, and the revision that is desired of its
/// cluster.
pub struct ObserveFacts {
    pub cluster: Option<ClusterRow>,
    pub row: Option<PoolRow>,
    pub orphans: Vec<Orphan>,
    pub views: Vec<ViewRow>,
    pub deployments: Option<Vec<DesiredDeployment>>,
}

/// The views that a replica change is decided on.
pub open spec fn settled_views(facts: ObserveFacts, o: PoolObservation) -> Seq<ViewRow> {
    if o.idle && facts.orphans@.len() > 0 {
        cleared(facts.views@)
    } else {
        facts.views@
    }
}

pub open spec fn observed_verdict(
    facts: ObserveFacts,
    o: PoolObservation,
    now: Timestamp,
) -> Verdict {
    scale_verdict(
        facts.cluster->0,
        observed(facts.row->0, o, now),
        o.scaling,
        o.applied_replicas,
        o.ready,
        settled_views(facts, o),
        facts.deployments is Some,
    )
}

pub open spec fn observe_fault(
    id: Seq<char>,
    token: Seq<char>,
    o: PoolObservation,
    facts: ObserveFacts,
    now: Timestamp,
) -> Option<Fault> {
    if !observation_sound(o) {
        Some(Fault::Invalid("invalid readiness observation"@))
    } else if authentication_fault(facts.cluster, token, now) is Some {
        authentication_fault(facts.cluster, token, now)
    } else if facts.row is None {
        Some(Fault::NotFound)
    } else if facts.row->0.cluster_id@ != id {
        Some(Fault::Forbidden)
    } else if !observation_current(
        facts.row->0,
        o,
        facts.cluster->0.acknowledged_version,
        now,
    ) {
        Some(Fault::Conflict("stale observation generation or lease"@))
    } else if o.deployment_uid is Some && facts.row->0.deployment_uid is Some
        && o.deployment_uid->0@ != facts.row->0.deployment_uid->0@ {
        Some(Fault::Conflict("deployment identity was replaced; rebind explicitly"@))
    } else if registers(facts.row->0, o) && facts.row->0.generation == i64::MAX {
        Some(Fault::Invalid("pool generation exhausted"@))
    } else if o.idle && confirm_fault(observed(facts.row->0, o, now), facts.orphans@) is Some {
        confirm_fault(observed(facts.row->0, o, now), facts.orphans@)
    } else if observed_verdict(facts, o, now) is Refused {
        Some(observed_verdict(facts, o, now)->Refused_0)
    } else {
        None
    }
}

/// What an observation writes. `row` is the pool before the replica change of
/// `scale`, which is written over it.
pub struct Observation {
    pub row: PoolRow,
    pub registered: Option<AuditDraft>,
    /// The model of the pool, if it has no default, gets this pool.
    pub make_default: bool,
    pub orphans_drained: Option<AuditDraft>,
    pub views: Vec<ViewRow>,
    pub scale: ScaleStep,
}

/// Takes an observation of a pool, under the locks of its cluster and the
/// pool.
pub fn observe_pool(
    id: &str,
    token: &str,
    report: PoolObservation,
    facts: ObserveFacts,
    now: Timestamp,
) -> (r: ServiceResult<Observation>)
    requires
        clock_in_range(now),
    ensures
        refused(r, observe_fault(id@, token@, report, facts, now)),
        r matches Ok(o) ==> {
            let row = facts.row->0;
            &&& o.row == observed(row, report, now)
            &&& o.registered is Some <==> registers(row, report)
            &&& o.registered matches Some(trail) ==> audited(
                trail,
                "cluster:"@ + id@,
                "pool.registered"@,
                row.id@,
                AuditPayload::PoolRegistered { generation: o.row.generation },
            )
            &&& o.make_default == (registers(row, report) && row.binding.make_default)
            &&& o.orphans_drained is Some <==> report.idle && facts.orphans@.len() > 0
            &&& o.orphans_drained matches Some(trail) ==> audited(
                trail,
                "member-agent"@,
                "pool.orphans_drained"@,
                row.id@,
                AuditPayload::HoldsUnchanged,
            )
            &&& o.views@ == settled_views(facts, report)
            &&& step_of(
                observed_verdict(facts, report, now),
                o.row,
                report.scaling,
                facts.deployments,
                o.scale,
            )
        },
{
    let code = report.code.as_str();
    let known = same(code, "ok") || same(code, "not_ready") || same(code, "spec_drift") || same(
        code,
        "identity_mismatch",
    ) || same(code, "kubernetes_unavailable");
    let uid_fits = match &report.deployment_uid {
        Some(uid) => is_uid(uid.as_str()),
        None => true,
    };
    if !known || report.ready != same(code, "ok") || !uid_fits || (report.ready
        && report.deployment_uid.is_none()) {
        return Err(invalid("invalid readiness observation"));
    }
    let cluster = authenticated(facts.cluster, token, now)?;
    let row = match facts.row {
        Some(row) => row,
        None => return Err(ServiceError::NotFound),
    };
    if !same(row.cluster_id.as_str(), id) {
        return Err(ServiceError::Forbidden);
    }
    let nonce_fits = match &row.observation_nonce {
        Some(nonce) => same(nonce.as_str(), report.nonce.as_str()),
        None => false,
    };
    let live = match row.observation_until {
        Some(until) => until > now,
        None => false,
    };
    if row.generation != report.generation || !nonce_fits || !live || cluster.acknowledged_version
        < row.desired_version {
        return Err(conflict("stale observation generation or lease"));
    }
    let replaced = match (&report.deployment_uid, &row.deployment_uid) {
        (Some(seen), Some(known)) => !same(seen.as_str(), known.as_str()),
        _ => false,
    };
    if replaced {
        return Err(conflict("deployment identity was replaced; rebind explicitly"));
    }
    let registers = report.ready && row.state == PoolState::Pending;
    let generation = if registers {
        match row.generation.checked_add(1) {
            Some(generation) => generation,
            None => return Err(invalid("pool generation exhausted")),
        }
    } else {
        row.generation
    };
    let registered = if registers {
        Some(
            audit(
                join("cluster:", id).as_str(),
                "pool.registered",
                row.id.as_str(),
                AuditPayload::PoolRegistered { generation },
            ),
        )
    } else {
        None
    };
    let make_default = registers && row.binding.make_default;
    let state = if registers {
        PoolState::Active
    } else {
        row.state
    };
    let deployment_uid = match &row.deployment_uid {
        Some(uid) => Some(uid.clone()),
        None => copy_option(&report.deployment_uid),
    };
    let next = PoolRow {
        observed_at: Some(now),
        observation_code: report.code.clone(),
        observation_nonce: None,
        observation_until: None,
        ready_until: if report.ready {
            Some(now + 45_000_000)
        } else {
            None
        },
        deployment_uid,
        state,
        generation,
        updated_at: now,
        ..row
    };
    let mut views = facts.views;
    let mut orphans_drained: Option<AuditDraft> = None;
    if report.idle {
        orphans_drained = confirm_idle(&next, &facts.orphans)?;
        if orphans_drained.is_some() {
            clear_orphans(&mut views);
        }
    }
    let scale = reconcile(
        &cluster,
        &next,
        &report.scaling,
        report.applied_replicas,
        report.ready,
        &views,
        facts.deployments,
    )?;
    Ok(Observation { row: next, registered, make_default, orphans_drained, views, scale })
}

/// What a desired state does to a managed pool.
pub enum Guarded {
    Kept,
    Changed(PoolRow),
}

/// A managed deployment may change in nothing but its replicas.
pub open spec fn only_replicas_change(spec: DeploymentSpec, expected: DeploymentSpec) -> bool {
    &&& spec.differs_in_replicas(expected)
    &&& replicas_in(spec.json()) matches Some(n) && 0 <= n <= 10_000
}

/// The deployment is left as it is.
pub open spec fn unchanged(row: PoolRow, item: DesiredDeployment) -> bool {
    item.spec matches Some(spec) && spec.equals(row.expected_spec)
}

pub open spec fn guard_item_fault(row: PoolRow, item: DesiredDeployment) -> Option<Fault> {
    if row.state == PoolState::Retired {
        if item.spec is None && same_option_view(item.delete_uid, row.deployment_uid) {
            None
        } else {
            Some(
                Fault::Conflict(
                    "retired pool cannot be resurrected; use a new deployment identity"@,
                ),
            )
        }
    } else if unchanged(row, item) {
        None
    } else if row.state != PoolState::Drained {
        Some(Fault::Conflict("managed deployment must finish pool drain before mutation"@))
    } else if row.scale_operation is Some {
        Some(Fault::Conflict("automatic scaling owns the pending replica change"@))
    } else if row.deployment_uid is None {
        Some(Fault::Conflict("deployment identity proof missing"@))
    } else if item.spec is Some && !only_replicas_change(item.spec->0, row.expected_spec) {
        Some(
            Fault::Invalid(
                "managed pool model/runtime identity is immutable; create a new deployment for a new revision"@,
            ),
        )
    } else if item.spec is None && !same_option_view(item.delete_uid, row.deployment_uid) {
        Some(Fault::Conflict("delete UID differs from observed deployment"@))
    } else if row.generation == i64::MAX {
        Some(Fault::Invalid("pool generation exhausted"@))
    } else {
        None
    }
}

/// A deployment with a specification is bound to the observed object.
pub open spec fn guarded_item(row: PoolRow, item: DesiredDeployment) -> DesiredDeployment {
    if row.state != PoolState::Retired && item.spec is Some {
        DesiredDeployment { expected_uid: row.deployment_uid, ..item }
    } else {
        item
    }
}

pub open spec fn mutates(row: PoolRow, item: DesiredDeployment) -> bool {
    row.state != PoolState::Retired && !unchanged(row, item)
}

/// The pool after its deployment was changed or deleted.
pub open spec fn mutated(
    row: PoolRow,
    item: DesiredDeployment,
    version: i64,
    now: Timestamp,
) -> PoolRow {
    PoolRow {
        generation: (row.generation + 1) as i64,
        desired_version: version,
        ready_until: None,
        observation_nonce: None,
        observation_until: None,
        expected_spec: match item.spec {
            Some(spec) => spec,
            None => row.expected_spec,
        },
        state: match item.spec {
            Some(_) => row.state,
            None => PoolState::Retired,
        },
        updated_at: now,
        ..row
    }
}

/// The deployments after the first `n` pools were guarded.
pub open spec fn guard_after(
    rows: Seq<PoolRow>,
    deployments: Seq<DesiredDeployment>,
    n: int,
) -> Seq<DesiredDeployment>
    decreases n,
{
    if n <= 0 {
        deployments
    } else {
        let before = guard_after(rows, deployments, n - 1);
        let i = deployment_index(before, rows[n - 1].deployment@);
        if i < before.len() {
            before.update(i, guarded_item(rows[n - 1], before[i]))
        } else {
            before
        }
    }
}

/// The fault of the pool at `k`, given the pools before it.
pub open spec fn guard_fault_at(
    rows: Seq<PoolRow>,
    deployments: Seq<DesiredDeployment>,
    k: int,
) -> Option<Fault> {
    let before = guard_after(rows, deployments, k);
    let i = deployment_index(before, rows[k].deployment@);
    if i < before.len() {
        guard_item_fault(rows[k], before[i])
    } else {
        None
    }
}

pub open spec fn guard_fault_upto(
    rows: Seq<PoolRow>,
    deployments: Seq<DesiredDeployment>,
    n: int,
) -> Option<Fault>
    decreases n,
{
    if n <= 0 {
        None
    } else if guard_fault_upto(rows, deployments, n - 1) is Some {
        guard_fault_upto(rows, deployments, n - 1)
    } else {
        guard_fault_at(rows, deployments, n - 1)
    }
}

/// The first fault, in the order of the pools.
pub open spec fn guard_fault(
    rows: Seq<PoolRow>,
    deployments: Seq<DesiredDeployment>,
) -> Option<Fault> {
    guard_fault_upto(rows, deployments, rows.len() as int)
}

pub open spec fn guarded_row(
    rows: Seq<PoolRow>,
    deployments: Seq<DesiredDeployment>,
    k: int,
    version: i64,
    now: Timestamp,
    g: Guarded,
) -> bool {
    let before = guard_after(rows, deployments, k);
    let i = deployment_index(before, rows[k].deployment@);
    let change = i < before.len() && mutates(rows[k], before[i]);
    match g {
        Guarded::Kept => !change,
        Guarded::Changed(next) => change && next == mutated(rows[k], before[i], version, now),
    }
}

pub open spec fn guard_rows_of(
    rows: Seq<PoolRow>,
    deployments: Seq<DesiredDeployment>,
    version: i64,
    now: Timestamp,
    out: Seq<Guarded>,
) -> bool {
    &&& out.len() == rows.len()
    &&& forall|k: int|
        0 <= k < out.len() ==> guarded_row(rows, deployments, k, version, now, #[trigger] out[k])
}

proof fn lemma_guard_fault(rows: Seq<PoolRow>, deployments: Seq<DesiredDeployment>, k: int, n: int)
    requires
        0 <= k < n,
        guard_fault_upto(rows, deployments, k) is None,
        guard_fault_at(rows, deployments, k) is Some,
    ensures
        guard_fault_upto(rows, deployments, n) == guard_fault_at(rows, deployments, k),
    decreases n,
{
    if n > k + 1 {
        lemma_guard_fault(rows, deployments, k, n - 1);
    }
}

fn guard_item(row: &PoolRow, item: &DesiredDeployment, version: i64, now: Timestamp) -> (r:
    ServiceResult<(DesiredDeployment, Guarded)>)
    ensures
        refused(r, guard_item_fault(*row, *item)),
        r matches Ok(done) ==> done.0 == guarded_item(*row, *item) && match done.1 {
            Guarded::Kept => !mutates(*row, *item),
            Guarded::Changed(next) => mutates(*row, *item) && next == mutated(
                *row,
                *item,
                version,
                now,
            ),
        },
{
    if row.state == PoolState::Retired {
        if item.spec.is_none() && same_option(&item.delete_uid, &row.deployment_uid) {
            return Ok((item.copy(), Guarded::Kept));
        }
        return Err(conflict("retired pool cannot be resurrected; use a new deployment identity"));
    }
    if let Some(spec) = &item.spec {
        if spec.same(&row.expected_spec) {
            let bound = DesiredDeployment {
                expected_uid: copy_option(&row.deployment_uid),
                ..item.copy()
            };
            return Ok((bound, Guarded::Kept));
        }
    }
    if row.state != PoolState::Drained {
        return Err(conflict("managed deployment must finish pool drain before mutation"));
    }
    if row.scale_operation.is_some() {
        return Err(conflict("automatic scaling owns the pending replica change"));
    }
    if row.deployment_uid.is_none() {
        return Err(conflict("deployment identity proof missing"));
    }
    let mut state = row.state;
    let mut expected_spec = row.expected_spec.copy();
    let mut bound = item.copy();
    match &item.spec {
        Some(spec) => {
            let count_fits = match spec.replica_count() {
                Some(n) => n >= 0 && n <= 10_000,
                None => false,
            };
            if !spec.only_replicas_differ(&row.expected_spec) || !count_fits {
                return Err(
                    invalid(
                        "managed pool model/runtime identity is immutable; create a new deployment for a new revision",
                    ),
                );
            }
            expected_spec = spec.copy();
            bound = DesiredDeployment {
                expected_uid: copy_option(&row.deployment_uid),
                ..bound
            };
        },
        None => {
            if !same_option(&item.delete_uid, &row.deployment_uid) {
                return Err(conflict("delete UID differs from observed deployment"));
            }
            state = PoolState::Retired;
        },
    }
    let generation = match row.generation.checked_add(1) {
        Some(generation) => generation,
        None => return Err(invalid("pool generation exhausted")),
    };
    let next = PoolRow {
        generation,
        desired_version: version,
        ready_until: None,
        observation_nonce: None,
        observation_until: None,
        expected_spec,
        state,
        updated_at: now,
        ..row.copy()
    };
    Ok((bound, Guarded::Changed(next)))
}

/// Holds a new desired state against the managed pools of its cluster, in
/// their order and under their locks. A managed revision never changes;
/// replicas change only after the pool is drained.
pub fn guard_desired(
    rows: Vec<PoolRow>,
    version: i64,
    deployments: &mut Vec<DesiredDeployment>,
    now: Timestamp,
) -> (r: ServiceResult<Vec<Guarded>>)
    ensures
        refused(r, guard_fault(rows@, old(deployments)@)),
        r matches Ok(out) ==> final(deployments)@ == guard_after(
            rows@,
            old(deployments)@,
            rows@.len() as int,
        ) && guard_rows_of(rows@, old(deployments)@, version, now, out@),
{
    let ghost first = deployments@;
    let mut out: Vec<Guarded> = Vec::new();
    let mut k: usize = 0;
    while k < rows.len()
        invariant
            k <= rows@.len(),
            deployments@ == guard_after(rows@, first, k as int),
            guard_fault_upto(rows@, first, k as int) is None,
            out@.len() == k,
            forall|j: int|
                0 <= j < k ==> guarded_row(rows@, first, j, version, now, #[trigger] out@[j]),
            first == old(deployments)@,
        decreases rows.len() - k,
    {
        let row = &rows[k];
        let i = find_deployment(deployments, row.deployment.as_str());
        if i < deployments.len() {
            match guard_item(row, &deployments[i], version, now) {
                Ok((item, guarded)) => {
                    deployments.set(i, item);
                    out.push(guarded);
                },
                Err(e) => {
                    proof {
                        lemma_guard_fault(rows@, first, k as int, rows@.len() as int);
                    }
                    return Err(e);
                },
            }
        } else {
            out.push(Guarded::Kept);
        }
        k += 1;
    }
    Ok(out)
}

/// No action takes a pool back to an older generation: what was granted for
/// one that was closed is never good again.
pub proof fn law_generations_never_go_back(row: PoolRow, action: Seq<char>, now: Timestamp)
    requires
        row.generation < i64::MAX,
    ensures
        moved(row, action, now).generation >= row.generation,
        action != "finish-drain"@ ==> moved(row, action, now).generation > row.generation,
{
}

/// However often a pool is seen to be ready, one that drains or is drained
/// stays closed.
pub proof fn law_readiness_never_reopens(row: PoolRow, o: PoolObservation, now: Timestamp)
    requires
        row.state == PoolState::Draining || row.state == PoolState::Drained || row.state
            == PoolState::Retired,
    ensures
        observed(row, o, now).state == row.state,
        observed(row, o, now).generation == row.generation,
{
}

/// A drain is finished only when every gateway that was shown the pool has
/// ended, or has acknowledged the closure and has nothing in flight. That a
/// gateway is not heard of any more does not count.
pub proof fn law_offline_is_not_drained(
    row: PoolRow,
    expected: i64,
    views: Seq<ViewRow>,
    now: Timestamp,
)
    requires
        transition_fault(Some(row), expected, "finish-drain"@, views, now) is None,
    ensures
        forall|i: int|
            0 <= i < views.len() ==> (#[trigger] views[i]).retired || (
            views[i].acknowledged_generation >= row.generation && views[i].active_requests == 0),
{
    assert forall|i: int| 0 <= i < views.len() implies (#[trigger] views[i]).retired || (
    views[i].acknowledged_generation >= row.generation && views[i].active_requests == 0) by {
        assert(!views[i].blocks(row.generation));
    }
}

/// A retired pool is retired for good: no desired state changes it.
pub proof fn law_retired_pools_stay_retired(row: PoolRow, item: DesiredDeployment)
    requires
        row.state == PoolState::Retired,
    ensures
        !mutates(row, item),
        item.spec is Some ==> guard_item_fault(row, item) is Some,
{
}

/// A pool is moved only as its state allows: an open or pending pool drains, a draining one is
/// drained, and a drained one opens again on fresh proof; and only from the generation that is
/// current, while no change of replicas is under way.
pub proof fn law_pools_move_one_step_at_a_time(
    row: PoolRow,
    expected: i64,
    action: Seq<char>,
    views: Seq<ViewRow>,
    now: Timestamp,
)
    requires
        transition_fault(Some(row), expected, action, views, now) is None,
    ensures
        row.generation == expected,
        row.scale_operation is None,
        action == "drain"@ || action == "finish-drain"@ || action == "activate"@,
        action == "drain"@ ==> (row.state == PoolState::Active || row.state == PoolState::Pending)
            && moved(row, action, now).state == PoolState::Draining,
        action == "finish-drain"@ ==> row.state == PoolState::Draining && moved(
            row,
            action,
            now,
        ).state == PoolState::Drained && moved(row, action, now).generation == row.generation,
        action == "activate"@ ==> row.state == PoolState::Drained && row.ready_until is Some && now
            < row.ready_until->0 && moved(row, action, now).state == PoolState::Active,
        action != "finish-drain"@ ==> moved(row, action, now).generation == row.generation + 1,
        moved(row, action, now).observation_nonce is None,
{
    reveal_strlit("drain");
    reveal_strlit("finish-drain");
    reveal_strlit("activate");
    assert("drain"@.len() == 5 && "finish-drain"@.len() == 12 && "activate"@.len() == 8);
}

/// A pool that is open or pending can always be drained; a draining pool whose gateways have
/// all acknowledged and finished, or are retired, is drained.
pub proof fn law_pools_can_be_drained(row: PoolRow, views: Seq<ViewRow>, now: Timestamp)
    requires
        row.scale_operation is None,
        row.generation < i64::MAX,
    ensures
        row.state == PoolState::Active || row.state == PoolState::Pending ==> transition_fault(
            Some(row),
            row.generation,
            "drain"@,
            views,
            now,
        ) is None,
        row.state == PoolState::Draining && (forall|i: int|
            0 <= i < views.len() ==> (#[trigger] views[i]).retired || (
            views[i].acknowledged_generation >= row.generation && views[i].active_requests == 0))
            ==> transition_fault(Some(row), row.generation, "finish-drain"@, views, now) is None,
        row.state == PoolState::Drained && row.ready_until is Some && now < row.ready_until->0
            ==> transition_fault(Some(row), row.generation, "activate"@, views, now) is None,
{
    reveal_strlit("drain");
    reveal_strlit("finish-drain");
    reveal_strlit("activate");
    assert("drain"@.len() == 5 && "finish-drain"@.len() == 12 && "activate"@.len() == 8);
}

/// An observation is taken only under the nonce and the generation that it was asked for with,
/// in time, of the deployment that was bound, and from the agent of the pool's own cluster.
pub proof fn law_observations_are_of_the_bound_deployment(
    id: Seq<char>,
    token: Seq<char>,
    o: PoolObservation,
    facts: ObserveFacts,
    now: Timestamp,
)
    requires
        observe_fault(id, token, o, facts, now) is None,
    ensures
        facts.row is Some && facts.cluster is Some,
        facts.row->0.cluster_id@ == id,
        facts.row->0.generation == o.generation,
        facts.row->0.observation_nonce is Some && facts.row->0.observation_nonce->0@ == o.nonce@,
        facts.row->0.observation_until is Some && now < facts.row->0.observation_until->0,
        facts.cluster->0.acknowledged_version >= facts.row->0.desired_version,
        o.ready <==> o.code@ == "ok"@,
        o.ready ==> o.deployment_uid is Some,
        o.deployment_uid is Some && facts.row->0.deployment_uid is Some ==> o.deployment_uid->0@
            == facts.row->0.deployment_uid->0@,
        authentication_fault(facts.cluster, token, now) is None,
{
}

/// An observation can be used once. A ready one vouches for the pool for forty-five seconds and
/// opens a pending pool; any other takes the proof away.
pub proof fn law_observations_vouch_for_a_while(row: PoolRow, o: PoolObservation, now: Timestamp)
    requires
        clock_in_range(now),
        row.generation < i64::MAX,
    ensures
        ({
            let next = observed(row, o, now);
            &&& next.observation_nonce is None && next.observation_until is None
            &&& o.ready ==> next.ready_until == Some((now + 45_000_000) as i64) && next.ready(now)
                && !next.ready((now + 45_000_000) as i64)
            &&& !o.ready ==> next.ready_until is None && !next.ready(now)
            &&& row.state == PoolState::Pending && o.ready ==> next.state == PoolState::Active
                && next.generation == row.generation + 1
            &&& row.state != PoolState::Pending || !o.ready ==> next.state == row.state
                && next.generation == row.generation
            &&& row.deployment_uid is Some ==> next.deployment_uid == row.deployment_uid
            &&& next.expected_spec == row.expected_spec
            &&& next.desired_version == row.desired_version
        }),
{
}

/// A managed deployment is changed only when its pool has been drained, and then only in its
/// replicas; it is deleted only under the identity that was observed.
pub proof fn law_serving_deployments_are_not_changed(row: PoolRow, item: DesiredDeployment)
    requires
        guard_item_fault(row, item) is None,
        mutates(row, item),
    ensures
        row.state == PoolState::Drained,
        row.scale_operation is None,
        row.deployment_uid is Some,
        item.spec is Some ==> only_replicas_change(item.spec->0, row.expected_spec),
        item.spec is None ==> item.delete_uid is Some && item.delete_uid->0@
            == row.deployment_uid->0@,
{
}

/// A change of a deployment starts a new generation that nothing vouches for yet; a deletion
/// retires the pool for good.
pub proof fn law_changed_deployments_need_new_proof(
    row: PoolRow,
    item: DesiredDeployment,
    version: i64,
    now: Timestamp,
)
    requires
        row.generation < i64::MAX,
    ensures
        ({
            let next = mutated(row, item, version, now);
            &&& next.generation == row.generation + 1
            &&& next.desired_version == version
            &&& next.ready_until is None
            &&& next.observation_nonce is None
            &&& item.spec is None ==> next.state == PoolState::Retired
            &&& item.spec is Some ==> next.state == row.state && next.expected_spec == item.spec->0
        }),
{
}

/// A pool is bound only on a trusted cluster at the revision that is desired of it, for a model
/// that is offered, and under an address, a model and a revision that nothing else serves.
pub proof fn law_pools_are_bound_to_entries_of_their_own(
    q: PoolBinding,
    facts: BindFacts,
    id: String,
    now: Timestamp,
    i: int,
)
    requires
        bind_fault(q, facts, id, now) is None,
    ensures
        facts.guard_found,
        facts.cluster is Some && facts.cluster->0.trusted(now),
        q.expected_desired_version == facts.cluster->0.desired_version,
        facts.model is Some && facts.model->0.enabled,
        0 <= i < facts.pools@.len() ==> facts.pools@[i].address@ != q.address@,
        0 <= i < facts.entries@.len() ==> facts.entries@[i].address@ != q.address@,
        0 <= i < facts.legacy@.len() ==> facts.legacy@[i].id@ != q.deployment@,
{
    if 0 <= i < facts.entries@.len() {
        let spec = spec_of(facts.deployments->0@, q.deployment@)->0;
        assert(!entry_clash(facts.entries@[i], q.address@, model_of(spec)->0, revision_of(spec)->0));
    }
    if 0 <= i < facts.legacy@.len() {
        let spec = spec_of(facts.deployments->0@, q.deployment@)->0;
        assert(!legacy_clash(
            facts.legacy@[i],
            q.deployment@,
            model_of(spec)->0,
            revision_of(spec)->0,
        ));
    }
}

/// The name of a state reads as that state, and no two states share a name.
pub proof fn law_states_read_as_they_are_written(state: PoolState)
    ensures
        PoolState::reads(state.text()) == state,
{
    reveal_strlit("pending");
    reveal_strlit("active");
    reveal_strlit("draining");
    reveal_strlit("drained");
    reveal_strlit("retired");
    reveal_strlit("unknown");
    assert("pending"@.len() == 7 && "active"@.len() == 6 && "draining"@.len() == 8
        && "drained"@.len() == 7 && "retired"@.len() == 7 && "unknown"@.len() == 7);
    assert("pending"@[0] == 'p' && "drained"@[0] == 'd' && "retired"@[0] == 'r' && "unknown"@[0]
        == 'u');
}

/// Guarding what is desired keeps its deployments, their names and what they are to be: it only
/// binds those of managed pools to the identity that was observed.
pub proof fn law_guards_bind_identities_alone(
    rows: Seq<PoolRow>,
    deployments: Seq<DesiredDeployment>,
    n: int,
    i: int,
)
    requires
        0 <= n <= rows.len(),
        0 <= i < deployments.len(),
    ensures
        guard_after(rows, deployments, n).len() == deployments.len(),
        guard_after(rows, deployments, n)[i].name == deployments[i].name,
        guard_after(rows, deployments, n)[i].spec == deployments[i].spec,
        guard_after(rows, deployments, n)[i].delete_uid == deployments[i].delete_uid,
        guard_after(rows, deployments, n)[i].expected_uid == deployments[i].expected_uid || exists|
            k: int,
        |
            0 <= k < n && guard_after(rows, deployments, n)[i].expected_uid == (
            #[trigger] rows[k]).deployment_uid && rows[k].deployment@ == deployments[i].name@,
    decreases n,
{
    if n > 0 {
        law_guards_bind_identities_alone(rows, deployments, n - 1, i);
        let before = guard_after(rows, deployments, n - 1);
        crate::domain::cluster::law_deployments_are_found_by_name(before, rows[n - 1].deployment@);
    }
}

/// What is desired is taken only if every managed pool that it names allows it, and a pool is
/// changed exactly if what is desired of it has changed.
pub proof fn law_every_managed_pool_is_guarded(
    rows: Seq<PoolRow>,
    deployments: Seq<DesiredDeployment>,
    version: i64,
    now: Timestamp,
    out: Seq<Guarded>,
    k: int,
)
    requires
        guard_fault(rows, deployments) is None,
        guard_rows_of(rows, deployments, version, now, out),
        0 <= k < rows.len(),
    ensures
        out.len() == rows.len(),
        ({
            let before = guard_after(rows, deployments, k);
            let i = deployment_index(before, rows[k].deployment@);
            &&& i < before.len() ==> guard_item_fault(rows[k], before[i]) is None
            &&& out[k] is Changed <==> i < before.len() && mutates(rows[k], before[i])
        }),
        out[k] is Changed ==> rows[k].state == PoolState::Drained && out[k]->Changed_0.generation
            == rows[k].generation + 1 && out[k]->Changed_0.desired_version == version,
{
    lemma_guarded_upto(rows, deployments, rows.len() as int, k);
    assert(guarded_row(rows, deployments, k, version, now, out[k]));
}

/// Where nothing is at fault up to some pool, none of the pools before it is.
proof fn lemma_guarded_upto(
    rows: Seq<PoolRow>,
    deployments: Seq<DesiredDeployment>,
    n: int,
    k: int,
)
    requires
        guard_fault_upto(rows, deployments, n) is None,
        0 <= k < n <= rows.len(),
    ensures
        guard_fault_at(rows, deployments, k) is None,
    decreases n,
{
    if k < n - 1 {
        lemma_guarded_upto(rows, deployments, n - 1, k);
    }
}

/// Replicas are all that may change of a managed deployment: to a number from none to ten
/// thousand.
pub proof fn law_replicas_are_bounded(spec: DeploymentSpec, expected: DeploymentSpec)
    ensures
        only_replicas_change(spec, expected) <==> spec.differs_in_replicas(expected) && replicas_in(
            spec.json(),
        ) is Some && 0 <= replicas_in(spec.json())->0 < 10_001,
{
}

/// The entry of a pool serves the model and the revision of its deployment, at the address that
/// it was bound to.
pub proof fn law_entries_serve_their_deployment(
    q: PoolBinding,
    spec: DeploymentSpec,
    id: String,
    entry: ServingEndpoint,
)
    requires
        entry_of(q, spec, id, entry),
    ensures
        entry.id == id,
        nested_text(spec.json(), "model"@, "id"@) == Some(entry.model@),
        nested_text(spec.json(), "model"@, "revision"@) == Some(entry.revision@),
        entry.address == q.address,
        entry.tls == q.tls,
        entry.server_name == q.server_name,
{
}

/// An observation is asked for under a new nonce for a minute, of the generation, the
/// deployment and the revision that the pool has now.
pub proof fn law_observations_are_asked_for_one_at_a_time(
    p: ObservedPool,
    now: Timestamp,
    t: IssuedTask,
)
    requires
        clock_in_range(now),
        issued(p, now, t),
    ensures
        t.row.observation_nonce == Some(t.task.nonce),
        t.row.observation_until == Some((now + 60_000_000) as i64),
        t.task.generation == p.row.generation && t.row.generation == p.row.generation,
        t.task.desired_version == p.row.desired_version,
        t.task.deployment == p.row.deployment,
        t.task.expected_spec == p.row.expected_spec,
        t.task.expected_uid == p.row.deployment_uid,
        t.task.pool_id == p.row.id,
        t.row.state == p.row.state,
{
}

} // verus!
