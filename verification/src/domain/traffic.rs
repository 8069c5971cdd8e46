//! Managed pools are opt-in, never retroactive safety claims for entries that
//! were there before.
use crate::collections::TextMap;
use crate::domain::cluster::DeploymentSpec;
use crate::domain::Timestamp;
use crate::text::{same, starts_with};
use vstd::prelude::*;

verus! {

pub const LEASE_SECONDS: u64 = 15;

/// The names of managed pools.
pub open spec fn managed_name(id: Seq<char>) -> bool {
    "managed-"@.is_prefix_of(id)
}

/// Whether a pool is managed, by its name.
pub fn managed(id: &str) -> (r: bool)
    ensures
        r == managed_name(id@),
{
    starts_with(id, "managed-")
}

/// The traffic protocol of a binding that names none.
pub fn legacy_protocol() -> (r: u32)
    ensures
        r == 1,
{
    1
}

#[derive(Clone, Debug)]
pub struct PoolBinding {
    pub traffic_protocol: u32,
    /// Assign only an unbound default; never replace an existing stable route.
    pub make_default: bool,
    pub cluster_id: String,
    pub deployment: String,
    /// Service and Deployment name of the serving entry, in the same namespace.
    pub serving_service: String,
    /// Approved entry transport (runtime configuration, never a client URL).
    pub address: String,
    pub tls: bool,
    pub server_name: String,
    pub expected_desired_version: i64,
}

impl PoolBinding {
    pub(crate) fn copy(&self) -> (r: Self)
        ensures
            r == *self,
    {
        PoolBinding {
            traffic_protocol: self.traffic_protocol,
            make_default: self.make_default,
            cluster_id: self.cluster_id.clone(),
            deployment: self.deployment.clone(),
            serving_service: self.serving_service.clone(),
            address: self.address.clone(),
            tls: self.tls,
            server_name: self.server_name.clone(),
            expected_desired_version: self.expected_desired_version,
        }
    }
}

#[derive(Clone, Debug)]
pub struct PoolControl {
    pub id: String,
    pub generation: i64,
    pub accepting: bool,
}

#[derive(Clone, Debug)]
pub struct TrafficSnapshot {
    pub admission_token: String,
    pub session_id: String,
    pub sequence: i64,
    pub nonce: String,
    pub lease_seconds: u64,
    pub pools: Vec<PoolControl>,
}

/// What a gateway reports of a snapshot. `active` holds the requests in flight
/// of every pool that it was shown.
pub struct TrafficReport {
    pub closed: bool,
    pub session_id: String,
    pub sequence: i64,
    pub nonce: String,
    pub active: TextMap<u64>,
}

#[derive(Clone, Debug)]
pub struct ObservationTask {
    pub traffic_protocol: u32,
    pub idle_after: Option<Timestamp>,
    pub pool_id: String,
    pub generation: i64,
    pub nonce: String,
    pub desired_version: i64,
    pub deployment: String,
    pub serving_service: String,
    pub expected_uid: Option<String>,
    pub expected_spec: DeploymentSpec,
}

#[derive(Clone, Debug)]
pub struct ScaleEvidence {
    pub uid: String,
    pub resource_version: String,
    pub replicas: i32,
    pub applied_replicas: i32,
}

#[derive(Clone, Debug)]
pub struct PoolObservation {
    pub idle_after: Option<Timestamp>,
    pub applied_replicas: i32,
    pub scaling: Option<ScaleEvidence>,
    pub idle: bool,
    pub pool_id: String,
    pub generation: i64,
    pub nonce: String,
    pub deployment_uid: Option<String>,
    pub ready: bool,
    /// One of ok, not_ready, spec_drift, identity_mismatch and
    /// kubernetes_unavailable.
    pub code: String,
}

#[derive(Clone, Debug, PartialEq, Eq)]
pub struct GatewayIdentity {
    pub cluster_id: String,
    pub namespace: String,
    pub pod: String,
    pub pod_uid: String,
}

#[derive(Clone, Debug, PartialEq, Eq)]
pub struct GatewayRuntime {
    pub container_id: String,
    pub node: String,
    pub node_uid: String,
}

impl GatewayIdentity {
    pub open spec fn equals(self, other: GatewayIdentity) -> bool {
        &&& self.cluster_id@ == other.cluster_id@
        &&& self.namespace@ == other.namespace@
        &&& self.pod@ == other.pod@
        &&& self.pod_uid@ == other.pod_uid@
    }

    pub(crate) fn same(&self, other: &GatewayIdentity) -> (r: bool)
        ensures
            r == self.equals(*other),
    {
        same(self.cluster_id.as_str(), other.cluster_id.as_str()) && same(
            self.namespace.as_str(),
            other.namespace.as_str(),
        ) && same(self.pod.as_str(), other.pod.as_str()) && same(
            self.pod_uid.as_str(),
            other.pod_uid.as_str(),
        )
    }

    pub(crate) fn copy(&self) -> (r: Self)
        ensures
            r == *self,
    {
        GatewayIdentity {
            cluster_id: self.cluster_id.clone(),
            namespace: self.namespace.clone(),
            pod: self.pod.clone(),
            pod_uid: self.pod_uid.clone(),
        }
    }
}

impl GatewayRuntime {
    pub open spec fn equals(self, other: GatewayRuntime) -> bool {
        &&& self.container_id@ == other.container_id@
        &&& self.node@ == other.node@
        &&& self.node_uid@ == other.node_uid@
    }

    pub(crate) fn same(&self, other: &GatewayRuntime) -> (r: bool)
        ensures
            r == self.equals(*other),
    {
        same(self.container_id.as_str(), other.container_id.as_str()) && same(
            self.node.as_str(),
            other.node.as_str(),
        ) && same(self.node_uid.as_str(), other.node_uid.as_str())
    }

    pub(crate) fn copy(&self) -> (r: Self)
        ensures
            r == *self,
    {
        GatewayRuntime {
            container_id: self.container_id.clone(),
            node: self.node.clone(),
            node_uid: self.node_uid.clone(),
        }
    }
}

#[derive(Clone, Debug)]
pub struct GatewayProofTask {
    pub release_finalizer: bool,
    pub session_id: String,
    pub nonce: String,
    pub identity: GatewayIdentity,
    pub runtime: Option<GatewayRuntime>,
    pub closed: bool,
}

#[derive(Clone, Debug)]
pub struct GatewayProof {
    pub session_id: String,
    pub nonce: String,
    pub outcome: String,
    pub runtime: Option<GatewayRuntime>,
}

/// Two gateways are the same exactly if they run in the same pod of the same cluster, and two
/// containers are the same exactly if they are one container on one node.
pub proof fn law_identities_are_compared_in_whole(
    a: GatewayIdentity,
    b: GatewayIdentity,
    x: GatewayRuntime,
    y: GatewayRuntime,
)
    ensures
        a.equals(b) <==> a.cluster_id@ == b.cluster_id@ && a.namespace@ == b.namespace@ && a.pod@
            == b.pod@ && a.pod_uid@ == b.pod_uid@,
        x.equals(y) <==> x.container_id@ == y.container_id@ && x.node@ == y.node@ && x.node_uid@
            == y.node_uid@,
        a.equals(b) <==> b.equals(a),
        x.equals(y) <==> y.equals(x),
{
}

} // verus!
