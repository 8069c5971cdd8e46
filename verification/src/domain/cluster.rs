//! Versioned outbound cluster protocol. An acknowledgement means that
//! Kubernetes accepted the specification, not that a model became ready.
//! Leaving a deployment out never deletes it.
use crate::crypto::fingerprint_text;
use crate::json::{
    array, as_bool, as_i64, as_str, document_bytes, elements, encode, get, inner, insert,
    integer, integer_json, into_object, is_null, is_object, json_of, member, null, object,
    optional_text, same_json, same_value, signed, text, text_or_null, Json, Record,
};
use crate::text::{copy_option, same};
use vstd::prelude::*;

verus! {

/// The specification of a runtime deployment, as it is written.
#[derive(Clone, Debug)]
pub struct DeploymentSpec {
    pub value: serde_json::Value,
}

/// The text that is under a name in a member of an object.
pub open spec fn nested_text(json: Json, outer: Seq<char>, name: Seq<char>) -> Option<Seq<char>> {
    match inner(member(json, outer), name) {
        Some(Json::Text(text)) => Some(text),
        _ => None,
    }
}

/// The integer that is under a name in a member of an object.
pub open spec fn nested_integer(json: Json, outer: Seq<char>, name: Seq<char>) -> Option<i64> {
    match inner(member(json, outer), name) {
        Some(value) => signed(value),
        None => None,
    }
}

pub open spec fn text_option(text: Option<String>) -> Option<Seq<char>> {
    match text {
        Some(text) => Some(text@),
        None => None,
    }
}

/// `replicas`, where it is an integer.
pub open spec fn replicas_in(json: Json) -> Option<i64> {
    match member(json, "replicas"@) {
        Some(value) => signed(value),
        None => None,
    }
}

/// `autoscaling` is there and not null.
pub open spec fn autoscaled_in(json: Json) -> bool {
    member(json, "autoscaling"@) matches Some(value) && !(value is Null)
}

/// `autoscaling.managed` is true.
pub open spec fn managed_in(json: Json) -> bool {
    inner(member(json, "autoscaling"@), "managed"@) == Some(Json::Bool(true))
}

/// An object with a value under a name, in place of what was there.
pub open spec fn with_member(json: Json, name: Seq<char>, value: Json) -> Json {
    match json {
        Json::Object(members) => Json::Object(members.insert(name, value)),
        _ => json,
    }
}

/// A member, or null where there is none.
pub open spec fn member_or_null(json: Json, name: Seq<char>) -> Json {
    match member(json, name) {
        Some(value) => value,
        None => Json::Null,
    }
}

fn find<'a>(value: &'a serde_json::Value, outer: &str, name: &str) -> (r: Option<
    &'a serde_json::Value,
>)
    ensures
        match r {
            Some(found) => inner(member(json_of(*value), outer@), name@) == Some(json_of(*found)),
            None => inner(member(json_of(*value), outer@), name@) is None,
        },
{
    match get(value, outer) {
        Some(object) => get(object, name),
        None => None,
    }
}

fn find_text(value: &serde_json::Value, outer: &str, name: &str) -> (r: Option<String>)
    ensures
        text_option(r) == nested_text(json_of(*value), outer@, name@),
{
    match find(value, outer, name) {
        Some(found) => match as_str(found) {
            Some(text) => Some(text.to_owned()),
            None => None,
        },
        None => None,
    }
}

fn find_integer(value: &serde_json::Value, outer: &str, name: &str) -> (r: Option<i64>)
    ensures
        r == nested_integer(json_of(*value), outer@, name@),
{
    match find(value, outer, name) {
        Some(found) => as_i64(found),
        None => None,
    }
}

impl DeploymentSpec {
    pub open spec fn json(self) -> Json {
        json_of(self.value)
    }

    /// Both are equal, as JSON values are.
    pub open spec fn equals(self, other: DeploymentSpec) -> bool {
        same_json(self.json(), other.json())
    }

    pub(crate) fn same(&self, other: &DeploymentSpec) -> (r: bool)
        ensures
            r == self.equals(*other),
    {
        same_value(&self.value, &other.value)
    }

    /// `other` is this object, but for the replicas that it may have.
    pub open spec fn differs_in_replicas(self, other: DeploymentSpec) -> bool {
        same_json(
            with_member(self.json(), "replicas"@, member_or_null(other.json(), "replicas"@)),
            other.json(),
        )
    }

    pub(crate) fn only_replicas_differ(&self, other: &DeploymentSpec) -> (r: bool)
        ensures
            r == self.differs_in_replicas(*other),
    {
        let replicas = match get(&other.value, "replicas") {
            Some(found) => found.clone(),
            None => null(),
        };
        same_value(&self.replaced(replicas).value, &other.value)
    }

    fn replaced(&self, replicas: serde_json::Value) -> (r: DeploymentSpec)
        ensures
            r.json() == with_member(self.json(), "replicas"@, json_of(replicas)),
    {
        match into_object(self.value.clone()) {
            Some(members) => {
                let mut members = members;
                insert(&mut members, "replicas", replicas);
                DeploymentSpec { value: object(members) }
            },
            None => self.copy(),
        }
    }

    /// `scaled` is this object with another number of replicas.
    pub open spec fn scaled_to(self, count: int, scaled: DeploymentSpec) -> bool {
        scaled.json() == with_member(self.json(), "replicas"@, integer_json(count))
    }

    pub(crate) fn with_replicas(&self, count: i32) -> (r: DeploymentSpec)
        ensures
            self.scaled_to(count as int, r),
    {
        self.replaced(integer(count as i64))
    }

    pub(crate) fn copy(&self) -> (r: Self)
        ensures
            r == *self,
    {
        DeploymentSpec { value: self.value.clone() }
    }

    /// Whether the specification is a JSON object.
    pub fn is_record(&self) -> (r: bool)
        ensures
            r == (self.json() is Object),
    {
        is_object(&self.value)
    }

    /// `replicas`, where it is an integer.
    pub fn replica_count(&self) -> (r: Option<i64>)
        ensures
            r == replicas_in(self.json()),
    {
        match get(&self.value, "replicas") {
            Some(found) => as_i64(found),
            None => None,
        }
    }

    /// Whether `autoscaling` is there and not null.
    pub fn autoscaled(&self) -> (r: bool)
        ensures
            r == autoscaled_in(self.json()),
    {
        match get(&self.value, "autoscaling") {
            Some(found) => !is_null(found),
            None => false,
        }
    }

    /// Whether `autoscaling.managed` is true.
    pub fn managed_scaling(&self) -> (r: bool)
        ensures
            r == managed_in(self.json()),
    {
        match find(&self.value, "autoscaling", "managed") {
            Some(found) => match as_bool(found) {
                Some(b) => b,
                None => false,
            },
            None => false,
        }
    }

    /// `autoscaling.minReplicas`, where it is an integer.
    pub fn min_replicas(&self) -> (r: Option<i64>)
        ensures
            r == nested_integer(self.json(), "autoscaling"@, "minReplicas"@),
    {
        find_integer(&self.value, "autoscaling", "minReplicas")
    }

    /// `autoscaling.maxReplicas`, where it is an integer.
    pub fn max_replicas(&self) -> (r: Option<i64>)
        ensures
            r == nested_integer(self.json(), "autoscaling"@, "maxReplicas"@),
    {
        find_integer(&self.value, "autoscaling", "maxReplicas")
    }

    /// `runtime.protocol`, where it is a text.
    pub fn protocol(&self) -> (r: Option<String>)
        ensures
            text_option(r) == nested_text(self.json(), "runtime"@, "protocol"@),
    {
        find_text(&self.value, "runtime", "protocol")
    }

    /// `serving.endpointPickerService`, where it is a text.
    pub fn picker(&self) -> (r: Option<String>)
        ensures
            text_option(r) == nested_text(self.json(), "serving"@, "endpointPickerService"@),
    {
        find_text(&self.value, "serving", "endpointPickerService")
    }

    /// `model.id`, where it is a text.
    pub fn model_id(&self) -> (r: Option<String>)
        ensures
            text_option(r) == nested_text(self.json(), "model"@, "id"@),
    {
        find_text(&self.value, "model", "id")
    }

    /// `model.revision`, where it is a text.
    pub fn model_revision(&self) -> (r: Option<String>)
        ensures
            text_option(r) == nested_text(self.json(), "model"@, "revision"@),
    {
        find_text(&self.value, "model", "revision")
    }
}

#[derive(Clone, Debug)]
pub struct DesiredDeployment {
    pub name: String,
    /// None is an explicit delete, which needs the last observed Kubernetes
    /// UID.
    pub spec: Option<DeploymentSpec>,
    pub delete_uid: Option<String>,
    /// Managed scaling is bound to the observed object, not just its name.
    pub expected_uid: Option<String>,
}

impl DesiredDeployment {
    pub(crate) fn copy(&self) -> (r: Self)
        ensures
            r == *self,
    {
        DesiredDeployment {
            name: self.name.clone(),
            spec: match &self.spec {
                Some(spec) => Some(spec.copy()),
                None => None,
            },
            delete_uid: copy_option(&self.delete_uid),
            expected_uid: copy_option(&self.expected_uid),
        }
    }
}

/// A deployment as it is written. An identity that is not expected is left out.
pub open spec fn deployment_json(d: DesiredDeployment) -> Json {
    let members = map![
        "name"@ => Json::Text(d.name@),
        "spec"@ => match d.spec {
            Some(spec) => spec.json(),
            None => Json::Null,
        },
        "delete_uid"@ => text_or_null(d.delete_uid),
    ];
    Json::Object(
        match d.expected_uid {
            Some(uid) => members.insert("expected_uid"@, Json::Text(uid@)),
            None => members,
        },
    )
}

pub open spec fn deployments_json(deployments: Seq<DesiredDeployment>) -> Json {
    Json::Array(deployments.map_values(|d: DesiredDeployment| deployment_json(d)))
}

/// The bytes that deployments are written with, if they can be.
pub open spec fn deployments_bytes(deployments: Seq<DesiredDeployment>) -> Option<Seq<u8>> {
    document_bytes(deployments_json(deployments))
}

/// The most bytes that the deployments of a cluster may take.
pub const DESIRED_BYTES: usize = 262_144;

/// The deployments are no more than can be delivered, and this is the digest
/// that they are delivered under.
pub open spec fn delivered_under(deployments: Seq<DesiredDeployment>, sha256: Seq<char>) -> bool {
    deployments_bytes(deployments) matches Some(bytes) && bytes.len() <= DESIRED_BYTES
        && fingerprint_text(bytes) == sha256
}

fn deployment_value(d: &DesiredDeployment) -> (r: serde_json::Value)
    ensures
        json_of(r) == deployment_json(*d),
{
    let spec = match &d.spec {
        Some(spec) => spec.value.clone(),
        None => null(),
    };
    let record = Record::new().with("name", text(d.name.as_str())).with("spec", spec).with(
        "delete_uid",
        optional_text(&d.delete_uid),
    );
    let record = match &d.expected_uid {
        Some(uid) => record.with("expected_uid", text(uid.as_str())),
        None => record,
    };
    record.done()
}

/// Deployments as they are stored and delivered.
pub fn deployments_value(deployments: &Vec<DesiredDeployment>) -> (r: serde_json::Value)
    ensures
        json_of(r) == deployments_json(deployments@),
{
    let mut values: Vec<serde_json::Value> = Vec::new();
    let mut i: usize = 0;
    while i < deployments.len()
        invariant
            i <= deployments@.len(),
            values@.len() == i,
            forall|j: int|
                0 <= j < i ==> json_of(#[trigger] values@[j]) == deployment_json(deployments@[j]),
        decreases deployments@.len() - i,
    {
        values.push(deployment_value(&deployments[i]));
        i += 1;
    }
    assert(elements(values@) =~= deployments@.map_values(
        |d: DesiredDeployment| deployment_json(d),
    ));
    array(values)
}

/// The canonical bytes of deployments, of which their digest is taken.
pub fn canonical(deployments: &Vec<DesiredDeployment>) -> (r: Option<Vec<u8>>)
    ensures
        match r {
            Some(bytes) => deployments_bytes(deployments@) == Some(bytes@),
            None => deployments_bytes(deployments@) is None,
        },
{
    encode(&deployments_value(deployments))
}

/// The first deployment of a name, or the number of deployments where there is
/// none.
pub open spec fn deployment_index(deployments: Seq<DesiredDeployment>, name: Seq<char>) -> int
    decreases deployments.len(),
{
    if deployments.len() == 0 {
        0
    } else if deployments[0].name@ == name {
        0
    } else {
        1 + deployment_index(deployments.skip(1), name)
    }
}

/// What tells the first deployment of a name.
pub proof fn lemma_deployment_index(deployments: Seq<DesiredDeployment>, name: Seq<char>, i: int)
    requires
        0 <= i <= deployments.len(),
        forall|j: int| 0 <= j < i ==> #[trigger] deployments[j].name@ != name,
        i < deployments.len() ==> deployments[i].name@ == name,
    ensures
        deployment_index(deployments, name) == i,
    decreases deployments.len(),
{
    if i > 0 {
        let rest = deployments.skip(1);
        assert forall|j: int| 0 <= j < i - 1 implies #[trigger] rest[j].name@ != name by {
            assert(rest[j] == deployments[j + 1]);
        }
        assert(i < deployments.len() ==> rest[i - 1] == deployments[i]);
        lemma_deployment_index(rest, name, i - 1);
    }
}

pub(crate) fn find_deployment(deployments: &Vec<DesiredDeployment>, name: &str) -> (r: usize)
    ensures
        r == deployment_index(deployments@, name@),
        r <= deployments@.len(),
        r < deployments@.len() ==> deployments@[r as int].name@ == name@,
{
    let mut i: usize = 0;
    while i < deployments.len()
        invariant
            i <= deployments.len(),
            forall|j: int| 0 <= j < i ==> #[trigger] deployments@[j].name@ != name@,
        decreases deployments.len() - i,
    {
        if same(deployments[i].name.as_str(), name) {
            proof {
                lemma_deployment_index(deployments@, name@, i as int);
            }
            return i;
        }
        i += 1;
    }
    proof {
        lemma_deployment_index(deployments@, name@, i as int);
    }
    i
}

#[derive(Clone, Debug)]
pub struct DesiredState {
    pub expected_version: i64,
    pub deployments: Vec<DesiredDeployment>,
}

#[derive(Clone, Debug)]
pub struct ClusterDelivery {
    pub cluster_id: String,
    pub namespace: String,
    pub version: i64,
    pub sha256: String,
    pub lease: String,
    pub lease_seconds: u32,
    pub deployments: Vec<DesiredDeployment>,
}

#[derive(Clone, Debug)]
pub struct ClusterReport {
    pub version: i64,
    pub sha256: String,
    pub lease: String,
    /// `applied` or `rejected`. Error codes are bounded, never response text.
    pub outcome: String,
    pub error_code: Option<String>,
}

/// A specification that was scaled asks for that many replicas, and for nothing else than
/// before.
pub proof fn law_scaling_changes_the_replicas_alone(
    spec: DeploymentSpec,
    count: int,
    scaled: DeploymentSpec,
    name: Seq<char>,
)
    requires
        spec.json() is Object,
        i64::MIN <= count <= i64::MAX,
        spec.scaled_to(count, scaled),
    ensures
        replicas_in(scaled.json()) == Some(count as i64),
        name != "replicas"@ ==> member(scaled.json(), name) == member(spec.json(), name),
        managed_in(scaled.json()) == managed_in(spec.json()),
{
    reveal_strlit("replicas");
    reveal_strlit("autoscaling");
    assert("replicas"@.len() != "autoscaling"@.len());
}

/// A deployment is found by its name: the first of that name, or behind the end if there is
/// none.
pub proof fn law_deployments_are_found_by_name(deployments: Seq<DesiredDeployment>, name: Seq<char>)
    ensures
        ({
            let i = deployment_index(deployments, name);
            &&& 0 <= i <= deployments.len()
            &&& i < deployments.len() ==> deployments[i].name@ == name
            &&& forall|j: int| 0 <= j < i ==> (#[trigger] deployments[j]).name@ != name
        }),
    decreases deployments.len(),
{
    if deployments.len() > 0 && deployments[0].name@ != name {
        let rest = deployments.skip(1);
        law_deployments_are_found_by_name(rest, name);
        let i = deployment_index(deployments, name);
        assert forall|j: int| 0 <= j < i implies (#[trigger] deployments[j]).name@ != name by {
            if j > 0 {
                assert(rest[j - 1] == deployments[j]);
            }
        }
    }
}

} // verus!
