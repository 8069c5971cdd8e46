//! Member clusters: their credentials, what is desired of them, and what they
//! report back. Nothing of a cluster is deleted because it went away.
use crate::control::error::{conflict, invalid, refused, Fault, ServiceError, ServiceResult};
use crate::control::managed_pools::{
    guard_after, guard_desired, guard_fault, guard_rows_of, Guarded, PoolRow, PoolState,
};
use crate::crypto::{
    base64_url_text, encode_base64_url, entropy_32, fingerprint, fingerprint_text, fresh_uuid,
    same_bytes, uuid_text,
};
use crate::domain::cluster::{
    canonical, delivered_under, deployments_bytes, ClusterDelivery, ClusterReport,
    DesiredDeployment, DesiredState, DESIRED_BYTES,
};
use crate::domain::{clock_in_range, Timestamp};
use crate::json::{
    boolean, integer, integer_json, json_of, optional_text, text, text_or_null, Json, Record,
};
use crate::text::{byte_len, bytes_of, copy_option, join, same};
use vstd::prelude::*;

verus! {

/// A member cluster as it is locked for a transaction.
#[derive(Clone, Debug)]
pub struct ClusterRow {
    pub id: String,
    pub namespace: String,
    pub credential_hash: String,
    pub credential_epoch: i64,
    pub expires_at: Timestamp,
    pub revoked_at: Option<Timestamp>,
    pub desired_version: i64,
    pub acknowledged_version: i64,
    pub delivery_version: i64,
    pub delivery_lease: Option<String>,
    pub lease_until: Option<Timestamp>,
    pub heartbeat_at: Option<Timestamp>,
    pub last_error: Option<String>,
    pub created_at: Timestamp,
    pub updated_at: Timestamp,
}

impl ClusterRow {
    /// The credential is neither revoked nor expired.
    pub open spec fn trusted(self, now: Timestamp) -> bool {
        self.revoked_at is None && self.expires_at > now
    }

    pub(crate) fn is_trusted(&self, now: Timestamp) -> (r: bool)
        ensures
            r == self.trusted(now),
    {
        self.revoked_at.is_none() && self.expires_at > now
    }

    /// Whether the cluster was heard of in the last 90 seconds.
    pub fn online(&self, now: Timestamp) -> (r: bool)
        requires
            clock_in_range(now),
        ensures
            r == (self.heartbeat_at matches Some(time) && now - time < 90_000_000),
    {
        match self.heartbeat_at {
            Some(time) => time > now - 90_000_000,
            None => false,
        }
    }
}

/// What an operation leaves in the audit trail.
#[derive(Clone, Debug)]
pub enum AuditPayload {
    CredentialEpoch(i64),
    ResourcesKept,
    DesiredUpdated { version: i64, sha256: String },
    Reported { version: i64, sha256: String, error_code: Option<String> },
    PoolMoved { generation: i64, state: PoolState },
    PoolRegistered { generation: i64 },
    UsageNotInferred,
    HoldsUnchanged,
    Reason(String),
    Replicas(i32),
    DemandRecovered,
    ScaleDraining { from: i32, target: i32, recommendation_uid: String },
    ScaleApplied { replicas: i32, desired_version: i64, drain_required: bool },
    Intended { method: String },
    Completed { intent_id: String, status: u16 },
    JobRetried { consumer: String, reason: String },
}

impl AuditPayload {
    /// What a reader of the audit trail sees.
    pub open spec fn shown(self) -> Json {
        Json::Object(
            match self {
                AuditPayload::CredentialEpoch(epoch) => map![
                    "credential_epoch"@ => integer_json(epoch as int),
                ],
                AuditPayload::ResourcesKept => map!["resources_deleted"@ => Json::Bool(false)],
                AuditPayload::DesiredUpdated { version, sha256 } => map![
                    "version"@ => integer_json(version as int),
                    "sha256"@ => Json::Text(sha256@),
                ],
                AuditPayload::Reported { version, sha256, error_code } => map![
                    "version"@ => integer_json(version as int),
                    "sha256"@ => Json::Text(sha256@),
                    "error_code"@ => text_or_null(error_code),
                ],
                AuditPayload::PoolMoved { generation, state } => map![
                    "generation"@ => integer_json(generation as int),
                    "state"@ => Json::Text(state.text()),
                ],
                AuditPayload::PoolRegistered { generation } => map![
                    "generation"@ => integer_json(generation as int),
                ],
                AuditPayload::UsageNotInferred => map![
                    "provider_usage_not_inferred"@ => Json::Bool(true),
                ],
                AuditPayload::HoldsUnchanged => map![
                    "financial_holds_unchanged"@ => Json::Bool(true),
                ],
                AuditPayload::Reason(reason) => map!["reason"@ => Json::Text(reason@)],
                AuditPayload::Replicas(replicas) => map![
                    "replicas"@ => integer_json(replicas as int),
                ],
                AuditPayload::DemandRecovered => map![
                    "reason"@ => Json::Text("demand_recovered"@),
                ],
                AuditPayload::ScaleDraining { from, target, recommendation_uid } => map![
                    "from"@ => integer_json(from as int),
                    "target"@ => integer_json(target as int),
                    "recommendation_uid"@ => Json::Text(recommendation_uid@),
                ],
                AuditPayload::ScaleApplied { replicas, desired_version, drain_required } => map![
                    "replicas"@ => integer_json(replicas as int),
                    "desired_version"@ => integer_json(desired_version as int),
                    "drain_required"@ => Json::Bool(drain_required),
                ],
                AuditPayload::Intended { method } => map!["method"@ => Json::Text(method@)],
                AuditPayload::Completed { intent_id, status } => map![
                    "intent_id"@ => Json::Text(intent_id@),
                    "status"@ => integer_json(status as int),
                ],
                AuditPayload::JobRetried { consumer, reason } => map![
                    "consumer"@ => Json::Text(consumer@),
                    "reason"@ => Json::Text(reason@),
                ],
            },
        )
    }

    /// Writes what a reader of the audit trail sees.
    pub fn to_json(&self) -> (r: serde_json::Value)
        ensures
            json_of(r) == self.shown(),
    {
        let record = Record::new();
        let record = match self {
            AuditPayload::CredentialEpoch(epoch) => record.with(
                "credential_epoch",
                integer(*epoch),
            ),
            AuditPayload::ResourcesKept => record.with("resources_deleted", boolean(false)),
            AuditPayload::DesiredUpdated { version, sha256 } => record.with(
                "version",
                integer(*version),
            ).with("sha256", text(sha256.as_str())),
            AuditPayload::Reported { version, sha256, error_code } => record.with(
                "version",
                integer(*version),
            ).with("sha256", text(sha256.as_str())).with("error_code", optional_text(error_code)),
            AuditPayload::PoolMoved { generation, state } => record.with(
                "generation",
                integer(*generation),
            ).with("state", text(state.name())),
            AuditPayload::PoolRegistered { generation } => record.with(
                "generation",
                integer(*generation),
            ),
            AuditPayload::UsageNotInferred => record.with(
                "provider_usage_not_inferred",
                boolean(true),
            ),
            AuditPayload::HoldsUnchanged => record.with("financial_holds_unchanged", boolean(true)),
            AuditPayload::Reason(reason) => record.with("reason", text(reason.as_str())),
            AuditPayload::Replicas(replicas) => record.with("replicas", integer(*replicas as i64)),
            AuditPayload::DemandRecovered => record.with("reason", text("demand_recovered")),
            AuditPayload::ScaleDraining { from, target, recommendation_uid } => record.with(
                "from",
                integer(*from as i64),
            ).with("target", integer(*target as i64)).with(
                "recommendation_uid",
                text(recommendation_uid.as_str()),
            ),
            AuditPayload::ScaleApplied { replicas, desired_version, drain_required } => record.with(
                "replicas",
                integer(*replicas as i64),
            ).with("desired_version", integer(*desired_version)).with(
                "drain_required",
                boolean(*drain_required),
            ),
            AuditPayload::Intended { method } => record.with("method", text(method.as_str())),
            AuditPayload::Completed { intent_id, status } => record.with(
                "intent_id",
                text(intent_id.as_str()),
            ).with("status", integer(*status as i64)),
            AuditPayload::JobRetried { consumer, reason } => record.with(
                "consumer",
                text(consumer.as_str()),
            ).with("reason", text(reason.as_str())),
        };
        record.done()
    }
}

/// A line of the audit trail, before it has its time and identity.
#[derive(Clone, Debug)]
pub struct AuditDraft {
    pub actor_id: String,
    pub action: String,
    pub resource_id: String,
    pub payload: AuditPayload,
}

pub open spec fn audited(
    a: AuditDraft,
    actor: Seq<char>,
    action: Seq<char>,
    id: Seq<char>,
    payload: AuditPayload,
) -> bool {
    a.actor_id@ == actor && a.action@ == action && a.resource_id@ == id && a.payload == payload
}

pub(crate) fn audit(actor: &str, action: &str, id: &str, payload: AuditPayload) -> (r: AuditDraft)
    ensures
        audited(r, actor@, action@, id@, payload),
{
    AuditDraft {
        actor_id: actor.to_owned(),
        action: action.to_owned(),
        resource_id: id.to_owned(),
        payload,
    }
}

pub open spec fn name_byte(b: u8) -> bool {
    0x61 <= b <= 0x7a || 0x30 <= b <= 0x39 || b == 0x2d
}

/// A DNS label: 1 to 63 lowercase letters, digits and hyphens, without a
/// hyphen at either end.
pub open spec fn label_text(s: Seq<char>) -> bool {
    let bytes = bytes_of(s);
    &&& 1 <= bytes.len() <= 63
    &&& bytes[0] != 0x2d
    &&& bytes[bytes.len() - 1] != 0x2d
    &&& forall|i: int| 0 <= i < bytes.len() ==> name_byte(#[trigger] bytes[i])
}

/// Whether a text can name a cluster, a namespace or a deployment.
pub fn name(value: &str) -> (r: bool)
    ensures
        r == label_text(value@),
{
    let bytes = value.as_bytes();
    if bytes.len() < 1 || bytes.len() > 63 || bytes[0] == 0x2d || bytes[bytes.len() - 1] == 0x2d {
        return false;
    }
    let mut i: usize = 0;
    while i < bytes.len()
        invariant
            i <= bytes.len(),
            bytes@ == bytes_of(value@),
            forall|j: int| 0 <= j < i ==> name_byte(#[trigger] bytes@[j]),
        decreases bytes.len() - i,
    {
        let b = bytes[i];
        if !((0x61 <= b && b <= 0x7a) || (0x30 <= b && b <= 0x39) || b == 0x2d) {
            assert(!name_byte(bytes_of(value@)[i as int]));
            return false;
        }
        i += 1;
    }
    true
}

#[derive(Clone, Debug)]
pub struct RegisterCluster {
    pub id: String,
    pub namespace: String,
    pub credential_days: i64,
}

#[derive(Clone, Copy, Debug)]
pub struct RotateCredential {
    pub expected_epoch: i64,
    pub credential_days: i64,
}

/// A credential: the token is shown once, its fingerprint is kept.
#[derive(Clone, Debug)]
pub struct Credential {
    pub digest: String,
    pub token: String,
}

impl Credential {
    pub open spec fn sound(self) -> bool {
        self.digest@ == fingerprint_text(bytes_of(self.token@))
    }
}

/// The credential that 32 bytes of entropy make.
pub fn credential_of(random: &[u8; 32]) -> (r: Credential)
    ensures
        r.token@ == base64_url_text(random@),
        r.token@.len() == 43,
        r.sound(),
{
    let token = encode_base64_url(random);
    Credential { digest: fingerprint(token.as_str().as_bytes()), token }
}

pub open spec fn credential_fault(days: int) -> Option<Fault> {
    if 1 <= days <= 90 {
        None
    } else {
        Some(Fault::Invalid("cluster credentials expire in 1..90 days"@))
    }
}

/// A new credential. Which one it is rests on the entropy of the system; for
/// a lifetime in range, that there may be none is the only failure.
pub fn credential(days: i64) -> (r: ServiceResult<Credential>)
    ensures
        match r {
            Ok(c) => credential_fault(days as int) is None && c.sound() && c.token@.len() == 43,
            Err(e) => if credential_fault(days as int) is Some {
                credential_fault(days as int) == Some(e@)
            } else {
                e@ == Fault::Invalid("credential entropy unavailable"@)
            },
        },
{
    if days < 1 || days > 90 {
        return Err(invalid("cluster credentials expire in 1..90 days"));
    }
    match entropy_32() {
        Some(random) => Ok(credential_of(&random)),
        None => Err(invalid("credential entropy unavailable")),
    }
}

pub open spec fn authentication_fault(
    row: Option<ClusterRow>,
    token: Seq<char>,
    now: Timestamp,
) -> Option<Fault> {
    match row {
        Some(row) if row.trusted(now) && bytes_of(row.credential_hash@) == bytes_of(
            fingerprint_text(bytes_of(token)),
        ) => None,
        _ => Some(Fault::Unauthorized),
    }
}

/// Authenticates a cluster by its token. Whatever is wrong, the answer is the
/// same.
pub fn authenticated(row: Option<ClusterRow>, token: &str, now: Timestamp) -> (r: ServiceResult<
    ClusterRow,
>)
    ensures
        refused(r, authentication_fault(row, token@, now)),
        r matches Ok(c) ==> row == Some(c),
{
    match row {
        Some(row) => {
            if row.is_trusted(now) && same_bytes(
                row.credential_hash.as_str().as_bytes(),
                fingerprint(token.as_bytes()).as_str().as_bytes(),
            ) {
                Ok(row)
            } else {
                Err(ServiceError::Unauthorized)
            }
        },
        None => Err(ServiceError::Unauthorized),
    }
}

pub open spec fn days_later(now: Timestamp, days: int) -> int {
    now + days * 86_400_000_000
}

pub open spec fn register_fault(
    q: RegisterCluster,
    credential: ServiceResult<Credential>,
    exists: bool,
) -> Option<Fault> {
    if !label_text(q.id@) || !label_text(q.namespace@) {
        Some(Fault::Invalid("invalid cluster identity or namespace"@))
    } else if credential is Err {
        Some(credential->Err_0@)
    } else if exists {
        Some(Fault::Conflict("cluster identity already exists"@))
    } else {
        None
    }
}

/// Registers a cluster under a new credential, which comes from `credential`.
pub fn register_cluster(
    request: RegisterCluster,
    credential: ServiceResult<Credential>,
    exists: bool,
    actor: &str,
    now: Timestamp,
) -> (r: ServiceResult<(ClusterRow, AuditDraft)>)
    requires
        clock_in_range(now),
        credential is Ok ==> credential_fault(request.credential_days as int) is None,
    ensures
        refused(r, register_fault(request, credential, exists)),
        r matches Ok(made) ==> {
            let c = made.0;
            &&& c.id == request.id
            &&& c.namespace == request.namespace
            &&& c.credential_hash == credential->Ok_0.digest
            &&& c.credential_epoch == 1
            &&& c.expires_at == days_later(now, request.credential_days as int)
            &&& c.revoked_at is None
            &&& c.desired_version == 0
            &&& c.acknowledged_version == 0
            &&& c.delivery_version == 0
            &&& c.delivery_lease is None
            &&& c.lease_until is None
            &&& c.heartbeat_at is None
            &&& c.last_error is None
            &&& c.created_at == now
            &&& c.updated_at == now
            &&& audited(
                made.1,
                actor@,
                "cluster.register"@,
                request.id@,
                AuditPayload::CredentialEpoch(1),
            )
        },
{
    if !name(request.id.as_str()) || !name(request.namespace.as_str()) {
        return Err(invalid("invalid cluster identity or namespace"));
    }
    let credential = match credential {
        Ok(credential) => credential,
        Err(e) => return Err(e),
    };
    if exists {
        return Err(conflict("cluster identity already exists"));
    }
    let trail = audit(
        actor,
        "cluster.register",
        request.id.as_str(),
        AuditPayload::CredentialEpoch(1),
    );
    let row = ClusterRow {
        id: request.id,
        namespace: request.namespace,
        credential_hash: credential.digest,
        credential_epoch: 1,
        expires_at: now + request.credential_days * 86_400_000_000,
        revoked_at: None,
        desired_version: 0,
        acknowledged_version: 0,
        delivery_version: 0,
        delivery_lease: None,
        lease_until: None,
        heartbeat_at: None,
        last_error: None,
        created_at: now,
        updated_at: now,
    };
    Ok((row, trail))
}

pub open spec fn rotate_fault(
    row: Option<ClusterRow>,
    q: RotateCredential,
    credential: ServiceResult<Credential>,
) -> Option<Fault> {
    if credential is Err {
        Some(credential->Err_0@)
    } else if row is None {
        Some(Fault::NotFound)
    } else if row->0.credential_epoch != q.expected_epoch {
        Some(Fault::Conflict("cluster credential version changed"@))
    } else if row->0.credential_epoch == i64::MAX {
        Some(Fault::Invalid("credential epoch exhausted"@))
    } else {
        None
    }
}

/// Replaces the credential of a cluster. A delivery that is out is void, and a
/// revoked cluster is let in again.
pub fn rotate_cluster_credential(
    row: Option<ClusterRow>,
    request: RotateCredential,
    credential: ServiceResult<Credential>,
    actor: &str,
    now: Timestamp,
) -> (r: ServiceResult<(ClusterRow, AuditDraft)>)
    requires
        clock_in_range(now),
        credential is Ok ==> credential_fault(request.credential_days as int) is None,
    ensures
        refused(r, rotate_fault(row, request, credential)),
        r matches Ok(made) ==> made.0 == (ClusterRow {
            credential_hash: credential->Ok_0.digest,
            credential_epoch: (row->0.credential_epoch + 1) as i64,
            expires_at: days_later(now, request.credential_days as int) as i64,
            revoked_at: None,
            delivery_lease: None,
            lease_until: None,
            updated_at: now,
            ..row->0
        }) && audited(
            made.1,
            actor@,
            "cluster.credential_rotated"@,
            row->0.id@,
            AuditPayload::CredentialEpoch((row->0.credential_epoch + 1) as i64),
        ),
{
    let credential = match credential {
        Ok(credential) => credential,
        Err(e) => return Err(e),
    };
    let row = match row {
        Some(row) => row,
        None => return Err(ServiceError::NotFound),
    };
    if row.credential_epoch != request.expected_epoch {
        return Err(conflict("cluster credential version changed"));
    }
    let epoch = match row.credential_epoch.checked_add(1) {
        Some(epoch) => epoch,
        None => return Err(invalid("credential epoch exhausted")),
    };
    let trail = audit(
        actor,
        "cluster.credential_rotated",
        row.id.as_str(),
        AuditPayload::CredentialEpoch(epoch),
    );
    let row = ClusterRow {
        credential_hash: credential.digest,
        credential_epoch: epoch,
        expires_at: now + request.credential_days * 86_400_000_000,
        revoked_at: None,
        delivery_lease: None,
        lease_until: None,
        updated_at: now,
        ..row
    };
    Ok((row, trail))
}

/// Revokes a cluster. Nothing is written where it was revoked before, and
/// nothing that runs in it is deleted.
pub fn revoke_cluster(row: Option<ClusterRow>, actor: &str, now: Timestamp) -> (r: ServiceResult<
    Option<(ClusterRow, AuditDraft)>,
>)
    ensures
        refused(
            r,
            if row is None {
                Some(Fault::NotFound)
            } else {
                None
            },
        ),
        r matches Ok(made) ==> (made is Some <==> row->0.revoked_at is None),
        r matches Ok(Some(made)) ==> made.0 == (ClusterRow {
            revoked_at: Some(now),
            delivery_lease: None,
            lease_until: None,
            ..row->0
        }) && audited(
            made.1,
            actor@,
            "cluster.revoked"@,
            row->0.id@,
            AuditPayload::ResourcesKept,
        ),
{
    let row = match row {
        Some(row) => row,
        None => return Err(ServiceError::NotFound),
    };
    if row.revoked_at.is_some() {
        return Ok(None);
    }
    let trail = audit(actor, "cluster.revoked", row.id.as_str(), AuditPayload::ResourcesKept);
    let row = ClusterRow { revoked_at: Some(now), delivery_lease: None, lease_until: None, ..row };
    Ok(Some((row, trail)))
}

/// A Kubernetes UID: 1 to 128 bytes.
pub open spec fn uid_text(uid: Seq<char>) -> bool {
    1 <= bytes_of(uid).len() <= 128
}

pub(crate) fn is_uid(uid: &str) -> (r: bool)
    ensures
        r == uid_text(uid@),
{
    byte_len(uid) >= 1 && byte_len(uid) <= 128
}

/// A deployment either has a specification, an object, or is deleted under the UID that
/// was last observed.
pub open spec fn deployment_sound(d: DesiredDeployment) -> bool {
    &&& label_text(d.name@)
    &&& d.expected_uid matches Some(uid) ==> uid_text(uid@)
    &&& match d.spec {
        Some(spec) => spec.json() is Object && d.delete_uid is None,
        None => d.expected_uid is None && (d.delete_uid matches Some(uid) && uid_text(uid@)),
    }
}

pub open spec fn named_before(deployments: Seq<DesiredDeployment>, n: int, name: Seq<char>) -> bool {
    exists|j: int| 0 <= j < n && #[trigger] deployments[j].name@ == name
}

pub open spec fn deployments_sound(deployments: Seq<DesiredDeployment>, n: int) -> bool {
    forall|i: int|
        0 <= i < n ==> deployment_sound(#[trigger] deployments[i]) && !named_before(
            deployments,
            i,
            deployments[i].name@,
        )
}

/// Why the deployments of a desired state cannot be stored.
pub open spec fn payload_fault(deployments: Seq<DesiredDeployment>) -> Option<Fault> {
    match deployments_bytes(deployments) {
        None => Some(Fault::Invalid("invalid desired state"@)),
        Some(bytes) => if bytes.len() > DESIRED_BYTES {
            Some(Fault::Invalid("desired state exceeds 256 KiB"@))
        } else {
            None
        },
    }
}

fn payload(deployments: &Vec<DesiredDeployment>) -> (r: ServiceResult<Vec<u8>>)
    ensures
        refused(r, payload_fault(deployments@)),
        r matches Ok(bytes) ==> deployments_bytes(deployments@) == Some(bytes@),
{
    match canonical(deployments) {
        None => Err(invalid("invalid desired state")),
        Some(bytes) => if bytes.len() > DESIRED_BYTES {
            Err(invalid("desired state exceeds 256 KiB"))
        } else {
            Ok(bytes)
        },
    }
}

pub open spec fn desired_fault(q: DesiredState) -> Option<Fault> {
    if q.expected_version < 0 || q.deployments@.len() > 100 {
        Some(Fault::Invalid("invalid desired-state version or size"@))
    } else if !deployments_sound(q.deployments@, q.deployments@.len() as int) {
        Some(
            Fault::Invalid(
                "desired deployments require unique names, specs, or explicit UID-bound deletion"@,
            ),
        )
    } else {
        payload_fault(q.deployments@)
    }
}

fn is_named_before(deployments: &Vec<DesiredDeployment>, n: usize, name: &str) -> (r: bool)
    requires
        n <= deployments@.len(),
    ensures
        r == named_before(deployments@, n as int, name@),
{
    let mut j: usize = 0;
    while j < n
        invariant
            j <= n <= deployments@.len(),
            forall|k: int| 0 <= k < j ==> #[trigger] deployments@[k].name@ != name@,
        decreases n - j,
    {
        if same(deployments[j].name.as_str(), name) {
            return true;
        }
        j += 1;
    }
    false
}

/// Validates a desired state before any lock is taken.
pub fn validate_desired(request: &DesiredState) -> (r: ServiceResult<()>)
    ensures
        refused(r, desired_fault(*request)),
{
    let deployments = &request.deployments;
    if request.expected_version < 0 || deployments.len() > 100 {
        return Err(invalid("invalid desired-state version or size"));
    }
    let mut i: usize = 0;
    while i < deployments.len()
        invariant
            i <= deployments@.len() <= 100,
            deployments@ == request.deployments@,
            request.expected_version >= 0,
            deployments_sound(deployments@, i as int),
        decreases deployments.len() - i,
    {
        let item = &deployments[i];
        let expected_sound = match &item.expected_uid {
            Some(uid) => is_uid(uid.as_str()),
            None => true,
        };
        let shape_sound = match &item.spec {
            Some(spec) => spec.is_record() && item.delete_uid.is_none(),
            None => item.expected_uid.is_none() && match &item.delete_uid {
                Some(uid) => is_uid(uid.as_str()),
                None => false,
            },
        };
        if !name(item.name.as_str()) || is_named_before(deployments, i, item.name.as_str())
            || !expected_sound || !shape_sound {
            assert(!deployments_sound(request.deployments@, request.deployments@.len() as int)) by {
                let d = request.deployments@[i as int];
                assert(!deployment_sound(d) || named_before(request.deployments@, i as int, d.name@));
            }
            return Err(
                invalid(
                    "desired deployments require unique names, specs, or explicit UID-bound deletion",
                ),
            );
        }
        i += 1;
    }
    match payload(deployments) {
        Ok(_) => Ok(()),
        Err(e) => Err(e),
    }
}

/// What is desired next, before it is written.
pub struct DesiredPlan {
    pub version: i64,
    pub deployments: Vec<DesiredDeployment>,
    /// One for each managed pool of the cluster, in their order.
    pub pools: Vec<Guarded>,
}

pub open spec fn plan_fault(
    row: Option<ClusterRow>,
    q: DesiredState,
    pools: Seq<PoolRow>,
) -> Option<Fault> {
    if row is None {
        Some(Fault::NotFound)
    } else if row->0.revoked_at is Some {
        Some(Fault::Conflict("cluster is revoked"@))
    } else if row->0.desired_version != q.expected_version {
        Some(Fault::Conflict("desired state version changed; reload"@))
    } else if row->0.desired_version == i64::MAX {
        Some(Fault::Invalid("desired version exhausted"@))
    } else {
        guard_fault(pools, q.deployments@)
    }
}

/// Decides whether a validated desired state may replace the one before, under
/// the locks of the cluster and its pools.
pub fn plan_desired(
    row: &Option<ClusterRow>,
    request: DesiredState,
    pools: Vec<PoolRow>,
    now: Timestamp,
) -> (r: ServiceResult<DesiredPlan>)
    ensures
        refused(r, plan_fault(*row, request, pools@)),
        r matches Ok(plan) ==> {
            &&& plan.version == row->0.desired_version + 1
            &&& plan.deployments@ == guard_after(
                pools@,
                request.deployments@,
                pools@.len() as int,
            )
            &&& guard_rows_of(pools@, request.deployments@, plan.version, now, plan.pools@)
        },
{
    let row = match row {
        Some(row) => row,
        None => return Err(ServiceError::NotFound),
    };
    if row.revoked_at.is_some() {
        return Err(conflict("cluster is revoked"));
    }
    if row.desired_version != request.expected_version {
        return Err(conflict("desired state version changed; reload"));
    }
    let version = match row.desired_version.checked_add(1) {
        Some(version) => version,
        None => return Err(invalid("desired version exhausted")),
    };
    let mut deployments = request.deployments;
    let pools = guard_desired(pools, version, &mut deployments, now)?;
    Ok(DesiredPlan { version, deployments, pools })
}

/// A revision of what is desired of a cluster. Its payload is stored beside
/// it.
#[derive(Clone, Debug)]
pub struct RevisionRow {
    pub cluster_id: String,
    pub version: i64,
    pub sha256: String,
    pub created_by: String,
    pub created_at: Timestamp,
}

/// What a new desired state writes, beside the pools of its plan.
pub struct DesiredWritten {
    pub revision: RevisionRow,
    pub cluster: ClusterRow,
    pub audit: AuditDraft,
}

/// Writes the deployments of a planned desired state. A delivery that is out
/// finishes or expires before a newer one.
pub fn put_cluster_desired(
    row: ClusterRow,
    version: i64,
    deployments: &Vec<DesiredDeployment>,
    actor: &str,
    now: Timestamp,
) -> (r: ServiceResult<DesiredWritten>)
    ensures
        refused(r, payload_fault(deployments@)),
        r matches Ok(w) ==> {
            &&& w.revision.cluster_id == row.id
            &&& w.revision.version == version
            &&& delivered_under(deployments@, w.revision.sha256@)
            &&& w.revision.created_by@ == actor@
            &&& w.revision.created_at == now
            &&& w.cluster == (ClusterRow { desired_version: version, updated_at: now, ..row })
            &&& audited(
                w.audit,
                actor@,
                "cluster.desired_updated"@,
                row.id@,
                AuditPayload::DesiredUpdated { version, sha256: w.revision.sha256 },
            )
        },
{
    let bytes = payload(deployments)?;
    let digest = fingerprint(bytes.as_slice());
    let trail = audit(
        actor,
        "cluster.desired_updated",
        row.id.as_str(),
        AuditPayload::DesiredUpdated { version, sha256: digest.clone() },
    );
    let revision = RevisionRow {
        cluster_id: row.id.clone(),
        version,
        sha256: digest,
        created_by: actor.to_owned(),
        created_at: now,
    };
    Ok(
        DesiredWritten {
            revision,
            cluster: ClusterRow { desired_version: version, updated_at: now, ..row },
            audit: trail,
        },
    )
}

/// A stored revision. The deployments are missing where what is stored does
/// not parse.
pub struct StoredRevision {
    pub version: i64,
    pub sha256: String,
    pub deployments: Option<Vec<DesiredDeployment>>,
}

/// What a poll of a cluster is answered.
pub struct ClusterPoll {
    pub delivery: Option<ClusterDelivery>,
    pub retry_after_seconds: u64,
    /// The cluster as it is written, where it is.
    pub cluster: Option<ClusterRow>,
}

/// A delivery is out and has not expired.
pub open spec fn delivering(row: ClusterRow, now: Timestamp) -> bool {
    row.lease_until matches Some(until) && until > now
}

/// The delivery of a stored revision to a cluster.
pub open spec fn delivery_of(
    c: ClusterRow,
    revision: StoredRevision,
    lease: Seq<char>,
    d: ClusterDelivery,
) -> bool {
    &&& d.cluster_id == c.id
    &&& d.namespace == c.namespace
    &&& d.version == revision.version
    &&& d.sha256 == revision.sha256
    &&& d.lease@ == lease
    &&& d.lease_seconds == 60
    &&& revision.deployments == Some(d.deployments)
}

/// What is delivered of a revision that was written by
/// [`put_cluster_desired`] or [`crate::control::scaling::apply`] carries the
/// digest of its deployments, as the agent checks it.
pub proof fn law_deliveries_carry_their_digest(
    c: ClusterRow,
    revision: StoredRevision,
    lease: Seq<char>,
    d: ClusterDelivery,
)
    requires
        revision.deployments matches Some(deployments) ==> delivered_under(
            deployments@,
            revision.sha256@,
        ),
        delivery_of(c, revision, lease, d),
    ensures
        delivered_under(d.deployments@, d.sha256@),
{
}

pub open spec fn poll_cluster_fault(
    row: Option<ClusterRow>,
    token: Seq<char>,
    revision: Option<StoredRevision>,
    now: Timestamp,
) -> Option<Fault> {
    if authentication_fault(row, token, now) is Some {
        authentication_fault(row, token, now)
    } else if delivering(row->0, now) || row->0.desired_version <= row->0.acknowledged_version {
        None
    } else if revision is None {
        Some(Fault::Conflict("desired revision missing"@))
    } else if revision->0.deployments is None {
        Some(Fault::Invalid("stored desired state invalid"@))
    } else {
        None
    }
}

/// What a poll is answered: what is desired and not acknowledged is delivered
/// under the lease, unless another delivery is under way.
pub open spec fn polled(
    c: ClusterRow,
    revision: Option<StoredRevision>,
    lease: Seq<char>,
    now: Timestamp,
    p: ClusterPoll,
) -> bool {
    let due = c.desired_version > c.acknowledged_version;
    &&& delivering(c, now) ==> p.delivery is None && p.retry_after_seconds == 5 && p.cluster is None
    &&& !delivering(c, now) ==> p.retry_after_seconds == 15 && (p.delivery is Some <==> due)
    &&& !delivering(c, now) && !due ==> p.cluster == Some(
        ClusterRow { heartbeat_at: Some(now), ..c },
    )
    &&& p.delivery matches Some(d) ==> {
        &&& delivery_of(c, revision->0, lease, d)
        &&& p.cluster matches Some(next) && next == (ClusterRow {
            heartbeat_at: Some(now),
            delivery_version: d.version,
            delivery_lease: Some(d.lease),
            lease_until: Some((now + 60_000_000) as i64),
            ..c
        })
    }
}

/// Answers the poll of a cluster, with a lease for what is delivered. `revision`
/// is the stored one of the desired version.
pub fn poll_cluster_with(
    row: Option<ClusterRow>,
    token: &str,
    revision: Option<StoredRevision>,
    lease: &str,
    now: Timestamp,
) -> (r: ServiceResult<ClusterPoll>)
    requires
        clock_in_range(now),
    ensures
        refused(r, poll_cluster_fault(row, token@, revision, now)),
        r matches Ok(p) ==> polled(row->0, revision, lease@, now, p),
{
    let row = authenticated(row, token, now)?;
    let busy = match row.lease_until {
        Some(until) => until > now,
        None => false,
    };
    if busy {
        return Ok(ClusterPoll { delivery: None, retry_after_seconds: 5, cluster: None });
    }
    if row.desired_version <= row.acknowledged_version {
        return Ok(
            ClusterPoll {
                delivery: None,
                retry_after_seconds: 15,
                cluster: Some(ClusterRow { heartbeat_at: Some(now), ..row }),
            },
        );
    }
    let revision = match revision {
        Some(revision) => revision,
        None => return Err(conflict("desired revision missing")),
    };
    let deployments = match revision.deployments {
        Some(deployments) => deployments,
        None => return Err(invalid("stored desired state invalid")),
    };
    let lease = lease.to_owned();
    let delivery = ClusterDelivery {
        cluster_id: row.id.clone(),
        namespace: row.namespace.clone(),
        version: revision.version,
        sha256: revision.sha256,
        lease: lease.clone(),
        lease_seconds: 60,
        deployments,
    };
    Ok(
        ClusterPoll {
            delivery: Some(delivery),
            retry_after_seconds: 15,
            cluster: Some(
                ClusterRow {
                    heartbeat_at: Some(now),
                    delivery_version: revision.version,
                    delivery_lease: Some(lease),
                    lease_until: Some(now + 60_000_000),
                    ..row
                },
            ),
        },
    )
}

/// Answers the poll of a cluster, with a fresh lease for what is delivered.
pub fn poll_cluster(
    row: Option<ClusterRow>,
    token: &str,
    revision: Option<StoredRevision>,
    now: Timestamp,
) -> (r: ServiceResult<ClusterPoll>)
    requires
        clock_in_range(now),
    ensures
        refused(r, poll_cluster_fault(row, token@, revision, now)),
        r matches Ok(p) ==> exists|lease: Seq<char>|
            uuid_text(lease) && #[trigger] polled(row->0, revision, lease, now, p),
{
    let lease = fresh_uuid();
    poll_cluster_with(row, token, revision, lease.as_str(), now)
}

pub open spec fn error_code_text(code: Seq<char>) -> bool {
    ||| code == "invalid_spec"@
    ||| code == "ownership_conflict"@
    ||| code == "identity_mismatch"@
    ||| code == "kubernetes_unavailable"@
    ||| code == "apply_timeout"@
}

/// A report says `applied` and nothing more, or `rejected` with a known code.
pub open spec fn report_sound(report: ClusterReport) -> bool {
    match report.error_code {
        None => report.outcome@ == "applied"@,
        Some(code) => report.outcome@ == "rejected"@ && error_code_text(code@),
    }
}

/// The report belongs to the delivery that is out.
pub open spec fn delivery_matches(row: ClusterRow, report: ClusterReport, now: Timestamp) -> bool {
    &&& row.delivery_version == report.version
    &&& row.delivery_lease matches Some(lease) && lease@ == report.lease@
    &&& delivering(row, now)
    &&& report.version >= row.acknowledged_version
}

/// The version of the report was acknowledged before.
pub open spec fn already_acknowledged(row: ClusterRow, report: ClusterReport) -> bool {
    row.acknowledged_version == report.version && report.outcome@ == "applied"@
}

pub open spec fn report_fault(
    row: Option<ClusterRow>,
    token: Seq<char>,
    report: ClusterReport,
    revision_sha256: Option<String>,
    now: Timestamp,
) -> Option<Fault> {
    if !report_sound(report) {
        Some(Fault::Invalid("invalid cluster report"@))
    } else if authentication_fault(row, token, now) is Some {
        authentication_fault(row, token, now)
    } else if revision_sha256 is None {
        Some(Fault::NotFound)
    } else if revision_sha256->0@ != report.sha256@ {
        Some(Fault::Conflict("report digest differs from desired state"@))
    } else if already_acknowledged(row->0, report) {
        None
    } else if !delivery_matches(row->0, report, now) {
        Some(Fault::Conflict("stale or expired cluster delivery"@))
    } else {
        None
    }
}

/// Takes the report of a cluster on its delivery. Nothing is written where the
/// version was acknowledged before. `revision_sha256` is the digest of the
/// stored revision of the version.
pub fn report_cluster(
    row: Option<ClusterRow>,
    token: &str,
    report: &ClusterReport,
    revision_sha256: Option<String>,
    now: Timestamp,
) -> (r: ServiceResult<Option<(ClusterRow, AuditDraft)>>)
    ensures
        refused(r, report_fault(row, token@, *report, revision_sha256, now)),
        r matches Ok(made) ==> (made is None <==> already_acknowledged(row->0, *report)),
        r matches Ok(Some(made)) ==> {
            let applied = report.outcome@ == "applied"@;
            &&& made.0 == (ClusterRow {
                acknowledged_version: if applied {
                    report.version
                } else {
                    row->0.acknowledged_version
                },
                delivery_lease: None,
                lease_until: None,
                heartbeat_at: Some(now),
                last_error: report.error_code,
                updated_at: now,
                ..row->0
            })
            &&& audited(
                made.1,
                "cluster:"@ + row->0.id@,
                if applied {
                    "cluster.ack"@
                } else {
                    "cluster.nack"@
                },
                row->0.id@,
                AuditPayload::Reported {
                    version: report.version,
                    sha256: report.sha256,
                    error_code: report.error_code,
                },
            )
        },
{
    let applied = same(report.outcome.as_str(), "applied");
    let sound = match &report.error_code {
        None => applied,
        Some(code) => same(report.outcome.as_str(), "rejected") && (same(
            code.as_str(),
            "invalid_spec",
        ) || same(code.as_str(), "ownership_conflict") || same(code.as_str(), "identity_mismatch")
            || same(code.as_str(), "kubernetes_unavailable") || same(
            code.as_str(),
            "apply_timeout",
        )),
    };
    if !sound {
        return Err(invalid("invalid cluster report"));
    }
    let row = authenticated(row, token, now)?;
    let digest = match revision_sha256 {
        Some(digest) => digest,
        None => return Err(ServiceError::NotFound),
    };
    if !same(digest.as_str(), report.sha256.as_str()) {
        return Err(conflict("report digest differs from desired state"));
    }
    if row.acknowledged_version == report.version && applied {
        return Ok(None);
    }
    let lease_matches = match &row.delivery_lease {
        Some(lease) => same(lease.as_str(), report.lease.as_str()),
        None => false,
    };
    let live = match row.lease_until {
        Some(until) => until > now,
        None => false,
    };
    if row.delivery_version != report.version || !lease_matches || !live || report.version
        < row.acknowledged_version {
        return Err(conflict("stale or expired cluster delivery"));
    }
    proof {
        reveal_strlit("applied");
        reveal_strlit("rejected");
        assert("applied"@.len() != "rejected"@.len());
    }
    let trail = audit(
        join("cluster:", row.id.as_str()).as_str(),
        if applied {
            "cluster.ack"
        } else {
            "cluster.nack"
        },
        row.id.as_str(),
        AuditPayload::Reported {
            version: report.version,
            sha256: report.sha256.clone(),
            error_code: copy_option(&report.error_code),
        },
    );
    let acknowledged_version = if applied {
        report.version
    } else {
        row.acknowledged_version
    };
    let row = ClusterRow {
        acknowledged_version,
        delivery_lease: None,
        lease_until: None,
        heartbeat_at: Some(now),
        last_error: copy_option(&report.error_code),
        updated_at: now,
        ..row
    };
    Ok(Some((row, trail)))
}

/// What a cluster acknowledged is never taken back: a report either leaves it
/// or moves it on.
pub proof fn law_acknowledged_versions_never_go_back(
    row: ClusterRow,
    token: Seq<char>,
    report: ClusterReport,
    revision_sha256: Option<String>,
    now: Timestamp,
)
    requires
        report_fault(Some(row), token, report, revision_sha256, now) is None,
        report.outcome@ == "applied"@,
    ensures
        report.version >= row.acknowledged_version,
{
}

/// A cluster is trusted until its credential runs out or is revoked, and is known by the digest
/// of its token; whatever is wrong, the answer is the same.
pub proof fn law_clusters_are_known_by_a_live_token(
    row: Option<ClusterRow>,
    token: Seq<char>,
    now: Timestamp,
)
    ensures
        authentication_fault(row, token, now) is None <==> {
            &&& row is Some
            &&& row->0.revoked_at is None
            &&& now < row->0.expires_at
            &&& bytes_of(row->0.credential_hash@) == bytes_of(fingerprint_text(bytes_of(token)))
        },
        authentication_fault(row, token, now) is Some ==> authentication_fault(row, token, now)
            == Some(Fault::Unauthorized),
{
}

/// A credential lasts a whole number of days, one at least and ninety at most.
pub proof fn law_credentials_last_days(now: Timestamp, days: int)
    ensures
        credential_fault(days) is None <==> 0 < days < 91,
        days_later(now, days + 1) - days_later(now, days) == 24 * 60 * 60 * 1_000_000,
        days_later(now, 0) == now,
{
}

/// A credential that was changed in between is not overwritten, and a cluster is registered
/// once, under names of lower case letters, digits and inner hyphens.
pub proof fn law_credentials_are_changed_from_the_current_epoch(
    row: Option<ClusterRow>,
    q: RotateCredential,
    register: RegisterCluster,
    credential: ServiceResult<Credential>,
    exists: bool,
)
    ensures
        rotate_fault(row, q, credential) is None ==> row is Some && row->0.credential_epoch
            == q.expected_epoch && credential is Ok,
        register_fault(register, credential, exists) is None <==> !exists && credential is Ok
            && label_text(register.id@) && label_text(register.namespace@),
        label_text(register.id@) ==> 0 < bytes_of(register.id@).len() < 64 && bytes_of(
            register.id@,
        )[0] != 0x2d,
{
}

/// What is desired names every deployment once, and either what it is to be or, by its
/// identity, that it is to go.
pub proof fn law_desired_states_are_explicit(q: DesiredState, i: int, j: int)
    requires
        desired_fault(q) is None,
        0 <= i < q.deployments@.len(),
        0 <= j < q.deployments@.len(),
    ensures
        q.expected_version >= 0,
        q.deployments@.len() < 101,
        i != j ==> q.deployments@[i].name@ != q.deployments@[j].name@,
        q.deployments@[i].spec is Some ==> q.deployments@[i].delete_uid is None,
        q.deployments@[i].spec is None ==> q.deployments@[i].delete_uid is Some
            && q.deployments@[i].expected_uid is None,
        q.deployments@[i].delete_uid is Some ==> 0 < bytes_of(
            q.deployments@[i].delete_uid->0@,
        ).len() < 129,
{
    assert(deployment_sound(q.deployments@[i]));
    assert(deployment_sound(q.deployments@[j]));
    if i < j {
        assert(!named_before(q.deployments@, j, q.deployments@[j].name@));
    } else if j < i {
        assert(!named_before(q.deployments@, i, q.deployments@[i].name@));
    }
}

/// What is desired of a cluster is changed only from the version that is current, and not once
/// the cluster is revoked.
pub proof fn law_desired_states_are_not_overwritten(
    row: Option<ClusterRow>,
    q: DesiredState,
    pools: Seq<PoolRow>,
)
    requires
        plan_fault(row, q, pools) is None,
    ensures
        row is Some,
        row->0.revoked_at is None,
        row->0.desired_version == q.expected_version,
        row->0.desired_version < i64::MAX,
{
}

/// A delivery is made when something newer is desired and none is under way; it carries the
/// stored revision and is leased for a minute, in which no other is made.
pub proof fn law_deliveries_are_made_one_at_a_time(
    c: ClusterRow,
    revision: Option<StoredRevision>,
    lease: Seq<char>,
    now: Timestamp,
    p: ClusterPoll,
)
    requires
        clock_in_range(now),
        polled(c, revision, lease, now, p),
    ensures
        p.delivery is Some <==> c.desired_version > c.acknowledged_version && !(c.lease_until is Some
            && now < c.lease_until->0),
        c.lease_until is Some && now < c.lease_until->0 ==> p.cluster is None
            && p.retry_after_seconds == 5,
        p.delivery is Some ==> {
            &&& p.cluster is Some
            &&& p.cluster->0.lease_until == Some((now + 60_000_000) as i64)
            &&& p.delivery->0.lease_seconds * 1_000_000 == 60_000_000
            &&& delivering(p.cluster->0, now)
            &&& !delivering(p.cluster->0, (now + 60_000_000) as i64)
            &&& p.cluster->0.delivery_version == p.delivery->0.version
            &&& p.cluster->0.acknowledged_version == c.acknowledged_version
            &&& p.cluster->0.desired_version == c.desired_version
            &&& p.delivery->0.lease@ == lease
            &&& p.delivery->0.cluster_id == c.id
            &&& p.delivery->0.version == revision->0.version
            &&& p.delivery->0.sha256 == revision->0.sha256
        },
{
}

/// A report is taken of the delivery that is under way, under its lease and its digest, or
/// again of what was acknowledged; success carries no error, and a refusal carries one.
pub proof fn law_reports_are_of_the_delivery_under_way(
    row: ClusterRow,
    token: Seq<char>,
    report: ClusterReport,
    revision_sha256: Option<String>,
    now: Timestamp,
)
    requires
        report_fault(Some(row), token, report, revision_sha256, now) is None,
    ensures
        report.outcome@ == "applied"@ <==> report.error_code is None,
        report.error_code is Some ==> report.outcome@ == "rejected"@,
        revision_sha256 is Some && revision_sha256->0@ == report.sha256@,
        authentication_fault(Some(row), token, now) is None,
        (row.acknowledged_version == report.version && report.outcome@ == "applied"@) || (
        row.delivery_version == report.version && row.delivery_lease is Some
            && row.delivery_lease->0@ == report.lease@ && row.lease_until is Some && now
            < row.lease_until->0 && row.acknowledged_version <= report.version),
{
    reveal_strlit("applied");
    reveal_strlit("rejected");
    assert("applied"@.len() != "rejected"@.len());
}

/// A trusted cluster that polls is answered: with nothing where a delivery is under way or
/// nothing newer is desired, and otherwise with the revision that is desired.
pub proof fn law_trusted_clusters_are_answered(
    row: Option<ClusterRow>,
    token: Seq<char>,
    revision: Option<StoredRevision>,
    now: Timestamp,
)
    requires
        authentication_fault(row, token, now) is None,
    ensures
        row->0.desired_version <= row->0.acknowledged_version ==> poll_cluster_fault(
            row,
            token,
            revision,
            now,
        ) is None,
        row->0.lease_until is Some && now < row->0.lease_until->0 ==> poll_cluster_fault(
            row,
            token,
            revision,
            now,
        ) is None,
        revision is Some && revision->0.deployments is Some ==> poll_cluster_fault(
            row,
            token,
            revision,
            now,
        ) is None,
        row->0.desired_version > row->0.acknowledged_version && !(row->0.lease_until is Some && now
            < row->0.lease_until->0) && revision is None ==> poll_cluster_fault(
            row,
            token,
            revision,
            now,
        ) is Some,
{
}

/// What is desired is bounded: to 256 KiB, written down.
pub proof fn law_desired_states_are_bounded(deployments: Seq<DesiredDeployment>)
    ensures
        payload_fault(deployments) is None <==> deployments_bytes(deployments) is Some
            && deployments_bytes(deployments)->0.len() <= 256 * 1024,
{
}

} // verus!
