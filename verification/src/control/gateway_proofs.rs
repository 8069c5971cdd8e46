//! Proofs about gateways. That a container has ended fences what it might send
//! in the future; work that it left behind is cleared by evidence of its own,
//! taken after the fence.
use crate::control::clusters::{
    audit, audited, authenticated, authentication_fault, is_uid, label_text, name, uid_text,
    AuditDraft, AuditPayload, ClusterRow,
};
use crate::control::error::{conflict, invalid, refused, Fault, ServiceError, ServiceResult};
use crate::control::managed_pools::{PoolRow, PoolState, ViewRow};
use crate::control::traffic::{SessionRow, Termination};
use crate::crypto::{fresh_uuid, uuid_text};
use crate::domain::traffic::{GatewayIdentity, GatewayProof, GatewayProofTask, GatewayRuntime};
use crate::domain::{clock_in_range, Timestamp};
use crate::json::{as_str, get, json_of, member, Json};
use crate::text::{byte_len, bytes_of, join, same};
use crate::time::{instant_at, read_instant};
use vstd::prelude::*;

verus! {

/// When the gateway that left work behind was seen to have ended.
#[derive(Clone, Copy, Debug, PartialEq, Eq, Structural)]
pub enum Orphan {
    /// The gateway is not known.
    NoSession,
    /// Nothing proves when it ended.
    NoTime,
    /// The time of the proof does not parse.
    BadTime,
    At(Timestamp),
}

pub open spec fn orphan_fault(o: Orphan) -> Option<Fault> {
    match o {
        Orphan::NoSession => Some(Fault::Invalid("gateway evidence missing"@)),
        Orphan::NoTime => Some(Fault::Invalid("gateway termination time missing"@)),
        Orphan::BadTime => Some(Fault::Invalid("invalid termination time"@)),
        Orphan::At(_) => None,
    }
}

/// What the stored proof of a gateway's session says, where there is the session.
pub open spec fn orphan_in(stored: Option<Json>) -> Orphan {
    match stored {
        None => Orphan::NoSession,
        Some(record) => match member(record, "observed_at"@) {
            Some(Json::Text(text)) => match instant_at(text) {
                Some(time) => Orphan::At(time),
                None => Orphan::BadTime,
            },
            _ => Orphan::NoTime,
        },
    }
}

/// Reads the stored proof of a gateway's session, where there is the session.
pub fn read_orphan(stored: Option<&serde_json::Value>) -> (r: Orphan)
    ensures
        r == orphan_in(
            match stored {
                Some(record) => Some(json_of(*record)),
                None => None,
            },
        ),
{
    match stored {
        None => Orphan::NoSession,
        Some(record) => match get(record, "observed_at") {
            Some(value) => match as_str(value) {
                Some(text) => match read_instant(text) {
                    Some(time) => Orphan::At(time),
                    None => Orphan::BadTime,
                },
                None => Orphan::NoTime,
            },
            None => Orphan::NoTime,
        },
    }
}

/// The first thing wrong with the evidence.
pub open spec fn idle_fault(orphans: Seq<Orphan>) -> Option<Fault>
    decreases orphans.len(),
{
    if orphans.len() == 0 {
        None
    } else if idle_fault(orphans.drop_last()) is Some {
        idle_fault(orphans.drop_last())
    } else {
        orphan_fault(orphans.last())
    }
}

/// The latest time at which one of the gateways was seen to have ended.
pub open spec fn idle_time(orphans: Seq<Orphan>) -> Option<Timestamp>
    decreases orphans.len(),
{
    if orphans.len() == 0 {
        None
    } else {
        let before = idle_time(orphans.drop_last());
        let time = orphans.last()->At_0;
        Some(
            if before is Some && before->0 > time {
                before->0
            } else {
                time
            },
        )
    }
}

/// A fault among the first is the fault of all of them.
proof fn lemma_idle_fault(orphans: Seq<Orphan>, n: int)
    requires
        0 <= n <= orphans.len(),
        idle_fault(orphans.take(n)) is Some,
    ensures
        idle_fault(orphans) == idle_fault(orphans.take(n)),
    decreases orphans.len(),
{
    if n < orphans.len() {
        assert(orphans.drop_last().take(n) =~= orphans.take(n));
        lemma_idle_fault(orphans.drop_last(), n);
    } else {
        assert(orphans.take(n) =~= orphans);
    }
}

/// The time after which a pool must be seen idle before the work that ended
/// gateways left behind counts as done. None where none did.
pub fn idle_after(orphans: &Vec<Orphan>) -> (r: ServiceResult<Option<Timestamp>>)
    ensures
        refused(r, idle_fault(orphans@)),
        r matches Ok(time) ==> time == idle_time(orphans@),
{
    let mut after: Option<Timestamp> = None;
    let mut i: usize = 0;
    while i < orphans.len()
        invariant
            i <= orphans@.len(),
            idle_fault(orphans@.take(i as int)) is None,
            after == idle_time(orphans@.take(i as int)),
        decreases orphans.len() - i,
    {
        let ghost upto = orphans@.take(i as int + 1);
        assert(upto.drop_last() =~= orphans@.take(i as int));
        let orphan = orphans[i];
        let time = match orphan {
            Orphan::At(time) => time,
            _ => {
                proof {
                    lemma_idle_fault(orphans@, i as int + 1);
                }
                return match orphan {
                    Orphan::NoSession => Err(invalid("gateway evidence missing")),
                    Orphan::NoTime => Err(invalid("gateway termination time missing")),
                    _ => Err(invalid("invalid termination time")),
                };
            },
        };
        after = match after {
            Some(before) => if before > time {
                Some(before)
            } else {
                Some(time)
            },
            None => Some(time),
        };
        i += 1;
    }
    assert(orphans@.take(i as int) =~= orphans@);
    Ok(after)
}

pub open spec fn confirm_fault(pool: PoolRow, orphans: Seq<Orphan>) -> Option<Fault> {
    if pool.state != PoolState::Draining {
        Some(Fault::Conflict("provider idle evidence requires a closed pool"@))
    } else if pool.binding.traffic_protocol != 2 {
        Some(Fault::Conflict("orphan drain requires a v2 authorization-fenced entry"@))
    } else {
        idle_fault(orphans)
    }
}

/// Takes the evidence that a closed pool is idle. Work that ended gateways
/// left behind is then done, if there was any; the money held for it is not
/// touched.
pub fn confirm_idle(pool: &PoolRow, orphans: &Vec<Orphan>) -> (r: ServiceResult<
    Option<AuditDraft>,
>)
    ensures
        refused(r, confirm_fault(*pool, orphans@)),
        r matches Ok(done) ==> (done is Some <==> orphans@.len() > 0),
        r matches Ok(Some(trail)) ==> audited(
            trail,
            "member-agent"@,
            "pool.orphans_drained"@,
            pool.id@,
            AuditPayload::HoldsUnchanged,
        ),
{
    if pool.state != PoolState::Draining {
        return Err(conflict("provider idle evidence requires a closed pool"));
    }
    if pool.binding.traffic_protocol != 2 {
        return Err(conflict("orphan drain requires a v2 authorization-fenced entry"));
    }
    match idle_after(orphans)? {
        None => Ok(None),
        Some(_) => Ok(
            Some(
                audit(
                    "member-agent",
                    "pool.orphans_drained",
                    pool.id.as_str(),
                    AuditPayload::HoldsUnchanged,
                ),
            ),
        ),
    }
}

/// A view after the work that its gateway left behind is done.
pub open spec fn without_orphan(v: ViewRow) -> ViewRow {
    if v.retired && v.active_requests < 0 {
        ViewRow { active_requests: 0, ..v }
    } else {
        v
    }
}

pub open spec fn cleared(views: Seq<ViewRow>) -> Seq<ViewRow> {
    views.map_values(|v: ViewRow| without_orphan(v))
}

/// Marks the work that ended gateways left behind as done.
pub fn clear_orphans(views: &mut Vec<ViewRow>)
    ensures
        final(views)@ == cleared(old(views)@),
{
    let ghost before = views@;
    let mut i: usize = 0;
    while i < views.len()
        invariant
            i <= views@.len() == before.len(),
            forall|j: int| 0 <= j < i ==> #[trigger] views@[j] == without_orphan(before[j]),
            forall|j: int| i <= j < views@.len() ==> #[trigger] views@[j] == before[j],
        decreases views.len() - i,
    {
        if views[i].retired && views[i].active_requests < 0 {
            let view = ViewRow { active_requests: 0, ..views[i].copy() };
            views.set(i, view);
        }
        i += 1;
    }
    assert(views@ =~= cleared(before));
}

pub open spec fn identity_sound(i: GatewayIdentity) -> bool {
    &&& label_text(i.cluster_id@)
    &&& label_text(i.namespace@)
    &&& label_text(i.pod@)
    &&& uid_text(i.pod_uid@)
}

pub open spec fn identity_fault(
    i: GatewayIdentity,
    cluster: Option<ClusterRow>,
    now: Timestamp,
) -> Option<Fault> {
    if !identity_sound(i) {
        Some(Fault::Invalid("invalid gateway pod identity"@))
    } else if cluster matches Some(c) && c.namespace@ == i.namespace@ && c.trusted(now) {
        None
    } else {
        Some(Fault::Forbidden)
    }
}

/// The pod of a gateway belongs to a trusted cluster. `cluster` is the one
/// that it names.
pub fn validate_identity(
    identity: &GatewayIdentity,
    cluster: &Option<ClusterRow>,
    now: Timestamp,
) -> (r: ServiceResult<()>)
    ensures
        refused(r, identity_fault(*identity, *cluster, now)),
{
    if !name(identity.cluster_id.as_str()) || !name(identity.namespace.as_str()) || !name(
        identity.pod.as_str(),
    ) || !is_uid(identity.pod_uid.as_str()) {
        return Err(invalid("invalid gateway pod identity"));
    }
    match cluster {
        Some(c) => if same(c.namespace.as_str(), identity.namespace.as_str()) && c.is_trusted(now) {
            Ok(())
        } else {
            Err(ServiceError::Forbidden)
        },
        None => Err(ServiceError::Forbidden),
    }
}

pub open spec fn runs_in(s: SessionRow, pod_uid: Seq<char>) -> bool {
    s.identity matches Some(i) && i.pod_uid@ == pod_uid
}

pub open spec fn pod_in_use(open_sessions: Seq<SessionRow>, pod_uid: Seq<char>) -> bool {
    exists|i: int|
        0 <= i < open_sessions.len() && runs_in(#[trigger] open_sessions[i], pod_uid)
}

fn is_pod_in_use(open_sessions: &Vec<SessionRow>, pod_uid: &str) -> (r: bool)
    ensures
        r == pod_in_use(open_sessions@, pod_uid@),
{
    let mut i: usize = 0;
    while i < open_sessions.len()
        invariant
            i <= open_sessions@.len(),
            forall|j: int| 0 <= j < i ==> !runs_in(#[trigger] open_sessions@[j], pod_uid@),
        decreases open_sessions.len() - i,
    {
        let here = match &open_sessions[i].identity {
            Some(identity) => same(identity.pod_uid.as_str(), pod_uid),
            None => false,
        };
        if here {
            assert(runs_in(open_sessions@[i as int], pod_uid@));
            return true;
        }
        i += 1;
    }
    false
}

/// A task, which is also the nonce that the session waits for, and how long it
/// does.
pub struct IssuedProof {
    pub task: GatewayProofTask,
    pub proof_until: Timestamp,
}

pub open spec fn proof_issued(
    s: SessionRow,
    open_sessions: Seq<SessionRow>,
    now: Timestamp,
    p: IssuedProof,
) -> bool {
    &&& uuid_text(p.task.nonce@)
    &&& p.task == (GatewayProofTask {
        release_finalizer: s.closed && !pod_in_use(open_sessions, s.identity->0.pod_uid@),
        session_id: s.id,
        nonce: p.task.nonce,
        identity: s.identity->0,
        runtime: s.runtime,
        closed: s.closed,
    })
    &&& p.proof_until == now + 60_000_000
}

pub open spec fn all_identified(rows: Seq<SessionRow>) -> bool {
    forall|i: int| 0 <= i < rows.len() ==> (#[trigger] rows[i]).identity is Some
}

/// The proof tasks of a cluster: one for each of its gateways whose end is not
/// proved, each with a fresh nonce. A pod is let go when the last of its
/// gateways is closed. `open_sessions` holds the gateways of the cluster that
/// are not closed.
pub fn gateway_proof_tasks(
    cluster: Option<ClusterRow>,
    token: &str,
    rows: &Vec<SessionRow>,
    open_sessions: &Vec<SessionRow>,
    now: Timestamp,
) -> (r: ServiceResult<Vec<IssuedProof>>)
    requires
        clock_in_range(now),
    ensures
        refused(
            r,
            if authentication_fault(cluster, token@, now) is Some {
                authentication_fault(cluster, token@, now)
            } else if !all_identified(rows@) {
                Some(Fault::Invalid("gateway identity missing"@))
            } else {
                None
            },
        ),
        r matches Ok(tasks) ==> tasks@.len() == rows@.len() && forall|i: int|
            0 <= i < tasks@.len() ==> proof_issued(
                rows@[i],
                open_sessions@,
                now,
                #[trigger] tasks@[i],
            ),
{
    let _ = authenticated(cluster, token, now)?;
    let mut out: Vec<IssuedProof> = Vec::new();
    let mut i: usize = 0;
    while i < rows.len()
        invariant
            i <= rows@.len(),
            clock_in_range(now),
            authentication_fault(cluster, token@, now) is None,
            out@.len() == i,
            forall|j: int| 0 <= j < i ==> (#[trigger] rows@[j]).identity is Some,
            forall|j: int|
                0 <= j < i ==> proof_issued(rows@[j], open_sessions@, now, #[trigger] out@[j]),
        decreases rows.len() - i,
    {
        let row = &rows[i];
        let identity = match &row.identity {
            Some(identity) => identity.copy(),
            None => {
                assert(rows@[i as int].identity is None);
                return Err(invalid("gateway identity missing"));
            },
        };
        let release_finalizer = row.closed && !is_pod_in_use(
            open_sessions,
            identity.pod_uid.as_str(),
        );
        let task = GatewayProofTask {
            release_finalizer,
            session_id: row.id.clone(),
            nonce: fresh_uuid(),
            identity,
            runtime: match &row.runtime {
                Some(runtime) => Some(runtime.copy()),
                None => None,
            },
            closed: row.closed,
        };
        out.push(IssuedProof { task, proof_until: now + 60_000_000 });
        i += 1;
    }
    Ok(out)
}

/// A container that can be attested.
pub open spec fn runtime_sound(r: GatewayRuntime) -> bool {
    &&& 1 <= bytes_of(r.container_id@).len() <= 256
    &&& label_text(r.node@)
    &&& uid_text(r.node_uid@)
}

pub open spec fn outcome_text(s: Seq<char>) -> bool {
    ||| s == "bound"@
    ||| s == "terminated"@
    ||| s == "unknown"@
    ||| s == "unbound"@
    ||| s == "cleaned"@
}

/// The proof is of the container that was attested.
pub open spec fn attested(row: SessionRow, runtime: Option<GatewayRuntime>) -> bool {
    row.runtime is Some && runtime is Some && row.runtime->0.equals(runtime->0)
}

pub open spec fn proof_fault(
    cluster: Option<ClusterRow>,
    id: Seq<char>,
    token: Seq<char>,
    row: Option<SessionRow>,
    proof: GatewayProof,
    views: Seq<ViewRow>,
    now: Timestamp,
) -> Option<Fault> {
    if !outcome_text(proof.outcome@) {
        Some(Fault::Invalid("unknown termination proof outcome"@))
    } else if authentication_fault(cluster, token, now) is Some {
        authentication_fault(cluster, token, now)
    } else if row is None {
        Some(Fault::NotFound)
    } else if !(row->0.gateway_cluster_id matches Some(owner) && owner@ == id) {
        Some(Fault::Forbidden)
    } else if !(row->0.proof_nonce matches Some(nonce) && nonce@ == proof.nonce@) || !(
    row->0.proof_until matches Some(until) && until > now) {
        Some(Fault::Conflict("stale gateway proof"@))
    } else if proof.outcome@ == "bound"@ {
        if proof.runtime is None {
            Some(Fault::Invalid("container attestation missing"@))
        } else if row->0.closed || !runtime_sound(proof.runtime->0) {
            Some(Fault::Invalid("invalid container attestation"@))
        } else if row->0.runtime is Some && !attested(row->0, proof.runtime) {
            Some(Fault::Conflict("container attestation is immutable"@))
        } else {
            None
        }
    } else if proof.outcome@ == "terminated"@ && !attested(row->0, proof.runtime) {
        Some(Fault::Conflict("termination must match the attested container and node"@))
    } else if proof.outcome@ == "unbound"@ && (row->0.runtime is Some || views.len() > 0) {
        Some(Fault::Conflict("gateway has granted traffic; termination evidence required"@))
    } else if proof.outcome@ == "cleaned"@ && !row->0.closed {
        Some(Fault::Conflict("gateway is not retired"@))
    } else {
        None
    }
}

/// The session after a proof.
pub open spec fn proved(row: SessionRow, proof: GatewayProof, now: Timestamp, next: SessionRow) -> bool {
    let ends = proof.outcome@ == "terminated"@ && !row.closed;
    &&& next.runtime == if proof.outcome@ == "bound"@ {
        proof.runtime
    } else {
        row.runtime
    }
    &&& next.closed == (row.closed || proof.outcome@ == "terminated"@ || proof.outcome@
        == "unbound"@)
    &&& next.proof_complete == (row.proof_complete || proof.outcome@ == "unbound"@ || proof.outcome@
        == "cleaned"@)
    &&& if ends {
        next.proof matches Some(t) && t.observed_at == now && t.runtime == proof.runtime->0
    } else {
        next.proof == row.proof
    }
    &&& next == (SessionRow {
        runtime: next.runtime,
        closed: next.closed,
        proof_complete: next.proof_complete,
        proof: next.proof,
        proof_nonce: None,
        proof_until: None,
        ..row
    })
}

/// A view after its gateway has ended: what was in flight is not known.
pub open spec fn fenced(v: ViewRow) -> ViewRow {
    ViewRow { retired: true, active_requests: (-1) as i64, ..v }
}

/// A proof that was taken. The audit line is there when the gateway ended by
/// it.
pub struct ProofTaken {
    pub session: SessionRow,
    pub audit: Option<AuditDraft>,
}

fn fence(views: &mut Vec<ViewRow>)
    ensures
        final(views)@ == old(views)@.map_values(|v: ViewRow| fenced(v)),
{
    let ghost before = views@;
    let mut i: usize = 0;
    while i < views.len()
        invariant
            i <= views@.len() == before.len(),
            forall|j: int| 0 <= j < i ==> #[trigger] views@[j] == fenced(before[j]),
            forall|j: int| i <= j < views@.len() ==> #[trigger] views@[j] == before[j],
        decreases views.len() - i,
    {
        let view = ViewRow { retired: true, active_requests: -1, ..views[i].copy() };
        views.set(i, view);
        i += 1;
    }
    assert(views@ =~= before.map_values(|v: ViewRow| fenced(v)));
}

/// Takes the proof that a cluster gives of one of its gateways, under the lock
/// of the session. A gateway that has ended cannot report any more: it is
/// retired, and what it had in flight is kept as unknown until the pool is
/// seen idle. `views` holds the views of the session.
pub fn gateway_proof(
    cluster: Option<ClusterRow>,
    id: &str,
    token: &str,
    row: Option<SessionRow>,
    proof: GatewayProof,
    views: &mut Vec<ViewRow>,
    now: Timestamp,
) -> (r: ServiceResult<ProofTaken>)
    ensures
        refused(r, proof_fault(cluster, id@, token@, row, proof, old(views)@, now)),
        ({
            let ends = r is Ok && proof.outcome@ == "terminated"@ && !row->0.closed;
            &&& final(views)@ == if ends {
                old(views)@.map_values(|v: ViewRow| fenced(v))
            } else {
                old(views)@
            }
            &&& r matches Ok(t) ==> proved(row->0, proof, now, t.session) && (t.audit is Some
                <==> ends)
            &&& r matches Ok(t) ==> t.audit matches Some(trail) ==> audited(
                trail,
                "cluster:"@ + id@,
                "gateway.container_terminated"@,
                row->0.id@,
                AuditPayload::UsageNotInferred,
            )
        }),
{
    proof {
        reveal_strlit("bound");
        reveal_strlit("terminated");
        reveal_strlit("unknown");
        reveal_strlit("unbound");
        reveal_strlit("cleaned");
        assert("bound"@.len() == 5 && "terminated"@.len() == 10 && "unknown"@[2] == 'k'
            && "unbound"@[2] == 'b' && "cleaned"@[2] == 'e' && "unknown"@.len() == 7
            && "unbound"@.len() == 7 && "cleaned"@.len() == 7);
    }
    let bound = same(proof.outcome.as_str(), "bound");
    let terminated = same(proof.outcome.as_str(), "terminated");
    let unbound = same(proof.outcome.as_str(), "unbound");
    let cleaned = same(proof.outcome.as_str(), "cleaned");
    if !bound && !terminated && !unbound && !cleaned && !same(proof.outcome.as_str(), "unknown") {
        return Err(invalid("unknown termination proof outcome"));
    }
    let _ = authenticated(cluster, token, now)?;
    let row = match row {
        Some(row) => row,
        None => return Err(ServiceError::NotFound),
    };
    let owned = match &row.gateway_cluster_id {
        Some(owner) => same(owner.as_str(), id),
        None => false,
    };
    if !owned {
        return Err(ServiceError::Forbidden);
    }
    let asked = match &row.proof_nonce {
        Some(nonce) => same(nonce.as_str(), proof.nonce.as_str()),
        None => false,
    };
    let live = match row.proof_until {
        Some(until) => until > now,
        None => false,
    };
    if !asked || !live {
        return Err(conflict("stale gateway proof"));
    }
    let matching = match (&row.runtime, &proof.runtime) {
        (Some(known), Some(seen)) => known.same(seen),
        _ => false,
    };
    let mut next = SessionRow { proof_nonce: None, proof_until: None, ..row };
    let mut trail: Option<AuditDraft> = None;
    if bound {
        let runtime = match proof.runtime {
            Some(runtime) => runtime,
            None => return Err(invalid("container attestation missing")),
        };
        if next.closed || byte_len(runtime.container_id.as_str()) < 1 || byte_len(
            runtime.container_id.as_str(),
        ) > 256 || !name(runtime.node.as_str()) || !is_uid(runtime.node_uid.as_str()) {
            return Err(invalid("invalid container attestation"));
        }
        if next.runtime.is_some() && !matching {
            return Err(conflict("container attestation is immutable"));
        }
        next.runtime = Some(runtime);
    } else if terminated {
        if !matching {
            return Err(conflict("termination must match the attested container and node"));
        }
        let runtime = match proof.runtime {
            Some(runtime) => runtime,
            None => return Err(conflict("termination must match the attested container and node")),
        };
        if !next.closed {
            next.closed = true;
            next.proof = Some(Termination { observed_at: now, runtime });
            fence(views);
            trail = Some(
                audit(
                    join("cluster:", id).as_str(),
                    "gateway.container_terminated",
                    next.id.as_str(),
                    AuditPayload::UsageNotInferred,
                ),
            );
        }
    } else if unbound {
        if next.runtime.is_some() || views.len() > 0 {
            return Err(conflict("gateway has granted traffic; termination evidence required"));
        }
        next.closed = true;
        next.proof_complete = true;
    } else if cleaned {
        if !next.closed {
            return Err(conflict("gateway is not retired"));
        }
        next.proof_complete = true;
    }
    Ok(ProofTaken { session: next, audit: trail })
}

/// What a gateway had in flight when it ended is never taken for done: its
/// views are retired with unknown work, which keeps the pool from shrinking.
pub proof fn law_ended_gateways_keep_their_work(v: ViewRow, generation: i64)
    ensures
        fenced(v).retired,
        fenced(v).active_requests != 0,
        crate::control::scaling::waits(fenced(v), generation),
{
}

/// The work of gateways that ended is over no earlier than the last of them ended.
pub proof fn law_idleness_starts_with_the_last_end(orphans: Seq<Orphan>, i: int)
    requires
        idle_fault(orphans) is None,
        0 <= i < orphans.len(),
    ensures
        orphans[i] is At,
        idle_time(orphans) is Some,
        idle_time(orphans)->0 >= orphans[i]->At_0,
        exists|j: int| 0 <= j < orphans.len() && idle_time(orphans)->0 == #[trigger] orphans[j]->At_0,
    decreases orphans.len(),
{
    let rest = orphans.drop_last();
    let last = orphans.len() - 1;
    assert(orphans[last] == orphans.last());
    if rest.len() > 0 {
        law_idleness_starts_with_the_last_end(
            rest,
            if i < last {
                i
            } else {
                0
            },
        );
        if i < last {
            assert(rest[i] == orphans[i]);
        }
        let j = choose|j: int| 0 <= j < rest.len() && idle_time(rest)->0 == #[trigger] rest[j]->At_0;
        assert(rest[j] == orphans[j]);
        if idle_time(orphans)->0 == idle_time(rest)->0 {
            assert(idle_time(orphans)->0 == orphans[j]->At_0);
        }
    }
    if idle_time(orphans)->0 == orphans[last]->At_0 {
        assert(idle_time(orphans)->0 == orphans[last]->At_0);
    }
}

/// Orphaned work is called off only for a pool that is closed and whose entry fences what was
/// not authorised, and only on proof of when each gateway ended.
pub proof fn law_orphans_are_cleared_behind_a_fence(pool: PoolRow, orphans: Seq<Orphan>)
    requires
        confirm_fault(pool, orphans) is None,
    ensures
        pool.state == PoolState::Draining,
        pool.binding.traffic_protocol == 2,
        idle_fault(orphans) is None,
{
}

/// Clearing orphans touches the counts of gateways that ended without one, and nothing else.
pub proof fn law_clearing_touches_orphans_alone(views: Seq<ViewRow>, i: int)
    requires
        0 <= i < views.len(),
    ensures
        cleared(views).len() == views.len(),
        views[i].retired && views[i].active_requests < 0 ==> cleared(views)[i].active_requests == 0,
        !views[i].retired || views[i].active_requests >= 0 ==> cleared(views)[i] == views[i],
        cleared(views)[i].retired == views[i].retired,
        cleared(views)[i].acknowledged_generation == views[i].acknowledged_generation,
{
}

/// A gateway is who it says only in the namespace of a trusted cluster.
pub proof fn law_gateways_live_in_their_namespace(
    i: GatewayIdentity,
    cluster: Option<ClusterRow>,
    now: Timestamp,
)
    requires
        identity_fault(i, cluster, now) is None,
    ensures
        cluster is Some,
        cluster->0.namespace@ == i.namespace@,
        cluster->0.trusted(now),
        label_text(i.cluster_id@) && label_text(i.namespace@) && label_text(i.pod@),
{
}

/// A proof is taken under the nonce that it was asked for with, in time, from the cluster of the
/// gateway. The container of a gateway is attested once; its end is proved by the same
/// container, and by nothing else where traffic was granted.
pub proof fn law_ends_are_proved_by_the_attested_container(
    cluster: Option<ClusterRow>,
    id: Seq<char>,
    token: Seq<char>,
    row: SessionRow,
    attestation: GatewayProof,
    views: Seq<ViewRow>,
    now: Timestamp,
)
    requires
        proof_fault(cluster, id, token, Some(row), attestation, views, now) is None,
    ensures
        row.gateway_cluster_id is Some && row.gateway_cluster_id->0@ == id,
        row.proof_nonce is Some && row.proof_nonce->0@ == attestation.nonce@,
        row.proof_until is Some && now < row.proof_until->0,
        authentication_fault(cluster, token, now) is None,
        attestation.outcome@ == "bound"@ ==> attestation.runtime is Some && !row.closed && (row.runtime is None
            || row.runtime->0.equals(attestation.runtime->0)),
        attestation.outcome@ == "terminated"@ ==> row.runtime is Some && attestation.runtime is Some
            && row.runtime->0.equals(attestation.runtime->0),
        attestation.outcome@ == "unbound"@ ==> row.runtime is None && views.len() == 0,
        attestation.outcome@ == "cleaned"@ ==> row.closed,
{
    reveal_strlit("bound");
    reveal_strlit("terminated");
    reveal_strlit("unbound");
    reveal_strlit("cleaned");
    assert("bound"@.len() == 5 && "terminated"@.len() == 10 && "unbound"@.len() == 7
        && "cleaned"@.len() == 7);
    assert("unbound"@[0] == 'u' && "cleaned"@[0] == 'c');
}

/// A gateway is retired by proof of its end and never reopened; a proof can be used once.
pub proof fn law_proved_ends_are_final(
    row: SessionRow,
    attestation: GatewayProof,
    now: Timestamp,
    next: SessionRow,
)
    requires
        proved(row, attestation, now, next),
    ensures
        row.closed ==> next.closed,
        attestation.outcome@ == "terminated"@ || attestation.outcome@ == "unbound"@ ==> next.closed,
        attestation.outcome@ == "bound"@ || attestation.outcome@ == "unknown"@ ==> next.closed == row.closed,
        attestation.outcome@ == "bound"@ ==> next.runtime == attestation.runtime,
        attestation.outcome@ == "terminated"@ && !row.closed ==> next.proof is Some
            && next.proof->0.observed_at == now,
        next.proof_nonce is None && next.proof_until is None,
        next.id == row.id && next.identity == row.identity && next.sequence == row.sequence,
{
    reveal_strlit("bound");
    reveal_strlit("terminated");
    reveal_strlit("unbound");
    reveal_strlit("unknown");
    assert("bound"@.len() == 5 && "terminated"@.len() == 10 && "unbound"@.len() == 7
        && "unknown"@.len() == 7);
    assert("unbound"@[2] == 'b' && "unknown"@[2] == 'k');
}

/// The hold on a pod is let go only when its gateway is retired and no open gateway runs in
/// it.
pub proof fn law_pods_are_let_go_after_their_last_gateway(
    s: SessionRow,
    open_sessions: Seq<SessionRow>,
    now: Timestamp,
    p: IssuedProof,
    i: int,
)
    requires
        proof_issued(s, open_sessions, now, p),
        p.task.release_finalizer,
        s.identity is Some,
    ensures
        s.closed,
        0 <= i < open_sessions.len() && open_sessions[i].identity is Some
            ==> open_sessions[i].identity->0.pod_uid@ != s.identity->0.pod_uid@,
{
    if 0 <= i < open_sessions.len() {
        assert(!runs_in(open_sessions[i], s.identity->0.pod_uid@));
    }
}

} // verus!
