//! Traffic of managed pools. A gateway is recorded as a participant before a
//! snapshot that lets it send requests can leave the control plane.
use crate::collections::TextMap;
use crate::control::clusters::ClusterRow;
use crate::control::error::{conflict, invalid, refused, Fault, ServiceError, ServiceResult};
use crate::control::gateway_proofs::{identity_fault, validate_identity};
use crate::control::managed_pools::{moved, PoolRow, PoolState, ViewRow};
use crate::crypto::{
    base64_url_text, encode_base64_url, entropy_32, fingerprint, fingerprint_text, fresh_uuid,
    is_uuid, uuid_text,
};
use crate::domain::routing::RoutePolicy;
use crate::domain::traffic::{
    GatewayIdentity, GatewayRuntime, PoolControl, TrafficReport, TrafficSnapshot, LEASE_SECONDS,
};
use crate::domain::{clock_in_range, GatewaySnapshot, Timestamp};
use crate::headers::{first_visible, header, header_values};
use crate::text::{byte_len, bytes_of, same};
use vstd::prelude::*;

verus! {

/// A route policy that a gateway was shown or has acknowledged.
#[derive(Clone, Debug)]
pub struct RouteMark {
    pub project_id: String,
    pub model: String,
    pub revision: i64,
}

/// That a container has ended, and when that was seen.
#[derive(Clone, Debug)]
pub struct Termination {
    pub observed_at: Timestamp,
    pub runtime: GatewayRuntime,
}

/// One incarnation of a gateway. It ends for good: once closed, it is never
/// open again.
pub struct SessionRow {
    pub id: String,
    pub sequence: i64,
    pub closed: bool,
    pub nonce: String,
    pub reported: Option<TrafficReport>,
    pub delivered_routes: Vec<RouteMark>,
    pub acknowledged_routes: Vec<RouteMark>,
    pub delivered_at: Timestamp,
    pub identity: Option<GatewayIdentity>,
    pub runtime: Option<GatewayRuntime>,
    pub proof: Option<Termination>,
    pub proof_nonce: Option<String>,
    pub proof_until: Option<Timestamp>,
    pub gateway_cluster_id: Option<String>,
    pub proof_complete: bool,
}

pub open spec fn marks(m: RouteMark, project: Seq<char>, model: Seq<char>) -> bool {
    m.project_id@ == project && m.model@ == model
}

/// One of the marks is of the route, at this revision or a later one.
pub open spec fn marked(
    list: Seq<RouteMark>,
    project: Seq<char>,
    model: Seq<char>,
    least: Option<i64>,
) -> bool {
    exists|i: int|
        0 <= i < list.len() && marks(#[trigger] list[i], project, model) && (least matches Some(
            revision,
        ) ==> list[i].revision >= revision)
}

fn is_marked(list: &Vec<RouteMark>, project: &str, model: &str, least: Option<i64>) -> (r: bool)
    ensures
        r == marked(list@, project@, model@, least),
{
    let mut i: usize = 0;
    while i < list.len()
        invariant
            i <= list@.len(),
            forall|j: int|
                0 <= j < i ==> !(marks(#[trigger] list@[j], project@, model@) && (least matches
                    Some(revision) ==> list@[j].revision >= revision)),
        decreases list.len() - i,
    {
        let m = &list[i];
        let late = match least {
            Some(revision) => m.revision >= revision,
            None => true,
        };
        if same(m.project_id.as_str(), project) && same(m.model.as_str(), model) && late {
            assert(marks(list@[i as int], project@, model@));
            return true;
        }
        i += 1;
    }
    false
}

/// What a gateway has acknowledged of a route.
pub struct RouteAck {
    pub session_id: String,
    pub acknowledged: bool,
    pub retired: bool,
    pub delivered_at: Timestamp,
}

/// How far a route policy has come. Only gateways that were shown the route
/// are known.
pub struct RouteAcks {
    pub revision: i64,
    pub sessions: Vec<RouteAck>,
    pub all_known_acknowledged: bool,
}

pub open spec fn ack_of(
    s: SessionRow,
    project: Seq<char>,
    model: Seq<char>,
    revision: i64,
    a: RouteAck,
) -> bool {
    &&& a.session_id == s.id
    &&& a.acknowledged == (s.closed || marked(
        s.acknowledged_routes@,
        project,
        model,
        Some(revision),
    ))
    &&& a.retired == s.closed
    &&& a.delivered_at == s.delivered_at
}

pub open spec fn shown(
    sessions: Seq<SessionRow>,
    project: Seq<char>,
    model: Seq<char>,
) -> Seq<SessionRow> {
    sessions.filter(|s: SessionRow| marked(s.delivered_routes@, project, model, None))
}

/// How far a route policy has come: which of the gateways that were shown it
/// have acknowledged its revision, or are gone for good.
pub fn route_acks(
    revision: Option<i64>,
    sessions: &Vec<SessionRow>,
    project: &str,
    model: &str,
) -> (r: ServiceResult<RouteAcks>)
    ensures
        refused(
            r,
            if revision is None {
                Some(Fault::NotFound)
            } else {
                None
            },
        ),
        r matches Ok(acks) ==> {
            let known = shown(sessions@, project@, model@);
            &&& acks.revision == revision->0
            &&& acks.sessions@.len() == known.len()
            &&& forall|i: int|
                0 <= i < acks.sessions@.len() ==> ack_of(
                    known[i],
                    project@,
                    model@,
                    acks.revision,
                    #[trigger] acks.sessions@[i],
                )
            &&& acks.all_known_acknowledged == (acks.sessions@.len() > 0 && forall|i: int|
                0 <= i < acks.sessions@.len() ==> (#[trigger] acks.sessions@[i]).acknowledged)
        },
{
    let revision = match revision {
        Some(revision) => revision,
        None => return Err(ServiceError::NotFound),
    };
    let ghost keep = |s: SessionRow| marked(s.delivered_routes@, project@, model@, None);
    let mut out: Vec<RouteAck> = Vec::new();
    let mut complete = true;
    let mut i: usize = 0;
    assert(sessions@.take(0).filter(keep) =~= Seq::empty());
    while i < sessions.len()
        invariant
            i <= sessions@.len(),
            keep == (|s: SessionRow| marked(s.delivered_routes@, project@, model@, None)),
            out@.len() == sessions@.take(i as int).filter(keep).len(),
            forall|j: int|
                0 <= j < out@.len() ==> ack_of(
                    sessions@.take(i as int).filter(keep)[j],
                    project@,
                    model@,
                    revision,
                    #[trigger] out@[j],
                ),
            complete == forall|j: int|
                0 <= j < out@.len() ==> (#[trigger] out@[j]).acknowledged,
        decreases sessions.len() - i,
    {
        let ghost kept = sessions@.take(i as int).filter(keep);
        proof {
            broadcast use Seq::lemma_filter_push;

            assert(sessions@.take(i as int + 1) == sessions@.take(i as int).push(
                sessions@[i as int],
            ));
        }
        let s = &sessions[i];
        if is_marked(&s.delivered_routes, project, model, None) {
            assert(keep(sessions@[i as int]));
            let acknowledged = s.closed || is_marked(
                &s.acknowledged_routes,
                project,
                model,
                Some(revision),
            );
            let ghost before = out@;
            out.push(
                RouteAck {
                    session_id: s.id.clone(),
                    acknowledged,
                    retired: s.closed,
                    delivered_at: s.delivered_at,
                },
            );
            complete = complete && acknowledged;
            proof {
                assert(out@[before.len() as int].acknowledged == acknowledged);
                assert forall|j: int| 0 <= j < before.len() implies out@[j] == before[j] by {}
            }
        } else {
            assert(!keep(sessions@[i as int]));
        }
        i += 1;
    }
    assert(sessions@.take(i as int) =~= sessions@);
    let all_known_acknowledged = out.len() > 0 && complete;
    Ok(RouteAcks { revision, sessions: out, all_known_acknowledged })
}

/// What a snapshot is made of: the rows under their locks, the session of the
/// gateway where it is known, and the views that this session has of pools.
pub struct SnapshotFacts {
    pub snapshot: GatewaySnapshot,
    pub identity_cluster: Option<ClusterRow>,
    pub session: Option<SessionRow>,
    pub pools: Vec<PoolRow>,
    pub clusters: Vec<ClusterRow>,
    pub views: Vec<ViewRow>,
    /// Whether gateways without an attested container are turned away.
    pub attribution_required: bool,
}

pub open spec fn same_identity(a: Option<GatewayIdentity>, b: Option<GatewayIdentity>) -> bool {
    match (a, b) {
        (Some(x), Some(y)) => x.equals(y),
        (None, None) => true,
        _ => false,
    }
}

pub open spec fn session_fault(
    id: Seq<char>,
    identity: Option<GatewayIdentity>,
    facts: SnapshotFacts,
    now: Timestamp,
) -> Option<Fault> {
    if !uuid_text(id) {
        Some(Fault::Invalid("invalid gateway incarnation"@))
    } else if identity is Some && identity_fault(identity->0, facts.identity_cluster, now) is Some {
        identity_fault(identity->0, facts.identity_cluster, now)
    } else if facts.session is Some && facts.session->0.closed {
        Some(Fault::Conflict("gateway incarnation was permanently retired"@))
    } else if facts.session is Some && !same_identity(facts.session->0.identity, identity) {
        Some(Fault::Conflict("gateway incarnation identity changed"@))
    } else if facts.session is Some && facts.session->0.sequence == i64::MAX {
        Some(Fault::Invalid("gateway sequence exhausted"@))
    } else {
        None
    }
}

pub open spec fn snapshot_fault(
    id: Seq<char>,
    identity: Option<GatewayIdentity>,
    facts: SnapshotFacts,
    entropy: Option<[u8; 32]>,
    now: Timestamp,
) -> Option<Fault> {
    if session_fault(id, identity, facts, now) is Some {
        session_fault(id, identity, facts, now)
    } else if entropy is None {
        Some(Fault::Invalid("traffic entropy unavailable"@))
    } else {
        None
    }
}

/// A session of a gateway that was not known before.
pub open spec fn new_session(
    id: Seq<char>,
    identity: Option<GatewayIdentity>,
    now: Timestamp,
    s: SessionRow,
) -> bool {
    &&& s.id@ == id
    &&& s.sequence == 0
    &&& !s.closed
    &&& s.reported is None
    &&& s.acknowledged_routes@.len() == 0
    &&& s.identity == identity
    &&& s.runtime is None
    &&& s.proof is None
    &&& s.proof_nonce is None
    &&& s.proof_until is None
    &&& s.gateway_cluster_id == match identity {
        Some(i) => Some(i.cluster_id),
        None => None,
    }
    &&& !s.proof_complete
}

/// The session may be let to pools: its container is attested, or it has no
/// identity and none is asked for.
pub open spec fn attributed(session: Option<SessionRow>, identity: Option<GatewayIdentity>, required: bool) -> bool {
    ||| session is Some && session->0.identity is Some && session->0.runtime is Some
    ||| !required && identity is None
}

pub open spec fn mark_of(p: RoutePolicy) -> RouteMark {
    RouteMark { project_id: p.project_id, model: p.model, revision: p.revision }
}

/// The version that the cluster must have acknowledged for the pool to serve.
/// While a pool grows, its old replicas go on serving.
pub open spec fn serving_version(pool: PoolRow) -> i64 {
    match pool.scale_operation {
        Some(op) if op.up => op.previous_version,
        _ => pool.desired_version,
    }
}

pub open spec fn vouches(c: ClusterRow, pool: PoolRow, now: Timestamp) -> bool {
    &&& c.id@ == pool.cluster_id@
    &&& c.trusted(now)
    &&& c.acknowledged_version >= serving_version(pool)
}

pub open spec fn vouched(clusters: Seq<ClusterRow>, pool: PoolRow, now: Timestamp) -> bool {
    exists|i: int| 0 <= i < clusters.len() && vouches(#[trigger] clusters[i], pool, now)
}

/// The pool takes requests of the gateway.
pub open spec fn accepts(
    pool: PoolRow,
    clusters: Seq<ClusterRow>,
    attributed: bool,
    now: Timestamp,
) -> bool {
    &&& pool.state == PoolState::Active
    &&& attributed
    &&& vouched(clusters, pool, now)
    &&& pool.ready(now)
}

fn is_vouched(clusters: &Vec<ClusterRow>, pool: &PoolRow, now: Timestamp) -> (r: bool)
    ensures
        r == vouched(clusters@, *pool, now),
{
    let version = match &pool.scale_operation {
        Some(op) => if op.up {
            op.previous_version
        } else {
            pool.desired_version
        },
        None => pool.desired_version,
    };
    let mut i: usize = 0;
    while i < clusters.len()
        invariant
            i <= clusters@.len(),
            version == serving_version(*pool),
            forall|j: int| 0 <= j < i ==> !vouches(#[trigger] clusters@[j], *pool, now),
        decreases clusters.len() - i,
    {
        let c = &clusters[i];
        if same(c.id.as_str(), pool.cluster_id.as_str()) && c.is_trusted(now)
            && c.acknowledged_version >= version {
            assert(vouches(clusters@[i as int], *pool, now));
            return true;
        }
        i += 1;
    }
    false
}

pub open spec fn sees(v: ViewRow, pool: Seq<char>) -> bool {
    v.pool_id@ == pool
}

pub open spec fn seen(views: Seq<ViewRow>, pool: Seq<char>) -> bool {
    exists|i: int| 0 <= i < views.len() && sees(#[trigger] views[i], pool)
}

/// What is recorded of a pool before the gateway is shown it: what it is shown
/// now where it was shown the pool before, and a new view where it may send
/// requests.
pub open spec fn recorded(
    views: Seq<ViewRow>,
    pool: PoolRow,
    session: Seq<char>,
    accepting: bool,
    out: Option<ViewRow>,
) -> bool {
    if seen(views, pool.id@) {
        out matches Some(v) && exists|i: int|
            0 <= i < views.len() && sees(#[trigger] views[i], pool.id@) && v == (ViewRow {
                delivered_generation: pool.generation,
                ..views[i]
            })
    } else if accepting {
        out matches Some(v) && v.session_id@ == session && v == (ViewRow {
            pool_id: pool.id,
            session_id: v.session_id,
            delivered_generation: pool.generation,
            acknowledged_generation: 0,
            active_requests: 0,
            retired: false,
            reported_at: None,
        })
    } else {
        out is None
    }
}

fn record(views: &Vec<ViewRow>, pool: &PoolRow, session: &str, accepting: bool) -> (r: Option<
    ViewRow,
>)
    ensures
        recorded(views@, *pool, session@, accepting, r),
{
    let mut i: usize = 0;
    while i < views.len()
        invariant
            i <= views@.len(),
            forall|j: int| 0 <= j < i ==> !sees(#[trigger] views@[j], pool.id@),
        decreases views.len() - i,
    {
        if same(views[i].pool_id.as_str(), pool.id.as_str()) {
            assert(sees(views@[i as int], pool.id@));
            return Some(
                ViewRow { delivered_generation: pool.generation, ..views[i].copy() },
            );
        }
        i += 1;
    }
    if accepting {
        Some(
            ViewRow {
                pool_id: pool.id.clone(),
                session_id: session.to_owned(),
                delivered_generation: pool.generation,
                acknowledged_generation: 0,
                active_requests: 0,
                retired: false,
                reported_at: None,
            },
        )
    } else {
        None
    }
}

/// What lets a gateway send requests: its token, and the generation of each
/// pool that took requests when it was granted.
pub struct Grant {
    pub token_hash: String,
    pub session_id: String,
    pub expires_at: Timestamp,
    pub pools: TextMap<i64>,
}

pub open spec fn control_of(
    pool: PoolRow,
    clusters: Seq<ClusterRow>,
    attributed: bool,
    now: Timestamp,
) -> PoolControl {
    PoolControl {
        id: pool.id,
        generation: pool.generation,
        accepting: accepts(pool, clusters, attributed, now),
    }
}

/// The generations of the accepting pools.
pub open spec fn granted(controls: Seq<PoolControl>) -> Map<Seq<char>, i64>
    decreases controls.len(),
{
    if controls.len() == 0 {
        Map::empty()
    } else {
        let before = granted(controls.drop_last());
        if controls.last().accepting {
            before.insert(controls.last().id@, controls.last().generation)
        } else {
            before
        }
    }
}

/// What a snapshot writes, and what the gateway gets.
pub struct Served {
    pub session: SessionRow,
    /// One for each pool, in their order.
    pub views: Vec<Option<ViewRow>>,
    pub grant: Grant,
    pub snapshot: GatewaySnapshot,
}

fn open_session(
    session: Option<SessionRow>,
    id: &str,
    identity: &Option<GatewayIdentity>,
    now: Timestamp,
) -> (r: SessionRow)
    ensures
        match session {
            Some(s) => r == s,
            None => new_session(id@, *identity, now, r),
        },
{
    match session {
        Some(s) => s,
        None => SessionRow {
            id: id.to_owned(),
            sequence: 0,
            closed: false,
            nonce: String::new(),
            reported: None,
            delivered_routes: Vec::new(),
            acknowledged_routes: Vec::new(),
            delivered_at: now,
            identity: match identity {
                Some(i) => Some(i.copy()),
                None => None,
            },
            runtime: None,
            proof: None,
            proof_nonce: None,
            proof_until: None,
            gateway_cluster_id: match identity {
                Some(i) => Some(i.cluster_id.clone()),
                None => None,
            },
            proof_complete: false,
        },
    }
}

fn mark_routes(policies: &Vec<RoutePolicy>) -> (r: Vec<RouteMark>)
    ensures
        r@ == policies@.map_values(|p: RoutePolicy| mark_of(p)),
{
    let mut out: Vec<RouteMark> = Vec::new();
    let mut i: usize = 0;
    while i < policies.len()
        invariant
            i <= policies@.len(),
            out@.len() == i,
            forall|j: int| 0 <= j < i ==> #[trigger] out@[j] == mark_of(policies@[j]),
        decreases policies.len() - i,
    {
        let p = &policies[i];
        out.push(
            RouteMark {
                project_id: p.project_id.clone(),
                model: p.model.clone(),
                revision: p.revision,
            },
        );
        i += 1;
    }
    assert(out@ =~= policies@.map_values(|p: RoutePolicy| mark_of(p)));
    out
}

/// The session after a snapshot was made for it.
pub open spec fn served_session(
    id: Seq<char>,
    identity: Option<GatewayIdentity>,
    facts: SnapshotFacts,
    now: Timestamp,
    s: SessionRow,
) -> bool {
    &&& uuid_text(s.nonce@)
    &&& s.delivered_routes@ == facts.snapshot.route_policies@.map_values(
        |p: RoutePolicy| mark_of(p),
    )
    &&& s.delivered_at == now
    &&& match facts.session {
        Some(old_session) => s == (SessionRow {
            sequence: (old_session.sequence + 1) as i64,
            nonce: s.nonce,
            reported: None,
            delivered_routes: s.delivered_routes,
            delivered_at: now,
            ..old_session
        }),
        None => s.sequence == 1 && new_session(id, identity, now, (SessionRow { sequence: 0, ..s })),
    }
}

/// A snapshot whose admission token is `token`, and what is written before it
/// leaves.
pub open spec fn served_as(
    id: Seq<char>,
    identity: Option<GatewayIdentity>,
    facts: SnapshotFacts,
    token: Seq<char>,
    now: Timestamp,
    served: Served,
) -> bool {
    let ready = attributed(facts.session, identity, facts.attribution_required);
    let pools = facts.pools@;
    &&& served_session(id, identity, facts, now, served.session)
    &&& served.views@.len() == pools.len()
    &&& forall|k: int|
        0 <= k < pools.len() ==> recorded(
            facts.views@,
            pools[k],
            id,
            accepts(pools[k], facts.clusters@, ready, now),
            #[trigger] served.views@[k],
        )
    &&& served.snapshot.generated_at == facts.snapshot.generated_at
    &&& served.snapshot.keys == facts.snapshot.keys
    &&& served.snapshot.route_policies == facts.snapshot.route_policies
    &&& served.snapshot.catalog.models == facts.snapshot.catalog.models
    &&& served.snapshot.catalog.endpoints@ == facts.snapshot.catalog.endpoints@
        + pools.map_values(|p: PoolRow| p.endpoint)
    &&& served.snapshot.traffic matches Some(traffic) && {
        &&& traffic.admission_token@ == token
        &&& traffic.session_id@ == id
        &&& traffic.sequence == served.session.sequence
        &&& traffic.nonce == served.session.nonce
        &&& traffic.lease_seconds == LEASE_SECONDS
        &&& traffic.pools@ == pools.map_values(
            |p: PoolRow| control_of(p, facts.clusters@, ready, now),
        )
        &&& served.grant.pools.wf()
        &&& served.grant.pools@ == granted(traffic.pools@)
    }
    &&& served.grant.token_hash@ == fingerprint_text(bytes_of(token))
    &&& served.grant.session_id@ == id
    &&& served.grant.expires_at == now + LEASE_SECONDS * 1_000_000
}

/// Makes the snapshot of a gateway, under the locks of the pools and of its
/// session. Draining a pool and granting it exclude each other on these locks,
/// also where the answer is lost on its way. `entropy` is what the admission
/// token is made of.
#[verifier::loop_isolation(false)]
pub fn traffic_snapshot_with(
    id: &str,
    identity: Option<GatewayIdentity>,
    facts: SnapshotFacts,
    entropy: Option<[u8; 32]>,
    now: Timestamp,
) -> (r: ServiceResult<Served>)
    requires
        clock_in_range(now),
    ensures
        refused(r, snapshot_fault(id@, identity, facts, entropy, now)),
        r matches Ok(served) ==> served_as(
            id@,
            identity,
            facts,
            base64_url_text(entropy->0@),
            now,
            served,
        ) && base64_url_text(entropy->0@).len() == 43,
{
    if !is_uuid(id) {
        return Err(invalid("invalid gateway incarnation"));
    }
    if let Some(identity) = &identity {
        validate_identity(identity, &facts.identity_cluster, now)?;
    }
    let known = facts.session.is_some();
    let session = open_session(facts.session, id, &identity, now);
    if session.closed {
        return Err(conflict("gateway incarnation was permanently retired"));
    }
    let unchanged = match (&session.identity, &identity) {
        (Some(x), Some(y)) => x.same(y),
        (None, None) => true,
        _ => false,
    };
    if !unchanged {
        assert(known);
        return Err(conflict("gateway incarnation identity changed"));
    }
    let ready = (session.identity.is_some() && session.runtime.is_some()) || (
    !facts.attribution_required && session.identity.is_none());
    let sequence = match session.sequence.checked_add(1) {
        Some(sequence) => sequence,
        None => return Err(invalid("gateway sequence exhausted")),
    };
    let entropy = match entropy {
        Some(entropy) => entropy,
        None => return Err(invalid("traffic entropy unavailable")),
    };
    let nonce = fresh_uuid();
    let token = encode_base64_url(&entropy);
    let mut snapshot = facts.snapshot;
    let session = SessionRow {
        sequence,
        nonce: nonce.clone(),
        reported: None,
        delivered_routes: mark_routes(&snapshot.route_policies),
        delivered_at: now,
        ..session
    };
    let pools = &facts.pools;
    let ghost endpoints = snapshot.catalog.endpoints@;
    let ghost control = |p: PoolRow| control_of(p, facts.clusters@, ready, now);
    let mut controls: Vec<PoolControl> = Vec::new();
    let mut views: Vec<Option<ViewRow>> = Vec::new();
    let mut grants: TextMap<i64> = TextMap::new();
    let mut added = snapshot.catalog.endpoints;
    let mut k: usize = 0;
    assert(controls@ =~= pools@.take(0).map_values(control));
    assert(added@ =~= endpoints + pools@.take(0).map_values(|p: PoolRow| p.endpoint));
    while k < pools.len()
        invariant
            k <= pools@.len(),
            controls@ == pools@.take(k as int).map_values(control),
            added@ == endpoints + pools@.take(k as int).map_values(|p: PoolRow| p.endpoint),
            views@.len() == k,
            forall|j: int|
                0 <= j < k ==> recorded(
                    facts.views@,
                    pools@[j],
                    id@,
                    accepts(pools@[j], facts.clusters@, ready, now),
                    #[trigger] views@[j],
                ),
            grants.wf(),
            grants@ == granted(controls@),
        decreases pools.len() - k,
    {
        let pool = &pools[k];
        let accepting = pool.state == PoolState::Active && ready && is_vouched(
            &facts.clusters,
            pool,
            now,
        ) && pool.is_ready(now);
        views.push(record(&facts.views, pool, id, accepting));
        let ghost before = controls@;
        controls.push(PoolControl { id: pool.id.clone(), generation: pool.generation, accepting });
        if accepting {
            grants.insert(pool.id.as_str(), pool.generation);
        }
        added.push(pool.endpoint.copy());
        proof {
            assert(controls@.drop_last() =~= before);
            assert(pools@.take(k as int + 1) =~= pools@.take(k as int).push(pools@[k as int]));
            assert(controls@ =~= pools@.take(k as int + 1).map_values(control));
            assert(added@ =~= endpoints + pools@.take(k as int + 1).map_values(
                |p: PoolRow| p.endpoint,
            ));
        }
        k += 1;
    }
    assert(pools@.take(k as int) =~= pools@);
    snapshot.catalog.endpoints = added;
    snapshot.traffic = Some(
        TrafficSnapshot {
            admission_token: token.clone(),
            session_id: id.to_owned(),
            sequence,
            nonce,
            lease_seconds: LEASE_SECONDS,
            pools: controls,
        },
    );
    let grant = Grant {
        token_hash: fingerprint(token.as_str().as_bytes()),
        session_id: id.to_owned(),
        expires_at: now + 15_000_000,
        pools: grants,
    };
    Ok(Served { session, views, grant, snapshot })
}

/// A token is the URL-safe text of 32 bytes.
pub open spec fn made_of_entropy(token: Seq<char>, random: Seq<u8>) -> bool {
    random.len() == 32 && token == base64_url_text(random)
}

/// Some 32 bytes make up the token, which has 43 characters.
pub open spec fn token_text(token: Seq<char>) -> bool {
    token.len() == 43 && exists|random: Seq<u8>| #[trigger] made_of_entropy(token, random)
}

/// Makes the snapshot of a gateway with a fresh admission token.
pub fn traffic_snapshot(
    id: &str,
    identity: Option<GatewayIdentity>,
    facts: SnapshotFacts,
    now: Timestamp,
) -> (r: ServiceResult<Served>)
    requires
        clock_in_range(now),
    ensures
        r matches Ok(served) ==> session_fault(id@, identity, facts, now) is None && served_as(
            id@,
            identity,
            facts,
            served.snapshot.traffic->0.admission_token@,
            now,
            served,
        ) && token_text(served.snapshot.traffic->0.admission_token@),
        r matches Err(e) ==> Some(e@) == snapshot_fault(id@, identity, facts, None, now),
{
    let entropy = entropy_32();
    let r = traffic_snapshot_with(id, identity, facts, entropy, now);
    proof {
        if let Some(random) = entropy {
            assert(random@.len() == 32);
            if r is Ok {
                assert(made_of_entropy(base64_url_text(random@), random@));
            }
        }
    }
    r
}

/// A session whose container must be attested and is not.
pub open spec fn unattested(s: SessionRow, required: bool) -> bool {
    s.runtime is None && (required || s.identity is Some)
}

pub open spec fn authorize_fault(
    session_id: Option<&str>,
    token: Option<&str>,
    pool_id: Option<&str>,
    grant: Option<Grant>,
    session: Option<SessionRow>,
    pool: Option<PoolRow>,
    cluster: Option<ClusterRow>,
    required: bool,
    now: Timestamp,
) -> Option<Fault> {
    if {
        &&& session_id is Some
        &&& token is Some
        &&& pool_id is Some
        &&& bytes_of(token->0@).len() == 43
        &&& uuid_text(session_id->0@)
        &&& grant matches Some(g) && g.session_id@ == session_id->0@ && g.expires_at > now
        &&& session matches Some(s) && !s.closed && !unattested(s, required)
        &&& pool matches Some(p) && p.state == PoolState::Active && p.ready(now)
        &&& grant->0.pools@.dom().contains(pool_id->0@)
        &&& grant->0.pools@[pool_id->0@] == pool->0.generation
        &&& cluster matches Some(c) && c.trusted(now)
    } {
        None
    } else {
        Some(Fault::Forbidden)
    }
}

/// The key under which the grant of a token is kept.
pub fn grant_key(token: &str) -> (r: String)
    ensures
        r@ == fingerprint_text(bytes_of(token@)),
{
    fingerprint(token.as_bytes())
}

/// Decides whether a request may enter a pool: the gateway shows its session,
/// its token and the pool, and all of them still stand as they did when the
/// token was granted.
pub fn authorize(
    session_id: Option<&str>,
    token: Option<&str>,
    pool_id: Option<&str>,
    grant: &Option<Grant>,
    session: &Option<SessionRow>,
    pool: &Option<PoolRow>,
    cluster: &Option<ClusterRow>,
    required: bool,
    now: Timestamp,
) -> (r: ServiceResult<()>)
    requires
        grant matches Some(g) ==> g.pools.wf(),
    ensures
        refused(
            r,
            authorize_fault(
                session_id,
                token,
                pool_id,
                *grant,
                *session,
                *pool,
                *cluster,
                required,
                now,
            ),
        ),
{
    let (session_id, token, pool_id) = match (session_id, token, pool_id) {
        (Some(session_id), Some(token), Some(pool_id)) => (session_id, token, pool_id),
        _ => return Err(ServiceError::Forbidden),
    };
    if byte_len(token) != 43 || !is_uuid(session_id) {
        return Err(ServiceError::Forbidden);
    }
    let grant = match grant {
        Some(grant) => grant,
        None => return Err(ServiceError::Forbidden),
    };
    if !same(grant.session_id.as_str(), session_id) || grant.expires_at <= now {
        return Err(ServiceError::Forbidden);
    }
    let session = match session {
        Some(session) => session,
        None => return Err(ServiceError::Forbidden),
    };
    if session.closed || (session.identity.is_some() && session.runtime.is_none()) {
        return Err(ServiceError::Forbidden);
    }
    let pool = match pool {
        Some(pool) => pool,
        None => return Err(ServiceError::Forbidden),
    };
    let current = match grant.pools.get(pool_id) {
        Some(generation) => *generation == pool.generation,
        None => false,
    };
    if !current || pool.state != PoolState::Active || !pool.is_ready(now) {
        return Err(ServiceError::Forbidden);
    }
    let cluster = match cluster {
        Some(cluster) => cluster,
        None => return Err(ServiceError::Forbidden),
    };
    if !cluster.is_trusted(now) || (required && session.runtime.is_none()) {
        return Err(ServiceError::Forbidden);
    }
    Ok(())
}

/// What a gateway shows of itself in the headers of a request.
pub struct ServingClaim<'a> {
    pub session_id: Option<&'a str>,
    pub token: Option<&'a str>,
    pub pool_id: Option<&'a str>,
}

/// Reads what a gateway shows, for the rows to be found under it.
pub fn serving_claim<'a>(headers: &'a http::HeaderMap<http::HeaderValue>) -> (r: ServingClaim<'a>)
    ensures
        claimed(header_values(*headers), r),
{
    ServingClaim {
        session_id: header(headers, "x-xscope-traffic-session"),
        token: header(headers, "x-xscope-traffic-token"),
        pool_id: header(headers, "x-xscope-managed-pool"),
    }
}

pub open spec fn shows(claim: Option<&str>, text: Option<Seq<char>>) -> bool {
    match claim {
        Some(c) => text == Some(c@),
        None => text is None,
    }
}

pub open spec fn claimed(values: Map<Seq<char>, Seq<Seq<u8>>>, claim: ServingClaim) -> bool {
    &&& shows(claim.session_id, first_visible(values, "x-xscope-traffic-session"@))
    &&& shows(claim.token, first_visible(values, "x-xscope-traffic-token"@))
    &&& shows(claim.pool_id, first_visible(values, "x-xscope-managed-pool"@))
}

/// Decides whether a request may enter a pool, by its headers. `grant` is the
/// one of the token, `session` and `pool` those that the headers name, and
/// `cluster` that of the pool.
pub fn authorize_serving(
    headers: &http::HeaderMap<http::HeaderValue>,
    grant: &Option<Grant>,
    session: &Option<SessionRow>,
    pool: &Option<PoolRow>,
    cluster: &Option<ClusterRow>,
    required: bool,
    now: Timestamp,
) -> (r: ServiceResult<()>)
    requires
        grant matches Some(g) ==> g.pools.wf(),
    ensures
        forall|claim: ServingClaim|
            #[trigger] claimed(header_values(*headers), claim) ==> refused(
                r,
                authorize_fault(
                    claim.session_id,
                    claim.token,
                    claim.pool_id,
                    *grant,
                    *session,
                    *pool,
                    *cluster,
                    required,
                    now,
                ),
            ),
{
    let claim = serving_claim(headers);
    let r = authorize(
        claim.session_id,
        claim.token,
        claim.pool_id,
        grant,
        session,
        pool,
        cluster,
        required,
        now,
    );
    r
}

pub open spec fn count_sound(n: u64, closed: bool) -> bool {
    n <= 1_000_000 && (closed ==> n == 0)
}

pub open spec fn counts_sound(entries: Seq<(String, u64)>, closed: bool) -> bool {
    forall|i: int| 0 <= i < entries.len() ==> count_sound((#[trigger] entries[i]).1, closed)
}

pub open spec fn same_counts(a: Seq<(String, u64)>, b: Seq<(String, u64)>) -> bool {
    &&& a.len() == b.len()
    &&& forall|i: int|
        0 <= i < a.len() ==> (#[trigger] a[i]).0@ == b[i].0@ && a[i].1 == b[i].1
}

pub open spec fn same_report_view(a: TrafficReport, b: TrafficReport) -> bool {
    &&& a.closed == b.closed
    &&& a.session_id@ == b.session_id@
    &&& a.sequence == b.sequence
    &&& a.nonce@ == b.nonce@
    &&& same_counts(a.active.entries@, b.active.entries@)
}

fn same_report(a: &TrafficReport, b: &TrafficReport) -> (r: bool)
    ensures
        r == same_report_view(*a, *b),
{
    if a.closed != b.closed || !same(a.session_id.as_str(), b.session_id.as_str()) || a.sequence
        != b.sequence || !same(a.nonce.as_str(), b.nonce.as_str()) || a.active.entries.len()
        != b.active.entries.len() {
        return false;
    }
    let mut i: usize = 0;
    while i < a.active.entries.len()
        invariant
            i <= a.active.entries@.len() == b.active.entries@.len(),
            forall|j: int|
                0 <= j < i ==> (#[trigger] a.active.entries@[j]).0@ == b.active.entries@[j].0@
                    && a.active.entries@[j].1 == b.active.entries@[j].1,
        decreases a.active.entries.len() - i,
    {
        if !same(a.active.entries[i].0.as_str(), b.active.entries[i].0.as_str())
            || a.active.entries[i].1 != b.active.entries[i].1 {
            assert(a.active.entries@[i as int].0@ != b.active.entries@[i as int].0@
                || a.active.entries@[i as int].1 != b.active.entries@[i as int].1);
            return false;
        }
        i += 1;
    }
    true
}

/// Every pool that the gateway was shown has a count.
pub open spec fn covers(active: Map<Seq<char>, u64>, views: Seq<ViewRow>) -> bool {
    forall|i: int| 0 <= i < views.len() ==> active.dom().contains((#[trigger] views[i]).pool_id@)
}

pub open spec fn traffic_report_fault(
    report: TrafficReport,
    row: Option<SessionRow>,
    views: Seq<ViewRow>,
) -> Option<Fault> {
    if !uuid_text(report.session_id@) || report.sequence <= 0 || report.active.entries@.len()
        > 10_000 || !counts_sound(report.active.entries@, report.closed) {
        Some(Fault::Invalid("invalid gateway ACK"@))
    } else if row is None {
        Some(Fault::NotFound)
    } else if row->0.sequence != report.sequence || row->0.nonce@ != report.nonce@ {
        Some(Fault::Conflict("stale gateway ACK"@))
    } else if row->0.closed {
        if report.closed && row->0.reported is Some && same_report_view(
            row->0.reported->0,
            report,
        ) {
            None
        } else {
            Some(Fault::Conflict("retired gateway cannot publish a late ACK"@))
        }
    } else if row->0.reported is Some {
        if same_report_view(row->0.reported->0, report) {
            None
        } else {
            Some(Fault::Conflict("ACK sequence is bound to a different report"@))
        }
    } else if !covers(report.active@, views) {
        Some(
            Fault::Invalid("ACK must include every exposed pool, including zero counts"@),
        )
    } else {
        None
    }
}

/// A view after the report of its gateway.
pub open spec fn reported_view(v: ViewRow, report: TrafficReport, now: Timestamp) -> ViewRow {
    ViewRow {
        acknowledged_generation: v.delivered_generation,
        retired: report.closed,
        active_requests: report.active@[v.pool_id@] as i64,
        reported_at: Some(now),
        ..v
    }
}

/// What a report writes. Without a session nothing was written: the report
/// repeated one that had been made before.
pub struct Reported {
    pub session: Option<SessionRow>,
    pub views: Vec<ViewRow>,
}

fn counts_are_sound(entries: &Vec<(String, u64)>, closed: bool) -> (r: bool)
    ensures
        r == counts_sound(entries@, closed),
{
    let mut i: usize = 0;
    while i < entries.len()
        invariant
            i <= entries@.len(),
            forall|j: int| 0 <= j < i ==> count_sound((#[trigger] entries@[j]).1, closed),
        decreases entries.len() - i,
    {
        let n: u64 = entries[i].1;
        if n > 1_000_000 || (closed && n != 0) {
            assert(!count_sound(entries@[i as int].1, closed));
            return false;
        }
        i += 1;
    }
    true
}

fn copy_marks(list: &Vec<RouteMark>) -> (r: Vec<RouteMark>)
    ensures
        r@ == list@,
{
    let mut out: Vec<RouteMark> = Vec::new();
    let mut i: usize = 0;
    while i < list.len()
        invariant
            i <= list@.len(),
            out@.len() == i,
            forall|j: int| 0 <= j < i ==> #[trigger] out@[j] == list@[j],
        decreases list.len() - i,
    {
        out.push(
            RouteMark {
                project_id: list[i].project_id.clone(),
                model: list[i].model.clone(),
                revision: list[i].revision,
            },
        );
        i += 1;
    }
    assert(out@ =~= list@);
    out
}

/// Takes the report of a gateway on the snapshot that it was shown last, under
/// the lock of its session. `views` holds the views of the session.
#[verifier::loop_isolation(false)]
pub fn traffic_report(
    report: TrafficReport,
    row: Option<SessionRow>,
    views: &Vec<ViewRow>,
    now: Timestamp,
) -> (r: ServiceResult<Reported>)
    requires
        report.active.wf(),
    ensures
        refused(r, traffic_report_fault(report, row, views@)),
        r matches Ok(done) ==> (done.session is None <==> row->0.closed || row->0.reported is Some),
        r matches Ok(done) ==> done.session is None ==> done.views@.len() == 0,
        r matches Ok(done) ==> done.session matches Some(s) ==> s.acknowledged_routes@
            == row->0.delivered_routes@ && s == (SessionRow {
            acknowledged_routes: s.acknowledged_routes,
            closed: report.closed,
            reported: Some(report),
            ..row->0
        }) && done.views@ == views@.map_values(|v: ViewRow| reported_view(v, report, now)),
{
    if !is_uuid(report.session_id.as_str()) || report.sequence <= 0 || report.active.entries.len()
        > 10_000 || !counts_are_sound(&report.active.entries, report.closed) {
        return Err(invalid("invalid gateway ACK"));
    }
    let row = match row {
        Some(row) => row,
        None => return Err(ServiceError::NotFound),
    };
    if row.sequence != report.sequence || !same(row.nonce.as_str(), report.nonce.as_str()) {
        return Err(conflict("stale gateway ACK"));
    }
    let repeated = match &row.reported {
        Some(previous) => same_report(previous, &report),
        None => false,
    };
    if row.closed {
        if report.closed && repeated {
            return Ok(Reported { session: None, views: Vec::new() });
        }
        return Err(conflict("retired gateway cannot publish a late ACK"));
    }
    if row.reported.is_some() {
        if !repeated {
            return Err(conflict("ACK sequence is bound to a different report"));
        }
        return Ok(Reported { session: None, views: Vec::new() });
    }
    let mut out: Vec<ViewRow> = Vec::new();
    let mut i: usize = 0;
    while i < views.len()
        invariant
            i <= views@.len(),
            out@.len() == i,
            forall|j: int|
                0 <= j < i ==> report.active@.dom().contains((#[trigger] views@[j]).pool_id@),
            forall|j: int|
                0 <= j < i ==> #[trigger] out@[j] == reported_view(views@[j], report, now),
        decreases views.len() - i,
    {
        let v = &views[i];
        let count: u64 = match report.active.get(v.pool_id.as_str()) {
            Some(count) => *count,
            None => {
                assert(!report.active@.dom().contains(views@[i as int].pool_id@));
                return Err(
                    invalid("ACK must include every exposed pool, including zero counts"),
                );
            },
        };
        proof {
            lemma_count(report.active, report.closed, v.pool_id@);
        }
        out.push(
            ViewRow {
                acknowledged_generation: v.delivered_generation,
                retired: report.closed,
                active_requests: count as i64,
                reported_at: Some(now),
                ..v.copy()
            },
        );
        i += 1;
    }
    assert(out@ =~= views@.map_values(|v: ViewRow| reported_view(v, report, now)));
    let acknowledged_routes = copy_marks(&row.delivered_routes);
    let session = SessionRow {
        acknowledged_routes,
        closed: report.closed,
        reported: Some(report),
        ..row
    };
    Ok(Reported { session: Some(session), views: out })
}

/// A count that is there is a sound one.
proof fn lemma_count(active: TextMap<u64>, closed: bool, pool: Seq<char>)
    requires
        active.wf(),
        counts_sound(active.entries@, closed),
        active@.dom().contains(pool),
    ensures
        count_sound(active@[pool], closed),
{
    let i = choose|i: int| #[trigger] crate::collections::holds_key(active.entries@, pool, i);
    crate::collections::lemma_entry(active.entries@, i);
}

/// No pool takes requests of a gateway that is not recorded as a participant
/// of its generation.
pub proof fn law_accepting_pools_have_a_participant(
    views: Seq<ViewRow>,
    pool: PoolRow,
    session: Seq<char>,
    out: Option<ViewRow>,
)
    requires
        recorded(views, pool, session, true, out),
    ensures
        out matches Some(v) && v.pool_id@ == pool.id@ && v.delivered_generation == pool.generation,
{
}

/// Draining a pool voids every grant of it, however long it would still last.
pub proof fn law_draining_voids_grants(
    session_id: Option<&str>,
    token: Option<&str>,
    pool_id: Option<&str>,
    grant: Option<Grant>,
    session: Option<SessionRow>,
    pool: PoolRow,
    cluster: Option<ClusterRow>,
    required: bool,
    drained_at: Timestamp,
    now: Timestamp,
)
    requires
        pool.generation < i64::MAX,
        pool.state == PoolState::Active || pool.state == PoolState::Pending,
    ensures
        authorize_fault(
            session_id,
            token,
            pool_id,
            grant,
            session,
            Some(moved(pool, "drain"@, drained_at)),
            cluster,
            required,
            now,
        ) == Some(Fault::Forbidden),
{
}

/// A grant is good for one generation: when the pool has gone on, it is void
/// also after the pool was opened again.
pub proof fn law_grants_are_bound_to_a_generation(
    session_id: Option<&str>,
    token: Option<&str>,
    pool_id: &str,
    grant: Grant,
    session: Option<SessionRow>,
    pool: PoolRow,
    cluster: Option<ClusterRow>,
    required: bool,
    now: Timestamp,
)
    requires
        !grant.pools@.dom().contains(pool_id@) || grant.pools@[pool_id@] != pool.generation,
    ensures
        authorize_fault(
            session_id,
            token,
            Some(pool_id),
            Some(grant),
            session,
            Some(pool),
            cluster,
            required,
            now,
        ) == Some(Fault::Forbidden),
{
}

/// Once a gateway is closed, it stays closed: no snapshot is made for it any
/// more.
pub proof fn law_retired_gateways_stay_retired(
    id: Seq<char>,
    identity: Option<GatewayIdentity>,
    facts: SnapshotFacts,
    entropy: Option<[u8; 32]>,
    now: Timestamp,
)
    requires
        facts.session is Some,
        facts.session->0.closed,
    ensures
        snapshot_fault(id, identity, facts, entropy, now) is Some,
{
}

/// A route is acknowledged by a gateway that has acknowledged this revision of it or a later
/// one, and by one that is retired; by nobody else.
pub proof fn law_routes_are_acknowledged_by_revision(
    s: SessionRow,
    project: Seq<char>,
    model: Seq<char>,
    revision: i64,
    a: RouteAck,
)
    requires
        ack_of(s, project, model, revision, a),
    ensures
        a.acknowledged <==> s.closed || exists|i: int|
            0 <= i < s.acknowledged_routes@.len() && (
            #[trigger] s.acknowledged_routes@[i]).project_id@ == project
                && s.acknowledged_routes@[i].model@ == model && s.acknowledged_routes@[i].revision
                >= revision,
        a.retired == s.closed,
{
    if a.acknowledged && !s.closed {
        let i = choose|i: int|
            0 <= i < s.acknowledged_routes@.len() && marks(
                #[trigger] s.acknowledged_routes@[i],
                project,
                model,
            ) && s.acknowledged_routes@[i].revision >= revision;
        assert(s.acknowledged_routes@[i].project_id@ == project);
    }
    if exists|i: int|
        0 <= i < s.acknowledged_routes@.len() && (#[trigger] s.acknowledged_routes@[i]).project_id@
            == project && s.acknowledged_routes@[i].model@ == model
            && s.acknowledged_routes@[i].revision >= revision {
        let i = choose|i: int|
            0 <= i < s.acknowledged_routes@.len() && (
            #[trigger] s.acknowledged_routes@[i]).project_id@ == project
                && s.acknowledged_routes@[i].model@ == model && s.acknowledged_routes@[i].revision
                >= revision;
        assert(marks(s.acknowledged_routes@[i], project, model));
    }
}

/// A snapshot is served only to a gateway that is not retired and is who it was.
pub proof fn law_snapshots_are_served_to_the_same_gateway(
    id: Seq<char>,
    identity: Option<GatewayIdentity>,
    facts: SnapshotFacts,
    entropy: Option<[u8; 32]>,
    now: Timestamp,
)
    requires
        snapshot_fault(id, identity, facts, entropy, now) is None,
    ensures
        uuid_text(id),
        entropy is Some,
        facts.session is Some ==> !facts.session->0.closed && facts.session->0.sequence < i64::MAX,
        facts.session is Some && identity is None ==> facts.session->0.identity is None,
        facts.session is Some && identity is Some ==> facts.session->0.identity is Some
            && facts.session->0.identity->0.equals(identity->0),
{
}

/// Every snapshot is one later than the one before, starts without a report, and is granted
/// for as long as its lease: to this gateway, and for the pools that accept.
pub proof fn law_every_snapshot_has_a_new_sequence(
    id: Seq<char>,
    identity: Option<GatewayIdentity>,
    facts: SnapshotFacts,
    token: Seq<char>,
    now: Timestamp,
    served: Served,
)
    requires
        served_as(id, identity, facts, token, now, served),
        facts.session is Some ==> facts.session->0.sequence < i64::MAX,
    ensures
        served.session.sequence == if facts.session is Some {
            facts.session->0.sequence + 1
        } else {
            1
        },
        served.session.reported is None,
        served.session.delivered_at == now,
        served.snapshot.traffic is Some,
        served.snapshot.traffic->0.sequence == served.session.sequence,
        served.snapshot.traffic->0.session_id@ == id,
        served.grant.session_id@ == id,
        served.grant.expires_at == now + served.snapshot.traffic->0.lease_seconds * 1_000_000,
        served.snapshot.keys == facts.snapshot.keys,
        served.snapshot.route_policies == facts.snapshot.route_policies,
        served.snapshot.catalog.endpoints@.len() == facts.snapshot.catalog.endpoints@.len()
            + facts.pools@.len(),
{
}

/// A pool accepts exactly if it is open and fresh, the gateway is attributed, and the cluster
/// of the pool is trusted and has acknowledged the revision that serves.
pub proof fn law_pools_accept_on_fresh_proof(
    pool: PoolRow,
    clusters: Seq<ClusterRow>,
    attributed: bool,
    now: Timestamp,
)
    requires
        control_of(pool, clusters, attributed, now).accepting,
    ensures
        pool.state == PoolState::Active,
        attributed,
        pool.ready_until is Some && now < pool.ready_until->0,
        exists|i: int|
            0 <= i < clusters.len() && (#[trigger] clusters[i]).id@ == pool.cluster_id@
                && clusters[i].trusted(now) && clusters[i].acknowledged_version >= if
                pool.scale_operation is Some && pool.scale_operation->0.up {
                pool.scale_operation->0.previous_version
            } else {
                pool.desired_version
            },
        control_of(pool, clusters, attributed, now).generation == pool.generation,
{
    let i = choose|i: int| 0 <= i < clusters.len() && vouches(#[trigger] clusters[i], pool, now);
    assert(clusters[i].id@ == pool.cluster_id@);
}

/// A grant holds the pools that accept, each in its generation, and no other.
pub proof fn law_grants_hold_the_accepting_pools(controls: Seq<PoolControl>, k: Seq<char>)
    ensures
        granted(controls).dom().contains(k) <==> exists|i: int|
            0 <= i < controls.len() && (#[trigger] controls[i]).id@ == k && controls[i].accepting,
        granted(controls).dom().contains(k) ==> exists|i: int|
            0 <= i < controls.len() && (#[trigger] controls[i]).id@ == k && controls[i].accepting
                && controls[i].generation == granted(controls)[k],
    decreases controls.len(),
{
    if controls.len() > 0 {
        let rest = controls.drop_last();
        law_grants_hold_the_accepting_pools(rest, k);
        let last = controls.len() - 1;
        assert(controls[last] == controls.last());
        assert forall|i: int| 0 <= i < rest.len() implies rest[i] == controls[i] by {}
        if exists|i: int|
            0 <= i < controls.len() && (#[trigger] controls[i]).id@ == k && controls[i].accepting {
            let i = choose|i: int|
                0 <= i < controls.len() && (#[trigger] controls[i]).id@ == k
                    && controls[i].accepting;
            if i < last {
                assert(rest[i].id@ == k && rest[i].accepting);
            }
        }
        if granted(controls).dom().contains(k) && !(controls.last().accepting
            && controls.last().id@ == k) {
            let i = choose|i: int|
                0 <= i < rest.len() && (#[trigger] rest[i]).id@ == k && rest[i].accepting
                    && rest[i].generation == granted(rest)[k];
            assert(controls[i].id@ == k);
        }
    }
}

/// A request is let through to a pool only under a grant of its own session that has not run
/// out, from a gateway that is neither retired nor unattested where that is asked for, to a
/// pool that is open and fresh in the very generation of the grant, on a trusted cluster.
pub proof fn law_requests_are_let_through_on_a_live_grant(
    session_id: Option<&str>,
    token: Option<&str>,
    pool_id: Option<&str>,
    grant: Option<Grant>,
    session: Option<SessionRow>,
    pool: Option<PoolRow>,
    cluster: Option<ClusterRow>,
    required: bool,
    now: Timestamp,
)
    ensures
        authorize_fault(
            session_id,
            token,
            pool_id,
            grant,
            session,
            pool,
            cluster,
            required,
            now,
        ) is None <==> {
            &&& session_id is Some && token is Some && pool_id is Some
            &&& grant is Some && session is Some && pool is Some && cluster is Some
            &&& bytes_of(token->0@).len() == 43
            &&& uuid_text(session_id->0@)
            &&& grant->0.session_id@ == session_id->0@
            &&& now < grant->0.expires_at
            &&& !session->0.closed
            &&& session->0.runtime is Some || (!required && session->0.identity is None)
            &&& pool->0.state == PoolState::Active
            &&& pool->0.ready_until is Some && now < pool->0.ready_until->0
            &&& grant->0.pools@.dom().contains(pool_id->0@)
            &&& grant->0.pools@[pool_id->0@] == pool->0.generation
            &&& cluster->0.trusted(now)
        },
{
}

/// A report is taken once, of the snapshot that was last served, and only if it counts every
/// pool that was shown; a gateway that closes reports nothing in flight. Repeating it word for
/// word is no fault.
pub proof fn law_reports_are_of_the_last_snapshot(
    report: TrafficReport,
    row: Option<SessionRow>,
    views: Seq<ViewRow>,
)
    requires
        traffic_report_fault(report, row, views) is None,
    ensures
        row is Some,
        row->0.sequence == report.sequence,
        row->0.nonce@ == report.nonce@,
        report.sequence > 0,
        report.active.entries@.len() < 10_001,
        forall|i: int|
            0 <= i < report.active.entries@.len() ==> (#[trigger] report.active.entries@[i]).1
                < 1_000_001 && (report.closed ==> report.active.entries@[i].1 == 0),
        row->0.closed ==> report.closed && row->0.reported is Some,
        row->0.reported is Some ==> row->0.reported->0.sequence == report.sequence
            && row->0.reported->0.closed == report.closed && row->0.reported->0.nonce@
            == report.nonce@ && row->0.reported->0.active.entries@.len()
            == report.active.entries@.len(),
        !row->0.closed && row->0.reported is None ==> forall|i: int|
            0 <= i < views.len() ==> report.active@.dom().contains(
                (#[trigger] views[i]).pool_id@,
            ),
{
    assert forall|i: int| 0 <= i < report.active.entries@.len() implies (
    #[trigger] report.active.entries@[i]).1 < 1_000_001 && (report.closed
        ==> report.active.entries@[i].1 == 0) by {
        assert(count_sound(report.active.entries@[i].1, report.closed));
    }
}

/// A report acknowledges what was delivered and says what is in flight, and a gateway that
/// closes is retired from then on.
pub proof fn law_reports_acknowledge_what_was_delivered(
    v: ViewRow,
    report: TrafficReport,
    now: Timestamp,
)
    requires
        report.active@[v.pool_id@] <= 1_000_000,
    ensures
        ({
            let next = reported_view(v, report, now);
            &&& next.acknowledged_generation == v.delivered_generation
            &&& next.delivered_generation == v.delivered_generation
            &&& next.active_requests == report.active@[v.pool_id@]
            &&& next.retired == report.closed
            &&& next.pool_id == v.pool_id
            &&& next.session_id == v.session_id
            &&& next.reported_at == Some(now)
        }),
{
}

/// A snapshot carries the token that it is granted under, of which only the digest is kept, the
/// entries of the managed pools behind those of the catalog, and for each of them whether it
/// accepts; whatever accepts is recorded as seen by this gateway.
pub proof fn law_snapshots_carry_their_grant(
    id: Seq<char>,
    identity: Option<GatewayIdentity>,
    facts: SnapshotFacts,
    token: Seq<char>,
    now: Timestamp,
    served: Served,
    k: int,
)
    requires
        served_as(id, identity, facts, token, now, served),
        0 <= k < facts.pools@.len(),
    ensures
        served.snapshot.traffic->0.admission_token@ == token,
        served.grant.token_hash@ == fingerprint_text(bytes_of(token)),
        served.snapshot.traffic->0.nonce == served.session.nonce,
        uuid_text(served.session.nonce@),
        served.snapshot.traffic->0.pools@.len() == facts.pools@.len(),
        served.snapshot.traffic->0.pools@[k].id == facts.pools@[k].id,
        served.snapshot.traffic->0.pools@[k].generation == facts.pools@[k].generation,
        served.snapshot.traffic->0.pools@[k].accepting ==> facts.pools@[k].state
            == PoolState::Active && served.views@[k] is Some && served.views@[k]->0.pool_id@
            == facts.pools@[k].id@ && served.views@[k]->0.delivered_generation
            == facts.pools@[k].generation,
        served.snapshot.catalog.endpoints@[facts.snapshot.catalog.endpoints@.len() + k]
            == facts.pools@[k].endpoint,
        served.snapshot.catalog.models == facts.snapshot.catalog.models,
        served.session.delivered_routes@.len() == facts.snapshot.route_policies@.len(),
{
    let ready = attributed(facts.session, identity, facts.attribution_required);
    assert(recorded(
        facts.views@,
        facts.pools@[k],
        id,
        accepts(facts.pools@[k], facts.clusters@, ready, now),
        served.views@[k],
    ));
}

/// The routes that a gateway was shown are those of the snapshot, each in its revision.
pub proof fn law_shown_routes_are_remembered(
    id: Seq<char>,
    identity: Option<GatewayIdentity>,
    facts: SnapshotFacts,
    now: Timestamp,
    s: SessionRow,
    i: int,
)
    requires
        served_session(id, identity, facts, now, s),
        0 <= i < facts.snapshot.route_policies@.len(),
    ensures
        s.delivered_routes@[i].project_id == facts.snapshot.route_policies@[i].project_id,
        s.delivered_routes@[i].model == facts.snapshot.route_policies@[i].model,
        s.delivered_routes@[i].revision == facts.snapshot.route_policies@[i].revision,
        facts.session is Some ==> s.acknowledged_routes == facts.session->0.acknowledged_routes
            && s.identity == facts.session->0.identity && s.runtime == facts.session->0.runtime
            && s.closed == facts.session->0.closed,
        facts.session is None ==> !s.closed && s.identity == identity && s.runtime is None,
{
}

/// A claim is what its three headers say, and nothing where one of them says nothing.
pub proof fn law_claims_are_read_from_their_headers(
    values: Map<Seq<char>, Seq<Seq<u8>>>,
    claim: ServingClaim,
)
    requires
        claimed(values, claim),
    ensures
        claim.session_id is Some <==> first_visible(values, "x-xscope-traffic-session"@) is Some,
        claim.token is Some <==> first_visible(values, "x-xscope-traffic-token"@) is Some,
        claim.pool_id is Some <==> first_visible(values, "x-xscope-managed-pool"@) is Some,
        claim.session_id is Some ==> claim.session_id->0@ == first_visible(
            values,
            "x-xscope-traffic-session"@,
        )->0,
        claim.token is Some ==> claim.token->0@ == first_visible(
            values,
            "x-xscope-traffic-token"@,
        )->0,
        claim.pool_id is Some ==> claim.pool_id->0@ == first_visible(
            values,
            "x-xscope-managed-pool"@,
        )->0,
{
}

} // verus!
