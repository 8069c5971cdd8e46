//! The inbound API of a cluster: who may call it, what may be changed, and what
//! the caller is told when Kubernetes refuses.
use crate::crypto::{digest, same_bytes, sha256};
use crate::domain::Timestamp;
use crate::text::{bytes_of, join, same};
use vstd::prelude::*;

verus! {

/// How a call to Kubernetes failed: with an answer of its API, or without one.
#[derive(Clone, Debug)]
pub enum KubeError {
    Api { code: u16, message: String },
    Unreachable,
}

#[derive(Clone, Debug)]
pub enum AgentError {
    Invalid(String),
    Conflict(String),
    Kube(KubeError),
}

/// What a caller is told of an error.
#[derive(Debug)]
pub struct ErrorReply {
    pub status: u16,
    pub code: &'static str,
    pub message: String,
}

pub open spec fn tells(
    reply: ErrorReply,
    status: int,
    code: Seq<char>,
    message: Seq<char>,
) -> bool {
    reply.status == status && reply.code@ == code && reply.message@ == message
}

/// What a caller is told of an error. Only refusals of the request itself carry
/// words of Kubernetes.
pub fn into_response(error: AgentError) -> (r: ErrorReply)
    ensures
        match error {
            AgentError::Invalid(message) => tells(r, 400, "invalid_request"@, message@),
            AgentError::Conflict(message) => tells(r, 409, "conflict"@, message@),
            AgentError::Kube(KubeError::Api { code, message }) => if code == 404 {
                tells(
                    r,
                    404,
                    "not_found"@,
                    "model deployment not found or CRD not installed"@,
                )
            } else if code == 409 {
                tells(
                    r,
                    409,
                    "conflict"@,
                    "resource already exists or was concurrently modified"@,
                )
            } else if code == 400 || code == 422 {
                tells(r, 400, "invalid_request"@, message@)
            } else {
                tells(r, 503, "cluster_unavailable"@, "Kubernetes API is unavailable"@)
            },
            AgentError::Kube(KubeError::Unreachable) => tells(
                r,
                503,
                "cluster_unavailable"@,
                "Kubernetes API is unavailable"@,
            ),
        },
{
    match error {
        AgentError::Invalid(message) => ErrorReply {
            status: 400,
            code: "invalid_request",
            message,
        },
        AgentError::Conflict(message) => ErrorReply { status: 409, code: "conflict", message },
        AgentError::Kube(KubeError::Api { code, message }) => if code == 404 {
            ErrorReply {
                status: 404,
                code: "not_found",
                message: "model deployment not found or CRD not installed".to_owned(),
            }
        } else if code == 409 {
            ErrorReply {
                status: 409,
                code: "conflict",
                message: "resource already exists or was concurrently modified".to_owned(),
            }
        } else if code == 400 || code == 422 {
            ErrorReply { status: 400, code: "invalid_request", message }
        } else {
            ErrorReply {
                status: 503,
                code: "cluster_unavailable",
                message: "Kubernetes API is unavailable".to_owned(),
            }
        },
        AgentError::Kube(KubeError::Unreachable) => ErrorReply {
            status: 503,
            code: "cluster_unavailable",
            message: "Kubernetes API is unavailable".to_owned(),
        },
    }
}

/// A refusal of a caller that did not show the internal token.
#[derive(Clone, Copy, Debug)]
pub struct AuthRefusal {
    pub status: u16,
    pub code: &'static str,
}

/// Lets in who shows the internal token. Without a token nobody is let in. The
/// digests are compared, so that the time tells nothing of the token.
pub fn authenticate(token: &str, authorization: Option<&[u8]>) -> (r: Result<(), AuthRefusal>)
    ensures
        if token@.len() == 0 {
            r matches Err(refusal) && refusal.status == 503 && refusal.code@
                == "internal_auth_unavailable"@
        } else if sha256(bytes_of("Bearer "@ + token@)) == sha256(
            match authorization {
                Some(bytes) => bytes@,
                None => Seq::empty(),
            },
        ) {
            r is Ok
        } else {
            r matches Err(refusal) && refusal.status == 401 && refusal.code@
                == "invalid_internal_token"@
        },
{
    if token.is_empty() {
        return Err(AuthRefusal { status: 503, code: "internal_auth_unavailable" });
    }
    let bearer = join("Bearer ", token);
    let expected = digest(bearer.as_str().as_bytes());
    let empty: [u8; 0] = [];
    assert(empty@ =~= Seq::<u8>::empty());
    let candidate = match authorization {
        Some(bytes) => digest(bytes),
        None => digest(&empty),
    };
    if !same_bytes(&expected, &candidate) {
        return Err(AuthRefusal { status: 401, code: "invalid_internal_token" });
    }
    Ok(())
}

/// Whether a route is traced; probes are not.
pub fn is_traced(route: &str) -> (r: bool)
    ensures
        r == (route@ != "/healthz"@ && route@ != "/readyz"@),
{
    !same(route, "/healthz") && !same(route, "/readyz")
}

/// The outcome that a trace is closed with.
pub fn traced_outcome(status: u16) -> (r: &'static str)
    ensures
        r@ == if status >= 500 {
            "provider_error"@
        } else if status >= 400 {
            "rejected"@
        } else {
            "succeeded"@
        },
{
    if status >= 500 {
        "provider_error"
    } else if status >= 400 {
        "rejected"
    } else {
        "succeeded"
    }
}

/// The namespace of a request that names none, or an empty one.
pub open spec fn namespace_text(namespace: Option<String>) -> Seq<char> {
    match namespace {
        Some(text) => if text@.len() == 0 {
            "xscope-system"@
        } else {
            text@
        },
        None => "xscope-system"@,
    }
}

pub fn namespace_or_default(namespace: Option<String>) -> (r: String)
    ensures
        r@ == namespace_text(namespace),
{
    match namespace {
        Some(text) => if text.as_str().is_empty() {
            "xscope-system".to_owned()
        } else {
            text
        },
        None => "xscope-system".to_owned(),
    }
}

/// One was created later than the other. What has no time comes before all that
/// have one.
pub open spec fn later(a: Option<Timestamp>, b: Option<Timestamp>) -> bool {
    match (a, b) {
        (Some(x), Some(y)) => x > y,
        (Some(_), None) => true,
        (None, _) => false,
    }
}

fn is_later(a: Option<Timestamp>, b: Option<Timestamp>) -> (r: bool)
    ensures
        r == later(a, b),
{
    match (a, b) {
        (Some(x), Some(y)) => x > y,
        (Some(_), None) => true,
        (None, _) => false,
    }
}

/// The position of one deployment stands before that of another in the list: it
/// was created later, or at the same time and came first.
pub open spec fn listed_before(times: Seq<Option<Timestamp>>, a: int, b: int) -> bool {
    later(times[a], times[b]) || (times[a] == times[b] && a < b)
}

/// The list holds the positions from zero up to `n`, each once, in order.
pub open spec fn newest_first(times: Seq<Option<Timestamp>>, order: Seq<usize>, n: int) -> bool {
    &&& order.len() == n
    &&& forall|i: int| 0 <= i < n ==> 0 <= #[trigger] order[i] < n
    &&& forall|i: int, j: int|
        0 <= i < j < n ==> listed_before(
            times,
            (#[trigger] order[i]) as int,
            (#[trigger] order[j]) as int,
        )
}

/// The order in which deployments are listed: the newest first, and those of the
/// same time as they came.
pub fn listing_order(times: &Vec<Option<Timestamp>>) -> (r: Vec<usize>)
    ensures
        newest_first(times@, r@, times@.len() as int),
{
    let mut order: Vec<usize> = Vec::new();
    let mut n: usize = 0;
    while n < times.len()
        invariant
            n <= times@.len(),
            newest_first(times@, order@, n as int),
        decreases times@.len() - n,
    {
        // Everything that is listed came before this one, so that it stands
        // behind all but those that were created earlier.
        let mut p: usize = order.len();
        while p > 0 && is_later(times[n], times[order[p - 1]])
            invariant
                p <= order@.len() == n < times@.len(),
                newest_first(times@, order@, n as int),
                forall|i: int|
                    p <= i < n ==> later(times@[n as int], times@[(#[trigger] order@[i]) as int]),
            decreases p,
        {
            p -= 1;
        }
        let ghost before = order@;
        order.insert(p, n);
        proof {
            assert(order@ =~= before.insert(p as int, n));
            assert forall|i: int| 0 <= i < n + 1 implies 0 <= #[trigger] order@[i] < n + 1 by {
                if i < p {
                    assert(order@[i] == before[i]);
                } else if i > p {
                    assert(order@[i] == before[i - 1]);
                }
            }
            assert forall|i: int, j: int| 0 <= i < j < n + 1 implies listed_before(
                times@,
                (#[trigger] order@[i]) as int,
                (#[trigger] order@[j]) as int,
            ) by {
                if j < p {
                    assert(order@[i] == before[i] && order@[j] == before[j]);
                } else if j == p {
                    assert(order@[i] == before[i]);
                    let q = before[p - 1] as int;
                    assert(!later(times@[n as int], times@[q]));
                    if i < p - 1 {
                        assert(listed_before(times@, before[i] as int, before[p - 1] as int));
                    }
                } else if i == p {
                    assert(order@[j] == before[j - 1]);
                } else {
                    assert(order@[j] == before[j - 1]);
                    if i < p {
                        assert(order@[i] == before[i]);
                    } else {
                        assert(order@[i] == before[i - 1]);
                    }
                }
            }
        }
        n += 1;
    }
    order
}

/// What a client may set of a deployment besides its name and specification, and
/// what only the cluster may.
#[derive(Clone, Debug)]
pub struct Metadata {
    pub namespace: Option<String>,
    pub uid: Option<String>,
    pub resource_version: Option<String>,
    pub has_owners: bool,
    pub has_managed_fields: bool,
    pub has_status: bool,
}

/// The metadata of a deployment before it is validated: its namespace is the
/// usual one where it names none.
pub fn with_namespace(metadata: Metadata) -> (r: Metadata)
    ensures
        r.namespace is Some,
        r.namespace->0@ == namespace_text(metadata.namespace),
        r == (Metadata { namespace: r.namespace, ..metadata }),
{
    Metadata { namespace: Some(namespace_or_default(metadata.namespace)), ..metadata }
}

/// A new deployment, once its specification was validated: a resource of its
/// own, never with a status or ownership that a client supplied.
pub fn create(metadata: Metadata, validation: Result<(), AgentError>) -> (r: Result<
    Metadata,
    AgentError,
>)
    ensures
        match validation {
            Err(error) => r == Err::<Metadata, AgentError>(error),
            Ok(()) => if metadata.namespace is None {
                r is Err && r->Err_0 is Invalid && r->Err_0->Invalid_0@
                    == "namespace missing after validation"@
            } else {
                r == Ok::<Metadata, AgentError>(
                    Metadata {
                        namespace: metadata.namespace,
                        uid: None,
                        resource_version: None,
                        has_owners: false,
                        has_managed_fields: false,
                        has_status: false,
                    },
                )
            },
        },
{
    if let Err(error) = validation {
        return Err(error);
    }
    match metadata.namespace {
        None => Err(AgentError::Invalid("namespace missing after validation".to_owned())),
        Some(namespace) => Ok(
            Metadata {
                namespace: Some(namespace),
                uid: None,
                resource_version: None,
                has_owners: false,
                has_managed_fields: false,
                has_status: false,
            },
        ),
    }
}

/// What is wrong with a change before Kubernetes is asked: its body, the name of
/// the namespace, the name of the deployment, in this order.
pub fn check_target(
    body_read: bool,
    namespace: Result<(), String>,
    name: Result<(), String>,
) -> (r: Result<(), AgentError>)
    ensures
        if !body_read {
            r is Err && r->Err_0 is Invalid && r->Err_0->Invalid_0@ == "invalid JSON body"@
        } else if namespace is Err {
            r == Err::<(), AgentError>(AgentError::Invalid(namespace->Err_0))
        } else if name is Err {
            r == Err::<(), AgentError>(AgentError::Invalid(name->Err_0))
        } else {
            r is Ok
        },
{
    if !body_read {
        return Err(AgentError::Invalid("invalid JSON body".to_owned()));
    }
    if let Err(message) = namespace {
        return Err(AgentError::Invalid(message));
    }
    if let Err(message) = name {
        return Err(AgentError::Invalid(message));
    }
    Ok(())
}

/// Whether a deployment may be updated: the request names the version that is
/// there.
pub fn fence_update(requested: &str, current: &Option<String>) -> (r: Result<(), AgentError>)
    ensures
        if requested@.len() > 0 && (current matches Some(version) && version@ == requested@) {
            r is Ok
        } else {
            r is Err && r->Err_0 is Conflict && r->Err_0->Conflict_0@
                == "resourceVersion changed; reload before updating deployment"@
        },
{
    let matching = match current {
        Some(version) => same(version.as_str(), requested),
        None => false,
    };
    if requested.is_empty() || !matching {
        return Err(
            AgentError::Conflict(
                "resourceVersion changed; reload before updating deployment".to_owned(),
            ),
        );
    }
    Ok(())
}

/// Whether a number of replicas can be asked for.
pub fn check_replicas(replicas: i32) -> (r: Result<(), AgentError>)
    ensures
        if replicas < 0 {
            r is Err && r->Err_0 is Invalid && r->Err_0->Invalid_0@
                == "replicas must be non-negative"@
        } else {
            r is Ok
        },
{
    if replicas < 0 {
        return Err(AgentError::Invalid("replicas must be non-negative".to_owned()));
    }
    Ok(())
}

/// Whether a deployment may be scaled by hand: not while it scales itself.
pub fn manual_scale(autoscaled: bool) -> (r: Result<(), AgentError>)
    ensures
        if autoscaled {
            r is Err && r->Err_0 is Invalid && r->Err_0->Invalid_0@
                == "disable autoscaling before manually scaling replicas"@
        } else {
            r is Ok
        },
{
    if autoscaled {
        return Err(
            AgentError::Invalid(
                "disable autoscaling before manually scaling replicas".to_owned(),
            ),
        );
    }
    Ok(())
}

/// What a removal comes to. A deployment that is not there is removed.
pub fn removed(result: Result<(), KubeError>) -> (r: Result<(), AgentError>)
    ensures
        match result {
            Ok(()) => r is Ok,
            Err(error) => if error matches KubeError::Api { code, .. } && code == 404 {
                r is Ok
            } else {
                r == Err::<(), AgentError>(AgentError::Kube(error))
            },
        },
{
    match result {
        Ok(()) => Ok(()),
        Err(KubeError::Api { code, message }) => if code == 404 {
            Ok(())
        } else {
            Err(AgentError::Kube(KubeError::Api { code, message }))
        },
        Err(KubeError::Unreachable) => Err(AgentError::Kube(KubeError::Unreachable)),
    }
}

/// The order lists every deployment, and none twice.
pub proof fn law_listings_are_complete(times: Seq<Option<Timestamp>>, order: Seq<usize>)
    requires
        newest_first(times, order, times.len() as int),
    ensures
        order.no_duplicates(),
        forall|k: usize| k < times.len() ==> #[trigger] order.contains(k),
{
    assert forall|i: int, j: int| 0 <= i < j < order.len() implies #[trigger] order[i]
        != #[trigger] order[j] by {
        assert(listed_before(times, order[i] as int, order[j] as int));
    }
    let positions = order.map_values(|p: usize| p as int);
    let all = vstd::set_lib::set_int_range(0, times.len() as int);
    vstd::set_lib::lemma_int_range(0, times.len() as int);
    assert(positions.no_duplicates());
    positions.unique_seq_to_set();
    assert(positions.to_set().subset_of(all)) by {
        assert forall|k: int| positions.to_set().contains(k) implies all.contains(k) by {
            let i = choose|i: int| 0 <= i < positions.len() && positions[i] == k;
            assert(order[i] == k);
        }
    }
    vstd::set_lib::lemma_subset_equality(positions.to_set(), all);
    assert forall|k: usize| k < times.len() implies #[trigger] order.contains(k) by {
        assert(all.contains(k as int));
        assert(positions.contains(k as int));
        let i = choose|i: int| 0 <= i < positions.len() && positions[i] == k as int;
        assert(order[i] == k);
    }
}

/// What was made later is listed first, and what has no time last; things of one time keep
/// their order.
pub proof fn law_later_things_are_listed_first(
    times: Seq<Option<Timestamp>>,
    order: Seq<usize>,
    i: int,
    j: int,
)
    requires
        newest_first(times, order, times.len() as int),
        0 <= i < j < times.len(),
    ensures
        times[order[j] as int] is Some ==> times[order[i] as int] is Some
            && times[order[i] as int]->0 >= times[order[j] as int]->0,
        times[order[i] as int] == times[order[j] as int] ==> order[i] < order[j],
{
    assert(listed_before(times, order[i] as int, order[j] as int));
}

} // verus!
