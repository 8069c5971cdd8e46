//! From a request to its pool: which route it takes, whether its key lets it in,
//! and where it is served. None of the routing controls of a client crosses the
//! gateway.
use crate::collections::{text_before, TextMap};
use crate::crypto::{fresh_bits, fresh_uuid, uuid_text};
use crate::domain::catalog::{CatalogModel, CatalogSnapshot, ServingEndpoint};
use crate::domain::routing::{chosen, HeaderRoute, RoutePolicySpec};
use crate::domain::traffic::{managed, managed_name, TrafficSnapshot};
use crate::domain::{Model, Timestamp};
use crate::gateway::auth::{
    count_request, counted, policy_for, window_at, DynamicKeySet, Principal, RateWindow,
};
use crate::gateway::config::ServingConfig;
use crate::gateway::traffic::{self, control_of, entry_fault, Traffic};
use crate::gateway::{http_refusal, minute_value, Refusal, Why};
use crate::headers::{
    all_values, byte_views, first_visible, header, header_values, lowered, values_of,
};
use crate::json::{array, elements, error_body, json_of, text, told_error, Json, Record};
use crate::text::{byte_len, bytes_of, join, listed, same, starts_with};
use vstd::prelude::*;

verus! {

/// The most bytes that are read of a request or kept of a response.
pub const MAX_CAPTURE_BYTES: usize = 1_048_576;

/// Where a request goes within the gateway.
#[derive(Clone, Copy, Debug, PartialEq, Eq, Structural)]
pub enum Route {
    Health,
    Ready,
    Models,
    ChatCompletions,
    Completions,
    Unknown,
}

pub open spec fn route_of(method: Seq<char>, path: Seq<char>) -> Route {
    if method == "GET"@ && path == "/healthz"@ {
        Route::Health
    } else if method == "GET"@ && path == "/readyz"@ {
        Route::Ready
    } else if method == "GET"@ && path == "/v1/models"@ {
        Route::Models
    } else if method == "POST"@ && path == "/v1/chat/completions"@ {
        Route::ChatCompletions
    } else if method == "POST"@ && path == "/v1/completions"@ {
        Route::Completions
    } else {
        Route::Unknown
    }
}

pub fn route(method: &str, path: &str) -> (r: Route)
    ensures
        r == route_of(method@, path@),
{
    if same(method, "GET") && same(path, "/healthz") {
        Route::Health
    } else if same(method, "GET") && same(path, "/readyz") {
        Route::Ready
    } else if same(method, "GET") && same(path, "/v1/models") {
        Route::Models
    } else if same(method, "POST") && same(path, "/v1/chat/completions") {
        Route::ChatCompletions
    } else if same(method, "POST") && same(path, "/v1/completions") {
        Route::Completions
    } else {
        Route::Unknown
    }
}

/// The route that a trace is filed under; probes are not traced.
pub fn trace_route(path: &str) -> (r: Option<&'static str>)
    ensures
        match r {
            None => path@ == "/healthz"@ || path@ == "/readyz"@,
            Some(route) => {
                &&& path@ != "/healthz"@
                &&& path@ != "/readyz"@
                &&& route@ == if path@ == "/v1/chat/completions"@ || path@ == "/v1/completions"@
                    || path@ == "/v1/models"@ {
                    path@
                } else {
                    "unmatched"@
                }
            },
        },
{
    if same(path, "/healthz") || same(path, "/readyz") {
        None
    } else if same(path, "/v1/chat/completions") {
        Some("/v1/chat/completions")
    } else if same(path, "/v1/completions") {
        Some("/v1/completions")
    } else if same(path, "/v1/models") {
        Some("/v1/models")
    } else {
        Some("unmatched")
    }
}

/// The body of a reply of the gateway itself.
pub enum ReplyBody {
    Status { status: &'static str, component: Option<&'static str> },
    Error { code: &'static str, message: Option<&'static str> },
    Models(Vec<String>),
}

/// The models of a listing.
pub open spec fn listed_models(ids: Seq<String>) -> Json {
    Json::Array(
        ids.map_values(
            |id: String|
                Json::Object(
                    map!["id"@ => Json::Text(id@), "object"@ => Json::Text("model"@)],
                ),
        ),
    )
}

impl ReplyBody {
    /// What a client sees.
    pub open spec fn shown(self) -> Json {
        match self {
            ReplyBody::Status { status, component } => Json::Object(
                match component {
                    Some(component) => map![
                        "status"@ => Json::Text(status@),
                        "component"@ => Json::Text(component@),
                    ],
                    None => map!["status"@ => Json::Text(status@)],
                },
            ),
            ReplyBody::Error { code, message } => told_error(
                code@,
                match message {
                    Some(message) => Some(message@),
                    None => None,
                },
            ),
            ReplyBody::Models(ids) => Json::Object(
                map![
                    "object"@ => Json::Text("list"@),
                    "data"@ => listed_models(ids@),
                ],
            ),
        }
    }

    /// Writes what a client sees.
    pub fn to_json(&self) -> (r: serde_json::Value)
        ensures
            json_of(r) == self.shown(),
    {
        match self {
            ReplyBody::Status { status, component } => {
                let record = Record::new().with("status", text(*status));
                match component {
                    Some(component) => record.with("component", text(*component)).done(),
                    None => record.done(),
                }
            },
            ReplyBody::Error { code, message } => error_body(*code, *message),
            ReplyBody::Models(ids) => {
                let mut models: Vec<serde_json::Value> = Vec::new();
                for i in 0..ids.len()
                    invariant
                        models@.len() == i,
                        forall|k: int|
                            0 <= k < i ==> json_of(#[trigger] models@[k]) == Json::Object(
                                map![
                                    "id"@ => Json::Text(ids@[k]@),
                                    "object"@ => Json::Text("model"@),
                                ],
                            ),
                {
                    models.push(
                        Record::new().with("id", text(ids[i].as_str())).with(
                            "object",
                            text("model"),
                        ).done(),
                    );
                }
                assert(Json::Array(elements(models@)) == listed_models(ids@)) by {
                    assert(elements(models@) =~= ids@.map_values(
                        |id: String|
                            Json::Object(
                                map!["id"@ => Json::Text(id@), "object"@ => Json::Text("model"@)],
                            ),
                    ));
                }
                Record::new().with("object", text("list")).with("data", array(models)).done()
            },
        }
    }
}

pub struct Reply {
    pub status: u16,
    pub body: ReplyBody,
}

pub open spec fn is_error(reply: Reply, status: int, code: Seq<char>, message: Seq<char>) -> bool {
    &&& reply.status == status
    &&& reply.body is Error
    &&& reply.body->code@ == code
    &&& reply.body->message matches Some(text) && text@ == message
}

fn error_reply(status: u16, code: &'static str, message: &'static str) -> (r: Reply)
    ensures
        is_error(r, status as int, code@, message@),
{
    Reply { status, body: ReplyBody::Error { code, message: Some(message) } }
}

/// The answer to the liveness probe.
pub open spec fn health_reply(r: Reply) -> bool {
    &&& r.status == 200
    &&& r.body matches ReplyBody::Status { status, component: Some(component) } && status@ == "ok"@
        && component@ == "gateway"@
}

pub fn health() -> (r: Reply)
    ensures
        health_reply(r),
{
    Reply { status: 200, body: ReplyBody::Status { status: "ok", component: Some("gateway") } }
}

/// The answer to a route that there is not.
pub fn not_found() -> (r: Reply)
    ensures
        is_error(r, 404, "not_found"@, "route not found"@),
{
    error_reply(404, "not_found", "route not found")
}

/// Usage can be reported, and the workers of financial admission are up where
/// there are any.
pub fn delivery_healthy(usage_ready: bool, billing: Option<bool>) -> (r: bool)
    ensures
        r == (usage_ready && billing != Some(false)),
{
    usage_ready && match billing {
        Some(healthy) => healthy,
        None => true,
    }
}

/// The answer to the readiness probe. With a catalog the outage of one model
/// does not take the gateway away from all the others.
pub open spec fn readiness_reply(
    delivery_healthy: bool,
    keys: DynamicKeySet,
    serving_ready: bool,
    r: Reply,
) -> bool {
    if !delivery_healthy {
        is_error(r, 503, "not_ready"@, "usage reporting unavailable"@)
    } else if keys.current.credentials@.len() == 0 {
        is_error(r, 503, "not_ready"@, "no API keys configured"@)
    } else if keys.current.catalog is None && !serving_ready {
        is_error(r, 503, "not_ready"@, "no healthy serving endpoint"@)
    } else {
        r.status == 200 && (r.body matches ReplyBody::Status { status, component: None } && status@
            == "ready"@)
    }
}

pub fn readiness(delivery_healthy: bool, keys: &DynamicKeySet, serving_ready: bool) -> (r: Reply)
    ensures
        readiness_reply(delivery_healthy, *keys, serving_ready, r),
{
    if !delivery_healthy {
        error_reply(503, "not_ready", "usage reporting unavailable")
    } else if keys.is_empty() {
        error_reply(503, "not_ready", "no API keys configured")
    } else if !keys.has_catalog() && !serving_ready {
        error_reply(503, "not_ready", "no healthy serving endpoint")
    } else {
        Reply { status: 200, body: ReplyBody::Status { status: "ready", component: None } }
    }
}

/// The models of a catalog that a key may use, in the order of the catalog.
pub open spec fn catalog_ids(models: Seq<CatalogModel>, allowed: Seq<String>) -> Seq<Seq<char>>
    decreases models.len(),
{
    if models.len() == 0 {
        Seq::empty()
    } else {
        let rest = catalog_ids(models.drop_last(), allowed);
        if models.last().enabled && listed(allowed, models.last().model.id@) {
            rest.push(models.last().model.id@)
        } else {
            rest
        }
    }
}

pub open spec fn views(list: Seq<String>) -> Seq<Seq<char>> {
    list.map_values(|s: String| s@)
}

/// Some pool serves the model, and the key may use it.
pub open spec fn offers(
    transports: Seq<(String, ServingConfig)>,
    allowed: Seq<String>,
    model: Seq<char>,
) -> bool {
    exists|i: int|
        0 <= i < transports.len() && #[trigger] transports[i].1.model@ == model && listed(
            allowed,
            model,
        )
}

/// The list is the set of models that `offered` says, in ascending order.
pub open spec fn lists(ids: Seq<String>, offered: spec_fn(Seq<char>) -> bool) -> bool {
    &&& forall|i: int, j: int|
        0 <= i < j < ids.len() ==> text_before(#[trigger] ids[i]@, #[trigger] ids[j]@)
    &&& forall|model: Seq<char>| #[trigger] listed(ids, model) <==> offered(model)
}

fn catalog_models(models: &Vec<CatalogModel>, principal: &Principal) -> (r: Vec<String>)
    ensures
        views(r@) == catalog_ids(models@, principal.allowed_models@),
{
    let mut ids: Vec<String> = Vec::new();
    let mut i: usize = 0;
    assert(views(ids@) =~= catalog_ids(models@.take(0), principal.allowed_models@));
    while i < models.len()
        invariant
            i <= models.len(),
            views(ids@) == catalog_ids(models@.take(i as int), principal.allowed_models@),
        decreases models.len() - i,
    {
        let entry = &models[i];
        let ghost before = ids@;
        assert(models@.take(i as int + 1).drop_last() =~= models@.take(i as int));
        if entry.enabled && principal.allows_model(entry.model.id.as_str()) {
            ids.push(entry.model.id.clone());
            assert(views(ids@) =~= views(before).push(entry.model.id@));
        }
        i += 1;
    }
    assert(models@.take(models@.len() as int) =~= models@);
    ids
}

fn pool_models(transports: &TextMap<ServingConfig>, principal: &Principal) -> (r: Vec<String>)
    ensures
        lists(
            r@,
            |model: Seq<char>|
                offers(transports.entries@, principal.allowed_models@, model),
        ),
{
    let mut set: TextMap<bool> = TextMap::new();
    let mut i: usize = 0;
    while i < transports.entries.len()
        invariant
            i <= transports.entries.len(),
            set.wf(),
            forall|model: Seq<char>|
                #[trigger] set@.dom().contains(model) <==> offers(
                    transports.entries@.take(i as int),
                    principal.allowed_models@,
                    model,
                ),
        decreases transports.entries.len() - i,
    {
        let model = transports.entries[i].1.model.as_str();
        let ghost before = set@;
        let allowed = principal.allows_model(model);
        if allowed {
            set.insert(model, true);
        }
        proof {
            let now = transports.entries@.take(i as int + 1);
            let past = transports.entries@.take(i as int);
            assert forall|m: Seq<char>| #[trigger] set@.dom().contains(m) <==> offers(
                now,
                principal.allowed_models@,
                m,
            ) by {
                assert(before.dom().contains(m) <==> offers(past, principal.allowed_models@, m));
                if offers(past, principal.allowed_models@, m) {
                    let k = choose|k: int|
                        0 <= k < past.len() && #[trigger] past[k].1.model@ == m && listed(
                            principal.allowed_models@,
                            m,
                        );
                    assert(now[k].1.model@ == m);
                }
                if offers(now, principal.allowed_models@, m) {
                    let k = choose|k: int|
                        0 <= k < now.len() && #[trigger] now[k].1.model@ == m && listed(
                            principal.allowed_models@,
                            m,
                        );
                    if k < i {
                        assert(past[k].1.model@ == m);
                    }
                }
                assert(now[i as int].1.model@ == model@);
            }
        }
        i += 1;
    }
    assert(transports.entries@.take(transports.entries@.len() as int) =~= transports.entries@);
    let mut ids: Vec<String> = Vec::new();
    let mut j: usize = 0;
    while j < set.entries.len()
        invariant
            j <= set.entries.len(),
            ids@.len() == j,
            forall|k: int| 0 <= k < j ==> #[trigger] ids@[k] == set.entries@[k].0,
        decreases set.entries.len() - j,
    {
        ids.push(set.entries[j].0.clone());
        j += 1;
    }
    proof {
        assert forall|model: Seq<char>| #[trigger] listed(ids@, model) <==> offers(
            transports.entries@,
            principal.allowed_models@,
            model,
        ) by {
            if listed(ids@, model) {
                let k = choose|k: int| 0 <= k < ids@.len() && #[trigger] ids@[k]@ == model;
                crate::collections::lemma_entry(set.entries@, k);
                assert(set@.dom().contains(model));
            }
            if set@.dom().contains(model) {
                let k = choose|k: int|
                    #[trigger] crate::collections::holds_key(set.entries@, model, k);
                assert(ids@[k]@ == model);
            }
        }
    }
    ids
}

/// The list of the models that a key may use.
pub open spec fn models_reply(
    principal: Option<&Principal>,
    catalog: Option<&CatalogSnapshot>,
    transports: TextMap<ServingConfig>,
    r: Reply,
) -> bool {
    match principal {
        None => r.status == 401 && r.body is Error && r.body->code@ == "invalid_api_key"@
            && r.body->message is None,
        Some(principal) => {
            &&& r.status == 200
            &&& r.body is Models
            &&& match catalog {
                Some(catalog) => views(r.body->Models_0@) == catalog_ids(
                    catalog.models@,
                    principal.allowed_models@,
                ),
                None => lists(
                    r.body->Models_0@,
                    |model: Seq<char>|
                        offers(transports.entries@, principal.allowed_models@, model),
                ),
            }
        },
    }
}

pub fn list_models(
    principal: Option<&Principal>,
    catalog: Option<&CatalogSnapshot>,
    transports: &TextMap<ServingConfig>,
) -> (r: Reply)
    ensures
        models_reply(principal, catalog, *transports, r),
{
    let principal = match principal {
        Some(principal) => principal,
        None => return Reply {
            status: 401,
            body: ReplyBody::Error { code: "invalid_api_key", message: None },
        },
    };
    let ids = match catalog {
        Some(catalog) => catalog_models(&catalog.models, principal),
        None => pool_models(transports, principal),
    };
    Reply { status: 200, body: ReplyBody::Models(ids) }
}

/// The scope that an inference API needs.
pub open spec fn scope_of(text_completion: bool) -> Seq<char> {
    if text_completion {
        "completions"@
    } else {
        "chat.completions"@
    }
}

/// A request that its key does not let in, by anything but how often it asks.
pub open spec fn barred(
    delivery_healthy: bool,
    principal: Option<&Principal>,
    text_completion: bool,
) -> Option<(int, Seq<char>, Seq<char>)> {
    if !delivery_healthy {
        Some(
            (
                503,
                "usage_delivery_unavailable"@,
                "usage delivery is full, stale or unhealthy"@,
            ),
        )
    } else {
        match principal {
            None => Some((401, "invalid_api_key"@, "a valid Bearer API key is required"@)),
            Some(principal) => if !listed(principal.scopes@, scope_of(text_completion)) {
                Some(
                    (403, "insufficient_scope"@, "API key does not allow this inference API"@),
                )
            } else if principal.exhausted_budget() {
                Some((402, "budget_exhausted"@, "API key monthly budget is exhausted"@))
            } else if principal.exhausted_funds() {
                Some(
                    (
                        402,
                        "insufficient_balance"@,
                        "the project's prepaid balance is exhausted"@,
                    ),
                )
            } else {
                None
            },
        }
    }
}

/// Whether the key of a request lets it in. Without a distributed quota the
/// gateway counts the requests of the minute itself.
pub fn screen(
    delivery_healthy: bool,
    principal: Option<&Principal>,
    text_completion: bool,
    distributed: bool,
    windows: &mut TextMap<RateWindow>,
    timestamp: i64,
) -> (r: Result<(), Reply>)
    requires
        old(windows).wf(),
    ensures
        final(windows).wf(),
        match barred(delivery_healthy, principal, text_completion) {
            Some((status, code, message)) => {
                &&& r is Err
                &&& is_error(r->Err_0, status, code, message)
                &&& *final(windows) == *old(windows)
            },
            None => {
                let key = principal->0.api_key_id@;
                let minute = minute_value(timestamp as int) as i64;
                if distributed {
                    r is Ok && *final(windows) == *old(windows)
                } else {
                    &&& final(windows)@ == counted(
                        old(windows)@,
                        key,
                        principal->0.rate_limit_rpm,
                        minute,
                    )
                    &&& if window_at(old(windows)@, key, minute).count
                        < principal->0.rate_limit_rpm {
                        r is Ok
                    } else {
                        r is Err && is_error(
                            r->Err_0,
                            429,
                            "rate_limit_exceeded"@,
                            "API key request-per-minute limit exceeded"@,
                        )
                    }
                }
            },
        },
{
    if !delivery_healthy {
        return Err(
            error_reply(
                503,
                "usage_delivery_unavailable",
                "usage delivery is full, stale or unhealthy",
            ),
        );
    }
    let principal = match principal {
        Some(principal) => principal,
        None => return Err(
            error_reply(401, "invalid_api_key", "a valid Bearer API key is required"),
        ),
    };
    let scope = if text_completion {
        "completions"
    } else {
        "chat.completions"
    };
    if !principal.has_scope(scope) {
        return Err(
            error_reply(403, "insufficient_scope", "API key does not allow this inference API"),
        );
    }
    if principal.budget_exhausted() {
        return Err(
            error_reply(402, "budget_exhausted", "API key monthly budget is exhausted"),
        );
    }
    if principal.funds_exhausted() {
        return Err(
            error_reply(
                402,
                "insufficient_balance",
                "the project's prepaid balance is exhausted",
            ),
        );
    }
    if !distributed && !count_request(windows, principal, timestamp) {
        return Err(
            error_reply(
                429,
                "rate_limit_exceeded",
                "API key request-per-minute limit exceeded",
            ),
        );
    }
    Ok(())
}

/// The answer where the outbox has no slot for a request.
pub fn no_usage_slot() -> (r: Reply)
    ensures
        is_error(
            r,
            503,
            "usage_reporting_unavailable"@,
            "usage reporting capacity unavailable"@,
        ),
{
    error_reply(503, "usage_reporting_unavailable", "usage reporting capacity unavailable")
}

/// Adds a part of a body to what was read of it, within the bound.
pub fn extend_body(body: &mut Vec<u8>, chunk: &[u8]) -> (r: Result<(), Refusal>)
    requires
        old(body)@.len() <= MAX_CAPTURE_BYTES,
    ensures
        final(body)@.len() <= MAX_CAPTURE_BYTES,
        match r {
            Ok(()) => old(body)@.len() + chunk@.len() <= MAX_CAPTURE_BYTES && final(body)@
                == old(body)@ + chunk@,
            Err(refusal) => {
                &&& old(body)@.len() + chunk@.len() > MAX_CAPTURE_BYTES
                &&& refusal@ == (Why { status: Some(413), message: "request body exceeds 1 MiB"@ })
                &&& final(body)@ == old(body)@
            },
        },
{
    if chunk.len() > MAX_CAPTURE_BYTES - body.len() {
        return Err(http_refusal(413, "request body exceeds 1 MiB"));
    }
    body.extend_from_slice(chunk);
    Ok(())
}

/// How the reading of a body ended.
#[derive(Clone, Copy, Debug, PartialEq, Eq, Structural)]
pub enum BodyEnd {
    Complete,
    DeadlinePassed,
    Truncated,
}

pub fn body_end(end: BodyEnd) -> (r: Result<(), Refusal>)
    ensures
        match end {
            BodyEnd::Complete => r is Ok,
            BodyEnd::DeadlinePassed => r is Err && r->Err_0@ == (Why {
                status: Some(408),
                message: "request body deadline exceeded"@,
            }),
            BodyEnd::Truncated => r is Err && r->Err_0@ == (Why {
                status: Some(413),
                message: "request exceeds transport buffer"@,
            }),
        },
{
    match end {
        BodyEnd::Complete => Ok(()),
        BodyEnd::DeadlinePassed => Err(http_refusal(408, "request body deadline exceeded")),
        BodyEnd::Truncated => Err(http_refusal(413, "request exceeds transport buffer")),
    }
}

/// A header names the cohort: it has this value once, byte for byte. The case of
/// its name does not matter.
pub open spec fn rule_matches(values: Map<Seq<char>, Seq<Seq<u8>>>, rule: HeaderRoute) -> bool {
    values_of(values, rule.name@) == seq![bytes_of(rule.value@)]
}

fn equal_bytes(a: &[u8], b: &[u8]) -> (r: bool)
    ensures
        r == (a@ == b@),
{
    if a.len() != b.len() {
        return false;
    }
    let mut i: usize = 0;
    while i < a.len()
        invariant
            i <= a.len(),
            a@.len() == b@.len(),
            forall|j: int| 0 <= j < i ==> a@[j] == b@[j],
        decreases a.len() - i,
    {
        if a[i] != b[i] {
            return false;
        }
        i += 1;
    }
    assert(a@ =~= b@);
    true
}

pub fn header_matches(
    headers: &http::HeaderMap<http::HeaderValue>,
    rule: &HeaderRoute,
) -> (r: bool)
    ensures
        r == rule_matches(header_values(*headers), *rule),
{
    let values = all_values(headers, rule.name.as_str());
    let ghost seen = byte_views(values@);
    assert(seen.len() == values@.len());
    if values.len() != 1 {
        return false;
    }
    let equal = equal_bytes(values[0].as_slice(), rule.value.as_str().as_bytes());
    proof {
        assert(seen[0] == values@[0]@);
        assert(seen =~= seq![values@[0]@]);
        if !equal {
            assert(seen[0] != seq![bytes_of(rule.value@)][0]);
        }
    }
    equal
}

/// The pool that a policy sends a request to, and why: the first rule that
/// matches decides, and the roll where none does.
pub open spec fn policy_choice(
    spec: RoutePolicySpec,
    values: Map<Seq<char>, Seq<Seq<u8>>>,
    roll: int,
    from: int,
) -> (Seq<char>, Seq<char>)
    decreases spec.headers@.len() - from,
{
    if 0 <= from < spec.headers@.len() && !rule_matches(values, spec.headers@[from]) {
        policy_choice(spec, values, roll, from + 1)
    } else {
        chosen(spec, from, roll)
    }
}

proof fn lemma_policy_choice(
    spec: RoutePolicySpec,
    values: Map<Seq<char>, Seq<Seq<u8>>>,
    roll: int,
    from: int,
    first: int,
)
    requires
        0 <= from <= first <= spec.headers@.len(),
        forall|i: int| from <= i < first ==> !rule_matches(values, #[trigger] spec.headers@[i]),
        first < spec.headers@.len() ==> rule_matches(values, spec.headers@[first]),
    ensures
        policy_choice(spec, values, roll, from) == chosen(spec, first, roll),
    decreases first - from,
{
    if from < first {
        lemma_policy_choice(spec, values, roll, from + 1, first);
    }
}

/// The model of a catalog, if it is there and enabled.
pub open spec fn enabled_model(models: Seq<CatalogModel>, id: Seq<char>) -> Option<CatalogModel>
    decreases models.len(),
{
    if models.len() == 0 {
        None
    } else if models.first().model.id@ == id && models.first().enabled {
        Some(models.first())
    } else {
        enabled_model(models.drop_first(), id)
    }
}

fn find_model<'a>(models: &'a Vec<CatalogModel>, id: &str) -> (r: Option<&'a CatalogModel>)
    ensures
        match r {
            Some(entry) => enabled_model(models@, id@) == Some(*entry),
            None => enabled_model(models@, id@) is None,
        },
{
    let mut i: usize = 0;
    assert(models@.skip(0) =~= models@);
    while i < models.len()
        invariant
            i <= models.len(),
            enabled_model(models@, id@) == enabled_model(models@.skip(i as int), id@),
        decreases models.len() - i,
    {
        assert(models@.skip(i as int).drop_first() =~= models@.skip(i as int + 1));
        if same(models[i].model.id.as_str(), id) && models[i].enabled {
            return Some(&models[i]);
        }
        i += 1;
    }
    None
}

/// The serving entry of a pool, if the catalog has it.
pub open spec fn endpoint_of(endpoints: Seq<ServingEndpoint>, id: Seq<char>) -> Option<
    ServingEndpoint,
>
    decreases endpoints.len(),
{
    if endpoints.len() == 0 {
        None
    } else if endpoints.first().id@ == id {
        Some(endpoints.first())
    } else {
        endpoint_of(endpoints.drop_first(), id)
    }
}

fn find_endpoint<'a>(endpoints: &'a Vec<ServingEndpoint>, id: &str) -> (r: Option<
    &'a ServingEndpoint,
>)
    ensures
        match r {
            Some(entry) => endpoint_of(endpoints@, id@) == Some(*entry),
            None => endpoint_of(endpoints@, id@) is None,
        },
{
    let mut i: usize = 0;
    assert(endpoints@.skip(0) =~= endpoints@);
    while i < endpoints.len()
        invariant
            i <= endpoints.len(),
            endpoint_of(endpoints@, id@) == endpoint_of(endpoints@.skip(i as int), id@),
        decreases endpoints.len() - i,
    {
        assert(endpoints@.skip(i as int).drop_first() =~= endpoints@.skip(i as int + 1));
        if same(endpoints[i].id.as_str(), id) {
            return Some(&endpoints[i]);
        }
        i += 1;
    }
    None
}

/// The pools that serve a model.
pub open spec fn serving_pools(
    transports: Seq<(String, ServingConfig)>,
    model: Seq<char>,
) -> Seq<(String, ServingConfig)> {
    transports.filter(|t: (String, ServingConfig)| t.1.model@ == model)
}

/// The pool of a model that has just one.
pub open spec fn sole_pool(
    transports: Seq<(String, ServingConfig)>,
    model: Seq<char>,
) -> Option<Seq<char>> {
    let pools = serving_pools(transports, model);
    if pools.len() == 1 {
        Some(pools[0].1.id@)
    } else {
        None
    }
}

fn find_sole_pool<'a>(transports: &'a TextMap<ServingConfig>, model: &str) -> (r: Option<&'a str>)
    ensures
        match r {
            Some(id) => sole_pool(transports.entries@, model@) == Some(id@),
            None => sole_pool(transports.entries@, model@) is None,
        },
{
    let ghost serves = |t: (String, ServingConfig)| t.1.model@ == model@;
    let mut found: Option<&'a str> = None;
    let mut many = false;
    let mut i: usize = 0;
    assert(transports.entries@.take(0).filter(serves) =~= Seq::<(String, ServingConfig)>::empty());
    while i < transports.entries.len()
        invariant
            i <= transports.entries.len(),
            serves == |t: (String, ServingConfig)| t.1.model@ == model@,
            ({
                let pools = transports.entries@.take(i as int).filter(serves);
                &&& many <==> pools.len() > 1
                &&& found is None <==> pools.len() == 0
                &&& found matches Some(id) ==> id@ == pools[0].1.id@
            }),
        decreases transports.entries.len() - i,
    {
        proof {
            broadcast use Seq::lemma_filter_push;

            let entry = transports.entries@[i as int];
            let past = transports.entries@.take(i as int);
            assert(transports.entries@.take(i as int + 1) == past.push(entry));
            assert(past.push(entry).filter(serves) == if serves(entry) {
                past.filter(serves).push(entry)
            } else {
                past.filter(serves)
            });
        }
        if same(transports.entries[i].1.model.as_str(), model) {
            if found.is_none() {
                found = Some(transports.entries[i].1.id.as_str());
            } else {
                many = true;
            }
        }
        i += 1;
    }
    assert(transports.entries@.take(transports.entries@.len() as int) =~= transports.entries@);
    if many {
        None
    } else {
        found
    }
}

/// Where a request is served.
pub struct Selection {
    pub pool_id: String,
    pub reason: &'static str,
    pub policy_revision: i64,
    pub model_revision: String,
    pub model: Option<Model>,
    pub endpoint: Option<ServingEndpoint>,
}

/// What pools there are: those of the catalog, the one that this gateway was set
/// up with, and all that it can reach.
pub struct Pools<'a> {
    pub catalog: Option<&'a CatalogSnapshot>,
    pub serving: &'a ServingConfig,
    pub transports: &'a TextMap<ServingConfig>,
}

/// A selection with its texts spelled out.
pub ghost struct Choice {
    pub pool: Seq<char>,
    pub reason: Seq<char>,
    pub policy_revision: i64,
    pub model_revision: Seq<char>,
    pub model: Option<Model>,
    pub endpoint: Option<ServingEndpoint>,
}

impl View for Selection {
    type V = Choice;

    open spec fn view(&self) -> Choice {
        Choice {
            pool: self.pool_id@,
            reason: self.reason@,
            policy_revision: self.policy_revision,
            model_revision: self.model_revision@,
            model: self.model,
            endpoint: self.endpoint,
        }
    }
}

pub open spec fn unavailable(message: Seq<char>) -> Why {
    Why { status: Some(503), message }
}

/// The pool of a model where no policy says otherwise.
pub open spec fn default_pool(pools: Pools, model: Seq<char>) -> Option<Seq<char>> {
    match pools.catalog {
        Some(catalog) => match enabled_model(catalog.models@, model) {
            Some(entry) => match entry.default_pool {
                Some(pool) => Some(pool@),
                None => None,
            },
            None => None,
        },
        None => if pools.serving.model@ == model {
            Some(pools.serving.id@)
        } else {
            sole_pool(pools.transports.entries@, model)
        },
    }
}

/// The pool of a request, the reason for it and the revision of the policy that
/// gave it.
pub open spec fn pool_choice(
    principal: Principal,
    model: Seq<char>,
    pools: Pools,
    values: Map<Seq<char>, Seq<Seq<u8>>>,
    roll: int,
) -> Option<(Seq<char>, Seq<char>, i64)> {
    match policy_for(principal.route_policies@, model) {
        Some(policy) => {
            let choice = policy_choice(policy.spec, values, roll, 0);
            Some((choice.0, choice.1, policy.revision))
        },
        None => match default_pool(pools, model) {
            Some(pool) => Some((pool, "default"@, 0)),
            None => None,
        },
    }
}

/// Where a request is served, or why it is not.
pub open spec fn selection_of(
    principal: Principal,
    model: Seq<char>,
    pools: Pools,
    values: Map<Seq<char>, Seq<Seq<u8>>>,
    roll: int,
) -> Result<Choice, Why> {
    let entry: Option<CatalogModel> = match pools.catalog {
        Some(catalog) => enabled_model(catalog.models@, model),
        None => None,
    };
    if !listed(principal.allowed_models@, model) {
        Err(Why { status: Some(403), message: "API key does not allow the requested model"@ })
    } else if pools.catalog is Some && entry is None {
        Err(Why { status: Some(404), message: "model is unknown or disabled"@ })
    } else {
        match pool_choice(principal, model, pools, values, roll) {
            None => Err(unavailable("model has no default serving pool"@)),
            Some((pool, reason, policy_revision)) => {
                let endpoint: Option<ServingEndpoint> = match pools.catalog {
                    Some(catalog) => endpoint_of(catalog.endpoints@, pool),
                    None => None,
                };
                let selected: Option<Model> = match entry {
                    Some(entry) => Some(entry.model),
                    None => None,
                };
                if endpoint is Some {
                    if endpoint->0.model@ != model {
                        Err(unavailable("pool model does not match request"@))
                    } else {
                        Ok(
                            Choice {
                                pool,
                                reason,
                                policy_revision,
                                model_revision: endpoint->0.revision@,
                                model: selected,
                                endpoint,
                            },
                        )
                    }
                } else if pools.transports@.dom().contains(pool)
                    && pools.transports@[pool].model@ == model {
                    Ok(
                        Choice {
                            pool,
                            reason,
                            policy_revision,
                            model_revision: pools.transports@[pool].revision@,
                            model: selected,
                            endpoint: None,
                        },
                    )
                } else {
                    Err(unavailable("selected model pool is unavailable"@))
                }
            },
        }
    }
}

pub open spec fn choice_agrees(r: Result<Selection, Refusal>, expected: Result<Choice, Why>) -> bool {
    match (r, expected) {
        (Ok(selection), Ok(choice)) => selection@ == choice,
        (Err(refusal), Err(why)) => refusal@ == why,
        _ => false,
    }
}

/// Chooses the pool of a request. `roll` is entropy of the gateway below a
/// hundred.
pub fn select_pool(
    principal: &Principal,
    model: &str,
    pools: &Pools,
    headers: &http::HeaderMap<http::HeaderValue>,
    roll: u8,
) -> (r: Result<Selection, Refusal>)
    requires
        pools.transports.wf(),
    ensures
        choice_agrees(
            r,
            selection_of(*principal, model@, *pools, header_values(*headers), roll as int),
        ),
{
    if !principal.allows_model(model) {
        return Err(http_refusal(403, "API key does not allow the requested model"));
    }
    let mut selected: Option<Model> = None;
    let fallback: Option<&str> = match pools.catalog {
        Some(catalog) => match find_model(&catalog.models, model) {
            Some(entry) => {
                selected = Some(entry.model.copy());
                match &entry.default_pool {
                    Some(pool) => Some(pool.as_str()),
                    None => None,
                }
            },
            None => return Err(http_refusal(404, "model is unknown or disabled")),
        },
        None => if same(pools.serving.model.as_str(), model) {
            Some(pools.serving.id.as_str())
        } else {
            find_sole_pool(pools.transports, model)
        },
    };
    let mut policy_revision: i64 = 0;
    let (pool, reason): (&str, &'static str) = match principal.route_policy(model) {
        Some(policy) => {
            policy_revision = policy.revision;
            let matching = |rule: &HeaderRoute| -> (matched: bool)
                ensures
                    matched == rule_matches(header_values(*headers), *rule),
                { header_matches(headers, rule) };
            let choice = policy.spec.select(matching, roll);
            proof {
                let first = choose|first: int|
                    0 <= first <= policy.spec.headers@.len() && (forall|i: int|
                        0 <= i < first ==> !rule_matches(
                            header_values(*headers),
                            #[trigger] policy.spec.headers@[i],
                        )) && (first < policy.spec.headers@.len() ==> rule_matches(
                        header_values(*headers),
                        policy.spec.headers@[first],
                    )) && (choice.0@, choice.1@) == #[trigger] chosen(
                        policy.spec,
                        first,
                        roll as int,
                    );
                lemma_policy_choice(
                    policy.spec,
                    header_values(*headers),
                    roll as int,
                    0,
                    first,
                );
            }
            choice
        },
        None => match fallback {
            Some(pool) => (pool, "default"),
            None => return Err(http_refusal(503, "model has no default serving pool")),
        },
    };
    let endpoint: Option<&ServingEndpoint> = match pools.catalog {
        Some(catalog) => find_endpoint(&catalog.endpoints, pool),
        None => None,
    };
    if let Some(endpoint) = endpoint {
        if !same(endpoint.model.as_str(), model) {
            return Err(http_refusal(503, "pool model does not match request"));
        }
        return Ok(
            Selection {
                pool_id: pool.to_owned(),
                reason,
                policy_revision,
                model_revision: endpoint.revision.clone(),
                model: selected,
                endpoint: Some(endpoint.copy()),
            },
        );
    }
    match pools.transports.get(pool) {
        Some(config) => if same(config.model.as_str(), model) {
            Ok(
                Selection {
                    pool_id: pool.to_owned(),
                    reason,
                    policy_revision,
                    model_revision: config.revision.clone(),
                    model: selected,
                    endpoint: None,
                },
            )
        } else {
            Err(http_refusal(503, "selected model pool is unavailable"))
        },
        None => Err(http_refusal(503, "selected model pool is unavailable")),
    }
}

/// The roll that some bits make.
pub fn roll_of(bits: u128) -> (r: u8)
    ensures
        r == (bits % 0x1_0000_0000_0000_0000) % 100,
{
    ((bits % 0x1_0000_0000_0000_0000) % 100) as u8
}

/// A roll that chance makes.
pub fn fresh_roll() -> (r: u8)
    ensures
        r < 100,
{
    roll_of(fresh_bits())
}

/// The generation of a managed pool, where the snapshot grants traffic to it.
pub open spec fn granted_generation(snapshot: Option<&TrafficSnapshot>, pool: Seq<char>) -> Option<
    i64,
> {
    match snapshot {
        Some(snapshot) => match control_of(snapshot.pools@, pool) {
            Some(control) => Some(control.generation),
            None => None,
        },
        None => None,
    }
}

/// Takes a request into its pool. A managed one has to be open for the
/// generation that the request knows.
pub fn enter_pool(
    door: &mut Traffic,
    snapshot: Option<&TrafficSnapshot>,
    pool: &str,
    now: Timestamp,
) -> (r: Result<Option<traffic::Permit>, Refusal>)
    requires
        old(door).wf(),
    ensures
        final(door).wf(),
        if !managed_name(pool@) {
            r matches Ok(None) && *final(door) == *old(door)
        } else {
            match granted_generation(snapshot, pool@) {
                None => {
                    &&& r is Err
                    &&& r->Err_0@ == unavailable("managed pool requires a traffic grant"@)
                    &&& *final(door) == *old(door)
                },
                Some(generation) => match entry_fault(*old(door), pool@, generation, now) {
                    Some(message) => {
                        &&& r is Err
                        &&& r->Err_0@ == unavailable(message)
                        &&& *final(door) == *old(door)
                    },
                    None => {
                        &&& r matches Ok(Some(permit)) && permit.pool@ == pool@
                        &&& *final(door) == (Traffic { active: final(door).active, ..*old(door) })
                        &&& final(door).active@ == old(door).active@.insert(
                            pool@,
                            (traffic::count_of(old(door).active@, pool@) + 1) as u64,
                        )
                    },
                },
            }
        },
{
    if !managed(pool) {
        return Ok(None);
    }
    let generation: Option<i64> = match snapshot {
        Some(snapshot) => match traffic::find_control(&snapshot.pools, pool) {
            Some(control) => Some(control.generation),
            None => None,
        },
        None => None,
    };
    match generation {
        None => Err(http_refusal(503, "managed pool requires a traffic grant")),
        Some(generation) => match door.enter(pool, generation, now) {
            Ok(permit) => Ok(Some(permit)),
            Err(message) => Err(http_refusal(503, message)),
        },
    }
}

/// The request header of the proxy.
#[verifier::external_type_specification]
#[verifier::external_body]
pub struct ExRequestHeader(pingora_http::RequestHeader);

/// What a request header holds: under each lowercase name, the bytes of its
/// values in their order.
pub uninterp spec fn request_values(request: pingora_http::RequestHeader) -> Map<
    Seq<char>,
    Seq<Seq<u8>>,
>;

/// `http::HeaderMap::keys` of a `pingora_http::RequestHeader`: the names of its
/// headers, in lower case.
#[verifier::external_body]
fn header_names(request: &pingora_http::RequestHeader) -> (r: Vec<String>)
    ensures
        forall|i: int| 0 <= i < r@.len() ==> lowered(#[trigger] r@[i]@) == r@[i]@,
        forall|name: Seq<char>|
            listed(r@, name) <==> #[trigger] request_values(*request).dom().contains(name),
{
    request.headers.keys().map(|name| name.as_str().to_owned()).collect()
}

/// `pingora_http::RequestHeader::remove_header`: takes away all values of the
/// name, whose case does not matter.
#[verifier::external_body]
fn remove_header(request: &mut pingora_http::RequestHeader, name: &str)
    ensures
        request_values(*final(request)) == request_values(*old(request)).remove(lowered(name@)),
{
    request.remove_header(name);
}

/// A header by which a client could steer what is behind the gateway.
pub open spec fn steering(name: Seq<char>) -> bool {
    ||| "x-envoy-"@.is_prefix_of(name)
    ||| "x-gateway-"@.is_prefix_of(name)
    ||| "x-inference-"@.is_prefix_of(name)
    ||| "x-ai-eg-"@.is_prefix_of(name)
    ||| "x-xscope-"@.is_prefix_of(name)
    ||| "x-route-"@.is_prefix_of(name)
}

/// A header that does not cross the gateway.
pub open spec fn untrusted(name: Seq<char>) -> bool {
    steering(name) || name == "authorization"@ || name == "accept-encoding"@
}

fn is_steering(name: &str) -> (r: bool)
    ensures
        r == steering(name@),
{
    starts_with(name, "x-envoy-") || starts_with(name, "x-gateway-") || starts_with(
        name,
        "x-inference-",
    ) || starts_with(name, "x-ai-eg-") || starts_with(name, "x-xscope-") || starts_with(
        name,
        "x-route-",
    )
}

/// Takes away what a client could steer serving with, and its credentials.
pub fn strip_serving_control_headers(request: &mut pingora_http::RequestHeader)
    ensures
        request_values(*final(request)) == request_values(*old(request)).remove_keys(
            Set::new(|name: Seq<char>| untrusted(name)),
        ),
{
    let names = header_names(request);
    let mut i: usize = 0;
    while i < names.len()
        invariant
            i <= names.len(),
            forall|name: Seq<char>|
                listed(names@, name) <==> #[trigger] request_values(*old(request)).dom().contains(
                    name,
                ),
            forall|k: int| 0 <= k < names@.len() ==> lowered(#[trigger] names@[k]@) == names@[k]@,
            request_values(*request) == request_values(*old(request)).remove_keys(
                Set::new(
                    |name: Seq<char>| steering(name) && listed(names@.take(i as int), name),
                ),
            ),
        decreases names.len() - i,
    {
        let ghost past = Set::new(
            |name: Seq<char>| steering(name) && listed(names@.take(i as int), name),
        );
        let ghost now = Set::new(
            |name: Seq<char>| steering(name) && listed(names@.take(i as int + 1), name),
        );
        let name = names[i].as_str();
        let steers = is_steering(name);
        if steers {
            remove_header(request, name);
        }
        proof {
            assert forall|n: Seq<char>| #[trigger] listed(names@.take(i as int + 1), n) <==> listed(
                names@.take(i as int),
                n,
            ) || n == name@ by {
                let after = names@.take(i as int + 1);
                let before = names@.take(i as int);
                if listed(after, n) {
                    let k = choose|k: int| 0 <= k < after.len() && #[trigger] after[k]@ == n;
                    if k < i {
                        assert(before[k]@ == n);
                    }
                }
                if listed(before, n) {
                    let k = choose|k: int| 0 <= k < before.len() && #[trigger] before[k]@ == n;
                    assert(after[k]@ == n);
                }
                assert(after[i as int]@ == name@);
            }
            if steers {
                assert(now =~= past.insert(name@));
            } else {
                assert(now =~= past);
            }
            assert(request_values(*request) =~= request_values(*old(request)).remove_keys(now));
        }
        i += 1;
    }
    let ghost stripped = request_values(*request);
    remove_header(request, "authorization");
    remove_header(request, "accept-encoding");
    proof {
        assert(names@.take(names@.len() as int) =~= names@);
        lemma_lowercase_names();
        let all = request_values(*old(request));
        let gone = Set::new(|name: Seq<char>| untrusted(name));
        assert forall|name: Seq<char>|
            #[trigger] request_values(*request).dom().contains(name) <==> all.remove_keys(
                gone,
            ).dom().contains(name) by {
            assert(all.dom().contains(name) <==> listed(names@, name));
        }
        assert(request_values(*request) =~= all.remove_keys(gone));
    }
}

proof fn lemma_lowercase_names()
    ensures
        lowered("authorization"@) == "authorization"@,
        lowered("accept-encoding"@) == "accept-encoding"@,
{
    reveal_strlit("authorization");
    reveal_strlit("accept-encoding");
    assert(lowered("authorization"@) =~= "authorization"@);
    assert(lowered("accept-encoding"@) =~= "accept-encoding"@);
}

/// The identifier that a client gave its request, where it is usable.
pub open spec fn client_id(values: Map<Seq<char>, Seq<Seq<u8>>>) -> Option<Seq<char>> {
    match first_visible(values, "x-request-id"@) {
        Some(text) => if text.len() > 0 && bytes_of(text).len() <= 128 {
            Some(text)
        } else {
            None
        },
        None => None,
    }
}

/// The identifier of a request: that of the client, or a fresh one.
pub fn request_id(headers: &http::HeaderMap<http::HeaderValue>) -> (r: String)
    ensures
        match client_id(header_values(*headers)) {
            Some(text) => r@ == text,
            None => "req-"@.is_prefix_of(r@) && uuid_text(r@.skip("req-"@.len() as int)),
        },
{
    if let Some(text) = header(headers, "x-request-id") {
        if !text.is_empty() && byte_len(text) <= 128 {
            return text.to_owned();
        }
    }
    let uuid = fresh_uuid();
    let id = join("req-", uuid.as_str());
    proof {
        assert(id@.subrange(0, "req-"@.len() as int) =~= "req-"@);
        assert(id@.skip("req-"@.len() as int) =~= uuid@);
    }
    id
}

/// No header that could steer serving, and no credential of a client, is left
/// after stripping; every other header is as it was.
pub proof fn law_clients_cannot_steer_serving(values: Map<Seq<char>, Seq<Seq<u8>>>, name: Seq<char>)
    ensures
        ({
            let stripped = values.remove_keys(Set::new(|n: Seq<char>| untrusted(n)));
            &&& untrusted(name) ==> !stripped.dom().contains(name)
            &&& !untrusted(name) ==> (stripped.dom().contains(name) <==> values.dom().contains(
                name,
            ))
            &&& !untrusted(name) && values.dom().contains(name) ==> stripped[name] == values[name]
        }),
{
}

/// A request is served by a pool of the model that it asks for, and only for a
/// key that allows the model.
pub proof fn law_selection_serves_the_model(
    principal: Principal,
    model: Seq<char>,
    pools: Pools,
    values: Map<Seq<char>, Seq<Seq<u8>>>,
    roll: int,
)
    requires
        selection_of(principal, model, pools, values, roll) is Ok,
    ensures
        listed(principal.allowed_models@, model),
        ({
            let choice = selection_of(principal, model, pools, values, roll)->Ok_0;
            match choice.endpoint {
                Some(endpoint) => endpoint.model@ == model,
                None => pools.transports@.dom().contains(choice.pool)
                    && pools.transports@[choice.pool].model@ == model,
            }
        }),
{
}

/// A value of a cohort header that stands twice selects no cohort.
pub proof fn law_ambiguous_cohorts_do_not_match(
    values: Map<Seq<char>, Seq<Seq<u8>>>,
    rule: HeaderRoute,
)
    requires
        values_of(values, rule.name@).len() != 1,
    ensures
        !rule_matches(values, rule),
{
}

/// A key with a budget is let in exactly while it has spent less than the budget, whatever it
/// has spent before and however little is left; a key without one is never refused for it.
pub proof fn law_spent_budgets_let_nobody_in(principal: Principal, text_completion: bool)
    requires
        listed(
            principal.scopes@,
            if text_completion {
                "completions"@
            } else {
                "chat.completions"@
            },
        ),
    ensures
        principal.monthly_budget_amount > 0 && principal.current_month_spend_amount
            >= principal.monthly_budget_amount ==> barred(true, Some(&principal), text_completion)
            == Some((402int, "budget_exhausted"@, "API key monthly budget is exhausted"@)),
        principal.monthly_budget_amount <= 0 || principal.current_month_spend_amount
            < principal.monthly_budget_amount ==> barred(true, Some(&principal), text_completion)
            == if principal.balance_enforced && principal.available_balance_amount <= 0 {
            Some(
                (402int, "insufficient_balance"@, "the project's prepaid balance is exhausted"@),
            )
        } else {
            None
        },
{
}

/// A key that is refused at some spend is refused at every larger one, and one that is let in
/// is let in with a larger budget or a larger balance.
pub proof fn law_spending_more_never_helps(a: Principal, b: Principal, text_completion: bool)
    requires
        a.scopes@ == b.scopes@,
        a.balance_enforced == b.balance_enforced,
        a.monthly_budget_amount == b.monthly_budget_amount || (b.monthly_budget_amount > 0
            && a.monthly_budget_amount > b.monthly_budget_amount),
        a.current_month_spend_amount <= b.current_month_spend_amount,
        a.available_balance_amount >= b.available_balance_amount,
    ensures
        barred(true, Some(&a), text_completion) is Some ==> barred(
            true,
            Some(&b),
            text_completion,
        ) is Some,
{
}

/// Nobody is let in while usage cannot be delivered, without a key, or under a key that lacks
/// the scope of the API that is asked for.
pub proof fn law_nobody_is_let_in_without_key_and_scope(
    principal: Option<&Principal>,
    text_completion: bool,
)
    ensures
        barred(false, principal, text_completion) == Some(
            (
                503int,
                "usage_delivery_unavailable"@,
                "usage delivery is full, stale or unhealthy"@,
            ),
        ),
        principal is None ==> barred(true, principal, text_completion) == Some(
            (401int, "invalid_api_key"@, "a valid Bearer API key is required"@),
        ),
        principal matches Some(key) ==> text_completion && !listed(key.scopes@, "completions"@)
            ==> barred(true, principal, text_completion) == Some(
            (403int, "insufficient_scope"@, "API key does not allow this inference API"@),
        ),
        principal matches Some(key) ==> !text_completion && !listed(
            key.scopes@,
            "chat.completions"@,
        ) ==> barred(true, principal, text_completion) == Some(
            (403int, "insufficient_scope"@, "API key does not allow this inference API"@),
        ),
{
}

/// Requests are told apart by their method and path, and nothing else is served.
pub proof fn law_routes_are_exact(method: Seq<char>, path: Seq<char>)
    ensures
        route_of(method, path) == Route::ChatCompletions <==> method == "POST"@ && path
            == "/v1/chat/completions"@,
        route_of(method, path) == Route::Completions <==> method == "POST"@ && path
            == "/v1/completions"@,
        route_of(method, path) == Route::Models <==> method == "GET"@ && path == "/v1/models"@,
        route_of(method, path) == Route::Health <==> method == "GET"@ && path == "/healthz"@,
        route_of(method, path) == Route::Ready <==> method == "GET"@ && path == "/readyz"@,
        method != "GET"@ && method != "POST"@ ==> route_of(method, path) == Route::Unknown,
{
    reveal_strlit("GET");
    reveal_strlit("POST");
    reveal_strlit("/v1/chat/completions");
    reveal_strlit("/v1/completions");
    reveal_strlit("/v1/models");
    reveal_strlit("/healthz");
    reveal_strlit("/readyz");
    assert("GET"@.len() != "POST"@.len());
    assert("/v1/chat/completions"@.len() == 20 && "/v1/completions"@.len() == 15
        && "/v1/models"@.len() == 10 && "/healthz"@.len() == 8 && "/readyz"@.len() == 7);
}

/// The gateway is ready exactly if usage can be delivered, there are keys, and something can be
/// served: by a catalog, or by an entry that is healthy.
pub proof fn law_the_gateway_is_ready_when_it_can_serve(
    delivery_healthy: bool,
    keys: DynamicKeySet,
    serving_ready: bool,
    r: Reply,
)
    requires
        readiness_reply(delivery_healthy, keys, serving_ready, r),
    ensures
        r.status == 200 <==> delivery_healthy && keys.current.credentials@.len() > 0 && (
        keys.current.catalog is Some || serving_ready),
        r.status == 200 || r.status == 503,
{
}

/// The models that a key is shown are those of the catalog that are enabled and that the key
/// allows.
pub proof fn law_keys_see_the_models_that_they_allow(
    models: Seq<CatalogModel>,
    allowed: Seq<String>,
    id: Seq<char>,
)
    ensures
        catalog_ids(models, allowed).contains(id) <==> listed(allowed, id) && exists|i: int|
            0 <= i < models.len() && (#[trigger] models[i]).model.id@ == id && models[i].enabled,
    decreases models.len(),
{
    if models.len() > 0 {
        let rest = models.drop_last();
        law_keys_see_the_models_that_they_allow(rest, allowed, id);
        let before = catalog_ids(rest, allowed);
        let all = catalog_ids(models, allowed);
        let last = models.len() - 1;
        assert(models[last] == models.last());
        assert forall|i: int| 0 <= i < rest.len() implies rest[i] == models[i] by {}
        if before.contains(id) {
            let k = choose|k: int| 0 <= k < before.len() && before[k] == id;
            assert(all[k] == id);
        }
        if all.contains(id) && !before.contains(id) {
            let k = choose|k: int| 0 <= k < all.len() && all[k] == id;
            if k < before.len() {
                assert(before[k] == id);
            }
            assert(models[last].model.id@ == id);
        }
        if listed(allowed, id) && models.last().model.id@ == id && models.last().enabled {
            assert(all[all.len() - 1] == id);
        }
        if exists|i: int|
            0 <= i < rest.len() && (#[trigger] rest[i]).model.id@ == id && rest[i].enabled {
            let i = choose|i: int|
                0 <= i < rest.len() && (#[trigger] rest[i]).model.id@ == id && rest[i].enabled;
            assert(models[i].model.id@ == id);
        }
        if exists|i: int|
            0 <= i < models.len() && (#[trigger] models[i]).model.id@ == id && models[i].enabled {
            let i = choose|i: int|
                0 <= i < models.len() && (#[trigger] models[i]).model.id@ == id
                    && models[i].enabled;
            if i < last {
                assert(rest[i].model.id@ == id && rest[i].enabled);
            }
        }
    }
}

/// The first rule that a request matches decides its pool; where none does, the weight decides.
pub proof fn law_the_first_matching_rule_decides(
    spec: RoutePolicySpec,
    values: Map<Seq<char>, Seq<Seq<u8>>>,
    roll: int,
    from: int,
    i: int,
)
    requires
        0 <= from <= i <= spec.headers@.len(),
        0 <= roll < 100,
        forall|j: int| from <= j < i ==> !rule_matches(values, #[trigger] spec.headers@[j]),
        i < spec.headers@.len() ==> values_of(values, spec.headers@[i].name@) == seq![
            bytes_of(spec.headers@[i].value@),
        ],
    ensures
        i < spec.headers@.len() ==> policy_choice(spec, values, roll, from).0 == if
            spec.headers@[i].target == crate::domain::routing::RouteTarget::Canary
            && spec.canary_pool is Some {
            spec.canary_pool->0@
        } else {
            spec.stable_pool@
        },
        i < spec.headers@.len() ==> policy_choice(spec, values, roll, from).1 == "header"@,
        i == spec.headers@.len() ==> policy_choice(spec, values, roll, from).0 == if
            spec.canary_pool is Some && roll < spec.canary_percent {
            spec.canary_pool->0@
        } else {
            spec.stable_pool@
        },
    decreases i - from,
{
    crate::domain::routing::law_rules_come_before_the_weight(spec, i, roll);
    if from < i {
        assert(!rule_matches(values, spec.headers@[from]));
        law_the_first_matching_rule_decides(spec, values, roll, from + 1, i);
    }
}

/// A rule matches a request that carries its header once, with exactly its value.
pub proof fn law_rules_match_one_exact_value(
    values: Map<Seq<char>, Seq<Seq<u8>>>,
    rule: HeaderRoute,
)
    ensures
        rule_matches(values, rule) <==> values_of(values, rule.name@).len() == 1 && values_of(
            values,
            rule.name@,
        )[0] == bytes_of(rule.value@),
{
    if values_of(values, rule.name@).len() == 1 && values_of(values, rule.name@)[0] == bytes_of(
        rule.value@,
    ) {
        assert(values_of(values, rule.name@) =~= seq![bytes_of(rule.value@)]);
    }
}

/// What steers serving behind the gateway, and who the client is, never comes from the client:
/// a header under one of the reserved prefixes is untrusted, whatever follows.
pub proof fn law_reserved_headers_are_untrusted(rest: Seq<char>)
    ensures
        untrusted("x-envoy-"@ + rest),
        untrusted("x-gateway-"@ + rest),
        untrusted("x-inference-"@ + rest),
        untrusted("x-ai-eg-"@ + rest),
        untrusted("x-xscope-"@ + rest),
        untrusted("x-route-"@ + rest),
        untrusted("authorization"@),
        untrusted("accept-encoding"@),
{
    let a = "x-envoy-"@;
    let b = "x-gateway-"@;
    let c = "x-inference-"@;
    let d = "x-ai-eg-"@;
    let e = "x-xscope-"@;
    let f = "x-route-"@;
    assert((a + rest).subrange(0, a.len() as int) =~= a);
    assert((b + rest).subrange(0, b.len() as int) =~= b);
    assert((c + rest).subrange(0, c.len() as int) =~= c);
    assert((d + rest).subrange(0, d.len() as int) =~= d);
    assert((e + rest).subrange(0, e.len() as int) =~= e);
    assert((f + rest).subrange(0, f.len() as int) =~= f);
}

/// A model that is not in the catalog, or is disabled there, is not served, and neither is one
/// that the key does not allow; without a policy the default pool of the model serves.
pub proof fn law_only_offered_models_are_served(
    principal: Principal,
    model: Seq<char>,
    pools: Pools,
    values: Map<Seq<char>, Seq<Seq<u8>>>,
    roll: int,
)
    ensures
        !listed(principal.allowed_models@, model) ==> selection_of(
            principal,
            model,
            pools,
            values,
            roll,
        ) == Err::<Choice, Why>(
            Why { status: Some(403u16), message: "API key does not allow the requested model"@ },
        ),
        listed(principal.allowed_models@, model) && pools.catalog is Some && enabled_model(
            pools.catalog->0.models@,
            model,
        ) is None ==> selection_of(principal, model, pools, values, roll) == Err::<Choice, Why>(
            Why { status: Some(404u16), message: "model is unknown or disabled"@ },
        ),
        selection_of(principal, model, pools, values, roll) is Ok && policy_for(
            principal.route_policies@,
            model,
        ) is None ==> selection_of(principal, model, pools, values, roll)->Ok_0.reason
            == "default"@ && selection_of(principal, model, pools, values, roll)->Ok_0.policy_revision
            == 0 && default_pool(pools, model) == Some(
            selection_of(principal, model, pools, values, roll)->Ok_0.pool,
        ),
        selection_of(principal, model, pools, values, roll) is Ok && policy_for(
            principal.route_policies@,
            model,
        ) is Some ==> selection_of(principal, model, pools, values, roll)->Ok_0.policy_revision
            == policy_for(principal.route_policies@, model)->0.revision,
{
}

/// A model is looked up by its name and only while it is enabled; an entry by its own name.
pub proof fn law_lookups_find_what_was_asked_for(
    models: Seq<CatalogModel>,
    endpoints: Seq<ServingEndpoint>,
    id: Seq<char>,
)
    ensures
        enabled_model(models, id) matches Some(entry) ==> entry.enabled && entry.model.id@ == id
            && models.contains(entry),
        enabled_model(models, id) is None ==> forall|i: int|
            0 <= i < models.len() ==> !((#[trigger] models[i]).enabled && models[i].model.id@ == id),
        endpoint_of(endpoints, id) matches Some(entry) ==> entry.id@ == id && endpoints.contains(
            entry,
        ),
        endpoint_of(endpoints, id) is None ==> forall|i: int|
            0 <= i < endpoints.len() ==> (#[trigger] endpoints[i]).id@ != id,
    decreases models.len() + endpoints.len(),
{
    if models.len() > 0 {
        let rest = models.drop_first();
        law_lookups_find_what_was_asked_for(rest, endpoints, id);
        assert(models[0] == models.first());
        assert forall|i: int| 0 <= i < rest.len() implies rest[i] == models[i + 1] by {}
        if enabled_model(models, id) is Some && !(models.first().model.id@ == id
            && models.first().enabled) {
            let entry = enabled_model(models, id)->0;
            let i = choose|i: int| 0 <= i < rest.len() && rest[i] == entry;
            assert(models[i + 1] == entry);
        }
        if enabled_model(models, id) is None {
            assert forall|i: int| 0 <= i < models.len() implies !((#[trigger] models[i]).enabled
                && models[i].model.id@ == id) by {
                if i > 0 {
                    assert(models[i] == rest[i - 1]);
                }
            }
        }
    } else if endpoints.len() > 0 {
        let rest = endpoints.drop_first();
        law_lookups_find_what_was_asked_for(models, rest, id);
        assert(endpoints[0] == endpoints.first());
        assert forall|i: int| 0 <= i < rest.len() implies rest[i] == endpoints[i + 1] by {}
        if endpoint_of(endpoints, id) is Some && endpoints.first().id@ != id {
            let entry = endpoint_of(endpoints, id)->0;
            let i = choose|i: int| 0 <= i < rest.len() && rest[i] == entry;
            assert(endpoints[i + 1] == entry);
        }
        if endpoint_of(endpoints, id) is None {
            assert forall|i: int| 0 <= i < endpoints.len() implies (#[trigger] endpoints[i]).id@
                != id by {
                if i > 0 {
                    assert(endpoints[i] == rest[i - 1]);
                }
            }
        }
    }
}

/// A model that is offered and that its key allows is served by the pool that was chosen for
/// it: by the entry of the catalog if there is one, and by a configured transport otherwise.
pub proof fn law_chosen_pools_that_serve_the_model_are_used(
    principal: Principal,
    model: Seq<char>,
    pools: Pools,
    values: Map<Seq<char>, Seq<Seq<u8>>>,
    roll: int,
    pool: Seq<char>,
    reason: Seq<char>,
    revision: i64,
)
    requires
        listed(principal.allowed_models@, model),
        pools.catalog is Some ==> enabled_model(pools.catalog->0.models@, model) is Some,
        pool_choice(principal, model, pools, values, roll) == Some((pool, reason, revision)),
    ensures
        ({
            let r = selection_of(principal, model, pools, values, roll);
            &&& pools.catalog is Some && endpoint_of(pools.catalog->0.endpoints@, pool) is Some
                && endpoint_of(pools.catalog->0.endpoints@, pool)->0.model@ == model ==> r is Ok
                && r->Ok_0.pool == pool && r->Ok_0.endpoint == endpoint_of(
                pools.catalog->0.endpoints@,
                pool,
            ) && r->Ok_0.model_revision == endpoint_of(
                pools.catalog->0.endpoints@,
                pool,
            )->0.revision@
            &&& pools.catalog is None && pools.transports@.dom().contains(pool)
                && pools.transports@[pool].model@ == model ==> r is Ok && r->Ok_0.pool == pool
                && r->Ok_0.endpoint is None && r->Ok_0.model_revision
                == pools.transports@[pool].revision@
            &&& r is Ok ==> r->Ok_0.pool == pool && r->Ok_0.reason == reason
                && r->Ok_0.policy_revision == revision
            &&& r is Ok && pools.catalog is Some ==> r->Ok_0.model == Some(
                enabled_model(pools.catalog->0.models@, model)->0.model,
            )
        }),
{
}

/// A client names its own request in up to 128 bytes that can be shown, or the gateway does.
pub proof fn law_clients_may_name_their_request(values: Map<Seq<char>, Seq<Seq<u8>>>)
    ensures
        client_id(values) is Some ==> client_id(values) == first_visible(values, "x-request-id"@)
            && client_id(values)->0.len() > 0 && bytes_of(client_id(values)->0).len() < 129,
        first_visible(values, "x-request-id"@) is Some && first_visible(
            values,
            "x-request-id"@,
        )->0.len() > 0 && bytes_of(first_visible(values, "x-request-id"@)->0).len() < 129
            ==> client_id(values) is Some,
{
}

/// An error is answered as an error, under its status, its code and its message.
pub proof fn law_errors_are_answered_in_full(
    reply: Reply,
    status: int,
    code: Seq<char>,
    message: Seq<char>,
)
    requires
        is_error(reply, status, code, message),
    ensures
        reply.status == status,
        reply.body matches ReplyBody::Error { code: c, message: m } && c@ == code && m is Some
            && m->0@ == message,
{
}

/// A live gateway says so, with success.
pub proof fn law_live_gateways_answer_with_success(r: Reply)
    requires
        health_reply(r),
    ensures
        199 < r.status < 201,
        r.body matches ReplyBody::Status { status, component } && status@ == "ok"@ && component
            is Some && component->0@ == "gateway"@,
{
}

/// Without a catalog a model is served where it was configured, and else by the one pool that
/// serves it; with one, by the default pool of a model that is offered and by no other.
pub proof fn law_models_are_served_by_their_default_pool(pools: Pools, model: Seq<char>)
    ensures
        pools.catalog is None && pools.serving.model@ == model ==> default_pool(pools, model)
            == Some(pools.serving.id@),
        pools.catalog is None && pools.serving.model@ != model ==> default_pool(pools, model)
            == sole_pool(pools.transports.entries@, model),
        pools.catalog is Some && enabled_model(pools.catalog->0.models@, model) is None
            ==> default_pool(pools, model) is None,
        pools.catalog is Some && enabled_model(pools.catalog->0.models@, model) is Some ==> {
            let chosen = enabled_model(pools.catalog->0.models@, model)->0.default_pool;
            &&& chosen is Some ==> default_pool(pools, model) == Some(chosen->0@)
            &&& chosen is None ==> default_pool(pools, model) is None
        },
{
}

} // verus!
