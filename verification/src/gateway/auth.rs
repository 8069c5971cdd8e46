//! Who asks: API keys, what they allow, and how often they may ask.
use crate::collections::TextMap;
use crate::crypto::{base64_bytes, decode_base64, digest, same_bytes, sha256};
use crate::domain::catalog::CatalogSnapshot;
use crate::domain::routing::{policy_sound, RoutePolicy};
use crate::domain::traffic::TrafficSnapshot;
use crate::domain::Timestamp;
use crate::gateway::config::ApiKeyConfig;
use crate::gateway::{minute_of, minute_value};
use crate::text::{bytes_of, copy_texts, is_listed, join, listed, same, strip_prefix};
use vstd::prelude::*;

verus! {

#[derive(Clone, Debug)]
pub struct Principal {
    pub route_policies: Vec<RoutePolicy>,
    pub api_key_id: String,
    pub tenant_id: String,
    pub project_id: String,
    pub scopes: Vec<String>,
    pub allowed_models: Vec<String>,
    pub rate_limit_rpm: u64,
    pub rate_limit_tpm: u64,
    pub monthly_budget_amount: i64,
    pub current_month_spend_amount: i64,
    pub balance_enforced: bool,
    pub available_balance_amount: i64,
}

/// The first policy for a model.
pub open spec fn policy_for(policies: Seq<RoutePolicy>, model: Seq<char>) -> Option<RoutePolicy>
    decreases policies.len(),
{
    if policies.len() == 0 {
        None
    } else if policies.first().model@ == model {
        Some(policies.first())
    } else {
        policy_for(policies.drop_first(), model)
    }
}

impl Principal {
    pub open spec fn exhausted_budget(self) -> bool {
        self.monthly_budget_amount > 0 && self.current_month_spend_amount
            >= self.monthly_budget_amount
    }

    pub open spec fn exhausted_funds(self) -> bool {
        self.balance_enforced && self.available_balance_amount <= 0
    }

    /// The route policy of a model.
    pub fn route_policy(&self, model: &str) -> (r: Option<&RoutePolicy>)
        ensures
            match r {
                Some(policy) => policy_for(self.route_policies@, model@) == Some(*policy),
                None => policy_for(self.route_policies@, model@) is None,
            },
    {
        let mut i: usize = 0;
        assert(self.route_policies@.skip(0) =~= self.route_policies@);
        while i < self.route_policies.len()
            invariant
                i <= self.route_policies.len(),
                policy_for(self.route_policies@, model@) == policy_for(
                    self.route_policies@.skip(i as int),
                    model@,
                ),
            decreases self.route_policies.len() - i,
        {
            assert(self.route_policies@.skip(i as int).drop_first()
                =~= self.route_policies@.skip(i as int + 1));
            if same(self.route_policies[i].model.as_str(), model) {
                return Some(&self.route_policies[i]);
            }
            i += 1;
        }
        None
    }

    #[must_use]
    pub fn has_scope(&self, scope: &str) -> (r: bool)
        ensures
            r == listed(self.scopes@, scope@),
    {
        is_listed(&self.scopes, scope)
    }

    #[must_use]
    pub fn allows_model(&self, model: &str) -> (r: bool)
        ensures
            r == listed(self.allowed_models@, model@),
    {
        is_listed(&self.allowed_models, model)
    }

    #[must_use]
    pub fn budget_exhausted(&self) -> (r: bool)
        ensures
            r == self.exhausted_budget(),
    {
        self.monthly_budget_amount > 0 && self.current_month_spend_amount
            >= self.monthly_budget_amount
    }

    #[must_use]
    pub fn funds_exhausted(&self) -> (r: bool)
        ensures
            r == self.exhausted_funds(),
    {
        self.balance_enforced && self.available_balance_amount <= 0
    }

    #[must_use]
    pub fn rate_limit_rpm(&self) -> (r: u64)
        ensures
            r == self.rate_limit_rpm,
    {
        self.rate_limit_rpm
    }

    #[must_use]
    pub fn rate_limit_tpm(&self) -> (r: u64)
        ensures
            r == self.rate_limit_tpm,
    {
        self.rate_limit_tpm
    }
}

/// A key that is accepted. Of its secret only the digest is kept.
#[derive(Clone)]
pub struct Credential {
    pub principal: Principal,
    pub secret_hash: [u8; 32],
    pub expires_at: Option<Timestamp>,
}

#[derive(Clone)]
pub struct KeySet {
    pub credentials: Vec<Credential>,
    pub catalog: Option<CatalogSnapshot>,
    pub traffic: Option<TrafficSnapshot>,
}

/// A key of a snapshot, as the control plane sends it. What an older control
/// plane does not send is missing.
#[derive(Clone, Debug)]
pub struct GatewayKey {
    pub id: String,
    pub tenant_id: String,
    pub project_id: String,
    pub secret_hash: String,
    pub scopes: Vec<String>,
    pub allowed_models: Vec<String>,
    pub expires_at: Option<Timestamp>,
    pub rate_limit_rpm: u64,
    pub rate_limit_tpm: Option<u64>,
    pub monthly_budget: i64,
    pub current_month_spend: i64,
    pub balance_enforced: Option<bool>,
    pub available_balance: Option<i64>,
}

#[derive(Clone, Debug)]
pub struct GatewaySnapshot {
    pub keys: Vec<GatewayKey>,
    pub route_policies: Vec<RoutePolicy>,
    pub catalog: Option<CatalogSnapshot>,
    pub traffic: Option<TrafficSnapshot>,
}

/// The token limit of a key that states none.
pub fn default_rate_limit_tpm() -> (r: u64)
    ensures
        r == 60_000,
{
    60_000
}

#[derive(Clone, Debug)]
pub enum SnapshotError {
    InvalidRoutePolicy,
    InvalidDigest(String),
}

impl SnapshotError {
    /// The error as it is shown.
    pub fn message(&self) -> (r: String)
        ensures
            r@ == match self {
                SnapshotError::InvalidRoutePolicy => "invalid or duplicate route policy in snapshot"@,
                SnapshotError::InvalidDigest(id) => "API key "@ + id@
                    + " has an invalid SHA-256 digest"@,
            },
    {
        match self {
            SnapshotError::InvalidRoutePolicy => "invalid or duplicate route policy in snapshot".to_owned(),
            SnapshotError::InvalidDigest(id) => join(
                join("API key ", id.as_str()).as_str(),
                " has an invalid SHA-256 digest",
            ),
        }
    }
}

pub open spec fn same_subject(a: RoutePolicy, b: RoutePolicy) -> bool {
    a.tenant_id@ == b.tenant_id@ && a.project_id@ == b.project_id@ && a.model@ == b.model@
}

/// A sound policy with a revision, for a model of a project that no earlier one
/// is for.
pub open spec fn policy_usable(policies: Seq<RoutePolicy>, i: int) -> bool {
    &&& policies[i].revision > 0
    &&& policy_sound(policies[i].spec)
    &&& forall|j: int| 0 <= j < i ==> !same_subject(#[trigger] policies[j], policies[i])
}

pub open spec fn policies_usable(policies: Seq<RoutePolicy>) -> bool {
    forall|i: int| 0 <= i < policies.len() ==> #[trigger] policy_usable(policies, i)
}

/// The digest that a key states, if it is one of 32 bytes.
pub open spec fn key_digest(key: GatewayKey) -> Option<Seq<u8>> {
    match base64_bytes(key.secret_hash@) {
        Some(data) => if data.len() == 32 {
            Some(data)
        } else {
            None
        },
        None => None,
    }
}

/// Two policies that say the same.
pub open spec fn same_policy(a: RoutePolicy, b: RoutePolicy) -> bool {
    &&& a.tenant_id == b.tenant_id
    &&& a.project_id == b.project_id
    &&& a.model == b.model
    &&& a.revision == b.revision
    &&& a.spec.stable_pool == b.spec.stable_pool
    &&& a.spec.canary_pool == b.spec.canary_pool
    &&& a.spec.canary_percent == b.spec.canary_percent
    &&& a.spec.headers@ == b.spec.headers@
}

pub open spec fn same_policies(a: Seq<RoutePolicy>, b: Seq<RoutePolicy>) -> bool {
    &&& a.len() == b.len()
    &&& forall|i: int| 0 <= i < a.len() ==> same_policy(#[trigger] a[i], b[i])
}

/// The policies of a project, in their order.
pub open spec fn policies_of(
    policies: Seq<RoutePolicy>,
    tenant: Seq<char>,
    project: Seq<char>,
) -> Seq<RoutePolicy> {
    policies.filter(|p: RoutePolicy| p.tenant_id@ == tenant && p.project_id@ == project)
}

/// The credential that a key of a snapshot makes.
pub open spec fn credential_of(
    key: GatewayKey,
    policies: Seq<RoutePolicy>,
    c: Credential,
) -> bool {
    &&& key_digest(key) == Some(c.secret_hash@)
    &&& c.expires_at == key.expires_at
    &&& same_policies(
        c.principal.route_policies@,
        policies_of(policies, key.tenant_id@, key.project_id@),
    )
    &&& c.principal.api_key_id == key.id
    &&& c.principal.tenant_id == key.tenant_id
    &&& c.principal.project_id == key.project_id
    &&& c.principal.scopes@ == key.scopes@
    &&& c.principal.allowed_models@ == key.allowed_models@
    &&& c.principal.rate_limit_rpm == key.rate_limit_rpm
    &&& c.principal.rate_limit_tpm == match key.rate_limit_tpm {
        Some(limit) => limit,
        None => 60_000u64,
    }
    &&& c.principal.monthly_budget_amount == key.monthly_budget
    &&& c.principal.current_month_spend_amount == key.current_month_spend
    &&& c.principal.balance_enforced == (key.balance_enforced == Some(true))
    &&& c.principal.available_balance_amount == match key.available_balance {
        Some(amount) => amount,
        None => 0i64,
    }
}

/// The first key whose digest is none, if any.
pub open spec fn first_bad_key(keys: Seq<GatewayKey>, i: int) -> bool {
    &&& 0 <= i < keys.len()
    &&& key_digest(keys[i]) is None
    &&& forall|j: int| 0 <= j < i ==> key_digest(#[trigger] keys[j]) is Some
}

fn are_usable(policies: &Vec<RoutePolicy>) -> (r: bool)
    ensures
        r == policies_usable(policies@),
{
    let mut i: usize = 0;
    while i < policies.len()
        invariant
            i <= policies.len(),
            forall|j: int| 0 <= j < i ==> #[trigger] policy_usable(policies@, j),
        decreases policies.len() - i,
    {
        let policy = &policies[i];
        if policy.revision <= 0 || policy.spec.validate().is_err() {
            assert(!policy_usable(policies@, i as int));
            return false;
        }
        let mut j: usize = 0;
        while j < i
            invariant
                j <= i < policies@.len(),
                *policy == policies@[i as int],
                forall|k: int| 0 <= k < j ==> !same_subject(#[trigger] policies@[k], *policy),
            decreases i - j,
        {
            let earlier = &policies[j];
            if same(earlier.tenant_id.as_str(), policy.tenant_id.as_str()) && same(
                earlier.project_id.as_str(),
                policy.project_id.as_str(),
            ) && same(earlier.model.as_str(), policy.model.as_str()) {
                assert(same_subject(policies@[j as int], policies@[i as int]));
                assert(!policy_usable(policies@, i as int));
                return false;
            }
            j += 1;
        }
        i += 1;
    }
    true
}

fn copy_policy(policy: &RoutePolicy) -> (r: RoutePolicy)
    ensures
        same_policy(r, *policy),
{
    RoutePolicy {
        tenant_id: policy.tenant_id.clone(),
        project_id: policy.project_id.clone(),
        model: policy.model.clone(),
        revision: policy.revision,
        spec: policy.spec.copy(),
    }
}

fn project_policies(policies: &Vec<RoutePolicy>, tenant: &str, project: &str) -> (r: Vec<
    RoutePolicy,
>)
    ensures
        same_policies(r@, policies_of(policies@, tenant@, project@)),
{
    let ghost wanted = |p: RoutePolicy| p.tenant_id@ == tenant@ && p.project_id@ == project@;
    let mut out: Vec<RoutePolicy> = Vec::new();
    let mut i: usize = 0;
    assert(policies@.take(0).filter(wanted) =~= Seq::<RoutePolicy>::empty());
    while i < policies.len()
        invariant
            i <= policies.len(),
            wanted == |p: RoutePolicy| p.tenant_id@ == tenant@ && p.project_id@ == project@,
            same_policies(out@, policies@.take(i as int).filter(wanted)),
        decreases policies.len() - i,
    {
        let policy = &policies[i];
        proof {
            broadcast use Seq::lemma_filter_push;

            assert(policies@.take(i as int + 1) == policies@.take(i as int).push(*policy));
            assert(policies@.take(i as int).push(*policy).filter(wanted) == if wanted(*policy) {
                policies@.take(i as int).filter(wanted).push(*policy)
            } else {
                policies@.take(i as int).filter(wanted)
            });
        }
        if same(policy.tenant_id.as_str(), tenant) && same(policy.project_id.as_str(), project) {
            let ghost chosen = policies@.take(i as int).filter(wanted);
            let ghost before = out@;
            out.push(copy_policy(policy));
            assert forall|j: int| 0 <= j < out@.len() implies same_policy(
                #[trigger] out@[j],
                chosen.push(*policy)[j],
            ) by {
                if j < before.len() {
                    assert(same_policy(before[j], chosen[j]));
                }
            }
        }
        i += 1;
    }
    assert(policies@.take(policies@.len() as int) =~= policies@);
    out
}

fn to_digest(data: &Vec<u8>) -> (r: [u8; 32])
    requires
        data@.len() == 32,
    ensures
        r@ == data@,
{
    let mut out: [u8; 32] = [0u8;32];
    let mut i: usize = 0;
    while i < 32
        invariant
            i <= 32,
            data@.len() == 32,
            forall|j: int| 0 <= j < i ==> out@[j] == data@[j],
        decreases 32 - i,
    {
        out[i] = data[i];
        i += 1;
    }
    assert(out@ =~= data@);
    out
}

/// The credential that a configured key makes.
pub open spec fn static_credential(config: ApiKeyConfig, c: Credential) -> bool {
    &&& c.secret_hash@ == sha256(bytes_of(config.secret@))
    &&& c.expires_at is None
    &&& c.principal.route_policies@.len() == 0
    &&& c.principal.api_key_id == config.id
    &&& c.principal.tenant_id == config.tenant_id
    &&& c.principal.project_id == config.project_id
    &&& c.principal.scopes@.len() == 1
    &&& c.principal.scopes@[0]@ == "chat.completions"@
    &&& c.principal.allowed_models@.len() == 1
    &&& c.principal.allowed_models@[0]@ == "xscope-demo"@
    &&& c.principal.rate_limit_rpm == 600
    &&& c.principal.rate_limit_tpm == 600_000
    &&& c.principal.monthly_budget_amount == 0
    &&& c.principal.current_month_spend_amount == 0
    &&& !c.principal.balance_enforced
    &&& c.principal.available_balance_amount == 0
}

/// The key is live and has this digest.
pub open spec fn accepts(c: Credential, candidate: Seq<u8>, now: Timestamp) -> bool {
    &&& c.expires_at matches Some(expires_at) ==> expires_at > now
    &&& c.secret_hash@ == candidate
}

/// The first credential that accepts the digest.
pub open spec fn accepting(
    credentials: Seq<Credential>,
    candidate: Seq<u8>,
    now: Timestamp,
) -> Option<int>
    decreases credentials.len(),
{
    if credentials.len() == 0 {
        None
    } else {
        match accepting(credentials.drop_last(), candidate, now) {
            Some(i) => Some(i),
            None => if accepts(credentials.last(), candidate, now) {
                Some(credentials.len() - 1)
            } else {
                None
            },
        }
    }
}

/// Later credentials do not change which one is the first.
proof fn lemma_accepting(credentials: Seq<Credential>, n: int, candidate: Seq<u8>, now: Timestamp)
    requires
        0 <= n <= credentials.len(),
        accepting(credentials.take(n), candidate, now) is Some,
    ensures
        accepting(credentials, candidate, now) == accepting(
            credentials.take(n),
            candidate,
            now,
        ),
    decreases credentials.len(),
{
    if n == credentials.len() {
        assert(credentials.take(n) =~= credentials);
    } else {
        assert(credentials.drop_last().take(n) =~= credentials.take(n));
        lemma_accepting(credentials.drop_last(), n, candidate, now);
    }
}

/// Whose secret an authorization carries: the first live key of its digest.
pub open spec fn caller_of(
    credentials: Seq<Credential>,
    authorization: Option<Seq<char>>,
    now: Timestamp,
) -> Option<int> {
    match bearer_secret(authorization) {
        Some(secret) => accepting(credentials, sha256(bytes_of(secret)), now),
        None => None,
    }
}

/// The secret that an authorization carries, if it is a bearer token.
pub open spec fn bearer_secret(authorization: Option<Seq<char>>) -> Option<Seq<char>> {
    match authorization {
        Some(text) => if "Bearer "@.is_prefix_of(text) {
            Some(text.skip("Bearer "@.len() as int))
        } else {
            None
        },
        None => None,
    }
}

pub open spec fn text_of(authorization: Option<&str>) -> Option<Seq<char>> {
    match authorization {
        Some(text) => Some(text@),
        None => None,
    }
}

impl KeySet {
    /// Finds whose secret an authorization carries. A key that has expired is
    /// nobody's.
    pub fn find(&self, authorization: Option<&str>, now: Timestamp) -> (r: Option<usize>)
        ensures
            match r {
                Some(i) => i < self.credentials@.len() && caller_of(
                    self.credentials@,
                    text_of(authorization),
                    now,
                ) == Some(i as int),
                None => caller_of(self.credentials@, text_of(authorization), now) is None,
            },
    {
        let text = match authorization {
            Some(text) => text,
            None => return None,
        };
        let secret = match strip_prefix(text, "Bearer ") {
            Some(secret) => secret,
            None => return None,
        };
        assert(text@.skip("Bearer "@.len() as int) =~= secret@);
        assert("Bearer "@.is_prefix_of(text@)) by {
            assert(text@.subrange(0, "Bearer "@.len() as int) =~= "Bearer "@);
        }
        let candidate = digest(secret.as_bytes());
        let mut i: usize = 0;
        while i < self.credentials.len()
            invariant
                i <= self.credentials.len(),
                candidate@ == sha256(bytes_of(secret@)),
                bearer_secret(text_of(authorization)) == Some(secret@),
                accepting(self.credentials@.take(i as int), candidate@, now) is None,
            decreases self.credentials.len() - i,
        {
            let credential = &self.credentials[i];
            let live = match credential.expires_at {
                Some(expires_at) => expires_at > now,
                None => true,
            };
            let matching = same_bytes(&credential.secret_hash, &candidate);
            proof {
                let next = self.credentials@.take(i as int + 1);
                assert(next.drop_last() =~= self.credentials@.take(i as int));
                assert(next.last() == *credential);
            }
            if live && matching {
                proof {
                    lemma_accepting(self.credentials@, i as int + 1, candidate@, now);
                }
                return Some(i);
            }
            i += 1;
        }
        assert(self.credentials@.take(self.credentials@.len() as int) =~= self.credentials@);
        None
    }

    pub fn from_static(configs: &[ApiKeyConfig]) -> (r: Self)
        ensures
            r.catalog is None,
            r.traffic is None,
            r.credentials@.len() == configs@.len(),
            forall|i: int|
                0 <= i < configs@.len() ==> static_credential(
                    configs@[i],
                    #[trigger] r.credentials@[i],
                ),
    {
        let mut credentials: Vec<Credential> = Vec::new();
        let mut i: usize = 0;
        while i < configs.len()
            invariant
                i <= configs.len(),
                credentials@.len() == i,
                forall|j: int|
                    0 <= j < i ==> static_credential(configs@[j], #[trigger] credentials@[j]),
            decreases configs.len() - i,
        {
            let config = &configs[i];
            credentials.push(
                Credential {
                    principal: Principal {
                        route_policies: Vec::new(),
                        api_key_id: config.id.clone(),
                        tenant_id: config.tenant_id.clone(),
                        project_id: config.project_id.clone(),
                        scopes: vec!["chat.completions".to_owned()],
                        allowed_models: vec!["xscope-demo".to_owned()],
                        rate_limit_rpm: 600,
                        rate_limit_tpm: 600_000,
                        monthly_budget_amount: 0,
                        current_month_spend_amount: 0,
                        balance_enforced: false,
                        available_balance_amount: 0,
                    },
                    secret_hash: digest(config.secret.as_str().as_bytes()),
                    expires_at: None,
                },
            );
            i += 1;
        }
        KeySet { credentials, catalog: None, traffic: None }
    }

    /// Makes the key set of a snapshot, whole or not at all.
    pub fn from_snapshot(snapshot: GatewaySnapshot) -> (r: Result<Self, SnapshotError>)
        ensures
            match r {
                Ok(keys) => {
                    &&& policies_usable(snapshot.route_policies@)
                    &&& keys.catalog == snapshot.catalog
                    &&& keys.traffic == snapshot.traffic
                    &&& keys.credentials@.len() == snapshot.keys@.len()
                    &&& forall|i: int|
                        0 <= i < snapshot.keys@.len() ==> credential_of(
                            snapshot.keys@[i],
                            snapshot.route_policies@,
                            #[trigger] keys.credentials@[i],
                        )
                },
                Err(SnapshotError::InvalidRoutePolicy) => !policies_usable(snapshot.route_policies@),
                Err(SnapshotError::InvalidDigest(id)) => policies_usable(snapshot.route_policies@)
                    && exists|i: int|
                    #[trigger] first_bad_key(snapshot.keys@, i) && snapshot.keys@[i].id@ == id@,
            },
    {
        if !are_usable(&snapshot.route_policies) {
            return Err(SnapshotError::InvalidRoutePolicy);
        }
        let mut credentials: Vec<Credential> = Vec::new();
        let mut i: usize = 0;
        while i < snapshot.keys.len()
            invariant
                i <= snapshot.keys.len(),
                policies_usable(snapshot.route_policies@),
                credentials@.len() == i,
                forall|j: int| 0 <= j < i ==> key_digest(#[trigger] snapshot.keys@[j]) is Some,
                forall|j: int|
                    0 <= j < i ==> credential_of(
                        snapshot.keys@[j],
                        snapshot.route_policies@,
                        #[trigger] credentials@[j],
                    ),
            decreases snapshot.keys.len() - i,
        {
            let key = &snapshot.keys[i];
            let data = match decode_base64(key.secret_hash.as_str()) {
                Some(data) => data,
                None => {
                    assert(first_bad_key(snapshot.keys@, i as int));
                    return Err(SnapshotError::InvalidDigest(key.id.clone()));
                },
            };
            if data.len() != 32 {
                assert(first_bad_key(snapshot.keys@, i as int));
                return Err(SnapshotError::InvalidDigest(key.id.clone()));
            }
            credentials.push(
                Credential {
                    principal: Principal {
                        route_policies: project_policies(
                            &snapshot.route_policies,
                            key.tenant_id.as_str(),
                            key.project_id.as_str(),
                        ),
                        api_key_id: key.id.clone(),
                        tenant_id: key.tenant_id.clone(),
                        project_id: key.project_id.clone(),
                        scopes: copy_texts(&key.scopes),
                        allowed_models: copy_texts(&key.allowed_models),
                        rate_limit_rpm: key.rate_limit_rpm,
                        rate_limit_tpm: match key.rate_limit_tpm {
                            Some(limit) => limit,
                            None => default_rate_limit_tpm(),
                        },
                        monthly_budget_amount: key.monthly_budget,
                        current_month_spend_amount: key.current_month_spend,
                        balance_enforced: match key.balance_enforced {
                            Some(enforced) => enforced,
                            None => false,
                        },
                        available_balance_amount: match key.available_balance {
                            Some(amount) => amount,
                            None => 0,
                        },
                    },
                    secret_hash: to_digest(&data),
                    expires_at: key.expires_at,
                },
            );
            i += 1;
        }
        Ok(KeySet { credentials, catalog: snapshot.catalog, traffic: snapshot.traffic })
    }
}

/// The requests of a key in one minute.
#[derive(Clone, Copy, Debug, PartialEq, Eq, Structural)]
pub struct RateWindow {
    pub minute: i64,
    pub count: u64,
}

/// The keys that are accepted now, and how often each was used.
pub struct DynamicKeySet {
    pub current: KeySet,
    pub rate_windows: TextMap<RateWindow>,
}

/// The window of a key, brought to a minute.
pub open spec fn window_at(
    windows: Map<Seq<char>, RateWindow>,
    key: Seq<char>,
    minute: i64,
) -> RateWindow {
    let window = if windows.dom().contains(key) {
        windows[key]
    } else {
        RateWindow { minute: 0, count: 0 }
    };
    if window.minute != minute {
        RateWindow { minute, count: 0 }
    } else {
        window
    }
}

/// The windows after a request of a key: one more is counted where the limit
/// allows it.
pub open spec fn counted(
    windows: Map<Seq<char>, RateWindow>,
    key: Seq<char>,
    limit: u64,
    minute: i64,
) -> Map<Seq<char>, RateWindow> {
    let window = window_at(windows, key, minute);
    windows.insert(
        key,
        if window.count < limit {
            RateWindow { minute: window.minute, count: (window.count + 1) as u64 }
        } else {
            window
        },
    )
}

/// Counts a request of a key at a second since the Unix epoch, if its limit of
/// the minute allows one more.
pub fn count_request(
    windows: &mut TextMap<RateWindow>,
    principal: &Principal,
    timestamp: i64,
) -> (r: bool)
    requires
        old(windows).wf(),
    ensures
        final(windows).wf(),
        r == (window_at(
            old(windows)@,
            principal.api_key_id@,
            minute_value(timestamp as int) as i64,
        ).count < principal.rate_limit_rpm),
        final(windows)@ == counted(
            old(windows)@,
            principal.api_key_id@,
            principal.rate_limit_rpm,
            minute_value(timestamp as int) as i64,
        ),
{
    let minute: i64 = minute_of(timestamp);
    let mut window = match windows.get(principal.api_key_id.as_str()) {
        Some(window) => *window,
        None => RateWindow { minute: 0, count: 0 },
    };
    if window.minute != minute {
        window = RateWindow { minute, count: 0 };
    }
    let allowed = window.count < principal.rate_limit_rpm;
    if allowed {
        window = RateWindow { minute: window.minute, count: window.count + 1 };
    }
    windows.insert(principal.api_key_id.as_str(), window);
    allowed
}

impl DynamicKeySet {
    pub open spec fn wf(self) -> bool {
        self.rate_windows.wf()
    }

    #[must_use]
    pub fn new(configs: &[ApiKeyConfig]) -> (r: Self)
        ensures
            r.wf(),
            r.rate_windows@ == Map::<Seq<char>, RateWindow>::empty(),
            r.current.catalog is None,
            r.current.traffic is None,
            r.current.credentials@.len() == configs@.len(),
            forall|i: int|
                0 <= i < configs@.len() ==> static_credential(
                    configs@[i],
                    #[trigger] r.current.credentials@[i],
                ),
    {
        DynamicKeySet { current: KeySet::from_static(configs), rate_windows: TextMap::new() }
    }

    #[must_use]
    pub fn is_empty(&self) -> (r: bool)
        ensures
            r == (self.current.credentials@.len() == 0),
    {
        self.current.credentials.len() == 0
    }

    /// Whether the keys came with a catalog of models.
    #[must_use]
    pub fn has_catalog(&self) -> (r: bool)
        ensures
            r == (self.current.catalog is Some),
    {
        self.current.catalog.is_some()
    }

    /// Finds whose secret an authorization carries.
    #[must_use]
    pub fn authenticate(&self, authorization: Option<&str>, now: Timestamp) -> (r: Option<
        &Principal,
    >)
        ensures
            match caller_of(self.current.credentials@, text_of(authorization), now) {
                Some(i) => 0 <= i < self.current.credentials@.len() && r == Some(
                    &self.current.credentials@[i].principal,
                ),
                None => r is None,
            },
    {
        match self.current.find(authorization, now) {
            Some(i) => Some(&self.current.credentials[i].principal),
            None => None,
        }
    }

    /// Counts a request of a key at a second since the Unix epoch, if its limit
    /// of the minute allows one more.
    #[must_use]
    pub fn check_rate_limit(&mut self, principal: &Principal, timestamp: i64) -> (r: bool)
        requires
            old(self).wf(),
        ensures
            final(self).wf(),
            final(self).current == old(self).current,
            ({
                let window = window_at(
                    old(self).rate_windows@,
                    principal.api_key_id@,
                    minute_value(timestamp as int) as i64,
                );
                &&& r == (window.count < principal.rate_limit_rpm)
                &&& final(self).rate_windows@ == counted(
                    old(self).rate_windows@,
                    principal.api_key_id@,
                    principal.rate_limit_rpm,
                    minute_value(timestamp as int) as i64,
                )
            }),
    {
        count_request(&mut self.rate_windows, principal, timestamp)
    }
}

/// A key never passes more requests in one minute than its limit: a window
/// within the limit stays within it.
pub proof fn law_requests_stay_within_the_limit(
    windows: Map<Seq<char>, RateWindow>,
    key: Seq<char>,
    limit: u64,
    minute: i64,
)
    requires
        window_at(windows, key, minute).count <= limit,
    ensures
        window_at(counted(windows, key, limit, minute), key, minute).count <= limit,
{
}

/// An expired key authenticates nobody.
pub proof fn law_expired_keys_are_nobodys(c: Credential, candidate: Seq<u8>, now: Timestamp)
    requires
        c.expires_at matches Some(expires_at) && expires_at <= now,
    ensures
        !accepts(c, candidate, now),
{
}

/// A budget that is used up stays used up as more is spent, and only a budget can be.
pub proof fn law_used_up_budgets_stay_used_up(a: Principal, b: Principal)
    requires
        a.monthly_budget_amount == b.monthly_budget_amount,
        a.current_month_spend_amount <= b.current_month_spend_amount,
    ensures
        a.exhausted_budget() ==> b.exhausted_budget(),
        a.exhausted_budget() ==> a.monthly_budget_amount > 0,
        a.monthly_budget_amount > 0 && b.current_month_spend_amount >= b.monthly_budget_amount
            ==> b.exhausted_budget(),
        a.current_month_spend_amount < a.monthly_budget_amount ==> !a.exhausted_budget(),
{
}

/// A balance that is enforced is used up at zero and below, and one that is not enforced
/// never is.
pub proof fn law_enforced_balances_run_out(a: Principal)
    ensures
        a.available_balance_amount <= 0 && a.balance_enforced <==> a.exhausted_funds(),
{
}

/// The requests of one minute that a key makes one after the other: `n` more are counted.
pub open spec fn counted_times(
    windows: Map<Seq<char>, RateWindow>,
    key: Seq<char>,
    limit: u64,
    minute: i64,
    n: nat,
) -> Map<Seq<char>, RateWindow>
    decreases n,
{
    if n == 0 {
        windows
    } else {
        counted(
            counted_times(windows, key, limit, minute, (n - 1) as nat),
            key,
            limit,
            minute,
        )
    }
}

/// In a minute that it has not been used in, a key passes exactly as many requests as its
/// limit says: the `n`th is let in exactly if `n` is within the limit.
pub proof fn law_a_minute_passes_the_limit_and_no_more(
    windows: Map<Seq<char>, RateWindow>,
    key: Seq<char>,
    limit: u64,
    minute: i64,
    n: nat,
)
    requires
        windows.dom().contains(key) ==> windows[key].minute != minute,
    ensures
        window_at(counted_times(windows, key, limit, minute, n), key, minute).count == if n < limit {
            n as int
        } else {
            limit as int
        },
        window_at(counted_times(windows, key, limit, minute, n), key, minute).count < limit <==> n
            < limit,
    decreases n,
{
    if n > 0 {
        law_a_minute_passes_the_limit_and_no_more(windows, key, limit, minute, (n - 1) as nat);
    }
}

/// A request of one key counts against that key alone.
pub proof fn law_keys_are_counted_apart(
    windows: Map<Seq<char>, RateWindow>,
    key: Seq<char>,
    other: Seq<char>,
    limit: u64,
    minute: i64,
    later: i64,
)
    requires
        key != other,
    ensures
        window_at(counted(windows, key, limit, minute), other, later) == window_at(
            windows,
            other,
            later,
        ),
{
}

/// A key is accepted by the digest of its secret, as long as it has not expired, and the caller
/// of an authorization is a key that is accepted so.
pub proof fn law_callers_hold_the_secret_of_a_live_key(
    credentials: Seq<Credential>,
    secret: Seq<char>,
    now: Timestamp,
    authorization: Seq<char>,
)
    requires
        authorization == "Bearer "@ + secret,
    ensures
        match caller_of(credentials, Some(authorization), now) {
            Some(i) => {
                &&& 0 <= i < credentials.len()
                &&& credentials[i].secret_hash@ == sha256(bytes_of(secret))
                &&& credentials[i].expires_at is Some ==> now < credentials[i].expires_at->0
            },
            None => forall|i: int|
                0 <= i < credentials.len() && (#[trigger] credentials[i]).secret_hash@ == sha256(
                    bytes_of(secret),
                ) ==> credentials[i].expires_at is Some && credentials[i].expires_at->0 <= now,
        },
        caller_of(credentials, None, now) is None,
    decreases credentials.len(),
{
    assert("Bearer "@.is_prefix_of(authorization)) by {
        assert(authorization.subrange(0, "Bearer "@.len() as int) =~= "Bearer "@);
    }
    assert(authorization.skip("Bearer "@.len() as int) =~= secret);
    if credentials.len() > 0 {
        let rest = credentials.drop_last();
        law_callers_hold_the_secret_of_a_live_key(rest, secret, now, authorization);
        assert forall|i: int| 0 <= i < rest.len() implies rest[i] == credentials[i] by {}
        if caller_of(credentials, Some(authorization), now) is None {
            assert forall|i: int|
                0 <= i < credentials.len() && (#[trigger] credentials[i]).secret_hash@ == sha256(
                    bytes_of(secret),
                ) implies credentials[i].expires_at is Some && credentials[i].expires_at->0
                <= now by {
                if i < rest.len() {
                    assert(rest[i].secret_hash@ == sha256(bytes_of(secret)));
                }
            }
        }
    }
}

/// What the control plane says of a key is what the gateway holds it to: its limits, scopes,
/// models, money and end; a key that states no token limit has sixty thousand a minute, and one
/// that states no balance is not held to one.
pub proof fn law_keys_are_held_to_what_they_state(
    key: GatewayKey,
    policies: Seq<RoutePolicy>,
    c: Credential,
)
    requires
        credential_of(key, policies, c),
    ensures
        c.expires_at == key.expires_at,
        base64_bytes(key.secret_hash@) == Some(c.secret_hash@),
        c.principal.api_key_id == key.id && c.principal.tenant_id == key.tenant_id
            && c.principal.project_id == key.project_id,
        c.principal.scopes@ == key.scopes@ && c.principal.allowed_models@ == key.allowed_models@,
        c.principal.rate_limit_rpm == key.rate_limit_rpm,
        key.rate_limit_tpm is Some ==> c.principal.rate_limit_tpm == key.rate_limit_tpm->0,
        key.rate_limit_tpm is None ==> c.principal.rate_limit_tpm == 60_000,
        c.principal.monthly_budget_amount == key.monthly_budget,
        c.principal.current_month_spend_amount == key.current_month_spend,
        c.principal.balance_enforced <==> key.balance_enforced is Some && key.balance_enforced->0,
        key.available_balance is Some ==> c.principal.available_balance_amount
            == key.available_balance->0,
        key.available_balance is None ==> c.principal.available_balance_amount == 0,
        forall|i: int|
            0 <= i < c.principal.route_policies@.len() ==> (
            #[trigger] c.principal.route_policies@[i]).tenant_id@ == key.tenant_id@
                && c.principal.route_policies@[i].project_id@ == key.project_id@,
{
    if key.balance_enforced is Some && key.balance_enforced->0 {
        assert(key.balance_enforced == Some(true));
    }
    let wanted = |p: RoutePolicy| p.tenant_id@ == key.tenant_id@ && p.project_id@ == key.project_id@;
    let kept = policies_of(policies, key.tenant_id@, key.project_id@);
    assert(kept == policies.filter(wanted));
    assert forall|i: int| 0 <= i < c.principal.route_policies@.len() implies (
    #[trigger] c.principal.route_policies@[i]).tenant_id@ == key.tenant_id@
        && c.principal.route_policies@[i].project_id@ == key.project_id@ by {
        assert(same_policy(c.principal.route_policies@[i], kept[i]));
        policies.lemma_filter_pred(wanted, i);
    }
}

/// A configured key is for chat with the demonstration model, is accepted by the digest of its
/// secret, never expires, and is held to six hundred requests and six hundred thousand tokens a
/// minute and to no budget.
pub proof fn law_configured_keys_are_for_chat(config: ApiKeyConfig, c: Credential, now: Timestamp)
    requires
        static_credential(config, c),
    ensures
        accepts(c, sha256(bytes_of(config.secret@)), now),
        c.principal.api_key_id == config.id && c.principal.tenant_id == config.tenant_id
            && c.principal.project_id == config.project_id,
        listed(c.principal.scopes@, "chat.completions"@) && c.principal.scopes@.len() == 1,
        listed(c.principal.allowed_models@, "xscope-demo"@) && c.principal.allowed_models@.len()
            == 1,
        c.principal.rate_limit_rpm == 600 && c.principal.rate_limit_tpm == 600_000,
        !c.principal.exhausted_budget() && !c.principal.exhausted_funds(),
        c.principal.route_policies@.len() == 0,
{
    assert(c.principal.scopes@[0]@ == "chat.completions"@);
    assert(c.principal.allowed_models@[0]@ == "xscope-demo"@);
}

/// The policy of a model is the first one that is for it.
pub proof fn law_policies_are_found_by_model(policies: Seq<RoutePolicy>, model: Seq<char>)
    ensures
        policy_for(policies, model) is Some ==> policy_for(policies, model)->0.model@ == model
            && policies.contains(policy_for(policies, model)->0),
        policy_for(policies, model) is None ==> forall|i: int|
            0 <= i < policies.len() ==> (#[trigger] policies[i]).model@ != model,
    decreases policies.len(),
{
    if policies.len() > 0 {
        assert(policies[0] == policies.first());
        if policies.first().model@ != model {
            let rest = policies.drop_first();
            law_policies_are_found_by_model(rest, model);
            if policy_for(policies, model) is Some {
                let i = choose|i: int|
                    0 <= i < rest.len() && rest[i] == policy_for(rest, model)->0;
                assert(policies[i + 1] == policy_for(policies, model)->0);
            } else {
                assert forall|i: int| 0 <= i < policies.len() implies (
                #[trigger] policies[i]).model@ != model by {
                    if i > 0 {
                        assert(policies[i] == rest[i - 1]);
                    }
                }
            }
        }
    }
}

/// The policies of a snapshot are taken only if each has a revision, is sound, and is the only
/// one for its model and project.
pub proof fn law_snapshots_have_one_policy_for_a_model(
    policies: Seq<RoutePolicy>,
    i: int,
    j: int,
)
    requires
        policies_usable(policies),
    ensures
        0 <= i < policies.len() ==> policies[i].revision > 0 && policy_sound(policies[i].spec),
        0 <= i < j < policies.len() ==> policies[i].tenant_id@ != policies[j].tenant_id@
            || policies[i].project_id@ != policies[j].project_id@ || policies[i].model@
            != policies[j].model@,
{
    if 0 <= i < policies.len() {
        assert(policy_usable(policies, i));
    }
    if 0 <= i < j < policies.len() {
        assert(policy_usable(policies, j));
        assert(!same_subject(policies[i], policies[j]));
    }
}

/// The key that a snapshot is refused for is the first that has no digest, and there is one such
/// key only.
pub proof fn law_snapshots_are_refused_for_the_first_bad_key(keys: Seq<GatewayKey>, i: int, j: int)
    requires
        first_bad_key(keys, i),
        0 <= j < keys.len(),
    ensures
        key_digest(keys[i]) is None,
        key_digest(keys[j]) is None ==> i <= j,
        first_bad_key(keys, j) ==> i == j,
{
}

} // verus!
