//! Project-scoped model routing. Pools are registered by operators, never
//! user URLs.
use crate::text::{blank, byte_len, bytes_of, copy_option, is_blank, join, same, starts_with};
use vstd::multiset::Multiset;
use vstd::prelude::*;

verus! {

#[derive(Clone, Debug, PartialEq, Eq)]
pub struct RoutePool {
    pub id: String,
    pub model: String,
    pub revision: String,
}

#[derive(Clone, Copy, Debug, PartialEq, Eq, Structural)]
pub enum RouteTarget {
    Stable,
    Canary,
}

#[derive(Clone, Debug, PartialEq, Eq)]
pub struct HeaderRoute {
    pub name: String,
    pub value: String,
    pub target: RouteTarget,
}

impl HeaderRoute {
    pub(crate) fn copy(&self) -> (r: Self)
        ensures
            r == *self,
    {
        HeaderRoute { name: self.name.clone(), value: self.value.clone(), target: self.target }
    }
}

#[derive(Clone, Debug, PartialEq, Eq)]
pub struct RoutePolicySpec {
    pub stable_pool: String,
    pub canary_pool: Option<String>,
    pub canary_percent: u8,
    /// First exact match wins; these headers select cohorts, not permissions.
    pub headers: Vec<HeaderRoute>,
}

#[derive(Clone, Debug, PartialEq, Eq)]
pub struct RoutePolicy {
    pub tenant_id: String,
    pub project_id: String,
    pub model: String,
    pub revision: i64,
    pub spec: RoutePolicySpec,
}

#[derive(Clone, Debug)]
pub struct PutRoutePolicy {
    /// 0 creates; subsequent writes must match the current revision.
    pub expected_revision: i64,
    pub spec: RoutePolicySpec,
}

#[derive(Clone, Copy, Debug)]
pub enum ReleaseAction {
    Pause { expected_revision: i64 },
    Promote { expected_revision: i64 },
    Rollback { expected_revision: i64, target_revision: i64 },
}

impl ReleaseAction {
    pub open spec fn revision(self) -> i64 {
        match self {
            ReleaseAction::Pause { expected_revision } => expected_revision,
            ReleaseAction::Promote { expected_revision } => expected_revision,
            ReleaseAction::Rollback { expected_revision, .. } => expected_revision,
        }
    }

    /// The revision that the caller acts on.
    pub fn expected_revision(&self) -> (r: i64)
        ensures
            r == self.revision(),
    {
        match self {
            ReleaseAction::Pause { expected_revision } => *expected_revision,
            ReleaseAction::Promote { expected_revision } => *expected_revision,
            ReleaseAction::Rollback { expected_revision, .. } => *expected_revision,
        }
    }

    pub open spec fn label(self) -> Seq<char> {
        match self {
            ReleaseAction::Pause { .. } => "pause"@,
            ReleaseAction::Promote { .. } => "promote"@,
            ReleaseAction::Rollback { .. } => "rollback"@,
        }
    }

    pub fn name(&self) -> (r: &'static str)
        ensures
            r@ == self.label(),
    {
        match self {
            ReleaseAction::Pause { .. } => "pause",
            ReleaseAction::Promote { .. } => "promote",
            ReleaseAction::Rollback { .. } => "rollback",
        }
    }
}

/// The pool that a target stands for; without a canary pool it is the stable
/// one.
pub open spec fn target_pool(spec: RoutePolicySpec, target: RouteTarget) -> Seq<char> {
    match (target, spec.canary_pool) {
        (RouteTarget::Canary, Some(pool)) => pool@,
        _ => spec.stable_pool@,
    }
}

/// Where a request goes, and why: `first` is the position of the first rule
/// that it matches, or the number of rules if it matches none.
pub open spec fn chosen(spec: RoutePolicySpec, first: int, roll: int) -> (Seq<char>, Seq<char>) {
    if 0 <= first < spec.headers@.len() {
        (target_pool(spec, spec.headers@[first].target), "header"@)
    } else if roll < spec.canary_percent {
        (target_pool(spec, RouteTarget::Canary), "weight"@)
    } else {
        (spec.stable_pool@, "weight"@)
    }
}

pub open spec fn lowercase_header_byte(b: u8) -> bool {
    0x61 <= b <= 0x7a || 0x30 <= b <= 0x39 || b == 0x2d
}

pub open spec fn printable_byte(b: u8) -> bool {
    0x21 <= b <= 0x7e
}

/// A lowercase `x-route-*` name and a printable value without spaces.
pub open spec fn cohort_rule(h: HeaderRoute) -> bool {
    &&& "x-route-"@.is_prefix_of(h.name@)
    &&& 8 < bytes_of(h.name@).len() <= 64
    &&& forall|i: int|
        0 <= i < bytes_of(h.name@).len() ==> lowercase_header_byte(#[trigger] bytes_of(h.name@)[i])
    &&& h.value@.len() > 0
    &&& bytes_of(h.value@).len() <= 256
    &&& forall|i: int|
        0 <= i < bytes_of(h.value@).len() ==> printable_byte(#[trigger] bytes_of(h.value@)[i])
}

/// A rule before the one at `i` matches the same header and value.
pub open spec fn repeated_rule(headers: Seq<HeaderRoute>, i: int) -> bool {
    exists|j: int|
        0 <= j < i && #[trigger] headers[j].name@ == headers[i].name@ && headers[j].value@
            == headers[i].value@
}

pub open spec fn rule_fault(headers: Seq<HeaderRoute>, i: int) -> Option<Seq<char>> {
    if !cohort_rule(headers[i]) {
        Some("rules require lowercase x-route-* names and printable non-space ASCII values"@)
    } else if repeated_rule(headers, i) {
        Some("duplicate header match"@)
    } else {
        None
    }
}

pub open spec fn rules_sound(headers: Seq<HeaderRoute>, n: int) -> bool {
    forall|i: int| 0 <= i < n ==> #[trigger] rule_fault(headers, i) is None
}

pub open spec fn targets_canary(headers: Seq<HeaderRoute>) -> bool {
    exists|i: int| 0 <= i < headers.len() && #[trigger] headers[i].target == RouteTarget::Canary
}

/// The rules that lead to the stable pool, in their order.
pub open spec fn stable_rules(headers: Seq<HeaderRoute>) -> Seq<HeaderRoute> {
    headers.filter(|h: HeaderRoute| h.target == RouteTarget::Stable)
}

/// What is wrong with a policy before its rules are looked at one by one.
pub open spec fn shape_fault(s: RoutePolicySpec) -> Option<Seq<char>> {
    if blank(s.stable_pool@) || bytes_of(s.stable_pool@).len() > 128 {
        Some("stable_pool must be a registered pool ID"@)
    } else if s.canary_pool matches Some(canary) && (blank(canary@) || bytes_of(canary@).len() > 128
        || canary@ == s.stable_pool@) {
        Some("canary_pool must be nonempty and distinct from stable_pool"@)
    } else if s.canary_percent > 100 || s.headers@.len() > 16 {
        Some("canary_percent must be 0..100 and at most 16 header rules are allowed"@)
    } else if s.canary_pool is None && (s.canary_percent > 0 || targets_canary(s.headers@)) {
        Some("canary traffic requires canary_pool"@)
    } else {
        None
    }
}

pub open spec fn policy_sound(s: RoutePolicySpec) -> bool {
    shape_fault(s) is None && rules_sound(s.headers@, s.headers@.len() as int)
}

/// The first thing wrong with a policy is `message`.
pub open spec fn policy_fault(s: RoutePolicySpec, message: Seq<char>) -> bool {
    ||| shape_fault(s) == Some(message)
    ||| shape_fault(s) is None && exists|i: int|
        0 <= i < s.headers@.len() && rules_sound(s.headers@, i) && #[trigger] rule_fault(
            s.headers@,
            i,
        ) == Some(message)
}

pub open spec fn registered(pools: Seq<RoutePool>, id: Seq<char>, model: Seq<char>) -> bool {
    exists|i: int| 0 <= i < pools.len() && #[trigger] pools[i].id@ == id && pools[i].model@ == model
}

pub open spec fn unregistered_text(id: Seq<char>, model: Seq<char>) -> Seq<char> {
    "pool "@ + id + " is not registered for model "@ + model
}

/// The policy is valid, and its pools are registered for the model.
pub open spec fn pools_sound(s: RoutePolicySpec, model: Seq<char>, pools: Seq<RoutePool>) -> bool {
    &&& policy_sound(s)
    &&& registered(pools, s.stable_pool@, model)
    &&& s.canary_pool matches Some(canary) ==> registered(pools, canary@, model)
}

/// The first thing wrong with a policy and its pools is `message`.
pub open spec fn pools_fault(
    s: RoutePolicySpec,
    model: Seq<char>,
    pools: Seq<RoutePool>,
    message: Seq<char>,
) -> bool {
    if !policy_sound(s) {
        policy_fault(s, message)
    } else if !registered(pools, s.stable_pool@, model) {
        message == unregistered_text(s.stable_pool@, model)
    } else {
        s.canary_pool matches Some(canary) && !registered(pools, canary@, model) && message
            == unregistered_text(canary@, model)
    }
}

fn is_lowercase_header(s: &str) -> (r: bool)
    ensures
        r == forall|i: int|
            0 <= i < bytes_of(s@).len() ==> lowercase_header_byte(#[trigger] bytes_of(s@)[i]),
{
    let bytes = s.as_bytes();
    let mut i: usize = 0;
    while i < bytes.len()
        invariant
            i <= bytes.len(),
            bytes@ == bytes_of(s@),
            forall|j: int| 0 <= j < i ==> lowercase_header_byte(#[trigger] bytes@[j]),
        decreases bytes.len() - i,
    {
        let b = bytes[i];
        if !((0x61 <= b && b <= 0x7a) || (0x30 <= b && b <= 0x39) || b == 0x2d) {
            assert(!lowercase_header_byte(bytes_of(s@)[i as int]));
            return false;
        }
        i += 1;
    }
    true
}

fn is_printable(s: &str) -> (r: bool)
    ensures
        r == forall|i: int|
            0 <= i < bytes_of(s@).len() ==> printable_byte(#[trigger] bytes_of(s@)[i]),
{
    let bytes = s.as_bytes();
    let mut i: usize = 0;
    while i < bytes.len()
        invariant
            i <= bytes.len(),
            bytes@ == bytes_of(s@),
            forall|j: int| 0 <= j < i ==> printable_byte(#[trigger] bytes@[j]),
        decreases bytes.len() - i,
    {
        let b = bytes[i];
        if !(0x21 <= b && b <= 0x7e) {
            assert(!printable_byte(bytes_of(s@)[i as int]));
            return false;
        }
        i += 1;
    }
    true
}

fn has_canary_rule(headers: &Vec<HeaderRoute>) -> (r: bool)
    ensures
        r == targets_canary(headers@),
{
    let mut i: usize = 0;
    while i < headers.len()
        invariant
            i <= headers.len(),
            forall|j: int| 0 <= j < i ==> #[trigger] headers@[j].target != RouteTarget::Canary,
        decreases headers.len() - i,
    {
        if headers[i].target == RouteTarget::Canary {
            return true;
        }
        i += 1;
    }
    false
}

fn is_repeated_rule(headers: &Vec<HeaderRoute>, i: usize) -> (r: bool)
    requires
        i < headers.len(),
    ensures
        r == repeated_rule(headers@, i as int),
{
    let mut j: usize = 0;
    while j < i
        invariant
            j <= i < headers.len(),
            forall|k: int|
                0 <= k < j ==> !(#[trigger] headers@[k].name@ == headers@[i as int].name@
                    && headers@[k].value@ == headers@[i as int].value@),
        decreases i - j,
    {
        if same(headers[j].name.as_str(), headers[i].name.as_str()) && same(
            headers[j].value.as_str(),
            headers[i].value.as_str(),
        ) {
            return true;
        }
        j += 1;
    }
    false
}

fn is_registered(pools: &[RoutePool], id: &str, model: &str) -> (r: bool)
    ensures
        r == registered(pools@, id@, model@),
{
    let mut i: usize = 0;
    while i < pools.len()
        invariant
            i <= pools.len(),
            forall|j: int|
                0 <= j < i ==> !(#[trigger] pools@[j].id@ == id@ && pools@[j].model@ == model@),
        decreases pools.len() - i,
    {
        if same(pools[i].id.as_str(), id) && same(pools[i].model.as_str(), model) {
            return true;
        }
        i += 1;
    }
    false
}

impl RoutePolicySpec {
    pub(crate) fn copy(&self) -> (r: Self)
        ensures
            r.stable_pool == self.stable_pool,
            r.canary_pool == self.canary_pool,
            r.canary_percent == self.canary_percent,
            r.headers@ == self.headers@,
    {
        let mut headers: Vec<HeaderRoute> = Vec::new();
        let mut i: usize = 0;
        while i < self.headers.len()
            invariant
                i <= self.headers.len(),
                headers@ == self.headers@.take(i as int),
            decreases self.headers.len() - i,
        {
            headers.push(self.headers[i].copy());
            assert(self.headers@.take(i as int + 1) == self.headers@.take(i as int).push(
                self.headers@[i as int],
            ));
            i += 1;
        }
        assert(self.headers@.take(self.headers@.len() as int) == self.headers@);
        RoutePolicySpec {
            stable_pool: self.stable_pool.clone(),
            canary_pool: copy_option(&self.canary_pool),
            canary_percent: self.canary_percent,
            headers,
        }
    }

    /// Stops canary traffic: no weight, and no header rule that leads to it.
    pub fn pause(&self) -> (r: Self)
        ensures
            r.stable_pool == self.stable_pool,
            r.canary_pool == self.canary_pool,
            r.canary_percent == 0,
            r.headers@ == stable_rules(self.headers@),
    {
        let ghost keep = |h: HeaderRoute| h.target == RouteTarget::Stable;
        let mut headers: Vec<HeaderRoute> = Vec::new();
        let mut i: usize = 0;
        assert(self.headers@.take(0).filter(keep) =~= Seq::empty());
        while i < self.headers.len()
            invariant
                i <= self.headers.len(),
                keep == (|h: HeaderRoute| h.target == RouteTarget::Stable),
                headers@ == self.headers@.take(i as int).filter(keep),
            decreases self.headers.len() - i,
        {
            proof {
                broadcast use Seq::lemma_filter_push;

                assert(self.headers@.take(i as int + 1) == self.headers@.take(i as int).push(
                    self.headers@[i as int],
                ));
            }
            if self.headers[i].target == RouteTarget::Stable {
                headers.push(self.headers[i].copy());
            }
            i += 1;
        }
        assert(self.headers@.take(self.headers@.len() as int) == self.headers@);
        RoutePolicySpec {
            stable_pool: self.stable_pool.clone(),
            canary_pool: copy_option(&self.canary_pool),
            canary_percent: 0,
            headers,
        }
    }

    /// Makes the canary pool the stable one. The rules belonged to the release
    /// that ends here, not to a future canary.
    pub fn promote(&self) -> (r: Result<Self, String>)
        ensures
            match (r, self.canary_pool) {
                (Ok(next), Some(canary)) => {
                    &&& next.stable_pool == canary
                    &&& next.canary_pool is None
                    &&& next.canary_percent == 0
                    &&& next.headers@.len() == 0
                },
                (Err(e), None) => e@ == "no canary pool to promote"@,
                _ => false,
            },
    {
        match &self.canary_pool {
            Some(canary) => Ok(
                RoutePolicySpec {
                    stable_pool: canary.clone(),
                    canary_pool: None,
                    canary_percent: 0,
                    headers: Vec::new(),
                },
            ),
            None => Err("no canary pool to promote".to_owned()),
        }
    }

    /// Validates a policy on its own, without the registry of pools.
    pub fn validate(&self) -> (r: Result<(), String>)
        ensures
            r is Ok <==> policy_sound(*self),
            r matches Err(e) ==> policy_fault(*self, e@),
    {
        if is_blank(self.stable_pool.as_str()) || byte_len(self.stable_pool.as_str()) > 128 {
            return Err("stable_pool must be a registered pool ID".to_owned());
        }
        if let Some(canary) = &self.canary_pool {
            if is_blank(canary.as_str()) || byte_len(canary.as_str()) > 128 || same(
                canary.as_str(),
                self.stable_pool.as_str(),
            ) {
                return Err(
                    "canary_pool must be nonempty and distinct from stable_pool".to_owned(),
                );
            }
        }
        if self.canary_percent > 100 || self.headers.len() > 16 {
            return Err(
                "canary_percent must be 0..100 and at most 16 header rules are allowed".to_owned(),
            );
        }
        if self.canary_pool.is_none() && (self.canary_percent > 0 || has_canary_rule(
            &self.headers,
        )) {
            return Err("canary traffic requires canary_pool".to_owned());
        }
        let mut i: usize = 0;
        while i < self.headers.len()
            invariant
                i <= self.headers.len(),
                shape_fault(*self) is None,
                rules_sound(self.headers@, i as int),
            decreases self.headers.len() - i,
        {
            let header = &self.headers[i];
            // A narrow namespace: never authentication, forwarding, tracing or
            // destination-control headers.
            if !starts_with(header.name.as_str(), "x-route-") || byte_len(header.name.as_str()) <= 8
                || byte_len(header.name.as_str()) > 64 || !is_lowercase_header(
                header.name.as_str(),
            ) || header.value.as_str().is_empty() || byte_len(header.value.as_str()) > 256
                || !is_printable(header.value.as_str()) {
                assert(rule_fault(self.headers@, i as int) == Some(
                    "rules require lowercase x-route-* names and printable non-space ASCII values"@,
                ));
                return Err(
                    "rules require lowercase x-route-* names and printable non-space ASCII values".to_owned(),
                );
            }
            if is_repeated_rule(&self.headers, i) {
                assert(rule_fault(self.headers@, i as int) == Some("duplicate header match"@));
                return Err("duplicate header match".to_owned());
            }
            assert(rule_fault(self.headers@, i as int) is None);
            i += 1;
        }
        Ok(())
    }

    /// Validates a policy and its pools: each is registered for the model.
    pub fn validate_pools(&self, model: &str, pools: &[RoutePool]) -> (r: Result<(), String>)
        ensures
            r is Ok <==> pools_sound(*self, model@, pools@),
            r matches Err(e) ==> pools_fault(*self, model@, pools@, e@),
    {
        self.validate()?;
        if !is_registered(pools, self.stable_pool.as_str(), model) {
            return Err(unregistered(self.stable_pool.as_str(), model));
        }
        if let Some(canary) = &self.canary_pool {
            if !is_registered(pools, canary.as_str(), model) {
                return Err(unregistered(canary.as_str(), model));
            }
        }
        Ok(())
    }

    /// Selects the pool of one request. The first rule that matches decides;
    /// without one, `roll` does: entropy of the server in 0..100, never the
    /// request ID of a client.
    #[must_use]
    pub fn select(&self, matches: impl Fn(&HeaderRoute) -> bool, roll: u8) -> (r: (
        &str,
        &'static str,
    ))
        requires
            forall|i: int|
                0 <= i < self.headers@.len() ==> call_requires(
                    matches,
                    (&#[trigger] self.headers@[i],),
                ),
        ensures
            exists|first: int|
                0 <= first <= self.headers@.len() && (forall|i: int|
                    0 <= i < first ==> call_ensures(
                        matches,
                        (&#[trigger] self.headers@[i],),
                        false,
                    )) && (first < self.headers@.len() ==> call_ensures(
                    matches,
                    (&self.headers@[first],),
                    true,
                )) && (r.0@, r.1@) == #[trigger] chosen(*self, first, roll as int),
    {
        let mut i: usize = 0;
        while i < self.headers.len()
            invariant
                i <= self.headers.len(),
                forall|k: int|
                    0 <= k < self.headers@.len() ==> call_requires(
                        matches,
                        (&#[trigger] self.headers@[k],),
                    ),
                forall|k: int|
                    0 <= k < i ==> call_ensures(matches, (&#[trigger] self.headers@[k],), false),
            decreases self.headers.len() - i,
        {
            let rule = &self.headers[i];
            if matches(rule) {
                let pool = self.target(rule.target);
                assert((pool@, "header"@) == chosen(*self, i as int, roll as int));
                return (pool, "header");
            }
            i += 1;
        }
        if roll < self.canary_percent {
            let pool = self.target(RouteTarget::Canary);
            assert((pool@, "weight"@) == chosen(*self, self.headers@.len() as int, roll as int));
            (pool, "weight")
        } else {
            let pool = self.stable_pool.as_str();
            assert((pool@, "weight"@) == chosen(*self, self.headers@.len() as int, roll as int));
            (pool, "weight")
        }
    }

    fn target(&self, target: RouteTarget) -> (r: &str)
        ensures
            r@ == target_pool(*self, target),
    {
        match target {
            RouteTarget::Stable => self.stable_pool.as_str(),
            RouteTarget::Canary => match &self.canary_pool {
                Some(pool) => pool.as_str(),
                None => self.stable_pool.as_str(),
            },
        }
    }
}

fn unregistered(id: &str, model: &str) -> (r: String)
    ensures
        r@ == unregistered_text(id@, model@),
{
    let mut out = join("pool ", id);
    out.append(" is not registered for model ");
    out.append(model);
    out
}

/// A paused policy sends every request to the stable pool, whatever header it
/// carries and whatever the roll.
pub proof fn law_pause_leaves_no_canary_traffic(
    policy: RoutePolicySpec,
    paused: RoutePolicySpec,
    first: int,
    roll: int,
)
    requires
        0 <= roll,
        paused.stable_pool == policy.stable_pool,
        paused.canary_percent == 0,
        paused.headers@ == stable_rules(policy.headers@),
    ensures
        chosen(paused, first, roll).0 == policy.stable_pool@,
{
    let keep = |h: HeaderRoute| h.target == RouteTarget::Stable;
    if 0 <= first < paused.headers@.len() {
        policy.headers@.lemma_filter_pred(keep, first);
    }
}

/// Two rules of a sound policy match different headers.
proof fn lemma_rules_differ(headers: Seq<HeaderRoute>, p: int, q: int)
    requires
        rules_sound(headers, headers.len() as int),
        0 <= p < headers.len(),
        0 <= q < headers.len(),
        p != q,
    ensures
        headers[p].name@ != headers[q].name@ || headers[p].value@ != headers[q].value@,
{
    assert(rule_fault(headers, p) is None);
    assert(rule_fault(headers, q) is None);
    if headers[p].name@ == headers[q].name@ && headers[p].value@ == headers[q].value@ {
        if p < q {
            assert(repeated_rule(headers, q));
        } else {
            assert(headers[q].name@ == headers[p].name@);
            assert(repeated_rule(headers, p));
        }
    }
}

/// A rule that stands twice in some rules stands twice in any rules that hold them all.
proof fn lemma_standing_twice(headers: Seq<HeaderRoute>, kept: Seq<HeaderRoute>, i: int, j: int)
    requires
        kept.to_multiset().subset_of(headers.to_multiset()),
        0 <= j < i < kept.len(),
        kept[i] == kept[j],
    ensures
        exists|p: int, q: int|
            0 <= p < headers.len() && 0 <= q < headers.len() && p != q && #[trigger] headers[p]
                == kept[i] && #[trigger] headers[q] == kept[i],
{
    broadcast use vstd::seq_lib::group_to_multiset_ensures;

    let h = kept[i];
    assert(kept.remove(i)[j] == h);
    assert(kept.remove(i).contains(h));
    assert(kept.remove(i).to_multiset().count(h) > 0);
    assert(kept.to_multiset().count(h) >= 2);
    assert(headers.to_multiset().count(h) >= 2);
    assert(headers.contains(h));
    let p = choose|p: int| 0 <= p < headers.len() && headers[p] == h;
    assert(headers.remove(p).to_multiset().count(h) > 0);
    assert(headers.remove(p).contains(h));
    let k = choose|k: int| 0 <= k < headers.remove(p).len() && headers.remove(p)[k] == h;
    let q = if k < p {
        k
    } else {
        k + 1
    };
    assert(headers[q] == h);
}

/// Dropping header rules of a sound policy, and moving the others about, leaves it sound.
pub proof fn law_dropped_rules_keep_validity(policy: RoutePolicySpec, next: RoutePolicySpec)
    requires
        policy_sound(policy),
        next == (RoutePolicySpec { headers: next.headers, ..policy }),
        next.headers@.to_multiset().subset_of(policy.headers@.to_multiset()),
    ensures
        policy_sound(next),
{
    broadcast use vstd::seq_lib::group_to_multiset_ensures;

    let all = policy.headers@;
    let kept = next.headers@;
    lemma_submultiset_len(kept.to_multiset(), all.to_multiset());
    assert forall|i: int| 0 <= i < kept.len() implies all.contains(#[trigger] kept[i]) by {
        assert(kept.contains(kept[i]));
        assert(kept.to_multiset().count(kept[i]) > 0);
    }
    assert forall|i: int| 0 <= i < kept.len() implies #[trigger] rule_fault(kept, i) is None by {
        assert(all.contains(kept[i]));
        let p = choose|p: int| 0 <= p < all.len() && all[p] == kept[i];
        assert(rule_fault(all, p) is None);
        if repeated_rule(kept, i) {
            let j = choose|j: int|
                0 <= j < i && #[trigger] kept[j].name@ == kept[i].name@ && kept[j].value@
                    == kept[i].value@;
            if kept[j] == kept[i] {
                lemma_standing_twice(all, kept, i, j);
                let (a, b) = choose|a: int, b: int|
                    0 <= a < all.len() && 0 <= b < all.len() && a != b && #[trigger] all[a]
                        == kept[i] && #[trigger] all[b] == kept[i];
                lemma_rules_differ(all, a, b);
            } else {
                assert(all.contains(kept[j]));
                let q = choose|q: int| 0 <= q < all.len() && all[q] == kept[j];
                lemma_rules_differ(all, p, q);
            }
        }
    }
    assert(targets_canary(kept) ==> targets_canary(all)) by {
        if targets_canary(kept) {
            let i = choose|i: int|
                0 <= i < kept.len() && (#[trigger] kept[i]).target == RouteTarget::Canary;
            assert(all.contains(kept[i]));
        }
    }
}

/// Places that are listed in order lie ever farther on.
proof fn lemma_places_rise(
    all: Seq<HeaderRoute>,
    kept: Seq<HeaderRoute>,
    pick: spec_fn(int) -> int,
    i: int,
)
    requires
        subsequence(all, kept, pick),
        0 <= i < kept.len(),
    ensures
        i <= pick(i),
    decreases i,
{
    if i > 0 {
        lemma_places_rise(all, kept, pick, i - 1);
        assert(pick(i - 1) < pick(i));
    }
}

/// Dropping header rules of a sound policy leaves it sound: `pick` says where the rules
/// that are left stood.
pub proof fn law_fewer_rules_keep_validity(
    policy: RoutePolicySpec,
    next: RoutePolicySpec,
    pick: spec_fn(int) -> int,
)
    requires
        policy_sound(policy),
        next == (RoutePolicySpec { headers: next.headers, ..policy }),
        subsequence(policy.headers@, next.headers@, pick),
    ensures
        policy_sound(next),
{
    let all = policy.headers@;
    let kept = next.headers@;
    if kept.len() > 0 {
        lemma_places_rise(all, kept, pick, kept.len() - 1);
    }
    assert forall|i: int| 0 <= i < kept.len() implies #[trigger] rule_fault(kept, i) is None by {
        assert(0 <= pick(i) < all.len());
        assert(rule_fault(all, pick(i)) is None);
        if repeated_rule(kept, i) {
            let j = choose|j: int|
                0 <= j < i && #[trigger] kept[j].name@ == kept[i].name@ && kept[j].value@
                    == kept[i].value@;
            assert(pick(j) < pick(i));
            lemma_rules_differ(all, pick(j), pick(i));
        }
    }
    assert(targets_canary(kept) ==> targets_canary(all)) by {
        if targets_canary(kept) {
            let i = choose|i: int|
                0 <= i < kept.len() && (#[trigger] kept[i]).target == RouteTarget::Canary;
            assert(all[pick(i)].target == RouteTarget::Canary);
        }
    }
}

/// A part of a collection is no larger than the whole.
proof fn lemma_submultiset_len(part: Multiset<HeaderRoute>, whole: Multiset<HeaderRoute>)
    requires
        part.subset_of(whole),
    ensures
        part.len() <= whole.len(),
{
    assert(whole =~= part.add(whole.sub(part)));
}

/// Whether a policy is sound does not depend on the order of its header rules.
pub proof fn law_the_order_of_rules_decides_no_validity(
    policy: RoutePolicySpec,
    next: RoutePolicySpec,
)
    requires
        next == (RoutePolicySpec { headers: next.headers, ..policy }),
        next.headers@.to_multiset() == policy.headers@.to_multiset(),
    ensures
        policy_sound(next) == policy_sound(policy),
{
    if policy_sound(policy) {
        law_dropped_rules_keep_validity(policy, next);
    }
    if policy_sound(next) {
        assert(policy == (RoutePolicySpec { headers: policy.headers, ..next }));
        law_dropped_rules_keep_validity(next, policy);
    }
}

/// Pausing a valid policy gives a valid policy.
pub proof fn law_pause_keeps_validity(policy: RoutePolicySpec, paused: RoutePolicySpec)
    requires
        policy_sound(policy),
        paused.stable_pool == policy.stable_pool,
        paused.canary_pool == policy.canary_pool,
        paused.canary_percent == 0,
        paused.headers@ == stable_rules(policy.headers@),
    ensures
        policy_sound(paused),
{
    let keep = |h: HeaderRoute| h.target == RouteTarget::Stable;
    let kept = stable_rules(policy.headers@);
    lemma_filter_is_subsequence(policy.headers@);
    assert forall|i: int| 0 <= i < kept.len() implies #[trigger] rule_fault(kept, i) is None by {
        let pick = choose|pick: spec_fn(int) -> int|
            #[trigger] subsequence(policy.headers@, kept, pick);
        assert(subsequence(policy.headers@, kept, pick));
        assert(rule_fault(policy.headers@, pick(i)) is None);
        assert(kept[i] == policy.headers@[pick(i)]);
        if repeated_rule(kept, i) {
            let j = choose|j: int|
                0 <= j < i && #[trigger] kept[j].name@ == kept[i].name@ && kept[j].value@
                    == kept[i].value@;
            assert(kept[j] == policy.headers@[pick(j)]);
            assert(pick(j) < pick(i));
            assert(policy.headers@[pick(j)].name@ == policy.headers@[pick(i)].name@);
            assert(repeated_rule(policy.headers@, pick(i)));
        }
    }
    assert(!targets_canary(kept)) by {
        assert forall|i: int| 0 <= i < kept.len() implies kept[i].target == RouteTarget::Stable by {
            policy.headers@.lemma_filter_pred(keep, i);
        }
    }
}

/// `pick` lists, in order, where the rules of `kept` stand in `all`.
pub open spec fn subsequence(
    all: Seq<HeaderRoute>,
    kept: Seq<HeaderRoute>,
    pick: spec_fn(int) -> int,
) -> bool {
    &&& forall|i: int|
        0 <= i < kept.len() ==> 0 <= #[trigger] pick(i) < all.len() && kept[i] == all[pick(i)]
    &&& forall|i: int, j: int|
        0 <= i < j < kept.len() ==> #[trigger] pick(i) < #[trigger] pick(j)
}

proof fn lemma_filter_is_subsequence(all: Seq<HeaderRoute>)
    ensures
        stable_rules(all).len() <= all.len(),
        exists|pick: spec_fn(int) -> int| #[trigger] subsequence(all, stable_rules(all), pick),
    decreases all.len(),
{
    let keep = |h: HeaderRoute| h.target == RouteTarget::Stable;
    reveal(Seq::filter);
    if all.len() == 0 {
        let pick = |i: int| 0int;
        assert(subsequence(all, stable_rules(all), pick));
    } else {
        let init = all.drop_last();
        lemma_filter_is_subsequence(init);
        let pick = choose|pick: spec_fn(int) -> int|
            #[trigger] subsequence(init, stable_rules(init), pick);
        let kept = stable_rules(init);
        if keep(all.last()) {
            let next = |i: int|
                if i == kept.len() {
                    all.len() - 1
                } else {
                    pick(i)
                };
            assert(all.filter(keep) =~= kept.push(all.last()));
            assert forall|i: int| 0 <= i < kept.len() implies 0 <= #[trigger] pick(i) < init.len()
                && kept[i] == init[pick(i)] by {}
            assert(subsequence(all, stable_rules(all), next));
        } else {
            assert(all.filter(keep) =~= kept);
            assert(subsequence(all, stable_rules(all), pick));
        }
    }
}

/// The canary of a valid policy can be promoted once: what comes out is valid
/// and has no canary left to promote.
pub proof fn law_promotion_is_a_new_stable(policy: RoutePolicySpec, next: RoutePolicySpec)
    requires
        policy_sound(policy),
        policy.canary_pool is Some,
        next.stable_pool == policy.canary_pool->0,
        next.canary_pool is None,
        next.canary_percent == 0,
        next.headers@.len() == 0,
    ensures
        policy_sound(next),
        forall|first: int, roll: int|
            0 <= roll ==> #[trigger] chosen(next, first, roll).0 == target_pool(
                policy,
                RouteTarget::Canary,
            ),
{
}

/// Without a matching rule, `canary_percent` of the hundred rolls go to the
/// canary pool and the others to the stable one.
pub proof fn law_weight_is_a_percentage(policy: RoutePolicySpec)
    requires
        policy_sound(policy),
        policy.canary_pool is Some,
    ensures
        ({
            let canary = Set::new(
                |roll: int|
                    0 <= roll < 100 && chosen(policy, policy.headers@.len() as int, roll).0
                        == policy.canary_pool->0@,
            );
            canary.finite() && canary.len() == policy.canary_percent
        }),
{
    let n = policy.headers@.len() as int;
    let canary = Set::new(
        |roll: int| 0 <= roll < 100 && chosen(policy, n, roll).0 == policy.canary_pool->0@,
    );
    let range = vstd::set_lib::set_int_range(0, policy.canary_percent as int);
    vstd::set_lib::lemma_int_range(0, policy.canary_percent as int);
    assert(canary =~= range);
}

/// A policy that passed validation against the registry sends every request
/// to a pool that is registered for the model.
pub proof fn law_selection_is_registered(
    policy: RoutePolicySpec,
    model: Seq<char>,
    pools: Seq<RoutePool>,
    first: int,
    roll: int,
)
    requires
        pools_sound(policy, model, pools),
    ensures
        registered(pools, chosen(policy, first, roll).0, model),
{
}

/// A rule that matches sends its request to the pool that it names, whatever the weight; without
/// one the weight decides, and a request that the weight does not send to the canary is served
/// by the stable pool.
pub proof fn law_rules_come_before_the_weight(spec: RoutePolicySpec, first: int, roll: int)
    requires
        0 <= roll < 100,
    ensures
        0 <= first < spec.headers@.len() ==> chosen(spec, first, roll).0 == if
            spec.headers@[first].target == RouteTarget::Canary && spec.canary_pool is Some {
            spec.canary_pool->0@
        } else {
            spec.stable_pool@
        },
        0 <= first < spec.headers@.len() ==> chosen(spec, first, roll).1 == "header"@,
        !(0 <= first < spec.headers@.len()) ==> chosen(spec, first, roll).1 == "weight"@,
        !(0 <= first < spec.headers@.len()) && spec.canary_pool is Some ==> chosen(
            spec,
            first,
            roll,
        ).0 == if roll < spec.canary_percent {
            spec.canary_pool->0@
        } else {
            spec.stable_pool@
        },
        !(0 <= first < spec.headers@.len()) && spec.canary_pool is None ==> chosen(
            spec,
            first,
            roll,
        ).0 == spec.stable_pool@,
{
}

/// A larger share for the canary takes nothing away from it: whoever was served by the canary
/// still is.
pub proof fn law_a_larger_share_keeps_its_requests(
    a: RoutePolicySpec,
    b: RoutePolicySpec,
    first: int,
    roll: int,
)
    requires
        a.canary_pool is Some,
        b.canary_pool == a.canary_pool,
        b.stable_pool == a.stable_pool,
        b.headers@ == a.headers@,
        a.stable_pool@ != a.canary_pool->0@,
        a.canary_percent <= b.canary_percent,
    ensures
        chosen(a, first, roll).0 == a.canary_pool->0@ ==> chosen(b, first, roll).0
            == a.canary_pool->0@,
{
}

/// A sound policy names two different pools if it names a canary, gives it a share of a
/// hundred at most, sends nothing to a canary that it does not name, and has sixteen rules at
/// most, of which no two match the same.
pub proof fn law_sound_policies_are_unambiguous(s: RoutePolicySpec, i: int, j: int)
    requires
        policy_sound(s),
    ensures
        !blank(s.stable_pool@),
        bytes_of(s.stable_pool@).len() < 129,
        s.canary_pool is Some ==> s.canary_pool->0@ != s.stable_pool@ && !blank(s.canary_pool->0@)
            && bytes_of(s.canary_pool->0@).len() < 129,
        0 <= s.canary_percent < 101,
        s.headers@.len() < 17,
        s.canary_pool is None ==> s.canary_percent == 0,
        s.canary_pool is None && 0 <= i < s.headers@.len() ==> s.headers@[i].target
            == RouteTarget::Stable,
        0 <= i < j < s.headers@.len() ==> s.headers@[i].name@ != s.headers@[j].name@
            || s.headers@[i].value@ != s.headers@[j].value@,
        0 <= i < s.headers@.len() ==> "x-route-"@.is_prefix_of(s.headers@[i].name@)
            && bytes_of(s.headers@[i].name@).len() < 65 && s.headers@[i].value@.len() > 0
            && bytes_of(s.headers@[i].value@).len() < 257,
{
    if 0 <= i < s.headers@.len() {
        assert(rule_fault(s.headers@, i) is None);
    }
    if 0 <= i < j < s.headers@.len() {
        assert(rule_fault(s.headers@, j) is None);
        assert(s.headers@[i].name@ == s.headers@[i].name@);
    }
}

/// A policy without a canary and without rules is sound for every named pool, and every pool
/// that a policy names is one that serves the model.
pub proof fn law_policies_name_pools_of_their_model(
    s: RoutePolicySpec,
    model: Seq<char>,
    pools: Seq<RoutePool>,
)
    ensures
        !blank(s.stable_pool@) && bytes_of(s.stable_pool@).len() <= 128 && s.canary_pool is None
            && s.canary_percent == 0 && s.headers@.len() == 0 ==> policy_sound(s),
        pools_sound(s, model, pools) ==> exists|i: int|
            0 <= i < pools.len() && (#[trigger] pools[i]).id@ == s.stable_pool@ && pools[i].model@
                == model,
        pools_sound(s, model, pools) && s.canary_pool is Some ==> exists|i: int|
            0 <= i < pools.len() && (#[trigger] pools[i]).id@ == s.canary_pool->0@
                && pools[i].model@ == model,
{
    if pools_sound(s, model, pools) {
        let i = choose|i: int|
            0 <= i < pools.len() && #[trigger] pools[i].id@ == s.stable_pool@ && pools[i].model@
                == model;
        assert(pools[i].id@ == s.stable_pool@);
        if s.canary_pool is Some {
            let k = choose|k: int|
                0 <= k < pools.len() && #[trigger] pools[k].id@ == s.canary_pool->0@
                    && pools[k].model@ == model;
            assert(pools[k].id@ == s.canary_pool->0@);
        }
    }
}

/// A rule matches a header of its own family by a value that can be printed: everything from the
/// exclamation mark to the tilde, and no space.
pub proof fn law_rules_are_of_their_family_and_printable(h: HeaderRoute, i: int)
    ensures
        cohort_rule(h) ==> bytes_of(h.name@).len() >= 9 && bytes_of(h.name@).len() < 65 && h.value@.len()
            != 0 && bytes_of(h.value@).len() < 257,
        cohort_rule(h) && 0 <= i < bytes_of(h.value@).len() ==> 0x20 < bytes_of(h.value@)[i] < 0x7f,
        forall|b: u8| 0x20 < b < 0x7f ==> #[trigger] printable_byte(b),
{
}

} // verus!
