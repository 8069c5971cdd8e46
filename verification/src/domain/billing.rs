//! Contracts shared by financial admission and the ledger.
use crate::text::same;
use vstd::prelude::*;

verus! {

/// Asks for money to be held before a request is sent to a model.
#[derive(Clone, Debug)]
pub struct ReserveRequest {
    pub id: String,
    pub tenant_id: String,
    pub project_id: String,
    pub api_key_id: String,
    pub request_id: String,
    pub model_id: String,
    pub model_revision: String,
    pub price_version: String,
    pub input_token_limit: i64,
    pub output_token_limit: i64,
}

/// Attests known usage, including partial cancelled usage. Unknown is not zero.
#[derive(Clone, Debug)]
pub struct SettleRequest {
    pub input_tokens: i64,
    pub output_tokens: i64,
    pub latency_ms: i64,
    pub endpoint_id: String,
    pub region: String,
    pub status: String,
}

/// Says that a dispatched request ended without usage that can be charged.
/// `usage_missing` carries no token counts, `usage_over_limit` carries both.
#[derive(Clone, Debug)]
pub struct UnresolvedRequest {
    pub event_id: String,
    pub reason: String,
    pub input_tokens: Option<u64>,
    pub output_tokens: Option<u64>,
}

impl ReserveRequest {
    pub(crate) fn copy(&self) -> (r: Self)
        ensures
            r == *self,
    {
        ReserveRequest {
            id: self.id.clone(),
            tenant_id: self.tenant_id.clone(),
            project_id: self.project_id.clone(),
            api_key_id: self.api_key_id.clone(),
            request_id: self.request_id.clone(),
            model_id: self.model_id.clone(),
            model_revision: self.model_revision.clone(),
            price_version: self.price_version.clone(),
            input_token_limit: self.input_token_limit,
            output_token_limit: self.output_token_limit,
        }
    }
}

impl SettleRequest {
    pub(crate) fn copy(&self) -> (r: Self)
        ensures
            r == *self,
    {
        SettleRequest {
            input_tokens: self.input_tokens,
            output_tokens: self.output_tokens,
            latency_ms: self.latency_ms,
            endpoint_id: self.endpoint_id.clone(),
            region: self.region.clone(),
            status: self.status.clone(),
        }
    }
}

impl UnresolvedRequest {
    pub(crate) fn copy(&self) -> (r: Self)
        ensures
            r == *self,
    {
        UnresolvedRequest {
            event_id: self.event_id.clone(),
            reason: self.reason.clone(),
            input_tokens: self.input_tokens,
            output_tokens: self.output_tokens,
        }
    }
}

pub open spec fn same_reserve_view(a: ReserveRequest, b: ReserveRequest) -> bool {
    &&& a.id@ == b.id@
    &&& a.tenant_id@ == b.tenant_id@
    &&& a.project_id@ == b.project_id@
    &&& a.api_key_id@ == b.api_key_id@
    &&& a.request_id@ == b.request_id@
    &&& a.model_id@ == b.model_id@
    &&& a.model_revision@ == b.model_revision@
    &&& a.price_version@ == b.price_version@
    &&& a.input_token_limit == b.input_token_limit
    &&& a.output_token_limit == b.output_token_limit
}

pub(crate) fn same_reserve(a: &ReserveRequest, b: &ReserveRequest) -> (r: bool)
    ensures
        r == same_reserve_view(*a, *b),
{
    same(a.id.as_str(), b.id.as_str()) && same(a.tenant_id.as_str(), b.tenant_id.as_str()) && same(
        a.project_id.as_str(),
        b.project_id.as_str(),
    ) && same(a.api_key_id.as_str(), b.api_key_id.as_str()) && same(
        a.request_id.as_str(),
        b.request_id.as_str(),
    ) && same(a.model_id.as_str(), b.model_id.as_str()) && same(
        a.model_revision.as_str(),
        b.model_revision.as_str(),
    ) && same(a.price_version.as_str(), b.price_version.as_str()) && a.input_token_limit
        == b.input_token_limit && a.output_token_limit == b.output_token_limit
}

pub open spec fn same_settle_view(a: SettleRequest, b: SettleRequest) -> bool {
    &&& a.input_tokens == b.input_tokens
    &&& a.output_tokens == b.output_tokens
    &&& a.latency_ms == b.latency_ms
    &&& a.endpoint_id@ == b.endpoint_id@
    &&& a.region@ == b.region@
    &&& a.status@ == b.status@
}

pub(crate) fn same_settle(a: &SettleRequest, b: &SettleRequest) -> (r: bool)
    ensures
        r == same_settle_view(*a, *b),
{
    a.input_tokens == b.input_tokens && a.output_tokens == b.output_tokens && a.latency_ms
        == b.latency_ms && same(a.endpoint_id.as_str(), b.endpoint_id.as_str()) && same(
        a.region.as_str(),
        b.region.as_str(),
    ) && same(a.status.as_str(), b.status.as_str())
}

pub open spec fn same_unresolved_view(a: UnresolvedRequest, b: UnresolvedRequest) -> bool {
    &&& a.event_id@ == b.event_id@
    &&& a.reason@ == b.reason@
    &&& a.input_tokens == b.input_tokens
    &&& a.output_tokens == b.output_tokens
}

pub(crate) fn same_unresolved(a: &UnresolvedRequest, b: &UnresolvedRequest) -> (r: bool)
    ensures
        r == same_unresolved_view(*a, *b),
{
    same(a.event_id.as_str(), b.event_id.as_str()) && same(a.reason.as_str(), b.reason.as_str())
        && a.input_tokens == b.input_tokens && a.output_tokens == b.output_tokens
}

} // verus!
