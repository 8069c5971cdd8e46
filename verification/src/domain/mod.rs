//! Business domain: money, models, API keys and the records that the platform
//! keeps about orders, payments, invoices and usage.
pub mod billing;
pub mod catalog;
pub mod cluster;
pub mod routing;
pub mod traffic;

use crate::text::{blank, is_blank, join, same};
use vstd::prelude::*;

verus! {

pub const MICROS_PER_MINOR_UNIT: i64 = 1_000_000;

/// Microseconds since the Unix epoch.
pub type Timestamp = i64;

/// A time that leaves room for every interval that is added to it or taken off
/// it. Every day up to the year 262142 does.
pub open spec fn clock_in_range(time: Timestamp) -> bool {
    -9_000_000_000_000_000_000 <= time <= 9_000_000_000_000_000_000
}

#[derive(Clone, Debug, PartialEq, Eq)]
pub struct Money {
    pub currency: String,
    pub amount: i64,
}

impl Money {
    /// An amount of Chinese yuan, in minor units.
    #[must_use]
    pub fn cny(amount: i64) -> (r: Self)
        ensures
            r.currency@ == "CNY"@,
            r.amount == amount,
    {
        Money { currency: "CNY".to_owned(), amount }
    }

    pub(crate) fn copy(&self) -> (r: Self)
        ensures
            r == *self,
    {
        Money { currency: self.currency.clone(), amount: self.amount }
    }
}

impl Default for Money {
    fn default() -> (r: Self)
        ensures
            r.currency@.len() == 0,
            r.amount == 0,
    {
        Money { currency: String::new(), amount: 0 }
    }
}

#[derive(Clone, Debug, PartialEq, Eq)]
pub struct Model {
    pub id: String,
    pub display_name: String,
    pub max_context_tokens: i64,
    pub input_per_million_tokens: Money,
    pub output_per_million_tokens: Money,
    pub price_version: String,
}

impl Model {
    pub(crate) fn copy(&self) -> (r: Self)
        ensures
            r == *self,
    {
        Model {
            id: self.id.clone(),
            display_name: self.display_name.clone(),
            max_context_tokens: self.max_context_tokens,
            input_per_million_tokens: self.input_per_million_tokens.copy(),
            output_per_million_tokens: self.output_per_million_tokens.copy(),
            price_version: self.price_version.clone(),
        }
    }
}

/// The model that a fresh installation sells.
pub open spec fn demo_model(m: Model) -> bool {
    &&& m.id@ == "xscope-demo"@
    &&& m.display_name@ == "XScope Demo Model"@
    &&& m.max_context_tokens == 32_768
    &&& m.input_per_million_tokens.currency@ == "CNY"@
    &&& m.input_per_million_tokens.amount == 1_000
    &&& m.output_per_million_tokens.currency@ == "CNY"@
    &&& m.output_per_million_tokens.amount == 2_000
    &&& m.price_version@ == "2026-09-01"@
}

impl Default for Model {
    fn default() -> (r: Self)
        ensures
            demo_model(r),
    {
        Model {
            id: "xscope-demo".to_owned(),
            display_name: "XScope Demo Model".to_owned(),
            max_context_tokens: 32_768,
            input_per_million_tokens: Money::cny(1_000),
            output_per_million_tokens: Money::cny(2_000),
            price_version: "2026-09-01".to_owned(),
        }
    }
}

#[derive(Clone, Debug, PartialEq, Eq)]
pub struct Project {
    pub id: String,
    pub tenant_id: String,
    pub name: String,
}

#[derive(Clone, Copy, Debug, PartialEq, Eq, Structural)]
pub enum KeyStatus {
    Active,
    Expired,
    Revoked,
}

#[derive(Clone, Debug)]
pub struct ApiKey {
    pub id: String,
    pub tenant_id: String,
    pub project_id: String,
    pub name: String,
    pub scopes: Vec<String>,
    pub allowed_models: Vec<String>,
    pub expires_at: Option<Timestamp>,
    pub rate_limit_rpm: i32,
    pub rate_limit_tpm: i64,
    pub monthly_budget: Money,
    pub created_at: Timestamp,
    pub revoked_at: Option<Timestamp>,
    pub status: KeyStatus,
}

#[derive(Clone, Debug)]
pub struct ApiKeyRequest {
    pub id: String,
    pub tenant_id: String,
    pub project_id: String,
    pub name: String,
    pub scopes: Vec<String>,
    pub allowed_models: Vec<String>,
    pub expires_at: Option<Timestamp>,
    pub rate_limit_rpm: i32,
    pub rate_limit_tpm: i64,
    pub monthly_budget: Money,
}

#[derive(Clone, Debug)]
pub struct IssuedApiKey {
    pub api_key: ApiKey,
    pub secret: String,
}

#[derive(Clone, Debug)]
pub struct Quote {
    pub model_id: String,
    pub price_version: String,
    pub maximum: Money,
}

#[derive(Clone, Debug)]
pub struct GatewayKey {
    pub id: String,
    pub tenant_id: String,
    pub project_id: String,
    pub secret_hash: String,
    pub scopes: Vec<String>,
    pub allowed_models: Vec<String>,
    pub expires_at: Option<Timestamp>,
    pub rate_limit_rpm: i32,
    pub rate_limit_tpm: i64,
    pub monthly_budget: Money,
    pub current_month_spend: Money,
    pub balance_enforced: bool,
    pub available_balance: Money,
}

/// What a gateway works from between two refreshes.
#[derive(Clone, Debug)]
pub struct GatewaySnapshot {
    pub generated_at: Timestamp,
    pub keys: Vec<GatewayKey>,
    pub route_policies: Vec<routing::RoutePolicy>,
    pub catalog: catalog::CatalogSnapshot,
    pub traffic: Option<traffic::TrafficSnapshot>,
}

#[derive(Clone, Debug)]
pub struct UsageEvent {
    pub schema_version: String,
    pub event_id: String,
    pub request_id: String,
    pub occurred_at: Timestamp,
    pub tenant_id: String,
    pub project_id: String,
    pub api_key_id: String,
    pub model_id: String,
    pub model_revision: String,
    pub endpoint_id: String,
    pub region: String,
    pub price_version: String,
    pub input_tokens: i64,
    pub output_tokens: i64,
    pub cached_input_tokens: i64,
    pub latency_ms: i64,
    pub status: String,
    pub cost: Money,
}

#[derive(Clone, Debug)]
pub struct ProjectBilling {
    pub project_id: String,
    pub requests: i64,
    pub input_tokens: i64,
    pub output_tokens: i64,
    pub cost: Money,
}

#[derive(Clone, Debug)]
pub struct BillingSummary {
    pub period_start: Timestamp,
    pub period_end: Timestamp,
    pub requests: i64,
    pub input_tokens: i64,
    pub output_tokens: i64,
    pub total: Money,
    pub projects: Vec<ProjectBilling>,
}

#[derive(Clone, Debug)]
pub struct BillingAccount {
    pub id: String,
    pub tenant_id: String,
    pub project_id: String,
    pub currency: String,
    pub balance: Money,
    pub enforce_balance: bool,
    pub status: String,
    pub created_at: Timestamp,
    pub updated_at: Timestamp,
}

#[derive(Clone, Debug)]
pub struct CreateOrderRequest {
    pub id: String,
    pub tenant_id: String,
    pub project_id: String,
    pub amount: Money,
    pub description: String,
}

#[derive(Clone, Debug)]
pub struct BillingOrder {
    pub id: String,
    pub tenant_id: String,
    pub project_id: String,
    pub kind: String,
    pub amount: Money,
    pub status: String,
    pub description: String,
    pub created_at: Timestamp,
    pub updated_at: Timestamp,
}

#[derive(Clone, Debug)]
pub struct CapturePaymentRequest {
    pub id: String,
    pub provider: String,
    pub provider_reference: String,
}

#[derive(Clone, Debug)]
pub struct Payment {
    pub id: String,
    pub order_id: String,
    pub provider: String,
    pub provider_reference: String,
    pub amount: Money,
    pub status: String,
    pub paid_at: Option<Timestamp>,
    pub created_at: Timestamp,
}

#[derive(Clone, Debug)]
pub struct CreateRefundRequest {
    pub id: String,
    pub payment_id: String,
    pub amount: Money,
    pub reason: String,
}

#[derive(Clone, Debug)]
pub struct Refund {
    pub id: String,
    pub payment_id: String,
    pub amount: Money,
    pub reason: String,
    pub status: String,
    pub provider_reference: Option<String>,
    pub created_at: Timestamp,
    pub completed_at: Option<Timestamp>,
}

#[derive(Clone, Debug)]
pub struct LedgerEntry {
    pub id: String,
    pub transaction_id: String,
    pub billing_account_id: String,
    pub ledger_account: String,
    pub amount_microunits: i64,
    pub currency: String,
    pub created_at: Timestamp,
}

#[derive(Clone, Debug)]
pub struct LedgerTransaction {
    pub id: String,
    pub tenant_id: String,
    pub kind: String,
    pub reference_type: String,
    pub reference_id: String,
    pub description: String,
    pub created_at: Timestamp,
    pub entries: Vec<LedgerEntry>,
}

#[derive(Clone, Debug)]
pub struct TenantMembership {
    pub tenant_id: String,
    pub role: String,
}

#[derive(Clone, Debug)]
pub struct UpdateTenantMembership {
    pub role: String,
}

#[derive(Clone, Debug)]
pub struct PlatformUser {
    pub id: String,
    pub external_subject: String,
    pub username: String,
    pub email: String,
    pub status: String,
    pub last_login_at: Timestamp,
    pub created_at: Timestamp,
    pub updated_at: Timestamp,
    pub memberships: Vec<TenantMembership>,
}

#[derive(Clone, Debug)]
pub struct CreateInvoiceRequest {
    pub id: String,
    pub tenant_id: String,
    pub project_id: String,
    pub period_start: Timestamp,
    pub period_end: Timestamp,
    pub title: String,
}

#[derive(Clone, Debug)]
pub struct Invoice {
    pub id: String,
    pub tenant_id: String,
    pub project_id: String,
    pub period_start: Timestamp,
    pub period_end: Timestamp,
    pub amount: Money,
    pub status: String,
    pub title: String,
    pub issued_at: Timestamp,
}

#[derive(Clone, Debug)]
pub struct ProviderSettlement {
    pub provider_reference: String,
    pub amount: Money,
}

#[derive(Clone, Debug)]
pub struct ReconcileRequest {
    pub tenant_id: String,
    pub provider: String,
    pub settlements: Vec<ProviderSettlement>,
}

/// The difference between what the platform captured and what the provider
/// settled. `amount_mismatches` names each reference once, in ascending order.
#[derive(Clone, Debug)]
pub struct ReconciliationReport {
    pub generated_at: Timestamp,
    pub provider: String,
    pub matched: i64,
    pub platform_only: Vec<String>,
    pub provider_only: Vec<String>,
    pub amount_mismatches: Vec<(String, Money)>,
}

#[derive(Clone, Copy, Debug)]
pub struct UpdateBalancePolicy {
    pub enforce_balance: bool,
}

#[derive(Clone, Copy, Debug, PartialEq, Eq)]
pub enum DomainError {
    Required(&'static str),
    UnsupportedCurrency,
    NegativeAmount,
    NegativeTokens,
    CostOverflow,
    InvalidRpm,
    InvalidTpm,
    InvalidExpiry,
    InvalidScope,
    MissingModel,
}

impl DomainError {
    pub open spec fn text(self) -> Seq<char> {
        match self {
            DomainError::Required(name) => name@ + " is required"@,
            DomainError::UnsupportedCurrency => "unsupported currency"@,
            DomainError::NegativeAmount => "amount must be non-negative"@,
            DomainError::NegativeTokens => "token counts must be non-negative"@,
            DomainError::CostOverflow => "usage cost exceeds supported range"@,
            DomainError::InvalidRpm => "rate_limit_rpm must be between 1 and 1000000"@,
            DomainError::InvalidTpm => "rate_limit_tpm must be between 1 and 10000000000"@,
            DomainError::InvalidExpiry => "expires_at must be in the future"@,
            DomainError::InvalidScope => "unsupported API key scope"@,
            DomainError::MissingModel => "at least one allowed model is required"@,
        }
    }

    /// The sentence shown to the caller.
    pub fn message(&self) -> (r: String)
        ensures
            r@ == self.text(),
    {
        match self {
            DomainError::Required(name) => join(name, " is required"),
            DomainError::UnsupportedCurrency => "unsupported currency".to_owned(),
            DomainError::NegativeAmount => "amount must be non-negative".to_owned(),
            DomainError::NegativeTokens => "token counts must be non-negative".to_owned(),
            DomainError::CostOverflow => "usage cost exceeds supported range".to_owned(),
            DomainError::InvalidRpm => "rate_limit_rpm must be between 1 and 1000000".to_owned(),
            DomainError::InvalidTpm =>
                "rate_limit_tpm must be between 1 and 10000000000".to_owned(),
            DomainError::InvalidExpiry => "expires_at must be in the future".to_owned(),
            DomainError::InvalidScope => "unsupported API key scope".to_owned(),
            DomainError::MissingModel => "at least one allowed model is required".to_owned(),
        }
    }
}

/// Why a key policy is refused: the first rule that it breaks.
pub open spec fn key_policy_fault(key: ApiKeyRequest, now: Timestamp) -> Option<DomainError> {
    if blank(key.id@) {
        Some(DomainError::Required("id"))
    } else if blank(key.tenant_id@) {
        Some(DomainError::Required("tenant_id"))
    } else if blank(key.project_id@) {
        Some(DomainError::Required("project_id"))
    } else if blank(key.name@) {
        Some(DomainError::Required("name"))
    } else if !(1 <= key.rate_limit_rpm <= 1_000_000) {
        Some(DomainError::InvalidRpm)
    } else if !(1 <= key.rate_limit_tpm <= 10_000_000_000) {
        Some(DomainError::InvalidTpm)
    } else if money_fault(key.monthly_budget) is Some {
        money_fault(key.monthly_budget)
    } else if key.expires_at is Some && key.expires_at->0 <= now {
        Some(DomainError::InvalidExpiry)
    } else if !only_chat_scope(key.scopes@) {
        Some(DomainError::InvalidScope)
    } else if key.allowed_models@.len() == 0 {
        Some(DomainError::MissingModel)
    } else {
        None
    }
}

/// A nonempty list of scopes with no other scope than chat completions.
pub open spec fn only_chat_scope(scopes: Seq<String>) -> bool {
    scopes.len() > 0 && forall|i: int|
        0 <= i < scopes.len() ==> #[trigger] scopes[i]@ == "chat.completions"@
}

fn has_only_chat_scope(scopes: &Vec<String>) -> (r: bool)
    ensures
        r == only_chat_scope(scopes@),
{
    if scopes.len() == 0 {
        return false;
    }
    let mut i: usize = 0;
    while i < scopes.len()
        invariant
            i <= scopes.len(),
            forall|j: int| 0 <= j < i ==> #[trigger] scopes@[j]@ == "chat.completions"@,
        decreases scopes.len() - i,
    {
        if !same(scopes[i].as_str(), "chat.completions") {
            assert(scopes@[i as int]@ != "chat.completions"@);
            return false;
        }
        i += 1;
    }
    true
}

/// A request with what the caller left out filled in.
pub open spec fn defaulted(q: ApiKeyRequest, r: ApiKeyRequest) -> bool {
    &&& r.id == q.id
    &&& r.tenant_id == q.tenant_id
    &&& r.project_id == q.project_id
    &&& r.name == q.name
    &&& r.expires_at == q.expires_at
    &&& q.scopes@.len() > 0 ==> r.scopes@ == q.scopes@
    &&& q.scopes@.len() == 0 ==> r.scopes@.len() == 1 && r.scopes@[0]@ == "chat.completions"@
    &&& q.allowed_models@.len() > 0 ==> r.allowed_models@ == q.allowed_models@
    &&& q.allowed_models@.len() == 0 ==> r.allowed_models@.len() == 1 && r.allowed_models@[0]@
        == "xscope-demo"@
    &&& r.rate_limit_rpm == if q.rate_limit_rpm == 0 {
        60
    } else {
        q.rate_limit_rpm
    }
    &&& r.rate_limit_tpm == if q.rate_limit_tpm == 0 {
        60_000
    } else {
        q.rate_limit_tpm
    }
    &&& r.monthly_budget.amount == q.monthly_budget.amount
    &&& r.monthly_budget.currency@ == if q.monthly_budget.currency@.len() == 0 {
        "CNY"@
    } else {
        q.monthly_budget.currency@
    }
}

impl ApiKeyRequest {
    /// Fills in what the caller left out.
    #[must_use]
    pub fn with_defaults(self) -> (r: Self)
        ensures
            defaulted(self, r),
    {
        let mut out = self;
        if out.scopes.len() == 0 {
            out.scopes.push("chat.completions".to_owned());
        }
        if out.allowed_models.len() == 0 {
            out.allowed_models.push("xscope-demo".to_owned());
        }
        if out.rate_limit_rpm == 0 {
            out.rate_limit_rpm = 60;
        }
        if out.rate_limit_tpm == 0 {
            out.rate_limit_tpm = 60_000;
        }
        if out.monthly_budget.currency.as_str().is_empty() {
            out.monthly_budget.currency = "CNY".to_owned();
        }
        out
    }

    /// Validates the key policy before it is persisted.
    pub fn validate(&self, now: Timestamp) -> (r: Result<(), DomainError>)
        ensures
            match r {
                Ok(()) => key_policy_fault(*self, now) is None,
                Err(e) => key_policy_fault(*self, now) == Some(e),
            },
    {
        if is_blank(self.id.as_str()) {
            return Err(DomainError::Required("id"));
        }
        if is_blank(self.tenant_id.as_str()) {
            return Err(DomainError::Required("tenant_id"));
        }
        if is_blank(self.project_id.as_str()) {
            return Err(DomainError::Required("project_id"));
        }
        if is_blank(self.name.as_str()) {
            return Err(DomainError::Required("name"));
        }
        if self.rate_limit_rpm < 1 || self.rate_limit_rpm > 1_000_000 {
            return Err(DomainError::InvalidRpm);
        }
        if self.rate_limit_tpm < 1 || self.rate_limit_tpm > 10_000_000_000 {
            return Err(DomainError::InvalidTpm);
        }
        validate_money(&self.monthly_budget)?;
        if let Some(expiry) = self.expires_at {
            if expiry <= now {
                return Err(DomainError::InvalidExpiry);
            }
        }
        if !has_only_chat_scope(&self.scopes) {
            return Err(DomainError::InvalidScope);
        }
        if self.allowed_models.len() == 0 {
            return Err(DomainError::MissingModel);
        }
        Ok(())
    }
}

/// What is wrong with an amount that a caller supplied.
pub open spec fn money_fault(money: Money) -> Option<DomainError> {
    if money.currency@ != "CNY"@ {
        Some(DomainError::UnsupportedCurrency)
    } else if money.amount < 0 {
        Some(DomainError::NegativeAmount)
    } else {
        None
    }
}

/// Validates the supported currency and sign of an externally supplied amount.
pub fn validate_money(money: &Money) -> (r: Result<(), DomainError>)
    ensures
        match r {
            Ok(()) => money_fault(*money) is None,
            Err(e) => money_fault(*money) == Some(e),
        },
{
    if !same(money.currency.as_str(), "CNY") {
        return Err(DomainError::UnsupportedCurrency);
    }
    if money.amount < 0 {
        return Err(DomainError::NegativeAmount);
    }
    Ok(())
}

/// The status of a key: a revoked key stays revoked, and a key expires at the
/// very instant of its expiry.
#[must_use]
pub fn key_status(
    revoked_at: Option<Timestamp>,
    expires_at: Option<Timestamp>,
    now: Timestamp,
) -> (r: KeyStatus)
    ensures
        r == if revoked_at is Some {
            KeyStatus::Revoked
        } else if expires_at is Some && expires_at->0 <= now {
            KeyStatus::Expired
        } else {
            KeyStatus::Active
        },
{
    if revoked_at.is_some() {
        return KeyStatus::Revoked;
    }
    if let Some(expiry) = expires_at {
        if expiry <= now {
            return KeyStatus::Expired;
        }
    }
    KeyStatus::Active
}

pub open spec fn fits_i64(n: int) -> bool {
    i64::MIN <= n <= i64::MAX
}

/// The exact cost of a number of input and output tokens.
pub open spec fn token_cost(model: Model, input_tokens: int, output_tokens: int) -> int {
    input_tokens * model.input_per_million_tokens.amount + output_tokens
        * model.output_per_million_tokens.amount
}

/// Both halves of the cost and their sum are in range.
pub open spec fn token_cost_fits(model: Model, input_tokens: int, output_tokens: int) -> bool {
    &&& fits_i64(input_tokens * model.input_per_million_tokens.amount)
    &&& fits_i64(output_tokens * model.output_per_million_tokens.amount)
    &&& fits_i64(token_cost(model, input_tokens, output_tokens))
}

/// Calculates exact inference cost before rounding to a currency minor unit.
pub fn usage_cost_microunits(model: &Model, input_tokens: i64, output_tokens: i64) -> (r: Result<
    i64,
    DomainError,
>)
    ensures
        input_tokens < 0 || output_tokens < 0 ==> r == Err::<i64, DomainError>(
            DomainError::NegativeTokens,
        ),
        input_tokens >= 0 && output_tokens >= 0 ==> match r {
            Ok(cost) => token_cost_fits(*model, input_tokens as int, output_tokens as int) && cost
                == token_cost(*model, input_tokens as int, output_tokens as int),
            Err(e) => e == DomainError::CostOverflow && !token_cost_fits(
                *model,
                input_tokens as int,
                output_tokens as int,
            ),
        },
{
    if input_tokens < 0 || output_tokens < 0 {
        return Err(DomainError::NegativeTokens);
    }
    let input = match input_tokens.checked_mul(model.input_per_million_tokens.amount) {
        Some(input) => input,
        None => return Err(DomainError::CostOverflow),
    };
    let output = match output_tokens.checked_mul(model.output_per_million_tokens.amount) {
        Some(output) => output,
        None => return Err(DomainError::CostOverflow),
    };
    match input.checked_add(output) {
        Some(cost) => Ok(cost),
        None => Err(DomainError::CostOverflow),
    }
}

/// An integer divided by a positive one, rounded towards zero.
pub open spec fn toward_zero(n: int, d: int) -> int {
    if n >= 0 {
        n / d
    } else {
        -((-n) / d)
    }
}

/// Whole minor units that cover an amount of microunits: a started unit
/// counts in full, and a debt of less than two units counts as none.
#[must_use]
pub fn ceil_minor_units(microunits: i64) -> (r: i64)
    requires
        microunits <= i64::MAX - 999_999,
    ensures
        r == toward_zero(microunits + 999_999, 1_000_000),
        microunits >= 0 ==> (r - 1) * 1_000_000 < microunits <= r * 1_000_000,
{
    let shifted: i64 = microunits + 999_999;
    if shifted >= 0 {
        shifted / 1_000_000
    } else {
        -((-shifted) / 1_000_000)
    }
}

/// Costs add up: what two lots of tokens cost apart they cost together, no tokens cost
/// nothing, and a million tokens cost the price of a million, in millionths of a minor unit.
pub proof fn law_costs_add_up(model: Model, input: int, output: int, more: int, longer: int)
    ensures
        token_cost(model, input + more, output + longer) == token_cost(model, input, output)
            + token_cost(model, more, longer),
        token_cost(model, 0, 0) == 0,
        token_cost(model, 1_000_000, 0) == model.input_per_million_tokens.amount * 1_000_000,
        token_cost(model, 0, 1_000_000) == model.output_per_million_tokens.amount * 1_000_000,
{
    let a = model.input_per_million_tokens.amount as int;
    let b = model.output_per_million_tokens.amount as int;
    assert((input + more) * a == input * a + more * a) by (nonlinear_arith);
    assert((output + longer) * b == output * b + longer * b) by (nonlinear_arith);
}

/// More tokens never cost less, where no price is negative.
pub proof fn law_more_tokens_cost_no_less(
    model: Model,
    input: int,
    output: int,
    more: int,
    longer: int,
)
    requires
        model.input_per_million_tokens.amount >= 0,
        model.output_per_million_tokens.amount >= 0,
        input <= more,
        output <= longer,
    ensures
        token_cost(model, input, output) <= token_cost(model, more, longer),
{
    let a = model.input_per_million_tokens.amount as int;
    let b = model.output_per_million_tokens.amount as int;
    assert(input * a <= more * a) by (nonlinear_arith)
        requires
            input <= more,
            0 <= a,
    ;
    assert(output * b <= longer * b) by (nonlinear_arith)
        requires
            output <= longer,
            0 <= b,
    ;
}

/// A cost rounded up is the least number of whole minor units that covers it, and a division
/// that is cut towards zero treats a debt as it treats a credit.
pub proof fn law_rounding_up_covers_the_cost(cost: int)
    ensures
        cost >= 0 ==> toward_zero(cost + 999_999, 1_000_000) * 1_000_000 >= cost,
        cost >= 0 ==> (toward_zero(cost + 999_999, 1_000_000) - 1) * 1_000_000 < cost,
        cost >= 0 ==> toward_zero(cost, 1_000_000) * 1_000_000 <= cost < toward_zero(
            cost,
            1_000_000,
        ) * 1_000_000 + 1_000_000,
        toward_zero(-cost, 1_000_000) == -toward_zero(cost, 1_000_000),
{
}

/// An amount is taken exactly if it is of the one currency that is supported, and not
/// negative.
pub proof fn law_only_plain_amounts_are_taken(money: Money)
    ensures
        money_fault(money) is None <==> money.currency@ == "CNY"@ && money.amount >= 0,
        money.currency@ != "CNY"@ ==> money_fault(money) == Some(DomainError::UnsupportedCurrency),
        money.currency@ == "CNY"@ && money.amount < 0 ==> money_fault(money) == Some(
            DomainError::NegativeAmount,
        ),
{
}

/// A key is sound exactly if it is named, its limits are in range, its budget is an amount that
/// is taken, it has not expired, and it is for chat and for some model.
pub proof fn law_sound_keys_are_bounded(key: ApiKeyRequest, now: Timestamp)
    ensures
        key_policy_fault(key, now) is None <==> {
            &&& !blank(key.id@)
            &&& !blank(key.tenant_id@)
            &&& !blank(key.project_id@)
            &&& !blank(key.name@)
            &&& 0 < key.rate_limit_rpm < 1_000_001
            &&& 0 < key.rate_limit_tpm < 10_000_000_001
            &&& key.monthly_budget.currency@ == "CNY"@
            &&& key.monthly_budget.amount >= 0
            &&& key.expires_at is None || now < key.expires_at->0
            &&& key.scopes@.len() > 0
            &&& forall|i: int|
                0 <= i < key.scopes@.len() ==> #[trigger] key.scopes@[i]@ == "chat.completions"@
            &&& key.allowed_models@.len() > 0
        },
{
}

/// Defaults take the place of what was left out, and of nothing that was asked for.
pub proof fn law_defaults_replace_nothing_that_was_asked_for(q: ApiKeyRequest, r: ApiKeyRequest)
    requires
        defaulted(q, r),
    ensures
        r.id == q.id && r.tenant_id == q.tenant_id && r.project_id == q.project_id && r.name
            == q.name && r.expires_at == q.expires_at,
        q.scopes@.len() != 0 ==> r.scopes@ == q.scopes@,
        q.scopes@.len() == 0 ==> r.scopes@.len() == 1 && r.scopes@[0]@ == "chat.completions"@,
        q.allowed_models@.len() != 0 ==> r.allowed_models@ == q.allowed_models@,
        q.allowed_models@.len() == 0 ==> r.allowed_models@.len() == 1 && r.allowed_models@[0]@
            == "xscope-demo"@,
        q.rate_limit_rpm != 0 ==> r.rate_limit_rpm == q.rate_limit_rpm,
        q.rate_limit_rpm == 0 ==> r.rate_limit_rpm == 60,
        q.rate_limit_tpm != 0 ==> r.rate_limit_tpm == q.rate_limit_tpm,
        q.rate_limit_tpm == 0 ==> r.rate_limit_tpm == 60_000,
        r.monthly_budget.amount == q.monthly_budget.amount,
        q.monthly_budget.currency@.len() != 0 ==> r.monthly_budget.currency@
            == q.monthly_budget.currency@,
        q.monthly_budget.currency@.len() == 0 ==> r.monthly_budget.currency@ == "CNY"@,
{
}

} // verus!
