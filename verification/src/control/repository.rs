//! Projects, keys, usage, orders, refunds, invoices and users.
use crate::collections::TextMap;
use crate::control::api::{find_project, project_tenant};
use crate::control::billing::UsageRow;
use crate::control::billing_projection::{
    change_spend, counter_moves, projection_fault, AccountBalance, MonthSpend,
};
use crate::control::error::{
    conflict, from_domain, internal, invalid, refused, Fault, ServiceError, ServiceResult,
};
use crate::control::ledger::{
    balanced, entries_of, insert_balanced_entries, posting_fault, AccountRow, BalancedEntries,
    EntryIds, Posting,
};
use crate::crypto::{
    base64_text, base64_url_text, digest, encode_base64, encode_base64_url, entropy_24, sha256,
};
use crate::domain::catalog::CatalogSnapshot;
use crate::domain::routing::{
    pools_fault, pools_sound, PutRoutePolicy, RoutePolicy, RoutePolicySpec, RoutePool,
};
use crate::domain::{
    ceil_minor_units, defaulted, fits_i64, key_policy_fault, key_status, money_fault, token_cost,
    token_cost_fits, toward_zero, usage_cost_microunits, validate_money, ApiKey, ApiKeyRequest,
    BillingAccount, BillingOrder, CapturePaymentRequest, CreateInvoiceRequest, CreateOrderRequest,
    CreateRefundRequest, DomainError, GatewayKey, GatewaySnapshot, Invoice, IssuedApiKey, KeyStatus, Model, Money,
    Payment, Project, Quote, Refund, Timestamp, UsageEvent, MICROS_PER_MINOR_UNIT,
};
use crate::text::{
    blank, bytes_of, contains_text, copy_texts, decimal, has_text, int_text, is_blank, join, same,
};
use vstd::prelude::*;

verus! {

pub open spec fn project_named(p: Project) -> bool {
    !blank(p.id@) && !blank(p.tenant_id@) && !blank(p.name@)
}

pub(crate) fn validate_project(value: &Project) -> (r: ServiceResult<()>)
    ensures
        refused(
            r,
            if project_named(*value) {
                None
            } else {
                Some(Fault::Invalid("id, tenant_id and name are required"@))
            },
        ),
{
    if is_blank(value.id.as_str()) || is_blank(value.tenant_id.as_str()) || is_blank(
        value.name.as_str(),
    ) {
        return Err(invalid("id, tenant_id and name are required"));
    }
    Ok(())
}

/// The account that every project starts with: active, in yuan, and without an
/// enforced balance.
pub open spec fn opening_account(p: Project, a: AccountRow) -> bool {
    &&& a.id@ == "account-"@ + p.id@
    &&& a.tenant_id == p.tenant_id
    &&& a.project_id == p.id
    &&& a.currency@ == "CNY"@
    &&& !a.enforce_balance
    &&& a.status@ == "active"@
}

/// Opens the billing account of a project.
pub fn create_billing_account(project: &Project) -> (r: AccountRow)
    ensures
        opening_account(*project, r),
{
    AccountRow {
        id: join("account-", project.id.as_str()),
        tenant_id: project.tenant_id.clone(),
        project_id: project.id.clone(),
        currency: "CNY".to_owned(),
        enforce_balance: false,
        status: "active".to_owned(),
    }
}

/// The account of a project, opened where there is none yet.
pub fn ensure_account_for_project(existing: Option<AccountRow>, project: Option<&Project>) -> (r:
    ServiceResult<AccountRow>)
    ensures
        refused(
            r,
            if existing is None && project is None {
                Some(Fault::NotFound)
            } else {
                None
            },
        ),
        r matches Ok(account) ==> match existing {
            Some(row) => account == row,
            None => opening_account(*project->0, account),
        },
{
    match existing {
        Some(row) => Ok(row),
        None => match project {
            Some(project) => Ok(create_billing_account(project)),
            None => Err(ServiceError::NotFound),
        },
    }
}

/// Creates a project together with its billing account.
pub fn create_project(value: &Project, exists: bool) -> (r: ServiceResult<AccountRow>)
    ensures
        refused(
            r,
            if !project_named(*value) {
                Some(Fault::Invalid("id, tenant_id and name are required"@))
            } else if exists {
                Some(Fault::Conflict("project already exists"@))
            } else {
                None
            },
        ),
        r matches Ok(account) ==> opening_account(*value, account),
{
    validate_project(value)?;
    if exists {
        return Err(conflict("project already exists"));
    }
    Ok(create_billing_account(value))
}

/// An API key as it is stored: of the secret, only the digest.
#[derive(Clone, Debug)]
pub struct KeyRow {
    pub id: String,
    pub tenant_id: String,
    pub project_id: String,
    pub name: String,
    pub secret_hash: Vec<u8>,
    pub scopes: Vec<String>,
    pub allowed_models: Vec<String>,
    pub expires_at: Option<Timestamp>,
    pub rate_limit_rpm: i32,
    pub rate_limit_tpm: i64,
    pub monthly_budget_amount: i64,
    pub currency: String,
    pub created_at: Timestamp,
    pub revoked_at: Option<Timestamp>,
}

/// What is stored of a key, and what its owner is shown once.
#[derive(Clone, Debug)]
pub struct StoredKey {
    pub row: KeyRow,
    pub issued: IssuedApiKey,
}

pub open spec fn key_stored(q: ApiKeyRequest, secret: Seq<char>, now: Timestamp, k: StoredKey) -> bool {
    &&& k.row.id == q.id
    &&& k.row.tenant_id == q.tenant_id
    &&& k.row.project_id == q.project_id
    &&& k.row.name == q.name
    &&& k.row.secret_hash@ == sha256(bytes_of(secret))
    &&& k.row.scopes@ == q.scopes@
    &&& k.row.allowed_models@ == q.allowed_models@
    &&& k.row.expires_at == q.expires_at
    &&& k.row.rate_limit_rpm == q.rate_limit_rpm
    &&& k.row.rate_limit_tpm == q.rate_limit_tpm
    &&& k.row.monthly_budget_amount == q.monthly_budget.amount
    &&& k.row.currency == q.monthly_budget.currency
    &&& k.row.created_at == now
    &&& k.row.revoked_at is None
    &&& k.issued.secret@ == secret
    &&& k.issued.api_key.id == q.id
    &&& k.issued.api_key.tenant_id == q.tenant_id
    &&& k.issued.api_key.project_id == q.project_id
    &&& k.issued.api_key.name == q.name
    &&& k.issued.api_key.scopes@ == q.scopes@
    &&& k.issued.api_key.allowed_models@ == q.allowed_models@
    &&& k.issued.api_key.expires_at == q.expires_at
    &&& k.issued.api_key.rate_limit_rpm == q.rate_limit_rpm
    &&& k.issued.api_key.rate_limit_tpm == q.rate_limit_tpm
    &&& k.issued.api_key.monthly_budget == q.monthly_budget
    &&& k.issued.api_key.created_at == now
    &&& k.issued.api_key.revoked_at is None
    &&& k.issued.api_key.status == KeyStatus::Active
}

/// Stores a key under the digest of its secret.
pub fn store_api_key(request: ApiKeyRequest, secret: &str, now: Timestamp) -> (r: ServiceResult<
    StoredKey,
>)
    ensures
        refused(
            r,
            match key_policy_fault(request, now) {
                Some(e) => Some(Fault::Invalid(e.text())),
                None => None,
            },
        ),
        r matches Ok(k) ==> key_stored(request, secret@, now, k),
{
    if let Err(e) = request.validate(now) {
        return Err(from_domain(e));
    }
    let secret_hash = digest(secret.as_bytes());
    let row = KeyRow {
        id: request.id.clone(),
        tenant_id: request.tenant_id.clone(),
        project_id: request.project_id.clone(),
        name: request.name.clone(),
        secret_hash: vstd::slice::slice_to_vec(&secret_hash),
        scopes: copy_texts(&request.scopes),
        allowed_models: copy_texts(&request.allowed_models),
        expires_at: request.expires_at,
        rate_limit_rpm: request.rate_limit_rpm,
        rate_limit_tpm: request.rate_limit_tpm,
        monthly_budget_amount: request.monthly_budget.amount,
        currency: request.monthly_budget.currency.clone(),
        created_at: now,
        revoked_at: None,
    };
    let issued = IssuedApiKey {
        api_key: ApiKey {
            id: request.id,
            tenant_id: request.tenant_id,
            project_id: request.project_id,
            name: request.name,
            scopes: request.scopes,
            allowed_models: request.allowed_models,
            expires_at: request.expires_at,
            rate_limit_rpm: request.rate_limit_rpm,
            rate_limit_tpm: request.rate_limit_tpm,
            monthly_budget: request.monthly_budget,
            created_at: now,
            revoked_at: None,
            status: KeyStatus::Active,
        },
        secret: secret.to_owned(),
    };
    Ok(StoredKey { row, issued })
}

/// Every model that a key may use is the one that is served.
pub open spec fn only_model(models: Seq<String>, id: Seq<char>) -> bool {
    forall|i: int| 0 <= i < models.len() ==> #[trigger] models[i]@ == id
}

fn has_only_model(models: &Vec<String>, id: &str) -> (r: bool)
    ensures
        r == only_model(models@, id@),
{
    let mut i: usize = 0;
    while i < models.len()
        invariant
            i <= models.len(),
            forall|j: int| 0 <= j < i ==> #[trigger] models@[j]@ == id@,
        decreases models.len() - i,
    {
        if !same(models[i].as_str(), id) {
            assert(models@[i as int]@ != id@);
            return false;
        }
        i += 1;
    }
    true
}

/// Why a key is not issued, once the defaults are filled in.
pub open spec fn issue_fault(
    q: ApiKeyRequest,
    model_id: Seq<char>,
    project: Option<Project>,
    key_exists: bool,
    now: Timestamp,
) -> Option<Fault> {
    if key_policy_fault(q, now) is Some {
        Some(Fault::Invalid(key_policy_fault(q, now)->0.text()))
    } else if !only_model(q.allowed_models@, model_id) {
        Some(Fault::Invalid("allowed model not found"@))
    } else if project is None {
        Some(Fault::Invalid("project not found"@))
    } else if project->0.tenant_id@ != q.tenant_id@ {
        Some(Fault::Invalid("project does not belong to tenant"@))
    } else if key_exists {
        Some(Fault::Conflict("API key already exists"@))
    } else {
        None
    }
}

fn check_issue(
    request: &ApiKeyRequest,
    model_id: &str,
    project: Option<&Project>,
    key_exists: bool,
    now: Timestamp,
) -> (r: ServiceResult<()>)
    ensures
        refused(
            r,
            issue_fault(
                *request,
                model_id@,
                match project {
                    Some(p) => Some(*p),
                    None => None,
                },
                key_exists,
                now,
            ),
        ),
{
    if let Err(e) = request.validate(now) {
        return Err(from_domain(e));
    }
    if !has_only_model(&request.allowed_models, model_id) {
        return Err(invalid("allowed model not found"));
    }
    match project {
        None => return Err(invalid("project not found")),
        Some(project) => if !same(project.tenant_id.as_str(), request.tenant_id.as_str()) {
            return Err(invalid("project does not belong to tenant"));
        },
    }
    if key_exists {
        return Err(conflict("API key already exists"));
    }
    Ok(())
}

/// The key of a request, once what was left out of it is filled in.
pub open spec fn issued_with(
    request: ApiKeyRequest,
    model_id: Seq<char>,
    project: Option<Project>,
    key_exists: bool,
    secret: Seq<char>,
    now: Timestamp,
    r: ServiceResult<StoredKey>,
) -> bool {
    exists|filled: ApiKeyRequest|
        {
            &&& #[trigger] defaulted(request, filled)
            &&& refused(r, issue_fault(filled, model_id, project, key_exists, now))
            &&& r matches Ok(k) ==> key_stored(filled, secret, now, k)
        }
}

/// Issues a key with this secret.
pub fn issue_api_key_with(
    request: ApiKeyRequest,
    model_id: &str,
    project: Option<&Project>,
    key_exists: bool,
    secret: &str,
    now: Timestamp,
) -> (r: ServiceResult<StoredKey>)
    ensures
        issued_with(
            request,
            model_id@,
            match project {
                Some(p) => Some(*p),
                None => None,
            },
            key_exists,
            secret@,
            now,
            r,
        ),
{
    let filled = request.with_defaults();
    assert(defaulted(request, filled));
    match check_issue(&filled, model_id, project, key_exists, now) {
        Ok(()) => store_api_key(filled, secret, now),
        Err(e) => Err(e),
    }
}

/// Issues a key with a secret that nobody knew before. Where there is no
/// entropy for one, a request that could be met fails with what the system says.
pub fn issue_api_key(
    request: ApiKeyRequest,
    model_id: &str,
    project: Option<&Project>,
    key_exists: bool,
    now: Timestamp,
) -> (r: ServiceResult<StoredKey>)
    ensures
        ({
            let found = match project {
                Some(p) => Some(*p),
                None => None,
            };
            match r {
                Ok(k) => {
                    &&& issued_with(
                        request,
                        model_id@,
                        found,
                        key_exists,
                        k.issued.secret@,
                        now,
                        r,
                    )
                    &&& exists|random: [u8; 24]| k.issued.secret@ == #[trigger] secret_text(random@)
                },
                Err(e) => exists|filled: ApiKeyRequest|
                    {
                        &&& #[trigger] defaulted(request, filled)
                        &&& match issue_fault(filled, model_id@, found, key_exists, now) {
                            Some(fault) => e@ == fault,
                            None => e@ is Internal,
                        }
                    },
            }
        }),
{
    let filled = request.with_defaults();
    assert(defaulted(request, filled));
    match check_issue(&filled, model_id, project, key_exists, now) {
        Ok(()) => match fresh_secret() {
            Ok(secret) => store_api_key(filled, secret.as_str(), now),
            Err(e) => Err(e),
        },
        Err(e) => Err(e),
    }
}

/// The secret that is made of random bytes.
pub open spec fn secret_text(random: Seq<u8>) -> Seq<char> {
    "xs_"@ + base64_url_text(random)
}

/// The secret that 24 bytes of entropy make.
pub fn secret_of(random: &[u8; 24]) -> (r: String)
    ensures
        r@ == secret_text(random@),
        r@.len() == 35,
{
    proof {
        reveal_strlit("xs_");
    }
    join("xs_", encode_base64_url(random).as_str())
}

/// The secret that a draw of entropy makes, or why there is none.
pub fn drawn_secret(drawn: Result<[u8; 24], String>) -> (r: ServiceResult<String>)
    ensures
        match (drawn, r) {
            (Ok(random), Ok(secret)) => secret@ == secret_text(random@),
            (Err(cause), Err(e)) => e@ == Fault::Internal(cause@),
            _ => false,
        },
{
    match drawn {
        Ok(random) => Ok(secret_of(&random)),
        Err(cause) => Err(ServiceError::Internal(cause)),
    }
}

/// A new secret. Which one it is rests on the entropy of the system; that
/// there may be none is the only failure.
pub fn fresh_secret() -> (r: ServiceResult<String>)
    ensures
        r matches Ok(secret) ==> exists|random: [u8; 24]| secret@ == #[trigger] secret_text(random@),
        r matches Err(e) ==> e@ is Internal,
{
    let drawn = entropy_24();
    let ghost random = drawn->Ok_0;
    let r = drawn_secret(drawn);
    assert(r is Ok ==> r->Ok_0@ == secret_text(random@));
    r
}

/// Revokes a key that is there and not revoked yet.
pub fn revoke_api_key(row: Option<KeyRow>, now: Timestamp) -> (r: ServiceResult<KeyRow>)
    ensures
        refused(
            r,
            if row is None || row->0.revoked_at is Some {
                Some(Fault::NotFound)
            } else {
                None
            },
        ),
        r matches Ok(next) ==> next == (KeyRow { revoked_at: Some(now), ..row->0 }),
{
    match row {
        Some(row) => if row.revoked_at.is_some() {
            Err(ServiceError::NotFound)
        } else {
            Ok(KeyRow { revoked_at: Some(now), ..row })
        },
        None => Err(ServiceError::NotFound),
    }
}

/// A price that is quoted can be rounded up to whole minor units.
pub open spec fn quote_in_range(model: Model, id: Seq<char>, input: int, output: int) -> bool {
    id == model.id@ && input >= 0 && output >= 0 && token_cost_fits(model, input, output)
        ==> token_cost(model, input, output) <= i64::MAX - 999_999
}

/// Whether a price can be quoted.
pub fn quotes_in_range(model: &Model, model_id: &str, input: i64, output: i64) -> (r: bool)
    ensures
        r == quote_in_range(*model, model_id@, input as int, output as int),
{
    match usage_cost_microunits(model, input, output) {
        Ok(cost) => cost <= i64::MAX - 999_999 || !same(model_id, model.id.as_str()),
        Err(_) => true,
    }
}

/// The most that a request of a model can cost.
pub fn quote(model: &Model, model_id: &str, input: i64, output: i64) -> (r: ServiceResult<Quote>)
    requires
        quote_in_range(*model, model_id@, input as int, output as int),
    ensures
        refused(
            r,
            if model_id@ != model.id@ {
                Some(Fault::Invalid("model not found"@))
            } else if input < 0 || output < 0 {
                Some(Fault::Invalid(DomainError::NegativeTokens.text()))
            } else if !token_cost_fits(*model, input as int, output as int) {
                Some(Fault::Invalid(DomainError::CostOverflow.text()))
            } else {
                None
            },
        ),
        r matches Ok(q) ==> q.model_id == model.id && q.price_version == model.price_version
            && q.maximum.currency@ == "CNY"@ && q.maximum.amount == toward_zero(
            token_cost(*model, input as int, output as int) + 999_999,
            1_000_000,
        ),
{
    if !same(model_id, model.id.as_str()) {
        return Err(invalid("model not found"));
    }
    match usage_cost_microunits(model, input, output) {
        Ok(microunits) => Ok(
            Quote {
                model_id: model.id.clone(),
                price_version: model.price_version.clone(),
                maximum: Money::cny(ceil_minor_units(microunits)),
            },
        ),
        Err(e) => Err(from_domain(e)),
    }
}

/// Whole minor units that an amount of microunits is worth, rounded down.
pub fn floor_minor_units(microunits: i64) -> (r: i64)
    ensures
        r == microunits as int / 1_000_000,
        r * 1_000_000 <= microunits < (r + 1) * 1_000_000,
{
    if microunits >= 0 {
        microunits / 1_000_000
    } else {
        let magnitude: i128 = -(microunits as i128);
        let floor: i128 = -((magnitude + 999_999) / 1_000_000);
        floor as i64
    }
}

/// A key with what the gateway has to know of its account.
pub struct KeyPosition {
    pub row: KeyRow,
    pub spent_microunits: i64,
    pub balance_enforced: bool,
    pub balance_microunits: i64,
}

pub open spec fn key_active(row: KeyRow, now: Timestamp) -> bool {
    row.revoked_at is None && (row.expires_at matches Some(expiry) ==> expiry > now)
}

/// The gateway's view of a key.
pub open spec fn gateway_key(p: KeyPosition, k: GatewayKey) -> bool {
    &&& k.id == p.row.id
    &&& k.tenant_id == p.row.tenant_id
    &&& k.project_id == p.row.project_id
    &&& k.secret_hash@ == base64_text(p.row.secret_hash@)
    &&& k.scopes@ == p.row.scopes@
    &&& k.allowed_models@ == p.row.allowed_models@
    &&& k.expires_at == p.row.expires_at
    &&& k.rate_limit_rpm == p.row.rate_limit_rpm
    &&& k.rate_limit_tpm == p.row.rate_limit_tpm
    &&& k.monthly_budget.currency == p.row.currency
    &&& k.monthly_budget.amount == p.row.monthly_budget_amount
    &&& k.current_month_spend.currency == p.row.currency
    &&& k.current_month_spend.amount == toward_zero(p.spent_microunits + 999_999, 1_000_000)
    &&& k.balance_enforced == p.balance_enforced
    &&& k.available_balance.currency == p.row.currency
    &&& k.available_balance.amount == p.balance_microunits as int / 1_000_000
}

/// What a gateway needs of the account of a project.
#[derive(Clone, Copy, Debug, PartialEq, Eq, Structural)]
pub struct AccountPosition {
    pub enforce_balance: bool,
    pub balance_microunits: i64,
}

/// The keys that a gateway may accept, in their order: the active ones.
pub open spec fn active_keys(rows: Seq<KeyRow>, now: Timestamp) -> Seq<KeyRow> {
    rows.filter(|row: KeyRow| key_active(row, now))
}

/// A key with what it has spent this month and what its account holds.
pub open spec fn position_of(
    row: KeyRow,
    spends: Map<Seq<char>, i64>,
    accounts: Map<Seq<char>, AccountPosition>,
) -> KeyPosition {
    KeyPosition {
        row,
        spent_microunits: spends[row.id@],
        balance_enforced: accounts[row.project_id@].enforce_balance,
        balance_microunits: accounts[row.project_id@].balance_microunits,
    }
}

/// The position of a key is known and in range.
pub open spec fn positioned(
    row: KeyRow,
    spends: Map<Seq<char>, i64>,
    accounts: Map<Seq<char>, AccountPosition>,
) -> bool {
    &&& spends.dom().contains(row.id@)
    &&& accounts.dom().contains(row.project_id@)
    &&& spends[row.id@] <= i64::MAX - 999_999
    &&& row.secret_hash@.len() <= 0x1000_0000
}

fn key_for_gateway(row: &KeyRow, spent: i64, account: AccountPosition) -> (r: GatewayKey)
    requires
        spent <= i64::MAX - 999_999,
        row.secret_hash@.len() <= 0x1000_0000,
    ensures
        gateway_key(
            (KeyPosition {
                row: *row,
                spent_microunits: spent,
                balance_enforced: account.enforce_balance,
                balance_microunits: account.balance_microunits,
            }),
            r,
        ),
{
    GatewayKey {
        id: row.id.clone(),
        tenant_id: row.tenant_id.clone(),
        project_id: row.project_id.clone(),
        secret_hash: encode_base64(row.secret_hash.as_slice()),
        scopes: copy_texts(&row.scopes),
        allowed_models: copy_texts(&row.allowed_models),
        expires_at: row.expires_at,
        rate_limit_rpm: row.rate_limit_rpm,
        rate_limit_tpm: row.rate_limit_tpm,
        monthly_budget: Money { currency: row.currency.clone(), amount: row.monthly_budget_amount },
        current_month_spend: Money {
            currency: row.currency.clone(),
            amount: ceil_minor_units(spent),
        },
        balance_enforced: account.enforce_balance,
        available_balance: Money {
            currency: row.currency.clone(),
            amount: floor_minor_units(account.balance_microunits),
        },
    }
}

/// What gateways are shown: the active keys with their positions, the route
/// policies and the catalog. `spends` holds what keys have spent this month,
/// `accounts` the accounts of their projects.
pub fn gateway_snapshot(
    rows: &Vec<KeyRow>,
    spends: &TextMap<i64>,
    accounts: &TextMap<AccountPosition>,
    route_policies: Vec<RoutePolicy>,
    catalog: CatalogSnapshot,
    now: Timestamp,
) -> (r: GatewaySnapshot)
    requires
        spends.wf(),
        accounts.wf(),
        forall|i: int|
            0 <= i < rows@.len() && key_active(#[trigger] rows@[i], now) ==> positioned(
                rows@[i],
                spends@,
                accounts@,
            ),
    ensures
        r.generated_at == now,
        r.keys@.len() == active_keys(rows@, now).len(),
        forall|i: int|
            0 <= i < r.keys@.len() ==> gateway_key(
                position_of(active_keys(rows@, now)[i], spends@, accounts@),
                #[trigger] r.keys@[i],
            ),
        r.route_policies == route_policies,
        r.catalog == catalog,
        r.traffic is None,
{
    let ghost keep = |row: KeyRow| key_active(row, now);
    let mut keys: Vec<GatewayKey> = Vec::new();
    let mut i: usize = 0;
    assert(rows@.take(0).filter(keep) =~= Seq::empty());
    while i < rows.len()
        invariant
            i <= rows@.len(),
            keep == (|row: KeyRow| key_active(row, now)),
            spends.wf(),
            accounts.wf(),
            forall|j: int|
                0 <= j < rows@.len() && key_active(#[trigger] rows@[j], now) ==> positioned(
                    rows@[j],
                    spends@,
                    accounts@,
                ),
            keys@.len() == rows@.take(i as int).filter(keep).len(),
            forall|j: int|
                0 <= j < keys@.len() ==> gateway_key(
                    position_of(rows@.take(i as int).filter(keep)[j], spends@, accounts@),
                    #[trigger] keys@[j],
                ),
        decreases rows.len() - i,
    {
        let row = &rows[i];
        let ghost kept = rows@.take(i as int).filter(keep);
        proof {
            broadcast use Seq::lemma_filter_push;

            assert(rows@.take(i as int + 1) == rows@.take(i as int).push(rows@[i as int]));
        }
        if let KeyStatus::Active = key_status(row.revoked_at, row.expires_at, now) {
            assert(keep(rows@[i as int]));
            if let (Some(spent), Some(account)) = (
                spends.get(row.id.as_str()),
                accounts.get(row.project_id.as_str()),
            ) {
                keys.push(key_for_gateway(row, *spent, *account));
            }
            assert(rows@.take(i as int + 1).filter(keep) == kept.push(rows@[i as int]));
        } else {
            assert(!keep(rows@[i as int]));
            assert(rows@.take(i as int + 1).filter(keep) == kept);
        }
        i += 1;
    }
    assert(rows@.take(rows@.len() as int) == rows@);
    GatewaySnapshot { generated_at: now, keys, route_policies, catalog, traffic: None }
}

/// A key that a fresh installation starts with.
#[derive(Clone, Debug)]
pub struct BootstrapApiKey {
    pub id: String,
    pub tenant_id: String,
    pub project_id: String,
    pub secret: String,
}

/// The project and the key request of a key that an installation starts with.
pub fn bootstrap(key: &BootstrapApiKey) -> (r: (Project, ApiKeyRequest))
    ensures
        r.0.id == key.project_id,
        r.0.tenant_id == key.tenant_id,
        r.0.name@ == "Local development"@,
        r.1.id == key.id,
        r.1.tenant_id == key.tenant_id,
        r.1.project_id == key.project_id,
        r.1.name@ == "Local bootstrap key"@,
        r.1.scopes@.len() == 1 && r.1.scopes@[0]@ == "chat.completions"@,
        r.1.allowed_models@.len() == 1 && r.1.allowed_models@[0]@ == "xscope-demo"@,
        r.1.expires_at is None,
        r.1.rate_limit_rpm == 600,
        r.1.rate_limit_tpm == 600_000,
        r.1.monthly_budget.currency@ == "CNY"@,
        r.1.monthly_budget.amount == 10_000,
{
    let project = Project {
        id: key.project_id.clone(),
        tenant_id: key.tenant_id.clone(),
        name: "Local development".to_owned(),
    };
    let request = ApiKeyRequest {
        id: key.id.clone(),
        tenant_id: key.tenant_id.clone(),
        project_id: key.project_id.clone(),
        name: "Local bootstrap key".to_owned(),
        scopes: vec!["chat.completions".to_owned()],
        allowed_models: vec!["xscope-demo".to_owned()],
        expires_at: None,
        rate_limit_rpm: 600,
        rate_limit_tpm: 600_000,
        monthly_budget: Money::cny(10_000),
    };
    (project, request)
}

/// The policy is refused before its revision is looked at.
pub open spec fn put_policy_fault(
    q: PutRoutePolicy,
    model: Seq<char>,
    model_known: bool,
    pools: Seq<RoutePool>,
    current: Option<i64>,
    e: Fault,
) -> bool {
    if !pools_sound(q.spec, model, pools) {
        e matches Fault::Invalid(message) && pools_fault(q.spec, model, pools, message)
    } else if !model_known || !(0 <= q.expected_revision < i64::MAX) {
        e == Fault::Invalid("unknown model or invalid expected_revision"@)
    } else if q.expected_revision == 0 {
        current is Some && e == Fault::Conflict("resource already exists"@)
    } else {
        current != Some(q.expected_revision) && e == Fault::Conflict(
            "route policy revision changed; reload before saving"@,
        )
    }
}

/// Replaces the policy of a project's model by compare-and-swap on its
/// revision; a rollback advances the revision like any other write.
pub fn put_route_policy(
    project: &Project,
    model: &str,
    model_known: bool,
    request: PutRoutePolicy,
    pools: &[RoutePool],
    current: Option<i64>,
) -> (r: ServiceResult<RoutePolicy>)
    ensures
        r is Ok <==> pools_sound(request.spec, model@, pools@) && model_known && 0 <= request.expected_revision < i64::MAX && current == if request.expected_revision
            == 0 {
            None
        } else {
            Some(request.expected_revision)
        },
        r matches Ok(p) ==> p.tenant_id == project.tenant_id && p.project_id == project.id && p.model@
            == model@ && p.revision == request.expected_revision + 1 && p.spec == request.spec,
        r matches Err(e) ==> put_policy_fault(
            request,
            model@,
            model_known,
            pools@,
            current,
            e@,
        ),
{
    if let Err(message) = request.spec.validate_pools(model, pools) {
        return Err(ServiceError::Invalid(message));
    }
    if !model_known || request.expected_revision < 0 || request.expected_revision == i64::MAX {
        return Err(invalid("unknown model or invalid expected_revision"));
    }
    match current {
        Some(revision) => {
            if request.expected_revision == 0 {
                return Err(conflict("resource already exists"));
            }
            if revision != request.expected_revision {
                return Err(conflict("route policy revision changed; reload before saving"));
            }
        },
        None => if request.expected_revision != 0 {
            return Err(conflict("route policy revision changed; reload before saving"));
        },
    }
    Ok(
        RoutePolicy {
            tenant_id: project.tenant_id.clone(),
            project_id: project.id.clone(),
            model: model.to_owned(),
            revision: request.expected_revision + 1,
            spec: request.spec,
        },
    )
}

/// A stored route policy. Its rules come as they could be decoded, or with the
/// reason why they could not.
pub struct PolicyRow {
    pub project_id: String,
    pub model: String,
    pub revision: i64,
    pub spec: Result<RoutePolicySpec, String>,
}

/// Why a stored policy cannot be listed.
pub open spec fn policy_row_fault(row: PolicyRow, projects: Seq<Project>) -> Option<Fault> {
    if project_tenant(projects, row.project_id@) is None {
        Some(Fault::NotFound)
    } else {
        match row.spec {
            Ok(_) => None,
            Err(reason) => Some(Fault::Internal(reason@)),
        }
    }
}

/// A stored policy as it is listed: with the tenant of its project.
pub open spec fn listed_policy(row: PolicyRow, projects: Seq<Project>, policy: RoutePolicy) -> bool {
    &&& project_tenant(projects, row.project_id@) == Some(policy.tenant_id@)
    &&& policy.project_id == row.project_id
    &&& policy.model == row.model
    &&& policy.revision == row.revision
    &&& row.spec == Ok::<RoutePolicySpec, String>(policy.spec)
}

/// The stored policies, in their order. The first that cannot be listed decides
/// the answer.
pub fn list_route_policies(rows: Vec<PolicyRow>, projects: &Vec<Project>) -> (r: ServiceResult<
    Vec<RoutePolicy>,
>)
    ensures
        match r {
            Ok(policies) => {
                &&& policies@.len() == rows@.len()
                &&& forall|i: int|
                    0 <= i < rows@.len() ==> listed_policy(
                        rows@[i],
                        projects@,
                        #[trigger] policies@[i],
                    )
            },
            Err(e) => exists|i: int|
                {
                    &&& 0 <= i < rows@.len()
                    &&& policy_row_fault(#[trigger] rows@[i], projects@) == Some(e@)
                    &&& forall|j: int|
                        0 <= j < i ==> policy_row_fault(#[trigger] rows@[j], projects@) is None
                },
        },
{
    let ghost all = rows@;
    let mut policies: Vec<RoutePolicy> = Vec::new();
    for row in iter: rows.into_iter()
        invariant
            iter.seq() == all,
            policies@.len() == iter.index(),
            forall|i: int|
                0 <= i < policies@.len() ==> listed_policy(
                    all[i],
                    projects@,
                    #[trigger] policies@[i],
                ),
            forall|i: int|
                0 <= i < policies@.len() ==> policy_row_fault(#[trigger] all[i], projects@) is None,
    {
        assert(row == all[iter.index()]);
        let tenant_id = match find_project(projects, row.project_id.as_str()) {
            Some(k) => projects[k].tenant_id.clone(),
            None => return Err(ServiceError::NotFound),
        };
        let spec = match row.spec {
            Ok(spec) => spec,
            Err(reason) => return Err(ServiceError::Internal(reason)),
        };
        policies.push(
            RoutePolicy {
                tenant_id,
                project_id: row.project_id,
                model: row.model,
                revision: row.revision,
                spec,
            },
        );
    }
    Ok(policies)
}

pub open spec fn usage_complete(e: UsageEvent) -> bool {
    &&& !blank(e.schema_version@)
    &&& !blank(e.event_id@)
    &&& !blank(e.request_id@)
    &&& !blank(e.tenant_id@)
    &&& !blank(e.project_id@)
    &&& !blank(e.api_key_id@)
    &&& !blank(e.model_id@)
    &&& !blank(e.model_revision@)
    &&& !blank(e.region@)
    &&& !blank(e.price_version@)
    &&& !blank(e.status@)
    &&& e.input_tokens >= 0
    &&& e.output_tokens >= 0
    &&& e.cached_input_tokens >= 0
    &&& e.latency_ms >= 0
}

pub(crate) fn validate_usage(e: &UsageEvent) -> (r: ServiceResult<()>)
    ensures
        refused(
            r,
            if usage_complete(*e) {
                None
            } else {
                Some(
                    Fault::Invalid(
                        "usage event is missing required fields or contains negative values"@,
                    ),
                )
            },
        ),
{
    if is_blank(e.schema_version.as_str()) || is_blank(e.event_id.as_str()) || is_blank(
        e.request_id.as_str(),
    ) || is_blank(e.tenant_id.as_str()) || is_blank(e.project_id.as_str()) || is_blank(
        e.api_key_id.as_str(),
    ) || is_blank(e.model_id.as_str()) || is_blank(e.model_revision.as_str()) || is_blank(
        e.region.as_str(),
    ) || is_blank(e.price_version.as_str()) || is_blank(e.status.as_str()) || e.input_tokens < 0
        || e.output_tokens < 0 || e.cached_input_tokens < 0 || e.latency_ms < 0 {
        return Err(invalid("usage event is missing required fields or contains negative values"));
    }
    Ok(())
}

/// Only usage of a request that succeeded is charged.
pub open spec fn chargeable(e: UsageEvent) -> bool {
    e.status@ == "succeeded"@ && (e.input_tokens > 0 || e.output_tokens > 0)
}

pub fn is_chargeable_usage(event: &UsageEvent) -> (r: bool)
    ensures
        r == chargeable(*event),
{
    same(event.status.as_str(), "succeeded") && (event.input_tokens > 0 || event.output_tokens > 0)
}

/// What usage costs: nothing, unless it is charged.
pub open spec fn usage_cost(model: Model, e: UsageEvent) -> int {
    if chargeable(e) {
        token_cost(model, e.input_tokens as int, e.output_tokens as int)
    } else {
        0
    }
}

/// Whom an API key belongs to.
#[derive(Clone, Debug)]
pub struct KeyOwner {
    pub tenant_id: String,
    pub project_id: String,
}

/// What the database knows about a usage event.
pub struct UsageFacts {
    /// Whom the API key of the event belongs to, if there is one.
    pub key_owner: Option<KeyOwner>,
    /// A reservation has the request ID of the event.
    pub reserved: bool,
    /// The event was recorded before.
    pub recorded: bool,
    pub received_at: Timestamp,
}

/// Why a usage event is refused; an event that was recorded before is not.
pub open spec fn usage_fault(
    e: UsageEvent,
    model: Model,
    f: UsageFacts,
    account: AccountRow,
    balance: AccountBalance,
    spend: MonthSpend,
) -> Option<Fault> {
    if !usage_complete(e) {
        Some(
            Fault::Invalid("usage event is missing required fields or contains negative values"@),
        )
    } else if f.key_owner is None {
        Some(Fault::Invalid("usage event API key is invalid"@))
    } else if f.key_owner->0.tenant_id@ != e.tenant_id@ || f.key_owner->0.project_id@ != e.project_id@ {
        Some(Fault::Invalid("usage event API key boundary is invalid"@))
    } else if chargeable(e) && (e.model_id@ != model.id@ || e.price_version@
        != model.price_version@) {
        Some(Fault::Invalid("usage event price version is not current"@))
    } else if chargeable(e) && !token_cost_fits(
        model,
        e.input_tokens as int,
        e.output_tokens as int,
    ) {
        Some(Fault::Invalid(DomainError::CostOverflow.text()))
    } else if f.reserved {
        Some(Fault::Conflict("reserved requests must use the reservation settlement endpoint"@))
    } else if f.recorded {
        None
    } else if !counter_moves(spend.spent_microunits as int, usage_cost(model, e), true) {
        Some(projection_fault())
    } else if usage_cost(model, e) > 0 {
        posting_fault(account, balance, -usage_cost(model, e))
    } else {
        None
    }
}

/// The row of a usage event.
pub open spec fn usage_row(e: UsageEvent, cost: int, received_at: Timestamp, u: UsageRow) -> bool {
    &&& u.event_id == e.event_id
    &&& u.request_id == e.request_id
    &&& u.occurred_at == e.occurred_at
    &&& u.tenant_id == e.tenant_id
    &&& u.project_id == e.project_id
    &&& u.api_key_id == e.api_key_id
    &&& u.model_id == e.model_id
    &&& u.model_revision == e.model_revision
    &&& u.endpoint_id == e.endpoint_id
    &&& u.region == e.region
    &&& u.price_version == e.price_version
    &&& u.input_tokens == e.input_tokens
    &&& u.output_tokens == e.output_tokens
    &&& u.cached_input_tokens == e.cached_input_tokens
    &&& u.latency_ms == e.latency_ms
    &&& u.status == e.status
    &&& u.cost_amount == toward_zero(cost + 999_999, 1_000_000)
    &&& u.cost_microunits == cost
    &&& u.currency@ == "CNY"@
    &&& u.received_at == received_at
}

pub open spec fn usage_posting(e: UsageEvent, cost: int, p: Posting) -> bool {
    &&& p.tenant_id == e.tenant_id
    &&& p.kind@ == "usage"@
    &&& p.reference_type@ == "usage_event"@
    &&& p.reference_id == e.event_id
    &&& p.idempotency_key@ == "usage:"@ + e.event_id@
    &&& p.description@ == "Model inference usage"@
    &&& p.customer_delta_microunits == -cost
    &&& p.counter_account@ == "usage_revenue"@
}

/// What a usage event writes.
pub struct Recorded {
    pub usage: UsageRow,
    pub entries: Option<BalancedEntries>,
}

/// The usage is about to be recorded: nothing but the counters can refuse it.
pub open spec fn recordable(e: UsageEvent, model: Model, f: UsageFacts) -> bool {
    &&& usage_complete(e)
    &&& f.key_owner matches Some(owner) && owner.tenant_id@ == e.tenant_id@ && owner.project_id@
        == e.project_id@
    &&& chargeable(e) ==> e.model_id@ == model.id@ && e.price_version@ == model.price_version@
        && token_cost_fits(model, e.input_tokens as int, e.output_tokens as int)
    &&& !f.reserved
}

/// The cost of usage that is about to be recorded can be rounded up to whole minor units.
pub open spec fn usage_in_range(e: UsageEvent, model: Model, f: UsageFacts) -> bool {
    recordable(e, model, f) ==> usage_cost(model, e) <= i64::MAX - 999_999
}

/// Whether the cost of a usage event stays in range.
pub fn records_in_range(event: &UsageEvent, model: &Model, facts: &UsageFacts) -> (r: bool)
    ensures
        r == usage_in_range(*event, *model, *facts),
{
    if validate_usage(event).is_err() || facts.reserved || !is_chargeable_usage(event) {
        return true;
    }
    let owned = match &facts.key_owner {
        Some(owner) => same(owner.tenant_id.as_str(), event.tenant_id.as_str()) && same(
            owner.project_id.as_str(),
            event.project_id.as_str(),
        ),
        None => false,
    };
    if !owned || !same(event.model_id.as_str(), model.id.as_str()) || !same(
        event.price_version.as_str(),
        model.price_version.as_str(),
    ) {
        return true;
    }
    match usage_cost_microunits(model, event.input_tokens, event.output_tokens) {
        Ok(cost) => cost <= i64::MAX - 999_999,
        Err(_) => true,
    }
}

/// What an accepted usage event comes to. One that was recorded before comes to
/// nothing.
pub open spec fn records(
    e: UsageEvent,
    model: Model,
    f: UsageFacts,
    account: AccountRow,
    ids: EntryIds,
    balance: AccountBalance,
    spend: MonthSpend,
    done: Option<Recorded>,
    next_balance: AccountBalance,
    next_spend: MonthSpend,
) -> bool {
    let cost = usage_cost(model, e);
    if f.recorded {
        &&& done is None
        &&& next_balance == balance
        &&& next_spend == spend
    } else {
        &&& done matches Some(written) && {
            &&& usage_row(e, cost, f.received_at, written.usage)
            &&& written.entries is Some <==> cost > 0
            &&& written.entries matches Some(entries) ==> balanced(entries) && usage_posting(
                e,
                cost,
                entries.posting,
            ) && entries_of(account, entries.posting, ids, entries) && entries.created_at
                == f.received_at
        }
        &&& next_spend == (MonthSpend {
            spent_microunits: (spend.spent_microunits + cost) as i64,
            updated_at: f.received_at,
            ..spend
        })
        &&& next_balance == if cost > 0 {
            AccountBalance {
                balance_microunits: (balance.balance_microunits - cost) as i64,
                updated_at: f.received_at,
                ..balance
            }
        } else {
            balance
        }
    }
}

/// A usage event that was recorded is accepted whenever it comes again, whatever the
/// balance and the spending are then, and writes nothing: over both calls its cost is
/// charged once.
pub proof fn law_usage_is_charged_once(
    e: UsageEvent,
    model: Model,
    f: UsageFacts,
    account: AccountRow,
    ids: EntryIds,
    balance: AccountBalance,
    spend: MonthSpend,
    done: Option<Recorded>,
    next_balance: AccountBalance,
    next_spend: MonthSpend,
    g: UsageFacts,
    repeat: Option<Recorded>,
    last_balance: AccountBalance,
    last_spend: MonthSpend,
)
    requires
        !f.recorded,
        usage_fault(e, model, f, account, balance, spend) is None,
        records(e, model, f, account, ids, balance, spend, done, next_balance, next_spend),
        g.recorded,
        g.key_owner == f.key_owner,
        g.reserved == f.reserved,
        records(e, model, g, account, ids, next_balance, next_spend, repeat, last_balance, last_spend),
        usage_cost(model, e) >= 0,
    ensures
        usage_fault(e, model, g, account, next_balance, next_spend) is None,
        repeat is None,
        last_balance.balance_microunits == balance.balance_microunits - usage_cost(model, e),
        last_spend.spent_microunits == spend.spent_microunits + usage_cost(model, e),
{
}

/// A repeated usage event writes nothing, whatever the counters are.
pub proof fn law_repeated_usage_writes_nothing(
    e: UsageEvent,
    model: Model,
    f: UsageFacts,
    account: AccountRow,
    ids: EntryIds,
    balance: AccountBalance,
    spend: MonthSpend,
    done: Option<Recorded>,
    next_balance: AccountBalance,
    next_spend: MonthSpend,
)
    requires
        f.recorded,
        recordable(e, model, f),
        records(e, model, f, account, ids, balance, spend, done, next_balance, next_spend),
    ensures
        usage_fault(e, model, f, account, balance, spend) is None,
        done is None,
        next_balance == balance,
        next_spend == spend,
{
}

/// Records a usage event once: a repeated event writes nothing, and usage that
/// is not charged is kept without a charge.
pub fn record_usage(
    event: UsageEvent,
    model: &Model,
    facts: &UsageFacts,
    account: &AccountRow,
    balance: &mut AccountBalance,
    spend: &mut MonthSpend,
    ids: &EntryIds,
) -> (r: ServiceResult<Option<Recorded>>)
    requires
        usage_in_range(event, *model, *facts),
    ensures
        refused(r, usage_fault(event, *model, *facts, *account, *old(balance), *old(spend))),
        r is Err ==> *final(balance) == *old(balance) && *final(spend) == *old(spend),
        r matches Ok(done) ==> records(
            event,
            *model,
            *facts,
            *account,
            *ids,
            *old(balance),
            *old(spend),
            done,
            *final(balance),
            *final(spend),
        ),
{
    validate_usage(&event)?;
    match &facts.key_owner {
        None => return Err(invalid("usage event API key is invalid")),
        Some(owner) => if !same(owner.project_id.as_str(), event.project_id.as_str()) || !same(
            owner.tenant_id.as_str(),
            event.tenant_id.as_str(),
        ) {
            return Err(invalid("usage event API key boundary is invalid"));
        },
    }
    let charged = is_chargeable_usage(&event);
    if charged && (!same(event.model_id.as_str(), model.id.as_str()) || !same(
        event.price_version.as_str(),
        model.price_version.as_str(),
    )) {
        return Err(invalid("usage event price version is not current"));
    }
    let cost: i64 = if charged {
        match usage_cost_microunits(model, event.input_tokens, event.output_tokens) {
            Ok(cost) => cost,
            Err(e) => return Err(from_domain(e)),
        }
    } else {
        0
    };
    if facts.reserved {
        return Err(
            conflict("reserved requests must use the reservation settlement endpoint"),
        );
    }
    if facts.recorded {
        return Ok(None);
    }
    let now = facts.received_at;
    let mut next_spend = MonthSpend {
        api_key_id: spend.api_key_id.clone(),
        month: spend.month,
        spent_microunits: spend.spent_microunits,
        updated_at: spend.updated_at,
    };
    change_spend(&mut next_spend, cost, now)?;
    let entries = if cost > 0 {
        let posting = Posting {
            tenant_id: event.tenant_id.clone(),
            kind: "usage".to_owned(),
            reference_type: "usage_event".to_owned(),
            reference_id: event.event_id.clone(),
            idempotency_key: join("usage:", event.event_id.as_str()),
            description: "Model inference usage".to_owned(),
            customer_delta_microunits: -cost,
            counter_account: "usage_revenue".to_owned(),
        };
        Some(insert_balanced_entries(account, balance, posting, ids, now)?)
    } else {
        None
    };
    *spend = next_spend;
    let usage = UsageRow {
        event_id: event.event_id,
        request_id: event.request_id,
        occurred_at: event.occurred_at,
        tenant_id: event.tenant_id,
        project_id: event.project_id,
        api_key_id: event.api_key_id,
        model_id: event.model_id,
        model_revision: event.model_revision,
        endpoint_id: event.endpoint_id,
        region: event.region,
        price_version: event.price_version,
        input_tokens: event.input_tokens,
        output_tokens: event.output_tokens,
        cached_input_tokens: event.cached_input_tokens,
        latency_ms: event.latency_ms,
        status: event.status,
        cost_amount: ceil_minor_units(cost),
        cost_microunits: cost,
        currency: "CNY".to_owned(),
        received_at: now,
    };
    Ok(Some(Recorded { usage, entries }))
}

/// Balance, holds and what is left, as decimal texts: clients that read
/// numbers as floating point keep every digit.
pub struct BillingPosition {
    pub balance_microunits: String,
    pub held_microunits: String,
    pub available_microunits: String,
}

pub fn billing_position(row: &AccountBalance) -> (r: ServiceResult<BillingPosition>)
    ensures
        refused(
            r,
            if fits_i64(row.balance_microunits - row.held_microunits) {
                None
            } else {
                Some(Fault::Internal("available balance overflow"@))
            },
        ),
        r matches Ok(p) ==> p.balance_microunits@ == int_text(row.balance_microunits as int)
            && p.held_microunits@ == int_text(row.held_microunits as int)
            && p.available_microunits@ == int_text(row.balance_microunits - row.held_microunits),
{
    match row.balance_microunits.checked_sub(row.held_microunits) {
        Some(available) => Ok(
            BillingPosition {
                balance_microunits: decimal(row.balance_microunits),
                held_microunits: decimal(row.held_microunits),
                available_microunits: decimal(available),
            },
        ),
        None => Err(internal("available balance overflow")),
    }
}

/// The account as its owner sees it.
pub fn billing_account_from_row(
    row: AccountRow,
    balance_microunits: i64,
    created_at: Timestamp,
    updated_at: Timestamp,
) -> (r: BillingAccount)
    ensures
        r.id == row.id,
        r.tenant_id == row.tenant_id,
        r.project_id == row.project_id,
        r.currency == row.currency,
        r.balance.currency == row.currency,
        r.balance.amount == balance_microunits as int / 1_000_000,
        r.enforce_balance == row.enforce_balance,
        r.status == row.status,
        r.created_at == created_at,
        r.updated_at == updated_at,
{
    BillingAccount {
        id: row.id,
        tenant_id: row.tenant_id,
        project_id: row.project_id,
        currency: row.currency.clone(),
        balance: Money { currency: row.currency, amount: floor_minor_units(balance_microunits) },
        enforce_balance: row.enforce_balance,
        status: row.status,
        created_at,
        updated_at,
    }
}

/// The key as its owner sees it.
pub fn api_key_from_row(row: KeyRow, now: Timestamp) -> (r: ApiKey)
    ensures
        r.id == row.id,
        r.tenant_id == row.tenant_id,
        r.project_id == row.project_id,
        r.name == row.name,
        r.scopes == row.scopes,
        r.allowed_models == row.allowed_models,
        r.expires_at == row.expires_at,
        r.rate_limit_rpm == row.rate_limit_rpm,
        r.rate_limit_tpm == row.rate_limit_tpm,
        r.monthly_budget == (Money { currency: row.currency, amount: row.monthly_budget_amount }),
        r.created_at == row.created_at,
        r.revoked_at == row.revoked_at,
        r.status == KeyStatus::Active <==> key_active(row, now),
        r.status == KeyStatus::Revoked <==> row.revoked_at is Some,
{
    let status = key_status(row.revoked_at, row.expires_at, now);
    ApiKey {
        id: row.id,
        tenant_id: row.tenant_id,
        project_id: row.project_id,
        name: row.name,
        scopes: row.scopes,
        allowed_models: row.allowed_models,
        expires_at: row.expires_at,
        rate_limit_rpm: row.rate_limit_rpm,
        rate_limit_tpm: row.rate_limit_tpm,
        monthly_budget: Money { currency: row.currency, amount: row.monthly_budget_amount },
        created_at: row.created_at,
        revoked_at: row.revoked_at,
        status,
    }
}

/// Why an order, a refund or another paper of a project is refused.
pub open spec fn project_fault(project: Option<Project>, tenant_id: Seq<char>) -> Option<Fault> {
    match project {
        None => Some(Fault::NotFound),
        Some(p) => if p.tenant_id@ == tenant_id {
            None
        } else {
            Some(Fault::Forbidden)
        },
    }
}

fn check_project(project: Option<&Project>, tenant_id: &str) -> (r: ServiceResult<()>)
    ensures
        refused(
            r,
            project_fault(
                match project {
                    Some(p) => Some(*p),
                    None => None,
                },
                tenant_id@,
            ),
        ),
{
    match project {
        None => Err(ServiceError::NotFound),
        Some(p) => if same(p.tenant_id.as_str(), tenant_id) {
            Ok(())
        } else {
            Err(ServiceError::Forbidden)
        },
    }
}

/// Places a top-up order.
pub fn create_order(request: CreateOrderRequest, project: Option<&Project>, now: Timestamp) -> (r:
    ServiceResult<BillingOrder>)
    ensures
        refused(
            r,
            if money_fault(request.amount) is Some {
                Some(Fault::Invalid(money_fault(request.amount)->0.text()))
            } else if request.amount.amount <= 0 {
                Some(Fault::Invalid("order amount must be positive"@))
            } else {
                project_fault(
                    match project {
                        Some(p) => Some(*p),
                        None => None,
                    },
                    request.tenant_id@,
                )
            },
        ),
        r matches Ok(o) ==> o.id == request.id && o.tenant_id == request.tenant_id && o.project_id
            == request.project_id && o.kind@ == "top_up"@ && o.amount == request.amount && o.status@
            == "pending"@ && o.description == request.description && o.created_at == now
            && o.updated_at == now,
{
    if let Err(e) = validate_money(&request.amount) {
        return Err(from_domain(e));
    }
    if request.amount.amount <= 0 {
        return Err(invalid("order amount must be positive"));
    }
    check_project(project, request.tenant_id.as_str())?;
    Ok(
        BillingOrder {
            id: request.id,
            tenant_id: request.tenant_id,
            project_id: request.project_id,
            kind: "top_up".to_owned(),
            amount: request.amount,
            status: "pending".to_owned(),
            description: request.description,
            created_at: now,
            updated_at: now,
        },
    )
}

/// A captured payment. Without entries nothing was written: the call repeated
/// one that had been made before.
pub struct Captured {
    pub payment: Payment,
    pub order: Option<BillingOrder>,
    pub entries: Option<BalancedEntries>,
}

pub open spec fn capture_fault(
    order_id: Seq<char>,
    q: CapturePaymentRequest,
    existing: Option<Payment>,
    order: Option<BillingOrder>,
    account: AccountRow,
    balance: AccountBalance,
) -> Option<Fault> {
    if blank(q.provider@) || blank(q.provider_reference@) {
        Some(Fault::Invalid("provider and provider_reference are required"@))
    } else if existing is Some {
        if existing->0.order_id@ == order_id && existing->0.provider@ == q.provider@
            && existing->0.provider_reference@ == q.provider_reference@ {
            None
        } else {
            Some(Fault::Conflict("payment id already belongs to a different request"@))
        }
    } else if order is None {
        Some(Fault::NotFound)
    } else if order->0.status@ != "pending"@ {
        Some(Fault::Conflict("only pending orders can be paid"@))
    } else if !fits_i64(order->0.amount.amount * MICROS_PER_MINOR_UNIT) {
        Some(Fault::Invalid("payment amount is too large"@))
    } else {
        posting_fault(account, balance, order->0.amount.amount * MICROS_PER_MINOR_UNIT)
    }
}

/// Captures the payment of a pending order and credits the account.
pub fn capture_payment(
    order_id: &str,
    request: CapturePaymentRequest,
    idempotency_key: &str,
    existing: Option<Payment>,
    order: Option<BillingOrder>,
    account: &AccountRow,
    balance: &mut AccountBalance,
    ids: &EntryIds,
    now: Timestamp,
) -> (r: ServiceResult<Captured>)
    ensures
        refused(r, capture_fault(order_id@, request, existing, order, *account, *old(balance))),
        r is Err || existing is Some ==> *final(balance) == *old(balance),
        r matches Ok(c) ==> existing is Some ==> c.payment == existing->0 && c.order is None
            && c.entries is None,
        r matches Ok(c) ==> existing is None ==> {
            let o = order->0;
            &&& c.payment.id == request.id
            &&& c.payment.order_id == o.id
            &&& c.payment.provider == request.provider
            &&& c.payment.provider_reference == request.provider_reference
            &&& c.payment.amount == o.amount
            &&& c.payment.status@ == "succeeded"@
            &&& c.payment.paid_at == Some(now)
            &&& c.payment.created_at == now
            &&& c.order matches Some(paid) && paid.status@ == "paid"@ && paid == (BillingOrder {
                status: paid.status,
                updated_at: now,
                ..o
            })
            &&& c.entries matches Some(e) && balanced(e) && entries_of(
                *account,
                e.posting,
                *ids,
                e,
            ) && e.posting.customer_delta_microunits == o.amount.amount * MICROS_PER_MINOR_UNIT
                && e.posting.tenant_id == o.tenant_id && e.posting.kind@ == "top_up"@
                && e.posting.reference_type@ == "payment"@ && e.posting.reference_id == request.id
                && e.posting.idempotency_key@ == idempotency_key@ && e.posting.description@
                == "Wallet top-up"@ && e.posting.counter_account@ == "cash_clearing"@
                && e.created_at == now
            &&& *final(balance) == (AccountBalance {
                balance_microunits: (old(balance).balance_microunits + o.amount.amount
                    * MICROS_PER_MINOR_UNIT) as i64,
                updated_at: now,
                ..*old(balance)
            })
        },
{
    if is_blank(request.provider.as_str()) || is_blank(request.provider_reference.as_str()) {
        return Err(invalid("provider and provider_reference are required"));
    }
    if let Some(existing) = existing {
        if same(existing.order_id.as_str(), order_id) && same(
            existing.provider.as_str(),
            request.provider.as_str(),
        ) && same(existing.provider_reference.as_str(), request.provider_reference.as_str()) {
            return Ok(Captured { payment: existing, order: None, entries: None });
        }
        return Err(conflict("payment id already belongs to a different request"));
    }
    let order = match order {
        Some(order) => order,
        None => return Err(ServiceError::NotFound),
    };
    if !same(order.status.as_str(), "pending") {
        return Err(conflict("only pending orders can be paid"));
    }
    let amount = match order.amount.amount.checked_mul(MICROS_PER_MINOR_UNIT) {
        Some(amount) => amount,
        None => return Err(invalid("payment amount is too large")),
    };
    let posting = Posting {
        tenant_id: order.tenant_id.clone(),
        kind: "top_up".to_owned(),
        reference_type: "payment".to_owned(),
        reference_id: request.id.clone(),
        idempotency_key: idempotency_key.to_owned(),
        description: "Wallet top-up".to_owned(),
        customer_delta_microunits: amount,
        counter_account: "cash_clearing".to_owned(),
    };
    let entries = insert_balanced_entries(account, balance, posting, ids, now)?;
    let payment = Payment {
        id: request.id,
        order_id: order.id.clone(),
        provider: request.provider,
        provider_reference: request.provider_reference,
        amount: order.amount.copy(),
        status: "succeeded".to_owned(),
        paid_at: Some(now),
        created_at: now,
    };
    Ok(
        Captured {
            payment,
            order: Some(
                BillingOrder { status: "paid".to_owned(), updated_at: now, ..order },
            ),
            entries: Some(entries),
        },
    )
}

/// A refund. Without entries nothing was written: the call repeated one that
/// had been made before.
pub struct Refunded {
    pub refund: Refund,
    pub entries: Option<BalancedEntries>,
}

pub open spec fn same_refund(existing: Refund, q: CreateRefundRequest) -> bool {
    &&& existing.payment_id@ == q.payment_id@
    &&& existing.amount.amount == q.amount.amount
    &&& existing.amount.currency@ == q.amount.currency@
    &&& existing.reason@ == q.reason@
}

pub open spec fn saturating_sum(a: int, b: int) -> int {
    if a + b > i64::MAX {
        i64::MAX as int
    } else if a + b < i64::MIN {
        i64::MIN as int
    } else {
        a + b
    }
}

pub open spec fn refund_fault(
    q: CreateRefundRequest,
    existing: Option<Refund>,
    payment: Option<Payment>,
    order: Option<BillingOrder>,
    already_refunded: int,
    account: AccountRow,
    balance: AccountBalance,
) -> Option<Fault> {
    if money_fault(q.amount) is Some {
        Some(Fault::Invalid(money_fault(q.amount)->0.text()))
    } else if q.amount.amount <= 0 || blank(q.reason@) {
        Some(Fault::Invalid("refund amount and reason are required"@))
    } else if existing is Some {
        if same_refund(existing->0, q) {
            None
        } else {
            Some(Fault::Conflict("refund id already belongs to a different request"@))
        }
    } else if payment is None {
        Some(Fault::NotFound)
    } else if payment->0.status@ != "succeeded"@ || payment->0.amount.currency@
        != q.amount.currency@ || q.amount.amount > payment->0.amount.amount {
        Some(Fault::Invalid("refund exceeds the captured payment"@))
    } else if order is None {
        Some(Fault::NotFound)
    } else if saturating_sum(already_refunded, q.amount.amount as int)
        > payment->0.amount.amount {
        Some(Fault::Invalid("cumulative refunds exceed the captured payment"@))
    } else if !fits_i64(q.amount.amount * MICROS_PER_MINOR_UNIT) {
        Some(Fault::Invalid("refund amount is too large"@))
    } else {
        posting_fault(account, balance, -(q.amount.amount * MICROS_PER_MINOR_UNIT))
    }
}

/// Refunds part of a captured payment out of the account. All refunds of a
/// payment together never exceed what was captured.
pub fn create_refund(
    request: CreateRefundRequest,
    idempotency_key: &str,
    existing: Option<Refund>,
    payment: Option<&Payment>,
    order: Option<&BillingOrder>,
    already_refunded: i64,
    account: &AccountRow,
    balance: &mut AccountBalance,
    ids: &EntryIds,
    now: Timestamp,
) -> (r: ServiceResult<Refunded>)
    ensures
        refused(
            r,
            refund_fault(
                request,
                existing,
                match payment {
                    Some(p) => Some(*p),
                    None => None,
                },
                match order {
                    Some(o) => Some(*o),
                    None => None,
                },
                already_refunded as int,
                *account,
                *old(balance),
            ),
        ),
        r is Err || existing is Some ==> *final(balance) == *old(balance),
        r matches Ok(d) ==> existing is Some ==> d.refund == existing->0 && d.entries is None,
        r matches Ok(d) ==> existing is None ==> {
            let delta = request.amount.amount * MICROS_PER_MINOR_UNIT;
            &&& d.refund.id == request.id
            &&& d.refund.payment_id == request.payment_id
            &&& d.refund.amount == request.amount
            &&& d.refund.reason == request.reason
            &&& d.refund.status@ == "succeeded"@
            &&& d.refund.provider_reference is None
            &&& d.refund.created_at == now
            &&& d.refund.completed_at == Some(now)
            &&& d.entries matches Some(e) && balanced(e) && entries_of(
                *account,
                e.posting,
                *ids,
                e,
            ) && e.posting.customer_delta_microunits == -delta && e.posting.tenant_id
                == order->0.tenant_id && e.posting.kind@ == "refund"@ && e.posting.reference_type@
                == "refund"@ && e.posting.reference_id == request.id && e.posting.idempotency_key@
                == idempotency_key@ && e.posting.description@ == "Payment refund"@
                && e.posting.counter_account@ == "cash_clearing"@ && e.created_at == now
            &&& *final(balance) == (AccountBalance {
                balance_microunits: (old(balance).balance_microunits - delta) as i64,
                updated_at: now,
                ..*old(balance)
            })
        },
{
    if let Err(e) = validate_money(&request.amount) {
        return Err(from_domain(e));
    }
    if request.amount.amount <= 0 || is_blank(request.reason.as_str()) {
        return Err(invalid("refund amount and reason are required"));
    }
    if let Some(existing) = existing {
        if same(existing.payment_id.as_str(), request.payment_id.as_str())
            && existing.amount.amount == request.amount.amount && same(
            existing.amount.currency.as_str(),
            request.amount.currency.as_str(),
        ) && same(existing.reason.as_str(), request.reason.as_str()) {
            return Ok(Refunded { refund: existing, entries: None });
        }
        return Err(conflict("refund id already belongs to a different request"));
    }
    let payment = match payment {
        Some(payment) => payment,
        None => return Err(ServiceError::NotFound),
    };
    if !same(payment.status.as_str(), "succeeded") || !same(
        payment.amount.currency.as_str(),
        request.amount.currency.as_str(),
    ) || request.amount.amount > payment.amount.amount {
        return Err(invalid("refund exceeds the captured payment"));
    }
    let order = match order {
        Some(order) => order,
        None => return Err(ServiceError::NotFound),
    };
    let total: i64 = match already_refunded.checked_add(request.amount.amount) {
        Some(total) => total,
        None => i64::MAX,
    };
    if total > payment.amount.amount {
        return Err(invalid("cumulative refunds exceed the captured payment"));
    }
    let amount = match request.amount.amount.checked_mul(MICROS_PER_MINOR_UNIT) {
        Some(amount) => amount,
        None => return Err(invalid("refund amount is too large")),
    };
    let posting = Posting {
        tenant_id: order.tenant_id.clone(),
        kind: "refund".to_owned(),
        reference_type: "refund".to_owned(),
        reference_id: request.id.clone(),
        idempotency_key: idempotency_key.to_owned(),
        description: "Payment refund".to_owned(),
        customer_delta_microunits: -amount,
        counter_account: "cash_clearing".to_owned(),
    };
    let entries = insert_balanced_entries(account, balance, posting, ids, now)?;
    Ok(
        Refunded {
            refund: Refund {
                id: request.id,
                payment_id: request.payment_id,
                amount: request.amount,
                reason: request.reason,
                status: "succeeded".to_owned(),
                provider_reference: None,
                created_at: now,
                completed_at: Some(now),
            },
            entries: Some(entries),
        },
    )
}

/// Issues an invoice over what was charged in its period.
pub fn create_invoice(
    request: CreateInvoiceRequest,
    project: Option<&Project>,
    charged: Money,
    now: Timestamp,
) -> (r: ServiceResult<Invoice>)
    ensures
        refused(
            r,
            if request.period_end <= request.period_start || blank(request.title@) {
                Some(Fault::Invalid("invoice period and title are invalid"@))
            } else {
                project_fault(
                    match project {
                        Some(p) => Some(*p),
                        None => None,
                    },
                    request.tenant_id@,
                )
            },
        ),
        r matches Ok(i) ==> i.id == request.id && i.tenant_id == request.tenant_id && i.project_id
            == request.project_id && i.period_start == request.period_start && i.period_end
            == request.period_end && i.amount == charged && i.status@ == "issued"@ && i.title
            == request.title && i.issued_at == now,
{
    if request.period_end <= request.period_start || is_blank(request.title.as_str()) {
        return Err(invalid("invoice period and title are invalid"));
    }
    check_project(project, request.tenant_id.as_str())?;
    Ok(
        Invoice {
            id: request.id,
            tenant_id: request.tenant_id,
            project_id: request.project_id,
            period_start: request.period_start,
            period_end: request.period_end,
            amount: charged,
            status: "issued".to_owned(),
            title: request.title,
            issued_at: now,
        },
    )
}

/// How a failed write is shown: a key that is taken is a conflict, everything
/// else a failure of the database.
pub fn conflict_or_database(message: String) -> (r: ServiceError)
    ensures
        r@ == if has_text(message@, "duplicate key"@) || has_text(
            message@,
            "unique constraint"@,
        ) {
            Fault::Conflict("resource already exists"@)
        } else {
            Fault::Database(message@)
        },
{
    if contains_text(message.as_str(), "duplicate key") || contains_text(
        message.as_str(),
        "unique constraint",
    ) {
        conflict("resource already exists")
    } else {
        ServiceError::Database(message)
    }
}

/// An identifier that depends on a text alone: 22 characters of its digest.
pub open spec fn stable_id_text(value: Seq<char>) -> Seq<char> {
    base64_url_text(sha256(bytes_of(value))).take(22)
}

pub fn stable_id(value: &str) -> (r: String)
    ensures
        r@ == stable_id_text(value@),
        r@.len() == 22,
{
    let hash = digest(value.as_bytes());
    let encoded = encode_base64_url(&hash);
    encoded.as_str().substring_char(0, 22).to_owned()
}

/// A user without memberships, as it is stored.
#[derive(Clone, Debug)]
pub struct UserRow {
    pub id: String,
    pub external_subject: String,
    pub username: String,
    pub email: String,
    pub status: String,
    pub last_login_at: Timestamp,
    pub created_at: Timestamp,
    pub updated_at: Timestamp,
}

/// A membership as it is stored.
#[derive(Clone, Debug)]
pub struct MembershipRow {
    pub id: String,
    pub user_id: String,
    pub tenant_id: String,
    pub role: String,
    pub created_at: Timestamp,
}

/// What a login writes: the user, and a membership where one is due.
pub struct SyncedUser {
    pub row: UserRow,
    pub joined: Option<MembershipRow>,
}

pub open spec fn membership_id(user: Seq<char>, tenant: Seq<char>) -> Seq<char> {
    "membership-"@ + stable_id_text(user + ":"@ + tenant)
}

fn make_membership_id(user: &str, tenant: &str) -> (r: String)
    ensures
        r@ == membership_id(user@, tenant@),
{
    let mut pair = join(user, ":");
    pair.append(tenant);
    join("membership-", stable_id(pair.as_str()).as_str())
}

/// Registers a login: creates the user the first time, refreshes name and mail
/// address later, and joins the default tenant where a role is due and the
/// user (`member` says so) is not in it yet.
pub fn sync_user(
    external_subject: &str,
    username: &str,
    email: &str,
    default_tenant_id: &str,
    default_role: Option<&str>,
    existing: Option<UserRow>,
    member: bool,
    now: Timestamp,
) -> (r: ServiceResult<SyncedUser>)
    ensures
        refused(
            r,
            if external_subject@.len() == 0 {
                Some(Fault::Unauthorized)
            } else {
                None
            },
        ),
        r matches Ok(s) ==> {
            &&& s.row.username@ == username@
            &&& s.row.email@ == email@
            &&& s.row.last_login_at == now
            &&& s.row.updated_at == now
            &&& match existing {
                Some(row) => s.row.id == row.id && s.row.external_subject == row.external_subject
                    && s.row.status == row.status && s.row.created_at == row.created_at,
                None => s.row.id@ == "user-"@ + stable_id_text(external_subject@)
                    && s.row.external_subject@ == external_subject@ && s.row.status@ == "active"@
                    && s.row.created_at == now,
            }
            &&& s.joined is Some <==> default_role is Some && !member
            &&& s.joined matches Some(m) ==> m.id@ == membership_id(s.row.id@, default_tenant_id@)
                && m.user_id == s.row.id && m.tenant_id@ == default_tenant_id@ && m.role@
                == default_role->0@ && m.created_at == now
        },
{
    if external_subject.is_empty() {
        return Err(ServiceError::Unauthorized);
    }
    let row = match existing {
        Some(row) => UserRow {
            username: username.to_owned(),
            email: email.to_owned(),
            last_login_at: now,
            updated_at: now,
            ..row
        },
        None => UserRow {
            id: join("user-", stable_id(external_subject).as_str()),
            external_subject: external_subject.to_owned(),
            username: username.to_owned(),
            email: email.to_owned(),
            status: "active".to_owned(),
            last_login_at: now,
            created_at: now,
            updated_at: now,
        },
    };
    let joined = match default_role {
        Some(role) => if member {
            None
        } else {
            Some(
                MembershipRow {
                    id: make_membership_id(row.id.as_str(), default_tenant_id),
                    user_id: row.id.clone(),
                    tenant_id: default_tenant_id.to_owned(),
                    role: role.to_owned(),
                    created_at: now,
                },
            )
        },
        None => None,
    };
    Ok(SyncedUser { row, joined })
}

pub open spec fn membership_fault(
    role: Seq<char>,
    user_found: bool,
    existing: Option<MembershipRow>,
    owners: int,
) -> Option<Fault> {
    if role != "owner"@ && role != "member"@ {
        Some(Fault::Invalid("membership role must be owner or member"@))
    } else if !user_found {
        Some(Fault::NotFound)
    } else if existing is Some && existing->0.role@ == "owner"@ && role != "owner"@ && owners <= 1 {
        Some(Fault::Conflict("a tenant must keep at least one owner"@))
    } else {
        None
    }
}

/// Sets the role of a user in a tenant. `owners` counts the owners of the
/// tenant before the call.
pub fn update_membership(
    user_id: &str,
    tenant_id: &str,
    role: &str,
    user_found: bool,
    existing: Option<MembershipRow>,
    owners: usize,
    now: Timestamp,
) -> (r: ServiceResult<MembershipRow>)
    ensures
        refused(r, membership_fault(role@, user_found, existing, owners as int)),
        r matches Ok(m) ==> m.role@ == role@ && match existing {
            Some(row) => m.id == row.id && m.user_id == row.user_id && m.tenant_id == row.tenant_id
                && m.created_at == row.created_at,
            None => m.id@ == membership_id(user_id@, tenant_id@) && m.user_id@ == user_id@
                && m.tenant_id@ == tenant_id@ && m.created_at == now,
        },
{
    if !same(role, "owner") && !same(role, "member") {
        return Err(invalid("membership role must be owner or member"));
    }
    if !user_found {
        return Err(ServiceError::NotFound);
    }
    match existing {
        Some(row) => {
            if same(row.role.as_str(), "owner") && !same(role, "owner") && owners <= 1 {
                return Err(conflict("a tenant must keep at least one owner"));
            }
            Ok(MembershipRow { role: role.to_owned(), ..row })
        },
        None => Ok(
            MembershipRow {
                id: make_membership_id(user_id, tenant_id),
                user_id: user_id.to_owned(),
                tenant_id: tenant_id.to_owned(),
                role: role.to_owned(),
                created_at: now,
            },
        ),
    }
}

/// A change of roles never takes the last owner from a tenant.
pub proof fn law_a_tenant_keeps_an_owner(
    role: Seq<char>,
    user_found: bool,
    existing: Option<MembershipRow>,
    owners: int,
)
    requires
        owners >= 1,
        membership_fault(role, user_found, existing, owners) is None,
    ensures
        ({
            let lost: int = if existing is Some && existing->0.role@ == "owner"@ && role
                != "owner"@ {
                1
            } else {
                0
            };
            owners - lost >= 1
        }),
{
}

/// Refunds that were granted one after the other never exceed the payment.
pub proof fn law_refunds_stay_within_the_payment(
    q: CreateRefundRequest,
    payment: Payment,
    order: BillingOrder,
    already_refunded: int,
    account: AccountRow,
    balance: AccountBalance,
)
    requires
        fits_i64(already_refunded),
        payment.amount.amount < i64::MAX,
        refund_fault(
            q,
            None,
            Some(payment),
            Some(order),
            already_refunded,
            account,
            balance,
        ) is None,
    ensures
        already_refunded + q.amount.amount <= payment.amount.amount,
{
}

/// A key is issued only to the project of its tenant, once, and for the model that is served.
pub proof fn law_keys_are_issued_within_their_tenant(
    q: ApiKeyRequest,
    model_id: Seq<char>,
    project: Option<Project>,
    key_exists: bool,
    now: Timestamp,
)
    ensures
        issue_fault(q, model_id, project, key_exists, now) is None <==> {
            &&& key_policy_fault(q, now) is None
            &&& project is Some
            &&& project->0.tenant_id@ == q.tenant_id@
            &&& !key_exists
            &&& forall|i: int|
                0 <= i < q.allowed_models@.len() ==> #[trigger] q.allowed_models@[i]@ == model_id
        },
{
}

/// The gateway sees exactly the keys that are neither revoked nor expired.
pub proof fn law_gateways_see_the_live_keys(rows: Seq<KeyRow>, now: Timestamp, row: KeyRow)
    ensures
        active_keys(rows, now).contains(row) <==> rows.contains(row) && row.revoked_at is None && (
        row.expires_at is None || now < row.expires_at->0),
    decreases rows.len(),
{
    reveal(Seq::filter);
    if rows.len() > 0 {
        let rest = rows.drop_last();
        law_gateways_see_the_live_keys(rest, now, row);
        let kept = active_keys(rest, now);
        let all = active_keys(rows, now);
        assert(all == if key_active(rows.last(), now) {
            kept.push(rows.last())
        } else {
            kept
        });
        if rows.contains(row) {
            let i = choose|i: int| 0 <= i < rows.len() && rows[i] == row;
            if i < rest.len() {
                assert(rest[i] == row);
            }
        }
        if rest.contains(row) {
            let i = choose|i: int| 0 <= i < rest.len() && rest[i] == row;
            assert(rows[i] == row);
        }
        if kept.contains(row) {
            let i = choose|i: int| 0 <= i < kept.len() && kept[i] == row;
            assert(all[i] == row);
        }
        if row == rows.last() {
            assert(rows[rows.len() - 1] == row);
            if key_active(row, now) {
                assert(all[all.len() - 1] == row);
            }
        }
        if all.contains(row) && !kept.contains(row) {
            let i = choose|i: int| 0 <= i < all.len() && all[i] == row;
            if i < kept.len() {
                assert(kept[i] == row);
            }
        }
    }
}

/// What the gateway is told of a key's money errs on the safe side by less than one minor
/// unit: the balance is rounded down and the spend is rounded up.
pub proof fn law_gateways_are_told_no_more_than_there_is(p: KeyPosition, k: GatewayKey)
    requires
        gateway_key(p, k),
        p.spent_microunits >= 0,
    ensures
        k.available_balance.amount * 1_000_000 <= p.balance_microunits,
        p.balance_microunits < (k.available_balance.amount + 1) * 1_000_000,
        k.current_month_spend.amount * 1_000_000 >= p.spent_microunits,
        p.spent_microunits > (k.current_month_spend.amount - 1) * 1_000_000,
        k.balance_enforced == p.balance_enforced,
        k.monthly_budget.amount == p.row.monthly_budget_amount,
        k.rate_limit_rpm == p.row.rate_limit_rpm,
        k.rate_limit_tpm == p.row.rate_limit_tpm,
{
}

/// Usage costs what its tokens cost if it succeeded, and nothing otherwise.
pub proof fn law_only_successful_usage_costs(model: Model, e: UsageEvent)
    ensures
        e.status@ == "succeeded"@ && e.input_tokens >= 0 && e.output_tokens >= 0 ==> usage_cost(
            model,
            e,
        ) == e.input_tokens * model.input_per_million_tokens.amount + e.output_tokens
            * model.output_per_million_tokens.amount,
        e.status@ != "succeeded"@ ==> usage_cost(model, e) == 0,
{
    if e.input_tokens == 0 && e.output_tokens == 0 {
        let a = model.input_per_million_tokens.amount as int;
        let b = model.output_per_million_tokens.amount as int;
        assert(0 * a == 0 && 0 * b == 0) by (nonlinear_arith);
    }
}

/// Usage is recorded only under the key of its own tenant and project, at the current price,
/// and never for a request whose money is held.
pub proof fn law_usage_is_recorded_within_its_key(
    e: UsageEvent,
    model: Model,
    f: UsageFacts,
    account: AccountRow,
    balance: AccountBalance,
    spend: MonthSpend,
)
    requires
        usage_fault(e, model, f, account, balance, spend) is None,
    ensures
        f.key_owner is Some,
        f.key_owner->0.tenant_id@ == e.tenant_id@,
        f.key_owner->0.project_id@ == e.project_id@,
        !f.reserved,
        e.input_tokens >= 0 && e.output_tokens >= 0 && e.cached_input_tokens >= 0 && e.latency_ms
            >= 0,
        e.status@ == "succeeded"@ && (e.input_tokens > 0 || e.output_tokens > 0) ==> e.model_id@
            == model.id@ && e.price_version@ == model.price_version@,
        !f.recorded && account.enforce_balance && balance.held_microunits >= 0 && usage_cost(
            model,
            e,
        ) > 0 ==> balance.balance_microunits - usage_cost(model, e) >= balance.held_microunits,
{
}

/// Usage that is recorded for the first time is written down as it was counted, is charged at
/// its cost, and is booked as revenue exactly if it costs anything.
pub proof fn law_recorded_usage_is_charged_and_booked(
    e: UsageEvent,
    model: Model,
    f: UsageFacts,
    account: AccountRow,
    ids: EntryIds,
    balance: AccountBalance,
    spend: MonthSpend,
    done: Option<Recorded>,
    next_balance: AccountBalance,
    next_spend: MonthSpend,
)
    requires
        !f.recorded,
        usage_fault(e, model, f, account, balance, spend) is None,
        records(e, model, f, account, ids, balance, spend, done, next_balance, next_spend),
        usage_cost(model, e) >= 0,
    ensures
        done is Some,
        done->0.usage.event_id == e.event_id,
        done->0.usage.request_id == e.request_id,
        done->0.usage.input_tokens == e.input_tokens,
        done->0.usage.output_tokens == e.output_tokens,
        done->0.usage.cost_microunits == usage_cost(model, e),
        done->0.usage.cost_amount * 1_000_000 >= usage_cost(model, e),
        (done->0.usage.cost_amount - 1) * 1_000_000 < usage_cost(model, e),
        done->0.entries is Some <==> usage_cost(model, e) > 0,
        done->0.entries matches Some(entries) ==> {
            &&& entries.customer.amount_microunits == -usage_cost(model, e)
            &&& entries.counter.amount_microunits == usage_cost(model, e)
            &&& entries.counter.ledger_account@ == "usage_revenue"@
            &&& entries.posting.idempotency_key@ == "usage:"@ + e.event_id@
        },
        next_balance.balance_microunits == balance.balance_microunits - usage_cost(model, e),
        next_balance.held_microunits == balance.held_microunits,
        next_spend.spent_microunits == spend.spent_microunits + usage_cost(model, e),
{
}

/// A payment is captured once: only a pending order is paid, and a payment that was captured
/// is given back to whoever names the same order, provider and reference, and to nobody else.
pub proof fn law_payments_are_captured_once(
    order_id: Seq<char>,
    q: CapturePaymentRequest,
    existing: Option<Payment>,
    order: Option<BillingOrder>,
    account: AccountRow,
    balance: AccountBalance,
)
    requires
        capture_fault(order_id, q, existing, order, account, balance) is None,
    ensures
        existing is None ==> order is Some && order->0.status@ == "pending"@ && i64::MIN
            <= order->0.amount.amount * 1_000_000 <= i64::MAX && i64::MIN
            <= balance.balance_microunits + order->0.amount.amount * 1_000_000 <= i64::MAX,
        existing is Some ==> existing->0.order_id@ == order_id && existing->0.provider@
            == q.provider@ && existing->0.provider_reference@ == q.provider_reference@,
        !blank(q.provider@) && !blank(q.provider_reference@),
{
}

/// A pending order of a positive amount is paid, whatever the account holds, as long as the
/// balance can be counted.
pub proof fn law_pending_orders_can_be_paid(
    order_id: Seq<char>,
    q: CapturePaymentRequest,
    order: BillingOrder,
    account: AccountRow,
    balance: AccountBalance,
)
    requires
        !blank(q.provider@),
        !blank(q.provider_reference@),
        order.status@ == "pending"@,
        order.amount.amount > 0,
        balance.balance_microunits + order.amount.amount * 1_000_000 <= i64::MAX,
        order.amount.amount * 1_000_000 <= i64::MAX,
    ensures
        capture_fault(order_id, q, None, Some(order), account, balance) is None,
{
}

/// A refund is made of a payment that succeeded, in its currency, of a positive amount, for a
/// reason, and out of money that is not held for requests; a refund that was made is given
/// back to whoever asks for the very same one, and to nobody else.
pub proof fn law_refunds_are_of_money_that_was_paid(
    q: CreateRefundRequest,
    existing: Option<Refund>,
    payment: Option<Payment>,
    order: Option<BillingOrder>,
    already_refunded: int,
    account: AccountRow,
    balance: AccountBalance,
)
    requires
        refund_fault(q, existing, payment, order, already_refunded, account, balance) is None,
    ensures
        q.amount.amount > 0,
        !blank(q.reason@),
        existing is Some ==> existing->0.payment_id@ == q.payment_id@ && existing->0.amount.amount
            == q.amount.amount && existing->0.amount.currency@ == q.amount.currency@
            && existing->0.reason@ == q.reason@,
        existing is None ==> {
            &&& payment is Some
            &&& order is Some
            &&& payment->0.status@ == "succeeded"@
            &&& payment->0.amount.currency@ == q.amount.currency@
            &&& q.amount.amount <= payment->0.amount.amount
            &&& account.enforce_balance ==> balance.balance_microunits - q.amount.amount * 1_000_000
                >= balance.held_microunits
        },
{
}

/// What is left of a payment can be refunded, whole or in part, out of a balance that covers
/// it.
pub proof fn law_what_is_left_of_a_payment_can_be_refunded(
    q: CreateRefundRequest,
    payment: Payment,
    order: BillingOrder,
    already_refunded: int,
    account: AccountRow,
    balance: AccountBalance,
)
    requires
        q.amount.currency@ == "CNY"@,
        payment.amount.currency@ == "CNY"@,
        payment.status@ == "succeeded"@,
        !blank(q.reason@),
        0 <= already_refunded,
        0 < q.amount.amount,
        already_refunded + q.amount.amount <= payment.amount.amount,
        balance.held_microunits >= 0,
        balance.balance_microunits - q.amount.amount * 1_000_000 >= balance.held_microunits,
    ensures
        refund_fault(
            q,
            None,
            Some(payment),
            Some(order),
            already_refunded,
            account,
            balance,
        ) is None,
{
}

/// Whoever is known can be made an owner or a member, and nothing else; only the last owner
/// cannot be made anything less.
pub proof fn law_roles_are_owner_or_member(
    role: Seq<char>,
    user_found: bool,
    existing: Option<MembershipRow>,
    owners: int,
)
    ensures
        membership_fault(role, user_found, existing, owners) is None ==> user_found && (role
            == "owner"@ || role == "member"@),
        user_found && role == "owner"@ ==> membership_fault(role, user_found, existing, owners)
            is None,
        user_found && role == "member"@ && (owners > 1 || existing is None || existing->0.role@
            != "owner"@) ==> membership_fault(role, user_found, existing, owners) is None,
        user_found && role == "member"@ && existing is Some && existing->0.role@ == "owner"@
            && owners == 1 ==> membership_fault(role, user_found, existing, owners) == Some(
            Fault::Conflict("a tenant must keep at least one owner"@),
        ),
{
    reveal_strlit("owner");
    reveal_strlit("member");
    assert("owner"@.len() != "member"@.len());
}

/// A project is open to its own tenant and to no other.
pub proof fn law_projects_are_open_to_their_tenant(project: Option<Project>, tenant_id: Seq<char>)
    ensures
        project_fault(project, tenant_id) is None <==> project is Some && project->0.tenant_id@
            == tenant_id,
        project is None ==> project_fault(project, tenant_id) == Some(Fault::NotFound),
        project is Some && project->0.tenant_id@ != tenant_id ==> project_fault(project, tenant_id)
            == Some(Fault::Forbidden),
{
}

/// A policy that was changed in between is not overwritten: whoever expects none meets a
/// conflict where there is one, and whoever expects a revision meets one unless it is the
/// current revision.
pub proof fn law_changed_policies_are_not_overwritten(
    q: PutRoutePolicy,
    model: Seq<char>,
    pools: Seq<RoutePool>,
    current: Option<i64>,
    e: Fault,
)
    requires
        pools_sound(q.spec, model, pools),
        0 <= q.expected_revision < i64::MAX,
        put_policy_fault(q, model, true, pools, current, e),
    ensures
        e is Conflict,
        q.expected_revision == 0 ==> current is Some,
        q.expected_revision > 0 ==> current is None || current->0 != q.expected_revision,
{
}

/// What was asked for is what the gateway enforces, and what is shown to whoever asked: the
/// limits, the scopes, the models, the budget and the end of a key are kept as they were given,
/// and its secret is kept as a digest.
pub proof fn law_keys_are_enforced_as_they_were_asked_for(
    q: ApiKeyRequest,
    secret: Seq<char>,
    now: Timestamp,
    k: StoredKey,
    p: KeyPosition,
    g: GatewayKey,
)
    requires
        key_stored(q, secret, now, k),
        p.row == k.row,
        gateway_key(p, g),
    ensures
        g.id == q.id && k.issued.api_key.id == q.id,
        g.tenant_id == q.tenant_id && k.issued.api_key.tenant_id == q.tenant_id,
        g.project_id == q.project_id && k.issued.api_key.project_id == q.project_id,
        k.row.name == q.name && k.issued.api_key.name == q.name,
        g.scopes@ == q.scopes@ && k.issued.api_key.scopes@ == q.scopes@,
        g.allowed_models@ == q.allowed_models@ && k.issued.api_key.allowed_models@
            == q.allowed_models@,
        g.expires_at == q.expires_at && k.issued.api_key.expires_at == q.expires_at,
        g.rate_limit_rpm == q.rate_limit_rpm && k.issued.api_key.rate_limit_rpm == q.rate_limit_rpm,
        g.rate_limit_tpm == q.rate_limit_tpm && k.issued.api_key.rate_limit_tpm == q.rate_limit_tpm,
        g.monthly_budget.amount == q.monthly_budget.amount && g.monthly_budget.currency
            == q.monthly_budget.currency && k.issued.api_key.monthly_budget == q.monthly_budget,
        g.secret_hash@ == base64_text(sha256(bytes_of(secret))),
        k.issued.secret@ == secret,
        k.row.created_at == now && k.issued.api_key.created_at == now,
        k.row.revoked_at is None && k.issued.api_key.revoked_at is None,
        k.issued.api_key.status == KeyStatus::Active,
        (q.expires_at is None || now < q.expires_at->0) ==> key_active(k.row, now),
{
}

/// A new project pays afterwards until its tenant asks for a balance to be enforced, from an
/// account of its own that is open and in the supported currency.
pub proof fn law_new_projects_have_an_open_account(p: Project, a: AccountRow)
    requires
        opening_account(p, a),
    ensures
        a.project_id == p.id,
        a.tenant_id == p.tenant_id,
        a.status@ == "active"@,
        a.currency@ == "CNY"@,
        !a.enforce_balance,
        a.id@ == "account-"@ + p.id@,
{
}

/// A usage event is complete exactly if it is named in full and counts nothing below zero.
pub proof fn law_usage_is_complete_or_refused(e: UsageEvent)
    ensures
        usage_complete(e) <==> {
            &&& !blank(e.schema_version@) && !blank(e.event_id@) && !blank(e.request_id@)
            &&& !blank(e.tenant_id@) && !blank(e.project_id@) && !blank(e.api_key_id@)
            &&& !blank(e.model_id@) && !blank(e.model_revision@) && !blank(e.region@)
            &&& !blank(e.price_version@) && !blank(e.status@)
            &&& e.input_tokens >= 0 && e.output_tokens >= 0
            &&& e.cached_input_tokens >= 0 && e.latency_ms >= 0
        },
{
}

/// Usage is stored as it was reported: whose it is, what it was served with, and when.
pub proof fn law_usage_is_stored_as_reported(
    e: UsageEvent,
    cost: int,
    received_at: Timestamp,
    u: UsageRow,
)
    requires
        usage_row(e, cost, received_at, u),
    ensures
        u.event_id == e.event_id && u.request_id == e.request_id,
        u.tenant_id == e.tenant_id && u.project_id == e.project_id && u.api_key_id == e.api_key_id,
        u.model_id == e.model_id && u.model_revision == e.model_revision,
        u.endpoint_id == e.endpoint_id && u.region == e.region,
        u.price_version == e.price_version,
        u.input_tokens == e.input_tokens && u.output_tokens == e.output_tokens,
        u.cached_input_tokens == e.cached_input_tokens && u.latency_ms == e.latency_ms,
        u.status == e.status,
        u.occurred_at == e.occurred_at && u.received_at == received_at,
        u.currency@ == "CNY"@,
{
}

/// A listed policy is the stored one, under the tenant of its project.
pub proof fn law_policies_are_listed_as_stored(
    row: PolicyRow,
    projects: Seq<Project>,
    policy: RoutePolicy,
)
    requires
        listed_policy(row, projects, policy),
    ensures
        policy.project_id == row.project_id && policy.model == row.model && policy.revision
            == row.revision,
        project_tenant(projects, row.project_id@) == Some(policy.tenant_id@),
        row.spec is Ok && row.spec->Ok_0 == policy.spec,
{
}

/// Usage is booked under its event: the tenant pays its cost to the revenue from usage.
pub proof fn law_usage_is_booked_under_its_event(e: UsageEvent, cost: int, p: Posting)
    ensures
        usage_posting(e, cost, p) <==> p.tenant_id == e.tenant_id && p.reference_id == e.event_id
            && p.idempotency_key@ == "usage:"@ + e.event_id@ && p.customer_delta_microunits + cost
            == 0 && p.kind@ == "usage"@ && p.reference_type@ == "usage_event"@ && p.description@
            == "Model inference usage"@ && p.counter_account@ == "usage_revenue"@,
{
}

/// Usage without a token, or of a request that did not succeed, is not charged; any other is.
pub proof fn law_tokens_of_successful_requests_are_charged(e: UsageEvent)
    ensures
        e.input_tokens == 0 && e.output_tokens == 0 ==> !chargeable(e),
        e.status@ != "succeeded"@ ==> !chargeable(e),
        e.status@ == "succeeded"@ && e.input_tokens >= 1 ==> chargeable(e),
        e.status@ == "succeeded"@ && e.output_tokens >= 1 ==> chargeable(e),
{
}

/// A policy whose revision cannot be advanced is refused as invalid, not as changed.
pub proof fn law_revisions_that_cannot_advance_are_invalid(
    q: PutRoutePolicy,
    model: Seq<char>,
    model_known: bool,
    pools: Seq<RoutePool>,
    current: Option<i64>,
    e: Fault,
)
    requires
        put_policy_fault(q, model, model_known, pools, current, e),
    ensures
        q.expected_revision < 0 || q.expected_revision == i64::MAX || !model_known ==> e is Invalid,
        e is Conflict ==> 0 <= q.expected_revision && q.expected_revision + 1 <= i64::MAX && (
        q.expected_revision == 0 ==> current is Some) && (q.expected_revision > 0 ==> current
            != Some(q.expected_revision)),
{
}

} // verus!
