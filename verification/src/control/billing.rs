//! Money protocol of one account: reserve, dispatch, then settle, release or
//! leave unresolved. No timer releases a dispatched request whose end is not
//! known. The caller holds the lock of the account, up to the commit.
use crate::control::billing_projection::{
    change_hold, change_spend, counter_moves, hold_fault, hold_moves, projection_fault,
    AccountBalance, KeyHold, MonthSpend,
};
use crate::control::error::{
    conflict, from_domain, invalid, out_of_funds, refused, Fault, ServiceError, ServiceResult,
};
use crate::control::ledger::{
    balanced, entries_of, insert_balanced_entries, posting_fault, AccountRow, BalancedEntries,
    EntryIds, EventDraft, EventKind, Posting,
};
use crate::domain::billing::{
    same_reserve, same_reserve_view, same_settle, same_settle_view, same_unresolved,
    same_unresolved_view, ReserveRequest, SettleRequest, UnresolvedRequest,
};
use crate::domain::{
    ceil_minor_units, fits_i64, toward_zero, token_cost, token_cost_fits, usage_cost_microunits,
    DomainError, Model, Timestamp, MICROS_PER_MINOR_UNIT,
};
use crate::text::{byte_len, bytes_of, is_listed, is_made_of, join, listed, made_of, same};
use vstd::prelude::*;

verus! {

#[derive(Clone, Debug)]
pub struct ReleaseRequest {
    pub reason: String,
}

/// Where a reservation stands. `Reserved` and `Dispatched` hold money.
#[derive(Clone, Copy, Debug, PartialEq, Eq, Structural)]
pub enum ReservationState {
    Reserved,
    Dispatched,
    Settled,
    Released,
    Waived,
    /// A state that this version does not know; nothing moves out of it.
    Unknown,
}

impl ReservationState {
    pub open spec fn reads(s: Seq<char>) -> ReservationState {
        if s == "reserved"@ {
            ReservationState::Reserved
        } else if s == "dispatched"@ {
            ReservationState::Dispatched
        } else if s == "settled"@ {
            ReservationState::Settled
        } else if s == "released"@ {
            ReservationState::Released
        } else if s == "waived"@ {
            ReservationState::Waived
        } else {
            ReservationState::Unknown
        }
    }

    /// Reads the stored name of a state.
    pub fn parse(s: &str) -> (r: Self)
        ensures
            r == Self::reads(s@),
    {
        if same(s, "reserved") {
            ReservationState::Reserved
        } else if same(s, "dispatched") {
            ReservationState::Dispatched
        } else if same(s, "settled") {
            ReservationState::Settled
        } else if same(s, "released") {
            ReservationState::Released
        } else if same(s, "waived") {
            ReservationState::Waived
        } else {
            ReservationState::Unknown
        }
    }
}

/// How a reservation ended, as it was reported.
#[derive(Clone, Debug)]
pub enum Completion {
    Released,
    Unresolved(UnresolvedRequest),
    Settled(SettleRequest),
}

#[derive(Clone, Debug)]
pub struct Reservation {
    pub id: String,
    pub billing_account_id: String,
    pub project_id: String,
    pub tenant_id: String,
    pub api_key_id: String,
    pub request_id: String,
    /// The terms as they were asked for, and the prices as they were then.
    pub spec: ReserveRequest,
    pub price: Model,
    pub reserved_microunits: i64,
    pub settled_microunits: Option<i64>,
    pub state: ReservationState,
    pub completion: Option<Completion>,
    pub created_at: Timestamp,
    pub updated_at: Timestamp,
}

impl Reservation {
    pub(crate) fn copy(&self) -> (r: Self)
        ensures
            r == *self,
    {
        Reservation {
            id: self.id.clone(),
            billing_account_id: self.billing_account_id.clone(),
            project_id: self.project_id.clone(),
            tenant_id: self.tenant_id.clone(),
            api_key_id: self.api_key_id.clone(),
            request_id: self.request_id.clone(),
            spec: self.spec.copy(),
            price: self.price.copy(),
            reserved_microunits: self.reserved_microunits,
            settled_microunits: self.settled_microunits,
            state: self.state,
            completion: match &self.completion {
                Some(Completion::Released) => Some(Completion::Released),
                Some(Completion::Unresolved(q)) => Some(Completion::Unresolved(q.copy())),
                Some(Completion::Settled(q)) => Some(Completion::Settled(q.copy())),
                None => None,
            },
            created_at: self.created_at,
            updated_at: self.updated_at,
        }
    }

    /// Whether money is held for this reservation.
    pub open spec fn pending(self) -> bool {
        self.state == ReservationState::Reserved || self.state == ReservationState::Dispatched
    }

    /// The terms that admission froze: bounds and prices are not negative, and
    /// what is held is the cost of the bounds.
    pub open spec fn well_formed(self) -> bool {
        &&& self.spec.input_token_limit >= 0
        &&& self.spec.output_token_limit >= 0
        &&& self.price.input_per_million_tokens.amount >= 0
        &&& self.price.output_per_million_tokens.amount >= 0
        &&& self.reserved_microunits == token_cost(
            self.price,
            self.spec.input_token_limit as int,
            self.spec.output_token_limit as int,
        )
    }
}

/// The part of an API key that admission looks at.
#[derive(Clone, Debug)]
pub struct KeyTerms {
    pub id: String,
    pub tenant_id: String,
    pub project_id: String,
    pub scopes: Vec<String>,
    pub allowed_models: Vec<String>,
    pub expires_at: Option<Timestamp>,
    pub revoked_at: Option<Timestamp>,
    pub monthly_budget_amount: i64,
}

/// A nonempty text of at most 128 bytes, made of letters, digits, hyphens,
/// underscores, dots and colons.
pub open spec fn identifier_text(s: Seq<char>) -> bool {
    &&& s.len() > 0
    &&& bytes_of(s).len() <= 128
    &&& made_of(s, seq![0x2du8, 0x5fu8, 0x2eu8, 0x3au8])
}

pub fn identifier(value: &str) -> (r: bool)
    ensures
        r == identifier_text(value@),
{
    let extra: [u8; 4] = [0x2d, 0x5f, 0x2e, 0x3a];
    assert(extra@ =~= seq![0x2du8, 0x5fu8, 0x2eu8, 0x3au8]);
    !value.is_empty() && byte_len(value) <= 128 && is_made_of(value, &extra)
}

/// A reservation after a call. Without an event nothing was written: the call
/// repeated one that had been made before.
#[derive(Clone, Debug)]
pub struct Transition {
    pub row: Reservation,
    pub event: Option<EventDraft>,
}

pub open spec fn unresolved_report(q: UnresolvedRequest) -> bool {
    &&& identifier_text(q.event_id@)
    &&& {
        ||| q.reason@ == "usage_missing"@ && q.input_tokens is None && q.output_tokens is None
        ||| q.reason@ == "usage_over_limit"@ && q.input_tokens is Some && q.output_tokens is Some
    }
}

/// The completion that was stored is this very report.
pub open spec fn completed_unresolved(row: Reservation, q: UnresolvedRequest) -> bool {
    row.completion matches Some(Completion::Unresolved(prior)) && same_unresolved_view(prior, q)
}

pub open spec fn unresolved_fault(row: Option<Reservation>, q: UnresolvedRequest) -> Option<Fault> {
    if !unresolved_report(q) {
        Some(Fault::Invalid("invalid unresolved usage report"@))
    } else {
        match row {
            None => Some(Fault::NotFound),
            Some(row) => {
                if row.state == ReservationState::Settled || row.state == ReservationState::Waived {
                    None
                } else if row.state != ReservationState::Dispatched {
                    Some(Fault::Conflict("unresolved usage requires dispatched reservation"@))
                } else if row.completion is Some && !completed_unresolved(row, q) {
                    Some(Fault::Conflict("unresolved evidence changed"@))
                } else {
                    None
                }
            },
        }
    }
}

/// Records that a dispatched request ended without usage that can be charged.
/// The money stays held; a later settlement or waiver still decides.
pub fn unresolved_money(
    row: Option<Reservation>,
    request: UnresolvedRequest,
    now: Timestamp,
) -> (r: ServiceResult<Transition>)
    ensures
        refused(r, unresolved_fault(row, request)),
        r matches Ok(t) ==> if row->0.state == ReservationState::Dispatched
            && row->0.completion is None {
            &&& t.row == (Reservation {
                completion: Some(Completion::Unresolved(request)),
                updated_at: now,
                ..row->0
            })
            &&& t.event matches Some(e) && e.kind == EventKind::ReservationUnresolved(request)
                && e.aggregate_id == row->0.id
        } else {
            t.row == row->0 && t.event is None
        },
{
    let missing = same(request.reason.as_str(), "usage_missing");
    let over = same(request.reason.as_str(), "usage_over_limit");
    proof {
        reveal_strlit("usage_missing");
        reveal_strlit("usage_over_limit");
        assert("usage_missing"@.len() != "usage_over_limit"@.len());
    }
    if !identifier(request.event_id.as_str()) || !(missing || over) || (missing && (
    request.input_tokens.is_some() || request.output_tokens.is_some())) || (over && (
    request.input_tokens.is_none() || request.output_tokens.is_none())) {
        return Err(invalid("invalid unresolved usage report"));
    }
    let row = match row {
        Some(row) => row,
        None => return Err(ServiceError::NotFound),
    };
    if row.state == ReservationState::Settled || row.state == ReservationState::Waived {
        return Ok(Transition { row, event: None });
    }
    if row.state != ReservationState::Dispatched {
        return Err(conflict("unresolved usage requires dispatched reservation"));
    }
    if row.completion.is_some() {
        let repeated = match &row.completion {
            Some(Completion::Unresolved(prior)) => same_unresolved(prior, &request),
            _ => false,
        };
        if !repeated {
            return Err(conflict("unresolved evidence changed"));
        }
        return Ok(Transition { row, event: None });
    }
    let event = EventDraft {
        kind: EventKind::ReservationUnresolved(
            request.copy(),
        ),
        aggregate_id: row.id.clone(),
    };
    Ok(
        Transition {
            row: Reservation {
                completion: Some(Completion::Unresolved(request)),
                updated_at: now,
                ..row
            },
            event: Some(event),
        },
    )
}

pub open spec fn reserve_identity(q: ReserveRequest) -> bool {
    &&& identifier_text(q.id@)
    &&& identifier_text(q.tenant_id@)
    &&& identifier_text(q.project_id@)
    &&& identifier_text(q.api_key_id@)
    &&& identifier_text(q.request_id@)
    &&& identifier_text(q.model_id@)
    &&& identifier_text(q.model_revision@)
    &&& identifier_text(q.price_version@)
    &&& q.input_token_limit >= 0
    &&& q.output_token_limit >= 0
}

/// The key may be used for this request now.
pub open spec fn key_admits(key: KeyTerms, q: ReserveRequest, now: Timestamp) -> bool {
    &&& key.project_id@ == q.project_id@
    &&& key.tenant_id@ == q.tenant_id@
    &&& key.revoked_at is None
    &&& key.expires_at matches Some(expiry) ==> expiry > now
    &&& listed(key.scopes@, "chat.completions"@) || listed(key.scopes@, "completions"@)
    &&& listed(key.allowed_models@, q.model_id@)
}

/// The request names the current price and a context window that fits.
pub open spec fn terms_current(model: Model, q: ReserveRequest) -> bool {
    &&& q.price_version@ == model.price_version@
    &&& 0 < q.input_token_limit + q.output_token_limit <= i64::MAX
    &&& q.input_token_limit + q.output_token_limit <= model.max_context_tokens
}

/// What the account and the key have left covers `amount`.
pub open spec fn balance_covers(balance: AccountBalance, amount: int) -> bool {
    &&& fits_i64(balance.balance_microunits - balance.held_microunits)
    &&& 0 <= balance.balance_microunits - balance.held_microunits - amount <= i64::MAX
}

pub open spec fn budget_covers(budget: int, spent: int, held: int, amount: int) -> bool {
    &&& fits_i64(spent + held)
    &&& fits_i64(spent + held + amount)
    &&& spent + held + amount <= budget
}

/// Everything that admission reads, as it stands under the account lock.
pub struct ReserveFacts {
    pub account: Option<AccountRow>,
    pub existing: Option<Reservation>,
    pub key: Option<KeyTerms>,
    /// The model under the requested ID, if it is in the catalog and enabled.
    pub model: Option<Model>,
    /// Another reservation or usage event of the project has this request ID.
    pub identity_used: bool,
    pub spent_this_month: i64,
    pub now: Timestamp,
}

/// Why a reservation is refused: the first rule that it breaks.
pub open spec fn reserve_fault(
    q: ReserveRequest,
    f: ReserveFacts,
    balance: AccountBalance,
    hold: KeyHold,
) -> Option<Fault> {
    if !reserve_identity(q) {
        Some(Fault::Invalid("invalid reservation identity or token bounds"@))
    } else if f.account is None {
        Some(Fault::NotFound)
    } else if f.account->0.tenant_id@ != q.tenant_id@ {
        Some(Fault::Forbidden)
    } else if f.existing is Some {
        if same_reserve_view(f.existing->0.spec, q) {
            None
        } else {
            Some(Fault::Conflict("reservation ID is bound to a different payload"@))
        }
    } else if f.account->0.status@ != "active"@ || f.account->0.currency@ != "CNY"@ {
        Some(Fault::Forbidden)
    } else if f.key is None || !key_admits(f.key->0, q, f.now) {
        Some(Fault::Forbidden)
    } else if f.model is None {
        Some(Fault::Invalid("model is unknown or disabled"@))
    } else if !terms_current(f.model->0, q) {
        Some(Fault::Invalid("unknown price/model or invalid context bounds"@))
    } else if f.identity_used {
        Some(Fault::Conflict("request identity has already been used"@))
    } else {
        reserve_money_fault(q, f, balance, hold)
    }
}

/// Why the money cannot be held.
pub open spec fn reserve_money_fault(
    q: ReserveRequest,
    f: ReserveFacts,
    balance: AccountBalance,
    hold: KeyHold,
) -> Option<Fault> {
    let input = q.input_token_limit as int;
    let output = q.output_token_limit as int;
    let amount = token_cost(f.model->0, input, output);
    let budget = f.key->0.monthly_budget_amount;
    if !token_cost_fits(f.model->0, input, output) {
        Some(Fault::Invalid(DomainError::CostOverflow.text()))
    } else if f.account->0.enforce_balance && !balance_covers(balance, amount) {
        Some(Fault::InsufficientFunds("available balance cannot cover the reservation"@))
    } else if budget > 0 && !fits_i64(budget * MICROS_PER_MINOR_UNIT) {
        Some(Fault::Invalid("budget overflow"@))
    } else if budget > 0 && !budget_covers(
        budget * MICROS_PER_MINOR_UNIT,
        f.spent_this_month as int,
        hold.held_microunits as int,
        amount,
    ) {
        Some(Fault::InsufficientFunds("monthly budget cannot cover the reservation"@))
    } else {
        hold_fault(balance, hold, amount)
    }
}

/// The reservation that admission writes.
pub open spec fn reserved_row(q: ReserveRequest, f: ReserveFacts) -> Reservation {
    Reservation {
        id: q.id,
        billing_account_id: f.account->0.id,
        project_id: q.project_id,
        tenant_id: q.tenant_id,
        api_key_id: q.api_key_id,
        request_id: q.request_id,
        spec: q,
        price: f.model->0,
        reserved_microunits: token_cost(
            f.model->0,
            q.input_token_limit as int,
            q.output_token_limit as int,
        ) as i64,
        settled_microunits: None,
        state: ReservationState::Reserved,
        completion: None,
        created_at: f.now,
        updated_at: f.now,
    }
}

fn valid_reserve_identity(q: &ReserveRequest) -> (r: bool)
    ensures
        r == reserve_identity(*q),
{
    identifier(q.id.as_str()) && identifier(q.tenant_id.as_str()) && identifier(
        q.project_id.as_str(),
    ) && identifier(q.api_key_id.as_str()) && identifier(q.request_id.as_str()) && identifier(
        q.model_id.as_str(),
    ) && identifier(q.model_revision.as_str()) && identifier(q.price_version.as_str())
        && q.input_token_limit >= 0 && q.output_token_limit >= 0
}

fn key_is_admitted(key: &KeyTerms, q: &ReserveRequest, now: Timestamp) -> (r: bool)
    ensures
        r == key_admits(*key, *q, now),
{
    let expired = match key.expires_at {
        Some(expiry) => expiry <= now,
        None => false,
    };
    same(key.project_id.as_str(), q.project_id.as_str()) && same(
        key.tenant_id.as_str(),
        q.tenant_id.as_str(),
    ) && key.revoked_at.is_none() && !expired && (is_listed(&key.scopes, "chat.completions")
        || is_listed(&key.scopes, "completions")) && is_listed(
        &key.allowed_models,
        q.model_id.as_str(),
    )
}

fn terms_are_current(model: &Model, q: &ReserveRequest) -> (r: bool)
    ensures
        r == terms_current(*model, *q),
{
    let window_fits = match q.input_token_limit.checked_add(q.output_token_limit) {
        Some(total) => total > 0 && total <= model.max_context_tokens,
        None => false,
    };
    same(q.price_version.as_str(), model.price_version.as_str()) && window_fits
}

fn balance_is_enough(balance: &AccountBalance, amount: i64) -> (r: bool)
    ensures
        r == balance_covers(*balance, amount as int),
{
    match balance.balance_microunits.checked_sub(balance.held_microunits) {
        Some(available) => match available.checked_sub(amount) {
            Some(rest) => rest >= 0,
            None => false,
        },
        None => false,
    }
}

fn budget_is_enough(budget: i64, spent: i64, held: i64, amount: i64) -> (r: bool)
    ensures
        r == budget_covers(budget as int, spent as int, held as int, amount as int),
{
    match spent.checked_add(held) {
        Some(used) => match used.checked_add(amount) {
            Some(total) => total <= budget,
            None => false,
        },
        None => false,
    }
}

/// Holds the cost of a request before it is sent: the terms are frozen, and a
/// repeated call gives back the reservation of the first.
pub fn reserve_money(
    request: ReserveRequest,
    facts: ReserveFacts,
    balance: &mut AccountBalance,
    hold: &mut KeyHold,
) -> (r: ServiceResult<Transition>)
    ensures
        refused(r, reserve_fault(request, facts, *old(balance), *old(hold))),
        r is Err || facts.existing is Some ==> *final(balance) == *old(balance) && *final(hold)
            == *old(hold),
        r matches Ok(t) ==> facts.existing is Some ==> t.row == facts.existing->0 && t.event is None,
        r matches Ok(t) ==> facts.existing is None ==> {
            &&& t.row == reserved_row(request, facts)
            &&& t.row.reserved_microunits == token_cost(
                facts.model->0,
                request.input_token_limit as int,
                request.output_token_limit as int,
            )
            &&& t.event matches Some(e) && e.aggregate_id == request.id && e.kind
                == (EventKind::ReservationCreated {
                reserved_microunits: t.row.reserved_microunits,
                price_version: facts.model->0.price_version,
            })
            &&& *final(balance) == (AccountBalance {
                held_microunits: (old(balance).held_microunits
                    + t.row.reserved_microunits) as i64,
                updated_at: facts.now,
                ..*old(balance)
            })
            &&& *final(hold) == (KeyHold {
                held_microunits: (old(hold).held_microunits + t.row.reserved_microunits) as i64,
                updated_at: facts.now,
                ..*old(hold)
            })
            &&& facts.account->0.enforce_balance ==> final(balance).held_microunits
                <= final(balance).balance_microunits
            &&& facts.key->0.monthly_budget_amount > 0 ==> facts.spent_this_month
                + final(hold).held_microunits <= facts.key->0.monthly_budget_amount * 1_000_000
        },
{
    if !valid_reserve_identity(&request) {
        return Err(invalid("invalid reservation identity or token bounds"));
    }
    let ReserveFacts { account, existing, key, model, identity_used, spent_this_month, now } =
        facts;
    let account = match account {
        Some(account) => account,
        None => return Err(ServiceError::NotFound),
    };
    if !same(account.tenant_id.as_str(), request.tenant_id.as_str()) {
        return Err(ServiceError::Forbidden);
    }
    if let Some(existing) = existing {
        if !same_reserve(&existing.spec, &request) {
            return Err(conflict("reservation ID is bound to a different payload"));
        }
        return Ok(Transition { row: existing, event: None });
    }
    if !same(account.status.as_str(), "active") || !same(account.currency.as_str(), "CNY") {
        return Err(ServiceError::Forbidden);
    }
    let key = match key {
        Some(key) => key,
        None => return Err(ServiceError::Forbidden),
    };
    if !key_is_admitted(&key, &request, now) {
        return Err(ServiceError::Forbidden);
    }
    let model = match model {
        Some(model) => model,
        None => return Err(invalid("model is unknown or disabled")),
    };
    if !terms_are_current(&model, &request) {
        return Err(invalid("unknown price/model or invalid context bounds"));
    }
    if identity_used {
        return Err(conflict("request identity has already been used"));
    }
    let amount = match usage_cost_microunits(
        &model,
        request.input_token_limit,
        request.output_token_limit,
    ) {
        Ok(amount) => amount,
        Err(e) => return Err(from_domain(e)),
    };
    if account.enforce_balance && !balance_is_enough(balance, amount) {
        return Err(out_of_funds("available balance cannot cover the reservation"));
    }
    if key.monthly_budget_amount > 0 {
        let budget = match key.monthly_budget_amount.checked_mul(MICROS_PER_MINOR_UNIT) {
            Some(budget) => budget,
            None => return Err(invalid("budget overflow")),
        };
        if !budget_is_enough(budget, spent_this_month, hold.held_microunits, amount) {
            return Err(out_of_funds("monthly budget cannot cover the reservation"));
        }
    }
    change_hold(balance, hold, amount, now)?;
    let event = EventDraft {
        kind: EventKind::ReservationCreated {
            reserved_microunits: amount,
            price_version: model.price_version.clone(),
        },
        aggregate_id: request.id.clone(),
    };
    let row = Reservation {
        id: request.id.clone(),
        billing_account_id: account.id,
        project_id: request.project_id.clone(),
        tenant_id: request.tenant_id.clone(),
        api_key_id: request.api_key_id.clone(),
        request_id: request.request_id.clone(),
        spec: request,
        price: model,
        reserved_microunits: amount,
        settled_microunits: None,
        state: ReservationState::Reserved,
        completion: None,
        created_at: now,
        updated_at: now,
    };
    Ok(Transition { row, event: Some(event) })
}

pub open spec fn dispatch_fault(row: Option<Reservation>) -> Option<Fault> {
    match row {
        None => Some(Fault::NotFound),
        Some(row) => if row.pending() {
            None
        } else {
            Some(Fault::Conflict("only reserved requests may be dispatched"@))
        },
    }
}

/// Marks a reservation as sent to a model: from here on it can only be
/// settled, reviewed or left unresolved.
pub fn dispatch_money(row: Option<Reservation>, now: Timestamp) -> (r: ServiceResult<Transition>)
    ensures
        refused(r, dispatch_fault(row)),
        r matches Ok(t) ==> if row->0.state == ReservationState::Reserved {
            &&& t.row == (Reservation {
                state: ReservationState::Dispatched,
                updated_at: now,
                ..row->0
            })
            &&& t.event matches Some(e) && e.kind == EventKind::ReservationDispatched
                && e.aggregate_id == row->0.id
        } else {
            t.row == row->0 && t.event is None
        },
{
    let row = match row {
        Some(row) => row,
        None => return Err(ServiceError::NotFound),
    };
    if row.state == ReservationState::Dispatched {
        return Ok(Transition { row, event: None });
    }
    if row.state != ReservationState::Reserved {
        return Err(conflict("only reserved requests may be dispatched"));
    }
    let event = EventDraft {
        kind: EventKind::ReservationDispatched,
        aggregate_id: row.id.clone(),
    };
    Ok(
        Transition {
            row: Reservation { state: ReservationState::Dispatched, updated_at: now, ..row },
            event: Some(event),
        },
    )
}

pub open spec fn release_fault(
    row: Option<Reservation>,
    q: ReleaseRequest,
    balance: AccountBalance,
    hold: KeyHold,
) -> Option<Fault> {
    if q.reason@ != "not_dispatched"@ {
        Some(Fault::Invalid("only verified not_dispatched requests can be released"@))
    } else {
        match row {
            None => Some(Fault::NotFound),
            Some(row) => if row.state == ReservationState::Released {
                None
            } else if row.state != ReservationState::Reserved {
                Some(
                    Fault::Conflict(
                        "dispatched/settled requests cannot be released; reconcile unknown usage"@,
                    ),
                )
            } else {
                hold_fault(balance, hold, -row.reserved_microunits)
            },
        }
    }
}

/// What is given back can be written as a change of the hold.
pub open spec fn release_in_range(row: Option<Reservation>, request: ReleaseRequest) -> bool {
    request.reason@ == "not_dispatched"@ && row is Some && row->0.state
        == ReservationState::Reserved ==> row->0.reserved_microunits != i64::MIN
}

/// Whether what is given back can be written as a change of the hold.
pub fn releases_in_range(row: &Option<Reservation>, request: &ReleaseRequest) -> (r: bool)
    ensures
        r == release_in_range(*row, *request),
{
    match row {
        Some(row) => !same(request.reason.as_str(), "not_dispatched") || row.state
            != ReservationState::Reserved || row.reserved_microunits != i64::MIN,
        None => true,
    }
}

/// Gives back the money of a request that was never sent.
pub fn release_money(
    row: Option<Reservation>,
    request: &ReleaseRequest,
    balance: &mut AccountBalance,
    hold: &mut KeyHold,
    now: Timestamp,
) -> (r: ServiceResult<Transition>)
    requires
        release_in_range(row, *request),
    ensures
        refused(r, release_fault(row, *request, *old(balance), *old(hold))),
        r matches Ok(t) ==> row->0.state == ReservationState::Reserved ==> {
            &&& t.row == (Reservation {
                state: ReservationState::Released,
                completion: Some(Completion::Released),
                updated_at: now,
                ..row->0
            })
            &&& t.event matches Some(e) && e.kind == EventKind::ReservationReleased
                && e.aggregate_id == row->0.id
            &&& *final(balance) == (AccountBalance {
                held_microunits: (old(balance).held_microunits
                    - row->0.reserved_microunits) as i64,
                updated_at: now,
                ..*old(balance)
            })
            &&& *final(hold) == (KeyHold {
                held_microunits: (old(hold).held_microunits - row->0.reserved_microunits) as i64,
                updated_at: now,
                ..*old(hold)
            })
        },
        r matches Ok(t) ==> row->0.state != ReservationState::Reserved ==> t.row == row->0
            && t.event is None && *final(balance) == *old(balance) && *final(hold) == *old(hold),
        r is Err ==> *final(balance) == *old(balance) && *final(hold) == *old(hold),
{
    if !same(request.reason.as_str(), "not_dispatched") {
        return Err(invalid("only verified not_dispatched requests can be released"));
    }
    let row = match row {
        Some(row) => row,
        None => return Err(ServiceError::NotFound),
    };
    if row.state == ReservationState::Released {
        return Ok(Transition { row, event: None });
    }
    if row.state != ReservationState::Reserved {
        return Err(
            conflict("dispatched/settled requests cannot be released; reconcile unknown usage"),
        );
    }
    change_hold(balance, hold, -row.reserved_microunits, now)?;
    let event = EventDraft { kind: EventKind::ReservationReleased, aggregate_id: row.id.clone() };
    Ok(
        Transition {
            row: Reservation {
                state: ReservationState::Released,
                completion: Some(Completion::Released),
                updated_at: now,
                ..row
            },
            event: Some(event),
        },
    )
}

/// A usage event as it is stored.
#[derive(Clone, Debug)]
pub struct UsageRow {
    pub event_id: String,
    pub request_id: String,
    pub occurred_at: Timestamp,
    pub tenant_id: String,
    pub project_id: String,
    pub api_key_id: String,
    pub model_id: String,
    pub model_revision: String,
    pub endpoint_id: String,
    pub region: String,
    pub price_version: String,
    pub input_tokens: i64,
    pub output_tokens: i64,
    pub cached_input_tokens: i64,
    pub latency_ms: i64,
    pub status: String,
    pub cost_amount: i64,
    pub cost_microunits: i64,
    pub currency: String,
    pub received_at: Timestamp,
}

/// What a settlement writes. Nothing but the row is there when the call
/// repeated one that had been made before.
#[derive(Clone, Debug)]
pub struct Settlement {
    pub row: Reservation,
    pub usage: Option<UsageRow>,
    pub entries: Option<BalancedEntries>,
    pub event: Option<EventDraft>,
}

pub open spec fn final_status(s: Seq<char>) -> bool {
    s == "succeeded"@ || s == "cancelled"@ || s == "provider_error"@
}

pub open spec fn known_usage(q: SettleRequest) -> bool {
    &&& q.input_tokens >= 0
    &&& q.output_tokens >= 0
    &&& q.latency_ms >= 0
    &&& identifier_text(q.endpoint_id@)
    &&& identifier_text(q.region@)
    &&& final_status(q.status@)
}

pub open spec fn completed_settled(row: Reservation, q: SettleRequest) -> bool {
    row.completion matches Some(Completion::Settled(prior)) && same_settle_view(prior, q)
}

pub open spec fn settled_cost(row: Reservation, q: SettleRequest) -> int {
    token_cost(row.price, q.input_tokens as int, q.output_tokens as int)
}

/// The usage is charged to the reservation: it is known, it was dispatched and stayed
/// within its limits, and its cost can be counted.
pub open spec fn charges(row: Reservation, q: SettleRequest) -> bool {
    &&& known_usage(q)
    &&& row.state == ReservationState::Dispatched
    &&& q.input_tokens <= row.spec.input_token_limit
    &&& q.output_tokens <= row.spec.output_token_limit
    &&& token_cost_fits(row.price, q.input_tokens as int, q.output_tokens as int)
}

/// What is charged can be rounded up to whole minor units, and what was held can be
/// given back. Nothing is asked of usage that is not charged.
pub open spec fn settle_in_range(
    row: Reservation,
    q: SettleRequest,
    balance: AccountBalance,
    hold: KeyHold,
) -> bool {
    charges(row, q) ==> {
        &&& row.reserved_microunits != i64::MIN
        &&& hold_fault(balance, hold, -row.reserved_microunits) is None ==> settled_cost(row, q)
            <= i64::MAX - 999_999
    }
}

/// What the account holds once the reservation no longer does.
pub open spec fn unheld(balance: AccountBalance, amount: int, now: Timestamp) -> AccountBalance {
    AccountBalance {
        held_microunits: (balance.held_microunits - amount) as i64,
        updated_at: now,
        ..balance
    }
}

/// Why a settlement is refused.
pub open spec fn settle_fault(
    account: AccountRow,
    row: Reservation,
    q: SettleRequest,
    balance: AccountBalance,
    hold: KeyHold,
    spend: MonthSpend,
    now: Timestamp,
) -> Option<Fault> {
    let amount = settled_cost(row, q);
    if !known_usage(q) {
        Some(Fault::Invalid("settlement requires known, nonnegative usage and a final outcome"@))
    } else if row.state == ReservationState::Settled {
        if completed_settled(row, q) {
            None
        } else {
            Some(Fault::Conflict("settlement payload changed"@))
        }
    } else if row.state != ReservationState::Dispatched {
        Some(Fault::Conflict("settlement requires a dispatched reservation"@))
    } else if q.input_tokens > row.spec.input_token_limit || q.output_tokens
        > row.spec.output_token_limit {
        Some(
            Fault::Conflict(
                "actual usage exceeds reserved bounds; hold retained for reconciliation"@,
            ),
        )
    } else if !token_cost_fits(row.price, q.input_tokens as int, q.output_tokens as int) {
        Some(Fault::Invalid(DomainError::CostOverflow.text()))
    } else if hold_fault(balance, hold, -row.reserved_microunits) is Some {
        hold_fault(balance, hold, -row.reserved_microunits)
    } else if !counter_moves(spend.spent_microunits as int, amount, true) {
        Some(projection_fault())
    } else if amount > 0 {
        posting_fault(account, unheld(balance, row.reserved_microunits as int, now), -amount)
    } else {
        None
    }
}

/// The usage event of a settlement.
pub open spec fn settled_usage(
    account: AccountRow,
    row: Reservation,
    q: SettleRequest,
    now: Timestamp,
    u: UsageRow,
) -> bool {
    &&& u.event_id@ == "evt-reservation-"@ + row.id@
    &&& u.request_id == row.request_id
    &&& u.occurred_at == now
    &&& u.tenant_id == row.tenant_id
    &&& u.project_id == row.project_id
    &&& u.api_key_id == row.api_key_id
    &&& u.model_id == row.spec.model_id
    &&& u.model_revision == row.spec.model_revision
    &&& u.endpoint_id == q.endpoint_id
    &&& u.region == q.region
    &&& u.price_version == row.price.price_version
    &&& u.input_tokens == q.input_tokens
    &&& u.output_tokens == q.output_tokens
    &&& u.cached_input_tokens == 0
    &&& u.latency_ms == q.latency_ms
    &&& u.status == q.status
    &&& u.cost_amount == toward_zero(settled_cost(row, q) + 999_999, 1_000_000)
    &&& u.cost_microunits == settled_cost(row, q)
    &&& u.currency == account.currency
    &&& u.received_at == now
}

/// The ledger posting of a settlement.
pub open spec fn settled_posting(row: Reservation, q: SettleRequest, p: Posting) -> bool {
    &&& p.tenant_id == row.tenant_id
    &&& p.kind@ == "usage"@
    &&& p.reference_type@ == "usage_event"@
    &&& p.reference_id@ == "evt-reservation-"@ + row.id@
    &&& p.idempotency_key@ == "reservation:"@ + row.id@
    &&& p.description@ == "Reserved model inference usage"@
    &&& p.customer_delta_microunits == -settled_cost(row, q)
    &&& p.counter_account@ == "usage_revenue"@
}

/// What a settlement of a dispatched reservation writes.
pub open spec fn settlement_written(
    account: AccountRow,
    row: Reservation,
    q: SettleRequest,
    ids: EntryIds,
    now: Timestamp,
    s: Settlement,
) -> bool {
    let amount = settled_cost(row, q);
    &&& s.row == (Reservation {
        state: ReservationState::Settled,
        settled_microunits: Some(amount as i64),
        completion: Some(Completion::Settled(q)),
        updated_at: now,
        ..row
    })
    &&& s.usage matches Some(u) && settled_usage(account, row, q, now, u)
    &&& s.entries is Some <==> amount > 0
    &&& s.entries matches Some(e) ==> balanced(e) && settled_posting(row, q, e.posting)
        && entries_of(account, e.posting, ids, e)
    &&& s.event matches Some(e) && e.aggregate_id == row.id && (e.kind matches
        EventKind::ReservationSettled { usage_event_id, settled_microunits } && usage_event_id@
        == "evt-reservation-"@ + row.id@ && settled_microunits == amount)
}

/// The counters that a settlement moves.
pub ghost struct Counters {
    pub balance: AccountBalance,
    pub hold: KeyHold,
    pub spend: MonthSpend,
}

pub open spec fn counters(balance: AccountBalance, hold: KeyHold, spend: MonthSpend) -> Counters {
    Counters { balance, hold, spend }
}

/// What an accepted settlement comes to: the cost is spent and taken off the
/// balance, and the hold is free again. One that was made before comes to nothing.
pub open spec fn settles(
    account: AccountRow,
    row: Reservation,
    q: SettleRequest,
    ids: EntryIds,
    now: Timestamp,
    before: Counters,
    s: Settlement,
    after: Counters,
) -> bool {
    let amount = settled_cost(row, q);
    if row.state == ReservationState::Settled {
        &&& after == before
        &&& s.row == row
        &&& s.usage is None
        &&& s.entries is None
        &&& s.event is None
    } else {
        &&& settlement_written(account, row, q, ids, now, s)
        &&& after.hold == (KeyHold {
            held_microunits: (before.hold.held_microunits - row.reserved_microunits) as i64,
            updated_at: now,
            ..before.hold
        })
        &&& after.spend == (MonthSpend {
            spent_microunits: (before.spend.spent_microunits + amount) as i64,
            updated_at: now,
            ..before.spend
        })
        &&& after.balance == (AccountBalance {
            balance_microunits: if amount > 0 {
                (before.balance.balance_microunits - amount) as i64
            } else {
                before.balance.balance_microunits
            },
            ..unheld(before.balance, row.reserved_microunits as int, now)
        })
    }
}

fn has_final_status(s: &str) -> (r: bool)
    ensures
        r == final_status(s@),
{
    same(s, "succeeded") || same(s, "cancelled") || same(s, "provider_error")
}

fn usage_is_known(q: &SettleRequest) -> (r: bool)
    ensures
        r == known_usage(*q),
{
    q.input_tokens >= 0 && q.output_tokens >= 0 && q.latency_ms >= 0 && identifier(
        q.endpoint_id.as_str(),
    ) && identifier(q.region.as_str()) && has_final_status(q.status.as_str())
}

/// Whether the amounts of a settlement stay in range.
pub fn settles_in_range(
    row: &Reservation,
    request: &SettleRequest,
    balance: &AccountBalance,
    hold: &KeyHold,
) -> (r: bool)
    ensures
        r == settle_in_range(*row, *request, *balance, *hold),
{
    if !usage_is_known(request) || row.state != ReservationState::Dispatched
        || request.input_tokens > row.spec.input_token_limit || request.output_tokens
        > row.spec.output_token_limit {
        return true;
    }
    match usage_cost_microunits(&row.price, request.input_tokens, request.output_tokens) {
        Ok(cost) => row.reserved_microunits != i64::MIN && (cost <= i64::MAX - 999_999
            || !hold_moves(balance, hold, -row.reserved_microunits)),
        Err(_) => true,
    }
}

/// Charges the actual usage of a dispatched request and releases its hold.
/// Shared by the gateway's settlement and by reviewed recovery, which commits
/// the decision of the review in the same transaction.
pub fn settle_locked(
    account: &AccountRow,
    row: Reservation,
    request: SettleRequest,
    balance: &mut AccountBalance,
    hold: &mut KeyHold,
    spend: &mut MonthSpend,
    ids: &EntryIds,
    now: Timestamp,
) -> (r: ServiceResult<Settlement>)
    requires
        settle_in_range(row, request, *old(balance), *old(hold)),
    ensures
        refused(
            r,
            settle_fault(*account, row, request, *old(balance), *old(hold), *old(spend), now),
        ),
        r is Err ==> *final(balance) == *old(balance) && *final(hold) == *old(hold)
            && *final(spend) == *old(spend),
        r matches Ok(s) ==> settles(
            *account,
            row,
            request,
            *ids,
            now,
            counters(*old(balance), *old(hold), *old(spend)),
            s,
            counters(*final(balance), *final(hold), *final(spend)),
        ),
{
    if !usage_is_known(&request) {
        return Err(invalid("settlement requires known, nonnegative usage and a final outcome"));
    }
    if row.state == ReservationState::Settled {
        let repeated = match &row.completion {
            Some(Completion::Settled(prior)) => same_settle(prior, &request),
            _ => false,
        };
        if !repeated {
            return Err(conflict("settlement payload changed"));
        }
        return Ok(Settlement { row, usage: None, entries: None, event: None });
    }
    if row.state != ReservationState::Dispatched {
        return Err(conflict("settlement requires a dispatched reservation"));
    }
    if request.input_tokens > row.spec.input_token_limit || request.output_tokens
        > row.spec.output_token_limit {
        return Err(
            conflict("actual usage exceeds reserved bounds; hold retained for reconciliation"),
        );
    }
    let amount = match usage_cost_microunits(
        &row.price,
        request.input_tokens,
        request.output_tokens,
    ) {
        Ok(amount) => amount,
        Err(e) => return Err(from_domain(e)),
    };
    let usage_id = join("evt-reservation-", row.id.as_str());
    // Work on copies: a refusal further down leaves every counter as it was.
    let mut next_balance = AccountBalance {
        billing_account_id: balance.billing_account_id.clone(),
        balance_microunits: balance.balance_microunits,
        held_microunits: balance.held_microunits,
        updated_at: balance.updated_at,
    };
    let mut next_hold = KeyHold {
        api_key_id: hold.api_key_id.clone(),
        held_microunits: hold.held_microunits,
        updated_at: hold.updated_at,
    };
    change_hold(&mut next_balance, &mut next_hold, -row.reserved_microunits, now)?;
    let mut next_spend = MonthSpend {
        api_key_id: spend.api_key_id.clone(),
        month: spend.month,
        spent_microunits: spend.spent_microunits,
        updated_at: spend.updated_at,
    };
    change_spend(&mut next_spend, amount, now)?;
    let entries = if amount > 0 {
        let posting = Posting {
            tenant_id: row.tenant_id.clone(),
            kind: "usage".to_owned(),
            reference_type: "usage_event".to_owned(),
            reference_id: usage_id.clone(),
            idempotency_key: join("reservation:", row.id.as_str()),
            description: "Reserved model inference usage".to_owned(),
            customer_delta_microunits: -amount,
            counter_account: "usage_revenue".to_owned(),
        };
        Some(insert_balanced_entries(account, &mut next_balance, posting, ids, now)?)
    } else {
        None
    };
    let usage = UsageRow {
        event_id: usage_id.clone(),
        request_id: row.request_id.clone(),
        occurred_at: now,
        tenant_id: row.tenant_id.clone(),
        project_id: row.project_id.clone(),
        api_key_id: row.api_key_id.clone(),
        model_id: row.spec.model_id.clone(),
        model_revision: row.spec.model_revision.clone(),
        endpoint_id: request.endpoint_id.clone(),
        region: request.region.clone(),
        price_version: row.price.price_version.clone(),
        input_tokens: request.input_tokens,
        output_tokens: request.output_tokens,
        cached_input_tokens: 0,
        latency_ms: request.latency_ms,
        status: request.status.clone(),
        cost_amount: ceil_minor_units(amount),
        cost_microunits: amount,
        currency: account.currency.clone(),
        received_at: now,
    };
    let event = EventDraft {
        kind: EventKind::ReservationSettled {
            usage_event_id: usage_id,
            settled_microunits: amount,
        },
        aggregate_id: row.id.clone(),
    };
    *balance = next_balance;
    *hold = next_hold;
    *spend = next_spend;
    Ok(
        Settlement {
            row: Reservation {
                state: ReservationState::Settled,
                settled_microunits: Some(amount),
                completion: Some(Completion::Settled(request)),
                updated_at: now,
                ..row
            },
            usage: Some(usage),
            entries,
            event: Some(event),
        },
    )
}

/// What is held in all for a list of reservations.
pub open spec fn held_total(rows: Seq<Reservation>) -> int
    decreases rows.len(),
{
    if rows.len() == 0 {
        0
    } else {
        held_total(rows.drop_last()) + held_amount(rows.last())
    }
}

pub open spec fn held_amount(row: Reservation) -> int {
    if row.pending() {
        row.reserved_microunits as int
    } else {
        0
    }
}

proof fn lemma_held_total_update(rows: Seq<Reservation>, i: int, row: Reservation)
    requires
        0 <= i < rows.len(),
    ensures
        held_total(rows.update(i, row)) == held_total(rows) - held_amount(rows[i]) + held_amount(
            row,
        ),
    decreases rows.len(),
{
    let next = rows.update(i, row);
    if i == rows.len() - 1 {
        assert(next.drop_last() =~= rows.drop_last());
    } else {
        assert(next.drop_last() =~= rows.drop_last().update(i, row));
        lemma_held_total_update(rows.drop_last(), i, row);
    }
}

/// A new reservation keeps the account's hold equal to what its pending
/// reservations add up to.
pub proof fn law_reserving_keeps_hold_total(
    rows: Seq<Reservation>,
    row: Reservation,
    before: AccountBalance,
    after: AccountBalance,
)
    requires
        before.held_microunits == held_total(rows),
        row.state == ReservationState::Reserved,
        after.held_microunits == before.held_microunits + row.reserved_microunits,
    ensures
        after.held_microunits == held_total(rows.push(row)),
{
    assert(rows.push(row).drop_last() =~= rows);
}

/// Settling, releasing or waiving a pending reservation takes exactly its own
/// amount off the account's hold; dispatching takes nothing off.
pub proof fn law_ending_keeps_hold_total(
    rows: Seq<Reservation>,
    i: int,
    row: Reservation,
    before: AccountBalance,
    after: AccountBalance,
)
    requires
        0 <= i < rows.len(),
        before.held_microunits == held_total(rows),
        rows[i].pending(),
        row.reserved_microunits == rows[i].reserved_microunits,
        after.held_microunits == before.held_microunits - if row.pending() {
            0
        } else {
            rows[i].reserved_microunits as int
        },
    ensures
        after.held_microunits == held_total(rows.update(i, row)),
{
    lemma_held_total_update(rows, i, row);
}

/// Every reservation that admission writes is well formed, provided that the
/// catalog has no negative price.
pub proof fn law_admission_freezes_terms(
    q: ReserveRequest,
    f: ReserveFacts,
    balance: AccountBalance,
    hold: KeyHold,
)
    requires
        f.existing is None,
        reserve_fault(q, f, balance, hold) is None,
        f.model->0.input_per_million_tokens.amount >= 0,
        f.model->0.output_per_million_tokens.amount >= 0,
    ensures
        reserved_row(q, f).well_formed(),
        reserved_row(q, f).pending(),
{
}

/// A settlement within the bounds of its reservation never costs more than
/// what was held for it.
pub proof fn law_settlement_stays_within_hold(row: Reservation, q: SettleRequest)
    requires
        row.well_formed(),
        0 <= q.input_tokens <= row.spec.input_token_limit,
        0 <= q.output_tokens <= row.spec.output_token_limit,
    ensures
        0 <= settled_cost(row, q) <= row.reserved_microunits,
{
    let a = row.price.input_per_million_tokens.amount as int;
    let b = row.price.output_per_million_tokens.amount as int;
    let i = q.input_tokens as int;
    let o = q.output_tokens as int;
    let li = row.spec.input_token_limit as int;
    let lo = row.spec.output_token_limit as int;
    assert(0 <= i * a <= li * a) by (nonlinear_arith)
        requires
            0 <= i <= li,
            0 <= a,
    ;
    assert(0 <= o * b <= lo * b) by (nonlinear_arith)
        requires
            0 <= o <= lo,
            0 <= b,
    ;
}

/// Every settlement of a well-formed reservation can be rounded up to whole minor units,
/// as long as what was held for it can be.
pub proof fn law_settlements_of_sound_reservations_are_in_range(
    row: Reservation,
    q: SettleRequest,
    balance: AccountBalance,
    hold: KeyHold,
)
    requires
        row.well_formed(),
        row.reserved_microunits <= i64::MAX - 999_999,
    ensures
        settle_in_range(row, q, balance, hold),
{
    if charges(row, q) {
        law_settlement_stays_within_hold(row, q);
    }
}

/// A settlement of a dispatched reservation charges its cost once: it is spent and
/// taken off the balance, and exactly what was held for it is free again.
pub proof fn law_settlements_charge_the_cost_and_free_the_hold(
    account: AccountRow,
    row: Reservation,
    q: SettleRequest,
    ids: EntryIds,
    now: Timestamp,
    before: Counters,
    s: Settlement,
    after: Counters,
)
    requires
        row.well_formed(),
        row.state == ReservationState::Dispatched,
        settle_fault(account, row, q, before.balance, before.hold, before.spend, now) is None,
        settles(account, row, q, ids, now, before, s, after),
    ensures
        after.balance.balance_microunits == before.balance.balance_microunits - settled_cost(row, q),
        after.spend.spent_microunits == before.spend.spent_microunits + settled_cost(row, q),
        after.balance.held_microunits == before.balance.held_microunits - row.reserved_microunits,
        after.hold.held_microunits == before.hold.held_microunits - row.reserved_microunits,
        s.row.state == ReservationState::Settled,
        s.row.settled_microunits == Some(settled_cost(row, q) as i64),
        0 <= settled_cost(row, q) <= row.reserved_microunits,
{
    law_settlement_stays_within_hold(row, q);
}

/// Whoever settles a settled reservation again changes nothing if they say the
/// same, and is refused if they say something else, whatever the counters are.
pub proof fn law_settlements_are_made_once(
    account: AccountRow,
    row: Reservation,
    q: SettleRequest,
    ids: EntryIds,
    now: Timestamp,
    before: Counters,
    s: Settlement,
    after: Counters,
    again: SettleRequest,
    later: Timestamp,
    start: Counters,
    repeat: Settlement,
    end: Counters,
)
    requires
        row.state == ReservationState::Dispatched,
        settle_fault(account, row, q, before.balance, before.hold, before.spend, now) is None,
        settles(account, row, q, ids, now, before, s, after),
        known_usage(again),
    ensures
        settle_fault(account, s.row, again, start.balance, start.hold, start.spend, later)
            == if same_settle_view(q, again) {
            None
        } else {
            Some(Fault::Conflict("settlement payload changed"@))
        },
        settles(account, s.row, again, ids, later, start, repeat, end) ==> {
            &&& end == start
            &&& repeat.row == s.row
            &&& repeat.usage is None
            &&& repeat.entries is None
            &&& repeat.event is None
        },
{
}

/// Usage beyond the limits of a dispatched reservation is refused as a conflict,
/// whatever the counters are: the hold stays for reconciliation.
pub proof fn law_excess_usage_is_not_settled(
    account: AccountRow,
    row: Reservation,
    q: SettleRequest,
    now: Timestamp,
    c: Counters,
)
    requires
        row.state == ReservationState::Dispatched,
        known_usage(q),
        q.input_tokens > row.spec.input_token_limit || q.output_tokens
            > row.spec.output_token_limit,
    ensures
        settle_fault(account, row, q, c.balance, c.hold, c.spend, now) == Some(
            Fault::Conflict(
                "actual usage exceeds reserved bounds; hold retained for reconciliation"@,
            ),
        ),
{
}

/// Nothing but a dispatched reservation is settled for the first time.
pub proof fn law_only_dispatched_reservations_are_settled(
    account: AccountRow,
    row: Reservation,
    q: SettleRequest,
    now: Timestamp,
    c: Counters,
)
    requires
        row.state != ReservationState::Dispatched,
        row.state != ReservationState::Settled,
        known_usage(q),
    ensures
        settle_fault(account, row, q, c.balance, c.hold, c.spend, now) == Some(
            Fault::Conflict("settlement requires a dispatched reservation"@),
        ),
{
}

/// A reservation moves only forward: what is settled, released or waived stays
/// so under every call of the protocol.
pub proof fn law_ended_reservations_stay_ended(
    row: Reservation,
    q: ReleaseRequest,
    s: SettleRequest,
    account: AccountRow,
    balance: AccountBalance,
    hold: KeyHold,
    spend: MonthSpend,
    now: Timestamp,
)
    requires
        !row.pending(),
    ensures
        dispatch_fault(Some(row)) is Some,
        row.state != ReservationState::Released ==> release_fault(
            Some(row),
            q,
            balance,
            hold,
        ) is Some,
        row.state != ReservationState::Settled ==> settle_fault(
            account,
            row,
            s,
            balance,
            hold,
            spend,
            now,
        ) is Some,
{
}

/// What is held for all requests together never exceeds what was paid in, on an account
/// that enforces its balance; and what a key with a budget has spent and holds never
/// exceeds that budget.
pub proof fn law_holds_stay_within_the_balance_and_the_budget(
    q: ReserveRequest,
    f: ReserveFacts,
    balance: AccountBalance,
    hold: KeyHold,
)
    requires
        f.existing is None,
        reserve_fault(q, f, balance, hold) is None,
    ensures
        f.account->0.enforce_balance ==> balance.held_microunits + reserved_row(
            q,
            f,
        ).reserved_microunits <= balance.balance_microunits,
        f.key->0.monthly_budget_amount > 0 ==> f.spent_this_month + hold.held_microunits
            + reserved_row(q, f).reserved_microunits <= f.key->0.monthly_budget_amount * 1_000_000,
{
}

/// A reservation is refused for want of money only where the money is not there: the
/// balance that is enforced does not cover it on top of what is held, or the budget of the
/// key does not on top of what is spent and held.
pub proof fn law_money_that_is_there_is_not_refused(
    q: ReserveRequest,
    f: ReserveFacts,
    balance: AccountBalance,
    hold: KeyHold,
)
    requires
        f.existing is None,
        balance.held_microunits >= 0,
        hold.held_microunits >= 0,
        f.spent_this_month >= 0,
        f.model->0.input_per_million_tokens.amount >= 0,
        f.model->0.output_per_million_tokens.amount >= 0,
        reserve_fault(q, f, balance, hold) is Some,
        reserve_fault(q, f, balance, hold)->0 is InsufficientFunds,
    ensures
        ({
            let cost = q.input_token_limit * f.model->0.input_per_million_tokens.amount
                + q.output_token_limit * f.model->0.output_per_million_tokens.amount;
            ||| f.account->0.enforce_balance && balance.held_microunits + cost
                > balance.balance_microunits
            ||| f.key->0.monthly_budget_amount > 0 && f.spent_this_month + hold.held_microunits
                + cost > f.key->0.monthly_budget_amount * 1_000_000
        }),
{
    let a = f.model->0.input_per_million_tokens.amount as int;
    let b = f.model->0.output_per_million_tokens.amount as int;
    let i = q.input_token_limit as int;
    let o = q.output_token_limit as int;
    assert(i * a >= 0 && o * b >= 0) by (nonlinear_arith)
        requires
            i >= 0,
            o >= 0,
            a >= 0,
            b >= 0,
    ;
}

/// Whatever two requests ask for, the second is admitted only on what the first left: both
/// holds together stay within the balance that is enforced.
pub proof fn law_money_is_not_held_twice(
    q: ReserveRequest,
    f: ReserveFacts,
    next: ReserveRequest,
    g: ReserveFacts,
    balance: AccountBalance,
    hold: KeyHold,
    after: AccountBalance,
    next_hold: KeyHold,
)
    requires
        f.existing is None,
        g.existing is None,
        g.account->0.enforce_balance,
        reserve_fault(q, f, balance, hold) is None,
        after.balance_microunits == balance.balance_microunits,
        after.held_microunits == balance.held_microunits + reserved_row(q, f).reserved_microunits,
        reserve_fault(next, g, after, next_hold) is None,
    ensures
        balance.held_microunits + reserved_row(q, f).reserved_microunits + reserved_row(
            next,
            g,
        ).reserved_microunits <= balance.balance_microunits,
{
}

/// A request is admitted for the first time only where the account is open and in the
/// supported currency, the key is of the same project and tenant, live, and meant for
/// inference with that very model, the price is the current one, the window fits the model,
/// and the request has not been made before.
pub proof fn law_admitted_requests_meet_every_rule(
    q: ReserveRequest,
    f: ReserveFacts,
    balance: AccountBalance,
    hold: KeyHold,
)
    requires
        f.existing is None,
        reserve_fault(q, f, balance, hold) is None,
    ensures
        f.account is Some && f.key is Some && f.model is Some,
        f.account->0.tenant_id@ == q.tenant_id@,
        f.account->0.status@ == "active"@,
        f.account->0.currency@ == "CNY"@,
        f.key->0.tenant_id@ == q.tenant_id@,
        f.key->0.project_id@ == q.project_id@,
        f.key->0.revoked_at is None,
        f.key->0.expires_at is None || f.now < f.key->0.expires_at->0,
        exists|i: int|
            0 <= i < f.key->0.scopes@.len() && (#[trigger] f.key->0.scopes@[i]@
                == "chat.completions"@ || f.key->0.scopes@[i]@ == "completions"@),
        exists|i: int|
            0 <= i < f.key->0.allowed_models@.len() && #[trigger] f.key->0.allowed_models@[i]@
                == q.model_id@,
        q.price_version@ == f.model->0.price_version@,
        q.input_token_limit >= 0 && q.output_token_limit >= 0,
        0 < q.input_token_limit + q.output_token_limit <= f.model->0.max_context_tokens,
        !f.identity_used,
        reserved_row(q, f).state == ReservationState::Reserved,
        reserved_row(q, f).settled_microunits is None,
        reserved_row(q, f).reserved_microunits == q.input_token_limit
            * f.model->0.input_per_million_tokens.amount + q.output_token_limit
            * f.model->0.output_per_million_tokens.amount,
{
    let scopes = f.key->0.scopes@;
    if listed(scopes, "chat.completions"@) {
        let j = choose|j: int| 0 <= j < scopes.len() && #[trigger] scopes[j]@
            == "chat.completions"@;
        assert(scopes[j]@ == "chat.completions"@);
    } else {
        let j = choose|j: int| 0 <= j < scopes.len() && #[trigger] scopes[j]@ == "completions"@;
        assert(scopes[j]@ == "completions"@);
    }
}

/// A reservation is bound to what it was first asked with: whoever repeats it word for word
/// gets it back, even after prices or the key have changed, and whoever changes anything
/// under its name meets a conflict.
pub proof fn law_reservations_are_bound_to_their_payload(
    q: ReserveRequest,
    f: ReserveFacts,
    balance: AccountBalance,
    hold: KeyHold,
)
    requires
        reserve_identity(q),
        f.account is Some,
        f.account->0.tenant_id@ == q.tenant_id@,
        f.existing is Some,
    ensures
        f.existing->0.spec == q ==> reserve_fault(q, f, balance, hold) is None,
        reserve_fault(q, f, balance, hold) is None ==> {
            let spec = f.existing->0.spec;
            &&& spec.id@ == q.id@
            &&& spec.tenant_id@ == q.tenant_id@
            &&& spec.project_id@ == q.project_id@
            &&& spec.api_key_id@ == q.api_key_id@
            &&& spec.request_id@ == q.request_id@
            &&& spec.model_id@ == q.model_id@
            &&& spec.model_revision@ == q.model_revision@
            &&& spec.price_version@ == q.price_version@
            &&& spec.input_token_limit == q.input_token_limit
            &&& spec.output_token_limit == q.output_token_limit
        },
        reserve_fault(q, f, balance, hold) is Some ==> reserve_fault(q, f, balance, hold)->0
            is Conflict,
{
}

/// What is held for a request that was never sent can be given back, and then the account
/// and the key hold what they held before.
pub proof fn law_releasing_undoes_reserving(
    q: ReserveRequest,
    f: ReserveFacts,
    balance: AccountBalance,
    hold: KeyHold,
    after: AccountBalance,
    next: KeyHold,
    release: ReleaseRequest,
)
    requires
        f.existing is None,
        reserve_fault(q, f, balance, hold) is None,
        after.held_microunits == balance.held_microunits + reserved_row(q, f).reserved_microunits,
        next.held_microunits == hold.held_microunits + reserved_row(q, f).reserved_microunits,
        balance.held_microunits >= 0,
        hold.held_microunits >= 0,
        release.reason@ == "not_dispatched"@,
    ensures
        release_fault(Some(reserved_row(q, f)), release, after, next) is None,
        after.held_microunits - reserved_row(q, f).reserved_microunits == balance.held_microunits,
        next.held_microunits - reserved_row(q, f).reserved_microunits == hold.held_microunits,
{
}

/// Money is given back only while a request has not been sent: a request that was sent,
/// settled or waived keeps what is decided of it, and no other reason releases anything.
pub proof fn law_sent_requests_are_not_released(
    row: Reservation,
    q: ReleaseRequest,
    balance: AccountBalance,
    hold: KeyHold,
)
    ensures
        release_fault(Some(row), q, balance, hold) is None ==> q.reason@ == "not_dispatched"@ && (
        row.state == ReservationState::Reserved || row.state == ReservationState::Released),
        row.state == ReservationState::Reserved && release_fault(Some(row), q, balance, hold)
            is None ==> balance.held_microunits >= row.reserved_microunits && hold.held_microunits
            >= row.reserved_microunits,
        release_fault(None, q, balance, hold) is Some,
{
}

/// A request is sent only on money that is held for it, and can be reported as sent again.
pub proof fn law_only_held_requests_are_sent(row: Reservation)
    ensures
        dispatch_fault(Some(row)) is None <==> row.state == ReservationState::Reserved || row.state
            == ReservationState::Dispatched,
        dispatch_fault(None) == Some(Fault::NotFound),
{
}

/// A request that was sent can be reported as unresolved: without counts if its usage is
/// missing, with both if it exceeds the limit. The first report stands; one that was settled
/// or waived has nothing to resolve.
pub proof fn law_unresolved_reports_are_kept(row: Reservation, q: UnresolvedRequest)
    ensures
        unresolved_fault(Some(row), q) is None ==> row.state == ReservationState::Dispatched
            || row.state == ReservationState::Settled || row.state == ReservationState::Waived,
        unresolved_fault(Some(row), q) is None ==> (q.input_tokens is Some <==> q.reason@
            == "usage_over_limit"@) && (q.output_tokens is Some <==> q.reason@
            == "usage_over_limit"@) && (q.reason@ == "usage_over_limit"@ || q.reason@
            == "usage_missing"@),
        unresolved_fault(Some(row), q) is None && row.state == ReservationState::Dispatched
            && row.completion is Some ==> row.completion->0 is Unresolved
            && row.completion->0->Unresolved_0.event_id@ == q.event_id@
            && row.completion->0->Unresolved_0.reason@ == q.reason@
            && row.completion->0->Unresolved_0.input_tokens == q.input_tokens
            && row.completion->0->Unresolved_0.output_tokens == q.output_tokens,
        identifier_text(q.event_id@) && q.reason@ == "usage_missing"@ && q.input_tokens is None
            && q.output_tokens is None && row.state == ReservationState::Dispatched
            && row.completion is None ==> unresolved_fault(Some(row), q) is None,
{
    reveal_strlit("usage_missing");
    reveal_strlit("usage_over_limit");
    assert("usage_missing"@.len() != "usage_over_limit"@.len());
}

/// Known usage within the limits of a dispatched request is settled, where its hold is counted
/// and the account can be debited; it is written down as it was reported, at the price that
/// was frozen, and rounded up to the minor unit for display alone.
pub proof fn law_settled_usage_is_what_was_reported(
    account: AccountRow,
    row: Reservation,
    q: SettleRequest,
    ids: EntryIds,
    now: Timestamp,
    before: Counters,
    s: Settlement,
    after: Counters,
)
    requires
        row.well_formed(),
        row.state == ReservationState::Dispatched,
        settle_fault(account, row, q, before.balance, before.hold, before.spend, now) is None,
        settles(account, row, q, ids, now, before, s, after),
        settle_in_range(row, q, before.balance, before.hold),
    ensures
        q.input_tokens <= row.spec.input_token_limit,
        q.output_tokens <= row.spec.output_token_limit,
        settled_cost(row, q) == q.input_tokens * row.price.input_per_million_tokens.amount
            + q.output_tokens * row.price.output_per_million_tokens.amount,
        s.usage is Some,
        s.usage->0.input_tokens == q.input_tokens,
        s.usage->0.output_tokens == q.output_tokens,
        s.usage->0.request_id == row.request_id,
        s.usage->0.api_key_id == row.api_key_id,
        s.usage->0.cost_microunits == settled_cost(row, q),
        s.usage->0.cost_amount * 1_000_000 >= settled_cost(row, q),
        (s.usage->0.cost_amount - 1) * 1_000_000 < settled_cost(row, q),
        s.entries is Some <==> settled_cost(row, q) > 0,
        s.entries matches Some(e) ==> e.customer.amount_microunits == -settled_cost(row, q)
            && e.counter.amount_microunits == settled_cost(row, q) && e.counter.ledger_account@
            == "usage_revenue"@,
        s.row.completion == Some(Completion::Settled(q)),
{
}

/// A dispatched request whose hold is counted is settled whenever its usage is known and
/// within its limits: what was held covers the cost, so the account can pay it.
pub proof fn law_held_requests_can_be_settled(
    account: AccountRow,
    row: Reservation,
    q: SettleRequest,
    now: Timestamp,
    c: Counters,
)
    requires
        row.well_formed(),
        row.state == ReservationState::Dispatched,
        known_usage(q),
        q.input_tokens <= row.spec.input_token_limit,
        q.output_tokens <= row.spec.output_token_limit,
        row.reserved_microunits <= c.balance.held_microunits <= c.balance.balance_microunits,
        row.reserved_microunits <= c.hold.held_microunits,
        0 <= c.spend.spent_microunits,
        c.spend.spent_microunits + row.reserved_microunits <= i64::MAX,
    ensures
        settle_fault(account, row, q, c.balance, c.hold, c.spend, now) is None,
{
    law_settlement_stays_within_hold(row, q);
    let a = row.price.input_per_million_tokens.amount as int;
    let b = row.price.output_per_million_tokens.amount as int;
    let i = q.input_tokens as int;
    let o = q.output_tokens as int;
    assert(i * a >= 0 && o * b >= 0) by (nonlinear_arith)
        requires
            i >= 0,
            o >= 0,
            a >= 0,
            b >= 0,
    ;
}

/// Usage is known if no count is negative, the endpoint and the region are named, and the
/// outcome is final: the request succeeded, was cancelled, or failed at the provider.
pub proof fn law_known_usage_is_final(q: SettleRequest)
    ensures
        known_usage(q) <==> {
            &&& q.input_tokens >= 0 && q.output_tokens >= 0 && q.latency_ms >= 0
            &&& identifier_text(q.endpoint_id@) && identifier_text(q.region@)
            &&& q.status@ == "succeeded"@ || q.status@ == "cancelled"@ || q.status@
                == "provider_error"@
        },
{
}

/// The usage of a settlement is stored under the reservation, for the key, the model and the
/// price that were frozen, and as it was reported.
pub proof fn law_settled_usage_names_its_reservation(
    account: AccountRow,
    row: Reservation,
    q: SettleRequest,
    now: Timestamp,
    u: UsageRow,
    p: Posting,
)
    requires
        settled_usage(account, row, q, now, u),
        settled_posting(row, q, p),
    ensures
        u.event_id@ == "evt-reservation-"@ + row.id@,
        u.request_id == row.request_id,
        u.tenant_id == row.tenant_id && u.project_id == row.project_id && u.api_key_id
            == row.api_key_id,
        u.model_id == row.spec.model_id && u.model_revision == row.spec.model_revision,
        u.price_version == row.price.price_version,
        u.endpoint_id == q.endpoint_id && u.region == q.region && u.status == q.status,
        u.latency_ms == q.latency_ms && u.cached_input_tokens == 0,
        u.occurred_at == now && u.received_at == now,
        u.currency == account.currency,
        p.tenant_id == row.tenant_id,
        p.reference_id@ == u.event_id@,
        p.reference_type@ == "usage_event"@,
        p.kind@ == "usage"@,
        p.idempotency_key@ == "reservation:"@ + row.id@,
        p.customer_delta_microunits == -u.cost_microunits,
{
}

/// A request is named in full by identifiers, and bounds of zero are bounds.
pub proof fn law_reservations_are_named_in_full(q: ReserveRequest)
    ensures
        reserve_identity(q) <==> {
            &&& identifier_text(q.id@) && identifier_text(q.tenant_id@)
            &&& identifier_text(q.project_id@) && identifier_text(q.api_key_id@)
            &&& identifier_text(q.request_id@) && identifier_text(q.model_id@)
            &&& identifier_text(q.model_revision@) && identifier_text(q.price_version@)
            &&& 0 <= q.input_token_limit && 0 <= q.output_token_limit
        },
{
}

/// An identifier has one byte at least and 128 at most, each of them a letter, a digit, a
/// hyphen, an underscore, a dot or a colon.
pub proof fn law_identifiers_are_plain(s: Seq<char>, i: int)
    ensures
        identifier_text(s) && 0 <= i < bytes_of(s).len() ==> {
            let b = bytes_of(s)[i];
            ||| 'a' as u8 <= b <= 'z' as u8
            ||| 'A' as u8 <= b <= 'Z' as u8
            ||| '0' as u8 <= b <= '9' as u8
            ||| b == '-' as u8 || b == '_' as u8 || b == '.' as u8 || b == ':' as u8
        },
        identifier_text(s) ==> s.len() > 0 && bytes_of(s).len() < 129,
        s.len() > 0 && bytes_of(s).len() < 129 && made_of(s, seq![]) ==> identifier_text(s),
{
    let extra = seq![0x2du8, 0x5fu8, 0x2eu8, 0x3au8];
    if made_of(s, seq![]) {
        assert forall|k: int| 0 <= k < bytes_of(s).len() implies crate::text::alphanumeric(
            #[trigger] bytes_of(s)[k],
        ) || extra.contains(bytes_of(s)[k]) by {
            assert(!Seq::<u8>::empty().contains(bytes_of(s)[k]));
            assert(seq![] =~= Seq::<u8>::empty());
        }
    }
}

/// A settlement is announced and booked under the reservation that it ends: the customer pays
/// what was settled, to the revenue from usage.
pub proof fn law_settlements_are_booked_under_their_reservation(
    account: AccountRow,
    row: Reservation,
    q: SettleRequest,
    ids: EntryIds,
    now: Timestamp,
    s: Settlement,
)
    requires
        settlement_written(account, row, q, ids, now, s),
        0 <= settled_cost(row, q) <= i64::MAX,
    ensures
        s.event is Some && s.event->0.aggregate_id == row.id,
        s.event->0.kind matches EventKind::ReservationSettled { usage_event_id, settled_microunits }
            && usage_event_id@ == "evt-reservation-"@ + row.id@ && s.row.settled_microunits == Some(
            settled_microunits,
        ),
        s.row.settled_microunits->0 == 0 <==> s.entries is None,
        s.entries is Some ==> {
            let p = s.entries->0.posting;
            &&& p.tenant_id == row.tenant_id && p.kind@ == "usage"@
            &&& p.reference_type@ == "usage_event"@ && p.reference_id@ == "evt-reservation-"@
                + row.id@
            &&& p.idempotency_key@ == "reservation:"@ + row.id@
            &&& p.description@ == "Reserved model inference usage"@
            &&& p.customer_delta_microunits == -s.row.settled_microunits->0
            &&& p.counter_account@ == "usage_revenue"@
        },
{
}

/// Usage is charged only to a request that was sent, and within the limits that it was held for.
pub proof fn law_only_sent_usage_within_its_limits_is_charged(row: Reservation, q: SettleRequest)
    requires
        charges(row, q),
    ensures
        row.state == ReservationState::Dispatched,
        q.input_tokens <= row.spec.input_token_limit,
        q.output_tokens <= row.spec.output_token_limit,
{
}

} // verus!
