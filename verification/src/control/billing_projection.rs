//! Rebuildable financial projections, never an eventually consistent cache.
//! Everything here runs under the lock of the owning account, up to the commit.
use crate::control::error::{internal, invalid, refused, Fault, ServiceError, ServiceResult};
use crate::domain::{fits_i64, Timestamp};
use crate::time::{datable, day_of, instant_day, FIRST_YEAR, LAST_YEAR};
use vstd::prelude::*;

verus! {

/// A day of the UTC calendar.
#[derive(Clone, Copy, Debug, PartialEq, Eq, Structural)]
pub struct Date {
    pub year: i32,
    pub month: u32,
    pub day: u32,
}

/// The day of a time.
pub open spec fn date_at(at: Timestamp) -> Date {
    let day = instant_day(at);
    Date { year: day.0, month: day.1, day: day.2 }
}

/// The day of a time.
pub fn date(at: Timestamp) -> (r: Date)
    requires
        datable(at),
    ensures
        r == date_at(at),
        FIRST_YEAR <= r.year <= LAST_YEAR,
        1 <= r.month <= 12,
        1 <= r.day <= 31,
{
    let (year, month, day) = day_of(at);
    Date { year, month, day }
}

/// The first day of the month of `date`.
pub fn month(date: Date) -> (r: Date)
    ensures
        r == (Date { day: 1, ..date }),
{
    Date { year: date.year, month: date.month, day: 1 }
}

/// The first day of the month after the one that starts at `period`.
pub open spec fn month_after(period: Date) -> Date {
    if period.month >= 12 {
        Date { year: (period.year + 1) as i32, month: 1, day: period.day }
    } else {
        Date { year: period.year, month: (period.month + 1) as u32, day: period.day }
    }
}

/// The end of the half-open period that starts at the first day of a month.
pub fn period_end(period: Date) -> (r: ServiceResult<Date>)
    ensures
        refused(
            r,
            if period.month >= 12 && period.year >= LAST_YEAR {
                Some(Fault::Invalid("invalid month"@))
            } else {
                None
            },
        ),
        r matches Ok(end) ==> end == month_after(period),
{
    if period.month >= 12 {
        if period.year >= LAST_YEAR {
            return Err(invalid("invalid month"));
        }
        Ok(Date { year: period.year + 1, month: 1, day: period.day })
    } else {
        Ok(Date { year: period.year, month: period.month + 1, day: period.day })
    }
}

/// The balance of an account and the part of it that is held.
#[derive(Clone, Debug)]
pub struct AccountBalance {
    pub billing_account_id: String,
    pub balance_microunits: i64,
    pub held_microunits: i64,
    pub updated_at: Timestamp,
}

/// What is held for requests of one API key.
#[derive(Clone, Debug)]
pub struct KeyHold {
    pub api_key_id: String,
    pub held_microunits: i64,
    pub updated_at: Timestamp,
}

/// What one API key has spent in one month.
#[derive(Clone, Debug)]
pub struct MonthSpend {
    pub api_key_id: String,
    pub month: Date,
    pub spent_microunits: i64,
    pub updated_at: Timestamp,
}

/// A counter may move to `value + delta`.
pub open spec fn counter_moves(value: int, delta: int, nonnegative: bool) -> bool {
    fits_i64(value + delta) && (nonnegative ==> value + delta >= 0)
}

pub open spec fn projection_fault() -> Fault {
    Fault::Internal("billing projection overflow or negative hold/spend"@)
}

/// Adds to a counter; a counter that may not go below zero refuses to.
pub fn add(value: i64, delta: i64, nonnegative: bool) -> (r: ServiceResult<i64>)
    ensures
        refused(
            r,
            if counter_moves(value as int, delta as int, nonnegative) {
                None
            } else {
                Some(projection_fault())
            },
        ),
        r matches Ok(sum) ==> sum == value + delta,
{
    match value.checked_add(delta) {
        Some(sum) => if nonnegative && sum < 0 {
            Err(internal("billing projection overflow or negative hold/spend"))
        } else {
            Ok(sum)
        },
        None => Err(internal("billing projection overflow or negative hold/spend")),
    }
}

/// The projection of an account: the stored row, or one made from history.
pub fn account(
    stored: Option<AccountBalance>,
    id: &str,
    booked: i64,
    held: i64,
    now: Timestamp,
) -> (r: AccountBalance)
    ensures
        stored matches Some(row) ==> r == row,
        stored is None ==> r.billing_account_id@ == id@ && r.balance_microunits == booked
            && r.held_microunits == held && r.updated_at == now,
{
    match stored {
        Some(row) => row,
        None => AccountBalance {
            billing_account_id: id.to_owned(),
            balance_microunits: booked,
            held_microunits: held,
            updated_at: now,
        },
    }
}

/// The projection of a key: the stored row, or one made from history.
pub fn key_hold(stored: Option<KeyHold>, id: &str, held: i64, now: Timestamp) -> (r: KeyHold)
    ensures
        stored matches Some(row) ==> r == row,
        stored is None ==> r.api_key_id@ == id@ && r.held_microunits == held && r.updated_at == now,
{
    match stored {
        Some(row) => row,
        None => KeyHold { api_key_id: id.to_owned(), held_microunits: held, updated_at: now },
    }
}

/// The projection of a key's month: the stored row, or one made from history.
pub fn monthly(
    stored: Option<MonthSpend>,
    id: &str,
    period: Date,
    spent: i64,
    now: Timestamp,
) -> (r: MonthSpend)
    ensures
        stored matches Some(row) ==> r == row,
        stored is None ==> r.api_key_id@ == id@ && r.month == period && r.spent_microunits == spent
            && r.updated_at == now,
{
    match stored {
        Some(row) => row,
        None => MonthSpend {
            api_key_id: id.to_owned(),
            month: period,
            spent_microunits: spent,
            updated_at: now,
        },
    }
}

pub open spec fn hold_fault(account: AccountBalance, key: KeyHold, delta: int) -> Option<Fault> {
    if counter_moves(account.held_microunits as int, delta, true) && counter_moves(
        key.held_microunits as int,
        delta,
        true,
    ) {
        None
    } else {
        Some(projection_fault())
    }
}

/// Whether what is held can be moved.
pub(crate) fn hold_moves(account: &AccountBalance, key: &KeyHold, delta: i64) -> (r: bool)
    ensures
        r == (hold_fault(*account, *key, delta as int) is None),
{
    self::add(account.held_microunits, delta, true).is_ok() && self::add(
        key.held_microunits,
        delta,
        true,
    ).is_ok()
}

/// Moves what is held, of the account and of the key alike. To be called
/// before the state of the reservation changes, so that a projection that is
/// made from history sees the old truth.
pub fn change_hold(
    account: &mut AccountBalance,
    key: &mut KeyHold,
    delta: i64,
    now: Timestamp,
) -> (r: ServiceResult<()>)
    ensures
        refused(r, hold_fault(*old(account), *old(key), delta as int)),
        r is Err ==> *final(account) == *old(account) && *final(key) == *old(key),
        r is Ok ==> *final(account) == (AccountBalance {
            held_microunits: (old(account).held_microunits + delta) as i64,
            updated_at: now,
            ..*old(account)
        }) && *final(key) == (KeyHold {
            held_microunits: (old(key).held_microunits + delta) as i64,
            updated_at: now,
            ..*old(key)
        }),
{
    let of_account = self::add(account.held_microunits, delta, true)?;
    let of_key = self::add(key.held_microunits, delta, true)?;
    account.held_microunits = of_account;
    account.updated_at = now;
    key.held_microunits = of_key;
    key.updated_at = now;
    Ok(())
}

/// Moves the balance. To be called before the matching ledger entries are
/// written, never on an idempotent replay.
pub fn change_balance(account: &mut AccountBalance, delta: i64, now: Timestamp) -> (r:
    ServiceResult<()>)
    ensures
        refused(
            r,
            if fits_i64(old(account).balance_microunits + delta) {
                None
            } else {
                Some(projection_fault())
            },
        ),
        r is Err ==> *final(account) == *old(account),
        r is Ok ==> *final(account) == (AccountBalance {
            balance_microunits: (old(account).balance_microunits + delta) as i64,
            updated_at: now,
            ..*old(account)
        }),
{
    let amount = self::add(account.balance_microunits, delta, false)?;
    account.balance_microunits = amount;
    account.updated_at = now;
    Ok(())
}

/// Moves what a key has spent. The row is made before usage is written, and
/// moved only after the usage turned out to be new.
pub fn change_spend(row: &mut MonthSpend, delta: i64, now: Timestamp) -> (r: ServiceResult<()>)
    ensures
        refused(
            r,
            if counter_moves(old(row).spent_microunits as int, delta as int, true) {
                None
            } else {
                Some(projection_fault())
            },
        ),
        r is Err ==> *final(row) == *old(row),
        r is Ok ==> *final(row) == (MonthSpend {
            spent_microunits: (old(row).spent_microunits + delta) as i64,
            updated_at: now,
            ..*old(row)
        }),
{
    let amount = self::add(row.spent_microunits, delta, true)?;
    row.spent_microunits = amount;
    row.updated_at = now;
    Ok(())
}

#[derive(Clone, Debug)]
pub struct CheckRequest {
    pub api_key_id: String,
    pub month: Date,
}

/// The counters of one account, key and month as history gives them.
#[derive(Clone, Copy, Debug, PartialEq, Eq, Structural)]
pub struct HistoricalTotals {
    pub balance_microunits: i64,
    pub held_microunits: i64,
    pub key_held_microunits: i64,
    pub spent_microunits: i64,
}

/// The stored counters, where they exist.
pub struct StoredCounters {
    pub account: Option<AccountBalance>,
    pub key: Option<KeyHold>,
    pub month: Option<MonthSpend>,
}

/// A check of the counters; `write` holds what they are set to, if they are.
pub struct ProjectionCheck {
    pub consistent_before: bool,
    pub write: Option<HistoricalTotals>,
}

/// Every counter is stored and equals its history.
pub open spec fn counters_consistent(stored: StoredCounters, expected: HistoricalTotals) -> bool {
    &&& stored.account matches Some(a) && a.balance_microunits == expected.balance_microunits
        && a.held_microunits == expected.held_microunits
    &&& stored.key matches Some(k) && k.held_microunits == expected.key_held_microunits
    &&& stored.month matches Some(m) && m.spent_microunits == expected.spent_microunits
}

/// Compares the stored counters with their history and, where asked to,
/// replaces them. Source records and holds stay as they are.
pub fn projection_check(
    request: &CheckRequest,
    account_found: bool,
    key_found: bool,
    expected: HistoricalTotals,
    stored: &StoredCounters,
    rebuild: bool,
) -> (r: ServiceResult<ProjectionCheck>)
    ensures
        refused(
            r,
            if request.month.day != 1 {
                Some(Fault::Invalid("month must be the first UTC calendar day"@))
            } else if !account_found || !key_found {
                Some(Fault::NotFound)
            } else {
                None
            },
        ),
        r matches Ok(check) ==> check.consistent_before == counters_consistent(*stored, expected)
            && check.write == if rebuild {
            Some(expected)
        } else {
            None
        },
{
    if request.month.day != 1 {
        return Err(invalid("month must be the first UTC calendar day"));
    }
    if !account_found || !key_found {
        return Err(ServiceError::NotFound);
    }
    let account_consistent = match &stored.account {
        Some(a) => a.balance_microunits == expected.balance_microunits && a.held_microunits
            == expected.held_microunits,
        None => false,
    };
    let key_consistent = match &stored.key {
        Some(k) => k.held_microunits == expected.key_held_microunits,
        None => false,
    };
    let month_consistent = match &stored.month {
        Some(m) => m.spent_microunits == expected.spent_microunits,
        None => false,
    };
    Ok(
        ProjectionCheck {
            consistent_before: account_consistent && key_consistent && month_consistent,
            write: if rebuild {
                Some(expected)
            } else {
                None
            },
        },
    )
}

/// A counter moves to the sum, or not at all: one that may not fall below zero does not, and
/// moving it back undoes the move.
pub proof fn law_counters_move_and_move_back(value: int, delta: int)
    requires
        0 <= value <= i64::MAX,
    ensures
        counter_moves(value, delta, true) <==> 0 <= value + delta <= i64::MAX,
        counter_moves(value, delta, false) <==> i64::MIN <= value + delta <= i64::MAX,
        counter_moves(value, delta, true) ==> counter_moves(value + delta, -delta, true),
{
}

/// Holding and giving back the same amount is possible on the account and the key alike, and
/// nothing is given back that is not held.
pub proof fn law_holds_can_be_given_back(account: AccountBalance, key: KeyHold, amount: int)
    requires
        amount >= 0,
    ensures
        hold_fault(account, key, -amount) is None ==> account.held_microunits >= amount
            && key.held_microunits >= amount,
        account.held_microunits >= amount && key.held_microunits >= amount ==> hold_fault(
            account,
            key,
            -amount,
        ) is None,
        account.held_microunits >= 0 && key.held_microunits >= 0 && account.held_microunits + amount
            <= i64::MAX && key.held_microunits + amount <= i64::MAX ==> hold_fault(
            account,
            key,
            amount,
        ) is None,
{
}

/// Twelve months make a year: the month after December is January of the next year, and every
/// other month is followed by the next one of its year.
pub proof fn law_months_follow_each_other(period: Date)
    requires
        1 <= period.month <= 12,
        period.year < LAST_YEAR,
    ensures
        1 <= month_after(period).month <= 12,
        month_after(period).year * 12 + month_after(period).month == period.year * 12 + period.month
            + 1,
        month_after(period).day == period.day,
{
}

/// Stored counters are consistent exactly if each of them is there and says what history says.
pub proof fn law_consistent_counters_are_their_history(
    stored: StoredCounters,
    expected: HistoricalTotals,
)
    ensures
        counters_consistent(stored, expected) <==> {
            &&& stored.account is Some && stored.key is Some && stored.month is Some
            &&& stored.account->0.balance_microunits == expected.balance_microunits
            &&& stored.account->0.held_microunits == expected.held_microunits
            &&& stored.key->0.held_microunits == expected.key_held_microunits
            &&& stored.month->0.spent_microunits == expected.spent_microunits
        },
{
}

} // verus!
