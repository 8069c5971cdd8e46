//! The double-entry ledger: every transaction has one entry of the customer
//! and one of a counter account, and the two sum to nothing.
use crate::control::billing_projection::{change_balance, projection_fault, AccountBalance};
use crate::control::error::{invalid, out_of_funds, refused, Fault, ServiceResult};
use crate::crypto::{fresh_uuid, uuid_text};
use crate::domain::billing::UnresolvedRequest;
use crate::domain::{fits_i64, Timestamp};
use crate::json::{
    count_or_null, integer, integer_json, json_of, optional_count, text, Json, Record,
};
use crate::text::join;
use vstd::prelude::*;

verus! {

/// A billing account as it is locked for a transaction.
#[derive(Clone, Debug)]
pub struct AccountRow {
    pub id: String,
    pub tenant_id: String,
    pub project_id: String,
    pub currency: String,
    pub enforce_balance: bool,
    pub status: String,
}

/// What is to be recorded in the outbox of an account.
#[derive(Clone, Debug)]
pub enum EventKind {
    ReservationCreated { reserved_microunits: i64, price_version: String },
    ReservationDispatched,
    ReservationReleased,
    ReservationUnresolved(UnresolvedRequest),
    ReservationSettled { usage_event_id: String, settled_microunits: i64 },
    ReservationWaived { review_id: String, actor_id: String, evidence_sha256: String },
    ReviewSubmitted { reservation_id: String, actor_id: String, evidence_sha256: String },
    ReviewRejected { reservation_id: String, actor_id: String, evidence_sha256: String },
    ReviewWaived { reservation_id: String, actor_id: String, evidence_sha256: String },
    ReviewSettled { reservation_id: String, actor_id: String, evidence_sha256: String },
    LedgerPosted {
        kind: String,
        reference_type: String,
        reference_id: String,
        customer_delta_microunits: i64,
        currency: String,
    },
    ProjectionRebuilt,
}

/// What an event of a review carries.
pub open spec fn reviewed(
    name: Seq<char>,
    id: Seq<char>,
    actor: Seq<char>,
    sha256: Seq<char>,
) -> Json {
    Json::Object(
        map![
            name => Json::Text(id),
            "actor_id"@ => Json::Text(actor),
            "evidence_sha256"@ => Json::Text(sha256),
        ],
    )
}

fn review_record(name: &str, id: &String, actor: &String, sha256: &String) -> (r: serde_json::Value)
    ensures
        json_of(r) == reviewed(name@, id@, actor@, sha256@),
{
    Record::new().with(name, text(id.as_str())).with("actor_id", text(actor.as_str())).with(
        "evidence_sha256",
        text(sha256.as_str()),
    ).done()
}

impl EventKind {
    pub open spec fn label(self) -> Seq<char> {
        match self {
            EventKind::ReservationCreated { .. } => "reservation.created"@,
            EventKind::ReservationDispatched => "reservation.dispatched"@,
            EventKind::ReservationReleased => "reservation.released"@,
            EventKind::ReservationUnresolved(_) => "reservation.unresolved"@,
            EventKind::ReservationSettled { .. } => "reservation.settled"@,
            EventKind::ReservationWaived { .. } => "reservation.waived"@,
            EventKind::ReviewSubmitted { .. } => "review.submitted"@,
            EventKind::ReviewRejected { .. } => "review.rejected"@,
            EventKind::ReviewWaived { .. } => "review.waived"@,
            EventKind::ReviewSettled { .. } => "review.settled"@,
            EventKind::LedgerPosted { .. } => "ledger.posted"@,
            EventKind::ProjectionRebuilt => "projection.rebuilt"@,
        }
    }

    /// What consumers of the outbox see of the event besides its name. A rebuild
    /// carries the counters that it replaced, which whoever replaces them adds.
    pub open spec fn carried(self) -> Option<Json> {
        match self {
            EventKind::ReservationCreated { reserved_microunits, price_version } => Some(
                Json::Object(
                    map![
                        "reserved_microunits"@ => integer_json(reserved_microunits as int),
                        "price_version"@ => Json::Text(price_version@),
                    ],
                ),
            ),
            EventKind::ReservationDispatched => Some(Json::Object(Map::empty())),
            EventKind::ReservationReleased => Some(
                Json::Object(map!["reason"@ => Json::Text("not_dispatched"@)]),
            ),
            EventKind::ReservationUnresolved(request) => Some(
                Json::Object(
                    map![
                        "event_id"@ => Json::Text(request.event_id@),
                        "reason"@ => Json::Text(request.reason@),
                        "input_tokens"@ => count_or_null(request.input_tokens),
                        "output_tokens"@ => count_or_null(request.output_tokens),
                    ],
                ),
            ),
            EventKind::ReservationSettled { usage_event_id, settled_microunits } => Some(
                Json::Object(
                    map![
                        "usage_event_id"@ => Json::Text(usage_event_id@),
                        "settled_microunits"@ => integer_json(settled_microunits as int),
                    ],
                ),
            ),
            EventKind::ReservationWaived { review_id, actor_id, evidence_sha256 } => Some(
                reviewed("review_id"@, review_id@, actor_id@, evidence_sha256@),
            ),
            EventKind::ReviewSubmitted { reservation_id, actor_id, evidence_sha256 } => Some(
                reviewed("reservation_id"@, reservation_id@, actor_id@, evidence_sha256@),
            ),
            EventKind::ReviewRejected { reservation_id, actor_id, evidence_sha256 } => Some(
                reviewed("reservation_id"@, reservation_id@, actor_id@, evidence_sha256@),
            ),
            EventKind::ReviewWaived { reservation_id, actor_id, evidence_sha256 } => Some(
                reviewed("reservation_id"@, reservation_id@, actor_id@, evidence_sha256@),
            ),
            EventKind::ReviewSettled { reservation_id, actor_id, evidence_sha256 } => Some(
                reviewed("reservation_id"@, reservation_id@, actor_id@, evidence_sha256@),
            ),
            EventKind::LedgerPosted {
                kind,
                reference_type,
                reference_id,
                customer_delta_microunits,
                currency,
            } => Some(
                Json::Object(
                    map![
                        "kind"@ => Json::Text(kind@),
                        "reference_type"@ => Json::Text(reference_type@),
                        "reference_id"@ => Json::Text(reference_id@),
                        "customer_delta_microunits"@ => integer_json(
                            customer_delta_microunits as int,
                        ),
                        "currency"@ => Json::Text(currency@),
                    ],
                ),
            ),
            EventKind::ProjectionRebuilt => None,
        }
    }

    /// Writes what consumers of the outbox see of the event.
    pub fn payload(&self) -> (r: Option<serde_json::Value>)
        ensures
            match r {
                Some(value) => self.carried() == Some(json_of(value)),
                None => self.carried() is None,
            },
    {
        match self {
            EventKind::ReservationCreated { reserved_microunits, price_version } => Some(
                Record::new().with("reserved_microunits", integer(*reserved_microunits)).with(
                    "price_version",
                    text(price_version.as_str()),
                ).done(),
            ),
            EventKind::ReservationDispatched => Some(Record::new().done()),
            EventKind::ReservationReleased => Some(
                Record::new().with("reason", text("not_dispatched")).done(),
            ),
            EventKind::ReservationUnresolved(request) => Some(
                Record::new().with("event_id", text(request.event_id.as_str())).with(
                    "reason",
                    text(request.reason.as_str()),
                ).with("input_tokens", optional_count(request.input_tokens)).with(
                    "output_tokens",
                    optional_count(request.output_tokens),
                ).done(),
            ),
            EventKind::ReservationSettled { usage_event_id, settled_microunits } => Some(
                Record::new().with("usage_event_id", text(usage_event_id.as_str())).with(
                    "settled_microunits",
                    integer(*settled_microunits),
                ).done(),
            ),
            EventKind::ReservationWaived { review_id, actor_id, evidence_sha256 } => Some(
                review_record("review_id", review_id, actor_id, evidence_sha256),
            ),
            EventKind::ReviewSubmitted { reservation_id, actor_id, evidence_sha256 } => Some(
                review_record("reservation_id", reservation_id, actor_id, evidence_sha256),
            ),
            EventKind::ReviewRejected { reservation_id, actor_id, evidence_sha256 } => Some(
                review_record("reservation_id", reservation_id, actor_id, evidence_sha256),
            ),
            EventKind::ReviewWaived { reservation_id, actor_id, evidence_sha256 } => Some(
                review_record("reservation_id", reservation_id, actor_id, evidence_sha256),
            ),
            EventKind::ReviewSettled { reservation_id, actor_id, evidence_sha256 } => Some(
                review_record("reservation_id", reservation_id, actor_id, evidence_sha256),
            ),
            EventKind::LedgerPosted {
                kind,
                reference_type,
                reference_id,
                customer_delta_microunits,
                currency,
            } => Some(
                Record::new().with("kind", text(kind.as_str())).with(
                    "reference_type",
                    text(reference_type.as_str()),
                ).with("reference_id", text(reference_id.as_str())).with(
                    "customer_delta_microunits",
                    integer(*customer_delta_microunits),
                ).with("currency", text(currency.as_str())).done(),
            ),
            EventKind::ProjectionRebuilt => None,
        }
    }

    /// The name under which consumers of the outbox see the event.
    pub fn name(&self) -> (r: &'static str)
        ensures
            r@ == self.label(),
    {
        match self {
            EventKind::ReservationCreated { .. } => "reservation.created",
            EventKind::ReservationDispatched => "reservation.dispatched",
            EventKind::ReservationReleased => "reservation.released",
            EventKind::ReservationUnresolved(_) => "reservation.unresolved",
            EventKind::ReservationSettled { .. } => "reservation.settled",
            EventKind::ReservationWaived { .. } => "reservation.waived",
            EventKind::ReviewSubmitted { .. } => "review.submitted",
            EventKind::ReviewRejected { .. } => "review.rejected",
            EventKind::ReviewWaived { .. } => "review.waived",
            EventKind::ReviewSettled { .. } => "review.settled",
            EventKind::LedgerPosted { .. } => "ledger.posted",
            EventKind::ProjectionRebuilt => "projection.rebuilt",
        }
    }
}

/// An event of the outbox, before it has its place in the sequence.
#[derive(Clone, Debug)]
pub struct EventDraft {
    pub kind: EventKind,
    pub aggregate_id: String,
}

/// The place of the next event of an account. Sequences are local to the
/// account and taken while its lock is held, up to the commit.
pub fn append_event(prior: Option<i64>) -> (r: ServiceResult<i64>)
    ensures
        refused(
            r,
            if prior == Some(i64::MAX) {
                Some(Fault::Invalid("event sequence exhausted"@))
            } else {
                None
            },
        ),
        r matches Ok(sequence) ==> sequence == prior.unwrap_or(0) + 1,
{
    match prior.unwrap_or(0).checked_add(1) {
        Some(sequence) => Ok(sequence),
        None => Err(invalid("event sequence exhausted")),
    }
}

/// What a transaction is about.
#[derive(Clone, Debug)]
pub struct Posting {
    pub tenant_id: String,
    pub kind: String,
    pub reference_type: String,
    pub reference_id: String,
    pub idempotency_key: String,
    pub description: String,
    pub customer_delta_microunits: i64,
    pub counter_account: String,
}

/// One line of a transaction.
#[derive(Clone, Debug)]
pub struct EntryLine {
    pub id: String,
    pub billing_account_id: String,
    pub ledger_account: String,
    pub amount_microunits: i64,
    pub currency: String,
}

/// A transaction with its two lines and its event.
#[derive(Clone, Debug)]
pub struct BalancedEntries {
    pub transaction_id: String,
    pub currency: String,
    pub posting: Posting,
    pub customer: EntryLine,
    pub counter: EntryLine,
    pub event: EventDraft,
    pub created_at: Timestamp,
}

/// Fresh identifiers for a transaction and its two lines.
#[derive(Clone, Debug)]
pub struct EntryIds {
    pub transaction: String,
    pub customer: String,
    pub counter: String,
}

impl EntryIds {
    /// Draws the three.
    pub fn fresh() -> (r: Self)
        ensures
            uuid_text(r.transaction@),
            uuid_text(r.customer@),
            uuid_text(r.counter@),
    {
        EntryIds { transaction: fresh_uuid(), customer: fresh_uuid(), counter: fresh_uuid() }
    }
}

/// The two lines of a transaction cancel out.
pub open spec fn balanced(e: BalancedEntries) -> bool {
    e.customer.amount_microunits + e.counter.amount_microunits == 0
}

/// A debit leaves enough of an enforced balance behind what is held.
pub open spec fn debit_covered(balance: AccountBalance, delta: int) -> bool {
    &&& fits_i64(balance.balance_microunits - balance.held_microunits)
    &&& balance.balance_microunits - balance.held_microunits + delta >= 0
}

pub open spec fn posting_fault(
    account: AccountRow,
    balance: AccountBalance,
    delta: int,
) -> Option<Fault> {
    if delta == i64::MIN {
        Some(Fault::Invalid("ledger amount is too large"@))
    } else if delta < 0 && account.enforce_balance && !debit_covered(balance, delta) {
        Some(
            Fault::InsufficientFunds("debit would consume unavailable or reserved balance"@),
        )
    } else if !fits_i64(balance.balance_microunits + delta) {
        Some(projection_fault())
    } else {
        None
    }
}

pub open spec fn entries_of(
    account: AccountRow,
    posting: Posting,
    ids: EntryIds,
    e: BalancedEntries,
) -> bool {
    &&& e.transaction_id@ == "txn-"@ + ids.transaction@
    &&& e.currency == account.currency
    &&& e.posting == posting
    &&& e.customer.id@ == "entry-customer-"@ + ids.customer@
    &&& e.customer.billing_account_id == account.id
    &&& e.customer.ledger_account@ == "customer_balance"@
    &&& e.customer.amount_microunits == posting.customer_delta_microunits
    &&& e.customer.currency == account.currency
    &&& e.counter.id@ == "entry-counter-"@ + ids.counter@
    &&& e.counter.billing_account_id == account.id
    &&& e.counter.ledger_account == posting.counter_account
    &&& e.counter.amount_microunits == -posting.customer_delta_microunits
    &&& e.counter.currency == account.currency
    &&& e.event.aggregate_id@ == "txn-"@ + ids.transaction@
    &&& e.event.kind matches EventKind::LedgerPosted {
        kind,
        reference_type,
        reference_id,
        customer_delta_microunits,
        currency,
    } && kind == posting.kind && reference_type == posting.reference_type && reference_id
        == posting.reference_id && customer_delta_microunits == posting.customer_delta_microunits
        && currency == account.currency
}

/// Posts a transaction: moves the balance of the account and writes the two
/// lines. The caller holds the lock of the account.
pub fn insert_balanced_entries(
    account: &AccountRow,
    balance: &mut AccountBalance,
    posting: Posting,
    ids: &EntryIds,
    now: Timestamp,
) -> (r: ServiceResult<BalancedEntries>)
    ensures
        refused(
            r,
            posting_fault(*account, *old(balance), posting.customer_delta_microunits as int),
        ),
        r is Err ==> *final(balance) == *old(balance),
        r matches Ok(e) ==> entries_of(*account, posting, *ids, e) && balanced(e) && e.created_at
            == now && *final(balance) == (AccountBalance {
            balance_microunits: (old(balance).balance_microunits
                + posting.customer_delta_microunits) as i64,
            updated_at: now,
            ..*old(balance)
        }),
{
    let delta = posting.customer_delta_microunits;
    if delta == i64::MIN {
        return Err(invalid("ledger amount is too large"));
    }
    if delta < 0 && account.enforce_balance {
        let covered = match balance.balance_microunits.checked_sub(balance.held_microunits) {
            Some(available) => match available.checked_add(delta) {
                Some(rest) => rest >= 0,
                None => false,
            },
            None => false,
        };
        if !covered {
            return Err(out_of_funds("debit would consume unavailable or reserved balance"));
        }
    }
    change_balance(balance, delta, now)?;
    let transaction_id = join("txn-", ids.transaction.as_str());
    let customer = EntryLine {
        id: join("entry-customer-", ids.customer.as_str()),
        billing_account_id: account.id.clone(),
        ledger_account: "customer_balance".to_owned(),
        amount_microunits: delta,
        currency: account.currency.clone(),
    };
    let counter = EntryLine {
        id: join("entry-counter-", ids.counter.as_str()),
        billing_account_id: account.id.clone(),
        ledger_account: posting.counter_account.clone(),
        amount_microunits: -delta,
        currency: account.currency.clone(),
    };
    let event = EventDraft {
        kind: EventKind::LedgerPosted {
            kind: posting.kind.clone(),
            reference_type: posting.reference_type.clone(),
            reference_id: posting.reference_id.clone(),
            customer_delta_microunits: delta,
            currency: account.currency.clone(),
        },
        aggregate_id: transaction_id.clone(),
    };
    Ok(
        BalancedEntries {
            transaction_id,
            currency: account.currency.clone(),
            posting,
            customer,
            counter,
            event,
            created_at: now,
        },
    )
}

/// What the lines of an account add up to in its own ledger account.
pub open spec fn customer_total(lines: Seq<EntryLine>, account: Seq<char>) -> int
    decreases lines.len(),
{
    if lines.len() == 0 {
        0
    } else {
        let line = lines.last();
        customer_total(lines.drop_last(), account) + if line.billing_account_id@ == account
            && line.ledger_account@ == "customer_balance"@ {
            line.amount_microunits as int
        } else {
            0
        }
    }
}

/// What all lines add up to.
pub open spec fn ledger_total(lines: Seq<EntryLine>) -> int
    decreases lines.len(),
{
    if lines.len() == 0 {
        0
    } else {
        ledger_total(lines.drop_last()) + lines.last().amount_microunits
    }
}

/// The books stay in balance: a posting leaves the sum of all lines as it was, and
/// the counter of an account stays the sum of its lines.
pub proof fn law_postings_keep_the_books(
    lines: Seq<EntryLine>,
    account: AccountRow,
    balance: AccountBalance,
    posting: Posting,
    ids: EntryIds,
    e: BalancedEntries,
)
    requires
        posting_fault(account, balance, posting.customer_delta_microunits as int) is None,
        entries_of(account, posting, ids, e),
        posting.counter_account@ != "customer_balance"@,
        customer_total(lines, account.id@) == balance.balance_microunits,
    ensures
        ledger_total(lines.push(e.customer).push(e.counter)) == ledger_total(lines),
        customer_total(lines.push(e.customer).push(e.counter), account.id@)
            == balance.balance_microunits + posting.customer_delta_microunits,
{
    let once = lines.push(e.customer);
    let twice = once.push(e.counter);
    reveal_with_fuel(customer_total, 3);
    reveal_with_fuel(ledger_total, 3);
    assert(twice.drop_last() =~= once);
    assert(once.drop_last() =~= lines);
    assert(twice.last() == e.counter && once.last() == e.customer);
}

/// A debit of an account that enforces its balance never touches what is held for requests,
/// and is refused for want of money only where it would; a credit never is.
pub proof fn law_debits_leave_held_money_alone(
    account: AccountRow,
    balance: AccountBalance,
    delta: int,
)
    requires
        balance.held_microunits >= 0,
        balance.balance_microunits >= 0,
        fits_i64(delta),
    ensures
        account.enforce_balance && delta < 0 && posting_fault(account, balance, delta) is None
            ==> balance.balance_microunits + delta >= balance.held_microunits,
        posting_fault(account, balance, delta) is Some && posting_fault(
            account,
            balance,
            delta,
        )->0 is InsufficientFunds ==> account.enforce_balance && delta < 0
            && balance.balance_microunits + delta < balance.held_microunits,
        !account.enforce_balance && i64::MIN < delta && fits_i64(balance.balance_microunits + delta)
            ==> posting_fault(account, balance, delta) is None,
        delta >= 0 && fits_i64(balance.balance_microunits + delta) ==> posting_fault(
            account,
            balance,
            delta,
        ) is None,
{
}

/// A transaction has two lines that cancel out: the customer's, by as much as was posted, and
/// the other side's; both are of the account and its currency, under one transaction.
pub proof fn law_transactions_have_two_sides(
    account: AccountRow,
    posting: Posting,
    ids: EntryIds,
    e: BalancedEntries,
)
    requires
        entries_of(account, posting, ids, e),
    ensures
        e.customer.amount_microunits == posting.customer_delta_microunits,
        e.customer.amount_microunits + e.counter.amount_microunits == 0,
        e.customer.ledger_account@ == "customer_balance"@,
        e.counter.ledger_account@ == posting.counter_account@,
        e.customer.billing_account_id == account.id && e.counter.billing_account_id == account.id,
        e.customer.currency == account.currency && e.counter.currency == account.currency,
        e.event.aggregate_id@ == e.transaction_id@,
        e.event.kind is LedgerPosted,
        e.event.kind->customer_delta_microunits == posting.customer_delta_microunits,
        e.event.kind->LedgerPosted_reference_id == posting.reference_id,
{
}

} // verus!
