//! Payments through Alipay: the checkout of an order and the trades that the
//! provider reports for it. Only a verified production trade credits money.
use crate::control::billing_projection::AccountBalance;
use crate::control::error::{conflict, invalid, refused, Fault, ServiceError, ServiceResult};
use crate::control::ledger::{
    balanced, entries_of, insert_balanced_entries, posting_fault, AccountRow, BalancedEntries,
    EntryIds, Posting,
};
use crate::crypto::{fingerprint, fingerprint_text};
use crate::domain::{fits_i64, BillingOrder, Payment, Timestamp, MICROS_PER_MINOR_UNIT};
use crate::text::{bytes_of, join, same};
use vstd::prelude::*;

verus! {

/// How a call of the payment provider failed.
#[derive(Clone, Copy, Debug, PartialEq, Eq, Structural)]
pub enum ProviderError {
    /// The request or the answer is malformed.
    Invalid,
    /// The signature of the answer does not verify.
    Signature,
    /// The provider refused the operation.
    Rejected,
    /// The outcome is not known.
    Unavailable,
}

pub open spec fn provider_fault(e: ProviderError) -> Fault {
    match e {
        ProviderError::Invalid | ProviderError::Signature => Fault::Invalid(
            "invalid or unverified payment provider evidence"@,
        ),
        ProviderError::Rejected => Fault::Conflict(
            "provider rejected the operation; query current state"@,
        ),
        ProviderError::Unavailable => Fault::Dependency(
            "payment outcome unknown; query before retrying"@,
        ),
    }
}

/// How a failure of the provider is shown.
pub fn provider_error(error: ProviderError) -> (r: ServiceError)
    ensures
        r@ == provider_fault(error),
{
    match error {
        ProviderError::Invalid | ProviderError::Signature => invalid(
            "invalid or unverified payment provider evidence",
        ),
        ProviderError::Rejected => conflict("provider rejected the operation; query current state"),
        ProviderError::Unavailable => ServiceError::Dependency(
            "payment outcome unknown; query before retrying".to_owned(),
        ),
    }
}

/// The merchant that the platform is to the provider.
#[derive(Clone, Debug)]
pub struct Merchant {
    pub profile: String,
    pub environment: String,
}

impl Merchant {
    pub open spec fn live(self) -> bool {
        self.environment@ == "production"@
    }

    pub(crate) fn is_live(&self) -> (r: bool)
        ensures
            r == self.live(),
    {
        same(self.environment.as_str(), "production")
    }
}

/// The checkout of an order. It is bound to one merchant for good.
#[derive(Clone, Debug)]
pub struct Checkout {
    pub order_id: String,
    pub profile: String,
    pub environment: String,
    pub state: String,
    pub qr_code: Option<String>,
    pub created_at: Timestamp,
    pub updated_at: Timestamp,
}

/// What is to be done for a checkout.
pub enum CheckoutStep {
    /// The code is known; nothing more is to be done.
    Known(Checkout),
    /// Write this checkout, commit, and ask the provider for a code.
    Created(Checkout),
    /// The checkout is there; ask the provider for a code.
    Resumed(Checkout),
}

pub open spec fn checkout_fault(
    order: Option<BillingOrder>,
    format: Result<(), ProviderError>,
    prior: Option<Checkout>,
    merchant: Merchant,
) -> Option<Fault> {
    if order is None {
        Some(Fault::NotFound)
    } else if order->0.status@ != "pending"@ || order->0.amount.currency@ != "CNY"@ {
        Some(Fault::Conflict("checkout requires a pending CNY order"@))
    } else if format is Err {
        Some(provider_fault(format->Err_0))
    } else if prior is Some && prior->0.profile@ != merchant.profile@ {
        Some(Fault::Conflict("order bound to another payment merchant/environment"@))
    } else {
        None
    }
}

/// Begins the checkout of a pending order, under the lock of the order. No
/// lock is held while the provider is asked for a code. `format` is the
/// provider's verdict on the amount of the order.
pub fn alipay_checkout(
    order: Option<&BillingOrder>,
    format: Result<(), ProviderError>,
    prior: Option<Checkout>,
    merchant: &Merchant,
    now: Timestamp,
) -> (r: ServiceResult<CheckoutStep>)
    ensures
        refused(
            r,
            checkout_fault(
                match order {
                    Some(o) => Some(*o),
                    None => None,
                },
                format,
                prior,
                *merchant,
            ),
        ),
        r matches Ok(step) ==> match step {
            CheckoutStep::Known(c) => prior == Some(c) && c.qr_code is Some,
            CheckoutStep::Resumed(c) => prior == Some(c) && c.qr_code is None,
            CheckoutStep::Created(c) => prior is None && c.order_id == order->0.id && c.profile
                == merchant.profile && c.environment == merchant.environment && c.state@
                == "creating"@ && c.qr_code is None && c.created_at == now && c.updated_at == now,
        },
{
    let order = match order {
        Some(order) => order,
        None => return Err(ServiceError::NotFound),
    };
    if !same(order.status.as_str(), "pending") || !same(order.amount.currency.as_str(), "CNY") {
        return Err(conflict("checkout requires a pending CNY order"));
    }
    if let Err(e) = format {
        return Err(provider_error(e));
    }
    match prior {
        Some(prior) => {
            if !same(prior.profile.as_str(), merchant.profile.as_str()) {
                return Err(conflict("order bound to another payment merchant/environment"));
            }
            if prior.qr_code.is_some() {
                Ok(CheckoutStep::Known(prior))
            } else {
                Ok(CheckoutStep::Resumed(prior))
            }
        },
        None => Ok(
            CheckoutStep::Created(
                Checkout {
                    order_id: order.id.clone(),
                    profile: merchant.profile.clone(),
                    environment: merchant.environment.clone(),
                    state: "creating".to_owned(),
                    qr_code: None,
                    created_at: now,
                    updated_at: now,
                },
            ),
        ),
    }
}

/// Keeps the code that the provider gave. A checkout that was paid or closed
/// in the meantime stays so.
pub fn checkout_created(
    order_found: bool,
    row: Option<Checkout>,
    code: Result<String, ProviderError>,
    now: Timestamp,
) -> (r: ServiceResult<Checkout>)
    ensures
        refused(
            r,
            if code is Err {
                Some(provider_fault(code->Err_0))
            } else if !order_found || row is None {
                Some(Fault::NotFound)
            } else {
                None
            },
        ),
        r matches Ok(c) ==> {
            &&& c.state@ == if row->0.state@ == "creating"@ {
                "pending"@
            } else {
                row->0.state@
            }
            &&& c == (Checkout {
                state: c.state,
                qr_code: Some(code->Ok_0),
                updated_at: now,
                ..row->0
            })
        },
{
    let code = match code {
        Ok(code) => code,
        Err(e) => return Err(provider_error(e)),
    };
    if !order_found {
        return Err(ServiceError::NotFound);
    }
    match row {
        None => Err(ServiceError::NotFound),
        Some(row) => {
            let state = if same(row.state.as_str(), "creating") {
                "pending".to_owned()
            } else {
                row.state.clone()
            };
            Ok(Checkout { state, qr_code: Some(code), updated_at: now, ..row })
        },
    }
}

/// A trade whose signature was verified.
#[derive(Clone, Debug)]
pub struct VerifiedTrade {
    pub order_id: String,
    pub trade_id: String,
    pub state: String,
    pub amount_minor: i64,
    pub paid: bool,
    pub proof_sha256: String,
    /// The verified answer itself.
    pub evidence: serde_json::Value,
}

/// What is kept of a verified answer of the provider, with the answer itself.
#[derive(Clone, Debug)]
pub struct Receipt {
    pub id: String,
    pub order_id: String,
    pub profile: String,
    pub trade_id: String,
    pub state: String,
    pub amount_minor: i64,
    pub proof_sha256: String,
    pub evidence: serde_json::Value,
    pub created_at: Timestamp,
}

pub open spec fn receipt_text(
    profile: Seq<char>,
    order_id: Seq<char>,
    proof: Seq<char>,
) -> Seq<char> {
    fingerprint_text(bytes_of(profile + ":"@ + order_id + ":"@ + proof))
}

/// The identity of a receipt: the same proof for the same order and merchant
/// is the same receipt.
pub fn receipt_id(profile: &str, order_id: &str, proof: &str) -> (r: String)
    ensures
        r@ == receipt_text(profile@, order_id@, proof@),
{
    let mut text = profile.to_owned();
    text.append(":");
    text.append(order_id);
    text.append(":");
    text.append(proof);
    fingerprint(text.as_str().as_bytes())
}

pub open spec fn payment_text(profile: Seq<char>, trade_id: Seq<char>) -> Seq<char> {
    "alipay-"@ + fingerprint_text(bytes_of(profile + ":"@ + trade_id))
}

/// The identity of the payment that a trade makes: one payment for one trade.
pub fn payment_id(profile: &str, trade_id: &str) -> (r: String)
    ensures
        r@ == payment_text(profile@, trade_id@),
{
    let mut text = profile.to_owned();
    text.append(":");
    text.append(trade_id);
    join("alipay-", fingerprint(text.as_str().as_bytes()).as_str())
}

/// What the provider is told of its trade.
#[derive(Clone, Debug)]
pub enum TradeVerdict {
    /// The trade was seen in a sandbox, which never credits.
    Sandbox,
    /// The trade was seen and is not paid.
    Observed,
    /// The trade had been credited before.
    Duplicate { payment_id: String },
    /// The trade was credited now.
    Credited { payment_id: String },
}

/// What a trade writes.
pub struct AcceptedTrade {
    pub verdict: TradeVerdict,
    pub receipt: Option<Receipt>,
    pub checkout: Option<Checkout>,
    pub payment: Option<Payment>,
    pub order: Option<BillingOrder>,
    pub entries: Option<BalancedEntries>,
}

/// The rows that a trade is held against. `receipt_known` speaks of the
/// receipt of `receipt_id`, `existing` is the payment of `payment_id`.
pub struct TradeFacts {
    pub order: Option<BillingOrder>,
    pub checkout: Option<Checkout>,
    pub receipt_known: bool,
    pub existing: Option<Payment>,
    pub account: Option<AccountRow>,
}

/// The trade is the one that the checkout of the order was bound to.
pub open spec fn trade_matches(
    merchant: Merchant,
    trade: VerifiedTrade,
    order: BillingOrder,
    checkout: Checkout,
) -> bool {
    &&& checkout.profile@ == merchant.profile@
    &&& checkout.environment@ == merchant.environment@
    &&& order.amount.currency@ == "CNY"@
    &&& order.amount.amount == trade.amount_minor
}

/// The trade is to be credited, if it was not before.
pub open spec fn creditable(merchant: Merchant, trade: VerifiedTrade) -> bool {
    merchant.live() && trade.paid
}

/// The trade is credited now.
pub open spec fn fresh_credit(merchant: Merchant, trade: VerifiedTrade, facts: TradeFacts) -> bool {
    creditable(merchant, trade) && facts.existing is None
}

pub open spec fn trade_fault(
    merchant: Merchant,
    trade: VerifiedTrade,
    facts: TradeFacts,
    balance: AccountBalance,
) -> Option<Fault> {
    if facts.order is None {
        Some(Fault::NotFound)
    } else if facts.checkout is None {
        Some(Fault::Conflict("no checkout was initiated for this order"@))
    } else if !trade_matches(merchant, trade, facts.order->0, facts.checkout->0) {
        Some(
            Fault::Conflict("verified trade does not match bound checkout amount or merchant"@),
        )
    } else if !creditable(merchant, trade) {
        None
    } else if facts.existing is Some {
        if facts.existing->0.order_id@ == facts.order->0.id@ && facts.existing->0.amount.amount
            == facts.order->0.amount.amount && facts.existing->0.status@ == "succeeded"@ {
            None
        } else {
            Some(Fault::Conflict("provider trade already belongs to another payment"@))
        }
    } else if facts.order->0.status@ != "pending"@ {
        Some(Fault::Conflict("order already paid with different evidence"@))
    } else if facts.account is None {
        Some(Fault::NotFound)
    } else if !fits_i64(facts.order->0.amount.amount * MICROS_PER_MINOR_UNIT) {
        Some(Fault::Invalid("credit overflow"@))
    } else {
        posting_fault(
            facts.account->0,
            balance,
            facts.order->0.amount.amount * MICROS_PER_MINOR_UNIT,
        )
    }
}

pub open spec fn receipt_of(
    merchant: Merchant,
    trade: VerifiedTrade,
    order: BillingOrder,
    now: Timestamp,
    receipt: Receipt,
) -> bool {
    &&& receipt.id@ == receipt_text(merchant.profile@, order.id@, trade.proof_sha256@)
    &&& receipt.order_id == order.id
    &&& receipt.profile == merchant.profile
    &&& receipt.trade_id == trade.trade_id
    &&& receipt.state == trade.state
    &&& receipt.amount_minor == trade.amount_minor
    &&& receipt.proof_sha256 == trade.proof_sha256
    &&& receipt.evidence == trade.evidence
    &&& receipt.created_at == now
}

pub open spec fn credit_posting(order: BillingOrder, id: Seq<char>, p: Posting) -> bool {
    &&& p.tenant_id == order.tenant_id
    &&& p.kind@ == "top_up"@
    &&& p.reference_type@ == "payment"@
    &&& p.reference_id@ == id
    &&& p.idempotency_key@ == "alipay:"@ + id
    &&& p.description@ == "Verified Alipay credit"@
    &&& p.customer_delta_microunits == order.amount.amount * MICROS_PER_MINOR_UNIT
    &&& p.counter_account@ == "cash_clearing"@
}

pub open spec fn credit_payment(
    order: BillingOrder,
    trade: VerifiedTrade,
    id: Seq<char>,
    now: Timestamp,
    p: Payment,
) -> bool {
    &&& p.id@ == id
    &&& p.order_id == order.id
    &&& p.provider@ == "alipay"@
    &&& p.provider_reference == trade.trade_id
    &&& p.amount.amount == order.amount.amount
    &&& p.amount.currency@ == "CNY"@
    &&& p.status@ == "succeeded"@
    &&& p.paid_at == Some(now)
    &&& p.created_at == now
}

/// Accepts a verified trade, under the lock of its order. The receipt is kept
/// in any case; late notices never take a paid order back, and a trade is
/// credited once.
pub fn accept_alipay_trade(
    merchant: &Merchant,
    trade: &VerifiedTrade,
    facts: TradeFacts,
    balance: &mut AccountBalance,
    ids: &EntryIds,
    now: Timestamp,
) -> (r: ServiceResult<AcceptedTrade>)
    ensures
        refused(r, trade_fault(*merchant, *trade, facts, *old(balance))),
        r is Err ==> *final(balance) == *old(balance),
        r matches Ok(a) ==> {
            let id = payment_text(merchant.profile@, trade.trade_id@);
            let order = facts.order->0;
            let fresh = fresh_credit(*merchant, *trade, facts);
            &&& a.receipt is None <==> facts.receipt_known
            &&& a.receipt matches Some(receipt) ==> receipt_of(
                *merchant,
                *trade,
                order,
                now,
                receipt,
            )
            &&& match a.verdict {
                TradeVerdict::Sandbox => !merchant.live(),
                TradeVerdict::Observed => merchant.live() && !trade.paid,
                TradeVerdict::Duplicate { payment_id: p } => creditable(*merchant, *trade)
                    && facts.existing is Some && p@ == id,
                TradeVerdict::Credited { payment_id: p } => fresh && p@ == id,
            }
            &&& !fresh ==> *final(balance) == *old(balance) && a.payment is None && a.order is None
                && a.entries is None
            &&& !fresh ==> (a.checkout is Some <==> merchant.live() && !trade.paid && trade.state@
                == "TRADE_CLOSED"@ && order.status@ == "pending"@)
            &&& a.checkout matches Some(c) ==> c.state@ == if fresh {
                "paid"@
            } else {
                "closed"@
            } && c == (Checkout { state: c.state, updated_at: now, ..facts.checkout->0 })
            &&& fresh ==> {
                &&& a.checkout is Some
                &&& a.payment matches Some(p) && credit_payment(order, *trade, id, now, p)
                &&& a.order matches Some(o) && o.status@ == "paid"@ && o == (BillingOrder {
                    status: o.status,
                    updated_at: now,
                    ..order
                })
                &&& a.entries matches Some(e) && balanced(e) && entries_of(
                    facts.account->0,
                    e.posting,
                    *ids,
                    e,
                ) && credit_posting(order, id, e.posting) && e.created_at == now
                &&& *final(balance) == (AccountBalance {
                    balance_microunits: (old(balance).balance_microunits + order.amount.amount
                        * MICROS_PER_MINOR_UNIT) as i64,
                    updated_at: now,
                    ..*old(balance)
                })
            }
        },
{
    let order = match facts.order {
        Some(order) => order,
        None => return Err(ServiceError::NotFound),
    };
    let checkout = match facts.checkout {
        Some(checkout) => checkout,
        None => return Err(conflict("no checkout was initiated for this order")),
    };
    if !same(checkout.profile.as_str(), merchant.profile.as_str()) || !same(
        checkout.environment.as_str(),
        merchant.environment.as_str(),
    ) || !same(order.amount.currency.as_str(), "CNY") || order.amount.amount != trade.amount_minor {
        return Err(conflict("verified trade does not match bound checkout amount or merchant"));
    }
    let receipt = if facts.receipt_known {
        None
    } else {
        Some(
            Receipt {
                id: receipt_id(
                    merchant.profile.as_str(),
                    order.id.as_str(),
                    trade.proof_sha256.as_str(),
                ),
                order_id: order.id.clone(),
                profile: merchant.profile.clone(),
                trade_id: trade.trade_id.clone(),
                state: trade.state.clone(),
                amount_minor: trade.amount_minor,
                proof_sha256: trade.proof_sha256.clone(),
                evidence: trade.evidence.clone(),
                created_at: now,
            },
        )
    };
    if !merchant.is_live() {
        return Ok(
            AcceptedTrade {
                verdict: TradeVerdict::Sandbox,
                receipt,
                checkout: None,
                payment: None,
                order: None,
                entries: None,
            },
        );
    }
    let id = payment_id(merchant.profile.as_str(), trade.trade_id.as_str());
    if !trade.paid {
        let closing = same(trade.state.as_str(), "TRADE_CLOSED") && same(
            order.status.as_str(),
            "pending",
        );
        let closed = if closing {
            Some(Checkout { state: "closed".to_owned(), updated_at: now, ..checkout })
        } else {
            None
        };
        return Ok(
            AcceptedTrade {
                verdict: TradeVerdict::Observed,
                receipt,
                checkout: closed,
                payment: None,
                order: None,
                entries: None,
            },
        );
    }
    if let Some(existing) = facts.existing {
        if !same(existing.order_id.as_str(), order.id.as_str()) || existing.amount.amount
            != order.amount.amount || !same(existing.status.as_str(), "succeeded") {
            return Err(conflict("provider trade already belongs to another payment"));
        }
        return Ok(
            AcceptedTrade {
                verdict: TradeVerdict::Duplicate { payment_id: id },
                receipt,
                checkout: None,
                payment: None,
                order: None,
                entries: None,
            },
        );
    }
    if !same(order.status.as_str(), "pending") {
        return Err(conflict("order already paid with different evidence"));
    }
    let account = match facts.account {
        Some(account) => account,
        None => return Err(ServiceError::NotFound),
    };
    let amount = match order.amount.amount.checked_mul(MICROS_PER_MINOR_UNIT) {
        Some(amount) => amount,
        None => return Err(invalid("credit overflow")),
    };
    let posting = Posting {
        tenant_id: order.tenant_id.clone(),
        kind: "top_up".to_owned(),
        reference_type: "payment".to_owned(),
        reference_id: id.clone(),
        idempotency_key: join("alipay:", id.as_str()),
        description: "Verified Alipay credit".to_owned(),
        customer_delta_microunits: amount,
        counter_account: "cash_clearing".to_owned(),
    };
    let entries = insert_balanced_entries(&account, balance, posting, ids, now)?;
    let payment = Payment {
        id: id.clone(),
        order_id: order.id.clone(),
        provider: "alipay".to_owned(),
        provider_reference: trade.trade_id.clone(),
        amount: order.amount.copy(),
        status: "succeeded".to_owned(),
        paid_at: Some(now),
        created_at: now,
    };
    Ok(
        AcceptedTrade {
            verdict: TradeVerdict::Credited { payment_id: id },
            receipt,
            checkout: Some(Checkout { state: "paid".to_owned(), updated_at: now, ..checkout }),
            payment: Some(payment),
            order: Some(BillingOrder { status: "paid".to_owned(), updated_at: now, ..order }),
            entries: Some(entries),
        },
    )
}

/// A trade is credited once: when it is reported again, its payment is found and
/// nothing moves.
pub proof fn law_a_trade_is_credited_once(
    merchant: Merchant,
    trade: VerifiedTrade,
    order: BillingOrder,
    paid_at: Timestamp,
    payment: Payment,
    again: TradeFacts,
    balance: AccountBalance,
)
    requires
        credit_payment(
            order,
            trade,
            payment_text(merchant.profile@, trade.trade_id@),
            paid_at,
            payment,
        ),
        again.existing == Some(payment),
        again.order matches Some(now) && now.id == order.id && now.amount == order.amount,
        again.checkout matches Some(checkout) && trade_matches(
            merchant,
            trade,
            again.order->0,
            checkout,
        ),
    ensures
        trade_fault(merchant, trade, again, balance) is None,
        !fresh_credit(merchant, trade, again),
{
}

/// What a sandbox reports, or what is not paid, never becomes money.
pub proof fn law_only_live_paid_trades_are_credited(
    merchant: Merchant,
    trade: VerifiedTrade,
    facts: TradeFacts,
)
    ensures
        fresh_credit(merchant, trade, facts) ==> merchant.environment@ == "production"@
            && trade.paid,
{
}

/// A trade is taken only for the merchant, the environment and the amount of its checkout, in
/// the supported currency.
pub proof fn law_trades_match_their_checkout(
    merchant: Merchant,
    trade: VerifiedTrade,
    facts: TradeFacts,
    balance: AccountBalance,
)
    requires
        trade_fault(merchant, trade, facts, balance) is None,
    ensures
        facts.order is Some,
        facts.checkout is Some,
        facts.checkout->0.profile@ == merchant.profile@,
        facts.checkout->0.environment@ == merchant.environment@,
        facts.order->0.amount.amount == trade.amount_minor,
        facts.order->0.amount.currency@ == "CNY"@,
        merchant.environment@ == "production"@ && trade.paid && facts.existing is None
            ==> facts.order->0.status@ == "pending"@ && facts.account is Some,
        merchant.environment@ == "production"@ && trade.paid && facts.existing is Some
            ==> facts.existing->0.order_id@ == facts.order->0.id@ && facts.existing->0.amount.amount
            == facts.order->0.amount.amount && facts.existing->0.status@ == "succeeded"@,
{
}

/// A live trade that was paid for a pending order is credited, as long as the balance can be
/// counted: with the amount of the order, against the clearing account, under the trade.
pub proof fn law_paid_trades_are_credited(
    merchant: Merchant,
    trade: VerifiedTrade,
    facts: TradeFacts,
    balance: AccountBalance,
    posting: Posting,
    payment: Payment,
    id: Seq<char>,
    now: Timestamp,
)
    requires
        facts.order is Some && facts.checkout is Some && facts.account is Some,
        facts.existing is None,
        merchant.environment@ == "production"@,
        trade.paid,
        facts.order->0.status@ == "pending"@,
        facts.order->0.amount.currency@ == "CNY"@,
        facts.order->0.amount.amount == trade.amount_minor,
        facts.checkout->0.profile@ == merchant.profile@,
        facts.checkout->0.environment@ == merchant.environment@,
        0 < facts.order->0.amount.amount * 1_000_000 <= i64::MAX,
        balance.balance_microunits + facts.order->0.amount.amount * 1_000_000 <= i64::MAX,
        credit_posting(facts.order->0, id, posting),
        credit_payment(facts.order->0, trade, id, now, payment),
    ensures
        trade_fault(merchant, trade, facts, balance) is None,
        fresh_credit(merchant, trade, facts),
        posting.customer_delta_microunits == trade.amount_minor * 1_000_000,
        posting.counter_account@ == "cash_clearing"@,
        payment.amount.amount == trade.amount_minor,
        payment.provider_reference@ == trade.trade_id@,
        payment.status@ == "succeeded"@,
{
}

/// A checkout is opened for a pending order in the supported currency, and stays with the
/// merchant that it was opened with.
pub proof fn law_checkouts_stay_with_their_merchant(
    order: Option<BillingOrder>,
    format: Result<(), ProviderError>,
    prior: Option<Checkout>,
    merchant: Merchant,
)
    ensures
        checkout_fault(order, format, prior, merchant) is None <==> order is Some
            && order->0.status@ == "pending"@ && order->0.amount.currency@ == "CNY"@ && format is Ok
            && (prior is None || prior->0.profile@ == merchant.profile@),
{
}

/// What the provider refused, or answered without proof, is an error of the request; only an
/// outcome that is not known asks for another query.
pub proof fn law_unknown_outcomes_are_queried_again(e: ProviderError)
    ensures
        provider_fault(e) is Dependency <==> e is Unavailable,
        provider_fault(e) is Conflict <==> e is Rejected,
        provider_fault(e) is Invalid <==> e is Invalid || e is Signature,
{
}

} // verus!
