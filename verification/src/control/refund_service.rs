//! Refunds through Alipay. The debit is durable before any money moves
//! outside, and it stands until the provider proves the refund.
use crate::control::billing_projection::AccountBalance;
use crate::control::error::{
    conflict, invalid, out_of_funds, refused, Fault, ServiceError, ServiceResult,
};
use crate::control::ledger::{
    balanced, entries_of, insert_balanced_entries, posting_fault, AccountRow, BalancedEntries,
    EntryIds, EntryLine, EventDraft, EventKind, Posting,
};
use crate::control::payment_service::{
    provider_error, provider_fault, Checkout, Merchant, ProviderError, Receipt,
};
use crate::control::repository::same_refund;
use crate::crypto::{fingerprint, fingerprint_text};
use crate::domain::{
    fits_i64, BillingOrder, CreateRefundRequest, Payment, Refund, Timestamp, MICROS_PER_MINOR_UNIT,
};
use crate::json::{document_bytes, encode, json_of};
use crate::text::{blank, byte_len, bytes_of, is_blank, is_made_of, join, made_of, same};
use vstd::prelude::*;

verus! {

/// Letters, digits, hyphens and underscores, 1 to 64 of them.
pub open spec fn refund_name(s: Seq<char>) -> bool {
    1 <= bytes_of(s).len() <= 64 && made_of(s, seq![0x2du8, 0x5fu8])
}

pub open spec fn refund_sound(q: CreateRefundRequest) -> bool {
    &&& refund_name(q.id@)
    &&& !blank(q.reason@)
    &&& bytes_of(q.reason@).len() <= 256
    &&& q.amount.currency@ == "CNY"@
}

/// The rows that a refund is held against.
pub struct RefundFacts {
    pub payment: Option<Payment>,
    pub order: Option<BillingOrder>,
    pub checkout: Option<Checkout>,
    pub prior: Option<Refund>,
    /// What pending and succeeded refunds of the payment add up to.
    pub prior_total: i64,
    pub account: Option<AccountRow>,
}

/// The payment was captured in production by the merchant that refunds it.
pub open spec fn refundable(payment: Payment, checkout: Checkout, merchant: Merchant) -> bool {
    &&& payment.provider@ == "alipay"@
    &&& payment.status@ == "succeeded"@
    &&& payment.amount.currency@ == "CNY"@
    &&& checkout.profile@ == merchant.profile@
    &&& checkout.environment@ == "production"@
    &&& merchant.live()
}

pub open spec fn prepare_fault(
    q: CreateRefundRequest,
    format: Result<(), ProviderError>,
    merchant: Merchant,
    facts: RefundFacts,
    balance: AccountBalance,
) -> Option<Fault> {
    let debit = q.amount.amount * MICROS_PER_MINOR_UNIT;
    if !refund_sound(q) {
        Some(Fault::Invalid("invalid refund ID, reason or currency"@))
    } else if format is Err {
        Some(provider_fault(format->Err_0))
    } else if facts.payment is None || facts.order is None || facts.checkout is None {
        Some(Fault::NotFound)
    } else if !refundable(facts.payment->0, facts.checkout->0, merchant) {
        Some(
            Fault::Conflict(
                "refund requires captured production Alipay payment and matching merchant"@,
            ),
        )
    } else if facts.prior is Some {
        if facts.prior->0.payment_id@ == facts.payment->0.id@ && same_refund(
            facts.prior->0,
            CreateRefundRequest { payment_id: facts.prior->0.payment_id, ..q },
        ) {
            None
        } else {
            Some(Fault::Conflict("refund ID already bound to another request"@))
        }
    } else if facts.prior_total + q.amount.amount > facts.payment->0.amount.amount
        || facts.prior_total + q.amount.amount < i64::MIN {
        Some(Fault::Conflict("refund total exceeds captured amount"@))
    } else if facts.account is None {
        Some(Fault::NotFound)
    } else if !fits_i64(debit) {
        Some(Fault::Invalid("refund overflow"@))
    } else if !fits_i64(balance.balance_microunits - balance.held_microunits)
        || balance.balance_microunits - balance.held_microunits < debit {
        Some(Fault::InsufficientFunds("refund would consume spent or reserved balance"@))
    } else {
        posting_fault(facts.account->0, balance, -debit)
    }
}

pub open spec fn refund_posting(order: BillingOrder, q: CreateRefundRequest, p: Posting) -> bool {
    &&& p.tenant_id == order.tenant_id
    &&& p.kind@ == "refund_pending"@
    &&& p.reference_type@ == "refund"@
    &&& p.reference_id == q.id
    &&& p.idempotency_key@ == "refund-hold:"@ + q.id@
    &&& p.description@ == "Alipay refund funds pending provider evidence"@
    &&& p.customer_delta_microunits == -(q.amount.amount * MICROS_PER_MINOR_UNIT)
    &&& p.counter_account@ == "refund_pending"@
}

/// A prepared refund. Without entries nothing was written: the call repeated
/// one that had been made before.
pub struct PreparedRefund {
    pub refund: Refund,
    pub entries: Option<BalancedEntries>,
}

/// Takes the money of a refund out of the balance, before any money moves
/// outside. A refund never uses a credit allowance, also where inference does.
/// `format` is the provider's verdict on the amount.
pub fn prepare_alipay_refund(
    request: CreateRefundRequest,
    format: Result<(), ProviderError>,
    merchant: &Merchant,
    facts: RefundFacts,
    balance: &mut AccountBalance,
    ids: &EntryIds,
    now: Timestamp,
) -> (r: ServiceResult<PreparedRefund>)
    ensures
        refused(r, prepare_fault(request, format, *merchant, facts, *old(balance))),
        r is Err || facts.prior is Some ==> *final(balance) == *old(balance),
        r matches Ok(p) ==> facts.prior is Some ==> p.refund == facts.prior->0 && p.entries is None,
        r matches Ok(p) ==> facts.prior is None ==> {
            &&& p.refund.id == request.id
            &&& p.refund.payment_id == facts.payment->0.id
            &&& p.refund.amount == request.amount
            &&& p.refund.reason == request.reason
            &&& p.refund.status@ == "pending"@
            &&& p.refund.provider_reference is None
            &&& p.refund.created_at == now
            &&& p.refund.completed_at is None
            &&& p.entries matches Some(e) && balanced(e) && entries_of(
                facts.account->0,
                e.posting,
                *ids,
                e,
            ) && refund_posting(facts.order->0, request, e.posting) && e.created_at == now
            &&& *final(balance) == (AccountBalance {
                balance_microunits: (old(balance).balance_microunits - request.amount.amount
                    * MICROS_PER_MINOR_UNIT) as i64,
                updated_at: now,
                ..*old(balance)
            })
        },
{
    if byte_len(request.id.as_str()) < 1 || byte_len(request.id.as_str()) > 64 || !is_made_of(
        request.id.as_str(),
        &[0x2d, 0x5f],
    ) || is_blank(request.reason.as_str()) || byte_len(request.reason.as_str()) > 256 || !same(
        request.amount.currency.as_str(),
        "CNY",
    ) {
        return Err(invalid("invalid refund ID, reason or currency"));
    }
    if let Err(e) = format {
        return Err(provider_error(e));
    }
    let (payment, order, checkout) = match (facts.payment, facts.order, facts.checkout) {
        (Some(payment), Some(order), Some(checkout)) => (payment, order, checkout),
        _ => return Err(ServiceError::NotFound),
    };
    if !same(payment.provider.as_str(), "alipay") || !same(payment.status.as_str(), "succeeded")
        || !same(payment.amount.currency.as_str(), "CNY") || !same(
        checkout.profile.as_str(),
        merchant.profile.as_str(),
    ) || !same(checkout.environment.as_str(), "production") || !merchant.is_live() {
        return Err(
            conflict("refund requires captured production Alipay payment and matching merchant"),
        );
    }
    if let Some(prior) = facts.prior {
        if !same(prior.payment_id.as_str(), payment.id.as_str()) || prior.amount.amount
            != request.amount.amount || !same(
            prior.amount.currency.as_str(),
            request.amount.currency.as_str(),
        ) || !same(prior.reason.as_str(), request.reason.as_str()) {
            return Err(conflict("refund ID already bound to another request"));
        }
        return Ok(PreparedRefund { refund: prior, entries: None });
    }
    let within = match facts.prior_total.checked_add(request.amount.amount) {
        Some(total) => total <= payment.amount.amount,
        None => false,
    };
    if !within {
        return Err(conflict("refund total exceeds captured amount"));
    }
    let account = match facts.account {
        Some(account) => account,
        None => return Err(ServiceError::NotFound),
    };
    let debit = match request.amount.amount.checked_mul(MICROS_PER_MINOR_UNIT) {
        Some(debit) => debit,
        None => return Err(invalid("refund overflow")),
    };
    let covered = match balance.balance_microunits.checked_sub(balance.held_microunits) {
        Some(available) => available >= debit,
        None => false,
    };
    if !covered {
        return Err(out_of_funds("refund would consume spent or reserved balance"));
    }
    let posting = Posting {
        tenant_id: order.tenant_id.clone(),
        kind: "refund_pending".to_owned(),
        reference_type: "refund".to_owned(),
        reference_id: request.id.clone(),
        idempotency_key: join("refund-hold:", request.id.as_str()),
        description: "Alipay refund funds pending provider evidence".to_owned(),
        customer_delta_microunits: -debit,
        counter_account: "refund_pending".to_owned(),
    };
    let entries = insert_balanced_entries(&account, balance, posting, ids, now)?;
    Ok(
        PreparedRefund {
            refund: Refund {
                id: request.id,
                payment_id: payment.id,
                amount: request.amount,
                reason: request.reason,
                status: "pending".to_owned(),
                provider_reference: None,
                created_at: now,
                completed_at: None,
            },
            entries: Some(entries),
        },
    )
}

/// What is to be done for a pending refund.
#[derive(Clone, Copy, Debug, PartialEq, Eq, Structural)]
pub enum RefundStep {
    /// The refund is done; nothing more is to be done.
    Succeeded,
    /// Submit it to the provider, under the identity that it has, and say that
    /// it is pending. An outcome that is not known leaves the debit as it is.
    Submit,
    /// Ask the provider for proof, then complete the refund.
    Query,
}

pub open spec fn operation_fault(
    refund: Option<Refund>,
    payment: Option<Payment>,
    checkout: Option<Checkout>,
    merchant: Merchant,
) -> Option<Fault> {
    if refund is None || payment is None || checkout is None {
        Some(Fault::NotFound)
    } else if payment->0.provider@ != "alipay"@ || !merchant.live() || checkout->0.profile@
        != merchant.profile@ {
        Some(Fault::Conflict("refund merchant mismatch"@))
    } else if refund->0.status@ != "succeeded"@ && refund->0.status@ != "pending"@ {
        Some(Fault::Conflict("refund is not pending"@))
    } else {
        None
    }
}

/// Decides how a refund goes on.
pub fn alipay_refund_operation(
    refund: &Option<Refund>,
    payment: &Option<Payment>,
    checkout: &Option<Checkout>,
    merchant: &Merchant,
    submit: bool,
) -> (r: ServiceResult<RefundStep>)
    ensures
        refused(r, operation_fault(*refund, *payment, *checkout, *merchant)),
        r matches Ok(step) ==> step == if refund->0.status@ == "succeeded"@ {
            RefundStep::Succeeded
        } else if submit {
            RefundStep::Submit
        } else {
            RefundStep::Query
        },
{
    match (refund, payment, checkout) {
        (Some(refund), Some(payment), Some(checkout)) => {
            if !same(payment.provider.as_str(), "alipay") || !merchant.is_live() || !same(
                checkout.profile.as_str(),
                merchant.profile.as_str(),
            ) {
                return Err(conflict("refund merchant mismatch"));
            }
            if same(refund.status.as_str(), "succeeded") {
                return Ok(RefundStep::Succeeded);
            }
            if !same(refund.status.as_str(), "pending") {
                return Err(conflict("refund is not pending"));
            }
            if submit {
                Ok(RefundStep::Submit)
            } else {
                Ok(RefundStep::Query)
            }
        },
        _ => Err(ServiceError::NotFound),
    }
}

/// A refund whose signature was verified.
#[derive(Clone, Debug)]
pub struct VerifiedRefund {
    pub request_id: String,
    pub order_id: String,
    pub trade_id: String,
    pub amount_minor: i64,
    /// The verified answer itself.
    pub evidence: serde_json::Value,
}

/// The fingerprint of the answer that proves a refund.
pub open spec fn proof_hash(proof: VerifiedRefund) -> Seq<char> {
    fingerprint_text(document_bytes(json_of(proof.evidence))->0)
}

/// The transaction that clears a proved refund: the pending account against
/// cash. The customer is not touched again.
pub struct RefundClearing {
    pub transaction_id: String,
    pub tenant_id: String,
    pub kind: String,
    pub reference_type: String,
    pub reference_id: String,
    pub idempotency_key: String,
    pub currency: String,
    pub description: String,
    pub pending: EntryLine,
    pub cash: EntryLine,
    pub event: EventDraft,
    pub created_at: Timestamp,
}

/// A completed refund. Without a clearing nothing was written: the refund had
/// been completed before.
pub struct CompletedRefund {
    pub refund: Refund,
    pub receipt: Option<Receipt>,
    pub clearing: Option<RefundClearing>,
}

/// The proof is one of this refund.
pub open spec fn proof_matches(
    merchant: Merchant,
    proof: VerifiedRefund,
    refund: Refund,
    payment: Payment,
    order: BillingOrder,
    checkout: Checkout,
) -> bool {
    &&& merchant.live()
    &&& checkout.environment@ == "production"@
    &&& refund.amount.amount == proof.amount_minor
    &&& payment.provider_reference@ == proof.trade_id@
    &&& order.id@ == proof.order_id@
    &&& checkout.profile@ == merchant.profile@
    &&& payment.provider@ == "alipay"@
}

/// The rows that a proof is held against.
pub struct CompletionFacts {
    pub refund: Option<Refund>,
    pub payment: Option<Payment>,
    pub order: Option<BillingOrder>,
    pub checkout: Option<Checkout>,
    pub account: Option<AccountRow>,
}

pub open spec fn completion_fault(
    merchant: Merchant,
    proof: VerifiedRefund,
    facts: CompletionFacts,
) -> Option<Fault> {
    if facts.refund is None || facts.payment is None || facts.order is None || facts.checkout
        is None {
        Some(Fault::NotFound)
    } else if !proof_matches(
        merchant,
        proof,
        facts.refund->0,
        facts.payment->0,
        facts.order->0,
        facts.checkout->0,
    ) {
        Some(Fault::Conflict("refund evidence does not match durable request"@))
    } else if facts.refund->0.status@ == "succeeded"@ {
        None
    } else if facts.refund->0.status@ != "pending"@ {
        Some(Fault::Conflict("refund no longer pending"@))
    } else if facts.account is None {
        Some(Fault::NotFound)
    } else if !fits_i64(facts.refund->0.amount.amount * MICROS_PER_MINOR_UNIT) {
        Some(Fault::Invalid("refund overflow"@))
    } else {
        None
    }
}

pub open spec fn clearing_of(
    refund: Refund,
    order: BillingOrder,
    account: AccountRow,
    ids: EntryIds,
    now: Timestamp,
    c: RefundClearing,
) -> bool {
    let amount = refund.amount.amount * MICROS_PER_MINOR_UNIT;
    &&& c.transaction_id@ == "txn-"@ + ids.transaction@
    &&& c.tenant_id == order.tenant_id
    &&& c.kind@ == "refund_settled"@
    &&& c.reference_type@ == "refund"@
    &&& c.reference_id == refund.id
    &&& c.idempotency_key@ == "refund-settle:"@ + refund.id@
    &&& c.currency == refund.amount.currency
    &&& c.description@ == "Verified Alipay refund clearing"@
    &&& c.pending.id@ == "entry-"@ + ids.customer@
    &&& c.pending.billing_account_id == account.id
    &&& c.pending.ledger_account@ == "refund_pending"@
    &&& c.pending.amount_microunits == -amount
    &&& c.pending.currency == refund.amount.currency
    &&& c.cash.id@ == "entry-"@ + ids.counter@
    &&& c.cash.billing_account_id == account.id
    &&& c.cash.ledger_account@ == "cash_clearing"@
    &&& c.cash.amount_microunits == amount
    &&& c.cash.currency == refund.amount.currency
    &&& c.event.aggregate_id@ == c.transaction_id@
    &&& c.event.kind matches EventKind::LedgerPosted {
        kind,
        reference_type,
        reference_id,
        customer_delta_microunits,
        currency,
    } && kind@ == "refund_settled"@ && reference_type@ == "refund"@ && reference_id == refund.id
        && customer_delta_microunits == 0 && currency@ == "CNY"@
    &&& c.created_at == now
}

/// Completes a proved refund, under its lock. The verified answer of the provider
/// is kept under its fingerprint.
pub fn complete_alipay_refund(
    merchant: &Merchant,
    proof: &VerifiedRefund,
    facts: CompletionFacts,
    ids: &EntryIds,
    now: Timestamp,
) -> (r: ServiceResult<CompletedRefund>)
    ensures
        refused(r, completion_fault(*merchant, *proof, facts)),
        r matches Ok(done) ==> facts.refund->0.status@ == "succeeded"@ ==> done.refund
            == facts.refund->0 && done.receipt is None && done.clearing is None,
        r matches Ok(done) ==> facts.refund->0.status@ != "succeeded"@ ==> {
            let refund = facts.refund->0;
            &&& done.refund.status@ == "succeeded"@
            &&& done.refund == (Refund {
                status: done.refund.status,
                provider_reference: Some(proof.trade_id),
                completed_at: Some(now),
                ..refund
            })
            &&& done.receipt matches Some(receipt) && receipt.id@ == "refund-"@ + proof_hash(
                *proof,
            ) && receipt.order_id == facts.order->0.id && receipt.profile == merchant.profile
                && receipt.trade_id == proof.trade_id && receipt.state@ == "REFUND_SUCCESS"@
                && receipt.amount_minor == refund.amount.amount && receipt.proof_sha256@
                == proof_hash(*proof) && receipt.evidence == proof.evidence && receipt.created_at
                == now
            &&& done.clearing matches Some(c) && clearing_of(
                refund,
                facts.order->0,
                facts.account->0,
                *ids,
                now,
                c,
            )
        },
{
    let (refund, payment, order, checkout) = match (
        facts.refund,
        facts.payment,
        facts.order,
        facts.checkout,
    ) {
        (Some(refund), Some(payment), Some(order), Some(checkout)) => (
            refund,
            payment,
            order,
            checkout,
        ),
        _ => return Err(ServiceError::NotFound),
    };
    if !merchant.is_live() || !same(checkout.environment.as_str(), "production")
        || refund.amount.amount != proof.amount_minor || !same(
        payment.provider_reference.as_str(),
        proof.trade_id.as_str(),
    ) || !same(order.id.as_str(), proof.order_id.as_str()) || !same(
        checkout.profile.as_str(),
        merchant.profile.as_str(),
    ) || !same(payment.provider.as_str(), "alipay") {
        return Err(conflict("refund evidence does not match durable request"));
    }
    if same(refund.status.as_str(), "succeeded") {
        return Ok(CompletedRefund { refund, receipt: None, clearing: None });
    }
    if !same(refund.status.as_str(), "pending") {
        return Err(conflict("refund no longer pending"));
    }
    let account = match facts.account {
        Some(account) => account,
        None => return Err(ServiceError::NotFound),
    };
    let amount = match refund.amount.amount.checked_mul(MICROS_PER_MINOR_UNIT) {
        Some(amount) => amount,
        None => return Err(invalid("refund overflow")),
    };
    let digest = fingerprint(encode(&proof.evidence).unwrap().as_slice());
    let receipt = Receipt {
        id: join("refund-", digest.as_str()),
        order_id: order.id.clone(),
        profile: merchant.profile.clone(),
        trade_id: proof.trade_id.clone(),
        state: "REFUND_SUCCESS".to_owned(),
        amount_minor: refund.amount.amount,
        proof_sha256: digest,
        evidence: proof.evidence.clone(),
        created_at: now,
    };
    let transaction_id = join("txn-", ids.transaction.as_str());
    let clearing = RefundClearing {
        transaction_id: transaction_id.clone(),
        tenant_id: order.tenant_id,
        kind: "refund_settled".to_owned(),
        reference_type: "refund".to_owned(),
        reference_id: refund.id.clone(),
        idempotency_key: join("refund-settle:", refund.id.as_str()),
        currency: refund.amount.currency.clone(),
        description: "Verified Alipay refund clearing".to_owned(),
        pending: EntryLine {
            id: join("entry-", ids.customer.as_str()),
            billing_account_id: account.id.clone(),
            ledger_account: "refund_pending".to_owned(),
            amount_microunits: -amount,
            currency: refund.amount.currency.clone(),
        },
        cash: EntryLine {
            id: join("entry-", ids.counter.as_str()),
            billing_account_id: account.id.clone(),
            ledger_account: "cash_clearing".to_owned(),
            amount_microunits: amount,
            currency: refund.amount.currency.clone(),
        },
        event: EventDraft {
            kind: EventKind::LedgerPosted {
                kind: "refund_settled".to_owned(),
                reference_type: "refund".to_owned(),
                reference_id: refund.id.clone(),
                customer_delta_microunits: 0,
                currency: "CNY".to_owned(),
            },
            aggregate_id: transaction_id,
        },
        created_at: now,
    };
    Ok(
        CompletedRefund {
            refund: Refund {
                status: "succeeded".to_owned(),
                provider_reference: Some(proof.trade_id.clone()),
                completed_at: Some(now),
                ..refund
            },
            receipt: Some(receipt),
            clearing: Some(clearing),
        },
    )
}

/// A refund is prepared only out of money that is neither spent nor held,
/// whatever credit the account has.
pub proof fn law_refunds_never_use_credit(
    q: CreateRefundRequest,
    format: Result<(), ProviderError>,
    merchant: Merchant,
    facts: RefundFacts,
    balance: AccountBalance,
)
    requires
        prepare_fault(q, format, merchant, facts, balance) is None,
        facts.prior is None,
    ensures
        q.amount.amount * MICROS_PER_MINOR_UNIT <= balance.balance_microunits
            - balance.held_microunits,
{
}

/// What preparing a refund put on the pending account, completing it takes off
/// again: between the two, the money has moved from the customer to cash.
pub proof fn law_completion_clears_what_was_prepared(
    q: CreateRefundRequest,
    order: BillingOrder,
    account: AccountRow,
    prepared: BalancedEntries,
    refund: Refund,
    prepare_ids: EntryIds,
    complete_ids: EntryIds,
    now: Timestamp,
    clearing: RefundClearing,
)
    requires
        entries_of(account, prepared.posting, prepare_ids, prepared),
        refund_posting(order, q, prepared.posting),
        refund.amount == q.amount,
        clearing_of(refund, order, account, complete_ids, now, clearing),
    ensures
        prepared.counter.ledger_account@ == clearing.pending.ledger_account@,
        prepared.counter.amount_microunits + clearing.pending.amount_microunits == 0,
        prepared.customer.amount_microunits + clearing.cash.amount_microunits == 0,
{
}

/// A refund is prepared only of a captured payment of the live provider, with the merchant that
/// took it, in whole up to what was captured, and out of money that is neither spent nor held.
pub proof fn law_prepared_refunds_are_covered(
    q: CreateRefundRequest,
    format: Result<(), ProviderError>,
    merchant: Merchant,
    facts: RefundFacts,
    balance: AccountBalance,
)
    requires
        prepare_fault(q, format, merchant, facts, balance) is None,
    ensures
        facts.payment is Some && facts.order is Some && facts.checkout is Some,
        facts.payment->0.provider@ == "alipay"@,
        facts.payment->0.status@ == "succeeded"@,
        facts.checkout->0.profile@ == merchant.profile@,
        facts.checkout->0.environment@ == "production"@,
        merchant.environment@ == "production"@,
        q.amount.currency@ == "CNY"@,
        !blank(q.reason@),
        facts.prior is None ==> facts.prior_total + q.amount.amount
            <= facts.payment->0.amount.amount,
        facts.prior is None ==> balance.balance_microunits - balance.held_microunits
            >= q.amount.amount * 1_000_000,
        facts.prior is Some ==> facts.prior->0.payment_id@ == facts.payment->0.id@
            && facts.prior->0.amount.amount == q.amount.amount && facts.prior->0.reason@
            == q.reason@,
{
}

/// A refund that is covered by the payment and by the balance is prepared.
pub proof fn law_covered_refunds_are_prepared(
    q: CreateRefundRequest,
    merchant: Merchant,
    facts: RefundFacts,
    balance: AccountBalance,
)
    requires
        refund_sound(q),
        facts.payment is Some && facts.order is Some && facts.checkout is Some && facts.account
            is Some,
        facts.prior is None,
        facts.payment->0.provider@ == "alipay"@,
        facts.payment->0.status@ == "succeeded"@,
        facts.payment->0.amount.currency@ == "CNY"@,
        facts.checkout->0.profile@ == merchant.profile@,
        facts.checkout->0.environment@ == "production"@,
        merchant.environment@ == "production"@,
        0 < q.amount.amount,
        0 <= facts.prior_total,
        facts.prior_total + q.amount.amount <= facts.payment->0.amount.amount,
        0 <= balance.held_microunits,
        balance.balance_microunits - balance.held_microunits >= q.amount.amount * 1_000_000,
    ensures
        prepare_fault(q, Ok(()), merchant, facts, balance) is None,
{
}

/// A refund is completed only on proof of this very refund: its amount, its trade and its
/// order, from the live merchant that took the payment; and only while it is pending, unless
/// it was completed before.
pub proof fn law_refunds_are_completed_on_their_own_proof(
    merchant: Merchant,
    proof: VerifiedRefund,
    facts: CompletionFacts,
)
    requires
        completion_fault(merchant, proof, facts) is None,
    ensures
        facts.refund is Some && facts.payment is Some && facts.order is Some && facts.checkout
            is Some,
        facts.refund->0.amount.amount == proof.amount_minor,
        facts.payment->0.provider_reference@ == proof.trade_id@,
        facts.order->0.id@ == proof.order_id@,
        facts.checkout->0.profile@ == merchant.profile@,
        merchant.environment@ == "production"@,
        facts.checkout->0.environment@ == "production"@,
        facts.payment->0.provider@ == "alipay"@,
        facts.refund->0.status@ == "pending"@ || facts.refund->0.status@ == "succeeded"@,
{
}

/// Clearing a refund moves its amount from what is pending to cash and leaves the customer
/// alone.
pub proof fn law_clearing_leaves_the_customer_alone(
    refund: Refund,
    order: BillingOrder,
    account: AccountRow,
    ids: EntryIds,
    now: Timestamp,
    c: RefundClearing,
)
    requires
        clearing_of(refund, order, account, ids, now, c),
    ensures
        c.pending.amount_microunits + c.cash.amount_microunits == 0,
        c.cash.amount_microunits == refund.amount.amount * 1_000_000,
        c.pending.ledger_account@ == "refund_pending"@,
        c.cash.ledger_account@ == "cash_clearing"@,
        c.event.kind is LedgerPosted && c.event.kind->customer_delta_microunits == 0,
        c.idempotency_key@ == "refund-settle:"@ + refund.id@,
{
}

/// A refund is worked on only with the live merchant that took its payment, and only while it
/// is pending or after it succeeded.
pub proof fn law_refunds_are_worked_on_by_their_merchant(
    refund: Option<Refund>,
    payment: Option<Payment>,
    checkout: Option<Checkout>,
    merchant: Merchant,
)
    ensures
        operation_fault(refund, payment, checkout, merchant) is None <==> {
            &&& refund is Some && payment is Some && checkout is Some
            &&& payment->0.provider@ == "alipay"@
            &&& merchant.environment@ == "production"@
            &&& checkout->0.profile@ == merchant.profile@
            &&& refund->0.status@ == "succeeded"@ || refund->0.status@ == "pending"@
        },
{
}

/// Proof of a pending refund of an account that is there completes it.
pub proof fn law_proved_refunds_are_completed(
    merchant: Merchant,
    attested: VerifiedRefund,
    facts: CompletionFacts,
)
    requires
        facts.refund is Some && facts.payment is Some && facts.order is Some && facts.checkout
            is Some && facts.account is Some,
        merchant.environment@ == "production"@,
        facts.checkout->0.environment@ == "production"@,
        facts.checkout->0.profile@ == merchant.profile@,
        facts.refund->0.amount.amount == attested.amount_minor,
        facts.payment->0.provider_reference@ == attested.trade_id@,
        facts.order->0.id@ == attested.order_id@,
        facts.payment->0.provider@ == "alipay"@,
        facts.refund->0.status@ == "pending"@ || facts.refund->0.status@ == "succeeded"@,
        i64::MIN <= facts.refund->0.amount.amount * 1_000_000 <= i64::MAX,
    ensures
        completion_fault(merchant, attested, facts) is None,
{
}

/// What the provider's format refuses is not prepared, and names of refunds have one byte at
/// least and 64 at most.
pub proof fn law_refunds_are_named_for_the_provider(
    q: CreateRefundRequest,
    merchant: Merchant,
    facts: RefundFacts,
    balance: AccountBalance,
    e: ProviderError,
)
    ensures
        prepare_fault(q, Err(e), merchant, facts, balance) is Some,
        prepare_fault(q, Ok(()), merchant, facts, balance) is None ==> 0 < bytes_of(q.id@).len()
            < 65 && bytes_of(q.reason@).len() < 257,
        0 < bytes_of(q.id@).len() < 65 && made_of(q.id@, seq![0x2du8, 0x5fu8]) && !blank(q.reason@)
            && bytes_of(q.reason@).len() < 257 && q.amount.currency@ == "CNY"@ ==> refund_sound(q),
{
}

/// The lines of a clearing are of the account and the currency of the refund, under one
/// transaction that names the refund.
pub proof fn law_clearings_name_their_refund(
    refund: Refund,
    order: BillingOrder,
    account: AccountRow,
    ids: EntryIds,
    now: Timestamp,
    c: RefundClearing,
)
    requires
        clearing_of(refund, order, account, ids, now, c),
    ensures
        c.reference_id == refund.id && c.reference_type@ == "refund"@ && c.kind@
            == "refund_settled"@,
        c.tenant_id == order.tenant_id,
        c.pending.billing_account_id == account.id && c.cash.billing_account_id == account.id,
        c.pending.currency == refund.amount.currency && c.cash.currency == refund.amount.currency
            && c.currency == refund.amount.currency,
        c.transaction_id@ == "txn-"@ + ids.transaction@,
        c.event.aggregate_id@ == c.transaction_id@,
        c.idempotency_key@ == "refund-settle:"@ + refund.id@,
        c.event.kind is LedgerPosted && c.event.kind->customer_delta_microunits == 0
            && c.event.kind->LedgerPosted_reference_id == refund.id
            && c.event.kind->LedgerPosted_currency@ == "CNY"@,
        c.pending.id@ == "entry-"@ + ids.customer@ && c.cash.id@ == "entry-"@ + ids.counter@,
        c.created_at == now,
{
}

/// The money of a refund is held under the refund's own name, and against nothing else.
pub proof fn law_refund_holds_name_their_refund(
    order: BillingOrder,
    q: CreateRefundRequest,
    p: Posting,
)
    ensures
        refund_posting(order, q, p) <==> p.tenant_id == order.tenant_id && p.reference_id == q.id
            && p.reference_type@ == "refund"@ && p.kind@ == "refund_pending"@ && p.counter_account@
            == "refund_pending"@ && p.idempotency_key@ == "refund-hold:"@ + q.id@ && p.description@
            == "Alipay refund funds pending provider evidence"@ && p.customer_delta_microunits
            + q.amount.amount * 1_000_000 == 0,
{
}

} // verus!
