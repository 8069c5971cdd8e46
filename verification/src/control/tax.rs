//! Requests for tax invoices. This takes requests in; it never issues an
//! invoice.
use crate::control::error::{conflict, invalid, refused, Fault, ServiceError, ServiceResult};
use crate::domain::{Invoice, Timestamp};
use crate::text::{
    blank, byte_len, bytes_of, is_blank, is_made_of, made_of, same, same_option, same_option_view,
};
use vstd::prelude::*;

verus! {

#[derive(Clone, Debug)]
pub struct TaxRequest {
    pub title: String,
    pub taxpayer_id: Option<String>,
}

/// A stored request.
#[derive(Clone, Debug)]
pub struct TaxRow {
    pub invoice_id: String,
    pub title: String,
    pub taxpayer_id: Option<String>,
    pub state: String,
    pub created_at: Timestamp,
}

/// A control character.
pub open spec fn control(c: char) -> bool {
    let v = c as u32;
    v <= 0x1f || 0x7f <= v <= 0x9f
}

pub open spec fn no_control(s: Seq<char>) -> bool {
    forall|i: int| 0 <= i < s.len() ==> !control(#[trigger] s[i])
}

/// 1 to 32 letters and digits.
pub open spec fn taxpayer_text(s: Seq<char>) -> bool {
    1 <= bytes_of(s).len() <= 32 && made_of(s, Seq::<u8>::empty())
}

pub open spec fn tax_sound(q: TaxRequest) -> bool {
    &&& !blank(q.title@)
    &&& bytes_of(q.title@).len() <= 256
    &&& no_control(q.title@)
    &&& q.taxpayer_id matches Some(id) ==> taxpayer_text(id@)
}

fn is_control(c: char) -> (r: bool)
    ensures
        r == control(c),
{
    let v: u32 = c as u32;
    v <= 0x1f || (0x7f <= v && v <= 0x9f)
}

fn without_control(s: &str) -> (r: bool)
    ensures
        r == no_control(s@),
{
    broadcast use vstd::string::axiom_spec_iter;

    for c in iter: s.chars()
        invariant
            iter.seq() == s@,
            forall|j: int| 0 <= j < iter.index() ==> !control(#[trigger] s@[j]),
    {
        if is_control(c) {
            assert(control(s@[iter.index() as int]));
            return false;
        }
    }
    true
}

/// The state that a request is shown in.
pub fn tax_request_status(row: &Option<TaxRow>) -> (r: &str)
    ensures
        r@ == match row {
            Some(row) => row.state@,
            None => "not_requested"@,
        },
{
    match row {
        Some(row) => row.state.as_str(),
        None => "not_requested",
    }
}

pub open spec fn tax_fault(
    q: TaxRequest,
    invoice: Option<Invoice>,
    prior: Option<TaxRow>,
) -> Option<Fault> {
    if !tax_sound(q) {
        Some(Fault::Invalid("invalid bounded invoice title or taxpayer identity"@))
    } else if invoice is None {
        Some(Fault::NotFound)
    } else if invoice->0.amount.currency@ != "CNY"@ || invoice->0.amount.amount <= 0 {
        Some(Fault::Conflict("positive CNY billing statement required"@))
    } else if prior is Some && (prior->0.title@ != q.title@ || !same_option_view(
        prior->0.taxpayer_id,
        q.taxpayer_id,
    )) {
        Some(
            Fault::Conflict(
                "tax request identity already bound; provider correction workflow required"@,
            ),
        )
    } else {
        None
    }
}

/// Takes a request for the tax invoice of a statement, under the lock of the
/// statement. Nothing is written where the request was made before.
pub fn request_tax_invoice(
    request: TaxRequest,
    invoice: Option<&Invoice>,
    prior: &Option<TaxRow>,
    now: Timestamp,
) -> (r: ServiceResult<Option<TaxRow>>)
    ensures
        refused(
            r,
            tax_fault(
                request,
                match invoice {
                    Some(i) => Some(*i),
                    None => None,
                },
                *prior,
            ),
        ),
        r matches Ok(made) ==> (made is Some <==> prior is None),
        r matches Ok(Some(row)) ==> row.invoice_id == invoice->0.id && row.title == request.title
            && row.taxpayer_id == request.taxpayer_id && row.state@ == "pending_provider"@
            && row.created_at == now,
{
    let taxpayer_fits = match &request.taxpayer_id {
        Some(id) => {
            let none: [u8; 0] = [];
            assert(none@ =~= Seq::<u8>::empty());
            byte_len(id.as_str()) >= 1 && byte_len(id.as_str()) <= 32 && is_made_of(
                id.as_str(),
                &none,
            )
        },
        None => true,
    };
    if is_blank(request.title.as_str()) || byte_len(request.title.as_str()) > 256
        || !without_control(request.title.as_str()) || !taxpayer_fits {
        return Err(invalid("invalid bounded invoice title or taxpayer identity"));
    }
    let invoice = match invoice {
        Some(invoice) => invoice,
        None => return Err(ServiceError::NotFound),
    };
    if !same(invoice.amount.currency.as_str(), "CNY") || invoice.amount.amount <= 0 {
        return Err(conflict("positive CNY billing statement required"));
    }
    if let Some(prior) = prior {
        if !same(prior.title.as_str(), request.title.as_str()) || !same_option(
            &prior.taxpayer_id,
            &request.taxpayer_id,
        ) {
            return Err(
                conflict(
                    "tax request identity already bound; provider correction workflow required",
                ),
            );
        }
        return Ok(None);
    }
    Ok(
        Some(
            TaxRow {
                invoice_id: invoice.id.clone(),
                title: request.title,
                taxpayer_id: request.taxpayer_id,
                state: "pending_provider".to_owned(),
                created_at: now,
            },
        ),
    )
}

/// A tax request is taken exactly for a statement of a positive amount of the supported
/// currency, under a title and an identity that are sound, and once: a statement that has been
/// asked for stays bound to the title and the identity of the first request.
pub proof fn law_statements_are_bound_to_one_identity(
    q: TaxRequest,
    invoice: Option<Invoice>,
    prior: Option<TaxRow>,
)
    ensures
        tax_fault(q, invoice, prior) is None ==> {
            &&& invoice is Some
            &&& invoice->0.amount.amount > 0
            &&& invoice->0.amount.currency@ == "CNY"@
            &&& !blank(q.title@)
            &&& bytes_of(q.title@).len() < 257
            &&& q.taxpayer_id is Some ==> 0 < bytes_of(q.taxpayer_id->0@).len() < 33
            &&& prior is Some ==> prior->0.title@ == q.title@ && prior->0.taxpayer_id is Some
                == q.taxpayer_id is Some && (q.taxpayer_id is Some ==> prior->0.taxpayer_id->0@
                == q.taxpayer_id->0@)
        },
        tax_fault(q, invoice, None) is None && prior is Some && prior->0.title@ == q.title@
            && prior->0.taxpayer_id == q.taxpayer_id ==> tax_fault(q, invoice, prior) is None,
        tax_fault(q, invoice, None) is None && prior is Some && prior->0.title@ != q.title@ ==> (
        tax_fault(q, invoice, prior) matches Some(fault) && fault is Conflict),
{
}

} // verus!
