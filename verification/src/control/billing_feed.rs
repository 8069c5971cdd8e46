//! Consumers of an account's outbox read it page by page and acknowledge what
//! they have processed. Their cursors never wait for a monetary lock.
use crate::control::billing::{identifier, identifier_text, Reservation};
use crate::control::error::{conflict, invalid, refused, Fault, ServiceError, ServiceResult};
use crate::domain::Timestamp;
use vstd::prelude::*;

verus! {

#[derive(Clone, Copy, Debug)]
pub struct AckRequest {
    pub expected_sequence: i64,
    pub sequence: i64,
}

#[derive(Clone, Copy, Debug)]
pub struct PollRequest {
    pub limit: u64,
    /// Optionally acknowledges the batch before while the next one is fetched.
    /// Only what was delivered can be acknowledged, never the new page.
    pub ack: Option<AckRequest>,
}

#[derive(Clone, Debug)]
pub struct PendingRequest {
    pub limit: u64,
    pub created_before: Option<Timestamp>,
    pub after_created_at: Option<Timestamp>,
    pub after_id: Option<String>,
}

/// The page size of a request that names none.
pub fn page_limit() -> (r: u64)
    ensures
        r == 50,
{
    50
}

/// How far a consumer has read and acknowledged.
#[derive(Clone, Debug)]
pub struct ConsumerRow {
    pub billing_account_id: String,
    pub consumer: String,
    pub acknowledged: i64,
    pub delivered: i64,
    pub updated_at: Timestamp,
}

impl ConsumerRow {
    /// Nothing is acknowledged that was not delivered.
    pub open spec fn wf(self) -> bool {
        0 <= self.acknowledged <= self.delivered
    }
}

pub open spec fn ack_fault(row: ConsumerRow, ack: Option<AckRequest>) -> Option<Fault> {
    match ack {
        None => None,
        Some(a) => if a.sequence < 0 || a.expected_sequence < 0 {
            Some(Fault::Invalid("invalid ACK"@))
        } else if a.sequence == row.acknowledged {
            None
        } else if a.expected_sequence != row.acknowledged || a.sequence < row.acknowledged
            || a.sequence > row.delivered {
            Some(Fault::Conflict("stale ACK or acknowledging events that were not delivered"@))
        } else {
            None
        },
    }
}

/// What is acknowledged after a request. Repeating the last acknowledgement is
/// fine, since its response may have been lost.
pub fn acknowledged(row: &ConsumerRow, ack: Option<&AckRequest>) -> (r: ServiceResult<i64>)
    ensures
        refused(
            r,
            ack_fault(
                *row,
                match ack {
                    Some(a) => Some(*a),
                    None => None,
                },
            ),
        ),
        r matches Ok(next) ==> next == match ack {
            Some(a) => a.sequence,
            None => row.acknowledged,
        },
{
    let ack = match ack {
        Some(ack) => ack,
        None => return Ok(row.acknowledged),
    };
    if ack.sequence < 0 || ack.expected_sequence < 0 {
        return Err(invalid("invalid ACK"));
    }
    if ack.sequence == row.acknowledged {
        return Ok(row.acknowledged);
    }
    if ack.expected_sequence != row.acknowledged || ack.sequence < row.acknowledged || ack.sequence
        > row.delivered {
        return Err(conflict("stale ACK or acknowledging events that were not delivered"));
    }
    Ok(ack.sequence)
}

/// One page of the outbox: how many of the fetched events are in it, and where
/// the consumer stands after it.
#[derive(Clone, Copy, Debug, PartialEq, Eq, Structural)]
pub struct Page {
    pub count: usize,
    pub acknowledged: i64,
    pub delivered: i64,
    pub has_more: bool,
}

pub open spec fn page_of(row: ConsumerRow, request: PollRequest, sequences: Seq<i64>) -> Page {
    let count: int = if sequences.len() > request.limit {
        sequences.len() - 1
    } else {
        sequences.len() as int
    };
    Page {
        count: count as usize,
        acknowledged: match request.ack {
            Some(a) => a.sequence,
            None => row.acknowledged,
        },
        delivered: if count > 0 && sequences[count - 1] > row.delivered {
            sequences[count - 1]
        } else {
            row.delivered
        },
        has_more: sequences.len() > request.limit,
    }
}

/// Makes a page of the events that follow what is acknowledged. `sequences`
/// are those of up to one event more than the limit, in ascending order.
pub fn page(row: &ConsumerRow, request: &PollRequest, sequences: &Vec<i64>) -> (r: ServiceResult<
    Page,
>)
    requires
        request.limit >= 1,
        sequences@.len() <= request.limit + 1,
    ensures
        refused(r, ack_fault(*row, request.ack)),
        r matches Ok(p) ==> p == page_of(*row, *request, sequences@),
{
    let ack = acknowledged(row, request.ack.as_ref())?;
    let has_more = sequences.len() as u64 > request.limit;
    let count: usize = if has_more {
        sequences.len() - 1
    } else {
        sequences.len()
    };
    let delivered: i64 = if count > 0 && sequences[count - 1] > row.delivered {
        sequences[count - 1]
    } else {
        row.delivered
    };
    Ok(Page { count, acknowledged: ack, delivered, has_more })
}

impl Page {
    /// Whether the cursor moves. Empty polls and redeliveries are read-only.
    pub fn changed(&self, row: &ConsumerRow) -> (r: bool)
        ensures
            r == (self.acknowledged != row.acknowledged || self.delivered != row.delivered),
    {
        self.acknowledged != row.acknowledged || self.delivered != row.delivered
    }

    /// When to ask again, in milliseconds.
    pub fn retry_after_ms(&self) -> (r: u64)
        ensures
            r == if self.count == 0 {
                1000u64
            } else {
                0u64
            },
    {
        if self.count == 0 {
            1000
        } else {
            0
        }
    }
}

/// The cursor with which a new consumer starts.
pub fn first_cursor(account: &str, name: &str, now: Timestamp) -> (r: ConsumerRow)
    ensures
        r.wf(),
        r.billing_account_id@ == account@,
        r.consumer@ == name@,
        r.acknowledged == 0,
        r.delivered == 0,
        r.updated_at == now,
{
    ConsumerRow {
        billing_account_id: account.to_owned(),
        consumer: name.to_owned(),
        acknowledged: 0,
        delivered: 0,
        updated_at: now,
    }
}

/// Checks a poll before anything is read for it.
pub fn validate_poll(name: &str, request: &PollRequest) -> (r: ServiceResult<()>)
    ensures
        refused(
            r,
            if !identifier_text(name@) || !(1 <= request.limit <= 100) {
                Some(Fault::Invalid("consumer or batch limit invalid"@))
            } else {
                None
            },
        ),
{
    if !identifier(name) || request.limit < 1 || request.limit > 100 {
        return Err(invalid("consumer or batch limit invalid"));
    }
    Ok(())
}

/// A poll under the lock of the cursor: the page, and the row that is written
/// where the cursor moves.
pub fn poll_billing_events(
    row: ConsumerRow,
    request: &PollRequest,
    sequences: &Vec<i64>,
    now: Timestamp,
) -> (r: ServiceResult<(Page, ConsumerRow)>)
    requires
        request.limit >= 1,
        sequences@.len() <= request.limit + 1,
    ensures
        refused(r, ack_fault(row, request.ack)),
        r matches Ok((p, next)) ==> p == page_of(row, *request, sequences@) && next == if p.acknowledged
            != row.acknowledged || p.delivered != row.delivered {
            ConsumerRow {
                acknowledged: p.acknowledged,
                delivered: p.delivered,
                updated_at: now,
                ..row
            }
        } else {
            row
        },
{
    let p = page(&row, request, sequences)?;
    if p.changed(&row) {
        let next = ConsumerRow {
            acknowledged: p.acknowledged,
            delivered: p.delivered,
            updated_at: now,
            ..row
        };
        Ok((p, next))
    } else {
        Ok((p, row))
    }
}

/// Acknowledges delivered events.
pub fn ack_billing_events(
    name: &str,
    row: Option<ConsumerRow>,
    request: AckRequest,
    now: Timestamp,
) -> (r: ServiceResult<ConsumerRow>)
    ensures
        refused(
            r,
            if !identifier_text(name@) {
                Some(Fault::Invalid("invalid consumer"@))
            } else if row is None {
                Some(Fault::NotFound)
            } else {
                ack_fault(row->0, Some(request))
            },
        ),
        r matches Ok(next) ==> next == if request.sequence == row->0.acknowledged {
            row->0
        } else {
            ConsumerRow { acknowledged: request.sequence, updated_at: now, ..row->0 }
        },
{
    if !identifier(name) {
        return Err(invalid("invalid consumer"));
    }
    let row = match row {
        Some(row) => row,
        None => return Err(ServiceError::NotFound),
    };
    let next = acknowledged(&row, Some(&request))?;
    if next == row.acknowledged {
        return Ok(row);
    }
    Ok(ConsumerRow { acknowledged: next, updated_at: now, ..row })
}

/// Polling and acknowledging keep a cursor well formed: nothing is
/// acknowledged before it was delivered, and the cursor never goes back.
pub proof fn law_cursor_stays_behind_delivery(
    row: ConsumerRow,
    request: PollRequest,
    sequences: Seq<i64>,
)
    requires
        row.wf(),
        request.limit >= 1,
        ack_fault(row, request.ack) is None,
        sequences.len() <= request.limit + 1,
        sequences.len() <= usize::MAX,
    ensures
        row.acknowledged <= page_of(row, request, sequences).acknowledged,
        row.delivered <= page_of(row, request, sequences).delivered,
        page_of(row, request, sequences).acknowledged <= row.delivered,
        page_of(row, request, sequences).acknowledged <= page_of(row, request, sequences).delivered,
{
}

/// Five minutes.
pub const PENDING_AGE: Timestamp = 300_000_000;

pub open spec fn pending_fault(q: PendingRequest, now: Timestamp) -> Option<Fault> {
    if !(1 <= q.limit <= 100) || (q.after_id is Some) != (q.after_created_at is Some) || (
    q.after_id matches Some(id) && !identifier_text(id@)) {
        Some(Fault::Invalid("invalid pending-reservation limit or cursor"@))
    } else if q.created_before matches Some(cutoff) && cutoff > now {
        Some(Fault::Invalid("created_before must not be in the future"@))
    } else {
        None
    }
}

/// Checks a request for dispatched reservations and says up to when they were
/// created. A reservation may still be in flight: its age alone is never a
/// reason to settle or release it.
pub fn pending_reservations(request: &PendingRequest, now: Timestamp) -> (r: ServiceResult<
    Timestamp,
>)
    requires
        now >= i64::MIN + PENDING_AGE,
    ensures
        refused(r, pending_fault(*request, now)),
        r matches Ok(cutoff) ==> cutoff == match request.created_before {
            Some(t) => t as int,
            None => now - PENDING_AGE,
        },
{
    let bad_id = match &request.after_id {
        Some(id) => !identifier(id.as_str()),
        None => false,
    };
    if request.limit < 1 || request.limit > 100 || request.after_id.is_some()
        != request.after_created_at.is_some() || bad_id {
        return Err(invalid("invalid pending-reservation limit or cursor"));
    }
    let cutoff: Timestamp = match request.created_before {
        Some(t) => t,
        None => now - PENDING_AGE,
    };
    if cutoff > now {
        return Err(invalid("created_before must not be in the future"));
    }
    Ok(cutoff)
}

/// The cursor of the next page.
#[derive(Clone, Debug)]
pub struct PendingCursor {
    pub after_created_at: Timestamp,
    pub after_id: String,
    pub created_before: Timestamp,
}

/// Cuts fetched rows down to a page. `rows` holds up to one row more than the
/// limit; what is cut off is on the next page.
pub fn pending_page(rows: &mut Vec<Reservation>, limit: u64, cutoff: Timestamp) -> (r: Option<
    PendingCursor,
>)
    requires
        limit >= 1,
        old(rows)@.len() <= limit + 1,
    ensures
        final(rows)@ == if old(rows)@.len() > limit {
            old(rows)@.drop_last()
        } else {
            old(rows)@
        },
        r is Some <==> old(rows)@.len() > limit,
        r matches Some(c) ==> c.after_created_at == final(rows)@.last().created_at && c.after_id
            == final(rows)@.last().id && c.created_before == cutoff,
{
    if rows.len() as u64 > limit {
        let ghost before = rows@;
        let _ = rows.pop();
        assert(rows@ =~= before.drop_last());
        let last = &rows[rows.len() - 1];
        Some(
            PendingCursor {
                after_created_at: last.created_at,
                after_id: last.id.clone(),
                created_before: cutoff,
            },
        )
    } else {
        None
    }
}

/// A page holds what was asked for and no more, and says whether there is more; what is
/// delivered reaches up to the last event of the page, and never goes back.
pub proof fn law_pages_are_bounded_and_say_so(
    row: ConsumerRow,
    request: PollRequest,
    sequences: Seq<i64>,
)
    requires
        request.limit >= 1,
        sequences.len() <= request.limit + 1,
        sequences.len() <= usize::MAX,
    ensures
        ({
            let page = page_of(row, request, sequences);
            &&& page.count <= request.limit
            &&& page.has_more <==> page.count < sequences.len()
            &&& page.has_more <==> sequences.len() > request.limit
            &&& page.count > 0 ==> page.delivered >= sequences[page.count - 1]
            &&& page.delivered >= row.delivered
            &&& page.delivered == row.delivered || (page.count > 0 && page.delivered
                == sequences[page.count - 1])
            &&& request.ack is None ==> page.acknowledged == row.acknowledged
            &&& request.ack is Some ==> page.acknowledged == request.ack->0.sequence
        }),
{
}

/// Only what was delivered is acknowledged, and only by whoever knows what was acknowledged
/// before; an acknowledgement that was made can be made again.
pub proof fn law_acknowledgements_are_of_delivered_events(row: ConsumerRow, a: AckRequest)
    requires
        row.wf(),
    ensures
        ack_fault(row, Some(a)) is None <==> a.sequence >= 0 && a.expected_sequence >= 0 && (
        a.sequence == row.acknowledged || (a.expected_sequence == row.acknowledged
            && row.acknowledged < a.sequence <= row.delivered)),
        ack_fault(row, None) is None,
{
}

/// Pending reservations are listed in pages of up to a hundred, as of a time that is not in the
/// future, from a cursor that is whole or from the start.
pub proof fn law_pending_pages_are_bounded(q: PendingRequest, now: Timestamp)
    requires
        pending_fault(q, now) is None,
    ensures
        0 < q.limit < 101,
        q.after_id is Some <==> q.after_created_at is Some,
        q.created_before is Some ==> q.created_before->0 <= now,
{
}

} // verus!
