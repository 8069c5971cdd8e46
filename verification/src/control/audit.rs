//! The audit trail of the console. The intent of a change is durable before it
//! runs; that it has completed is a record of its own. Where that is missing,
//! the outcome is unknown, and never proof that nothing changed.
use crate::control::error::{invalid, refused, Fault, ServiceResult};
use crate::crypto::{fresh_uuid, is_uuid, uuid_text};
use crate::domain::Timestamp;
use vstd::prelude::*;

verus! {

#[derive(Clone, Debug)]
pub struct AuditQuery {
    pub after: Option<String>,
    pub limit: Option<u64>,
}

/// A line of the audit trail. Its payload is stored beside it.
#[derive(Clone, Debug)]
pub struct AuditRow {
    pub id: String,
    pub actor_id: String,
    pub action: String,
    pub resource_id: String,
    pub created_at: Timestamp,
}

/// Draws the identifier of a line of the trail, which its pages go by.
pub fn fresh_audit_id() -> (r: String)
    ensures
        uuid_text(r@),
{
    fresh_uuid()
}

/// The limit of a page of the trail, where the request is sound.
pub fn list_operation_audits(query: &AuditQuery) -> (r: ServiceResult<u64>)
    ensures
        ({
            let limit: u64 = match query.limit {
                Some(n) => n,
                None => 50,
            };
            &&& refused(
                r,
                if !(1 <= limit <= 100) || (query.after matches Some(id) && !uuid_text(id@)) {
                    Some(Fault::Invalid("invalid audit page"@))
                } else {
                    None
                },
            )
            &&& r matches Ok(n) ==> n == limit
        }),
{
    let limit: u64 = match query.limit {
        Some(n) => n,
        None => 50,
    };
    let after_fits = match &query.after {
        Some(id) => is_uuid(id.as_str()),
        None => true,
    };
    if limit < 1 || limit > 100 || !after_fits {
        return Err(invalid("invalid audit page"));
    }
    Ok(limit)
}

/// Cuts fetched lines down to a page. `rows` holds up to one row more than the
/// limit; the cursor of the next page is the last row that stays.
pub fn audit_page(rows: &mut Vec<AuditRow>, limit: u64) -> (r: Option<String>)
    requires
        limit >= 1,
        old(rows)@.len() <= limit + 1,
    ensures
        final(rows)@ == if old(rows)@.len() > limit {
            old(rows)@.drop_last()
        } else {
            old(rows)@
        },
        r == if old(rows)@.len() > limit {
            Some(final(rows)@.last().id)
        } else {
            None
        },
{
    if rows.len() as u64 > limit {
        let ghost before = rows@;
        let _ = rows.pop();
        assert(rows@ =~= before.drop_last());
        Some(rows[rows.len() - 1].id.clone())
    } else {
        None
    }
}

} // verus!
