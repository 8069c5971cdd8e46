//! Usage events: what is reported of a completed request, and how the report
//! ends.
use crate::crypto::{fresh_uuid, uuid_text};
use crate::domain::billing::{SettleRequest, UnresolvedRequest};
use crate::domain::Timestamp;
use crate::gateway::auth::Principal;
use crate::gateway::billing::Ticket;
use crate::json::{
    as_array, as_u64, boolean, elements, get, given_twice, integer, integer_json, is_given_twice,
    json_of, list_names, member, natural, natural_json, part_value, raw_elements, raw_members,
    read_part, split_elements, split_members, text, unsigned, Json, Record,
};
use crate::text::{join, same, strip_suffix};
use crate::time::{datable, instant_text, write_instant};
use vstd::prelude::*;

verus! {

#[derive(Clone, Copy, Debug, PartialEq, Eq, Structural)]
pub struct CompletionUsage {
    pub prompt_tokens: u64,
    pub completion_tokens: u64,
}

/// A completion that was not streamed, as far as it is metered.
#[derive(Clone, Copy, Debug)]
pub struct CompletionResponse {
    pub usage: CompletionUsage,
}

/// The two token counts, where both are unsigned integers.
pub open spec fn counts(prompt: Json, completion: Json) -> Option<CompletionUsage> {
    match (unsigned(prompt), unsigned(completion)) {
        (Some(prompt_tokens), Some(completion_tokens)) => Some(
            CompletionUsage { prompt_tokens, completion_tokens },
        ),
        _ => None,
    }
}

/// The usage that a value states: an object with both counts among its members,
/// or an array of just the two.
pub open spec fn usage_in(json: Json) -> Option<CompletionUsage> {
    match json {
        Json::Object(_) => match (
            member(json, "prompt_tokens"@),
            member(json, "completion_tokens"@),
        ) {
            (Some(prompt), Some(completion)) => counts(prompt, completion),
            _ => None,
        },
        Json::Array(values) => if values.len() == 2 {
            counts(values[0], values[1])
        } else {
            None
        },
        _ => None,
    }
}

impl CompletionUsage {
    /// Reads the usage that a value states.
    pub fn from_json(value: &serde_json::Value) -> (r: Option<Self>)
        ensures
            r == usage_in(json_of(*value)),
    {
        if let Some(values) = as_array(value) {
            if values.len() != 2 {
                return None;
            }
            assert(elements(values@).len() == 2);
            return match (as_u64(&values[0]), as_u64(&values[1])) {
                (Some(prompt_tokens), Some(completion_tokens)) => Some(
                    CompletionUsage { prompt_tokens, completion_tokens },
                ),
                _ => None,
            };
        }
        match (get(value, "prompt_tokens"), get(value, "completion_tokens")) {
            (Some(prompt), Some(completion)) => match (as_u64(prompt), as_u64(completion)) {
                (Some(prompt_tokens), Some(completion_tokens)) => Some(
                    CompletionUsage { prompt_tokens, completion_tokens },
                ),
                _ => None,
            },
            _ => None,
        }
    }
}

/// The count that the bytes of a member or an element state, if they do.
pub open spec fn raw_count(bytes: Seq<u8>) -> Option<u64> {
    match part_value(bytes) {
        Some(value) => unsigned(value),
        None => None,
    }
}

/// The usage with two counts, where both are stated.
pub open spec fn both_counts(prompt: Option<u64>, completion: Option<u64>) -> Option<
    CompletionUsage,
> {
    match (prompt, completion) {
        (Some(prompt_tokens), Some(completion_tokens)) => Some(
            CompletionUsage { prompt_tokens, completion_tokens },
        ),
        _ => None,
    }
}

/// The bytes of a member, if the object has it.
pub open spec fn raw_member(members: Map<Seq<char>, Seq<u8>>, name: Seq<char>) -> Option<Seq<u8>> {
    if members.dom().contains(name) {
        Some(members[name])
    } else {
        None
    }
}

/// The usage that the bytes of a value state: an object with both counts among its
/// members, each once, or an array of just the two. What else an object holds is
/// passed over, whatever it is.
pub open spec fn raw_usage(bytes: Seq<u8>) -> Option<CompletionUsage> {
    match raw_members(bytes) {
        Some(members) => match (
            raw_member(members, "prompt_tokens"@),
            raw_member(members, "completion_tokens"@),
        ) {
            (Some(prompt), Some(completion)) => if given_twice(bytes, "prompt_tokens"@)
                || given_twice(bytes, "completion_tokens"@) {
                None
            } else {
                both_counts(raw_count(prompt), raw_count(completion))
            },
            _ => None,
        },
        None => match raw_elements(bytes) {
            Some(values) => if values.len() == 2 {
                both_counts(raw_count(values[0]), raw_count(values[1]))
            } else {
                None
            },
            None => None,
        },
    }
}

/// The usage that the bytes of a response state, where they say it once: a member
/// of an object, or the one element of an array.
pub open spec fn body_usage(bytes: Seq<u8>) -> Option<CompletionUsage> {
    match raw_members(bytes) {
        Some(members) => match raw_member(members, "usage"@) {
            Some(usage) => if given_twice(bytes, "usage"@) {
                None
            } else {
                raw_usage(usage)
            },
            None => None,
        },
        None => match raw_elements(bytes) {
            Some(values) => if values.len() == 1 {
                raw_usage(values[0])
            } else {
                None
            },
            None => None,
        },
    }
}

fn read_count(bytes: &[u8]) -> (r: Option<u64>)
    ensures
        r == raw_count(bytes@),
{
    match read_part(bytes) {
        Some(value) => as_u64(&value),
        None => None,
    }
}

fn read_counts(prompt: &[u8], completion: &[u8]) -> (r: Option<CompletionUsage>)
    ensures
        r == both_counts(raw_count(prompt@), raw_count(completion@)),
{
    match (read_count(prompt), read_count(completion)) {
        (Some(prompt_tokens), Some(completion_tokens)) => Some(
            CompletionUsage { prompt_tokens, completion_tokens },
        ),
        _ => None,
    }
}

fn read_usage(bytes: &[u8]) -> (r: Option<CompletionUsage>)
    ensures
        r == raw_usage(bytes@),
{
    match split_members(bytes) {
        Some(members) => match (members.get("prompt_tokens"), members.get("completion_tokens")) {
            (Some(prompt), Some(completion)) => {
                let names = list_names(bytes);
                if is_given_twice(&names, "prompt_tokens", Ghost(bytes@)) || is_given_twice(
                    &names,
                    "completion_tokens",
                    Ghost(bytes@),
                ) {
                    return None;
                }
                read_counts(prompt.as_slice(), completion.as_slice())
            },
            _ => None,
        },
        None => match split_elements(bytes) {
            Some(values) => if values.len() == 2 {
                read_counts(values[0].as_slice(), values[1].as_slice())
            } else {
                None
            },
            None => None,
        },
    }
}

impl CompletionResponse {
    /// Reads the metered part of a completion from the bytes of a response. Usage that
    /// is given twice, or one of its counts, is as good as none.
    pub fn from_slice(bytes: &[u8]) -> (r: Option<Self>)
        ensures
            r == (match body_usage(bytes@) {
                Some(usage) => Some(CompletionResponse { usage }),
                None => None,
            }),
    {
        let stated = match split_members(bytes) {
            Some(members) => match members.get("usage") {
                Some(usage) => if is_given_twice(&list_names(bytes), "usage", Ghost(bytes@)) {
                    None
                } else {
                    read_usage(usage.as_slice())
                },
                None => None,
            },
            None => match split_elements(bytes) {
                Some(values) => if values.len() == 1 {
                    read_usage(values[0].as_slice())
                } else {
                    None
                },
                None => None,
            },
        };
        match stated {
            Some(usage) => Some(CompletionResponse { usage }),
            None => None,
        }
    }
}

/// What every event of this gateway says of it.
pub struct UsageSink {
    pub region: String,
    pub model_revision: String,
    pub price_version: String,
}

/// What is known of a request that has ended.
pub struct UsageRecord<'a> {
    pub price_version: Option<&'a str>,
    pub request_id: &'a str,
    pub principal: &'a Principal,
    pub endpoint_id: &'a str,
    pub model_id: &'a str,
    pub model_revision: &'a str,
    pub input_tokens: u64,
    pub output_tokens: u64,
    pub latency_ms: u64,
    pub status: &'a str,
    pub billing: Option<&'a Ticket>,
    pub usage_known: bool,
}

#[derive(Clone, Debug)]
pub struct UsageEvent {
    pub billing: Option<Ticket>,
    pub usage_known: bool,
    pub schema_version: String,
    pub event_id: String,
    pub request_id: String,
    pub occurred_at: Timestamp,
    pub tenant_id: String,
    pub project_id: String,
    pub api_key_id: String,
    pub model_id: String,
    pub model_revision: String,
    pub endpoint_id: String,
    pub region: String,
    pub price_version: String,
    pub input_tokens: u64,
    pub output_tokens: u64,
    pub cached_input_tokens: u64,
    pub latency_ms: u64,
    pub status: String,
}

pub open spec fn ticket_json(t: Ticket) -> Json {
    Json::Object(
        map![
            "id"@ => Json::Text(t.id@),
            "project_id"@ => Json::Text(t.project_id@),
            "input_token_limit"@ => integer_json(t.input_token_limit as int),
            "output_token_limit"@ => integer_json(t.output_token_limit as int),
        ],
    )
}

/// The members of an event that every event has.
pub open spec fn event_members(e: UsageEvent) -> Map<Seq<char>, Json> {
    map![
        "usage_known"@ => Json::Bool(e.usage_known),
        "schema_version"@ => Json::Text(e.schema_version@),
        "event_id"@ => Json::Text(e.event_id@),
        "request_id"@ => Json::Text(e.request_id@),
        "occurred_at"@ => Json::Text(instant_text(e.occurred_at)),
        "tenant_id"@ => Json::Text(e.tenant_id@),
        "project_id"@ => Json::Text(e.project_id@),
        "api_key_id"@ => Json::Text(e.api_key_id@),
        "model_id"@ => Json::Text(e.model_id@),
        "model_revision"@ => Json::Text(e.model_revision@),
        "endpoint_id"@ => Json::Text(e.endpoint_id@),
        "region"@ => Json::Text(e.region@),
        "price_version"@ => Json::Text(e.price_version@),
        "input_tokens"@ => natural_json(e.input_tokens),
        "output_tokens"@ => natural_json(e.output_tokens),
        "cached_input_tokens"@ => natural_json(e.cached_input_tokens),
        "latency_ms"@ => natural_json(e.latency_ms),
        "status"@ => Json::Text(e.status@),
    ]
}

/// An event as it is written. The ticket is left out where there is none.
pub open spec fn event_json(e: UsageEvent) -> Json {
    Json::Object(
        match e.billing {
            Some(ticket) => event_members(e).insert("billing"@, ticket_json(ticket)),
            None => event_members(e),
        },
    )
}

/// Writes an event.
pub fn write_event(e: &UsageEvent) -> (r: serde_json::Value)
    requires
        datable(e.occurred_at),
    ensures
        json_of(r) == event_json(*e),
{
    let record = Record::new().with("usage_known", boolean(e.usage_known)).with(
        "schema_version",
        text(e.schema_version.as_str()),
    ).with("event_id", text(e.event_id.as_str())).with(
        "request_id",
        text(e.request_id.as_str()),
    ).with("occurred_at", text(write_instant(e.occurred_at).as_str())).with(
        "tenant_id",
        text(e.tenant_id.as_str()),
    ).with("project_id", text(e.project_id.as_str())).with(
        "api_key_id",
        text(e.api_key_id.as_str()),
    ).with("model_id", text(e.model_id.as_str())).with(
        "model_revision",
        text(e.model_revision.as_str()),
    ).with("endpoint_id", text(e.endpoint_id.as_str())).with(
        "region",
        text(e.region.as_str()),
    ).with("price_version", text(e.price_version.as_str())).with(
        "input_tokens",
        natural(e.input_tokens),
    ).with("output_tokens", natural(e.output_tokens)).with(
        "cached_input_tokens",
        natural(e.cached_input_tokens),
    ).with("latency_ms", natural(e.latency_ms)).with("status", text(e.status.as_str()));
    match &e.billing {
        Some(ticket) => {
            let ticket = Record::new().with("id", text(ticket.id.as_str())).with(
                "project_id",
                text(ticket.project_id.as_str()),
            ).with("input_token_limit", integer(ticket.input_token_limit)).with(
                "output_token_limit",
                integer(ticket.output_token_limit),
            ).done();
            record.with("billing", ticket).done()
        },
        None => record.done(),
    }
}

/// The event that a record makes. One with a ticket is of the second schema. A
/// revision or price that the record leaves out is that of the gateway.
pub open spec fn event_of(sink: UsageSink, record: UsageRecord, at: Timestamp, e: UsageEvent) -> bool {
    &&& e.schema_version@ == if record.billing is Some {
        "v2"@
    } else {
        "v1"@
    }
    &&& match record.billing {
        Some(ticket) => e.billing == Some(*ticket),
        None => e.billing is None,
    }
    &&& e.usage_known == record.usage_known
    &&& e.request_id@ == record.request_id@
    &&& e.occurred_at == at
    &&& e.tenant_id == record.principal.tenant_id
    &&& e.project_id == record.principal.project_id
    &&& e.api_key_id == record.principal.api_key_id
    &&& e.model_id@ == record.model_id@
    &&& e.model_revision@ == if record.model_revision@.len() == 0 {
        sink.model_revision@
    } else {
        record.model_revision@
    }
    &&& e.endpoint_id@ == record.endpoint_id@
    &&& e.region == sink.region
    &&& e.price_version@ == match record.price_version {
        Some(version) => version@,
        None => sink.price_version@,
    }
    &&& e.input_tokens == record.input_tokens
    &&& e.output_tokens == record.output_tokens
    &&& e.cached_input_tokens == 0
    &&& e.latency_ms == record.latency_ms
    &&& e.status@ == record.status@
}

impl UsageSink {
    /// The event of a record, under an identifier.
    pub fn event_with(&self, record: &UsageRecord, at: Timestamp, event_id: String) -> (r: UsageEvent)
        ensures
            event_of(*self, *record, at, r),
            r.event_id == event_id,
    {
        UsageEvent {
            billing: match record.billing {
                Some(ticket) => Some(
                    Ticket {
                        id: ticket.id.clone(),
                        project_id: ticket.project_id.clone(),
                        input_token_limit: ticket.input_token_limit,
                        output_token_limit: ticket.output_token_limit,
                    },
                ),
                None => None,
            },
            usage_known: record.usage_known,
            schema_version: if record.billing.is_some() {
                "v2".to_owned()
            } else {
                "v1".to_owned()
            },
            event_id,
            request_id: record.request_id.to_owned(),
            occurred_at: at,
            tenant_id: record.principal.tenant_id.clone(),
            project_id: record.principal.project_id.clone(),
            api_key_id: record.principal.api_key_id.clone(),
            model_id: record.model_id.to_owned(),
            model_revision: if record.model_revision.is_empty() {
                self.model_revision.clone()
            } else {
                record.model_revision.to_owned()
            },
            endpoint_id: record.endpoint_id.to_owned(),
            region: self.region.clone(),
            price_version: match record.price_version {
                Some(version) => version.to_owned(),
                None => self.price_version.clone(),
            },
            input_tokens: record.input_tokens,
            output_tokens: record.output_tokens,
            cached_input_tokens: 0,
            latency_ms: record.latency_ms,
            status: record.status.to_owned(),
        }
    }

    /// The event of a record, under a fresh identifier.
    pub fn record(&self, record: &UsageRecord, at: Timestamp) -> (r: UsageEvent)
        ensures
            event_of(*self, *record, at, r),
            "evt-"@.is_prefix_of(r.event_id@),
            uuid_text(r.event_id@.skip("evt-"@.len() as int)),
    {
        let uuid = fresh_uuid();
        let event_id = join("evt-", uuid.as_str());
        proof {
            assert(event_id@.subrange(0, "evt-"@.len() as int) =~= "evt-"@);
            assert(event_id@.skip("evt-"@.len() as int) =~= uuid@);
        }
        self.event_with(record, at, event_id)
    }
}

/// How a report failed: it may be tried again, or not.
#[derive(Clone, Copy, Debug, PartialEq, Eq, Structural)]
pub enum DeliveryError {
    Retry(u16),
    Permanent(u16),
}

/// A failure that may pass.
pub open spec fn transient(status: u16) -> bool {
    status == 408 || status == 425 || status == 429 || 500 <= status <= 599
}

/// How an HTTP failure counts. One without a status never reached the control
/// plane.
pub open spec fn failure_of(status: Option<u16>) -> DeliveryError {
    match status {
        None => DeliveryError::Retry(0),
        Some(status) => if transient(status) {
            DeliveryError::Retry(status)
        } else {
            DeliveryError::Permanent(status)
        },
    }
}

pub fn http_failure(status: Option<u16>) -> (r: DeliveryError)
    ensures
        r == failure_of(status),
{
    match status {
        None => DeliveryError::Retry(0),
        Some(status) => if status == 408 || status == 425 || status == 429 || (500 <= status
            && status <= 599) {
            DeliveryError::Retry(status)
        } else {
            DeliveryError::Permanent(status)
        },
    }
}

/// What the reply to a report means. A redirect acknowledges nothing.
pub open spec fn reply_of(status: Option<u16>) -> Result<(), DeliveryError> {
    match status {
        Some(code) => if 200 <= code <= 299 {
            Ok::<(), DeliveryError>(())
        } else if 400 <= code <= 599 {
            Err(failure_of(status))
        } else {
            Err(DeliveryError::Permanent(code))
        },
        None => Err(failure_of(status)),
    }
}

/// What the reply to a report means. A redirect acknowledges nothing.
pub fn acknowledged(status: Option<u16>) -> (r: Result<(), DeliveryError>)
    ensures
        r == reply_of(status),
{
    match status {
        Some(code) => if 200 <= code && code <= 299 {
            Ok(())
        } else if 400 <= code && code <= 599 {
            Err(http_failure(status))
        } else {
            Err(DeliveryError::Permanent(code))
        },
        None => Err(http_failure(status)),
    }
}

/// What is sent to the control plane, and where.
pub enum Report {
    Event { url: String },
    Settle { url: String, settlement: SettleRequest },
    Unresolved { url: String, outcome: UnresolvedRequest },
}

/// The bits of a limit read as an unsigned number.
pub open spec fn limit_bits(limit: i64) -> int {
    if limit >= 0 {
        limit as int
    } else {
        limit + 0x1_0000_0000_0000_0000
    }
}

pub(crate) fn unsigned_limit(limit: i64) -> (r: u64)
    ensures
        r == limit_bits(limit),
{
    if limit >= 0 {
        limit as u64
    } else {
        u64::MAX - ((-(limit + 1)) as u64)
    }
}

/// The usage is known and within what was held for it.
pub open spec fn settles(event: UsageEvent, ticket: Ticket) -> bool {
    &&& event.usage_known
    &&& event.input_tokens <= limit_bits(ticket.input_token_limit)
    &&& event.output_tokens <= limit_bits(ticket.output_token_limit)
}

/// The status of a settlement.
pub open spec fn settled_status(status: Seq<char>) -> Seq<char> {
    if status == "succeeded"@ {
        "succeeded"@
    } else if status == "cancelled"@ {
        "cancelled"@
    } else {
        "provider_error"@
    }
}

/// Where the hold of a ticket is.
pub open spec fn hold_url(base: Seq<char>, ticket: Ticket) -> Seq<char> {
    base + "/billing/projects/"@ + ticket.project_id@ + "/reservations/"@ + ticket.id@
}

/// The counts of an event fit what a settlement carries.
pub open spec fn countable(event: UsageEvent) -> bool {
    event.input_tokens <= i64::MAX && event.output_tokens <= i64::MAX && event.latency_ms
        <= i64::MAX
}

/// Why an event is not reported at all.
pub open spec fn report_fault(report_url: Seq<char>, event: UsageEvent) -> Option<DeliveryError> {
    if event.schema_version@ == "v1"@ && event.billing is None {
        None
    } else if event.schema_version@ == "v2"@ && event.billing is Some {
        if !"/usage-events"@.is_suffix_of(report_url) {
            Some(DeliveryError::Permanent(0))
        } else if settles(event, event.billing->0) && !countable(event) {
            Some(DeliveryError::Permanent(400))
        } else {
            None
        }
    } else {
        Some(DeliveryError::Permanent(400))
    }
}

/// The report of an event. Known usage within the hold settles it; anything
/// else is stored as unresolved, and never as usage of zero.
pub open spec fn report_of(report_url: Seq<char>, event: UsageEvent, r: Report) -> bool {
    match event.billing {
        None => r matches Report::Event { url } && url@ == report_url,
        Some(ticket) => {
            let base = report_url.take(report_url.len() - "/usage-events"@.len());
            if settles(event, ticket) {
                &&& r is Settle
                &&& r->Settle_url@ == hold_url(base, ticket) + "/settle"@
                &&& r->Settle_settlement.input_tokens == event.input_tokens
                &&& r->Settle_settlement.output_tokens == event.output_tokens
                &&& r->Settle_settlement.latency_ms == event.latency_ms
                &&& r->Settle_settlement.endpoint_id == event.endpoint_id
                &&& r->Settle_settlement.region == event.region
                &&& r->Settle_settlement.status@ == settled_status(event.status@)
            } else {
                &&& r is Unresolved
                &&& r->Unresolved_url@ == hold_url(base, ticket) + "/unresolved"@
                &&& r->Unresolved_outcome.event_id == event.event_id
                &&& r->Unresolved_outcome.reason@ == if event.usage_known {
                    "usage_over_limit"@
                } else {
                    "usage_missing"@
                }
                &&& r->Unresolved_outcome.input_tokens == if event.usage_known {
                    Some(event.input_tokens)
                } else {
                    None
                }
                &&& r->Unresolved_outcome.output_tokens == if event.usage_known {
                    Some(event.output_tokens)
                } else {
                    None
                }
            }
        },
    }
}

/// Decides what is reported of an event, and where.
pub fn deliver(report_url: &str, event: &UsageEvent) -> (r: Result<Report, DeliveryError>)
    ensures
        match r {
            Ok(report) => report_fault(report_url@, *event) is None && report_of(
                report_url@,
                *event,
                report,
            ),
            Err(error) => report_fault(report_url@, *event) == Some(error),
        },
{
    proof {
        reveal_strlit("v1");
        reveal_strlit("v2");
        assert("v1"@[1] != "v2"@[1]);
    }
    let ticket = match &event.billing {
        None => {
            if same(event.schema_version.as_str(), "v1") {
                return Ok(Report::Event { url: report_url.to_owned() });
            }
            return Err(DeliveryError::Permanent(400));
        },
        Some(ticket) => ticket,
    };
    if !same(event.schema_version.as_str(), "v2") {
        return Err(DeliveryError::Permanent(400));
    }
    let base = match strip_suffix(report_url, "/usage-events") {
        Some(base) => base,
        None => return Err(DeliveryError::Permanent(0)),
    };
    proof {
        let suffix = "/usage-events"@;
        assert(report_url@.take(report_url@.len() - suffix.len()) =~= base@);
        assert(report_url@.subrange(base@.len() as int, report_url@.len() as int) =~= suffix);
        assert(suffix.is_suffix_of(report_url@));
    }
    let mut url = join(base, "/billing/projects/");
    url.append(ticket.project_id.as_str());
    url.append("/reservations/");
    url.append(ticket.id.as_str());
    if event.usage_known && event.input_tokens <= unsigned_limit(ticket.input_token_limit)
        && event.output_tokens <= unsigned_limit(ticket.output_token_limit) {
        if event.input_tokens > i64::MAX as u64 || event.output_tokens > i64::MAX as u64
            || event.latency_ms > i64::MAX as u64 {
            return Err(DeliveryError::Permanent(400));
        }
        let status = if same(event.status.as_str(), "succeeded") {
            "succeeded"
        } else if same(event.status.as_str(), "cancelled") {
            "cancelled"
        } else {
            "provider_error"
        };
        url.append("/settle");
        Ok(
            Report::Settle {
                url,
                settlement: SettleRequest {
                    input_tokens: event.input_tokens as i64,
                    output_tokens: event.output_tokens as i64,
                    latency_ms: event.latency_ms as i64,
                    endpoint_id: event.endpoint_id.clone(),
                    region: event.region.clone(),
                    status: status.to_owned(),
                },
            },
        )
    } else {
        let reason = if event.usage_known {
            "usage_over_limit"
        } else {
            "usage_missing"
        };
        url.append("/unresolved");
        Ok(
            Report::Unresolved {
                url,
                outcome: UnresolvedRequest {
                    event_id: event.event_id.clone(),
                    reason: reason.to_owned(),
                    input_tokens: if event.usage_known {
                        Some(event.input_tokens)
                    } else {
                        None
                    },
                    output_tokens: if event.usage_known {
                        Some(event.output_tokens)
                    } else {
                        None
                    },
                },
            },
        )
    }
}

/// Usage that is not known is never reported as usage of zero: no settlement is
/// made of it, and the unresolved outcome carries no counts.
pub proof fn law_unknown_usage_is_not_zero(report_url: Seq<char>, event: UsageEvent, r: Report)
    requires
        event.billing is Some,
        !event.usage_known,
        report_of(report_url, event, r),
    ensures
        r is Unresolved,
        r->Unresolved_outcome.reason@ == "usage_missing"@,
        r->Unresolved_outcome.input_tokens is None,
        r->Unresolved_outcome.output_tokens is None,
{
}

/// A settlement stays within the limits of its ticket.
pub proof fn law_settlements_stay_within_the_ticket(
    report_url: Seq<char>,
    event: UsageEvent,
    r: Report,
)
    requires
        event.billing matches Some(ticket) && ticket.input_token_limit >= 0
            && ticket.output_token_limit >= 0,
        report_of(report_url, event, r),
        r is Settle,
    ensures
        0 <= r->Settle_settlement.input_tokens <= event.billing->0.input_token_limit,
        0 <= r->Settle_settlement.output_tokens <= event.billing->0.output_token_limit,
{
}

/// A report that the control plane did not answer, or answered with a server error, a timeout
/// or a request to slow down, is to be sent again under the very status that it met.
pub proof fn law_failures_that_pass_are_sent_again(status: u16)
    requires
        500 <= status <= 599 || status == 408 || status == 425 || status == 429,
    ensures
        reply_of(Some(status)) == Err::<(), DeliveryError>(DeliveryError::Retry(status)),
        failure_of(Some(status)) == DeliveryError::Retry(status),
        reply_of(None) == Err::<(), DeliveryError>(DeliveryError::Retry(0)),
        failure_of(None) == DeliveryError::Retry(0),
{
}

/// Nothing but a success acknowledges a report, and what a client did wrong is not repeated:
/// no success is an error, and no other refusal is tried again.
pub proof fn law_only_success_acknowledges(status: u16)
    ensures
        reply_of(Some(status)) is Ok <==> status / 100 == 2,
        reply_of(Some(status)) is Err ==> reply_of(Some(status))->Err_0 == DeliveryError::Retry(
            status,
        ) || reply_of(Some(status))->Err_0 == DeliveryError::Permanent(status),
        status / 100 == 3 || status < 200 || status >= 600 ==> reply_of(Some(status)) == Err::<
            (),
            DeliveryError,
        >(DeliveryError::Permanent(status)),
        status / 100 == 4 && status != 408 && status != 425 && status != 429 ==> reply_of(
            Some(status),
        ) == Err::<(), DeliveryError>(DeliveryError::Permanent(status)),
{
}

/// Known usage within the limits of its ticket is settled as it was counted; known usage
/// beyond one of them is reported with its counts and not settled.
pub proof fn law_usage_within_the_ticket_is_settled(
    report_url: Seq<char>,
    event: UsageEvent,
    ticket: Ticket,
    r: Report,
)
    requires
        event.billing == Some(ticket),
        event.usage_known,
        ticket.input_token_limit >= 0,
        ticket.output_token_limit >= 0,
        report_of(report_url, event, r),
    ensures
        r is Settle <==> event.input_tokens <= ticket.input_token_limit && event.output_tokens
            <= ticket.output_token_limit,
        r is Settle ==> r->Settle_settlement.input_tokens == event.input_tokens
            && r->Settle_settlement.output_tokens == event.output_tokens,
        r is Unresolved ==> r->Unresolved_outcome.reason@ == "usage_over_limit"@
            && r->Unresolved_outcome.input_tokens == Some(event.input_tokens)
            && r->Unresolved_outcome.output_tokens == Some(event.output_tokens)
            && r->Unresolved_outcome.event_id == event.event_id,
        r is Settle || r is Unresolved,
{
}

/// An event without a hold is reported as it is, and only under the first schema; one with a
/// hold is reported to the hold, and only under the second.
pub proof fn law_events_are_reported_where_they_are_held(
    report_url: Seq<char>,
    base: Seq<char>,
    event: UsageEvent,
    r: Report,
)
    requires
        report_url == base + "/usage-events"@,
        report_of(report_url, event, r),
    ensures
        event.billing is None ==> r is Event && r->Event_url@ == report_url,
        event.billing matches Some(ticket) ==> {
            let hold = base + "/billing/projects/"@ + ticket.project_id@ + "/reservations/"@
                + ticket.id@;
            &&& r is Settle ==> r->Settle_url@ == hold + "/settle"@
            &&& r is Unresolved ==> r->Unresolved_url@ == hold + "/unresolved"@
            &&& r is Settle || r is Unresolved
        },
        event.schema_version@ == "v1"@ && event.billing is None ==> report_fault(
            report_url,
            event,
        ) is None,
        event.schema_version@ != "v1"@ && event.schema_version@ != "v2"@ ==> report_fault(
            report_url,
            event,
        ) == Some(DeliveryError::Permanent(400)),
        event.schema_version@ == "v1"@ && event.billing is Some ==> report_fault(report_url, event)
            == Some(DeliveryError::Permanent(400)),
        event.schema_version@ == "v2"@ && event.billing is None ==> report_fault(report_url, event)
            == Some(DeliveryError::Permanent(400)),
        event.schema_version@ == "v2"@ && event.billing is Some && event.latency_ms <= i64::MAX
            && event.input_tokens <= i64::MAX && event.output_tokens <= i64::MAX ==> report_fault(
            report_url,
            event,
        ) is None,
{
    reveal_strlit("v1");
    reveal_strlit("v2");
    assert("v1"@[1] != "v2"@[1]);
    assert(report_url.take(report_url.len() - "/usage-events"@.len()) =~= base);
    assert("/usage-events"@.is_suffix_of(report_url)) by {
        assert(report_url.subrange(base.len() as int, report_url.len() as int)
            =~= "/usage-events"@);
    }
}

/// Usage is known only if both counts are given, once each and as whole numbers; then it is
/// those counts.
pub proof fn law_usage_is_both_counts_or_none(json: Json, prompt: u64, completion: u64)
    ensures
        member(json, "prompt_tokens"@) == Some(natural_json(prompt)) && member(
            json,
            "completion_tokens"@,
        ) == Some(natural_json(completion)) ==> usage_in(json) == Some(
            CompletionUsage { prompt_tokens: prompt, completion_tokens: completion },
        ),
        json is Object && member(json, "prompt_tokens"@) is None ==> usage_in(json) is None,
        json is Object && member(json, "completion_tokens"@) is None ==> usage_in(json) is None,
        both_counts(Some(prompt), Some(completion)) == Some(
            CompletionUsage { prompt_tokens: prompt, completion_tokens: completion },
        ),
        both_counts(None, Some(completion)) is None,
        both_counts(Some(prompt), None) is None,
{
}

/// A count or a usage that is given twice in a body is none, whatever the two say.
pub proof fn law_repeated_usage_is_unknown(bytes: Seq<u8>)
    requires
        raw_members(bytes) is Some,
    ensures
        given_twice(bytes, "usage"@) ==> body_usage(bytes) is None,
        given_twice(bytes, "prompt_tokens"@) || given_twice(bytes, "completion_tokens"@)
            ==> raw_usage(bytes) is None,
        !raw_members(bytes)->0.dom().contains("usage"@) ==> body_usage(bytes) is None,
{
}

/// An event is written down with the counts and the identity that it has, and with its hold if
/// it has one.
pub proof fn law_events_are_written_in_full(e: UsageEvent)
    ensures
        member(event_json(e), "input_tokens"@) == Some(natural_json(e.input_tokens)),
        member(event_json(e), "output_tokens"@) == Some(natural_json(e.output_tokens)),
        member(event_json(e), "event_id"@) == Some(Json::Text(e.event_id@)),
        member(event_json(e), "request_id"@) == Some(Json::Text(e.request_id@)),
        member(event_json(e), "api_key_id"@) == Some(Json::Text(e.api_key_id@)),
        member(event_json(e), "status"@) == Some(Json::Text(e.status@)),
        member(event_json(e), "usage_known"@) == Some(Json::Bool(e.usage_known)),
        e.billing is Some ==> member(event_json(e), "billing"@) == Some(ticket_json(e.billing->0)),
        e.billing is None ==> member(event_json(e), "billing"@) is None,
{
    reveal_strlit("usage_known");
    reveal_strlit("schema_version");
    reveal_strlit("event_id");
    reveal_strlit("request_id");
    reveal_strlit("occurred_at");
    reveal_strlit("tenant_id");
    reveal_strlit("project_id");
    reveal_strlit("api_key_id");
    reveal_strlit("model_id");
    reveal_strlit("model_revision");
    reveal_strlit("endpoint_id");
    reveal_strlit("region");
    reveal_strlit("price_version");
    reveal_strlit("input_tokens");
    reveal_strlit("output_tokens");
    reveal_strlit("cached_input_tokens");
    reveal_strlit("latency_ms");
    reveal_strlit("status");
    reveal_strlit("billing");
    assert("usage_known"@.len() == 11);
    assert("schema_version"@.len() == 14);
    assert("event_id"@.len() == 8);
    assert("request_id"@.len() == 10);
    assert("occurred_at"@.len() == 11);
    assert("tenant_id"@.len() == 9);
    assert("project_id"@.len() == 10);
    assert("api_key_id"@.len() == 10);
    assert("model_id"@.len() == 8);
    assert("model_revision"@.len() == 14);
    assert("endpoint_id"@.len() == 11);
    assert("region"@.len() == 6);
    assert("price_version"@.len() == 13);
    assert("input_tokens"@.len() == 12);
    assert("output_tokens"@.len() == 13);
    assert("cached_input_tokens"@.len() == 19);
    assert("latency_ms"@.len() == 10);
    assert("status"@.len() == 6);
    assert("billing"@.len() == 7);
    assert("usage_known"@[0] == 'u' && "occurred_at"@[0] == 'o' && "endpoint_id"@[0] == 'e');
    assert("output_tokens"@[0] == 'o' && "price_version"@[0] == 'p');
    assert("event_id"@[0] == 'e' && "model_id"@[0] == 'm');
    assert("request_id"@[0] == 'r' && "project_id"@[0] == 'p' && "api_key_id"@[0] == 'a'
        && "latency_ms"@[0] == 'l');
    assert("status"@[0] == 's' && "region"@[0] == 'r');
}

/// An event is of the key, the model and the endpoint of its record, with the counts of the
/// record; what the record leaves open comes from where the gateway runs.
pub proof fn law_events_are_of_their_record(
    sink: UsageSink,
    record: UsageRecord,
    at: Timestamp,
    e: UsageEvent,
)
    requires
        event_of(sink, record, at, e),
    ensures
        e.api_key_id == record.principal.api_key_id && e.project_id == record.principal.project_id
            && e.tenant_id == record.principal.tenant_id,
        e.request_id@ == record.request_id@ && e.model_id@ == record.model_id@ && e.endpoint_id@
            == record.endpoint_id@,
        e.input_tokens == record.input_tokens && e.output_tokens == record.output_tokens,
        e.cached_input_tokens == 0 && e.latency_ms == record.latency_ms,
        e.usage_known == record.usage_known && e.status@ == record.status@,
        e.occurred_at == at && e.region == sink.region,
        record.billing is Some <==> e.billing is Some,
        record.billing is Some ==> e.billing->0 == *record.billing->0,
        e.schema_version@ == "v2"@ <==> e.billing is Some,
        record.model_revision@.len() > 0 ==> e.model_revision@ == record.model_revision@,
        record.model_revision@.len() == 0 ==> e.model_revision@ == sink.model_revision@,
        record.price_version is Some ==> e.price_version@ == record.price_version->0@,
        record.price_version is None ==> e.price_version@ == sink.price_version@,
{
    reveal_strlit("v1");
    reveal_strlit("v2");
    assert("v1"@[1] != "v2"@[1]);
}

/// A settlement is of the same endpoint, region and duration as its event, and ends as the event
/// did: succeeded, cancelled, or failed at the provider.
pub proof fn law_settlements_say_how_the_request_ended(
    report_url: Seq<char>,
    event: UsageEvent,
    r: Report,
)
    requires
        report_of(report_url, event, r),
        r is Settle,
    ensures
        r->Settle_settlement.endpoint_id == event.endpoint_id,
        r->Settle_settlement.region == event.region,
        r->Settle_settlement.latency_ms == event.latency_ms,
        event.status@ == "succeeded"@ <==> r->Settle_settlement.status@ == "succeeded"@,
        event.status@ == "cancelled"@ <==> r->Settle_settlement.status@ == "cancelled"@,
        r->Settle_settlement.status@ == "succeeded"@ || r->Settle_settlement.status@
            == "cancelled"@ || r->Settle_settlement.status@ == "provider_error"@,
{
    reveal_strlit("succeeded");
    reveal_strlit("cancelled");
    reveal_strlit("provider_error");
    assert("succeeded"@.len() == 9 && "cancelled"@.len() == 9 && "provider_error"@.len() == 14);
    assert("succeeded"@[0] == 's' && "cancelled"@[0] == 'c');
}

} // verus!
