//! The life of one request, from its admission to what is reported of it.
use crate::collections::TextMap;
use crate::domain::catalog::ServingEndpoint;
use crate::domain::{Model, Timestamp};
use crate::gateway::auth::Principal;
use crate::gateway::billing::Ticket;
use crate::gateway::config::ServingConfig;
use crate::gateway::delivery;
use crate::gateway::proxy::MAX_CAPTURE_BYTES;
use crate::gateway::quota::QuotaReservation;
use crate::gateway::streaming::{observed, StreamMeter};
use crate::gateway::traffic;
use crate::gateway::usage::{
    body_usage, CompletionResponse, CompletionUsage, UsageEvent, UsageRecord, UsageSink,
};
use crate::gateway::{http_refusal, internal_refusal, Refusal, Why};
use crate::headers::lowered;
use crate::text::{decimal, int_text, lowercase, same, split_once, trim, trimmed};
use vstd::prelude::*;

verus! {

pub struct RequestContext {
    pub request_id: String,
    pub principal: Option<Principal>,
    pub endpoint_id: String,
    pub model_revision: String,
    pub policy_revision: i64,
    pub selected_model: Option<Model>,
    pub selected_endpoint: Option<ServingEndpoint>,
    pub body_sent: bool,
    pub traffic_permit: Option<traffic::Permit>,
    pub model_id: String,
    pub request_body: Vec<u8>,
    pub response_body: Vec<u8>,
    pub response_overflow: bool,
    pub stream_requested: bool,
    pub text_completion: bool,
    pub stream_response: bool,
    pub stream_meter: StreamMeter,
    pub response_complete: bool,
    pub response_status: u16,
    pub meterable: bool,
    pub quota_reservation: Option<QuotaReservation>,
    pub billing_ticket: Option<Ticket>,
    pub usage_permit: Option<delivery::Permit>,
    pub usage_emitted: bool,
}

impl Default for RequestContext {
    fn default() -> (r: Self)
        ensures
            r.request_id@.len() == 0,
            r.principal is None,
            r.endpoint_id@.len() == 0,
            r.model_revision@.len() == 0,
            r.policy_revision == 0,
            r.selected_model is None,
            r.selected_endpoint is None,
            !r.body_sent,
            r.traffic_permit is None,
            r.model_id@ == "unknown"@,
            r.request_body@.len() == 0,
            r.response_body@.len() == 0,
            !r.response_overflow,
            !r.stream_requested,
            !r.text_completion,
            !r.stream_response,
            r.stream_meter.wf(),
            r.stream_meter.seen().len() == 0,
            r.stream_meter.usage is None,
            !r.stream_meter.done,
            !r.stream_meter.invalid,
            !r.response_complete,
            r.response_status == 0,
            !r.meterable,
            r.quota_reservation is None,
            r.billing_ticket is None,
            r.usage_permit is None,
            !r.usage_emitted,
    {
        RequestContext {
            request_id: String::new(),
            principal: None,
            endpoint_id: String::new(),
            model_revision: String::new(),
            policy_revision: 0,
            selected_model: None,
            selected_endpoint: None,
            body_sent: false,
            traffic_permit: None,
            model_id: "unknown".to_owned(),
            request_body: Vec::new(),
            response_body: Vec::new(),
            response_overflow: false,
            stream_requested: false,
            text_completion: false,
            stream_response: false,
            stream_meter: StreamMeter::default(),
            response_complete: false,
            response_status: 0,
            meterable: false,
            quota_reservation: None,
            billing_ticket: None,
            usage_permit: None,
            usage_emitted: false,
        }
    }
}

/// Whose end of a request failed.
#[derive(Clone, Copy, Debug, PartialEq, Eq, Structural)]
pub enum Failure {
    Downstream,
    Other,
}

/// A content type that announces a stream of events.
pub open spec fn announces_stream(content_type: Option<&str>) -> bool {
    match content_type {
        Some(text) => lowered(trimmed(media_type(text@))) == "text/event-stream"@,
        None => false,
    }
}

/// A content type without its parameters.
pub open spec fn media_type(text: Seq<char>) -> Seq<char> {
    if text.contains(';') {
        text.take(text.index_of_first(';')->0)
    } else {
        text
    }
}

fn is_stream(content_type: Option<&str>) -> (r: bool)
    ensures
        r == announces_stream(content_type),
{
    let text = match content_type {
        Some(text) => text,
        None => return false,
    };
    let media = match split_once(text, ';') {
        Some((head, tail)) => {
            proof {
                text@.index_of_first_ensures(';');
                let first = text@.index_of_first(';')->0;
                assert(text@[head@.len() as int] == ';');
                assert(text@.contains(';'));
                assert(first == head@.len()) by {
                    if first < head@.len() {
                        assert(head@[first] == ';');
                        assert(head@.contains(';'));
                    }
                }
                assert(text@.take(first) =~= head@);
            }
            head
        },
        None => text,
    };
    same(lowercase(trim(media)).as_str(), "text/event-stream")
}

/// A header of a response.
pub struct Header {
    pub name: &'static str,
    pub value: String,
}

pub open spec fn header_views(headers: Seq<Header>) -> Seq<(Seq<char>, Seq<char>)> {
    headers.map_values(|h: Header| (h.name@, h.value@))
}

/// A change to the headers of a request: a value in place of what was under the
/// name, or nothing in its place.
pub struct Change {
    pub name: String,
    pub value: Option<String>,
}

pub open spec fn change_view(change: Change) -> (Seq<char>, Option<Seq<char>>) {
    (
        change.name@,
        match change.value {
            Some(value) => Some(value@),
            None => None,
        },
    )
}

pub open spec fn change_views(changes: Seq<Change>) -> Seq<(Seq<char>, Option<Seq<char>>)> {
    changes.map_values(|change: Change| change_view(change))
}

fn put(name: &str, value: &str) -> (r: Change)
    ensures
        change_view(r) == (name@, Some(value@)),
{
    Change { name: name.to_owned(), value: Some(value.to_owned()) }
}

fn taken(name: &str) -> (r: Change)
    ensures
        change_view(r) == (name@, None::<Seq<char>>),
{
    Change { name: name.to_owned(), value: None }
}

/// Where a request goes: to an entry of the catalog, whose address is looked up,
/// or to one that this gateway was set up with.
pub enum Peer<'a> {
    Looked(&'a ServingEndpoint),
    Reached(&'a ServingConfig),
}

/// What came of looking for the address of a serving entry.
#[derive(Clone, Copy, Debug, PartialEq, Eq, Structural)]
pub enum Resolution {
    TimedOut,
    Failed,
    Empty,
    Found,
    Unhealthy,
}

/// Why there is no address to send a request to, if there is none.
pub fn resolution_refusal(resolution: Resolution) -> (r: Option<Refusal>)
    ensures
        match r {
            Some(refusal) => refusal@ == (Why {
                status: Some(503),
                message: match resolution {
                    Resolution::TimedOut => "serving DNS deadline exceeded"@,
                    Resolution::Failed => "serving DNS unavailable"@,
                    Resolution::Empty => "serving DNS returned no addresses"@,
                    _ => "no healthy serving entry"@,
                },
            }),
            None => true,
        },
        r is None <==> resolution == Resolution::Found,
{
    match resolution {
        Resolution::TimedOut => Some(http_refusal(503, "serving DNS deadline exceeded")),
        Resolution::Failed => Some(http_refusal(503, "serving DNS unavailable")),
        Resolution::Empty => Some(http_refusal(503, "serving DNS returned no addresses")),
        Resolution::Unhealthy => Some(http_refusal(503, "no healthy serving entry")),
        Resolution::Found => None,
    }
}

impl RequestContext {
    /// Everything but what belongs to the response is as it was.
    pub open spec fn same_request(self, other: RequestContext) -> bool {
        self == (RequestContext {
            response_body: self.response_body,
            response_overflow: self.response_overflow,
            stream_response: self.stream_response,
            stream_meter: self.stream_meter,
            response_complete: self.response_complete,
            response_status: self.response_status,
            ..other
        })
    }

    /// Hands out the body that admission prepared, once.
    pub fn forward_body(&mut self, end_of_stream: bool) -> (r: Result<Vec<u8>, Refusal>)
        ensures
            match r {
                Ok(body) => {
                    &&& end_of_stream && !old(self).body_sent && old(self).meterable
                    &&& body@ == old(self).request_body@
                    &&& final(self).request_body@.len() == 0
                    &&& *final(self) == (RequestContext {
                        body_sent: true,
                        request_body: final(self).request_body,
                        ..*old(self)
                    })
                },
                Err(refusal) => {
                    &&& !end_of_stream || old(self).body_sent || !old(self).meterable
                    &&& refusal@ == (Why {
                        status: None,
                        message: "unexpected admitted request body state"@,
                    })
                    &&& *final(self) == *old(self)
                },
            },
    {
        if !end_of_stream || self.body_sent || !self.meterable {
            return Err(internal_refusal("unexpected admitted request body state"));
        }
        let mut body: Vec<u8> = Vec::new();
        std::mem::swap(&mut body, &mut self.request_body);
        self.body_sent = true;
        Ok(body)
    }

    /// Where the request goes.
    pub fn peer<'a>(&'a self, transports: &'a TextMap<ServingConfig>) -> (r: Result<
        Peer<'a>,
        Refusal,
    >)
        requires
            transports.wf(),
        ensures
            match r {
                Ok(Peer::Looked(endpoint)) => self.selected_endpoint == Some(*endpoint),
                Ok(Peer::Reached(config)) => {
                    &&& self.selected_endpoint is None
                    &&& transports@.dom().contains(self.endpoint_id@)
                    &&& transports@[self.endpoint_id@] == *config
                },
                Err(refusal) => {
                    &&& self.selected_endpoint is None
                    &&& !transports@.dom().contains(self.endpoint_id@)
                    &&& refusal@ == (Why {
                        status: Some(503),
                        message: "selected serving pool is unavailable"@,
                    })
                },
            },
    {
        if let Some(endpoint) = &self.selected_endpoint {
            return Ok(Peer::Looked(endpoint));
        }
        match transports.get(self.endpoint_id.as_str()) {
            Some(config) => Ok(Peer::Reached(config)),
            None => Err(http_refusal(503, "selected serving pool is unavailable")),
        }
    }

    /// How the headers of a request change on its way to serving, once those that
    /// steer it were stripped. A managed pool is named only where a permit was
    /// taken. `trace` are the headers of the trace, where the request has one:
    /// they take the place of the client's. The body may have been rewritten, so
    /// its length is not known beforehand.
    pub fn upstream_changes(&self, trace: Option<Vec<Change>>, http2: bool) -> (r: Vec<Change>)
        ensures
            change_views(r@) == (if self.traffic_permit is Some {
                seq![("x-xscope-managed-pool"@, Some(self.endpoint_id@))]
            } else {
                seq![]
            }) + seq![("x-request-id"@, Some(self.request_id@))] + (match trace {
                Some(headers) => seq![
                    ("traceparent"@, None::<Seq<char>>),
                    ("tracestate"@, None::<Seq<char>>),
                    ("baggage"@, None::<Seq<char>>),
                ] + change_views(headers@),
                None => seq![],
            }) + seq![("content-length"@, None::<Seq<char>>)] + (if http2 {
                seq![]
            } else {
                seq![("transfer-encoding"@, Some("chunked"@))]
            }),
    {
        let mut changes: Vec<Change> = Vec::new();
        if self.traffic_permit.is_some() {
            changes.push(put("x-xscope-managed-pool", self.endpoint_id.as_str()));
        }
        changes.push(put("x-request-id", self.request_id.as_str()));
        if let Some(headers) = trace {
            changes.push(taken("traceparent"));
            changes.push(taken("tracestate"));
            changes.push(taken("baggage"));
            let ghost before = changes@;
            let mut headers = headers;
            changes.append(&mut headers);
            assert(change_views(changes@) =~= change_views(before) + change_views(trace->0@));
        }
        changes.push(taken("content-length"));
        if !http2 {
            changes.push(put("transfer-encoding", "chunked"));
        }
        changes
    }

    /// The head of a response has come.
    pub fn start_response(&mut self, status: u16, content_type: Option<&str>)
        ensures
            *final(self) == (RequestContext {
                response_status: status,
                stream_response: announces_stream(content_type),
                ..*old(self)
            }),
    {
        self.response_status = status;
        self.stream_response = is_stream(content_type);
    }

    /// What the gateway says of a response in its headers. `trace_id` is that of
    /// the trace, where the request has one.
    pub fn response_headers(&self, trace_id: Option<&str>) -> (r: Vec<Header>)
        ensures
            header_views(r@) == (match self.billing_ticket {
                Some(ticket) => seq![("x-xscope-billing-request-id"@, ticket.id@)],
                None => seq![],
            }) + seq![
                ("x-xscope-pool"@, self.endpoint_id@),
                ("x-xscope-model-revision"@, self.model_revision@),
                ("x-xscope-route-revision"@, int_text(self.policy_revision as int)),
            ] + (match trace_id {
                Some(id) => seq![("x-trace-id"@, id@)],
                None => seq![],
            }) + (if self.stream_response {
                seq![("cache-control"@, "no-cache"@), ("x-accel-buffering"@, "no"@)]
            } else {
                seq![]
            }) + seq![("x-request-id"@, self.request_id@)],
    {
        let mut headers: Vec<Header> = Vec::new();
        if let Some(ticket) = &self.billing_ticket {
            headers.push(
                Header { name: "x-xscope-billing-request-id", value: ticket.id.clone() },
            );
        }
        headers.push(Header { name: "x-xscope-pool", value: self.endpoint_id.clone() });
        headers.push(Header { name: "x-xscope-model-revision", value: self.model_revision.clone() });
        headers.push(
            Header { name: "x-xscope-route-revision", value: decimal(self.policy_revision) },
        );
        if let Some(id) = trace_id {
            headers.push(Header { name: "x-trace-id", value: id.to_owned() });
        }
        if self.stream_response {
            headers.push(Header { name: "cache-control", value: "no-cache".to_owned() });
            headers.push(Header { name: "x-accel-buffering", value: "no".to_owned() });
        }
        headers.push(Header { name: "x-request-id", value: self.request_id.clone() });
        headers
    }

    /// A part of a response has come. A stream is metered, and a fault in it is
    /// the text of an answer with status 502; any other body is kept up to the
    /// bound.
    pub fn observe_response(&mut self, chunk: Option<&[u8]>, end_of_stream: bool) -> (r: Result<
        (),
        String,
    >)
        requires
            old(self).response_body@.len() <= MAX_CAPTURE_BYTES,
        ensures
            final(self).response_body@.len() <= MAX_CAPTURE_BYTES,
            final(self).same_request(*old(self)),
            final(self).stream_response == old(self).stream_response,
            final(self).response_status == old(self).response_status,
            final(self).response_complete == (old(self).response_complete || (end_of_stream
                && r is Ok)),
            match chunk {
                Some(bytes) if old(self).stream_response => {
                    &&& old(self).stream_meter.wf() ==> observed(
                        old(self).stream_meter,
                        bytes@,
                        final(self).stream_meter,
                        r,
                    )
                    &&& final(self).response_body == old(self).response_body
                    &&& final(self).response_overflow == old(self).response_overflow
                },
                Some(bytes) => {
                    &&& r is Ok
                    &&& final(self).stream_meter == old(self).stream_meter
                    &&& if old(self).response_overflow {
                        final(self).response_overflow && final(self).response_body
                            == old(self).response_body
                    } else if old(self).response_body@.len() + bytes@.len() <= MAX_CAPTURE_BYTES {
                        !final(self).response_overflow && final(self).response_body@
                            == old(self).response_body@ + bytes@
                    } else {
                        final(self).response_overflow && final(self).response_body@.len() == 0
                    }
                },
                None => {
                    &&& r is Ok
                    &&& *final(self) == (RequestContext {
                        response_complete: final(self).response_complete,
                        ..*old(self)
                    })
                },
            },
    {
        if let Some(bytes) = chunk {
            if self.stream_response {
                let metered = self.stream_meter.observe(bytes);
                if metered.is_err() {
                    return metered;
                }
            } else if !self.response_overflow {
                if bytes.len() <= MAX_CAPTURE_BYTES - self.response_body.len() {
                    self.response_body.extend_from_slice(bytes);
                } else {
                    self.response_overflow = true;
                    self.response_body = Vec::new();
                }
            }
        }
        if end_of_stream {
            self.response_complete = true;
        }
        Ok(())
    }

    /// The usage that the kept body of a response states.
    pub fn captured_usage(&self) -> (r: Option<CompletionUsage>)
        ensures
            r == body_usage(self.response_body@),
    {
        match CompletionResponse::from_slice(self.response_body.as_slice()) {
            Some(response) => Some(response.usage),
            None => None,
        }
    }

    /// The usage that is known of a response. `captured` is what a body that was
    /// not streamed states, where it was kept whole.
    pub open spec fn usage_of(self, captured: Option<CompletionUsage>) -> Option<CompletionUsage> {
        if self.stream_response {
            self.stream_meter.usage
        } else if self.response_overflow {
            None
        } else {
            captured
        }
    }

    /// The usage that is known of a response whose body states `captured`.
    pub fn actual_usage_with(&self, captured: Option<CompletionUsage>) -> (r: Option<
        CompletionUsage,
    >)
        ensures
            r == self.usage_of(captured),
    {
        if self.stream_response {
            self.stream_meter.usage
        } else if self.response_overflow {
            None
        } else {
            captured
        }
    }

    /// The usage that is known of a response.
    pub fn actual_usage(&self) -> (r: Option<CompletionUsage>)
        ensures
            r == self.usage_of(body_usage(self.response_body@)),
    {
        self.actual_usage_with(self.captured_usage())
    }

    /// How a request ended.
    pub open spec fn ended(
        self,
        failure: Option<Failure>,
        captured: Option<CompletionUsage>,
    ) -> Seq<char> {
        if failure == Some(Failure::Downstream) {
            "cancelled"@
        } else if failure is Some || self.response_status >= 500 || self.stream_meter.invalid {
            "provider_error"@
        } else if self.response_status >= 400 {
            "client_error"@
        } else if !self.response_complete || (self.stream_requested && (!self.stream_response
            || !self.stream_meter.done)) {
            "provider_error"@
        } else if self.usage_of(captured) is None {
            "usage_pending"@
        } else {
            "succeeded"@
        }
    }

    /// How a request ended whose response states `captured`.
    pub fn outcome_with(&self, failure: Option<Failure>, captured: Option<CompletionUsage>) -> (r:
        &'static str)
        ensures
            r@ == self.ended(failure, captured),
    {
        match failure {
            Some(Failure::Downstream) => return "cancelled",
            Some(Failure::Other) => return "provider_error",
            None => {},
        }
        if self.response_status >= 500 || self.stream_meter.invalid {
            "provider_error"
        } else if self.response_status >= 400 {
            "client_error"
        } else if !self.response_complete || (self.stream_requested && (!self.stream_response
            || !self.stream_meter.done)) {
            "provider_error"
        } else if self.actual_usage_with(captured).is_none() {
            "usage_pending"
        } else {
            "succeeded"
        }
    }

    /// How a request ended.
    pub fn outcome(&self, failure: Option<Failure>) -> (r: &'static str)
        ensures
            r@ == self.ended(failure, body_usage(self.response_body@)),
    {
        self.outcome_with(failure, self.captured_usage())
    }

    /// The outcome that a trace is closed with. `written` is the status that the
    /// client was sent, if it was sent one.
    pub fn traced_outcome(&self, failure: Option<Failure>, written: Option<u16>) -> (r: (
        u16,
        &'static str,
    ))
        ensures
            r.0 == match written {
                Some(status) => status,
                None => self.response_status,
            },
            r.1@ == if self.meterable {
                self.ended(failure, body_usage(self.response_body@))
            } else if r.0 >= 500 {
                "provider_error"@
            } else if r.0 >= 400 {
                "rejected"@
            } else {
                "succeeded"@
            },
    {
        let status: u16 = match written {
            Some(status) => status,
            None => self.response_status,
        };
        let outcome = if self.meterable {
            self.outcome(failure)
        } else if status >= 500 {
            "provider_error"
        } else if status >= 400 {
            "rejected"
        } else {
            "succeeded"
        };
        (status, outcome)
    }

    /// The tokens that a distributed reservation is settled with. Unknown usage
    /// is not zero: without it the reservation lasts until its minute ends.
    pub fn settled_tokens(&self) -> (r: Option<u64>)
        ensures
            match self.usage_of(body_usage(self.response_body@)) {
                Some(usage) => r == Some(
                    if usage.prompt_tokens + usage.completion_tokens <= u64::MAX {
                        (usage.prompt_tokens + usage.completion_tokens) as u64
                    } else {
                        u64::MAX
                    },
                ),
                None => r is None,
            },
    {
        match self.actual_usage() {
            Some(usage) => Some(usage.prompt_tokens.saturating_add(usage.completion_tokens)),
            None => None,
        }
    }

    /// What is reported of a request that was let in; nothing of any other.
    pub open spec fn reported(
        self,
        sink: UsageSink,
        failure: Option<Failure>,
        captured: Option<CompletionUsage>,
        latency_ms: u64,
        at: Timestamp,
        event: UsageEvent,
    ) -> bool {
        let usage = self.usage_of(captured);
        &&& event.billing == self.billing_ticket
        &&& event.schema_version@ == if self.billing_ticket is Some {
            "v2"@
        } else {
            "v1"@
        }
        &&& event.usage_known == usage is Some
        &&& event.request_id@ == self.request_id@
        &&& event.occurred_at == at
        &&& event.tenant_id == self.principal->0.tenant_id
        &&& event.project_id == self.principal->0.project_id
        &&& event.api_key_id == self.principal->0.api_key_id
        &&& event.model_id@ == self.model_id@
        &&& event.model_revision@ == if self.model_revision@.len() == 0 {
            sink.model_revision@
        } else {
            self.model_revision@
        }
        &&& event.endpoint_id@ == self.endpoint_id@
        &&& event.region == sink.region
        &&& event.price_version@ == match self.selected_model {
            Some(model) => model.price_version@,
            None => sink.price_version@,
        }
        &&& event.input_tokens == match usage {
            Some(usage) => usage.prompt_tokens,
            None => 0,
        }
        &&& event.output_tokens == match usage {
            Some(usage) => usage.completion_tokens,
            None => 0,
        }
        &&& event.cached_input_tokens == 0
        &&& event.latency_ms == latency_ms
        &&& event.status@ == self.ended(failure, captured)
    }

    /// The usage event of a request, if it was let in.
    pub fn emit_usage(
        &self,
        sink: &UsageSink,
        failure: Option<Failure>,
        latency_ms: u64,
        at: Timestamp,
    ) -> (r: Option<UsageEvent>)
        ensures
            match r {
                Some(event) => {
                    &&& self.meterable
                    &&& self.principal is Some
                    &&& self.reported(
                        *sink,
                        failure,
                        body_usage(self.response_body@),
                        latency_ms,
                        at,
                        event,
                    )
                },
                None => !self.meterable || self.principal is None,
            },
    {
        if !self.meterable {
            return None;
        }
        let principal = match &self.principal {
            Some(principal) => principal,
            None => return None,
        };
        let captured = self.captured_usage();
        let usage = self.actual_usage_with(captured);
        let (input_tokens, output_tokens): (u64, u64) = match usage {
            Some(usage) => (usage.prompt_tokens, usage.completion_tokens),
            None => (0, 0),
        };
        let status = self.outcome_with(failure, captured);
        let record = UsageRecord {
            price_version: match &self.selected_model {
                Some(model) => Some(model.price_version.as_str()),
                None => None,
            },
            request_id: self.request_id.as_str(),
            principal,
            endpoint_id: self.endpoint_id.as_str(),
            model_id: self.model_id.as_str(),
            model_revision: self.model_revision.as_str(),
            input_tokens,
            output_tokens,
            latency_ms,
            status,
            billing: match &self.billing_ticket {
                Some(ticket) => Some(ticket),
                None => None,
            },
            usage_known: usage.is_some(),
        };
        Some(sink.record(&record, at))
    }
}

/// A stream that was asked for and that ended without its terminal marker has
/// not succeeded.
pub proof fn law_streams_end_with_their_marker(
    ctx: RequestContext,
    failure: Option<Failure>,
    captured: Option<CompletionUsage>,
)
    requires
        ctx.stream_requested,
        !ctx.stream_meter.done,
    ensures
        ctx.ended(failure, captured) != "succeeded"@,
        ctx.ended(failure, captured) != "usage_pending"@,
{
    reveal_strlit("cancelled");
    reveal_strlit("provider_error");
    reveal_strlit("client_error");
    reveal_strlit("succeeded");
    reveal_strlit("usage_pending");
    assert("cancelled"@[0] != "succeeded"@[0]);
    assert("cancelled"@[0] != "usage_pending"@[0]);
    assert("provider_error"@[0] != "succeeded"@[0]);
    assert("provider_error"@[0] != "usage_pending"@[0]);
    assert("client_error"@[0] != "succeeded"@[0]);
    assert("client_error"@[0] != "usage_pending"@[0]);
}

/// What succeeded is known: no success is reported without usage.
pub proof fn law_success_states_its_usage(
    ctx: RequestContext,
    failure: Option<Failure>,
    captured: Option<CompletionUsage>,
)
    requires
        ctx.ended(failure, captured) == "succeeded"@,
    ensures
        ctx.usage_of(captured) is Some,
        failure is None,
        ctx.response_complete,
        ctx.response_status < 400,
{
    reveal_strlit("cancelled");
    reveal_strlit("provider_error");
    reveal_strlit("client_error");
    reveal_strlit("succeeded");
    reveal_strlit("usage_pending");
    assert("cancelled"@[0] != "succeeded"@[0]);
    assert("provider_error"@[0] != "succeeded"@[0]);
    assert("client_error"@[0] != "succeeded"@[0]);
    assert("usage_pending"@[0] != "succeeded"@[0]);
}

/// A request succeeded exactly if nothing failed, the answer was no error and came in whole,
/// a stream that was asked for came as one and ended with its marker, and its usage is known.
/// It was cancelled exactly if the client went away.
pub proof fn law_outcomes_are_what_happened(
    ctx: RequestContext,
    failure: Option<Failure>,
    captured: Option<CompletionUsage>,
)
    ensures
        ctx.ended(failure, captured) == "succeeded"@ <==> {
            &&& failure is None
            &&& ctx.response_status < 400
            &&& !ctx.stream_meter.invalid
            &&& ctx.response_complete
            &&& ctx.stream_requested ==> ctx.stream_response && ctx.stream_meter.done
            &&& ctx.usage_of(captured) is Some
        },
        ctx.ended(failure, captured) == "usage_pending"@ <==> {
            &&& failure is None
            &&& ctx.response_status < 400
            &&& !ctx.stream_meter.invalid
            &&& ctx.response_complete
            &&& ctx.stream_requested ==> ctx.stream_response && ctx.stream_meter.done
            &&& ctx.usage_of(captured) is None
        },
        ctx.ended(failure, captured) == "cancelled"@ <==> failure == Some(Failure::Downstream),
        ctx.ended(failure, captured) == "client_error"@ <==> failure is None
            && !ctx.stream_meter.invalid && 400 <= ctx.response_status < 500,
{
    reveal_strlit("succeeded");
    reveal_strlit("cancelled");
    reveal_strlit("provider_error");
    reveal_strlit("client_error");
    reveal_strlit("usage_pending");
    assert("succeeded"@.len() == 9 && "cancelled"@.len() == 9 && "provider_error"@.len() == 14
        && "client_error"@.len() == 12 && "usage_pending"@.len() == 13);
    assert("succeeded"@[0] == 's' && "cancelled"@[0] == 'c');
}

/// The usage of a stream is what the stream said; that of any other answer is what its body
/// said, unless the body was too long to be kept.
pub proof fn law_usage_comes_from_the_answer(
    ctx: RequestContext,
    captured: Option<CompletionUsage>,
)
    ensures
        ctx.stream_response ==> ctx.usage_of(captured) == ctx.stream_meter.usage,
        !ctx.stream_response && !ctx.response_overflow ==> ctx.usage_of(captured) == captured,
        !ctx.stream_response && ctx.response_overflow ==> ctx.usage_of(captured) is None,
{
}

/// The event of a request is in the name of its key, with the counts that its answer stated or
/// none, and with the hold that it was made under.
pub proof fn law_events_report_the_request(
    ctx: RequestContext,
    sink: UsageSink,
    failure: Option<Failure>,
    captured: Option<CompletionUsage>,
    latency_ms: u64,
    at: Timestamp,
    event: UsageEvent,
)
    requires
        ctx.reported(sink, failure, captured, latency_ms, at, event),
    ensures
        event.api_key_id == ctx.principal->0.api_key_id,
        event.project_id == ctx.principal->0.project_id,
        event.tenant_id == ctx.principal->0.tenant_id,
        event.request_id@ == ctx.request_id@,
        event.model_id@ == ctx.model_id@,
        event.billing == ctx.billing_ticket,
        event.schema_version@ == "v2"@ <==> ctx.billing_ticket is Some,
        event.usage_known <==> ctx.usage_of(captured) is Some,
        ctx.usage_of(captured) is Some ==> event.input_tokens == ctx.usage_of(
            captured,
        )->0.prompt_tokens && event.output_tokens == ctx.usage_of(captured)->0.completion_tokens,
        ctx.usage_of(captured) is None ==> event.input_tokens == 0 && event.output_tokens == 0,
        event.latency_ms == latency_ms && event.occurred_at == at,
        event.region == sink.region && event.endpoint_id@ == ctx.endpoint_id@,
        event.cached_input_tokens == 0,
        event.status@ == ctx.ended(failure, captured),
        ctx.selected_model is Some ==> event.price_version@
            == ctx.selected_model->0.price_version@,
{
    reveal_strlit("v1");
    reveal_strlit("v2");
    assert("v1"@[1] != "v2"@[1]);
}

/// An answer is a stream by its media type alone: parameters behind a semicolon, case and space
/// around it do not matter.
pub proof fn law_streams_are_told_by_their_media_type(media: Seq<char>, parameters: Seq<char>)
    requires
        !media.contains(';'),
    ensures
        media_type(media + seq![';'] + parameters) == media,
        media_type(media) == media,
{
    let text = media + seq![';'] + parameters;
    assert(text[media.len() as int] == ';');
    text.index_of_first_ensures(';');
    let at = text.index_of_first(';')->0;
    if at < media.len() {
        assert(media[at] == ';');
    }
    assert(at <= media.len());
    assert(text.take(at) =~= media);
}

/// Watching a response leaves what the request is: who sent it, for which model and pool, and
/// under which ticket.
pub proof fn law_responses_leave_the_request(a: RequestContext, b: RequestContext)
    requires
        a.same_request(b),
    ensures
        a.request_id == b.request_id && a.principal == b.principal && a.model_id == b.model_id
            && a.model_revision == b.model_revision && a.endpoint_id == b.endpoint_id
            && a.billing_ticket == b.billing_ticket && a.selected_model == b.selected_model,
{
}

/// An event reports the revision that served the request, or that of the sink where none was
/// chosen.
pub proof fn law_events_report_the_revision_that_served(
    ctx: RequestContext,
    sink: UsageSink,
    failure: Option<Failure>,
    captured: Option<CompletionUsage>,
    latency_ms: u64,
    at: Timestamp,
    event: UsageEvent,
)
    requires
        ctx.reported(sink, failure, captured, latency_ms, at, event),
    ensures
        ctx.model_revision@.len() > 0 ==> event.model_revision@ == ctx.model_revision@,
        ctx.model_revision@.len() == 0 ==> event.model_revision@ == sink.model_revision@,
{
}

} // verus!
