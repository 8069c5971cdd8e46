//! The order in which a request is looked at: its route, its key and a slot for
//! its usage before its body is read; its model, its pool and the door of the
//! pool after.
use crate::collections::TextMap;
use crate::domain::catalog::CatalogSnapshot;
use crate::domain::traffic::{managed_name, TrafficSnapshot};
use crate::domain::Timestamp;
use crate::gateway::admission::{checked_request, is_read, request_fault, ModelRequest};
use crate::gateway::auth::{caller_of, counted, window_at, DynamicKeySet, KeySet, Principal};
use crate::gateway::config::ServingConfig;
use crate::gateway::delivery::{self, ready, Entry, Queue};
use crate::gateway::proxy::{
    barred, delivery_healthy, enter_pool, fresh_roll, granted_generation, health, health_reply, is_error,
    list_models, models_reply, no_usage_slot, not_found, readiness, readiness_reply, route,
    route_of, screen, select_pool, selection_of, unavailable, Choice, Pools, Reply, Route,
    Selection,
};
use crate::gateway::traffic::{self, entry_fault, Traffic};
use crate::gateway::{minute_value, Refusal, Why};
use crate::headers::{first_visible, header, header_values};
use vstd::prelude::*;

verus! {

/// What the gateway knows and counts between requests.
pub struct Gateway {
    pub transports: TextMap<ServingConfig>,
    pub serving: ServingConfig,
    pub keys: DynamicKeySet,
    pub queue: Queue,
    pub traffic: Traffic,
    /// Whether requests are counted in a store that all gateways share.
    pub distributed: bool,
    /// Whether the workers of financial admission are up, where there are any.
    pub billing_healthy: Option<bool>,
}

/// What becomes of a request before its body is read: an answer, or its place in
/// the line. `caller` is the position of its key.
pub enum Filtered {
    Answer(Reply),
    Admitted { caller: usize, permit: delivery::Permit, text_completion: bool },
}

/// The text of the authorization of a request, where it is visible.
pub open spec fn authorization_of(headers: http::HeaderMap<http::HeaderValue>) -> Option<Seq<char>> {
    first_visible(header_values(headers), "authorization"@)
}

impl Gateway {
    pub open spec fn wf(self) -> bool {
        &&& self.transports.wf()
        &&& self.keys.wf()
        &&& self.queue.wf()
        &&& self.traffic.wf()
    }

    pub open spec fn healthy(self, now: Timestamp) -> bool {
        ready(self.queue, now) && self.billing_healthy != Some(false)
    }

    /// The key of a request.
    pub open spec fn caller(
        self,
        headers: http::HeaderMap<http::HeaderValue>,
        now: Timestamp,
    ) -> Option<int> {
        caller_of(self.keys.current.credentials@, authorization_of(headers), now)
    }

    pub open spec fn principal(self, caller: Option<int>) -> Option<&'static Principal> {
        match caller {
            Some(i) => Some(&self.keys.current.credentials@[i].principal),
            None => None,
        }
    }

    /// The two inference APIs: a request is answered where its key, its rate or
    /// the outbox bars it, and gets a slot of the outbox otherwise.
    pub open spec fn inference(
        self,
        headers: http::HeaderMap<http::HeaderValue>,
        text_completion: bool,
        now: Timestamp,
        timestamp: i64,
        after: Gateway,
        r: Filtered,
    ) -> bool {
        let caller = self.caller(headers, now);
        let principal = self.principal(caller);
        let minute = minute_value(timestamp as int) as i64;
        match barred(self.healthy(now), principal, text_completion) {
            Some((status, code, message)) => {
                &&& r is Answer
                &&& is_error(r->Answer_0, status, code, message)
                &&& after == self
            },
            None => {
                let key = principal->0.api_key_id@;
                let limit = principal->0.rate_limit_rpm;
                &&& after.keys.rate_windows@ == if self.distributed {
                    self.keys.rate_windows@
                } else {
                    counted(self.keys.rate_windows@, key, limit, minute)
                }
                &&& if !self.distributed && window_at(self.keys.rate_windows@, key, minute).count
                    >= limit {
                    &&& r is Answer
                    &&& is_error(
                        r->Answer_0,
                        429,
                        "rate_limit_exceeded"@,
                        "API key request-per-minute limit exceeded"@,
                    )
                    &&& after.queue == self.queue
                } else if self.queue.sequence == u64::MAX {
                    &&& r is Answer
                    &&& is_error(
                        r->Answer_0,
                        503,
                        "usage_reporting_unavailable"@,
                        "usage reporting capacity unavailable"@,
                    )
                    &&& after.queue == self.queue
                } else {
                    &&& r matches Filtered::Admitted {
                        caller: position,
                        permit,
                        text_completion: text,
                    } && Some(position as int) == caller && text == text_completion && permit.queue
                        == self.queue.identity && permit.id == self.queue.sequence + 1 && after.queue == (Queue {
                        entries: after.queue.entries,
                        sequence: permit.id,
                        ..self.queue
                    }) && after.queue.entries@ == self.queue.entries@.push(
                        Entry {
                            id: permit.id,
                            event: None,
                            queued: None,
                            next: now,
                            attempt: 0,
                            busy: false,
                        },
                    )
                }
            },
        }
    }

    /// Looks at a request before its body is read. `serving_ready` says whether
    /// the entry that the gateway was set up with answers; `timestamp` is the
    /// second of the wall clock.
    pub fn request_filter(
        &mut self,
        method: &str,
        path: &str,
        headers: &http::HeaderMap<http::HeaderValue>,
        serving_ready: bool,
        now: Timestamp,
        timestamp: i64,
    ) -> (r: Filtered)
        requires
            old(self).wf(),
        ensures
            final(self).wf(),
            final(self).transports == old(self).transports,
            final(self).serving == old(self).serving,
            final(self).keys.current == old(self).keys.current,
            final(self).traffic == old(self).traffic,
            final(self).distributed == old(self).distributed,
            final(self).billing_healthy == old(self).billing_healthy,
            match route_of(method@, path@) {
                Route::Health => r is Answer && health_reply(r->Answer_0) && *final(self)
                    == *old(self),
                Route::Ready => r is Answer && readiness_reply(
                    old(self).healthy(now),
                    old(self).keys,
                    serving_ready,
                    r->Answer_0,
                ) && *final(self) == *old(self),
                Route::Models => r is Answer && models_reply(
                    old(self).principal(old(self).caller(*headers, now)),
                    match old(self).keys.current.catalog {
                        Some(catalog) => Some(&catalog),
                        None => None,
                    },
                    old(self).transports,
                    r->Answer_0,
                ) && *final(self) == *old(self),
                Route::ChatCompletions => old(self).inference(
                    *headers,
                    false,
                    now,
                    timestamp,
                    *final(self),
                    r,
                ),
                Route::Completions => old(self).inference(
                    *headers,
                    true,
                    now,
                    timestamp,
                    *final(self),
                    r,
                ),
                Route::Unknown => r is Answer && is_error(
                    r->Answer_0,
                    404,
                    "not_found"@,
                    "route not found"@,
                ) && *final(self) == *old(self),
            },
    {
        let healthy = delivery_healthy(self.queue.is_ready(now), self.billing_healthy);
        let authorization = header(headers, "authorization");
        let text_completion = match route(method, path) {
            Route::Health => return Filtered::Answer(health()),
            Route::Ready => return Filtered::Answer(
                readiness(healthy, &self.keys, serving_ready),
            ),
            Route::Models => {
                let catalog: Option<&CatalogSnapshot> = match &self.keys.current.catalog {
                    Some(catalog) => Some(catalog),
                    None => None,
                };
                return Filtered::Answer(
                    list_models(
                        self.keys.authenticate(authorization, now),
                        catalog,
                        &self.transports,
                    ),
                );
            },
            Route::ChatCompletions => false,
            Route::Completions => true,
            Route::Unknown => return Filtered::Answer(not_found()),
        };
        let caller = self.keys.current.find(authorization, now);
        let principal: Option<&Principal> = match caller {
            Some(i) => Some(&self.keys.current.credentials[i].principal),
            None => None,
        };
        let screened = screen(
            healthy,
            principal,
            text_completion,
            self.distributed,
            &mut self.keys.rate_windows,
            timestamp,
        );
        if let Err(reply) = screened {
            return Filtered::Answer(reply);
        }
        match self.queue.reserve(now) {
            Ok(permit) => match caller {
                Some(caller) => Filtered::Admitted { caller, permit, text_completion },
                None => Filtered::Answer(no_usage_slot()),
            },
            Err(_) => Filtered::Answer(no_usage_slot()),
        }
    }

    /// Where a request goes, or why it goes nowhere.
    pub open spec fn placement(
        self,
        keys: KeySet,
        caller: int,
        parsed: Option<ModelRequest>,
        text_completion: bool,
        headers: http::HeaderMap<http::HeaderValue>,
        roll: int,
    ) -> Result<Choice, Why> {
        match request_fault(parsed, text_completion) {
            Some(why) => Err(why),
            None => selection_of(
                keys.credentials@[caller].principal,
                parsed->0.model@,
                Pools {
                    catalog: match keys.catalog {
                        Some(catalog) => Some(&catalog),
                        None => None,
                    },
                    serving: &self.serving,
                    transports: &self.transports,
                },
                header_values(headers),
                roll,
            ),
        }
    }

    /// What becomes of a request whose body was read, with this roll.
    pub open spec fn placed(
        self,
        keys: KeySet,
        caller: int,
        parsed: Option<ModelRequest>,
        text_completion: bool,
        headers: http::HeaderMap<http::HeaderValue>,
        roll: int,
        now: Timestamp,
        after: Gateway,
        r: Result<(ModelRequest, Selection, Option<traffic::Permit>), Refusal>,
    ) -> bool {
        match self.placement(
            keys,
            caller,
            parsed,
            text_completion,
            headers,
            roll,
        ) {
            Err(why) => r is Err && r->Err_0@ == why && after == self,
            Ok(choice) => {
                let fault: Option<Seq<char>> = if !managed_name(choice.pool) {
                    None
                } else {
                    match granted_generation(
                        match keys.traffic {
                            Some(snapshot) => Some(&snapshot),
                            None => None,
                        },
                        choice.pool,
                    ) {
                        None => Some("managed pool requires a traffic grant"@),
                        Some(generation) => entry_fault(
                            self.traffic,
                            choice.pool,
                            generation,
                            now,
                        ),
                    }
                };
                match fault {
                    Some(message) => r is Err && r->Err_0@ == unavailable(message)
                        && after == self,
                    None => {
                        &&& r matches Ok((request, selection, permit)) && selection@ == choice
                            && request.model == parsed->0.model && request == (
                        if text_completion {
                            ModelRequest {
                                messages: parsed->0.prompt->0,
                                prompt: None,
                                ..parsed->0
                            }
                        } else {
                            parsed->0
                        }) && (permit is Some <==> managed_name(choice.pool)) && (
                        permit matches Some(permit) ==> permit.pool@ == choice.pool)
                        &&& after.traffic == (Traffic {
                            active: after.traffic.active,
                            ..self.traffic
                        })
                        &&& after.traffic.active@ == if managed_name(choice.pool) {
                            self.traffic.active@.insert(
                                choice.pool,
                                (traffic::count_of(self.traffic.active@, choice.pool)
                                    + 1) as u64,
                            )
                        } else {
                            self.traffic.active@
                        }
                    },
                }
            },
        }
    }

    /// Places a request whose body was read: checks what it asks for, chooses its
    /// pool by a roll below a hundred, and takes it through the door of the pool.
    /// `keys` are those that the caller was found among: a refresh while the body
    /// was read changes nothing of what the request may do.
    pub fn place_with(
        &mut self,
        keys: &KeySet,
        caller: usize,
        parsed: Option<ModelRequest>,
        text_completion: bool,
        headers: &http::HeaderMap<http::HeaderValue>,
        roll: u8,
        now: Timestamp,
    ) -> (r: Result<(ModelRequest, Selection, Option<traffic::Permit>), Refusal>)
        requires
            old(self).wf(),
            caller < keys.credentials@.len(),
        ensures
            final(self).wf(),
            *final(self) == (Gateway { traffic: final(self).traffic, ..*old(self) }),
            old(self).placed(
                *keys,
                caller as int,
                parsed,
                text_completion,
                *headers,
                roll as int,
                now,
                *final(self),
                r,
            ),
    {
        let request = match checked_request(parsed, text_completion) {
            Ok(request) => request,
            Err(refusal) => return Err(refusal),
        };
        let catalog: Option<&CatalogSnapshot> = match &keys.catalog {
            Some(catalog) => Some(catalog),
            None => None,
        };
        let pools = Pools { catalog, serving: &self.serving, transports: &self.transports };
        let selection = match select_pool(
            &keys.credentials[caller].principal,
            request.model.as_str(),
            &pools,
            headers,
            roll,
        ) {
            Ok(selection) => selection,
            Err(refusal) => return Err(refusal),
        };
        let snapshot: Option<&TrafficSnapshot> = match &keys.traffic {
            Some(snapshot) => Some(snapshot),
            None => None,
        };
        let permit = match enter_pool(
            &mut self.traffic,
            snapshot,
            selection.pool_id.as_str(),
            now,
        ) {
            Ok(permit) => permit,
            Err(refusal) => return Err(refusal),
        };
        Ok((request, selection, permit))
    }

    /// Places the request that a body is, by the roll that chance makes.
    pub fn place(
        &mut self,
        keys: &KeySet,
        caller: usize,
        body: &[u8],
        text_completion: bool,
        headers: &http::HeaderMap<http::HeaderValue>,
        now: Timestamp,
    ) -> (r: Result<(ModelRequest, Selection, Option<traffic::Permit>), Refusal>)
        requires
            old(self).wf(),
            caller < keys.credentials@.len(),
        ensures
            final(self).wf(),
            *final(self) == (Gateway { traffic: final(self).traffic, ..*old(self) }),
            exists|parsed: Option<ModelRequest>, roll: int|
                is_read(parsed, body@) && 0 <= roll < 100 && #[trigger] old(self).placed(
                    *keys,
                    caller as int,
                    parsed,
                    text_completion,
                    *headers,
                    roll,
                    now,
                    *final(self),
                    r,
                ),
    {
        let parsed = ModelRequest::from_slice(body);
        let roll: u8 = fresh_roll();
        self.place_with(keys, caller, parsed, text_completion, headers, roll, now)
    }
}

/// Nobody without a valid key gets a slot: a request that is admitted has a
/// caller, and the outbox was ready for it.
pub proof fn law_admitted_requests_have_a_caller(
    gateway: Gateway,
    headers: http::HeaderMap<http::HeaderValue>,
    text_completion: bool,
    now: Timestamp,
    timestamp: i64,
    after: Gateway,
    r: Filtered,
)
    requires
        gateway.inference(headers, text_completion, now, timestamp, after, r),
        r is Admitted,
    ensures
        gateway.caller(headers, now) is Some,
        gateway.healthy(now),
{
}

/// The gateway is healthy exactly while the outbox takes requests and financial admission, if
/// there is any, is up.
pub proof fn law_the_gateway_is_healthy_when_usage_can_be_accounted(
    gateway: Gateway,
    now: Timestamp,
)
    ensures
        gateway.healthy(now) <==> ready(gateway.queue, now) && (gateway.billing_healthy is None
            || gateway.billing_healthy->0),
{
    if gateway.billing_healthy is Some && !gateway.billing_healthy->0 {
        assert(gateway.billing_healthy == Some(false));
    }
}

/// A request that is admitted takes one slot of the outbox, under a new number, and counts once
/// against its key; a request that is answered at once takes none.
pub proof fn law_admitted_requests_take_one_slot(
    gateway: Gateway,
    headers: http::HeaderMap<http::HeaderValue>,
    text_completion: bool,
    now: Timestamp,
    timestamp: i64,
    after: Gateway,
    r: Filtered,
)
    requires
        gateway.inference(headers, text_completion, now, timestamp, after, r),
    ensures
        r is Admitted ==> after.queue.entries@.len() == gateway.queue.entries@.len() + 1
            && after.queue.entries@.last().id == r->permit.id && after.queue.entries@.last().event
            is None && r->permit.id == gateway.queue.sequence + 1 && Some(r->caller as int)
            == gateway.caller(headers, now) && r->Admitted_text_completion == text_completion,
        r is Answer ==> after.queue == gateway.queue,
        r is Answer ==> r->Answer_0.status >= 400,
{
}

/// A key within its limit of the minute is admitted, and one that has reached it is told so.
pub proof fn law_requests_beyond_the_limit_are_answered(
    gateway: Gateway,
    headers: http::HeaderMap<http::HeaderValue>,
    text_completion: bool,
    now: Timestamp,
    timestamp: i64,
    after: Gateway,
    r: Filtered,
)
    requires
        gateway.inference(headers, text_completion, now, timestamp, after, r),
        !gateway.distributed,
        gateway.queue.sequence < u64::MAX,
        barred(
            gateway.healthy(now),
            gateway.principal(gateway.caller(headers, now)),
            text_completion,
        ) is None,
    ensures
        ({
            let principal = gateway.principal(gateway.caller(headers, now))->0;
            let used = window_at(
                gateway.keys.rate_windows@,
                principal.api_key_id@,
                minute_value(timestamp as int) as i64,
            ).count;
            &&& r is Admitted <==> used < principal.rate_limit_rpm
            &&& r is Answer ==> r->Answer_0.status == 429
        }),
{
}

} // verus!
