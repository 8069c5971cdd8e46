//! A bounded outbox that is volatile on purpose. Its slots cover admission and
//! the events that are queued or being sent; no completion that was accepted is
//! evicted.
use crate::crypto::{fresh_uuid, uuid_text};
use crate::domain::{clock_in_range, Timestamp};
use crate::gateway::billing::Ticket;
use crate::gateway::usage::{event_json, reply_of, write_event, DeliveryError, UsageEvent};
use crate::json::{document_bytes, encode};
use crate::text::{join, parse_u64, same, unsigned_value};
use crate::time::datable;
use vstd::prelude::*;

verus! {

#[derive(Clone, Copy, Debug, PartialEq, Eq, Structural)]
pub struct Settings {
    pub capacity: u64,
    pub workers: u64,
    pub max_age_ms: u64,
    pub drain_ms: u64,
    pub grace_seconds: u64,
}

/// What a variable of the environment says: a number in range, or what is wrong
/// with it.
pub open spec fn number_of(
    name: Seq<char>,
    value: Option<String>,
    fallback: int,
    min: int,
    max: int,
) -> Result<int, Seq<char>> {
    match value {
        None => Ok(fallback),
        Some(text) => match unsigned_value(text@) {
            Some(n) => if n > u64::MAX {
                Err("invalid "@ + name)
            } else if min <= n <= max {
                Ok(n as int)
            } else {
                Err("out of range "@ + name)
            },
            None => Err("invalid "@ + name),
        },
    }
}

fn number(name: &str, value: &Option<String>, fallback: u64, min: u64, max: u64) -> (r: Result<
    u64,
    String,
>)
    requires
        min <= fallback <= max,
    ensures
        match (r, number_of(name@, *value, fallback as int, min as int, max as int)) {
            (Ok(n), Ok(m)) => n == m && min <= n <= max,
            (Err(text), Err(expected)) => text@ == expected,
            _ => false,
        },
{
    let n: u64 = match value {
        None => fallback,
        Some(text) => match parse_u64(text.as_str()) {
            Some(n) => n,
            None => return Err(join("invalid ", name)),
        },
    };
    if n < min || n > max {
        return Err(join("out of range ", name));
    }
    Ok(n)
}

/// The settings that five values make, or what is wrong with the first that is
/// not in order.
pub open spec fn settings_of(
    capacity: Option<String>,
    workers: Option<String>,
    max_age: Option<String>,
    drain: Option<String>,
    grace: Option<String>,
) -> Result<Settings, Seq<char>> {
    let c = number_of("XSCOPE_USAGE_QUEUE_CAPACITY"@, capacity, 1024, 1, 65_536);
    let w = number_of("XSCOPE_USAGE_REPORT_WORKERS"@, workers, 4, 1, 32);
    let m = number_of("XSCOPE_USAGE_MAX_PENDING_SECONDS"@, max_age, 30, 1, 3600);
    let d = number_of("XSCOPE_USAGE_DRAIN_SECONDS"@, drain, 10, 1, 300);
    let g = number_of("XSCOPE_GATEWAY_GRACE_SECONDS"@, grace, 20, 1, 600);
    if c is Err {
        Err(c->Err_0)
    } else if w is Err {
        Err(w->Err_0)
    } else if m is Err {
        Err(m->Err_0)
    } else if d is Err {
        Err(d->Err_0)
    } else if g is Err {
        Err(g->Err_0)
    } else {
        Ok(
            Settings {
                capacity: c->Ok_0 as u64,
                workers: w->Ok_0 as u64,
                max_age_ms: (m->Ok_0 * 1000) as u64,
                drain_ms: (d->Ok_0 * 1000) as u64,
                grace_seconds: g->Ok_0 as u64,
            },
        )
    }
}

impl Settings {
    /// Makes the settings out of what the environment holds under their names.
    pub fn from_env(
        capacity: &Option<String>,
        workers: &Option<String>,
        max_age: &Option<String>,
        drain: &Option<String>,
        grace: &Option<String>,
    ) -> (r: Result<Self, String>)
        ensures
            match (r, settings_of(*capacity, *workers, *max_age, *drain, *grace)) {
                (Ok(s), Ok(t)) => s == t,
                (Err(text), Err(expected)) => text@ == expected,
                _ => false,
            },
    {
        let capacity = match number("XSCOPE_USAGE_QUEUE_CAPACITY", capacity, 1024, 1, 65_536) {
            Ok(n) => n,
            Err(text) => return Err(text),
        };
        let workers = match number("XSCOPE_USAGE_REPORT_WORKERS", workers, 4, 1, 32) {
            Ok(n) => n,
            Err(text) => return Err(text),
        };
        let max_age = match number("XSCOPE_USAGE_MAX_PENDING_SECONDS", max_age, 30, 1, 3600) {
            Ok(n) => n,
            Err(text) => return Err(text),
        };
        let drain = match number("XSCOPE_USAGE_DRAIN_SECONDS", drain, 10, 1, 300) {
            Ok(n) => n,
            Err(text) => return Err(text),
        };
        let grace = match number("XSCOPE_GATEWAY_GRACE_SECONDS", grace, 20, 1, 600) {
            Ok(n) => n,
            Err(text) => return Err(text),
        };
        Ok(
            Settings {
                capacity,
                workers,
                max_age_ms: max_age * 1000,
                drain_ms: drain * 1000,
                grace_seconds: grace,
            },
        )
    }
}

/// One slot of the outbox. It is held by a request that was let in until an
/// event takes it over.
#[derive(Clone)]
pub struct Entry {
    pub id: u64,
    pub event: Option<UsageEvent>,
    pub queued: Option<Timestamp>,
    pub next: Timestamp,
    pub attempt: u32,
    pub busy: bool,
}

pub struct Queue {
    /// Tells this outbox from every other.
    pub identity: String,
    pub settings: Settings,
    /// In ascending order of their numbers.
    pub entries: Vec<Entry>,
    pub sequence: u64,
    pub draining: bool,
    pub stopped: bool,
    pub fatal: bool,
}

/// A slot of an outbox, given back by [`Queue::cancel`].
pub struct Permit {
    /// The outbox that the slot is of.
    pub queue: String,
    pub id: u64,
}

pub open spec fn ascending_ids(entries: Seq<Entry>) -> bool {
    forall|i: int, j: int| 0 <= i < j < entries.len() ==> (#[trigger] entries[i]).id < (
    #[trigger] entries[j]).id
}

/// The position of a slot, if it is there.
pub open spec fn slot(entries: Seq<Entry>, id: u64) -> Option<int>
    decreases entries.len(),
{
    if entries.len() == 0 {
        None
    } else if entries.last().id == id {
        Some(entries.len() - 1)
    } else {
        slot(entries.drop_last(), id)
    }
}

proof fn lemma_slot(entries: Seq<Entry>, id: u64)
    ensures
        match slot(entries, id) {
            Some(p) => 0 <= p < entries.len() && entries[p].id == id,
            None => forall|i: int| 0 <= i < entries.len() ==> (#[trigger] entries[i]).id != id,
        },
    decreases entries.len(),
{
    if entries.len() > 0 && entries.last().id != id {
        lemma_slot(entries.drop_last(), id);
        if slot(entries, id) is None {
            assert forall|i: int| 0 <= i < entries.len() implies (#[trigger] entries[i]).id != id by {
                if i < entries.len() - 1 {
                    assert(entries.drop_last()[i].id != id);
                }
            }
        }
    }
}

proof fn lemma_slot_is(entries: Seq<Entry>, p: int)
    requires
        ascending_ids(entries),
        0 <= p < entries.len(),
    ensures
        slot(entries, entries[p].id) == Some(p),
{
    lemma_slot(entries, entries[p].id);
}

/// An event that was queued has waited too long.
pub open spec fn stale(entry: Entry, now: Timestamp, max_age_ms: u64) -> bool {
    entry.queued matches Some(queued) && now - queued >= max_age_ms * 1000
}

pub open spec fn any_stale(entries: Seq<Entry>, now: Timestamp, max_age_ms: u64) -> bool {
    exists|i: int| 0 <= i < entries.len() && stale(#[trigger] entries[i], now, max_age_ms)
}

/// The outbox takes one more request.
pub open spec fn ready(q: Queue, now: Timestamp) -> bool {
    &&& !q.draining
    &&& !q.stopped
    &&& !q.fatal
    &&& q.entries@.len() < q.settings.capacity
    &&& !any_stale(q.entries@, now, q.settings.max_age_ms)
}

/// A slot whose event can be sent now.
pub open spec fn due(entry: Entry, now: Timestamp) -> bool {
    !entry.busy && entry.event is Some && entry.next <= now
}

pub open spec fn first_due(entries: Seq<Entry>, now: Timestamp, p: int) -> bool {
    &&& 0 <= p < entries.len()
    &&& due(entries[p], now)
    &&& forall|i: int| 0 <= i < p ==> !due(#[trigger] entries[i], now)
}

/// The milliseconds before a jitter: doubled with every attempt, up to six
/// times.
pub open spec fn doubled(attempt: nat) -> nat
    decreases attempt,
{
    if attempt == 0 {
        250
    } else {
        2 * doubled((attempt - 1) as nat)
    }
}

pub open spec fn backoff_ms(attempt: u32, id: u64) -> int {
    let wait = doubled(
        if attempt < 6 {
            attempt as nat
        } else {
            6
        },
    );
    (if wait < 10_000 {
        wait as int
    } else {
        10_000
    }) + id % 251
}

/// The milliseconds until the next attempt: bounded, and spread by the number
/// of the slot.
pub fn backoff(attempt: u32, id: u64) -> (r: u64)
    ensures
        r == backoff_ms(attempt, id),
        250 <= r <= 10_250,
{
    let times: u32 = if attempt < 6 {
        attempt
    } else {
        6
    };
    let mut wait: u64 = 250;
    let mut i: u32 = 0;
    while i < times
        invariant
            i <= times <= 6,
            wait == doubled(i as nat),
            i == 0 ==> wait == 250,
            i == 1 ==> wait == 500,
            i == 2 ==> wait == 1000,
            i == 3 ==> wait == 2000,
            i == 4 ==> wait == 4000,
            i == 5 ==> wait == 8000,
            i == 6 ==> wait == 16_000,
        decreases times - i,
    {
        wait = wait * 2;
        i += 1;
    }
    if wait > 10_000 {
        wait = 10_000;
    }
    wait + id % 251
}

impl UsageEvent {
    pub(crate) fn copy(&self) -> (r: Self)
        ensures
            r == *self,
    {
        UsageEvent {
            billing: match &self.billing {
                Some(ticket) => Some(
                    Ticket {
                        id: ticket.id.clone(),
                        project_id: ticket.project_id.clone(),
                        input_token_limit: ticket.input_token_limit,
                        output_token_limit: ticket.output_token_limit,
                    },
                ),
                None => None,
            },
            usage_known: self.usage_known,
            schema_version: self.schema_version.clone(),
            event_id: self.event_id.clone(),
            request_id: self.request_id.clone(),
            occurred_at: self.occurred_at,
            tenant_id: self.tenant_id.clone(),
            project_id: self.project_id.clone(),
            api_key_id: self.api_key_id.clone(),
            model_id: self.model_id.clone(),
            model_revision: self.model_revision.clone(),
            endpoint_id: self.endpoint_id.clone(),
            region: self.region.clone(),
            price_version: self.price_version.clone(),
            input_tokens: self.input_tokens,
            output_tokens: self.output_tokens,
            cached_input_tokens: self.cached_input_tokens,
            latency_ms: self.latency_ms,
            status: self.status.clone(),
        }
    }
}

/// The slots without one that no event has taken over yet.
pub open spec fn cancelled(entries: Seq<Entry>, id: u64) -> Seq<Entry> {
    match slot(entries, id) {
        Some(p) => if entries[p].event is None {
            entries.remove(p)
        } else {
            entries
        },
        None => entries,
    }
}

/// Why an event is not taken: the slot is of another outbox, the encoding of the event
/// is too long, or the slot is gone or taken over already.
pub open spec fn submission_fault(q: Queue, permit: Permit, event: UsageEvent) -> Option<Seq<char>> {
    let entries = q.entries@;
    if permit.queue@ != q.identity@ {
        Some("usage permit belongs to another queue"@)
    } else if document_bytes(event_json(event))->0.len() > 32_768 {
        Some("usage event exceeds 32 KiB"@)
    } else {
        match slot(entries, permit.id) {
            None => Some("missing usage queue permit"@),
            Some(p) => if entries[p].event is Some {
                Some("usage permit already submitted"@)
            } else {
                None
            },
        }
    }
}

/// Credentials or configuration that an operator has to repair.
pub open spec fn disabling(status: u16) -> bool {
    300 <= status <= 399 || status == 401 || status == 403 || status == 404 || status == 0
}

/// The slots after an attempt to send the event of one.
pub open spec fn completed(
    entries: Seq<Entry>,
    id: u64,
    result: Result<(), DeliveryError>,
    now: Timestamp,
) -> Seq<Entry> {
    match slot(entries, id) {
        None => entries,
        Some(p) => match result {
            Ok(()) => entries.remove(p),
            Err(DeliveryError::Permanent(_)) => entries.remove(p),
            Err(DeliveryError::Retry(_)) => {
                let attempt = if entries[p].attempt == u32::MAX {
                    u32::MAX
                } else {
                    (entries[p].attempt + 1) as u32
                };
                entries.update(
                    p,
                    Entry {
                        busy: false,
                        attempt,
                        next: (now + backoff_ms(attempt, id) * 1000) as i64,
                        ..entries[p]
                    },
                )
            },
        },
    }
}

impl Queue {
    pub open spec fn wf(self) -> bool {
        &&& ascending_ids(self.entries@)
        &&& forall|i: int|
            0 <= i < self.entries@.len() ==> (#[trigger] self.entries@[i]).id <= self.sequence
        &&& self.entries@.len() <= self.settings.capacity
    }

    /// An empty outbox, told from every other by a fresh identity.
    pub fn new(settings: Settings) -> (r: Self)
        ensures
            r.wf(),
            uuid_text(r.identity@),
            r.settings == settings,
            r.entries@.len() == 0,
            r.sequence == 0,
            !r.draining,
            !r.stopped,
            !r.fatal,
    {
        Queue {
            identity: fresh_uuid(),
            settings,
            entries: Vec::new(),
            sequence: 0,
            draining: false,
            stopped: false,
            fatal: false,
        }
    }

    fn find(&self, id: u64) -> (r: Option<usize>)
        requires
            self.wf(),
        ensures
            match r {
                Some(p) => slot(self.entries@, id) == Some(p as int) && p < self.entries@.len(),
                None => slot(self.entries@, id) is None,
            },
    {
        let mut i: usize = 0;
        while i < self.entries.len()
            invariant
                i <= self.entries@.len(),
                ascending_ids(self.entries@),
                forall|j: int| 0 <= j < i ==> (#[trigger] self.entries@[j]).id != id,
            decreases self.entries@.len() - i,
        {
            if self.entries[i].id == id {
                proof {
                    lemma_slot_is(self.entries@, i as int);
                }
                return Some(i);
            }
            i += 1;
        }
        proof {
            lemma_slot(self.entries@, id);
        }
        None
    }

    /// Whether the outbox takes one more request.
    pub fn is_ready(&self, now: Timestamp) -> (r: bool)
        ensures
            r == ready(*self, now),
    {
        if self.draining || self.stopped || self.fatal || self.entries.len() as u64
            >= self.settings.capacity {
            return false;
        }
        let mut i: usize = 0;
        while i < self.entries.len()
            invariant
                i <= self.entries@.len(),
                forall|j: int|
                    0 <= j < i ==> !stale(
                        #[trigger] self.entries@[j],
                        now,
                        self.settings.max_age_ms,
                    ),
            decreases self.entries@.len() - i,
        {
            if let Some(queued) = self.entries[i].queued {
                if now as i128 - queued as i128 >= self.settings.max_age_ms as i128 * 1000 {
                    assert(stale(self.entries@[i as int], now, self.settings.max_age_ms));
                    return false;
                }
            }
            i += 1;
        }
        true
    }

    /// Takes a slot for a request.
    pub fn reserve(&mut self, now: Timestamp) -> (r: Result<Permit, &'static str>)
        requires
            old(self).wf(),
        ensures
            final(self).wf(),
            match r {
                Ok(permit) => {
                    &&& ready(*old(self), now)
                    &&& old(self).sequence < u64::MAX
                    &&& permit.queue == old(self).identity
                    &&& permit.id == old(self).sequence + 1
                    &&& *final(self) == (Queue {
                        entries: final(self).entries,
                        sequence: permit.id,
                        ..*old(self)
                    })
                    &&& final(self).entries@ == old(self).entries@.push(
                        Entry {
                            id: permit.id,
                            event: None,
                            queued: None,
                            next: now,
                            attempt: 0,
                            busy: false,
                        },
                    )
                },
                Err(message) => {
                    &&& *final(self) == *old(self)
                    &&& message@ == if !ready(*old(self), now) {
                        "usage queue full, stale, draining or unhealthy"@
                    } else {
                        "queue sequence exhausted"@
                    }
                    &&& ready(*old(self), now) ==> old(self).sequence == u64::MAX
                },
            },
    {
        if !self.is_ready(now) {
            return Err("usage queue full, stale, draining or unhealthy");
        }
        if self.sequence == u64::MAX {
            return Err("queue sequence exhausted");
        }
        self.sequence = self.sequence + 1;
        let id = self.sequence;
        self.entries.push(
            Entry { id, event: None, queued: None, next: now, attempt: 0, busy: false },
        );
        Ok(Permit { queue: self.identity.clone(), id })
    }

    /// A request has ended. Its slot is free again, unless an event has taken it
    /// over. A slot of another outbox is none of this one.
    pub fn cancel(&mut self, permit: Permit)
        requires
            old(self).wf(),
        ensures
            final(self).wf(),
            *final(self) == (Queue { entries: final(self).entries, ..*old(self) }),
            final(self).entries@ == if permit.queue@ == old(self).identity@ {
                cancelled(old(self).entries@, permit.id)
            } else {
                old(self).entries@
            },
    {
        if !same(permit.queue.as_str(), self.identity.as_str()) {
            return ;
        }
        if let Some(p) = self.find(permit.id) {
            if self.entries[p].event.is_none() {
                self.entries.remove(p);
            }
        }
    }

    /// Queues the event of a request in the slot of the request.
    pub fn submit(&mut self, permit: &Permit, event: UsageEvent, now: Timestamp) -> (r: Result<
        (),
        &'static str,
    >)
        requires
            old(self).wf(),
            datable(event.occurred_at),
        ensures
            final(self).wf(),
            *final(self) == (Queue { entries: final(self).entries, ..*old(self) }),
            match r {
                Ok(()) => {
                    &&& submission_fault(*old(self), *permit, event) is None
                    &&& slot(old(self).entries@, permit.id) matches Some(p)
                        && final(self).entries@ == old(self).entries@.update(
                        p,
                        Entry {
                            event: Some(event),
                            queued: Some(now),
                            next: now,
                            ..old(self).entries@[p]
                        },
                    )
                },
                Err(message) => submission_fault(*old(self), *permit, event) == Some(
                    message@,
                ) && final(self).entries@ == old(self).entries@,
            },
    {
        if !same(permit.queue.as_str(), self.identity.as_str()) {
            return Err("usage permit belongs to another queue");
        }
        // The bytes are bounded as well as the number of events. Bodies and
        // credentials never enter this queue.
        if encode(&write_event(&event)).unwrap().len() > 32_768 {
            return Err("usage event exceeds 32 KiB");
        }
        let p = match self.find(permit.id) {
            Some(p) => p,
            None => return Err("missing usage queue permit"),
        };
        if self.entries[p].event.is_some() {
            return Err("usage permit already submitted");
        }
        let entry = Entry {
            id: self.entries[p].id,
            event: Some(event),
            queued: Some(now),
            next: now,
            attempt: self.entries[p].attempt,
            busy: self.entries[p].busy,
        };
        self.entries.set(p, entry);
        Ok(())
    }

    pub fn begin_drain(&mut self)
        ensures
            *final(self) == (Queue { draining: true, ..*old(self) }),
    {
        self.draining = true;
    }

    /// Whether the outbox can stop: it is empty, or its deadline has passed.
    pub fn drained(&self, now: Timestamp, deadline: Timestamp) -> (r: bool)
        ensures
            r == (self.entries@.len() == 0 || now >= deadline),
    {
        self.entries.len() == 0 || now >= deadline
    }

    /// Stops the outbox, and says how many slots were still taken.
    pub fn stop(&mut self) -> (r: usize)
        ensures
            *final(self) == (Queue { stopped: true, ..*old(self) }),
            r == old(self).entries@.len(),
    {
        self.stopped = true;
        self.entries.len()
    }

    /// The first event that can be sent now. Its slot is busy from here on.
    pub fn take(&mut self, now: Timestamp) -> (r: Option<(u64, UsageEvent)>)
        requires
            old(self).wf(),
        ensures
            final(self).wf(),
            *final(self) == (Queue { entries: final(self).entries, ..*old(self) }),
            match r {
                Some((id, event)) => exists|p: int|
                    {
                        &&& #[trigger] first_due(old(self).entries@, now, p)
                        &&& id == old(self).entries@[p].id
                        &&& Some(event) == old(self).entries@[p].event
                        &&& final(self).entries@ == old(self).entries@.update(
                            p,
                            Entry { busy: true, ..old(self).entries@[p] },
                        )
                    },
                None => {
                    &&& final(self).entries@ == old(self).entries@
                    &&& forall|i: int|
                        0 <= i < old(self).entries@.len() ==> !due(
                            #[trigger] old(self).entries@[i],
                            now,
                        )
                },
            },
    {
        let mut i: usize = 0;
        while i < self.entries.len()
            invariant
                i <= self.entries@.len(),
                self.wf(),
                *self == *old(self),
                forall|j: int| 0 <= j < i ==> !due(#[trigger] self.entries@[j], now),
            decreases self.entries@.len() - i,
        {
            if !self.entries[i].busy && self.entries[i].next <= now {
                if let Some(event) = &self.entries[i].event {
                    let taken = event.copy();
                    let id = self.entries[i].id;
                    let entry = Entry {
                        id,
                        event: Some(event.copy()),
                        queued: self.entries[i].queued,
                        next: self.entries[i].next,
                        attempt: self.entries[i].attempt,
                        busy: true,
                    };
                    self.entries.set(i, entry);
                    assert(first_due(old(self).entries@, now, i as int));
                    return Some((id, taken));
                }
            }
            i += 1;
        }
        None
    }

    /// How an attempt to send the event of a slot ended. A failure that may pass
    /// is tried again later; the slot is freed otherwise.
    pub fn complete(&mut self, id: u64, result: Result<(), DeliveryError>, now: Timestamp)
        requires
            old(self).wf(),
            clock_in_range(now),
        ensures
            final(self).wf(),
            *final(self) == (Queue {
                entries: final(self).entries,
                fatal: old(self).fatal || (result matches Err(DeliveryError::Permanent(status))
                    && disabling(status)),
                ..*old(self)
            }),
            final(self).entries@ == completed(old(self).entries@, id, result, now),
    {
        if let Err(DeliveryError::Permanent(status)) = result {
            if (300 <= status && status <= 399) || status == 401 || status == 403 || status == 404
                || status == 0 {
                self.fatal = true;
            }
        }
        let p = match self.find(id) {
            Some(p) => p,
            None => return ,
        };
        proof {
            lemma_slot(self.entries@, id);
        }
        match result {
            Err(DeliveryError::Retry(_)) => {
                let attempt = self.entries[p].attempt.saturating_add(1);
                let wait: u64 = backoff(attempt, id);
                let entry = Entry {
                    id: self.entries[p].id,
                    event: match &self.entries[p].event {
                        Some(event) => Some(event.copy()),
                        None => None,
                    },
                    queued: self.entries[p].queued,
                    next: now + wait as i64 * 1000,
                    attempt,
                    busy: false,
                };
                self.entries.set(p, entry);
            },
            _ => {
                self.entries.remove(p);
            },
        }
    }
}

/// Ending a request evicts no completion that was accepted.
pub proof fn law_accepted_events_are_not_evicted(entries: Seq<Entry>, id: u64, i: int)
    requires
        ascending_ids(entries),
        0 <= i < entries.len(),
        entries[i].event is Some,
    ensures
        cancelled(entries, id).contains(entries[i]),
{
    lemma_slot(entries, id);
    match slot(entries, id) {
        Some(p) => {
            if entries[p].event is None {
                let rest = entries.remove(p);
                if i < p {
                    assert(rest[i] == entries[i]);
                } else {
                    assert(rest[i - 1] == entries[i]);
                }
            } else {
                assert(entries.contains(entries[i]));
            }
        },
        None => {
            assert(entries.contains(entries[i]));
        },
    }
}

/// An attempt that may be repeated keeps its event, and the others keep theirs:
/// a slow record does not hold up the rest.
pub proof fn law_retries_keep_every_event(
    entries: Seq<Entry>,
    id: u64,
    status: u16,
    now: Timestamp,
    i: int,
)
    requires
        ascending_ids(entries),
        0 <= i < entries.len(),
    ensures
        ({
            let after = completed(entries, id, Err(DeliveryError::Retry(status)), now);
            &&& after.len() == entries.len()
            &&& after[i].id == entries[i].id
            &&& after[i].event == entries[i].event
            &&& entries[i].id != id ==> after[i] == entries[i]
        }),
{
    lemma_slot(entries, id);
}

/// No outbox takes an event under a slot of another, whatever the event and the slots are.
pub proof fn law_slots_of_another_outbox_are_refused(q: Queue, permit: Permit, event: UsageEvent)
    requires
        permit.queue@ != q.identity@,
    ensures
        submission_fault(q, permit, event) == Some("usage permit belongs to another queue"@),
{
}

/// Later attempts wait no less than earlier ones.
pub proof fn law_backoff_is_monotonic(a: u32, b: u32, id: u64)
    requires
        a <= b,
    ensures
        backoff_ms(a, id) <= backoff_ms(b, id),
{
    reveal_with_fuel(doubled, 8);
}

/// An event whose report met a server error, a timeout, a request to slow down or no answer
/// is still in its slot afterwards, free to be sent again, but not at once.
pub proof fn law_events_are_kept_until_they_are_answered(
    entries: Seq<Entry>,
    p: int,
    status: Option<u16>,
    now: Timestamp,
)
    requires
        ascending_ids(entries),
        0 <= p < entries.len(),
        clock_in_range(now),
        status matches Some(code) ==> 500 <= code <= 599 || code == 408 || code == 425 || code
            == 429,
    ensures
        ({
            let after = completed(entries, entries[p].id, reply_of(status), now);
            &&& after.len() == entries.len()
            &&& after[p].event == entries[p].event
            &&& after[p].id == entries[p].id
            &&& !after[p].busy
            &&& now + 250_000 <= after[p].next <= now + 10_250_000
            &&& forall|i: int| 0 <= i < entries.len() && i != p ==> after[i] == entries[i]
        }),
{
    lemma_slot_is(entries, p);
    reveal_with_fuel(doubled, 8);
}

/// An event that was acknowledged leaves the outbox, and takes no other with it.
pub proof fn law_acknowledged_events_leave(
    entries: Seq<Entry>,
    p: int,
    status: u16,
    now: Timestamp,
)
    requires
        ascending_ids(entries),
        0 <= p < entries.len(),
        200 <= status <= 299,
    ensures
        completed(entries, entries[p].id, reply_of(Some(status)), now) == entries.remove(p),
{
    lemma_slot_is(entries, p);
}

/// The outbox is shut for new requests by what an operator has to repair, that is a redirect,
/// a refused credential or a missing target, and by nothing else.
pub proof fn law_only_misconfiguration_shuts_the_outbox(status: u16)
    ensures
        disabling(status) <==> status / 100 == 3 || status == 401 || status == 403 || status == 404
            || status == 0,
{
}

/// The outbox takes requests exactly while it has a free slot, nothing in it has waited too
/// long, and it is neither draining, stopped nor shut.
pub proof fn law_a_full_or_stale_outbox_takes_nothing(q: Queue, now: Timestamp)
    ensures
        q.entries@.len() >= q.settings.capacity ==> !ready(q, now),
        q.draining || q.stopped || q.fatal ==> !ready(q, now),
        (exists|i: int|
            0 <= i < q.entries@.len() && (#[trigger] q.entries@[i]).queued is Some && now
                - q.entries@[i].queued->0 >= q.settings.max_age_ms * 1000) ==> !ready(q, now),
        q.entries@.len() < q.settings.capacity && !q.draining && !q.stopped && !q.fatal && (forall|
            i: int,
        |
            0 <= i < q.entries@.len() && (#[trigger] q.entries@[i]).queued is Some ==> now
                - q.entries@[i].queued->0 < q.settings.max_age_ms * 1000) ==> ready(q, now),
{
    if exists|i: int|
        0 <= i < q.entries@.len() && (#[trigger] q.entries@[i]).queued is Some && now
            - q.entries@[i].queued->0 >= q.settings.max_age_ms * 1000 {
        let i = choose|i: int|
            0 <= i < q.entries@.len() && (#[trigger] q.entries@[i]).queued is Some && now
                - q.entries@[i].queued->0 >= q.settings.max_age_ms * 1000;
        assert(stale(q.entries@[i], now, q.settings.max_age_ms));
    }
}

/// An event is sent only when its time has come and it is not being sent already, and events
/// are taken in the order of their slots.
pub proof fn law_events_are_sent_one_at_a_time_and_in_order(
    entries: Seq<Entry>,
    now: Timestamp,
    p: int,
)
    requires
        first_due(entries, now, p),
    ensures
        entries[p].event is Some,
        !entries[p].busy,
        entries[p].next <= now,
        forall|i: int|
            0 <= i < p ==> (#[trigger] entries[i]).busy || entries[i].event is None
                || entries[i].next > now,
{
    assert forall|i: int| 0 <= i < p implies (#[trigger] entries[i]).busy || entries[i].event
        is None || entries[i].next > now by {
        assert(!due(entries[i], now));
    }
}

/// An event is taken under a free slot of this outbox, unless it is too long to be kept; a slot
/// takes one event and no second.
pub proof fn law_a_slot_takes_one_event(q: Queue, permit: Permit, event: UsageEvent, p: int)
    requires
        q.wf(),
        permit.queue@ == q.identity@,
        0 <= p < q.entries@.len(),
        q.entries@[p].id == permit.id,
    ensures
        submission_fault(q, permit, event) is None <==> q.entries@[p].event is None
            && document_bytes(event_json(event))->0.len() <= 32_768,
{
    lemma_slot_is(q.entries@, p);
}

/// A number that is configured is taken as it is if it is in range, and is named as wrong
/// otherwise; one that is not is the default.
pub proof fn law_numbers_are_taken_or_named(
    name: Seq<char>,
    value: Option<String>,
    fallback: int,
    min: int,
    max: int,
)
    requires
        0 <= min <= fallback <= max <= u64::MAX,
    ensures
        value is None ==> number_of(name, value, fallback, min, max) == Ok::<int, Seq<char>>(
            fallback,
        ),
        value is Some && unsigned_value(value->0@) is Some && min <= unsigned_value(value->0@)->0
            <= max ==> number_of(name, value, fallback, min, max) == Ok::<int, Seq<char>>(
            unsigned_value(value->0@)->0 as int,
        ),
        value is Some && (unsigned_value(value->0@) is None || unsigned_value(value->0@)->0 < min
            || unsigned_value(value->0@)->0 > max) ==> number_of(name, value, fallback, min, max)
            is Err,
{
}

/// The outbox is bounded in slots, in senders and in time, and has its defaults where nothing is
/// configured; whatever of it is out of range, it does not start.
pub proof fn law_outboxes_are_bounded(
    capacity: Option<String>,
    workers: Option<String>,
    max_age: Option<String>,
    drain: Option<String>,
    grace: Option<String>,
)
    ensures
        settings_of(capacity, workers, max_age, drain, grace) matches Ok(s) ==> 0 < s.capacity
            < 65_537 && 0 < s.workers < 33 && 1_000 <= s.max_age_ms <= 3_600_000 && 1_000
            <= s.drain_ms <= 300_000 && 0 < s.grace_seconds < 601,
        settings_of(None, None, None, None, None) == Ok::<Settings, Seq<char>>(
            Settings {
                capacity: 1_024,
                workers: 4,
                max_age_ms: 30_000,
                drain_ms: 10_000,
                grace_seconds: 20,
            },
        ),
{
}

/// An event that is to be sent again has one more attempt behind it, as far as attempts can be
/// counted, and waits no less for it.
pub proof fn law_attempts_are_counted(
    entries: Seq<Entry>,
    id: u64,
    reason: DeliveryError,
    now: Timestamp,
    p: int,
)
    requires
        reason is Retry,
        slot(entries, id) == Some(p),
        0 <= p < entries.len(),
    ensures
        completed(entries, id, Err(reason), now)[p].attempt >= entries[p].attempt,
        entries[p].attempt < u32::MAX ==> completed(entries, id, Err(reason), now)[p].attempt
            == entries[p].attempt + 1,
        entries[p].attempt == u32::MAX ==> completed(entries, id, Err(reason), now)[p].attempt
            == u32::MAX,
        !completed(entries, id, Err(reason), now)[p].busy,
{
}

} // verus!
