//! One door serializes local admission and the acknowledgement of a drain. The
//! counters cover admission and the whole life of a response, cancellation
//! included.
use crate::collections::TextMap;
use crate::crypto::{fresh_uuid, is_uuid, uuid_text};
use crate::domain::traffic::{
    managed, managed_name, PoolControl, TrafficReport, TrafficSnapshot, LEASE_SECONDS,
};
use crate::domain::{clock_in_range, Timestamp};
use crate::text::same;
use vstd::prelude::*;

verus! {

pub struct Traffic {
    pub session_id: String,
    pub snapshot: Option<TrafficSnapshot>,
    pub deadline: Option<Timestamp>,
    pub active: TextMap<u64>,
    pub closed: bool,
}

/// One request in flight in a pool. Whoever holds it gives it back to
/// [`Traffic::leave`].
pub struct Permit {
    pub pool: String,
}

/// The control of a pool, if the list has it.
pub open spec fn control_of(pools: Seq<PoolControl>, id: Seq<char>) -> Option<PoolControl>
    decreases pools.len(),
{
    if pools.len() == 0 {
        None
    } else if pools.first().id@ == id {
        Some(pools.first())
    } else {
        control_of(pools.drop_first(), id)
    }
}

pub open spec fn named_before(pools: Seq<PoolControl>, n: int, id: Seq<char>) -> bool {
    exists|i: int| 0 <= i < n && #[trigger] pools[i].id@ == id
}

/// A managed pool of a positive generation that no earlier entry names.
pub open spec fn control_sound(pools: Seq<PoolControl>, i: int) -> bool {
    &&& managed_name(pools[i].id@)
    &&& pools[i].generation > 0
    &&& !named_before(pools, i, pools[i].id@)
}

pub open spec fn controls_sound(pools: Seq<PoolControl>) -> bool {
    forall|i: int| 0 <= i < pools.len() ==> #[trigger] control_sound(pools, i)
}

/// The pool is still there, and its generation has not gone back.
pub open spec fn kept(old_pool: PoolControl, pools: Seq<PoolControl>) -> bool {
    control_of(pools, old_pool.id@) matches Some(control) && control.generation
        >= old_pool.generation
}

pub open spec fn all_kept(previous: Seq<PoolControl>, pools: Seq<PoolControl>) -> bool {
    forall|i: int| 0 <= i < previous.len() ==> kept(#[trigger] previous[i], pools)
}

/// What is wrong with a grant for this door.
pub open spec fn grant_fault(door: Traffic, grant: TrafficSnapshot) -> Option<Seq<char>> {
    if grant.session_id@ != door.session_id@ || grant.sequence <= 0 || grant.lease_seconds
        != LEASE_SECONDS || !uuid_text(grant.nonce@) || grant.pools@.len() > 10_000 {
        Some("invalid traffic grant"@)
    } else if !controls_sound(grant.pools@) {
        Some("invalid traffic pool"@)
    } else {
        match door.snapshot {
            None => None,
            Some(previous) => if previous.sequence >= grant.sequence {
                Some("stale traffic grant"@)
            } else if !all_kept(previous.pools@, grant.pools@) {
                Some("traffic grant removed or rewound a participant"@)
            } else {
                None
            },
        }
    }
}

/// The counters with one at zero for every pool that had none.
pub open spec fn counters_with(
    active: Map<Seq<char>, u64>,
    pools: Seq<PoolControl>,
    n: int,
) -> Map<Seq<char>, u64>
    decreases n,
{
    if n <= 0 {
        active
    } else {
        let rest = counters_with(active, pools, n - 1);
        if rest.dom().contains(pools[n - 1].id@) {
            rest
        } else {
            rest.insert(pools[n - 1].id@, 0)
        }
    }
}

/// What installing a grant leaves.
pub open spec fn installed(
    before: Traffic,
    grant: TrafficSnapshot,
    fetched_at: Timestamp,
    after: Traffic,
) -> bool {
    &&& after.session_id == before.session_id
    &&& after.closed == before.closed
    &&& after.snapshot == Some(grant)
    &&& after.deadline == Some((fetched_at + LEASE_SECONDS * 1_000_000) as i64)
    &&& after.active@ == counters_with(before.active@, grant.pools@, grant.pools@.len() as int)
}

/// The door lets requests of this generation into the pool.
pub open spec fn admits(door: Traffic, pool: Seq<char>, generation: i64, now: Timestamp) -> bool {
    &&& !door.closed
    &&& door.deadline matches Some(deadline) && deadline > now
    &&& door.snapshot matches Some(grant) && control_of(grant.pools@, pool) matches Some(control)
        && control.generation == generation && control.accepting
}

/// The requests in flight in a pool.
pub open spec fn count_of(active: Map<Seq<char>, u64>, pool: Seq<char>) -> u64 {
    if active.dom().contains(pool) {
        active[pool]
    } else {
        0
    }
}

pub open spec fn entry_fault(
    door: Traffic,
    pool: Seq<char>,
    generation: i64,
    now: Timestamp,
) -> Option<Seq<char>> {
    if !admits(door, pool, generation, now) {
        Some("pool is unready, draining, or traffic grant expired"@)
    } else if count_of(door.active@, pool) == u64::MAX {
        Some("active request count exhausted"@)
    } else {
        None
    }
}

pub(crate) fn find_control<'a>(pools: &'a Vec<PoolControl>, id: &str) -> (r: Option<&'a PoolControl>)
    ensures
        match r {
            Some(control) => control_of(pools@, id@) == Some(*control),
            None => control_of(pools@, id@) is None,
        },
{
    let mut i: usize = 0;
    assert(pools@.skip(0) =~= pools@);
    while i < pools.len()
        invariant
            i <= pools.len(),
            control_of(pools@, id@) == control_of(pools@.skip(i as int), id@),
        decreases pools.len() - i,
    {
        assert(pools@.skip(i as int).drop_first() =~= pools@.skip(i as int + 1));
        if same(pools[i].id.as_str(), id) {
            return Some(&pools[i]);
        }
        i += 1;
    }
    None
}

fn are_sound(pools: &Vec<PoolControl>) -> (r: bool)
    ensures
        r == controls_sound(pools@),
{
    let mut i: usize = 0;
    while i < pools.len()
        invariant
            i <= pools.len(),
            forall|j: int| 0 <= j < i ==> #[trigger] control_sound(pools@, j),
        decreases pools.len() - i,
    {
        let pool = &pools[i];
        if !managed(pool.id.as_str()) || pool.generation <= 0 {
            assert(!control_sound(pools@, i as int));
            return false;
        }
        let mut j: usize = 0;
        while j < i
            invariant
                j <= i < pools@.len(),
                *pool == pools@[i as int],
                forall|k: int| 0 <= k < j ==> #[trigger] pools@[k].id@ != pool.id@,
            decreases i - j,
        {
            if same(pools[j].id.as_str(), pool.id.as_str()) {
                assert(named_before(pools@, i as int, pools@[i as int].id@));
                assert(!control_sound(pools@, i as int));
                return false;
            }
            j += 1;
        }
        i += 1;
    }
    true
}

fn are_kept(previous: &Vec<PoolControl>, pools: &Vec<PoolControl>) -> (r: bool)
    ensures
        r == all_kept(previous@, pools@),
{
    let mut i: usize = 0;
    while i < previous.len()
        invariant
            i <= previous.len(),
            forall|j: int| 0 <= j < i ==> kept(#[trigger] previous@[j], pools@),
        decreases previous.len() - i,
    {
        let advanced = match find_control(pools, previous[i].id.as_str()) {
            Some(control) => control.generation >= previous[i].generation,
            None => false,
        };
        if !advanced {
            assert(!kept(previous@[i as int], pools@));
            return false;
        }
        i += 1;
    }
    true
}

fn copy_counters(active: &TextMap<u64>) -> (r: TextMap<u64>)
    requires
        active.wf(),
    ensures
        r.wf(),
        r@ == active@,
{
    let mut entries: Vec<(String, u64)> = Vec::new();
    let mut i: usize = 0;
    while i < active.entries.len()
        invariant
            i <= active.entries.len(),
            entries@ == active.entries@.take(i as int),
        decreases active.entries.len() - i,
    {
        entries.push((active.entries[i].0.clone(), active.entries[i].1));
        assert(active.entries@.take(i as int + 1) =~= active.entries@.take(i as int).push(
            active.entries@[i as int],
        ));
        i += 1;
    }
    assert(active.entries@.take(active.entries@.len() as int) =~= active.entries@);
    TextMap { entries }
}

impl Traffic {
    pub open spec fn wf(self) -> bool {
        self.active.wf()
    }

    /// A door of a session of its own, with no grant yet.
    pub fn new() -> (r: Self)
        ensures
            r.wf(),
            uuid_text(r.session_id@),
            r.snapshot is None,
            r.deadline is None,
            r.active@ == Map::<Seq<char>, u64>::empty(),
            !r.closed,
    {
        Traffic {
            session_id: fresh_uuid(),
            snapshot: None,
            deadline: None,
            active: TextMap::new(),
            closed: false,
        }
    }

    /// Installs a grant that was fetched at `fetched_at`.
    pub fn install(&mut self, grant: TrafficSnapshot, fetched_at: Timestamp) -> (r: Result<
        (),
        &'static str,
    >)
        requires
            old(self).wf(),
            clock_in_range(fetched_at),
        ensures
            final(self).wf(),
            match r {
                Ok(()) => grant_fault(*old(self), grant) is None && installed(
                    *old(self),
                    grant,
                    fetched_at,
                    *final(self),
                ),
                Err(message) => grant_fault(*old(self), grant) == Some(message@) && *final(self)
                    == *old(self),
            },
    {
        if !same(grant.session_id.as_str(), self.session_id.as_str()) || grant.sequence <= 0
            || grant.lease_seconds != LEASE_SECONDS || !is_uuid(grant.nonce.as_str())
            || grant.pools.len() > 10_000 {
            return Err("invalid traffic grant");
        }
        if !are_sound(&grant.pools) {
            return Err("invalid traffic pool");
        }
        if let Some(previous) = &self.snapshot {
            if previous.sequence >= grant.sequence {
                return Err("stale traffic grant");
            }
            if !are_kept(&previous.pools, &grant.pools) {
                return Err("traffic grant removed or rewound a participant");
            }
        }
        let mut i: usize = 0;
        while i < grant.pools.len()
            invariant
                i <= grant.pools.len(),
                self.wf(),
                self.session_id == old(self).session_id,
                self.snapshot == old(self).snapshot,
                self.closed == old(self).closed,
                self.active@ == counters_with(old(self).active@, grant.pools@, i as int),
            decreases grant.pools.len() - i,
        {
            let id = grant.pools[i].id.as_str();
            if self.active.get(id).is_none() {
                self.active.insert(id, 0);
            }
            i += 1;
        }
        self.deadline = Some(fetched_at + 15_000_000);
        self.snapshot = Some(grant);
        Ok(())
    }

    /// Lets one request into a pool.
    pub fn enter(&mut self, pool: &str, generation: i64, now: Timestamp) -> (r: Result<
        Permit,
        &'static str,
    >)
        requires
            old(self).wf(),
        ensures
            final(self).wf(),
            match r {
                Ok(permit) => {
                    &&& entry_fault(*old(self), pool@, generation, now) is None
                    &&& permit.pool@ == pool@
                    &&& *final(self) == (Traffic { active: final(self).active, ..*old(self) })
                    &&& final(self).active@ == old(self).active@.insert(
                        pool@,
                        (count_of(old(self).active@, pool@) + 1) as u64,
                    )
                },
                Err(message) => entry_fault(*old(self), pool@, generation, now) == Some(message@)
                    && *final(self) == *old(self),
            },
    {
        let expired = match self.deadline {
            Some(deadline) => deadline <= now,
            None => true,
        };
        let granted = match &self.snapshot {
            Some(grant) => match find_control(&grant.pools, pool) {
                Some(control) => control.generation == generation && control.accepting,
                None => false,
            },
            None => false,
        };
        if self.closed || expired || !granted {
            return Err("pool is unready, draining, or traffic grant expired");
        }
        let count: u64 = match self.active.get(pool) {
            Some(count) => *count,
            None => 0,
        };
        if count == u64::MAX {
            return Err("active request count exhausted");
        }
        self.active.insert(pool, count + 1);
        Ok(Permit { pool: pool.to_owned() })
    }

    /// A request has ended, however it did.
    pub fn leave(&mut self, permit: Permit)
        requires
            old(self).wf(),
        ensures
            final(self).wf(),
            *final(self) == (Traffic { active: final(self).active, ..*old(self) }),
            final(self).active@ == left(old(self).active@, permit.pool@),
    {
        let count: u64 = match self.active.get(permit.pool.as_str()) {
            Some(count) => *count,
            None => {
                return ;
            },
        };
        self.active.insert(permit.pool.as_str(), count.saturating_sub(1));
    }

    /// What the door reports of the grant that it works by.
    pub fn report(&self) -> (r: Option<TrafficReport>)
        requires
            self.wf(),
        ensures
            reported(*self, r),
    {
        match &self.snapshot {
            Some(grant) => Some(
                TrafficReport {
                    closed: self.closed,
                    session_id: self.session_id.clone(),
                    sequence: grant.sequence,
                    nonce: grant.nonce.clone(),
                    active: copy_counters(&self.active),
                },
            ),
            None => None,
        }
    }

    /// The session and the token that admission shows, while the grant lasts.
    pub fn admission_headers(&self, now: Timestamp) -> (r: Option<(String, String)>)
        ensures
            match r {
                Some((session, token)) => {
                    &&& token_of(*self, now) is Some
                    &&& session == self.session_id
                    &&& token == token_of(*self, now)->0
                },
                None => token_of(*self, now) is None,
            },
    {
        if self.closed {
            return None;
        }
        match self.deadline {
            Some(deadline) => if deadline <= now {
                return None;
            },
            None => return None,
        }
        match &self.snapshot {
            Some(grant) => if grant.admission_token.as_str().is_empty() {
                None
            } else {
                Some((self.session_id.clone(), grant.admission_token.clone()))
            },
            None => None,
        }
    }

    /// Closes the door for good.
    pub fn close(&mut self)
        ensures
            *final(self) == (Traffic { closed: true, ..*old(self) }),
    {
        self.closed = true;
    }
}

/// A report says what the door works by and counts; without a grant there is
/// none.
pub open spec fn reported(door: Traffic, r: Option<TrafficReport>) -> bool {
    match (door.snapshot, r) {
        (Some(grant), Some(report)) => {
            &&& report.closed == door.closed
            &&& report.session_id == door.session_id
            &&& report.sequence == grant.sequence
            &&& report.nonce == grant.nonce
            &&& report.active.wf()
            &&& report.active@ == door.active@
        },
        (None, None) => true,
        _ => false,
    }
}

/// The counters after one request less in a pool.
pub open spec fn left(active: Map<Seq<char>, u64>, pool: Seq<char>) -> Map<Seq<char>, u64> {
    if active.dom().contains(pool) {
        active.insert(
            pool,
            if active[pool] == 0 {
                0
            } else {
                (active[pool] - 1) as u64
            },
        )
    } else {
        active
    }
}

/// The admission token of a grant that lasts.
pub open spec fn token_of(door: Traffic, now: Timestamp) -> Option<String> {
    if door.closed || !(door.deadline matches Some(deadline) && deadline > now) {
        None
    } else {
        match door.snapshot {
            Some(grant) => if grant.admission_token@.len() == 0 {
                None
            } else {
                Some(grant.admission_token)
            },
            None => None,
        }
    }
}

/// A grant that drains a pool lets nobody in, whatever generation a request
/// still holds from earlier.
pub proof fn law_draining_fences_old_contexts(
    before: Traffic,
    grant: TrafficSnapshot,
    fetched_at: Timestamp,
    after: Traffic,
    pool: Seq<char>,
    generation: i64,
    now: Timestamp,
)
    requires
        installed(before, grant, fetched_at, after),
        control_of(grant.pools@, pool) matches Some(control) && !control.accepting,
    ensures
        !admits(after, pool, generation, now),
{
}

/// A grant of a new generation voids every permission of an older one.
pub proof fn law_generations_are_fenced(
    before: Traffic,
    grant: TrafficSnapshot,
    fetched_at: Timestamp,
    after: Traffic,
    pool: Seq<char>,
    generation: i64,
    now: Timestamp,
)
    requires
        installed(before, grant, fetched_at, after),
        control_of(grant.pools@, pool) matches Some(control) && control.generation != generation,
    ensures
        !admits(after, pool, generation, now),
{
}

/// Installing a grant forgets no request in flight: every counter stays, until
/// the request leaves.
pub proof fn law_grants_keep_the_counters(active: Map<Seq<char>, u64>, pools: Seq<PoolControl>, n: int)
    ensures
        forall|pool: Seq<char>|
            count_of(#[trigger] counters_with(active, pools, n), pool) == count_of(active, pool),
        forall|i: int|
            0 <= i < n ==> counters_with(active, pools, n).dom().contains(
                #[trigger] pools[i].id@,
            ),
        active.dom().subset_of(counters_with(active, pools, n).dom()),
    decreases n,
{
    if n > 0 {
        law_grants_keep_the_counters(active, pools, n - 1);
        assert forall|pool: Seq<char>|
            count_of(#[trigger] counters_with(active, pools, n), pool) == count_of(
                active,
                pool,
            ) by {
            assert(count_of(counters_with(active, pools, n - 1), pool) == count_of(active, pool));
        }
        assert forall|i: int| 0 <= i < n implies counters_with(active, pools, n).dom().contains(
            #[trigger] pools[i].id@,
        ) by {
            if i < n - 1 {
                assert(counters_with(active, pools, n - 1).dom().contains(pools[i].id@));
            }
        }
    }
}

/// Leaving undoes entering.
pub proof fn law_leaving_undoes_entering(active: Map<Seq<char>, u64>, pool: Seq<char>)
    requires
        count_of(active, pool) < u64::MAX,
    ensures
        count_of(
            left(active.insert(pool, (count_of(active, pool) + 1) as u64), pool),
            pool,
        ) == count_of(active, pool),
        forall|other: Seq<char>|
            other != pool ==> #[trigger] count_of(
                left(active.insert(pool, (count_of(active, pool) + 1) as u64), pool),
                other,
            ) == count_of(active, other),
{
}

/// A closed door stays closed: a later grant does not open it.
pub proof fn law_closed_doors_stay_closed(
    before: Traffic,
    grant: TrafficSnapshot,
    fetched_at: Timestamp,
    after: Traffic,
    pool: Seq<char>,
    generation: i64,
    now: Timestamp,
)
    requires
        before.closed,
        installed(before, grant, fetched_at, after),
    ensures
        after.closed,
        !admits(after, pool, generation, now),
        token_of(after, now) is None,
{
}

/// A grant lasts its lease and no longer.
pub proof fn law_leases_expire(
    before: Traffic,
    grant: TrafficSnapshot,
    fetched_at: Timestamp,
    after: Traffic,
    pool: Seq<char>,
    generation: i64,
    now: Timestamp,
)
    requires
        clock_in_range(fetched_at),
        installed(before, grant, fetched_at, after),
        now >= fetched_at + LEASE_SECONDS * 1_000_000,
    ensures
        !admits(after, pool, generation, now),
        token_of(after, now) is None,
{
}

/// A door that accepts a grant knows every pool that it knew, at no lower
/// generation.
pub proof fn law_participants_stay(door: Traffic, grant: TrafficSnapshot, i: int)
    requires
        grant_fault(door, grant) is None,
        door.snapshot matches Some(previous) && 0 <= i < previous.pools@.len(),
    ensures
        control_of(grant.pools@, door.snapshot->0.pools@[i].id@) matches Some(control)
            && control.generation >= door.snapshot->0.pools@[i].generation,
        door.snapshot->0.sequence < grant.sequence,
{
    assert(kept(door.snapshot->0.pools@[i], grant.pools@));
}

/// What can happen to a door: a grant is installed, a request enters or ends, the door is
/// closed.
pub ghost enum Passage {
    Granted { grant: TrafficSnapshot, fetched_at: Timestamp },
    Entered { pool: Seq<char>, generation: i64, now: Timestamp },
    Ended { pool: Seq<char> },
    Closed,
}

/// What is left of a door after something happened to it.
pub open spec fn passes(before: Traffic, passage: Passage, after: Traffic) -> bool {
    match passage {
        Passage::Granted { grant, fetched_at } => grant_fault(before, grant) is None && installed(
            before,
            grant,
            fetched_at,
            after,
        ),
        Passage::Entered { pool, generation, now } => {
            &&& entry_fault(before, pool, generation, now) is None
            &&& after == (Traffic { active: after.active, ..before })
            &&& after.active@ == before.active@.insert(
                pool,
                (count_of(before.active@, pool) + 1) as u64,
            )
        },
        Passage::Ended { pool } => {
            &&& after == (Traffic { active: after.active, ..before })
            &&& after.active@ == left(before.active@, pool)
        },
        Passage::Closed => after == (Traffic { closed: true, ..before }),
    }
}

/// The permits of a pool that were given out and not given back.
pub open spec fn open_permits(history: Seq<Passage>, pool: Seq<char>) -> int
    decreases history.len(),
{
    if history.len() == 0 {
        0
    } else {
        open_permits(history.drop_last(), pool) + match history.last() {
            Passage::Entered { pool: entered, .. } if entered == pool => 1int,
            Passage::Ended { pool: ended } if ended == pool => -1int,
            _ => 0int,
        }
    }
}

/// The states of a door over its history. Only a permit that was given out is given back,
/// and only once.
pub open spec fn door_history(doors: Seq<Traffic>, history: Seq<Passage>) -> bool {
    &&& doors.len() == history.len() + 1
    &&& doors[0].active@ == Map::<Seq<char>, u64>::empty()
    &&& doors[0].snapshot is None
    &&& forall|i: int|
        0 <= i < history.len() ==> passes(doors[i], #[trigger] history[i], doors[i + 1])
    &&& forall|i: int|
        0 <= i < history.len() ==> (#[trigger] history[i] matches Passage::Ended { pool }
            ==> open_permits(history.take(i), pool) > 0)
}

proof fn lemma_control_named(pools: Seq<PoolControl>, id: Seq<char>)
    requires
        control_of(pools, id) is Some,
    ensures
        exists|i: int| 0 <= i < pools.len() && #[trigger] pools[i].id@ == id,
    decreases pools.len(),
{
    if pools.len() > 0 && pools[0].id@ != id {
        lemma_control_named(pools.drop_first(), id);
        let i = choose|i: int|
            0 <= i < pools.drop_first().len() && #[trigger] pools.drop_first()[i].id@ == id;
        assert(pools[i + 1].id@ == id);
    }
}

/// The passage is a grant that names the pool.
pub open spec fn grants(passage: Passage, pool: Seq<char>) -> bool {
    passage matches Passage::Granted { grant, .. } && control_of(grant.pools@, pool) is Some
}

/// A grant that was installed names the pool.
pub open spec fn was_granted(history: Seq<Passage>, pool: Seq<char>) -> bool {
    exists|i: int| 0 <= i < history.len() && grants(#[trigger] history[i], pool)
}

proof fn lemma_counters_follow_permits(
    doors: Seq<Traffic>,
    history: Seq<Passage>,
    pool: Seq<char>,
)
    requires
        door_history(doors, history),
    ensures
        count_of(doors.last().active@, pool) == open_permits(history, pool),
        was_granted(history, pool) ==> doors.last().snapshot is Some
            && doors.last().active@.dom().contains(pool),
    decreases history.len(),
{
    if history.len() > 0 {
        let n = history.len() - 1;
        let earlier = history.drop_last();
        let rest = doors.drop_last();
        assert forall|i: int| 0 <= i < earlier.len() implies passes(
            rest[i],
            #[trigger] earlier[i],
            rest[i + 1],
        ) by {
            assert(earlier[i] == history[i]);
        }
        assert forall|i: int| 0 <= i < earlier.len() implies (#[trigger] earlier[i] matches
            Passage::Ended { pool } ==> open_permits(earlier.take(i), pool) > 0) by {
            assert(earlier[i] == history[i]);
            assert(earlier.take(i) =~= history.take(i));
        }
        lemma_counters_follow_permits(rest, earlier, pool);
        let before = doors[n];
        let after = doors[n + 1];
        assert(passes(before, history[n], after));
        assert(history.take(n) =~= earlier);
        if was_granted(history, pool) && !grants(history[n], pool) {
            let i = choose|i: int| 0 <= i < history.len() && grants(#[trigger] history[i], pool);
            assert(earlier[i] == history[i]);
            assert(was_granted(earlier, pool));
        }
        match history[n] {
            Passage::Granted { grant, .. } => {
                law_grants_keep_the_counters(before.active@, grant.pools@, grant.pools@.len() as int);
                if control_of(grant.pools@, pool) is Some {
                    lemma_control_named(grant.pools@, pool);
                }
            },
            Passage::Ended { pool: ended } => {
                if ended == pool {
                    assert(open_permits(history.take(n), pool) > 0);
                }
            },
            _ => {},
        }
    }
}

/// Once a grant has named a pool, a report counts the permits of the pool that
/// were not given back, however grants change: neither a new grant nor a drain
/// nor the end of the door resets the count.
pub proof fn law_reports_count_open_permits(
    doors: Seq<Traffic>,
    history: Seq<Passage>,
    pool: Seq<char>,
    report: Option<TrafficReport>,
)
    requires
        door_history(doors, history),
        was_granted(history, pool),
        reported(doors.last(), report),
    ensures
        report is Some,
        report->0.active@.dom().contains(pool),
        report->0.active@[pool] == open_permits(history, pool),
{
    lemma_counters_follow_permits(doors, history, pool);
}

/// A request enters a pool exactly while the door is open, the grant has not run out, and the
/// grant lets this very generation of the pool accept.
pub proof fn law_requests_enter_on_a_live_grant(
    door: Traffic,
    pool: Seq<char>,
    generation: i64,
    now: Timestamp,
)
    ensures
        admits(door, pool, generation, now) <==> {
            &&& !door.closed
            &&& door.deadline is Some && now < door.deadline->0
            &&& door.snapshot is Some
            &&& control_of(door.snapshot->0.pools@, pool) is Some
            &&& control_of(door.snapshot->0.pools@, pool)->0.generation == generation
            &&& control_of(door.snapshot->0.pools@, pool)->0.accepting
        },
        entry_fault(door, pool, generation, now) is None <==> admits(door, pool, generation, now)
            && count_of(door.active@, pool) < u64::MAX,
        token_of(door, now) is Some ==> !door.closed && door.deadline is Some && now
            < door.deadline->0 && door.snapshot is Some && token_of(door, now)
            == Some(door.snapshot->0.admission_token),
{
}

/// What a grant says of a pool is what it says under the name of the pool.
pub proof fn law_pools_are_looked_up_by_name(pools: Seq<PoolControl>, id: Seq<char>)
    ensures
        control_of(pools, id) is Some ==> control_of(pools, id)->0.id@ == id && pools.contains(
            control_of(pools, id)->0,
        ),
        control_of(pools, id) is None ==> forall|i: int|
            0 <= i < pools.len() ==> (#[trigger] pools[i]).id@ != id,
    decreases pools.len(),
{
    if pools.len() > 0 {
        assert(pools[0] == pools.first());
        if pools.first().id@ != id {
            let rest = pools.drop_first();
            law_pools_are_looked_up_by_name(rest, id);
            assert forall|i: int| 0 <= i < rest.len() implies rest[i] == pools[i + 1] by {}
            if control_of(pools, id) is Some {
                let i = choose|i: int| 0 <= i < rest.len() && rest[i] == control_of(rest, id)->0;
                assert(pools[i + 1] == control_of(pools, id)->0);
            } else {
                assert forall|i: int| 0 <= i < pools.len() implies (#[trigger] pools[i]).id@
                    != id by {
                    if i > 0 {
                        assert(pools[i] == rest[i - 1]);
                    }
                }
            }
        }
    }
}

/// A grant is taken only if it is for this session, is later than the one before, lasts as long
/// as leases do, and names each of its managed pools once, in a generation.
pub proof fn law_grants_are_for_this_session_and_later(
    door: Traffic,
    grant: TrafficSnapshot,
    i: int,
    j: int,
)
    requires
        grant_fault(door, grant) is None,
    ensures
        grant.session_id@ == door.session_id@,
        grant.sequence > 0,
        door.snapshot is Some ==> grant.sequence > door.snapshot->0.sequence,
        grant.lease_seconds == 15,
        grant.pools@.len() < 10_001,
        0 <= i < grant.pools@.len() ==> grant.pools@[i].generation > 0 && "managed-"@.is_prefix_of(
            grant.pools@[i].id@,
        ),
        0 <= i < j < grant.pools@.len() ==> grant.pools@[i].id@ != grant.pools@[j].id@,
{
    if 0 <= i < grant.pools@.len() {
        assert(control_sound(grant.pools@, i));
    }
    if 0 <= i < j < grant.pools@.len() {
        assert(control_sound(grant.pools@, j));
        assert(grant.pools@[i].id@ == grant.pools@[i].id@);
    }
}

/// A report is of the grant that was installed last and of all that is in flight, and says
/// whether the door is closed.
pub proof fn law_reports_are_of_the_last_grant(door: Traffic, r: Option<TrafficReport>)
    requires
        reported(door, r),
    ensures
        r is Some <==> door.snapshot is Some,
        r is Some ==> r->0.sequence == door.snapshot->0.sequence && r->0.nonce
            == door.snapshot->0.nonce && r->0.session_id == door.session_id && r->0.closed
            == door.closed && r->0.active@ == door.active@,
{
}

/// A later grant for this session that is well made and drops no pool is taken.
pub proof fn law_well_made_grants_are_taken(door: Traffic, grant: TrafficSnapshot)
    requires
        grant.session_id@ == door.session_id@,
        grant.sequence > 0,
        grant.lease_seconds == 15,
        uuid_text(grant.nonce@),
        grant.pools@.len() <= 10_000,
        forall|i: int|
            0 <= i < grant.pools@.len() ==> managed_name((#[trigger] grant.pools@[i]).id@)
                && grant.pools@[i].generation > 0,
        forall|i: int, j: int|
            0 <= i < j < grant.pools@.len() ==> (#[trigger] grant.pools@[i]).id@ != (
            #[trigger] grant.pools@[j]).id@,
        door.snapshot is None,
    ensures
        grant_fault(door, grant) is None,
{
    assert forall|i: int| 0 <= i < grant.pools@.len() implies #[trigger] control_sound(
        grant.pools@,
        i,
    ) by {
        assert(managed_name(grant.pools@[i].id@));
        assert forall|j: int| 0 <= j < i implies (#[trigger] grant.pools@[j]).id@
            != grant.pools@[i].id@ by {}
    }
}

/// The token of a live grant is shown, if the grant has one.
pub proof fn law_live_grants_show_their_token(door: Traffic, now: Timestamp)
    requires
        !door.closed,
        door.deadline is Some && now < door.deadline->0,
        door.snapshot is Some,
    ensures
        door.snapshot->0.admission_token@.len() > 0 ==> token_of(door, now) == Some(
            door.snapshot->0.admission_token,
        ),
        door.snapshot->0.admission_token@.len() == 0 ==> token_of(door, now) is None,
{
}

} // verus!
