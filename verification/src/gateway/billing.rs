//! Financial admission. The control plane owns durable holds. Recovery may
//! release a hold that was not dispatched, but can never grant permission to
//! replay inference.
use crate::domain::billing::ReserveRequest;
use crate::json::{
    as_str, given_twice, is_given_twice, list_names, part_value, raw_elements, raw_members,
    read_part, split_elements, split_members, Json,
};
use crate::text::{join, parse_u64, same, trim_slashes, unsigned_value, without_slashes};
use vstd::prelude::*;

verus! {

/// What a dispatched request is charged against.
#[derive(Clone, Debug)]
pub struct Ticket {
    pub id: String,
    pub project_id: String,
    pub input_token_limit: i64,
    pub output_token_limit: i64,
}

/// The workers, the places in their queue, and the milliseconds that admission
/// may take.
#[derive(Clone, Copy, Debug, PartialEq, Eq, Structural)]
pub struct Settings {
    pub workers: usize,
    pub capacity: usize,
    pub timeout_ms: u64,
}

/// A number of the environment: the fallback where it is not set, and nothing
/// where it is not a number in range.
pub open spec fn bounded(value: Option<String>, fallback: int, min: int, max: int) -> Option<int> {
    let n: Option<int> = match value {
        None => Some(fallback),
        Some(text) => match unsigned_value(text@) {
            Some(n) => Some(n as int),
            None => None,
        },
    };
    if n is Some && min <= n->0 <= max {
        n
    } else {
        None
    }
}

fn number(name: &str, value: &Option<String>, fallback: u64, min: u64, max: u64) -> (r: Result<
    u64,
    String,
>)
    ensures
        match r {
            Ok(n) => bounded(*value, fallback as int, min as int, max as int) == Some(n as int),
            Err(text) => bounded(*value, fallback as int, min as int, max as int) is None && text@
                == "invalid "@ + name@,
        },
{
    let n: Option<u64> = match value {
        Some(text) => parse_u64(text.as_str()),
        None => Some(fallback),
    };
    if let Some(n) = n {
        if n >= min && n <= max {
            return Ok(n);
        }
    }
    Err(join("invalid ", name))
}

/// The settings that three values make, or the name of the first that is
/// invalid.
pub open spec fn settings_of(
    workers: Option<String>,
    capacity: Option<String>,
    timeout: Option<String>,
) -> Result<Settings, Seq<char>> {
    let w = bounded(workers, 4, 1, 32);
    let c = bounded(capacity, 64, 1, 4096);
    let t = bounded(timeout, 8000, 100, 60_000);
    if w is None {
        Err("XSCOPE_BILLING_ADMISSION_WORKERS"@)
    } else if c is None {
        Err("XSCOPE_BILLING_ADMISSION_CAPACITY"@)
    } else if t is None {
        Err("XSCOPE_BILLING_ADMISSION_TIMEOUT_MS"@)
    } else {
        Ok(
            Settings {
                workers: w->0 as usize,
                capacity: c->0 as usize,
                timeout_ms: t->0 as u64,
            },
        )
    }
}

pub open spec fn agrees(r: Result<Settings, String>, expected: Result<Settings, Seq<char>>) -> bool {
    match (r, expected) {
        (Ok(s), Ok(t)) => s == t,
        (Err(text), Err(name)) => text@ == "invalid "@ + name,
        _ => false,
    }
}

impl Settings {
    fn from_values(
        workers: &Option<String>,
        capacity: &Option<String>,
        timeout: &Option<String>,
    ) -> (r: Result<Self, String>)
        ensures
            agrees(r, settings_of(*workers, *capacity, *timeout)),
    {
        let workers = match number("XSCOPE_BILLING_ADMISSION_WORKERS", workers, 4, 1, 32) {
            Ok(n) => n,
            Err(text) => return Err(text),
        };
        let capacity = match number("XSCOPE_BILLING_ADMISSION_CAPACITY", capacity, 64, 1, 4096) {
            Ok(n) => n,
            Err(text) => return Err(text),
        };
        let timeout = match number(
            "XSCOPE_BILLING_ADMISSION_TIMEOUT_MS",
            timeout,
            8000,
            100,
            60_000,
        ) {
            Ok(n) => n,
            Err(text) => return Err(text),
        };
        Ok(
            Settings {
                workers: workers as usize,
                capacity: capacity as usize,
                timeout_ms: timeout,
            },
        )
    }

    /// Reads the settings from what `get` finds under the names of their values.
    pub fn parse(get: impl Fn(&str) -> Option<String>) -> (r: Result<Self, String>)
        requires
            forall|name: &str| call_requires(get, (name,)),
        ensures
            exists|workers: Option<String>, capacity: Option<String>, timeout: Option<String>|
                {
                    &&& #[trigger] call_ensures(
                        get,
                        ("XSCOPE_BILLING_ADMISSION_WORKERS",),
                        workers,
                    )
                    &&& #[trigger] call_ensures(
                        get,
                        ("XSCOPE_BILLING_ADMISSION_CAPACITY",),
                        capacity,
                    )
                    &&& #[trigger] call_ensures(
                        get,
                        ("XSCOPE_BILLING_ADMISSION_TIMEOUT_MS",),
                        timeout,
                    )
                    &&& agrees(r, settings_of(workers, capacity, timeout))
                },
    {
        let workers = get("XSCOPE_BILLING_ADMISSION_WORKERS");
        let capacity = get("XSCOPE_BILLING_ADMISSION_CAPACITY");
        let timeout = get("XSCOPE_BILLING_ADMISSION_TIMEOUT_MS");
        Self::from_values(&workers, &capacity, &timeout)
    }
}

/// What admission comes to. An uncertain one may have left a hold.
#[derive(Clone, Copy, Debug, PartialEq, Eq, Structural)]
pub enum Decision {
    Dispatched,
    Rejected(u16),
    Uncertain(u16),
}

/// The answers of the control plane that attest that there is no hold.
pub open spec fn no_hold(status: u16) -> bool {
    status == 400 || status == 402 || status == 403 || status == 404 || status == 422
}

fn attests_no_hold(status: u16) -> (r: bool)
    ensures
        r == no_hold(status),
{
    status == 400 || status == 402 || status == 403 || status == 404 || status == 422
}

/// The control plane answered with a hold in this state.
pub open spec fn in_state(answer: Result<String, u16>, state: Seq<char>) -> bool {
    answer matches Ok(text) && text@ == state
}

fn is_in_state(answer: &Result<String, u16>, state: &str) -> (r: bool)
    ensures
        r == in_state(*answer, state@),
{
    match answer {
        Ok(text) => same(text.as_str(), state),
        Err(_) => false,
    }
}

/// The text that the bytes of a member or an element are, if they are one.
pub open spec fn raw_text(bytes: Seq<u8>) -> Option<Seq<char>> {
    match part_value(bytes) {
        Some(Json::Text(text)) => Some(text),
        _ => None,
    }
}

/// The state that the bytes of a reply hold: a member of an object that is given once,
/// or the one element of an array. What else an object holds is passed over, whatever it
/// is.
pub open spec fn state_in(bytes: Seq<u8>) -> Option<Seq<char>> {
    match raw_members(bytes) {
        Some(members) => if members.dom().contains("state"@) && !given_twice(bytes, "state"@) {
            raw_text(members["state"@])
        } else {
            None
        },
        None => match raw_elements(bytes) {
            Some(values) => if values.len() == 1 {
                raw_text(values[0])
            } else {
                None
            },
            None => None,
        },
    }
}

fn read_text(bytes: &[u8]) -> (r: Option<String>)
    ensures
        match r {
            Some(text) => raw_text(bytes@) == Some(text@),
            None => raw_text(bytes@) is None,
        },
{
    match read_part(bytes) {
        Some(value) => match as_str(&value) {
            Some(text) => Some(text.to_owned()),
            None => None,
        },
        None => None,
    }
}

fn read_state(bytes: &[u8]) -> (r: Option<String>)
    ensures
        match r {
            Some(text) => state_in(bytes@) == Some(text@),
            None => state_in(bytes@) is None,
        },
{
    match split_members(bytes) {
        Some(members) => match members.get("state") {
            Some(state) => if is_given_twice(&list_names(bytes), "state", Ghost(bytes@)) {
                None
            } else {
                read_text(state.as_slice())
            },
            None => None,
        },
        None => match split_elements(bytes) {
            Some(values) => if values.len() == 1 {
                read_text(values[0].as_slice())
            } else {
                None
            },
            None => None,
        },
    }
}

/// What a reply says whose body holds `state`: the state of a hold, or the status
/// that stands for it.
pub fn decode_with(success: bool, status: u16, state: Option<String>) -> (r: Result<String, u16>)
    ensures
        r == if !success {
            Err::<String, u16>(status)
        } else {
            match state {
                Some(state) => Ok(state),
                None => Err(503u16),
            }
        },
{
    if !success {
        return Err(status);
    }
    match state {
        Some(state) => Ok(state),
        None => Err(503),
    }
}

/// What a reply of the control plane says: the state of a hold, or the status
/// that stands for it.
pub fn decode(success: bool, status: u16, body: &[u8]) -> (r: Result<String, u16>)
    ensures
        match r {
            Ok(state) => success && state_in(body@) == Some(state@),
            Err(code) => if success {
                state_in(body@) is None && code == 503
            } else {
                code == status
            },
        },
{
    decode_with(success, status, read_state(body))
}

/// Whether a command is dropped before anything is reserved.
pub fn expired_before_reserve(caller_gone: bool, deadline_passed: bool) -> (r: bool)
    ensures
        r == (caller_gone || deadline_passed),
{
    caller_gone || deadline_passed
}

/// What admission does next.
#[derive(Clone, Copy, Debug, PartialEq, Eq, Structural)]
pub enum AdmitStep {
    Dispatch,
    Decided(Decision),
}

/// What follows the answer to the reservation. Only a fresh live admission may
/// dispatch: a hold that is reused is no authority for a second request.
pub open spec fn reserve_step(
    answer: Result<String, u16>,
    caller_gone: bool,
    deadline_passed: bool,
) -> AdmitStep {
    match answer {
        Err(status) => if no_hold(status) {
            AdmitStep::Decided(Decision::Rejected(status))
        } else {
            AdmitStep::Decided(Decision::Uncertain(status))
        },
        Ok(_) => if !in_state(answer, "reserved"@) || caller_gone || deadline_passed {
            AdmitStep::Decided(Decision::Uncertain(503))
        } else {
            AdmitStep::Dispatch
        },
    }
}

pub fn after_reserve(answer: &Result<String, u16>, caller_gone: bool, deadline_passed: bool) -> (r:
    AdmitStep)
    ensures
        r == reserve_step(*answer, caller_gone, deadline_passed),
{
    match answer {
        Err(status) => if attests_no_hold(*status) {
            AdmitStep::Decided(Decision::Rejected(*status))
        } else {
            AdmitStep::Decided(Decision::Uncertain(*status))
        },
        Ok(_) => if !is_in_state(answer, "reserved") || caller_gone || deadline_passed {
            AdmitStep::Decided(Decision::Uncertain(503))
        } else {
            AdmitStep::Dispatch
        },
    }
}

/// What follows the answer to the dispatch.
pub fn after_dispatch(answer: &Result<String, u16>) -> (r: Decision)
    ensures
        r == if in_state(*answer, "dispatched"@) {
            Decision::Dispatched
        } else {
            Decision::Uncertain(503)
        },
{
    if is_in_state(answer, "dispatched") {
        Decision::Dispatched
    } else {
        Decision::Uncertain(503)
    }
}

/// What the caller of an admission is told.
pub fn outcome(decision: Decision) -> (r: Result<(), u16>)
    ensures
        r == match decision {
            Decision::Dispatched => Ok::<(), u16>(()),
            Decision::Rejected(status) => Err(status),
            Decision::Uncertain(status) => Err(status),
        },
{
    match decision {
        Decision::Dispatched => Ok(()),
        Decision::Rejected(status) => Err(status),
        Decision::Uncertain(status) => Err(status),
    }
}

/// Whether the hold is reconciled after an admission: its outcome is uncertain,
/// or nobody waits for it any more.
pub fn needs_recovery(decision: Decision, abandoned: bool) -> (r: bool)
    ensures
        r == (decision is Uncertain || abandoned),
{
    match decision {
        Decision::Uncertain(_) => true,
        _ => abandoned,
    }
}

/// What recovery does next. There is no step that dispatches.
#[derive(Clone, Copy, Debug, PartialEq, Eq, Structural)]
pub enum RecoverStep {
    Release,
    Reconciled,
    Failed(u16),
}

/// A dispatch cannot be taken back: even where its answer was lost, the hold
/// stays, and is neither refunded nor sent again.
pub open spec fn recovery_step(answer: Result<String, u16>) -> RecoverStep {
    match answer {
        Err(status) => if no_hold(status) {
            RecoverStep::Reconciled
        } else {
            RecoverStep::Failed(status)
        },
        Ok(_) => if in_state(answer, "reserved"@) {
            RecoverStep::Release
        } else if in_state(answer, "dispatched"@) || in_state(answer, "settled"@) || in_state(
            answer,
            "released"@,
        ) || in_state(answer, "waived"@) {
            RecoverStep::Reconciled
        } else {
            RecoverStep::Failed(503)
        },
    }
}

/// What follows the answer to the reservation of a recovery, which replays the
/// identity of the first one.
pub fn recover(answer: &Result<String, u16>) -> (r: RecoverStep)
    ensures
        r == recovery_step(*answer),
{
    match answer {
        Err(status) => if attests_no_hold(*status) {
            RecoverStep::Reconciled
        } else {
            RecoverStep::Failed(*status)
        },
        Ok(_) => if is_in_state(answer, "reserved") {
            RecoverStep::Release
        } else if is_in_state(answer, "dispatched") || is_in_state(answer, "settled")
            || is_in_state(answer, "released") || is_in_state(answer, "waived") {
            RecoverStep::Reconciled
        } else {
            RecoverStep::Failed(503)
        },
    }
}

/// What follows the answer to the release.
pub fn after_release(answer: &Result<String, u16>) -> (r: Result<(), u16>)
    ensures
        r == match *answer {
            Err(status) => Err::<(), u16>(status),
            Ok(state) => if state@ == "released"@ {
                Ok(())
            } else {
                Err(503u16)
            },
        },
{
    match answer {
        Err(status) => Err(*status),
        Ok(state) => if same(state.as_str(), "released") {
            Ok(())
        } else {
            Err(503)
        },
    }
}

/// Where holds are reserved.
pub fn reserve_url(base: &str) -> (r: String)
    ensures
        r@ == without_slashes(base@) + "/billing/reservations"@,
{
    join(trim_slashes(base), "/billing/reservations")
}

/// Where a hold goes to another state.
pub fn transition_url(base: &str, request: &ReserveRequest, action: &str) -> (r: String)
    ensures
        r@ == without_slashes(base@) + "/billing/projects/"@ + request.project_id@
            + "/reservations/"@ + request.id@ + "/"@ + action@,
{
    let mut url = join(trim_slashes(base), "/billing/projects/");
    url.append(request.project_id.as_str());
    url.append("/reservations/");
    url.append(request.id.as_str());
    url.append("/");
    url.append(action);
    url
}

/// The ticket that a reservation is charged against once it is dispatched.
pub fn ticket_of(request: &ReserveRequest) -> (r: Ticket)
    ensures
        r == (Ticket {
            id: request.id,
            project_id: request.project_id,
            input_token_limit: request.input_token_limit,
            output_token_limit: request.output_token_limit,
        }),
{
    Ticket {
        id: request.id.clone(),
        project_id: request.project_id.clone(),
        input_token_limit: request.input_token_limit,
        output_token_limit: request.output_token_limit,
    }
}

/// How an admission went: the workers are down, their queue was full, the
/// deadline passed, the worker left without a word, or it answered.
pub enum Admission {
    Unhealthy,
    QueueFull,
    Expired,
    Lost,
    Answered(Result<(), u16>),
}

/// The ticket of an admission that was dispatched, or the status that it failed
/// with.
pub fn admitted_ticket(request: &ReserveRequest, admission: Admission) -> (r: Result<Ticket, u16>)
    ensures
        match admission {
            Admission::Answered(Ok(())) => r == Ok::<Ticket, u16>(
                Ticket {
                    id: request.id,
                    project_id: request.project_id,
                    input_token_limit: request.input_token_limit,
                    output_token_limit: request.output_token_limit,
                },
            ),
            Admission::Answered(Err(status)) => r == Err::<Ticket, u16>(status),
            _ => r == Err::<Ticket, u16>(503u16),
        },
{
    match admission {
        Admission::Answered(Ok(())) => Ok(ticket_of(request)),
        Admission::Answered(Err(status)) => Err(status),
        _ => Err(503),
    }
}

/// Nothing is dispatched but a hold that was just reserved, for a caller who
/// still waits, before the deadline.
pub proof fn law_only_fresh_holds_are_dispatched(
    answer: Result<String, u16>,
    caller_gone: bool,
    deadline_passed: bool,
)
    requires
        reserve_step(answer, caller_gone, deadline_passed) is Dispatch,
    ensures
        in_state(answer, "reserved"@),
        !caller_gone,
        !deadline_passed,
{
}

/// Recovery releases a hold exactly where it is still reserved. A hold that was
/// dispatched, settled, released or waived is left as it is.
pub proof fn law_recovery_releases_only_reserved_holds(answer: Result<String, u16>)
    ensures
        recovery_step(answer) is Release <==> in_state(answer, "reserved"@),
        in_state(answer, "dispatched"@) ==> recovery_step(answer) == RecoverStep::Reconciled,
{
    reveal_strlit("reserved");
    reveal_strlit("dispatched");
    assert("reserved"@.len() != "dispatched"@.len());
}

/// An admission that a definite refusal ended needs no recovery, as there is no
/// hold; every other failed one is reconciled.
pub proof fn law_uncertain_admissions_are_reconciled(
    answer: Result<String, u16>,
    caller_gone: bool,
    deadline_passed: bool,
    decision: Decision,
)
    requires
        reserve_step(answer, caller_gone, deadline_passed) == AdmitStep::Decided(decision),
    ensures
        decision is Rejected <==> (answer matches Err(status) && no_hold(status)),
        decision is Uncertain <==> !(answer matches Err(status) && no_hold(status)),
{
}

/// A request is turned away without a hold only by an answer that says so; any other failure
/// leaves the hold in doubt, and an answer in doubt is never taken for a refusal.
pub proof fn law_doubtful_holds_are_not_forgotten(
    status: u16,
    caller_gone: bool,
    deadline_passed: bool,
)
    ensures
        reserve_step(Err(status), caller_gone, deadline_passed) == AdmitStep::Decided(
            if status == 400 || status == 402 || status == 403 || status == 404 || status == 422 {
                Decision::Rejected(status)
            } else {
                Decision::Uncertain(status)
            },
        ),
        status / 100 == 5 || status == 408 || status == 409 || status == 429 ==> reserve_step(
            Err(status),
            caller_gone,
            deadline_passed,
        ) == AdmitStep::Decided(Decision::Uncertain(status)),
        status / 100 == 5 || status == 408 || status == 409 || status == 429 ==> recovery_step(
            Err(status),
        ) == RecoverStep::Failed(status),
{
}

/// Money that was reserved is dispatched unless the client has gone or its time is up; money in
/// any other state is in doubt.
pub proof fn law_reserved_money_is_dispatched(
    answer: Result<String, u16>,
    caller_gone: bool,
    deadline_passed: bool,
)
    requires
        answer is Ok,
    ensures
        reserve_step(answer, caller_gone, deadline_passed) is Dispatch <==> answer->Ok_0@
            == "reserved"@ && !caller_gone && !deadline_passed,
        !(reserve_step(answer, caller_gone, deadline_passed) is Dispatch) ==> reserve_step(
            answer,
            caller_gone,
            deadline_passed,
        ) == AdmitStep::Decided(Decision::Uncertain(503)),
{
}

/// A hold in doubt is released if it is only reserved, left alone once something else has been
/// decided of it, and asked for again otherwise.
pub proof fn law_holds_in_doubt_are_settled_by_their_state(answer: Result<String, u16>)
    requires
        answer is Ok,
    ensures
        recovery_step(answer) is Release <==> answer->Ok_0@ == "reserved"@,
        answer->Ok_0@ == "dispatched"@ || answer->Ok_0@ == "settled"@ || answer->Ok_0@
            == "released"@ || answer->Ok_0@ == "waived"@ ==> recovery_step(answer) is Reconciled,
        recovery_step(answer) is Reconciled ==> answer->Ok_0@ == "dispatched"@ || answer->Ok_0@
            == "settled"@ || answer->Ok_0@ == "released"@ || answer->Ok_0@ == "waived"@,
{
    reveal_strlit("reserved");
    reveal_strlit("dispatched");
    reveal_strlit("settled");
    reveal_strlit("released");
    reveal_strlit("waived");
    assert("reserved"@.len() == 8 && "dispatched"@.len() == 10 && "settled"@.len() == 7
        && "released"@.len() == 8 && "waived"@.len() == 6);
    assert("reserved"@[2] == 's' && "released"@[2] == 'l');
}

/// Admission has one worker at least and 32 at most, room for 4096 requests at most, and waits
/// a minute at most; where nothing is configured it has the defaults.
pub proof fn law_admission_is_bounded(
    workers: Option<String>,
    capacity: Option<String>,
    timeout: Option<String>,
)
    ensures
        settings_of(workers, capacity, timeout) matches Ok(s) ==> 0 < s.workers < 33 && 0
            < s.capacity < 4097 && 99 < s.timeout_ms < 60_001,
        settings_of(None, None, None) == Ok::<Settings, Seq<char>>(
            Settings { workers: 4, capacity: 64, timeout_ms: 8_000 },
        ),
{
}

} // verus!
