//! One reconciliation of an outbound member: what it does after each answer, and
//! when it gives up until the next.
use crate::domain::cluster::{ClusterDelivery, ClusterReport};
use crate::json::{document, json_of, parse};
use vstd::prelude::*;

verus! {

/// The most observation or proof tasks of one reconciliation.
pub const MAX_TASKS: u64 = 100;

/// The most bytes of an answer of the control plane.
pub const MAX_RESPONSE_BYTES: usize = 524_288;

/// How a request to the control plane failed: nothing came back, it was refused,
/// or its answer broke off, was too long or was not JSON.
#[derive(Clone, Copy, Debug, PartialEq, Eq, Structural)]
pub enum Fault {
    Unavailable,
    Rejected,
    Interrupted,
    Oversized,
    Unreadable,
}

pub open spec fn fault_text(fault: Fault, unavailable: Seq<char>) -> Seq<char> {
    match fault {
        Fault::Unavailable => unavailable,
        Fault::Rejected => "control plane rejected member request"@,
        Fault::Interrupted => "member response interrupted"@,
        Fault::Oversized => "member response exceeds bound"@,
        Fault::Unreadable => "invalid member response"@,
    }
}

fn fault_message(fault: Fault, unavailable: &'static str) -> (r: &'static str)
    ensures
        r@ == fault_text(fault, unavailable@),
{
    match fault {
        Fault::Unavailable => unavailable,
        Fault::Rejected => "control plane rejected member request",
        Fault::Interrupted => "member response interrupted",
        Fault::Oversized => "member response exceeds bound",
        Fault::Unreadable => "invalid member response",
    }
}

/// Adds a part of an answer to what was read of it, within the bound.
pub fn extend_response(bytes: &mut Vec<u8>, chunk: &[u8]) -> (r: Result<(), Fault>)
    requires
        old(bytes)@.len() <= MAX_RESPONSE_BYTES,
    ensures
        final(bytes)@.len() <= MAX_RESPONSE_BYTES,
        match r {
            Ok(()) => old(bytes)@.len() + chunk@.len() <= MAX_RESPONSE_BYTES && final(bytes)@
                == old(bytes)@ + chunk@,
            Err(fault) => fault == Fault::Oversized && old(bytes)@.len() + chunk@.len()
                > MAX_RESPONSE_BYTES && final(bytes)@ == old(bytes)@,
        },
{
    if chunk.len() > MAX_RESPONSE_BYTES - bytes.len() {
        return Err(Fault::Oversized);
    }
    bytes.extend_from_slice(chunk);
    Ok(())
}

/// What the bytes of an answer say.
pub fn member_answer(bytes: &[u8]) -> (r: Result<serde_json::Value, Fault>)
    ensures
        match r {
            Ok(value) => document(bytes@) == Some(json_of(value)),
            Err(fault) => fault == Fault::Unreadable && document(bytes@) is None,
        },
{
    match parse(bytes) {
        Some(value) => Ok(value),
        None => Err(Fault::Unreadable),
    }
}

/// What a reconciliation does next. A numbered one is of that task.
#[derive(Clone, Copy, Debug, PartialEq, Eq, Structural)]
pub enum Phase {
    Poll,
    Apply,
    Report,
    Observations,
    Observe { task: u64, tasks: u64 },
    ReportObservation { task: u64, tasks: u64 },
    Proofs,
    Prove { task: u64, tasks: u64 },
    ReportProof { task: u64, tasks: u64 },
    Finished,
}

/// A phase among its tasks.
pub open spec fn phase_wf(phase: Phase) -> bool {
    match phase {
        Phase::Observe { task, tasks } => task < tasks <= MAX_TASKS,
        Phase::ReportObservation { task, tasks } => task < tasks <= MAX_TASKS,
        Phase::Prove { task, tasks } => task < tasks <= MAX_TASKS,
        Phase::ReportProof { task, tasks } => task < tasks <= MAX_TASKS,
        _ => true,
    }
}

/// How far a reconciliation is from its end.
pub open spec fn distance(phase: Phase) -> int {
    match phase {
        Phase::Poll => 1000,
        Phase::Apply => 999,
        Phase::Report => 998,
        Phase::Observations => 997,
        Phase::Observe { task, tasks } => 500 + 2 * (tasks - task),
        Phase::ReportObservation { task, tasks } => 499 + 2 * (tasks - task),
        Phase::Proofs => 500,
        Phase::Prove { task, tasks } => 2 * (tasks - task),
        Phase::ReportProof { task, tasks } => 2 * (tasks - task) - 1,
        Phase::Finished => 0,
    }
}

/// What a poll brought: nothing to do, a delivery, or one that cannot be read.
#[derive(Clone, Copy, Debug, PartialEq, Eq, Structural)]
pub enum Polled {
    Nothing,
    Delivery,
    Malformed,
}

/// The tasks that the control plane lists: it may not know of any such list, or
/// send one that cannot be read.
#[derive(Clone, Copy, Debug, PartialEq, Eq, Structural)]
pub enum Listed {
    NotFound,
    Malformed,
    Tasks(u64),
}

pub open spec fn polled_phase(answer: Result<Polled, Fault>) -> Result<Phase, Seq<char>> {
    match answer {
        Err(fault) => Err(fault_text(fault, "member poll unavailable"@)),
        Ok(Polled::Malformed) => Err("invalid delivery contract"@),
        Ok(Polled::Delivery) => Ok(Phase::Apply),
        Ok(Polled::Nothing) => Ok(Phase::Observations),
    }
}

pub open spec fn agrees(r: Result<Phase, &'static str>, expected: Result<Phase, Seq<char>>) -> bool {
    match (r, expected) {
        (Ok(p), Ok(q)) => p == q && phase_wf(p),
        (Err(message), Err(text)) => message@ == text,
        _ => false,
    }
}

/// What follows a poll.
pub fn after_poll(answer: Result<Polled, Fault>) -> (r: Result<Phase, &'static str>)
    ensures
        agrees(r, polled_phase(answer)),
{
    match answer {
        Err(fault) => Err(fault_message(fault, "member poll unavailable")),
        Ok(Polled::Malformed) => Err("invalid delivery contract"),
        Ok(Polled::Delivery) => Ok(Phase::Apply),
        Ok(Polled::Nothing) => Ok(Phase::Observations),
    }
}

/// What is reported of a delivery: that it was applied, or why not. `result` is
/// that of applying it, and nothing where its time ran out.
pub fn report_of(delivery: &ClusterDelivery, result: Option<Result<(), &'static str>>) -> (r:
    ClusterReport)
    ensures
        r.version == delivery.version,
        r.sha256 == delivery.sha256,
        r.lease == delivery.lease,
        match result {
            Some(Ok(())) => r.outcome@ == "applied"@ && r.error_code is None,
            Some(Err(code)) => r.outcome@ == "rejected"@ && (r.error_code matches Some(text)
                && text@ == code@),
            None => r.outcome@ == "rejected"@ && (r.error_code matches Some(text) && text@
                == "apply_timeout"@),
        },
{
    let (outcome, error_code): (&str, Option<String>) = match result {
        Some(Ok(())) => ("applied", None),
        Some(Err(code)) => ("rejected", Some(code.to_owned())),
        None => ("rejected", Some("apply_timeout".to_owned())),
    };
    ClusterReport {
        version: delivery.version,
        sha256: delivery.sha256.clone(),
        lease: delivery.lease.clone(),
        outcome: outcome.to_owned(),
        error_code,
    }
}

pub open spec fn reported_phase(answer: Result<(), Fault>) -> Result<Phase, Seq<char>> {
    match answer {
        Err(fault) => Err(fault_text(fault, "member report unavailable"@)),
        Ok(()) => Ok(Phase::Observations),
    }
}

/// What follows the report on a delivery.
pub fn after_report(answer: Result<(), Fault>) -> (r: Result<Phase, &'static str>)
    ensures
        agrees(r, reported_phase(answer)),
{
    match answer {
        Err(fault) => Err(fault_message(fault, "member report unavailable")),
        Ok(()) => Ok(Phase::Observations),
    }
}

pub open spec fn observations_phase(answer: Result<Listed, Fault>) -> Result<Phase, Seq<char>> {
    match answer {
        Err(fault) => Err(fault_text(fault, "member observations unavailable"@)),
        Ok(Listed::NotFound) => Ok(Phase::Finished),
        Ok(Listed::Malformed) => Err("invalid observation tasks"@),
        Ok(Listed::Tasks(tasks)) => if tasks > MAX_TASKS {
            Err("too many observation tasks"@)
        } else if tasks == 0 {
            Ok(Phase::Proofs)
        } else {
            Ok(Phase::Observe { task: 0, tasks })
        },
    }
}

/// What follows the list of observations. A control plane that knows of none
/// knows of no proofs either.
pub fn after_observations(answer: Result<Listed, Fault>) -> (r: Result<Phase, &'static str>)
    ensures
        agrees(r, observations_phase(answer)),
{
    match answer {
        Err(fault) => Err(fault_message(fault, "member observations unavailable")),
        Ok(Listed::NotFound) => Ok(Phase::Finished),
        Ok(Listed::Malformed) => Err("invalid observation tasks"),
        Ok(Listed::Tasks(tasks)) => if tasks > MAX_TASKS {
            Err("too many observation tasks")
        } else if tasks == 0 {
            Ok(Phase::Proofs)
        } else {
            Ok(Phase::Observe { task: 0, tasks })
        },
    }
}

pub open spec fn observed_phase(task: u64, tasks: u64, in_time: bool) -> Result<Phase, Seq<char>> {
    if in_time {
        Ok(Phase::ReportObservation { task, tasks })
    } else {
        Err("observation deadline exceeded"@)
    }
}

/// What follows the observation of a task.
pub fn after_observation(task: u64, tasks: u64, in_time: bool) -> (r: Result<Phase, &'static str>)
    requires
        task < tasks <= MAX_TASKS,
    ensures
        agrees(r, observed_phase(task, tasks, in_time)),
{
    if in_time {
        Ok(Phase::ReportObservation { task, tasks })
    } else {
        Err("observation deadline exceeded")
    }
}

pub open spec fn observation_reported_phase(
    task: u64,
    tasks: u64,
    answer: Result<(), Fault>,
) -> Result<Phase, Seq<char>> {
    match answer {
        Err(fault) => Err(fault_text(fault, "member observation report unavailable"@)),
        Ok(()) => if task + 1 < tasks {
            Ok(Phase::Observe { task: (task + 1) as u64, tasks })
        } else {
            Ok(Phase::Proofs)
        },
    }
}

/// What follows the report on an observation: the next task, or the proofs.
pub fn after_observation_report(task: u64, tasks: u64, answer: Result<(), Fault>) -> (r: Result<
    Phase,
    &'static str,
>)
    requires
        task < tasks <= MAX_TASKS,
    ensures
        agrees(r, observation_reported_phase(task, tasks, answer)),
{
    match answer {
        Err(fault) => Err(fault_message(fault, "member observation report unavailable")),
        Ok(()) => if task + 1 < tasks {
            Ok(Phase::Observe { task: task + 1, tasks })
        } else {
            Ok(Phase::Proofs)
        },
    }
}

pub open spec fn proofs_phase(answer: Result<Listed, Fault>) -> Result<Phase, Seq<char>> {
    match answer {
        Err(fault) => Err(fault_text(fault, "gateway proof tasks unavailable"@)),
        Ok(Listed::NotFound) => Ok(Phase::Finished),
        Ok(Listed::Malformed) => Err("invalid gateway proof tasks"@),
        Ok(Listed::Tasks(tasks)) => if tasks > MAX_TASKS {
            Err("too many gateway proof tasks"@)
        } else if tasks == 0 {
            Ok(Phase::Finished)
        } else {
            Ok(Phase::Prove { task: 0, tasks })
        },
    }
}

/// What follows the list of proofs.
pub fn after_proofs(answer: Result<Listed, Fault>) -> (r: Result<Phase, &'static str>)
    ensures
        agrees(r, proofs_phase(answer)),
{
    match answer {
        Err(fault) => Err(fault_message(fault, "gateway proof tasks unavailable")),
        Ok(Listed::NotFound) => Ok(Phase::Finished),
        Ok(Listed::Malformed) => Err("invalid gateway proof tasks"),
        Ok(Listed::Tasks(tasks)) => if tasks > MAX_TASKS {
            Err("too many gateway proof tasks")
        } else if tasks == 0 {
            Ok(Phase::Finished)
        } else {
            Ok(Phase::Prove { task: 0, tasks })
        },
    }
}

pub open spec fn proved_phase(task: u64, tasks: u64, in_time: bool) -> Result<Phase, Seq<char>> {
    if in_time {
        Ok(Phase::ReportProof { task, tasks })
    } else {
        Err("gateway proof deadline"@)
    }
}

/// What follows a proof.
pub fn after_proof(task: u64, tasks: u64, in_time: bool) -> (r: Result<Phase, &'static str>)
    requires
        task < tasks <= MAX_TASKS,
    ensures
        agrees(r, proved_phase(task, tasks, in_time)),
{
    if in_time {
        Ok(Phase::ReportProof { task, tasks })
    } else {
        Err("gateway proof deadline")
    }
}

pub open spec fn proof_reported_phase(
    task: u64,
    tasks: u64,
    answer: Result<(), Fault>,
) -> Result<Phase, Seq<char>> {
    match answer {
        Err(fault) => Err(fault_text(fault, "gateway proof report unavailable"@)),
        Ok(()) => if task + 1 < tasks {
            Ok(Phase::Prove { task: (task + 1) as u64, tasks })
        } else {
            Ok(Phase::Finished)
        },
    }
}

/// What follows the report on a proof: the next task, or the end.
pub fn after_proof_report(task: u64, tasks: u64, answer: Result<(), Fault>) -> (r: Result<
    Phase,
    &'static str,
>)
    requires
        task < tasks <= MAX_TASKS,
    ensures
        agrees(r, proof_reported_phase(task, tasks, answer)),
{
    match answer {
        Err(fault) => Err(fault_message(fault, "gateway proof report unavailable")),
        Ok(()) => if task + 1 < tasks {
            Ok(Phase::Prove { task: task + 1, tasks })
        } else {
            Ok(Phase::Finished)
        },
    }
}

/// The seconds until the next reconciliation: fewer after a success, twice as
/// many after each failure, up to a minute.
pub fn next_delay(delay: u64, succeeded: bool) -> (r: u64)
    requires
        delay <= 60,
    ensures
        r == if succeeded {
            15
        } else if delay * 2 < 60 {
            delay * 2
        } else {
            60
        },
        r <= 60,
{
    if succeeded {
        15
    } else if delay * 2 < 60 {
        delay * 2
    } else {
        60
    }
}

/// Whether another process holds the lease, and whether the writer of this one
/// runs.
#[derive(Clone, Copy, Debug, PartialEq, Eq, Structural)]
pub enum Writer {
    Absent,
    Running,
    Ended,
}

#[derive(Clone, Copy, Debug, PartialEq, Eq, Structural)]
pub enum LeaseAction {
    Stop,
    Start,
    Keep,
}

/// What a look at the lease means for the writer. Without the lease none runs;
/// with it one does.
pub fn lease_action(acquired: bool, writer: Writer) -> (r: LeaseAction)
    ensures
        r == if !acquired {
            LeaseAction::Stop
        } else if writer == Writer::Running {
            LeaseAction::Keep
        } else {
            LeaseAction::Start
        },
{
    if !acquired {
        return LeaseAction::Stop;
    }
    match writer {
        Writer::Running => LeaseAction::Keep,
        _ => LeaseAction::Start,
    }
}

/// Every step of a reconciliation brings it nearer to its end, so that it ends,
/// and every task of a list comes once.
pub proof fn law_reconciliations_end(
    polled: Result<Polled, Fault>,
    listed: Result<Listed, Fault>,
    answer: Result<(), Fault>,
    task: u64,
    tasks: u64,
    in_time: bool,
)
    requires
        task < tasks <= MAX_TASKS,
    ensures
        polled_phase(polled) matches Ok(p) ==> 0 <= distance(p) < distance(Phase::Poll),
        reported_phase(answer) matches Ok(p) ==> 0 <= distance(p) < distance(Phase::Report),
        distance(Phase::Report) < distance(Phase::Apply),
        observations_phase(listed) matches Ok(p) ==> 0 <= distance(p) < distance(
            Phase::Observations,
        ),
        observed_phase(task, tasks, in_time) matches Ok(p) ==> 0 <= distance(p) < distance(
            Phase::Observe { task, tasks },
        ),
        observation_reported_phase(task, tasks, answer) matches Ok(p) ==> 0 <= distance(p)
            < distance(Phase::ReportObservation { task, tasks }),
        proofs_phase(listed) matches Ok(p) ==> 0 <= distance(p) < distance(Phase::Proofs),
        proved_phase(task, tasks, in_time) matches Ok(p) ==> 0 <= distance(p) < distance(
            Phase::Prove { task, tasks },
        ),
        proof_reported_phase(task, tasks, answer) matches Ok(p) ==> 0 <= distance(p) < distance(
            Phase::ReportProof { task, tasks },
        ),
{
}

/// A delivery is applied and reported before anything is observed, every task is observed and
/// reported in its turn, and proofs come after observations.
pub proof fn law_every_task_has_its_turn(task: u64, tasks: u64)
    requires
        task < tasks <= 100,
    ensures
        polled_phase(Ok(Polled::Delivery)) == Ok::<Phase, Seq<char>>(Phase::Apply),
        polled_phase(Ok(Polled::Nothing)) == Ok::<Phase, Seq<char>>(Phase::Observations),
        reported_phase(Ok(())) == Ok::<Phase, Seq<char>>(Phase::Observations),
        observations_phase(Ok(Listed::Tasks(tasks))) == Ok::<Phase, Seq<char>>(
            Phase::Observe { task: 0, tasks },
        ),
        observed_phase(task, tasks, true) == Ok::<Phase, Seq<char>>(
            Phase::ReportObservation { task, tasks },
        ),
        observation_reported_phase(task, tasks, Ok(())) == Ok::<Phase, Seq<char>>(
            if task + 1 < tasks {
                Phase::Observe { task: (task + 1) as u64, tasks }
            } else {
                Phase::Proofs
            },
        ),
        proofs_phase(Ok(Listed::Tasks(tasks))) == Ok::<Phase, Seq<char>>(
            Phase::Prove { task: 0, tasks },
        ),
        proved_phase(task, tasks, true) == Ok::<Phase, Seq<char>>(Phase::ReportProof { task, tasks }),
        proof_reported_phase(task, tasks, Ok(())) == Ok::<Phase, Seq<char>>(
            if task + 1 < tasks {
                Phase::Prove { task: (task + 1) as u64, tasks }
            } else {
                Phase::Finished
            },
        ),
        observations_phase(Ok(Listed::Tasks(0))) == Ok::<Phase, Seq<char>>(Phase::Proofs),
        proofs_phase(Ok(Listed::Tasks(0))) == Ok::<Phase, Seq<char>>(Phase::Finished),
{
}

/// No phase is passed on a failure, on a list that is too long or cannot be read, or past its
/// deadline.
pub proof fn law_failures_end_the_cycle(fault: Fault, task: u64, tasks: u64)
    ensures
        polled_phase(Err(fault)) is Err,
        polled_phase(Ok(Polled::Malformed)) is Err,
        reported_phase(Err(fault)) is Err,
        observations_phase(Err(fault)) is Err,
        observations_phase(Ok(Listed::Malformed)) is Err,
        tasks > 100 ==> observations_phase(Ok(Listed::Tasks(tasks))) is Err && proofs_phase(
            Ok(Listed::Tasks(tasks)),
        ) is Err,
        observed_phase(task, tasks, false) is Err,
        observation_reported_phase(task, tasks, Err(fault)) is Err,
        proofs_phase(Err(fault)) is Err,
        proofs_phase(Ok(Listed::Malformed)) is Err,
        proved_phase(task, tasks, false) is Err,
        proof_reported_phase(task, tasks, Err(fault)) is Err,
{
}

} // verus!
