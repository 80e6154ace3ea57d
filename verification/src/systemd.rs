//! How a node reads what systemd reports about the units that run its jobs.
use vstd::prelude::*;

use crate::debug_fmt::{debug_str, push_str, str_debug};
use crate::text::{decimal, owned, push_decimal, str_eq};

verus! {

/// Why systemd did not start a job's unit.
#[derive(Debug)]
pub enum JobStartError {
    Canceled,
    Timeout,
    Failed,
    Dependency,
    Skipped,
    Unexpected(String),
}

/// The result names that systemd reports for a finished start job, and
/// which of them means the unit started.
pub open spec fn job_result_spec(r: Seq<char>) -> Result<(), JobStartError> {
    if r == "done"@ {
        Ok(())
    } else if r == "canceled"@ {
        Err(JobStartError::Canceled)
    } else if r == "timeout"@ {
        Err(JobStartError::Timeout)
    } else if r == "failed"@ {
        Err(JobStartError::Failed)
    } else if r == "dependency"@ {
        Err(JobStartError::Dependency)
    } else if r == "skipped"@ {
        Err(JobStartError::Skipped)
    } else {
        Err(JobStartError::Unexpected(arbitrary()))
    }
}

/// Whether two results agree, the text of an unexpected one aside.
pub open spec fn same_job_result(a: Result<(), JobStartError>, b: Result<(), JobStartError>) -> bool {
    match (a, b) {
        (Ok(()), Ok(())) => true,
        (Err(JobStartError::Canceled), Err(JobStartError::Canceled)) => true,
        (Err(JobStartError::Timeout), Err(JobStartError::Timeout)) => true,
        (Err(JobStartError::Failed), Err(JobStartError::Failed)) => true,
        (Err(JobStartError::Dependency), Err(JobStartError::Dependency)) => true,
        (Err(JobStartError::Skipped), Err(JobStartError::Skipped)) => true,
        (Err(JobStartError::Unexpected(_)), Err(JobStartError::Unexpected(_))) => true,
        _ => false,
    }
}

/// Reads the result of a start job.
pub fn sd_job_result(result: &str) -> (r: Result<(), JobStartError>)
    ensures
        same_job_result(r, job_result_spec(result@)),
        r matches Err(JobStartError::Unexpected(s)) ==> s@ == result@,
{
    if str_eq(result, "done") {
        Ok(())
    } else if str_eq(result, "canceled") {
        Err(JobStartError::Canceled)
    } else if str_eq(result, "timeout") {
        Err(JobStartError::Timeout)
    } else if str_eq(result, "failed") {
        Err(JobStartError::Failed)
    } else if str_eq(result, "dependency") {
        Err(JobStartError::Dependency)
    } else if str_eq(result, "skipped") {
        Err(JobStartError::Skipped)
    } else {
        Err(JobStartError::Unexpected(owned(result)))
    }
}

/// The message of each start error.
pub open spec fn job_start_message(e: JobStartError) -> Seq<char> {
    match e {
        JobStartError::Canceled => "canceled via systemd before starting"@,
        JobStartError::Timeout => "timed out via systemd before starting"@,
        JobStartError::Failed => "failed to start"@,
        JobStartError::Dependency => "failed to start because a dependency failed"@,
        JobStartError::Skipped => "skipped by systemd before starting"@,
        JobStartError::Unexpected(r) => "unexpected result from systemd: "@ + str_debug(r@),
    }
}

impl JobStartError {
    /// The message that describes this error.
    pub fn message(&self) -> (s: String)
        ensures
            s@ == job_start_message(*self),
    {
        match self {
            JobStartError::Canceled => owned("canceled via systemd before starting"),
            JobStartError::Timeout => owned("timed out via systemd before starting"),
            JobStartError::Failed => owned("failed to start"),
            JobStartError::Dependency => owned("failed to start because a dependency failed"),
            JobStartError::Skipped => owned("skipped by systemd before starting"),
            JobStartError::Unexpected(r) => {
                let mut s = owned("unexpected result from systemd: ");
                let d = debug_str(r.as_str());
                push_str(&mut s, d.as_str());
                s
            },
        }
    }
}

/// How a unit that stopped ended.
#[derive(Debug, Clone, Copy, PartialEq, Eq, Structural)]
pub enum DoneState {
    Inactive,
    Failed,
}

/// Whether a unit is still running or has stopped.
#[derive(Debug, Clone, Copy, PartialEq, Eq, Structural)]
pub enum ActiveState {
    Active,
    Done(DoneState),
}

/// An active state of a unit that a job's unit is not expected to reach.
#[derive(Debug)]
pub enum UnitStateError {
    /// a state systemd documents, which a job's unit should not be in
    Unhandled(String),
    /// a state systemd does not document
    Unexpected(String),
}

/// The meaning of each active state systemd reports.
pub open spec fn active_state_spec(s: Seq<char>) -> Option<ActiveState> {
    if s == "active"@ || s == "activating"@ || s == "deactivating"@ {
        Some(ActiveState::Active)
    } else if s == "inactive"@ {
        Some(ActiveState::Done(DoneState::Inactive))
    } else if s == "failed"@ {
        Some(ActiveState::Done(DoneState::Failed))
    } else {
        None
    }
}

/// The states systemd documents that a job's unit is not expected to be in.
pub open spec fn unhandled_state(s: Seq<char>) -> bool {
    s == "maintenance"@ || s == "reloading"@ || s == "refreshing"@
}

/// Reads the active state of a unit.
pub fn sd_unit_active_state(state: &str) -> (r: Result<ActiveState, UnitStateError>)
    ensures
        match r {
            Ok(a) => active_state_spec(state@) == Some(a),
            Err(UnitStateError::Unhandled(s)) => active_state_spec(state@) is None && unhandled_state(
                state@,
            ) && s@ == state@,
            Err(UnitStateError::Unexpected(s)) => active_state_spec(state@) is None
                && !unhandled_state(state@) && s@ == state@,
        },
{
    if str_eq(state, "active") || str_eq(state, "activating") || str_eq(state, "deactivating") {
        Ok(ActiveState::Active)
    } else if str_eq(state, "inactive") {
        Ok(ActiveState::Done(DoneState::Inactive))
    } else if str_eq(state, "failed") {
        Ok(ActiveState::Done(DoneState::Failed))
    } else if str_eq(state, "maintenance") || str_eq(state, "reloading") || str_eq(
        state,
        "refreshing",
    ) {
        Err(UnitStateError::Unhandled(owned(state)))
    } else {
        Err(UnitStateError::Unexpected(owned(state)))
    }
}

/// The message of each unit state error.
pub open spec fn unit_state_message(e: UnitStateError) -> Seq<char> {
    match e {
        UnitStateError::Unhandled(s) => "unhandled unit active state from systemd: "@ + s@
            + " (I wasn't expecting to see it)"@,
        UnitStateError::Unexpected(s) => "unexpected unit active state from systemd: "@ + str_debug(
            s@,
        ),
    }
}

impl UnitStateError {
    /// The message that describes this error.
    pub fn message(&self) -> (m: String)
        ensures
            m@ == unit_state_message(*self),
    {
        match self {
            UnitStateError::Unhandled(s) => {
                let mut m = owned("unhandled unit active state from systemd: ");
                push_str(&mut m, s.as_str());
                push_str(&mut m, " (I wasn't expecting to see it)");
                m
            },
            UnitStateError::Unexpected(s) => {
                let mut m = owned("unexpected unit active state from systemd: ");
                let d = debug_str(s.as_str());
                push_str(&mut m, d.as_str());
                m
            },
        }
    }
}

/// One `JobRemoved` signal while a node waits for the start job of its unit:
/// a signal for another job is passed over (`None`); for its own job the
/// wait ends with the start job's result read as `sd_job_result` reads it.
pub fn job_removed_step(ours: bool, result: &str) -> (r: Option<Result<(), JobStartError>>)
    ensures
        !ours ==> r is None,
        ours ==> (r matches Some(x) && same_job_result(x, job_result_spec(result@))),
        r matches Some(Err(JobStartError::Unexpected(s))) ==> s@ == result@,
{
    if ours {
        Some(sd_job_result(result))
    } else {
        None
    }
}

/// One active state while a node waits for its job's unit to stop: a unit
/// still running keeps the wait going (`Ok(None)`), a stopped one ends it
/// with how it ended, and a state a job's unit should not be in is an error.
pub fn active_state_step(state: &str) -> (r: Result<Option<DoneState>, UnitStateError>)
    ensures
        match r {
            Ok(Some(d)) => active_state_spec(state@) == Some(ActiveState::Done(d)),
            Ok(None) => active_state_spec(state@) == Some(ActiveState::Active),
            Err(UnitStateError::Unhandled(s)) => active_state_spec(state@) is None
                && unhandled_state(state@) && s@ == state@,
            Err(UnitStateError::Unexpected(s)) => active_state_spec(state@) is None
                && !unhandled_state(state@) && s@ == state@,
        },
{
    match sd_unit_active_state(state) {
        Ok(ActiveState::Done(d)) => Ok(Some(d)),
        Ok(ActiveState::Active) => Ok(None),
        Err(e) => Err(e),
    }
}

/// The name of the transient unit that runs job `id`.
pub open spec fn unit_name_spec(id: u64) -> Seq<char> {
    "gubernator_job-"@ + decimal(id as nat) + ".service"@
}

/// The name of the transient unit that runs job `id`.
pub fn unit_name(id: u64) -> (s: String)
    ensures
        s@ == unit_name_spec(id),
{
    let mut s = owned("gubernator_job-");
    push_decimal(&mut s, id);
    push_str(&mut s, ".service");
    s
}

/// The command line of the unit that runs `script`: `/usr/bin/env` as
/// program, and as arguments `/usr/bin/env bash -c <script>`.
pub fn exec_start_argv(script: &str) -> (v: Vec<String>)
    ensures
        v@.len() == 4,
        v@[0]@ == "/usr/bin/env"@,
        v@[1]@ == "bash"@,
        v@[2]@ == "-c"@,
        v@[3]@ == script@,
{
    let mut v: Vec<String> = Vec::new();
    v.push(owned("/usr/bin/env"));
    v.push(owned("bash"));
    v.push(owned("-c"));
    v.push(owned(script));
    v
}

/// The exit code of a unit's main process, from the status systemd
/// reports: a negative status has none, otherwise its low eight bits.
pub fn exit_code(status: i32) -> (c: Option<u8>)
    ensures
        c == (if status >= 0 {
            Some((status % 256) as u8)
        } else {
            None
        }),
{
    if status >= 0 {
        let c = status as u8;
        assert(status >= 0 ==> (status as u8) == status % 256) by (bit_vector);
        Some(c)
    } else {
        None
    }
}

/// What a finished job reports: it succeeded unless its unit failed, and
/// its exit code.
pub fn job_outcome(done: DoneState, status: i32) -> (r: (bool, Option<u8>))
    ensures
        r.0 == (done != DoneState::Failed),
        r.1 == (if status >= 0 {
            Some((status % 256) as u8)
        } else {
            None
        }),
{
    (done != DoneState::Failed, exit_code(status))
}

} // verus!
