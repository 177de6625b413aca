//! Deciding whether the machine is idle enough for background work.
use vstd::prelude::*;

verus! {

/// What the host reports of the user's session.
#[derive(Clone, Copy, Debug, PartialEq, Eq, Structural)]
pub enum SessionStatus {
    Active,
    Idle,
    /// The host cannot tell.
    Unknown,
}

#[derive(Clone, Copy, Debug, PartialEq, Eq, Structural)]
pub enum IdleError {
    /// The maximum wait is shorter than the idle period asked for.
    MaxWaitShorterThanIdle,
    /// The poll interval is longer than the maximum wait.
    PollLongerThanMaxWait,
}

/// What to do after one poll.
#[derive(Clone, Copy, Debug, PartialEq, Eq, Structural)]
pub enum IdleStep {
    /// Idleness is confirmed (or cannot be determined): go ahead.
    Idle,
    /// The machine is in use: sleep this many milliseconds and poll again.
    Sleep(u64),
    /// The maximum wait has passed with the machine in use.
    Busy,
}

/// A validated idle wait, in milliseconds.
pub struct IdleWait {
    pub idle_duration_ms: u64,
    pub max_wait_ms: u64,
    pub poll_interval_ms: u64,
}

impl IdleWait {
    pub open spec fn wf(&self) -> bool {
        self.idle_duration_ms <= self.max_wait_ms && self.poll_interval_ms <= self.max_wait_ms
    }

    /// Checks the configuration: the idle period and the poll interval may
    /// not exceed the maximum wait.
    pub fn new(idle_duration_ms: u64, max_wait_ms: u64, poll_interval_ms: u64) -> (r: Result<
        IdleWait,
        IdleError,
    >)
        ensures
            max_wait_ms < idle_duration_ms ==> r == Err::<IdleWait, IdleError>(
                IdleError::MaxWaitShorterThanIdle,
            ),
            idle_duration_ms <= max_wait_ms < poll_interval_ms ==> r == Err::<IdleWait, IdleError>(
                IdleError::PollLongerThanMaxWait,
            ),
            r matches Ok(w) ==> w.wf() && w.idle_duration_ms == idle_duration_ms && w.max_wait_ms
                == max_wait_ms && w.poll_interval_ms == poll_interval_ms,
            r is Ok <==> idle_duration_ms <= max_wait_ms && poll_interval_ms <= max_wait_ms,
    {
        if max_wait_ms < idle_duration_ms {
            Err(IdleError::MaxWaitShorterThanIdle)
        } else if poll_interval_ms > max_wait_ms {
            Err(IdleError::PollLongerThanMaxWait)
        } else {
            Ok(IdleWait { idle_duration_ms, max_wait_ms, poll_interval_ms })
        }
    }

    /// One poll, `elapsed_ms` after the wait began: past the maximum wait the
    /// answer is busy; otherwise an active session means sleep and poll
    /// again, and anything else means idle.
    pub fn step(&self, elapsed_ms: u64, status: SessionStatus) -> (r: IdleStep)
        ensures
            elapsed_ms > self.max_wait_ms ==> r == IdleStep::Busy,
            elapsed_ms <= self.max_wait_ms && status == SessionStatus::Active ==> r == IdleStep::Sleep(
                self.poll_interval_ms,
            ),
            elapsed_ms <= self.max_wait_ms && status != SessionStatus::Active ==> r == IdleStep::Idle,
    {
        if elapsed_ms > self.max_wait_ms {
            IdleStep::Busy
        } else {
            match status {
                SessionStatus::Active => IdleStep::Sleep(self.poll_interval_ms),
                _ => IdleStep::Idle,
            }
        }
    }
}

/// A settable stand-in for the host's activity report.
pub struct ActivityFlag {
    pub machine_is_active: bool,
}

impl ActivityFlag {
    /// The session status this flag reports.
    pub fn status(&self) -> (r: SessionStatus)
        ensures
            r == if self.machine_is_active {
                SessionStatus::Active
            } else {
                SessionStatus::Idle
            },
    {
        if self.machine_is_active {
            SessionStatus::Active
        } else {
            SessionStatus::Idle
        }
    }
}

pub fn test_only_get_preemptive_sync_machine_is_active(flag: &ActivityFlag) -> (r: bool)
    ensures
        r == flag.machine_is_active,
{
    flag.machine_is_active
}

pub fn test_only_set_preemptive_sync_machine_is_active(flag: &mut ActivityFlag, new_value: bool)
    ensures
        final(flag).machine_is_active == new_value,
{
    flag.machine_is_active = new_value;
}

} // verus!
