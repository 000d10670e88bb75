//! What a probe reports, and the status that each report stands for.

use vstd::prelude::*;
use crate::status::{MountStatus, ProbeHandle};

verus! {

/// Seconds a probe is given before it is killed and left to a later poll.
pub const PROBE_TIMEOUT_SECS: u64 = 3;

/// Seconds between two cycles unless the operator says otherwise.
pub const DEFAULT_POLL_INTERVAL_SECS: u64 = 60;

/// How a probe process ended.
#[derive(Clone, Copy, Debug, PartialEq, Eq, Structural)]
pub enum ProbeExit {
    /// It returned this exit code.
    Exited(i32),
    /// It was ended by this signal (0 if the signal is unknown).
    Signaled(i32),
}

/// The result of running a fresh probe up to its deadline.
#[derive(Clone, Copy, Debug, PartialEq, Eq, Structural)]
pub enum ProbeOutcome {
    /// The probe returned this exit code within the deadline.
    Exited(i32),
    /// The probe was ended by this signal within the deadline.
    Signaled(i32),
    /// The deadline passed; the probe was sent a kill signal and not waited
    /// for. `start_time` is when it was started, in seconds on the caller's
    /// clock.
    StillRunning { handle: ProbeHandle, start_time: u64 },
}

/// Why a probe gave no outcome.
#[derive(Clone, Copy, Debug, PartialEq, Eq, Structural)]
pub enum ProbeError {
    /// The probe process could not be started.
    SpawnFailed,
    /// Waiting on, or polling, the probe process failed.
    WaitFailed,
}

impl ProbeExit {
    /// The status of a mount whose probe ended this way.
    pub open spec fn spec_status(self) -> MountStatus {
        match self {
            ProbeExit::Exited(code) => if code == 0 {
                MountStatus::Alive
            } else {
                MountStatus::CheckFailed(code)
            },
            ProbeExit::Signaled(signal) => MountStatus::CheckSignaled(signal),
        }
    }

    /// The status of a mount whose probe ended this way.
    #[verifier::when_used_as_spec(spec_status)]
    pub fn status(self) -> (status: MountStatus)
        ensures
            status == self.spec_status(),
            !(status is CheckRunning),
    {
        match self {
            ProbeExit::Exited(code) => if code == 0 {
                MountStatus::Alive
            } else {
                MountStatus::CheckFailed(code)
            },
            ProbeExit::Signaled(signal) => MountStatus::CheckSignaled(signal),
        }
    }

    /// The outcome of a fresh probe that ended this way within its deadline.
    pub fn outcome(self) -> (outcome: ProbeOutcome)
        ensures
            outcome == match self {
                ProbeExit::Exited(code) => ProbeOutcome::Exited(code),
                ProbeExit::Signaled(signal) => ProbeOutcome::Signaled(signal),
            },
            outcome.spec_status() == self.spec_status(),
    {
        match self {
            ProbeExit::Exited(code) => ProbeOutcome::Exited(code),
            ProbeExit::Signaled(signal) => ProbeOutcome::Signaled(signal),
        }
    }
}

impl ProbeOutcome {
    /// The status of a mount whose fresh probe gave this outcome.
    pub open spec fn spec_status(self) -> MountStatus {
        match self {
            ProbeOutcome::Exited(code) => ProbeExit::Exited(code).spec_status(),
            ProbeOutcome::Signaled(signal) => ProbeExit::Signaled(signal).spec_status(),
            ProbeOutcome::StillRunning { handle, start_time } => MountStatus::CheckRunning {
                handle,
                start_time,
            },
        }
    }

    /// The status of a mount whose fresh probe gave this outcome.
    #[verifier::when_used_as_spec(spec_status)]
    pub fn status(self) -> (status: MountStatus)
        ensures
            status == self.spec_status(),
    {
        match self {
            ProbeOutcome::Exited(code) => ProbeExit::Exited(code).status(),
            ProbeOutcome::Signaled(signal) => ProbeExit::Signaled(signal).status(),
            ProbeOutcome::StillRunning { handle, start_time } => MountStatus::CheckRunning {
                handle,
                start_time,
            },
        }
    }
}

/// The exit that a process's exit code and terminating signal stand for.
pub open spec fn exit_of(code: Option<i32>, signal: Option<i32>) -> ProbeExit {
    match code {
        Some(c) => ProbeExit::Exited(c),
        None => match signal {
            Some(s) => ProbeExit::Signaled(s),
            None => ProbeExit::Signaled(0),
        },
    }
}

/// Reads a process's end from its exit code and terminating signal.
///
/// A process with an exit code exited normally, whatever `signal` holds. One
/// without was ended by a signal, which counts as signal 0 where it is unknown.
pub fn classify_exit(code: Option<i32>, signal: Option<i32>) -> (exit: ProbeExit)
    ensures
        exit == exit_of(code, signal),
{
    match code {
        Some(c) => ProbeExit::Exited(c),
        None => match signal {
            Some(s) => ProbeExit::Signaled(s),
            None => ProbeExit::Signaled(0),
        },
    }
}

/// Whole seconds from `start_time` to `now`; 0 if the clock has not moved on.
pub open spec fn elapsed_between(start_time: u64, now: u64) -> u64 {
    if now >= start_time {
        (now - start_time) as u64
    } else {
        0
    }
}

/// Seconds that a probe started at `start_time` has been running at `now`.
pub fn elapsed_secs(start_time: u64, now: u64) -> (elapsed: u64)
    ensures
        elapsed == elapsed_between(start_time, now),
{
    if now >= start_time {
        now - start_time
    } else {
        0
    }
}

} // verus!
