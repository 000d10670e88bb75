//! The per-mountpoint check state machine.
//!
//! Each cycle a mountpoint's status calls for one action: poll the probe that
//! is still outstanding, or launch a fresh one. The caller performs the action
//! and hands back what it observed; the status moves on accordingly and a
//! notice says what is to be logged.

use vstd::prelude::*;
use crate::probe::{elapsed_between, elapsed_secs, ProbeError, ProbeExit, ProbeOutcome};
use crate::status::{MountStatus, ProbeHandle};

verus! {

/// What is to be done for a mountpoint in the coming cycle.
#[derive(Clone, Copy, Debug, PartialEq, Eq, Structural)]
pub enum Action {
    /// Run a fresh probe, bounded by the deadline.
    Launch,
    /// Look, without blocking, whether this outstanding probe has exited.
    Poll(ProbeHandle),
}

/// What the caller saw when it performed an action.
#[derive(Clone, Copy, Debug)]
pub enum Observation {
    /// The answer to `Action::Launch`.
    Probe(Result<ProbeOutcome, ProbeError>),
    /// The answer to `Action::Poll`: `Ok(None)` while the probe has not exited.
    Poll(Result<Option<ProbeExit>, ProbeError>),
}

/// How loudly a notice is to be logged.
#[derive(Clone, Copy, Debug, PartialEq, Eq, Structural)]
pub enum Severity {
    Debug,
    Info,
    Warning,
    Error,
}

/// The one line that a mountpoint's check gives rise to in a cycle.
#[derive(Clone, Copy, Debug, PartialEq, Eq, Structural)]
pub enum Notice {
    /// A stalled probe was found to have exited, `elapsed` seconds after its start.
    SlowCheckExited { exit: ProbeExit, elapsed: u64 },
    /// A stalled probe has still not exited, `elapsed` seconds after its start.
    SlowCheckPending { elapsed: u64 },
    /// Polling a stalled probe failed, `elapsed` seconds after its start.
    SlowCheckError { elapsed: u64 },
    /// A fresh probe exited with code 0.
    CheckPassed,
    /// A fresh probe did not confirm the mount; `status` is the new status.
    CheckFailed { status: MountStatus },
    /// A fresh probe could not be run.
    ProbeError(ProbeError),
}

/// A status after one cycle's check, and what to log about it.
#[derive(Clone, Copy, Debug, PartialEq, Eq, Structural)]
pub struct Transition {
    pub status: MountStatus,
    pub notice: Notice,
}

/// The action that a status calls for: a running check is polled, any other
/// status gets a fresh probe.
pub open spec fn action_for(status: MountStatus) -> Action {
    match status {
        MountStatus::CheckRunning { handle, .. } => Action::Poll(handle),
        _ => Action::Launch,
    }
}

/// Whether an observation is the kind of answer that an action calls for.
pub open spec fn answers(action: Action, observation: Observation) -> bool {
    match action {
        Action::Launch => observation is Probe,
        Action::Poll(_) => observation is Poll,
    }
}

/// The status after a fresh probe: its outcome, or the prior status where the
/// probe could not be run.
pub open spec fn status_after_probe(
    prior: MountStatus,
    result: Result<ProbeOutcome, ProbeError>,
) -> MountStatus {
    match result {
        Ok(outcome) => outcome.spec_status(),
        Err(_) => prior,
    }
}

/// The notice after a fresh probe.
pub open spec fn notice_after_probe(result: Result<ProbeOutcome, ProbeError>) -> Notice {
    match result {
        Ok(outcome) => if outcome.spec_status() is Alive {
            Notice::CheckPassed
        } else {
            Notice::CheckFailed { status: outcome.spec_status() }
        },
        Err(e) => Notice::ProbeError(e),
    }
}

/// The status after a poll: that of the exit where one was seen, else the
/// prior status.
pub open spec fn status_after_poll(
    prior: MountStatus,
    result: Result<Option<ProbeExit>, ProbeError>,
) -> MountStatus {
    match result {
        Ok(Some(exit)) => exit.spec_status(),
        _ => prior,
    }
}

/// The notice after polling a probe that was started at `start_time`.
pub open spec fn notice_after_poll(
    start_time: u64,
    result: Result<Option<ProbeExit>, ProbeError>,
    now: u64,
) -> Notice {
    let elapsed = elapsed_between(start_time, now);
    match result {
        Ok(Some(exit)) => Notice::SlowCheckExited { exit, elapsed },
        Ok(None) => Notice::SlowCheckPending { elapsed },
        Err(_) => Notice::SlowCheckError { elapsed },
    }
}

/// The status after an observation. One that does not answer the action the
/// status calls for changes nothing.
pub open spec fn next_status(status: MountStatus, observation: Observation) -> MountStatus {
    match observation {
        Observation::Probe(result) => if status is CheckRunning {
            status
        } else {
            status_after_probe(status, result)
        },
        Observation::Poll(result) => if status is CheckRunning {
            status_after_poll(status, result)
        } else {
            status
        },
    }
}

/// The notice for an observation; none where it does not answer the action
/// the status calls for.
pub open spec fn next_notice(status: MountStatus, observation: Observation, now: u64) -> Option<
    Notice,
> {
    match (status, observation) {
        (MountStatus::CheckRunning { start_time, .. }, Observation::Poll(result)) => Some(
            notice_after_poll(start_time, result, now),
        ),
        (MountStatus::CheckRunning { .. }, Observation::Probe(_)) => None,
        (_, Observation::Probe(result)) => Some(notice_after_probe(result)),
        (_, Observation::Poll(_)) => None,
    }
}

impl Notice {
    /// The severity each kind of notice is logged at.
    pub open spec fn spec_severity(&self) -> Severity {
        match *self {
            Notice::SlowCheckExited { .. } => Severity::Info,
            Notice::SlowCheckPending { .. } => Severity::Warning,
            Notice::SlowCheckError { .. } => Severity::Error,
            Notice::CheckPassed => Severity::Debug,
            Notice::CheckFailed { .. } => Severity::Error,
            Notice::ProbeError(_) => Severity::Error,
        }
    }

    /// The severity this notice is logged at.
    #[verifier::when_used_as_spec(spec_severity)]
    pub fn severity(&self) -> (severity: Severity)
        ensures
            severity == self.spec_severity(),
    {
        match self {
            Notice::SlowCheckExited { .. } => Severity::Info,
            Notice::SlowCheckPending { .. } => Severity::Warning,
            Notice::SlowCheckError { .. } => Severity::Error,
            Notice::CheckPassed => Severity::Debug,
            Notice::CheckFailed { .. } => Severity::Error,
            Notice::ProbeError(_) => Severity::Error,
        }
    }
}

impl Observation {
    /// Whether this observation is the kind of answer that `action` calls for.
    pub fn answers(&self, action: Action) -> (ok: bool)
        ensures
            ok == answers(action, *self),
    {
        match action {
            Action::Launch => match self {
                Observation::Probe(_) => true,
                Observation::Poll(_) => false,
            },
            Action::Poll(_) => match self {
                Observation::Probe(_) => false,
                Observation::Poll(_) => true,
            },
        }
    }
}

impl MountStatus {
    /// The action this status calls for. A fresh probe is launched only while
    /// no probe is outstanding.
    pub fn action(&self) -> (action: Action)
        ensures
            action == action_for(*self),
            action is Launch <==> self.outstanding().is_empty(),
    {
        match self {
            MountStatus::CheckRunning { handle, .. } => {
                assert(self.outstanding().contains(*handle));
                Action::Poll(*handle)
            },
            _ => Action::Launch,
        }
    }

    /// Moves a status without an outstanding probe on by the result of a fresh
    /// probe.
    ///
    /// An outcome becomes the new status: `Alive` for exit code 0,
    /// `CheckFailed` for another code, `CheckSignaled` for a signal,
    /// `CheckRunning` for a probe that hit its deadline. Where the probe could
    /// not be run the status stays as it was.
    pub fn after_probe(self, result: Result<ProbeOutcome, ProbeError>) -> (next: Transition)
        requires
            !(self is CheckRunning),
        ensures
            next.status == status_after_probe(self, result),
            next.notice == notice_after_probe(result),
            next.status == next_status(self, Observation::Probe(result)),
    {
        match result {
            Ok(outcome) => {
                let status = outcome.status();
                let notice = if status.success() {
                    Notice::CheckPassed
                } else {
                    Notice::CheckFailed { status }
                };
                Transition { status, notice }
            },
            Err(e) => Transition { status: self, notice: Notice::ProbeError(e) },
        }
    }

    /// Moves a running check on by the result of polling its probe at `now`.
    ///
    /// Once the probe is seen to have exited, the status is that of its exit
    /// and no longer `CheckRunning`. While it has not exited, or where the
    /// poll itself failed, the status stays as it was, handle and start time
    /// included.
    pub fn after_poll(self, result: Result<Option<ProbeExit>, ProbeError>, now: u64) -> (next:
        Transition)
        requires
            self is CheckRunning,
        ensures
            next.status == status_after_poll(self, result),
            next.notice == notice_after_poll(self->start_time, result, now),
            next.status == next_status(self, Observation::Poll(result)),
            Some(next.notice) == next_notice(self, Observation::Poll(result), now),
            result is Ok && result->Ok_0 is Some ==> !(next.status is CheckRunning),
            !(result is Ok && result->Ok_0 is Some) ==> next.status == self,
    {
        let start_time = match self {
            MountStatus::CheckRunning { start_time, .. } => start_time,
            _ => 0,
        };
        let elapsed = elapsed_secs(start_time, now);
        match result {
            Ok(Some(exit)) => Transition {
                status: exit.status(),
                notice: Notice::SlowCheckExited { exit, elapsed },
            },
            Ok(None) => Transition { status: self, notice: Notice::SlowCheckPending { elapsed } },
            Err(_) => Transition { status: self, notice: Notice::SlowCheckError { elapsed } },
        }
    }

    /// Moves a status on by what was observed at `now`.
    ///
    /// An observation that answers the action this status calls for is
    /// applied as `after_probe` and `after_poll` say. Any other changes
    /// nothing and gives no notice: in particular the outcome of a second
    /// probe never replaces a probe that is still outstanding.
    pub fn advance(self, observation: Observation, now: u64) -> (next: (MountStatus, Option<Notice>))
        ensures
            next.0 == next_status(self, observation),
            next.1 == next_notice(self, observation, now),
            next.1 is Some <==> answers(action_for(self), observation),
            !answers(action_for(self), observation) ==> next.0 == self,
    {
        match observation {
            Observation::Probe(result) => {
                if self.is_running() {
                    (self, None)
                } else {
                    let t = self.after_probe(result);
                    (t.status, Some(t.notice))
                }
            },
            Observation::Poll(result) => {
                if self.is_running() {
                    let t = self.after_poll(result, now);
                    (t.status, Some(t.notice))
                } else {
                    (self, None)
                }
            },
        }
    }
}

} // verus!
