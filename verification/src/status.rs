//! The verdict held for one mountpoint.

use vstd::prelude::*;

verus! {

/// Identifies a probe process that was started and has not been reaped.
///
/// The value is opaque to this library: it is handed in with a stalled probe
/// and handed back when that probe is to be polled.
#[derive(Clone, Copy, Debug, PartialEq, Eq, Structural)]
pub struct ProbeHandle {
    pub pid: u32,
}

/// What is known of a mountpoint after its latest probe.
#[derive(Clone, Copy, Debug, PartialEq, Eq, Structural)]
pub enum MountStatus {
    /// The latest completed probe exited with code 0.
    Alive,
    /// The latest completed probe exited with this non-zero code.
    CheckFailed(i32),
    /// The latest completed probe was ended by this signal (0 if unknown).
    CheckSignaled(i32),
    /// A probe was started at `start_time`, in seconds on the caller's clock,
    /// and has not been seen to exit.
    CheckRunning { handle: ProbeHandle, start_time: u64 },
}

impl MountStatus {
    /// Only `Alive` counts as a responsive mount.
    pub open spec fn is_success(self) -> bool {
        self is Alive
    }

    /// The probes that this status keeps track of: the handle of a running
    /// check, nothing otherwise.
    pub open spec fn outstanding(self) -> Set<ProbeHandle> {
        match self {
            MountStatus::CheckRunning { handle, .. } => set![handle],
            _ => Set::empty(),
        }
    }

    /// Whether the mount counts as responsive.
    pub fn success(&self) -> (ok: bool)
        ensures
            ok == self.is_success(),
    {
        match self {
            MountStatus::Alive => true,
            _ => false,
        }
    }

    /// Whether a probe is still outstanding for the mount.
    pub fn is_running(&self) -> (running: bool)
        ensures
            running == (*self is CheckRunning),
    {
        match self {
            MountStatus::CheckRunning { .. } => true,
            _ => false,
        }
    }

    /// The handle of the outstanding probe, if there is one.
    pub fn handle(&self) -> (h: Option<ProbeHandle>)
        ensures
            match *self {
                MountStatus::CheckRunning { handle, .. } => h == Some(handle),
                _ => h is None,
            },
    {
        match self {
            MountStatus::CheckRunning { handle, .. } => Some(*handle),
            _ => None,
        }
    }
}

/// A status keeps track of at most one probe.
pub proof fn lemma_outstanding_at_most_one(status: MountStatus)
    ensures
        status.outstanding().finite(),
        status.outstanding().len() <= 1,
        status.outstanding().len() == 1 <==> status is CheckRunning,
{
}

} // verus!
