//! What holds of the check state machine and the registry over any run.

use vstd::prelude::*;
use crate::machine::{action_for, answers, next_status, Action, Observation};
use crate::probe::{ProbeExit, ProbeOutcome};
use crate::registry::{reconciled, recorded};
use crate::status::{MountStatus, ProbeHandle};
use crate::summary::{dead_count, dead_paths};

verus! {

/// The status reached from `status` through `observations`, oldest first.
pub open spec fn status_after(status: MountStatus, observations: Seq<Observation>) -> MountStatus
    decreases observations.len(),
{
    if observations.len() == 0 {
        status
    } else {
        next_status(status_after(status, observations.drop_last()), observations.last())
    }
}

/// Whether each observation answers the action that the status reached
/// before it calls for.
pub open spec fn follows_protocol(status: MountStatus, observations: Seq<Observation>) -> bool
    decreases observations.len(),
{
    observations.len() == 0 || (follows_protocol(status, observations.drop_last()) && answers(
        action_for(status_after(status, observations.drop_last())),
        observations.last(),
    ))
}

/// The probes started and not reaped, after `action` was performed and
/// `observation` came back: a launched probe that hit its deadline is one
/// more, a polled probe found to have exited is one less.
pub open spec fn live_step(
    live: Set<ProbeHandle>,
    action: Action,
    observation: Observation,
) -> Set<ProbeHandle> {
    match (action, observation) {
        (
            Action::Launch,
            Observation::Probe(Ok(ProbeOutcome::StillRunning { handle, .. })),
        ) => live.insert(handle),
        (Action::Poll(handle), Observation::Poll(Ok(Some(_)))) => live.remove(handle),
        _ => live,
    }
}

/// The probes started and not reaped after a run that began at `status`
/// with the probes `live` outstanding.
pub open spec fn live_after(
    status: MountStatus,
    live: Set<ProbeHandle>,
    observations: Seq<Observation>,
) -> Set<ProbeHandle>
    decreases observations.len(),
{
    if observations.len() == 0 {
        live
    } else {
        live_step(
            live_after(status, live, observations.drop_last()),
            action_for(status_after(status, observations.drop_last())),
            observations.last(),
        )
    }
}

/// At most one probe is ever outstanding for a mountpoint.
///
/// Take a mountpoint that stays in the registry, and a run that starts with
/// no probe outstanding but the one its status keeps track of. As long as
/// the caller performs the action called for, the probes started and not
/// reaped remain exactly the one that the status keeps track of, if any; and
/// a fresh probe is called for only when none is outstanding.
pub proof fn lemma_single_outstanding_probe(
    status: MountStatus,
    observations: Seq<Observation>,
)
    requires
        follows_protocol(status, observations),
    ensures
        live_after(status, status.outstanding(), observations) == status_after(
            status,
            observations,
        ).outstanding(),
        live_after(status, status.outstanding(), observations).finite(),
        live_after(status, status.outstanding(), observations).len() <= 1,
        action_for(status_after(status, observations)) is Launch <==> live_after(
            status,
            status.outstanding(),
            observations,
        ).is_empty(),
    decreases observations.len(),
{
    let reached = status_after(status, observations);
    if observations.len() > 0 {
        let earlier = observations.drop_last();
        lemma_single_outstanding_probe(status, earlier);
        let before = status_after(status, earlier);
        let live = live_after(status, status.outstanding(), earlier);
        assert(live_step(live, action_for(before), observations.last()) =~= reached.outstanding());
    }
    crate::status::lemma_outstanding_at_most_one(reached);
    match reached {
        MountStatus::CheckRunning { handle, .. } => {
            assert(reached.outstanding().contains(handle));
        },
        _ => {},
    }
}

/// A stalled probe stays the one outstanding probe until it is reaped: as
/// long as no observation is a poll that saw the probe exit, the status does
/// not change and no fresh probe is called for.
pub proof fn lemma_running_until_reaped(status: MountStatus, observations: Seq<Observation>)
    requires
        status is CheckRunning,
        forall|i: int|
            0 <= i < observations.len() ==> !((#[trigger] observations[i]) matches Observation::Poll(
                Ok(Some(_)),
            )),
    ensures
        status_after(status, observations) == status,
        action_for(status_after(status, observations)) is Poll,
    decreases observations.len(),
{
    if observations.len() > 0 {
        lemma_running_until_reaped(status, observations.drop_last());
    }
}

/// A stalled probe is reaped by the first poll that sees it exit: the status
/// then is that of the exit, and no longer `CheckRunning`.
pub proof fn lemma_reaped_on_first_exit(
    status: MountStatus,
    pending: Seq<Observation>,
    exit: ProbeExit,
)
    requires
        status is CheckRunning,
        forall|i: int|
            0 <= i < pending.len() ==> !((#[trigger] pending[i]) matches Observation::Poll(
                Ok(Some(_)),
            )),
    ensures
        status_after(status, pending.push(Observation::Poll(Ok(Some(exit)))))
            == exit.spec_status(),
        !(status_after(status, pending.push(Observation::Poll(Ok(Some(exit))))) is CheckRunning),
{
    lemma_running_until_reaped(status, pending);
    let all = pending.push(Observation::Poll(Ok(Some(exit))));
    assert(all.drop_last() =~= pending);
}

/// Recording an observation for one path leaves every other path as it was,
/// and tracks the same paths as before.
pub proof fn lemma_record_touches_one_path(
    statuses: Map<Seq<char>, MountStatus>,
    path: Seq<char>,
    observation: Observation,
    other: Seq<char>,
)
    requires
        other != path,
    ensures
        recorded(statuses, path, observation).dom() == statuses.dom(),
        recorded(statuses, path, observation)[other] == statuses[other],
        statuses.dom().contains(path) ==> recorded(statuses, path, observation)[path]
            == next_status(statuses[path], observation),
{
    assert(recorded(statuses, path, observation).dom() =~= statuses.dom());
}

/// The checks of two mountpoints do not depend on each other: their
/// observations may be recorded in either order.
pub proof fn lemma_records_commute(
    statuses: Map<Seq<char>, MountStatus>,
    first: Seq<char>,
    seen_first: Observation,
    second: Seq<char>,
    seen_second: Observation,
)
    requires
        first != second,
    ensures
        recorded(recorded(statuses, first, seen_first), second, seen_second) == recorded(
            recorded(statuses, second, seen_second),
            first,
            seen_first,
        ),
{
    assert(recorded(recorded(statuses, first, seen_first), second, seen_second) =~= recorded(
        recorded(statuses, second, seen_second),
        first,
        seen_first,
    ));
}

/// Reconciliation tracks exactly the mounted paths, keeps what was known of
/// them, and takes a new path to be alive.
pub proof fn lemma_reconciled_entries(
    known: Map<Seq<char>, MountStatus>,
    mounted: Set<Seq<char>>,
    path: Seq<char>,
)
    ensures
        reconciled(known, mounted).dom().contains(path) <==> mounted.contains(path),
        mounted.contains(path) && known.dom().contains(path) ==> reconciled(known, mounted)[path]
            == known[path],
        mounted.contains(path) && !known.dom().contains(path) ==> reconciled(
            known,
            mounted,
        )[path] == MountStatus::Alive,
{
}

/// Reconciling twice with the same mounted paths changes nothing more.
pub proof fn lemma_reconcile_idempotent(known: Map<Seq<char>, MountStatus>, mounted: Set<Seq<char>>)
    ensures
        reconciled(reconciled(known, mounted), mounted) == reconciled(known, mounted),
{
    assert(reconciled(reconciled(known, mounted), mounted) =~= reconciled(known, mounted));
}

/// Reconciliation never turns a mountpoint dead: the paths that count as
/// dead afterwards did so before. In particular nothing is dead in a
/// registry that has only just learnt of its mountpoints.
pub proof fn lemma_reconcile_adds_no_dead(known: Map<Seq<char>, MountStatus>, mounted: Set<Seq<char>>)
    ensures
        dead_paths(reconciled(known, mounted)).subset_of(dead_paths(known)),
        dead_count(reconciled(Map::empty(), mounted)) == 0,
{
    assert(dead_paths(reconciled(Map::empty(), mounted)) =~= Set::<Seq<char>>::empty());
}

} // verus!
