//! The counts reported at the end of a cycle.

use vstd::prelude::*;
use crate::status::MountStatus;

verus! {

/// How many mountpoints are tracked, and how many of them are not alive.
#[derive(Clone, Copy, Debug, PartialEq, Eq, Structural)]
pub struct CycleSummary {
    pub total: usize,
    pub dead: usize,
}

/// The paths whose status is `Alive`.
pub open spec fn alive_paths(statuses: Map<Seq<char>, MountStatus>) -> Set<Seq<char>> {
    statuses.dom().filter(|path: Seq<char>| statuses[path].is_success())
}

/// The paths whose status is anything but `Alive`; a running check is among
/// them.
pub open spec fn dead_paths(statuses: Map<Seq<char>, MountStatus>) -> Set<Seq<char>> {
    statuses.dom().filter(|path: Seq<char>| !statuses[path].is_success())
}

/// The number of mountpoints that are alive.
pub open spec fn alive_count(statuses: Map<Seq<char>, MountStatus>) -> nat {
    alive_paths(statuses).len()
}

/// The number of mountpoints that are not alive.
pub open spec fn dead_count(statuses: Map<Seq<char>, MountStatus>) -> nat {
    dead_paths(statuses).len()
}

/// 1 for a status that counts as dead, 0 for `Alive`.
pub open spec fn dead_weight(status: MountStatus) -> nat {
    if status.is_success() {
        0
    } else {
        1
    }
}

/// Tracking one more mountpoint raises the dead count by that mountpoint's
/// weight.
pub proof fn lemma_dead_count_insert(
    statuses: Map<Seq<char>, MountStatus>,
    path: Seq<char>,
    status: MountStatus,
)
    requires
        statuses.dom().finite(),
        !statuses.dom().contains(path),
    ensures
        dead_paths(statuses).finite(),
        dead_count(statuses.insert(path, status)) == dead_count(statuses) + dead_weight(status),
{
    let before = dead_paths(statuses);
    let after = dead_paths(statuses.insert(path, status));
    statuses.dom().lemma_len_filter(|p: Seq<char>| !statuses[p].is_success());
    if status.is_success() {
        assert(after =~= before);
    } else {
        assert(after =~= before.insert(path));
        assert(!before.contains(path));
    }
}

/// Every tracked mountpoint is either alive or dead, never both: the dead
/// count is the total less the alive count.
pub proof fn lemma_dead_is_total_less_alive(statuses: Map<Seq<char>, MountStatus>)
    requires
        statuses.dom().finite(),
    ensures
        alive_count(statuses) <= statuses.dom().len(),
        dead_count(statuses) == statuses.dom().len() - alive_count(statuses),
{
    let alive = alive_paths(statuses);
    let dead = dead_paths(statuses);
    statuses.dom().lemma_len_filter(|p: Seq<char>| statuses[p].is_success());
    statuses.dom().lemma_len_filter(|p: Seq<char>| !statuses[p].is_success());
    assert(alive.disjoint(dead));
    assert(alive + dead =~= statuses.dom());
    vstd::set_lib::lemma_set_disjoint_lens(alive, dead);
}

} // verus!
