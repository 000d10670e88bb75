//! The registry of known mountpoints.

use vstd::prelude::*;
use crate::entries::{
    distinct_paths, entries_map, has_path, lemma_distinct_prefix, lemma_entries_map_index,
    lemma_entries_map_len, lemma_entries_map_push, lemma_entries_map_update, MountEntry,
};
use crate::machine::{action_for, next_notice, next_status, Action, Notice, Observation};
use crate::status::{MountStatus, ProbeHandle};
use crate::summary::{dead_count, lemma_dead_count_insert, CycleSummary};

verus! {

/// The mapping from mountpoint path to status, kept from cycle to cycle.
#[derive(Debug)]
pub struct MountRegistry {
    entries: Vec<MountEntry>,
}

impl View for MountRegistry {
    type V = Map<Seq<char>, MountStatus>;

    closed spec fn view(&self) -> Map<Seq<char>, MountStatus> {
        entries_map(self.entries@)
    }
}

/// The set of paths that a list of path strings names.
pub open spec fn path_set(paths: Seq<String>) -> Set<Seq<char>> {
    Set::new(|path: Seq<char>| exists|i: int| 0 <= i < paths.len() && (#[trigger] paths[i])@ == path)
}

/// The registry after reconciliation with the mounted paths: exactly the
/// mounted paths are known; a path known before keeps its status, a new
/// one starts as `Alive`.
pub open spec fn reconciled(
    known: Map<Seq<char>, MountStatus>,
    mounted: Set<Seq<char>>,
) -> Map<Seq<char>, MountStatus> {
    Map::new(
        |path: Seq<char>| mounted.contains(path),
        |path: Seq<char>| if known.dom().contains(path) {
            known[path]
        } else {
            MountStatus::Alive
        },
    )
}

/// The handles of the probes still outstanding on known paths that are no
/// longer mounted.
pub open spec fn abandoned_handles(
    known: Map<Seq<char>, MountStatus>,
    mounted: Set<Seq<char>>,
) -> Set<ProbeHandle> {
    Set::new(
        |handle: ProbeHandle|
            exists|path: Seq<char>|
                #![trigger known.dom().contains(path)]
                known.dom().contains(path) && !mounted.contains(path)
                    && known[path].outstanding().contains(handle),
    )
}

/// What is to be done for one mountpoint in the coming cycle.
#[derive(Clone, Debug, PartialEq, Eq)]
pub struct ProbeTask {
    pub path: String,
    pub action: Action,
}

/// Whether some task is for this path.
pub open spec fn has_task(tasks: Seq<ProbeTask>, path: Seq<char>) -> bool {
    exists|i: int| 0 <= i < tasks.len() && (#[trigger] tasks[i]).path@ == path
}

/// Whether `tasks` is the work that `statuses` calls for: one task for each
/// path, none for any other, each with the action for that path's status.
pub open spec fn is_plan_for(tasks: Seq<ProbeTask>, statuses: Map<Seq<char>, MountStatus>) -> bool {
    &&& forall|i: int|
        0 <= i < tasks.len() ==> statuses.dom().contains((#[trigger] tasks[i]).path@)
            && tasks[i].action == action_for(statuses[tasks[i].path@])
    &&& forall|i: int, j: int|
        0 <= i < j < tasks.len() ==> (#[trigger] tasks[i]).path@ != (#[trigger] tasks[j]).path@
    &&& forall|path: Seq<char>| statuses.dom().contains(path) ==> has_task(tasks, path)
}

/// The registry after an observation for `path`: the status of a tracked
/// path moves on, everything else stays.
pub open spec fn recorded(
    statuses: Map<Seq<char>, MountStatus>,
    path: Seq<char>,
    observation: Observation,
) -> Map<Seq<char>, MountStatus> {
    if statuses.dom().contains(path) {
        statuses.insert(path, next_status(statuses[path], observation))
    } else {
        statuses
    }
}

/// The registry part-way through reconciliation: the known paths that are
/// still mounted, and of the mounted paths those in `entered`.
spec fn grown(
    known: Map<Seq<char>, MountStatus>,
    mounted: Set<Seq<char>>,
    entered: Set<Seq<char>>,
) -> Map<Seq<char>, MountStatus> {
    Map::new(
        |path: Seq<char>| mounted.contains(path) && (known.dom().contains(path) || entered.contains(path)),
        |path: Seq<char>| if known.dom().contains(path) {
            known[path]
        } else {
            MountStatus::Alive
        },
    )
}

/// Taking one more path of the list into account adds it to the path set.
proof fn lemma_path_set_step(paths: Seq<String>, n: int)
    requires
        0 <= n < paths.len(),
    ensures
        path_set(paths.take(n + 1)) == path_set(paths.take(n)).insert(paths[n]@),
        path_set(paths).contains(paths[n]@),
{
    let shorter = paths.take(n);
    let longer = paths.take(n + 1);
    assert forall|path: Seq<char>| path_set(longer).contains(path) <==> path_set(shorter).insert(
        paths[n]@,
    ).contains(path) by {
        if path_set(longer).contains(path) {
            let k = choose|k: int| 0 <= k < longer.len() && (#[trigger] longer[k])@ == path;
            if k < n {
                assert(shorter[k] == longer[k]);
            }
        }
        if path_set(shorter).contains(path) {
            let k = choose|k: int| 0 <= k < shorter.len() && (#[trigger] shorter[k])@ == path;
            assert(longer[k] == shorter[k]);
        }
        if path == paths[n]@ {
            assert(longer[n] == paths[n]);
        }
    }
    assert(path_set(longer) =~= path_set(shorter).insert(paths[n]@));
}

/// Appending to a sequence inserts into its set of items.
proof fn lemma_push_to_set(handles: Seq<ProbeHandle>, handle: ProbeHandle)
    ensures
        handles.push(handle).to_set() == handles.to_set().insert(handle),
{
    let pushed = handles.push(handle);
    assert forall|h: ProbeHandle| pushed.to_set().contains(h) <==> handles.to_set().insert(
        handle,
    ).contains(h) by {
        if pushed.contains(h) {
            let k = choose|k: int| 0 <= k < pushed.len() && pushed[k] == h;
            if k < handles.len() {
                assert(handles[k] == h);
            }
        }
        if handles.contains(h) {
            let k = choose|k: int| 0 <= k < handles.len() && handles[k] == h;
            assert(pushed[k] == h);
        }
        if h == handle {
            assert(pushed[handles.len() as int] == h);
        }
    }
    assert(pushed.to_set() =~= handles.to_set().insert(handle));
}

/// One more known path adds its outstanding probes to the abandoned handles
/// if it is not mounted, and nothing if it is.
proof fn lemma_abandoned_insert(
    known: Map<Seq<char>, MountStatus>,
    mounted: Set<Seq<char>>,
    path: Seq<char>,
    status: MountStatus,
)
    requires
        !known.dom().contains(path),
    ensures
        abandoned_handles(known.insert(path, status), mounted) == if mounted.contains(path) {
            abandoned_handles(known, mounted)
        } else {
            abandoned_handles(known, mounted) + status.outstanding()
        },
{
    let more = known.insert(path, status);
    let lhs = abandoned_handles(more, mounted);
    let rhs = if mounted.contains(path) {
        abandoned_handles(known, mounted)
    } else {
        abandoned_handles(known, mounted) + status.outstanding()
    };
    assert forall|h: ProbeHandle| lhs.contains(h) <==> rhs.contains(h) by {
        if lhs.contains(h) {
            let p = choose|p: Seq<char>|
                #![trigger more.dom().contains(p)]
                more.dom().contains(p) && !mounted.contains(p) && more[p].outstanding().contains(h);
            if p != path {
                assert(known.dom().contains(p));
            }
        }
        if abandoned_handles(known, mounted).contains(h) {
            let p = choose|p: Seq<char>|
                #![trigger known.dom().contains(p)]
                known.dom().contains(p) && !mounted.contains(p) && known[p].outstanding().contains(
                    h,
                );
            assert(more.dom().contains(p));
        }
        if !mounted.contains(path) && status.outstanding().contains(h) {
            assert(more.dom().contains(path));
        }
    }
    assert(lhs =~= rhs);
}

/// Whether `path` is among `paths`.
fn contains_path(paths: &Vec<String>, path: &String) -> (found: bool)
    ensures
        found == path_set(paths@).contains(path@),
{
    let mut i: usize = 0;
    while i < paths.len()
        invariant
            i <= paths.len(),
            forall|k: int| 0 <= k < i ==> (#[trigger] paths[k])@ != path@,
        decreases paths.len() - i,
    {
        if paths[i] == *path {
            return true;
        }
        i += 1;
    }
    false
}

/// The position of the entry with this path, if there is one.
fn find_entry(entries: &Vec<MountEntry>, path: &String) -> (found: Option<usize>)
    ensures
        match found {
            Some(i) => i < entries.len() && entries[i as int].path@ == path@,
            None => !has_path(entries@, path@),
        },
{
    let mut i: usize = 0;
    while i < entries.len()
        invariant
            i <= entries.len(),
            forall|k: int| 0 <= k < i ==> (#[trigger] entries[k]).path@ != path@,
        decreases entries.len() - i,
    {
        if entries[i].path == *path {
            return Some(i);
        }
        i += 1;
    }
    None
}

impl MountRegistry {
    #[verifier::type_invariant]
    spec fn paths_are_distinct(&self) -> bool {
        distinct_paths(self.entries@)
    }

    /// A registry that tracks nothing.
    pub fn new() -> (registry: MountRegistry)
        ensures
            registry@ == Map::<Seq<char>, MountStatus>::empty(),
    {
        let registry = MountRegistry { entries: Vec::new() };
        assert(registry@ =~= Map::<Seq<char>, MountStatus>::empty());
        registry
    }

    /// The number of known mountpoints.
    pub fn len(&self) -> (n: usize)
        ensures
            self@.dom().finite(),
            n == self@.dom().len(),
    {
        proof {
            use_type_invariant(self);
            lemma_entries_map_len(self.entries@);
        }
        self.entries.len()
    }

    /// The status recorded for `path`; `None` if the path is not known.
    pub fn status(&self, path: &String) -> (status: Option<MountStatus>)
        ensures
            status == if self@.dom().contains(path@) {
                Some(self@[path@])
            } else {
                None
            },
    {
        proof {
            use_type_invariant(self);
        }
        match find_entry(&self.entries, path) {
            Some(i) => {
                proof {
                    lemma_entries_map_index(self.entries@, i as int);
                }
                Some(self.entries[i].status)
            },
            None => None,
        }
    }

    /// Brings the registry in line with the paths that are mounted now.
    ///
    /// Entries whose path is no longer mounted are removed, one with a probe
    /// still outstanding among them: that probe is abandoned, not reaped, and
    /// its handle is returned so that the caller can let go of it. Mounted
    /// paths that were not known are entered as `Alive`. All other entries
    /// keep their status.
    pub fn reconcile(&mut self, mounted: &Vec<String>) -> (abandoned: Vec<ProbeHandle>)
        ensures
            final(self)@ == reconciled(old(self)@, path_set(mounted@)),
            abandoned@.to_set() == abandoned_handles(old(self)@, path_set(mounted@)),
    {
        proof {
            use_type_invariant(&*self);
        }
        let ghost before = self.entries@;
        let ghost wanted = path_set(mounted@);
        let mut kept: Vec<MountEntry> = Vec::new();
        let mut abandoned: Vec<ProbeHandle> = Vec::new();
        let mut i: usize = 0;
        proof {
            assert(entries_map(kept@) =~= entries_map(before.take(0)).restrict(wanted));
            assert(abandoned@.to_set() =~= abandoned_handles(entries_map(before.take(0)), wanted));
        }
        while i < self.entries.len()
            invariant
                i <= self.entries.len(),
                self.entries@ == before,
                wanted == path_set(mounted@),
                distinct_paths(before),
                distinct_paths(kept@),
                entries_map(kept@) == entries_map(before.take(i as int)).restrict(wanted),
                abandoned@.to_set() == abandoned_handles(
                    entries_map(before.take(i as int)),
                    wanted,
                ),
            decreases self.entries.len() - i,
        {
            let ghost seen = entries_map(before.take(i as int));
            let ghost entry = before[i as int];
            proof {
                lemma_distinct_prefix(before, i as int);
                lemma_entries_map_push(before.take(i as int), entry);
                assert(!seen.dom().contains(entry.path@));
            }
            if contains_path(mounted, &self.entries[i].path) {
                let copy = MountEntry {
                    path: self.entries[i].path.clone(),
                    status: self.entries[i].status,
                };
                proof {
                    assert(!entries_map(kept@).dom().contains(copy.path@));
                    lemma_entries_map_push(kept@, copy);
                    assert(seen.insert(entry.path@, entry.status).restrict(wanted)
                        =~= seen.restrict(wanted).insert(entry.path@, entry.status));
                    assert(abandoned_handles(seen.insert(entry.path@, entry.status), wanted)
                        =~= abandoned_handles(seen, wanted)) by {
                        lemma_abandoned_insert(seen, wanted, entry.path@, entry.status);
                    }
                }
                kept.push(copy);
            } else {
                proof {
                    assert(seen.insert(entry.path@, entry.status).restrict(wanted)
                        =~= seen.restrict(wanted));
                    lemma_abandoned_insert(seen, wanted, entry.path@, entry.status);
                }
                match self.entries[i].status.handle() {
                    Some(handle) => {
                        proof {
                            assert(abandoned@.push(handle).to_set() =~= abandoned@.to_set().insert(
                                handle,
                            )) by {
                                lemma_push_to_set(abandoned@, handle);
                            }
                            assert(entry.status.outstanding() =~= set![handle]);
                        }
                        abandoned.push(handle);
                    },
                    None => {
                        proof {
                            assert(entry.status.outstanding() =~= Set::<ProbeHandle>::empty());
                        }
                    },
                }
            }
            i += 1;
        }
        proof {
            assert(before.take(i as int) =~= before);
        }
        let ghost survivors = entries_map(kept@);
        let mut j: usize = 0;
        proof {
            assert(survivors =~= grown(entries_map(before), wanted, path_set(mounted@.take(0))));
        }
        while j < mounted.len()
            invariant
                j <= mounted.len(),
                wanted == path_set(mounted@),
                distinct_paths(kept@),
                entries_map(kept@) == grown(
                    entries_map(before),
                    wanted,
                    path_set(mounted@.take(j as int)),
                ),
            decreases mounted.len() - j,
        {
            let ghost done = path_set(mounted@.take(j as int));
            proof {
                lemma_path_set_step(mounted@, j as int);
            }
            match find_entry(&kept, &mounted[j]) {
                Some(_) => {
                    proof {
                        assert(grown(entries_map(before), wanted, done.insert(mounted@[j as int]@))
                            =~= grown(entries_map(before), wanted, done));
                    }
                },
                None => {
                    let fresh = MountEntry { path: mounted[j].clone(), status: MountStatus::Alive };
                    proof {
                        lemma_entries_map_push(kept@, fresh);
                        assert(wanted.contains(fresh.path@));
                        assert(!entries_map(kept@).dom().contains(fresh.path@));
                        assert(!entries_map(before).dom().contains(fresh.path@));
                        assert(grown(entries_map(before), wanted, done.insert(fresh.path@))
                            =~= grown(entries_map(before), wanted, done).insert(
                            fresh.path@,
                            MountStatus::Alive,
                        ));
                    }
                    kept.push(fresh);
                },
            }
            j += 1;
        }
        proof {
            assert(mounted@.take(j as int) =~= mounted@);
            assert(grown(entries_map(before), wanted, wanted) =~= reconciled(
                entries_map(before),
                wanted,
            ));
        }
        self.entries = kept;
        abandoned
    }

    /// The work of the coming cycle: one task for every tracked mountpoint,
    /// with the action that its status calls for. A mountpoint whose probe is
    /// still outstanding is polled; no fresh probe is planned for it.
    pub fn plan(&self) -> (tasks: Vec<ProbeTask>)
        ensures
            is_plan_for(tasks@, self@),
            self@.dom().finite(),
            tasks@.len() == self@.dom().len(),
    {
        proof {
            use_type_invariant(self);
            lemma_entries_map_len(self.entries@);
        }
        let mut tasks: Vec<ProbeTask> = Vec::new();
        let mut i: usize = 0;
        while i < self.entries.len()
            invariant
                i <= self.entries.len(),
                distinct_paths(self.entries@),
                tasks@.len() == i,
                forall|k: int|
                    0 <= k < i ==> (#[trigger] tasks@[k]).path@ == self.entries@[k].path@
                        && tasks@[k].action == action_for(self.entries@[k].status),
            decreases self.entries.len() - i,
        {
            let task = ProbeTask {
                path: self.entries[i].path.clone(),
                action: self.entries[i].status.action(),
            };
            tasks.push(task);
            i += 1;
        }
        proof {
            let entries = self.entries@;
            assert forall|k: int| 0 <= k < tasks@.len() implies self@.dom().contains(
                (#[trigger] tasks@[k]).path@,
            ) && tasks@[k].action == action_for(self@[tasks@[k].path@]) by {
                lemma_entries_map_index(entries, k);
            }
            assert forall|a: int, b: int| 0 <= a < b < tasks@.len() implies (#[trigger] tasks@[a]).path@
                != (#[trigger] tasks@[b]).path@ by {
                assert(entries[a].path@ != entries[b].path@);
            }
            assert forall|path: Seq<char>| self@.dom().contains(path) implies has_task(
                tasks@,
                path,
            ) by {
                let k = crate::entries::index_of(entries, path);
                assert(tasks@[k].path@ == path);
            }
        }
        tasks
    }

    /// Records what was observed for `path` at `now`.
    ///
    /// The status of a tracked path moves on as `MountStatus::advance` says,
    /// and the notice to log is returned. No other entry changes. For a path
    /// that is not tracked, and for an observation that does not answer the
    /// action the status calls for, nothing changes and there is no notice.
    pub fn record(&mut self, path: &String, observation: Observation, now: u64) -> (notice: Option<
        Notice,
    >)
        ensures
            final(self)@ == recorded(old(self)@, path@, observation),
            notice == if old(self)@.dom().contains(path@) {
                next_notice(old(self)@[path@], observation, now)
            } else {
                None
            },
            final(self)@.dom() == old(self)@.dom(),
    {
        proof {
            use_type_invariant(&*self);
        }
        match find_entry(&self.entries, path) {
            Some(i) => {
                let ghost before = self.entries@;
                proof {
                    lemma_entries_map_index(before, i as int);
                }
                let (status, notice) = self.entries[i].status.advance(observation, now);
                proof {
                    let entry = MountEntry { path: before[i as int].path, status };
                    lemma_entries_map_update(before, i as int, entry);
                    assert(entries_map(before).insert(path@, status).dom() =~= entries_map(
                        before,
                    ).dom());
                }
                let mut entries: Vec<MountEntry> = Vec::new();
                std::mem::swap(&mut self.entries, &mut entries);
                entries[i].status = status;
                assert(entries@ =~= before.update(
                    i as int,
                    MountEntry { path: before[i as int].path, status },
                ));
                self.entries = entries;
                notice
            },
            None => None,
        }
    }

    /// The counts for the cycle summary: all known mountpoints, and those
    /// whose status is not `Alive`.
    pub fn summary(&self) -> (summary: CycleSummary)
        ensures
            self@.dom().finite(),
            summary.total == self@.dom().len(),
            summary.dead == dead_count(self@),
            summary.dead <= summary.total,
    {
        proof {
            use_type_invariant(self);
            lemma_entries_map_len(self.entries@);
            lemma_distinct_prefix(self.entries@, 0);
            lemma_entries_map_len(self.entries@.take(0));
            assert(crate::summary::dead_paths(entries_map(self.entries@.take(0)))
                =~= Set::<Seq<char>>::empty());
        }
        let mut dead: usize = 0;
        let mut i: usize = 0;
        while i < self.entries.len()
            invariant
                i <= self.entries.len(),
                distinct_paths(self.entries@),
                dead <= i,
                dead == dead_count(entries_map(self.entries@.take(i as int))),
            decreases self.entries.len() - i,
        {
            proof {
                let prefix = self.entries@.take(i as int);
                lemma_distinct_prefix(self.entries@, i as int);
                lemma_entries_map_len(prefix);
                lemma_entries_map_push(prefix, self.entries@[i as int]);
                lemma_dead_count_insert(
                    entries_map(prefix),
                    self.entries@[i as int].path@,
                    self.entries@[i as int].status,
                );
            }
            if !self.entries[i].status.success() {
                dead += 1;
            }
            i += 1;
        }
        assert(self.entries@.take(i as int) =~= self.entries@);
        CycleSummary { total: self.entries.len(), dead }
    }
}

} // verus!
