//! Tracked mountpoints as a sequence of entries, and the map they stand for.

use vstd::prelude::*;
use crate::status::MountStatus;

verus! {

/// One tracked mountpoint: its path and the status last recorded for it.
#[derive(Debug)]
pub struct MountEntry {
    pub path: String,
    pub status: MountStatus,
}

/// Whether some entry has this path.
pub open spec fn has_path(entries: Seq<MountEntry>, path: Seq<char>) -> bool {
    exists|i: int| 0 <= i < entries.len() && (#[trigger] entries[i]).path@ == path
}

/// No path occurs in two entries.
pub open spec fn distinct_paths(entries: Seq<MountEntry>) -> bool {
    forall|i: int, j: int|
        0 <= i < j < entries.len() ==> (#[trigger] entries[i]).path@ != (#[trigger] entries[j]).path@
}

/// The position of an entry with this path.
pub open spec fn index_of(entries: Seq<MountEntry>, path: Seq<char>) -> int {
    choose|i: int| 0 <= i < entries.len() && (#[trigger] entries[i]).path@ == path
}

/// The mapping from path to status that a sequence of entries stands for.
pub open spec fn entries_map(entries: Seq<MountEntry>) -> Map<Seq<char>, MountStatus> {
    Map::new(
        |path: Seq<char>| has_path(entries, path),
        |path: Seq<char>| entries[index_of(entries, path)].status,
    )
}

/// With distinct paths, each entry is what the map holds for its path.
pub proof fn lemma_entries_map_index(entries: Seq<MountEntry>, i: int)
    requires
        distinct_paths(entries),
        0 <= i < entries.len(),
    ensures
        entries_map(entries).dom().contains(entries[i].path@),
        entries_map(entries)[entries[i].path@] == entries[i].status,
        index_of(entries, entries[i].path@) == i,
{
    let path = entries[i].path@;
    assert(has_path(entries, path));
    let k = index_of(entries, path);
    assert(0 <= k < entries.len() && entries[k].path@ == path);
    if k < i {
        assert(entries[k].path@ != entries[i].path@);
    } else if i < k {
        assert(entries[i].path@ != entries[k].path@);
    }
}

/// Appending an entry with a new path inserts it into the map.
pub proof fn lemma_entries_map_push(entries: Seq<MountEntry>, entry: MountEntry)
    requires
        distinct_paths(entries),
        !has_path(entries, entry.path@),
    ensures
        distinct_paths(entries.push(entry)),
        entries_map(entries.push(entry)) == entries_map(entries).insert(entry.path@, entry.status),
{
    let pushed = entries.push(entry);
    assert forall|i: int, j: int| 0 <= i < j < pushed.len() implies (#[trigger] pushed[i]).path@
        != (#[trigger] pushed[j]).path@ by {
        if j < entries.len() {
            assert(entries[i].path@ != entries[j].path@);
        } else {
            assert(pushed[i] == entries[i]);
            assert(pushed[j] == entry);
            if entries[i].path@ == entry.path@ {
                assert(has_path(entries, entry.path@));
            }
        }
    }
    let lhs = entries_map(pushed);
    let rhs = entries_map(entries).insert(entry.path@, entry.status);
    assert forall|path: Seq<char>| lhs.dom().contains(path) <==> rhs.dom().contains(path) by {
        if has_path(pushed, path) {
            let k = index_of(pushed, path);
            if k < entries.len() {
                assert(entries[k] == pushed[k]);
                assert(has_path(entries, path));
            }
        }
        if has_path(entries, path) {
            let k = index_of(entries, path);
            assert(pushed[k] == entries[k]);
            assert(has_path(pushed, path));
        }
        if path == entry.path@ {
            assert(pushed[entries.len() as int] == entry);
            assert(has_path(pushed, path));
        }
    }
    assert forall|path: Seq<char>| lhs.dom().contains(path) implies lhs[path] == rhs[path] by {
        let k = index_of(pushed, path);
        lemma_entries_map_index(pushed, k);
        if k < entries.len() {
            assert(pushed[k] == entries[k]);
            lemma_entries_map_index(entries, k);
            assert(entries[k].path@ != entry.path@);
        } else {
            assert(pushed[k] == entry);
        }
    }
    assert(lhs =~= rhs);
}

/// Replacing the status of entry `i` updates the map at that entry's path.
pub proof fn lemma_entries_map_update(entries: Seq<MountEntry>, i: int, entry: MountEntry)
    requires
        distinct_paths(entries),
        0 <= i < entries.len(),
        entry.path@ == entries[i].path@,
    ensures
        distinct_paths(entries.update(i, entry)),
        entries_map(entries.update(i, entry)) == entries_map(entries).insert(
            entry.path@,
            entry.status,
        ),
{
    let updated = entries.update(i, entry);
    assert forall|a: int, b: int| 0 <= a < b < updated.len() implies (#[trigger] updated[a]).path@
        != (#[trigger] updated[b]).path@ by {
        assert(updated[a].path@ == entries[a].path@);
        assert(updated[b].path@ == entries[b].path@);
        assert(entries[a].path@ != entries[b].path@);
    }
    let lhs = entries_map(updated);
    let rhs = entries_map(entries).insert(entry.path@, entry.status);
    assert forall|path: Seq<char>| lhs.dom().contains(path) <==> rhs.dom().contains(path) by {
        if has_path(updated, path) {
            let k = index_of(updated, path);
            assert(updated[k].path@ == entries[k].path@);
            assert(has_path(entries, path));
        }
        if has_path(entries, path) {
            let k = index_of(entries, path);
            assert(updated[k].path@ == entries[k].path@);
            assert(has_path(updated, path));
        }
        if path == entry.path@ {
            assert(updated[i] == entry);
            assert(has_path(updated, path));
        }
    }
    assert forall|path: Seq<char>| lhs.dom().contains(path) implies lhs[path] == rhs[path] by {
        let k = index_of(updated, path);
        lemma_entries_map_index(updated, k);
        if k == i {
            assert(updated[k] == entry);
        } else {
            assert(updated[k] == entries[k]);
            lemma_entries_map_index(entries, k);
            if k < i {
                assert(entries[k].path@ != entries[i].path@);
            } else {
                assert(entries[i].path@ != entries[k].path@);
            }
        }
    }
    assert(lhs =~= rhs);
}

/// A prefix of entries with distinct paths has distinct paths, and the next
/// entry's path is not in it.
pub proof fn lemma_distinct_prefix(entries: Seq<MountEntry>, n: int)
    requires
        distinct_paths(entries),
        0 <= n <= entries.len(),
    ensures
        distinct_paths(entries.take(n)),
        n < entries.len() ==> !has_path(entries.take(n), entries[n].path@),
        n < entries.len() ==> entries.take(n + 1) == entries.take(n).push(entries[n]),
{
    let prefix = entries.take(n);
    assert forall|i: int, j: int| 0 <= i < j < prefix.len() implies (#[trigger] prefix[i]).path@
        != (#[trigger] prefix[j]).path@ by {
        assert(prefix[i] == entries[i]);
        assert(prefix[j] == entries[j]);
        assert(entries[i].path@ != entries[j].path@);
    }
    if n < entries.len() {
        if has_path(prefix, entries[n].path@) {
            let k = index_of(prefix, entries[n].path@);
            assert(prefix[k] == entries[k]);
            assert(entries[k].path@ != entries[n].path@);
        }
        assert(entries.take(n + 1) =~= prefix.push(entries[n]));
    }
}

/// With distinct paths the map has as many keys as there are entries.
pub proof fn lemma_entries_map_len(entries: Seq<MountEntry>)
    requires
        distinct_paths(entries),
    ensures
        entries_map(entries).dom().finite(),
        entries_map(entries).dom().len() == entries.len(),
    decreases entries.len(),
{
    if entries.len() == 0 {
        assert(entries_map(entries).dom() =~= Set::<Seq<char>>::empty());
    } else {
        let n = entries.len() - 1;
        let prefix = entries.take(n);
        lemma_distinct_prefix(entries, n);
        lemma_entries_map_len(prefix);
        lemma_entries_map_push(prefix, entries[n]);
        assert(entries.take(n + 1) =~= entries);
        assert(entries_map(entries).dom() =~= entries_map(prefix).dom().insert(entries[n].path@));
        assert(!entries_map(prefix).dom().contains(entries[n].path@));
    }
}

} // verus!
