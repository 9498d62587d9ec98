//! The registry: one status for each known mountpoint.
//!
//! The registry is a finite map from mount paths to statuses. It is kept as a
//! list of paths in which no path occurs twice, with a status for each, so a
//! mountpoint never has more than one status, and therefore never more than
//! one running check.
//!
//! A mount path is the sequence of bytes that the operating system gives for
//! it, and two paths are the same mountpoint exactly when their bytes are the
//! same.
//!
//! A cycle uses it in three steps: [`Registry::reconcile`] follows the
//! current list of mounts, [`Registry::entries`] hands out the entries to be
//! advanced one by one, each on its own, and [`Registry::record`] takes the
//! new statuses back in. [`Registry::summary`] then counts.

use vstd::prelude::*;
use crate::status::MountStatus;

verus! {

/// One mountpoint together with its status.
#[derive(Clone, Debug)]
pub struct MountEntry {
    /// Path at which the filesystem is mounted, as the bytes that the
    /// operating system gives. Two paths are the same mountpoint exactly when
    /// their bytes are the same.
    pub mount_point: Vec<u8>,
    /// Latest known status of that mount.
    pub status: MountStatus,
}

/// The counts that a cycle reports.
#[derive(Clone, Copy, Debug, PartialEq, Eq, Structural)]
pub struct TickSummary {
    /// Number of known mountpoints.
    pub total_mounts: usize,
    /// Number of known mountpoints whose status is not `Alive`.
    pub dead_mounts: usize,
}

/// No path occurs twice in `entries`.
pub open spec fn distinct_paths(entries: Seq<MountEntry>) -> bool {
    forall|i: int, j: int|
        0 <= i < j < entries.len() ==> (#[trigger] entries[i]).mount_point@ != (
        #[trigger] entries[j]).mount_point@
}

/// Some entry of `entries` is for `path`.
pub open spec fn has_path(entries: Seq<MountEntry>, path: Seq<u8>) -> bool {
    exists|i: int| 0 <= i < entries.len() && (#[trigger] entries[i]).mount_point@ == path
}

/// Position of an entry for `path`, where there is one.
pub open spec fn position_of(entries: Seq<MountEntry>, path: Seq<u8>) -> int {
    choose|i: int| 0 <= i < entries.len() && (#[trigger] entries[i]).mount_point@ == path
}

/// The map that a list of entries stands for.
pub open spec fn entries_map(entries: Seq<MountEntry>) -> Map<Seq<u8>, MountStatus> {
    Map::new(
        |path: Seq<u8>| has_path(entries, path),
        |path: Seq<u8>| entries[position_of(entries, path)].status,
    )
}

/// The paths that a list of mount paths names.
pub open spec fn path_set(mount_points: Seq<Vec<u8>>) -> Set<Seq<u8>> {
    Set::new(
        |path: Seq<u8>|
            exists|i: int| 0 <= i < mount_points.len() && (#[trigger] mount_points[i])@ == path,
    )
}

/// The paths of `statuses` whose status is not `Alive`.
pub open spec fn dead_paths(statuses: Map<Seq<u8>, MountStatus>) -> Set<Seq<u8>> {
    statuses.dom().filter(|path: Seq<u8>| statuses[path] != MountStatus::Alive)
}

/// What reconciliation makes of `statuses` for the mount list `current`:
/// exactly the paths of `current`, each with the status it had, or `Alive`
/// where it had none.
pub open spec fn reconciled(
    statuses: Map<Seq<u8>, MountStatus>,
    current: Set<Seq<u8>>,
) -> Map<Seq<u8>, MountStatus> {
    Map::new(
        |path: Seq<u8>| current.contains(path),
        |path: Seq<u8>|
            if statuses.contains_key(path) {
                statuses[path]
            } else {
                MountStatus::Alive
            },
    )
}

/// The processes that reconciliation gives up: those of running checks on
/// paths that `current` no longer names.
pub open spec fn abandoned_handles(
    statuses: Map<Seq<u8>, MountStatus>,
    current: Set<Seq<u8>>,
) -> Set<u32> {
    Set::new(
        |process: u32|
            exists|path: Seq<u8>|
                statuses.contains_key(path) && !current.contains(path) && (
                #[trigger] statuses[path]).handle() == Some(process),
    )
}

/// Among the entries of a list without repeated paths there is one at most
/// for any path. A list that the registry hands out therefore holds at most
/// one running check, and one process, for a mountpoint.
pub proof fn lemma_one_entry_per_mount(entries: Seq<MountEntry>, i: int, j: int)
    requires
        distinct_paths(entries),
        0 <= i < entries.len(),
        0 <= j < entries.len(),
        entries[i].mount_point@ == entries[j].mount_point@,
    ensures
        i == j,
{
}

/// In a list without repeated paths, the map gives each entry's own status.
pub proof fn lemma_entry_in_map(entries: Seq<MountEntry>, i: int)
    requires
        distinct_paths(entries),
        0 <= i < entries.len(),
    ensures
        entries_map(entries).contains_key(entries[i].mount_point@),
        entries_map(entries)[entries[i].mount_point@] == entries[i].status,
{
    let path = entries[i].mount_point@;
    assert(has_path(entries, path));
    let j = position_of(entries, path);
    assert(0 <= j < entries.len() && entries[j].mount_point@ == path);
    assert(j == i);
}

/// Adding an entry for a new path inserts it into the map.
pub proof fn lemma_push_entry(entries: Seq<MountEntry>, entry: MountEntry)
    requires
        distinct_paths(entries),
        !has_path(entries, entry.mount_point@),
    ensures
        distinct_paths(entries.push(entry)),
        entries_map(entries.push(entry)) == entries_map(entries).insert(
            entry.mount_point@,
            entry.status,
        ),
{
    let longer = entries.push(entry);
    assert forall|i: int, j: int| 0 <= i < j < longer.len() implies (#[trigger] longer[i]).mount_point@
        != (#[trigger] longer[j]).mount_point@ by {
        if j == entries.len() {
            assert(longer[i] == entries[i]);
        } else {
            assert(longer[i] == entries[i]);
            assert(longer[j] == entries[j]);
        }
    }
    let left = entries_map(longer);
    let right = entries_map(entries).insert(entry.mount_point@, entry.status);
    assert forall|path: Seq<u8>| left.contains_key(path) <==> right.contains_key(path) by {
        if has_path(longer, path) {
            let i = position_of(longer, path);
            if i < entries.len() {
                assert(entries[i] == longer[i]);
            }
        }
        if has_path(entries, path) {
            let i = position_of(entries, path);
            assert(longer[i] == entries[i]);
        }
        if path == entry.mount_point@ {
            assert(longer[entries.len() as int] == entry);
        }
    }
    assert forall|path: Seq<u8>| left.contains_key(path) implies left[path] == right[path] by {
        let i = position_of(longer, path);
        lemma_entry_in_map(longer, i);
        if i < entries.len() {
            assert(entries[i] == longer[i]);
            lemma_entry_in_map(entries, i);
        }
    }
    assert(left =~= right);
}

/// The first `i + 1` entries are the first `i` and one entry for a new path.
proof fn lemma_take_next(entries: Seq<MountEntry>, i: int)
    requires
        distinct_paths(entries),
        0 <= i < entries.len(),
    ensures
        distinct_paths(entries.take(i)),
        !has_path(entries.take(i), entries[i].mount_point@),
        entries.take(i + 1) == entries.take(i).push(entries[i]),
{
    let head = entries.take(i);
    assert forall|a: int, b: int| 0 <= a < b < head.len() implies (#[trigger] head[a]).mount_point@
        != (#[trigger] head[b]).mount_point@ by {
        assert(head[a] == entries[a]);
        assert(head[b] == entries[b]);
    }
    if has_path(head, entries[i].mount_point@) {
        let k = position_of(head, entries[i].mount_point@);
        assert(head[k] == entries[k]);
    }
    assert(entries.take(i + 1) =~= head.push(entries[i]));
}

/// A non-empty list is its front with its last entry added, whose path the
/// front does not have.
proof fn lemma_split_last(entries: Seq<MountEntry>)
    requires
        distinct_paths(entries),
        entries.len() > 0,
    ensures
        distinct_paths(entries.drop_last()),
        !has_path(entries.drop_last(), entries.last().mount_point@),
        entries_map(entries) == entries_map(entries.drop_last()).insert(
            entries.last().mount_point@,
            entries.last().status,
        ),
{
    lemma_take_next(entries, entries.len() - 1);
    assert(entries.take(entries.len() - 1) =~= entries.drop_last());
    assert(entries.take(entries.len() as int) =~= entries);
    lemma_push_entry(entries.drop_last(), entries.last());
}

/// A list without repeated paths stands for a finite map with one key for
/// each entry.
pub proof fn lemma_map_size(entries: Seq<MountEntry>)
    requires
        distinct_paths(entries),
    ensures
        entries_map(entries).dom().finite(),
        entries_map(entries).dom().len() == entries.len(),
    decreases entries.len(),
{
    if entries.len() == 0 {
        assert(entries_map(entries).dom() =~= Set::<Seq<u8>>::empty());
    } else {
        lemma_split_last(entries);
        lemma_map_size(entries.drop_last());
        assert(entries_map(entries).dom() =~= entries_map(entries.drop_last()).dom().insert(
            entries.last().mount_point@,
        ));
    }
}

/// Some of the first `k` paths of `mount_points` is `path`.
spec fn named_within(mount_points: Seq<Vec<u8>>, k: int, path: Seq<u8>) -> bool {
    exists|j: int| 0 <= j < k && (#[trigger] mount_points[j])@ == path
}

/// How the abandoned processes change when one more entry is taken into
/// account.
proof fn lemma_abandoned_next(
    seen: Map<Seq<u8>, MountStatus>,
    path: Seq<u8>,
    status: MountStatus,
    current: Set<Seq<u8>>,
)
    requires
        !seen.contains_key(path),
    ensures
        abandoned_handles(seen.insert(path, status), current) == (match status.handle() {
            Some(process) if !current.contains(path) => abandoned_handles(seen, current).insert(
                process,
            ),
            _ => abandoned_handles(seen, current),
        }),
{
    let next = seen.insert(path, status);
    let expected = match status.handle() {
        Some(process) if !current.contains(path) => abandoned_handles(seen, current).insert(
            process,
        ),
        _ => abandoned_handles(seen, current),
    };
    assert forall|process: u32|
        abandoned_handles(next, current).contains(process) == expected.contains(process) by {
        if abandoned_handles(seen, current).contains(process) {
            let p = choose|p: Seq<u8>|
                seen.contains_key(p) && !current.contains(p) && (#[trigger] seen[p]).handle()
                    == Some(process);
            assert(next.contains_key(p) && next[p].handle() == Some(process));
        }
        if abandoned_handles(next, current).contains(process) {
            let p = choose|p: Seq<u8>|
                next.contains_key(p) && !current.contains(p) && (#[trigger] next[p]).handle()
                    == Some(process);
            if p != path {
                assert(seen.contains_key(p) && seen[p].handle() == Some(process));
            }
        }
        if !current.contains(path) && status.handle() == Some(process) {
            assert(next.contains_key(path) && next[path].handle() == Some(process));
        }
    }
    assert(abandoned_handles(next, current) =~= expected);
}

/// Number of entries of `entries` whose status is not `Alive`.
spec fn dead_among(entries: Seq<MountEntry>) -> nat
    decreases entries.len(),
{
    if entries.len() == 0 {
        0
    } else {
        dead_among(entries.drop_last()) + if entries.last().status != MountStatus::Alive {
            1nat
        } else {
            0nat
        }
    }
}

/// Counting the entries that are not `Alive` gives the size of the set of
/// dead paths.
proof fn lemma_dead_count(entries: Seq<MountEntry>)
    requires
        distinct_paths(entries),
    ensures
        dead_paths(entries_map(entries)).finite(),
        dead_paths(entries_map(entries)).len() == dead_among(entries),
        dead_among(entries) <= entries.len(),
    decreases entries.len(),
{
    if entries.len() == 0 {
        assert(dead_paths(entries_map(entries)) =~= Set::<Seq<u8>>::empty());
    } else {
        let last = entries.last();
        lemma_split_last(entries);
        lemma_dead_count(entries.drop_last());
        let before = entries_map(entries.drop_last());
        let after = entries_map(entries);
        assert(!before.contains_key(last.mount_point@));
        if last.status != MountStatus::Alive {
            assert(dead_paths(after) =~= dead_paths(before).insert(last.mount_point@));
        } else {
            assert(dead_paths(after) =~= dead_paths(before));
        }
    }
}

/// Replacing the status of an entry updates the map at that entry's path.
proof fn lemma_update_entry(entries: Seq<MountEntry>, i: int, entry: MountEntry)
    requires
        distinct_paths(entries),
        0 <= i < entries.len(),
        entry.mount_point@ == entries[i].mount_point@,
    ensures
        distinct_paths(entries.update(i, entry)),
        entries_map(entries.update(i, entry)) == entries_map(entries).insert(
            entry.mount_point@,
            entry.status,
        ),
{
    let changed = entries.update(i, entry);
    assert forall|a: int, b: int| 0 <= a < b < changed.len() implies (
    #[trigger] changed[a]).mount_point@ != (#[trigger] changed[b]).mount_point@ by {
        assert(changed[a].mount_point@ == entries[a].mount_point@);
        assert(changed[b].mount_point@ == entries[b].mount_point@);
    }
    let left = entries_map(changed);
    let right = entries_map(entries).insert(entry.mount_point@, entry.status);
    assert forall|path: Seq<u8>| left.contains_key(path) <==> right.contains_key(path) by {
        if has_path(changed, path) {
            let k = position_of(changed, path);
            assert(entries[k].mount_point@ == path);
        }
        if has_path(entries, path) {
            let k = position_of(entries, path);
            assert(changed[k].mount_point@ == path);
        }
        if path == entry.mount_point@ {
            assert(changed[i].mount_point@ == path);
        }
    }
    assert forall|path: Seq<u8>| left.contains_key(path) implies left[path] == right[path] by {
        let k = position_of(changed, path);
        lemma_entry_in_map(changed, k);
        if k != i {
            assert(changed[k] == entries[k]);
            lemma_entry_in_map(entries, k);
        }
    }
    assert(left =~= right);
}

/// The entries that a list of paths and a list of statuses of the same
/// length stand for, position by position.
spec fn paired(paths: Seq<Vec<u8>>, statuses: Seq<MountStatus>) -> Seq<MountEntry> {
    Seq::new(
        paths.len(),
        |i: int| MountEntry { mount_point: paths[i], status: statuses[i] },
    )
}

/// No path occurs twice in `paths`.
spec fn distinct_names(paths: Seq<Vec<u8>>) -> bool {
    forall|i: int, j: int| 0 <= i < j < paths.len() ==> (#[trigger] paths[i])@ != (
    #[trigger] paths[j])@
}

/// Paths without repetition pair up to entries without repetition.
proof fn lemma_paired_distinct(paths: Seq<Vec<u8>>, statuses: Seq<MountStatus>)
    requires
        distinct_names(paths),
        paths.len() == statuses.len(),
    ensures
        distinct_paths(paired(paths, statuses)),
{
    let entries = paired(paths, statuses);
    assert forall|i: int, j: int| 0 <= i < j < entries.len() implies (
    #[trigger] entries[i]).mount_point@ != (#[trigger] entries[j]).mount_point@ by {
        assert(entries[i].mount_point == paths[i]);
        assert(entries[j].mount_point == paths[j]);
    }
}

/// Two lists that agree, position by position, in paths and statuses stand
/// for the same map.
proof fn lemma_same_entries(a: Seq<MountEntry>, b: Seq<MountEntry>)
    requires
        distinct_paths(a),
        a.len() == b.len(),
        forall|k: int|
            0 <= k < a.len() ==> (#[trigger] b[k]).mount_point@ == a[k].mount_point@ && b[k].status
                == a[k].status,
    ensures
        distinct_paths(b),
        entries_map(b) == entries_map(a),
{
    assert forall|i: int, j: int| 0 <= i < j < b.len() implies (#[trigger] b[i]).mount_point@ != (
    #[trigger] b[j]).mount_point@ by {
        assert(a[i].mount_point@ != a[j].mount_point@);
    }
    assert forall|path: Seq<u8>| has_path(a, path) <==> has_path(b, path) by {
        if has_path(a, path) {
            let k = position_of(a, path);
            assert(b[k].mount_point@ == path);
        }
        if has_path(b, path) {
            let k = position_of(b, path);
            assert(a[k].mount_point@ == path);
        }
    }
    assert forall|path: Seq<u8>| has_path(a, path) implies entries_map(a)[path] == entries_map(
        b,
    )[path] by {
        let k = position_of(a, path);
        assert(b[k].mount_point@ == path);
        lemma_entry_in_map(a, k);
        lemma_entry_in_map(b, k);
    }
    assert(entries_map(b) =~= entries_map(a));
}

/// Whether two paths are the same, byte for byte.
fn same_path(a: &[u8], b: &[u8]) -> (same: bool)
    ensures
        same == (a@ == b@),
{
    if a.len() != b.len() {
        return false;
    }
    let mut i: usize = 0;
    while i < a.len()
        invariant
            a@.len() == b@.len(),
            i <= a@.len(),
            forall|k: int| 0 <= k < i ==> a@[k] == b@[k],
        decreases a@.len() - i,
    {
        if a[i] != b[i] {
            return false;
        }
        i += 1;
    }
    assert(a@ =~= b@);
    true
}

/// A copy of a path.
fn copy_path(path: &[u8]) -> (copy: Vec<u8>)
    ensures
        copy@ == path@,
{
    let mut copy: Vec<u8> = Vec::with_capacity(path.len());
    let mut i: usize = 0;
    while i < path.len()
        invariant
            i <= path@.len(),
            copy@ == path@.take(i as int),
        decreases path@.len() - i,
    {
        copy.push(path[i]);
        assert(copy@ =~= path@.take(i + 1));
        i += 1;
    }
    assert(copy@ =~= path@);
    copy
}

/// The status kept for each known mountpoint.
pub struct Registry {
    paths: Vec<Vec<u8>>,
    statuses: Vec<MountStatus>,
}

impl View for Registry {
    type V = Map<Seq<u8>, MountStatus>;

    closed spec fn view(&self) -> Map<Seq<u8>, MountStatus> {
        entries_map(paired(self.paths@, self.statuses@))
    }
}

impl Registry {
    #[verifier::type_invariant]
    spec fn well_formed(self) -> bool {
        self.paths@.len() == self.statuses@.len() && distinct_names(self.paths@)
    }

    /// What the invariant means for the entries: no path occurs twice among
    /// them, and the map has one key for each.
    proof fn lemma_entries(&self)
        requires
            self.well_formed(),
        ensures
            distinct_paths(paired(self.paths@, self.statuses@)),
            self@.dom().finite(),
            self@.dom().len() == self.paths@.len(),
    {
        lemma_paired_distinct(self.paths@, self.statuses@);
        lemma_map_size(paired(self.paths@, self.statuses@));
    }

    /// Position of `path` in `paths`, if it occurs there.
    fn find(paths: &Vec<Vec<u8>>, path: &[u8]) -> (found: Option<usize>)
        ensures
            match found {
                Some(i) => i < paths.len() && paths[i as int]@ == path@,
                None => forall|k: int| 0 <= k < paths.len() ==> (#[trigger] paths[k])@ != path@,
            },
    {
        let mut i: usize = 0;
        while i < paths.len()
            invariant
                i <= paths.len(),
                forall|k: int| 0 <= k < i ==> (#[trigger] paths[k])@ != path@,
            decreases paths.len() - i,
        {
            if same_path(paths[i].as_slice(), path) {
                return Some(i);
            }
            i += 1;
        }
        None
    }

    /// Position of the entry for `path`, if the registry has one.
    fn position(&self, path: &[u8]) -> (found: Option<usize>)
        ensures
            found.is_some() == self@.contains_key(path@),
            match found {
                Some(i) => i < self.paths.len() && i < self.statuses.len() && self.paths[i as int]@
                    == path@ && self@[path@] == self.statuses[i as int],
                None => true,
            },
    {
        let found = Self::find(&self.paths, path);
        proof {
            use_type_invariant(self);
            self.lemma_entries();
            let entries = paired(self.paths@, self.statuses@);
            if found is Some {
                lemma_entry_in_map(entries, found->0 as int);
            }
            if has_path(entries, path@) {
                let k = position_of(entries, path@);
                assert(self.paths@[k]@ == path@);
            }
        }
        found
    }

    /// A registry that knows no mountpoint.
    pub fn new() -> (registry: Registry)
        ensures
            registry@ == Map::<Seq<u8>, MountStatus>::empty(),
    {
        let registry = Registry { paths: Vec::new(), statuses: Vec::new() };
        assert(registry@ =~= Map::<Seq<u8>, MountStatus>::empty());
        registry
    }

    /// Number of known mountpoints.
    pub fn len(&self) -> (total: usize)
        ensures
            self@.dom().finite(),
            total == self@.dom().len(),
    {
        proof {
            use_type_invariant(self);
            self.lemma_entries();
        }
        self.paths.len()
    }

    /// Whether `mount_point` is known.
    pub fn contains(&self, mount_point: &[u8]) -> (known: bool)
        ensures
            known == self@.contains_key(mount_point@),
    {
        self.position(mount_point).is_some()
    }

    /// The status kept for `mount_point`, `None` where it is not known.
    pub fn status_of(&self, mount_point: &[u8]) -> (status: Option<MountStatus>)
        ensures
            status == if self@.contains_key(mount_point@) {
                Some(self@[mount_point@])
            } else {
                None
            },
    {
        match self.position(mount_point) {
            Some(i) => Some(self.statuses[i]),
            None => None,
        }
    }

    /// Brings the set of known mountpoints in line with `mount_points`, the
    /// mounts that exist now. Entries for paths that are no longer mounted
    /// are removed, entries that stay keep their status, and each new path
    /// starts as `Alive`. A path named twice counts once.
    ///
    /// Returns the processes of the running checks whose entries were
    /// removed. The registry no longer follows them: the caller lets go of
    /// them too.
    pub fn reconcile(&mut self, mount_points: &Vec<Vec<u8>>) -> (abandoned: Vec<u32>)
        ensures
            final(self)@ == reconciled(old(self)@, path_set(mount_points@)),
            final(self)@.dom() == path_set(mount_points@),
            forall|path: Seq<u8>| #[trigger]
                final(self)@.contains_key(path) ==> final(self)@[path] == (if old(
                    self,
                )@.contains_key(path) {
                    old(self)@[path]
                } else {
                    MountStatus::Alive
                }),
            abandoned@.to_set() == abandoned_handles(old(self)@, path_set(mount_points@)),
    {
        proof {
            use_type_invariant(&*self);
            self.lemma_entries();
        }
        let ghost before = paired(self.paths@, self.statuses@);
        let ghost current = path_set(mount_points@);
        let mut paths: Vec<Vec<u8>> = Vec::new();
        let mut statuses: Vec<MountStatus> = Vec::new();
        let ghost mut kept: Seq<MountEntry> = Seq::empty();
        let mut abandoned: Vec<u32> = Vec::new();
        let mut i: usize = 0;
        assert(kept =~= paired(paths@, statuses@));
        assert(entries_map(kept) =~= entries_map(before.take(0)).restrict(current));
        assert(abandoned@.to_set() =~= abandoned_handles(entries_map(before.take(0)), current));
        while i < self.paths.len()
            invariant
                before == paired(self.paths@, self.statuses@),
                self.paths@.len() == self.statuses@.len(),
                distinct_paths(before),
                current == path_set(mount_points@),
                i <= before.len(),
                paths@.len() == statuses@.len(),
                kept == paired(paths@, statuses@),
                distinct_paths(kept),
                entries_map(kept) == entries_map(before.take(i as int)).restrict(current),
                abandoned@.to_set() == abandoned_handles(
                    entries_map(before.take(i as int)),
                    current,
                ),
            decreases before.len() - i,
        {
            let ghost seen = entries_map(before.take(i as int));
            let ghost path = before[i as int].mount_point@;
            let status = self.statuses[i];
            proof {
                lemma_take_next(before, i as int);
                lemma_push_entry(before.take(i as int), before[i as int]);
            }
            let ghost next = entries_map(before.take(i + 1));
            assert(next == seen.insert(path, status));
            assert(!seen.contains_key(path));
            let listed = Self::find(mount_points, self.paths[i].as_slice()).is_some();
            assert(listed == current.contains(path));
            proof {
                lemma_abandoned_next(seen, path, status, current);
            }
            if listed {
                let name = copy_path(self.paths[i].as_slice());
                let ghost entry = MountEntry { mount_point: name, status };
                proof {
                    assert(!entries_map(kept).contains_key(path));
                    lemma_push_entry(kept, entry);
                    kept = kept.push(entry);
                }
                paths.push(name);
                statuses.push(status);
                assert(kept =~= paired(paths@, statuses@));
            } else {
                match status {
                    MountStatus::CheckRunning { process, .. } => {
                        proof {
                            abandoned@.lemma_push_to_set_commute(process);
                        }
                        abandoned.push(process);
                    },
                    _ => {},
                }
            }
            assert(entries_map(kept) =~= next.restrict(current));
            i += 1;
        }
        assert(before.take(before.len() as int) =~= before);
        let ghost retained = entries_map(kept);
        let mut k: usize = 0;
        while k < mount_points.len()
            invariant
                k <= mount_points.len(),
                paths@.len() == statuses@.len(),
                kept == paired(paths@, statuses@),
                distinct_paths(kept),
                forall|path: Seq<u8>| #[trigger]
                    entries_map(kept).contains_key(path) <==> (retained.contains_key(path)
                        || named_within(mount_points@, k as int, path)),
                forall|path: Seq<u8>| #[trigger]
                    entries_map(kept).contains_key(path) ==> entries_map(kept)[path] == (
                    if retained.contains_key(path) {
                        retained[path]
                    } else {
                        MountStatus::Alive
                    }),
            decreases mount_points.len() - k,
        {
            let ghost so_far = entries_map(kept);
            let ghost name = mount_points[k as int]@;
            let found = Self::find(&paths, mount_points[k].as_slice());
            proof {
                if found is Some {
                    assert(kept[found->0 as int].mount_point@ == name);
                }
                if has_path(kept, name) {
                    let at = position_of(kept, name);
                    assert(paths@[at]@ == name);
                }
            }
            if found.is_none() {
                let fresh = copy_path(mount_points[k].as_slice());
                let ghost entry = MountEntry { mount_point: fresh, status: MountStatus::Alive };
                proof {
                    lemma_push_entry(kept, entry);
                    kept = kept.push(entry);
                }
                paths.push(fresh);
                statuses.push(MountStatus::Alive);
                assert(kept =~= paired(paths@, statuses@));
                assert(entries_map(kept) == so_far.insert(name, MountStatus::Alive));
                assert(!so_far.contains_key(name));
            } else {
                assert(so_far.contains_key(name));
            }
            let ghost now = entries_map(kept);
            assert forall|path: Seq<u8>| #[trigger]
                now.contains_key(path) <==> (retained.contains_key(path) || named_within(
                    mount_points@,
                    k + 1,
                    path,
                )) by {
                assert(so_far.contains_key(path) <==> (retained.contains_key(path)
                    || named_within(mount_points@, k as int, path)));
                if named_within(mount_points@, k as int, path) {
                    let j = choose|j: int| 0 <= j < k && (#[trigger] mount_points@[j])@ == path;
                    assert(0 <= j < k + 1 && mount_points@[j]@ == path);
                }
                if path == name {
                    assert(0 <= k < k + 1 && mount_points@[k as int]@ == path);
                }
                if named_within(mount_points@, k + 1, path) {
                    let j = choose|j: int| 0 <= j < k + 1 && (#[trigger] mount_points@[j])@ == path;
                    if j < k {
                        assert(named_within(mount_points@, k as int, path));
                    }
                }
            }
            assert forall|path: Seq<u8>| #[trigger] now.contains_key(path) implies now[path] == (
            if retained.contains_key(path) {
                retained[path]
            } else {
                MountStatus::Alive
            }) by {
                if so_far.contains_key(path) {
                    assert(so_far[path] == now[path]);
                }
            }
            k += 1;
        }
        assert forall|path: Seq<u8>| #[trigger]
            named_within(mount_points@, mount_points.len() as int, path) == current.contains(
                path,
            ) by {
            if named_within(mount_points@, mount_points.len() as int, path) {
                let j = choose|j: int|
                    0 <= j < mount_points.len() && (#[trigger] mount_points@[j])@ == path;
                assert(current.contains(path));
            }
        }
        proof {
            assert forall|a: int, b: int| 0 <= a < b < paths@.len() implies (#[trigger] paths@[a])@
                != (#[trigger] paths@[b])@ by {
                assert(kept[a].mount_point == paths@[a]);
                assert(kept[b].mount_point == paths@[b]);
            }
        }
        *self = Registry { paths, statuses };
        assert(self@ =~= reconciled(old(self)@, current));
        assert(self@.dom() =~= current);
        abandoned
    }

    /// Sets the status of `mount_point`, if it is known. The registry never
    /// gains a mountpoint this way: for a path that it does not know nothing
    /// changes, and the result is `false`.
    pub fn record(&mut self, mount_point: &[u8], status: MountStatus) -> (known: bool)
        ensures
            known == old(self)@.contains_key(mount_point@),
            final(self)@ == if known {
                old(self)@.insert(mount_point@, status)
            } else {
                old(self)@
            },
    {
        match self.position(mount_point) {
            Some(i) => {
                let ghost entries = paired(self.paths@, self.statuses@);
                let ghost entry = MountEntry { mount_point: self.paths@[i as int], status };
                proof {
                    use_type_invariant(&*self);
                    self.lemma_entries();
                    lemma_update_entry(entries, i as int, entry);
                }
                self.statuses[i] = status;
                assert(paired(self.paths@, self.statuses@) =~= entries.update(i as int, entry));
                true
            },
            None => false,
        }
    }

    /// The entries as a list, in no particular order: one for each known
    /// mountpoint, with its status.
    pub fn entries(&self) -> (list: Vec<MountEntry>)
        ensures
            distinct_paths(list@),
            entries_map(list@) == self@,
            list@.len() == self@.dom().len(),
    {
        proof {
            use_type_invariant(self);
            self.lemma_entries();
        }
        let ghost all = paired(self.paths@, self.statuses@);
        let mut list: Vec<MountEntry> = Vec::new();
        let mut i: usize = 0;
        while i < self.paths.len()
            invariant
                self.paths@.len() == self.statuses@.len(),
                all == paired(self.paths@, self.statuses@),
                i <= self.paths.len(),
                list@.len() == i,
                forall|k: int|
                    0 <= k < i ==> (#[trigger] list@[k]).mount_point@ == all[k].mount_point@
                        && list@[k].status == all[k].status,
            decreases self.paths.len() - i,
        {
            let entry = MountEntry {
                mount_point: copy_path(self.paths[i].as_slice()),
                status: self.statuses[i],
            };
            list.push(entry);
            i += 1;
        }
        proof {
            lemma_same_entries(all, list@);
        }
        list
    }

    /// Number of known mountpoints whose status is not `Alive`. It is
    /// counted anew from the entries at every call.
    pub fn dead_count(&self) -> (dead: usize)
        ensures
            dead_paths(self@).finite(),
            dead == dead_paths(self@).len(),
            dead <= self@.dom().len(),
    {
        proof {
            use_type_invariant(self);
            self.lemma_entries();
        }
        let ghost all = paired(self.paths@, self.statuses@);
        let mut dead: usize = 0;
        let mut i: usize = 0;
        while i < self.statuses.len()
            invariant
                self.paths@.len() == self.statuses@.len(),
                all == paired(self.paths@, self.statuses@),
                i <= self.statuses.len(),
                dead == dead_among(all.take(i as int)),
                dead <= i,
            decreases self.statuses.len() - i,
        {
            proof {
                assert(all.take(i + 1).drop_last() =~= all.take(i as int));
            }
            if !self.statuses[i].success() {
                dead += 1;
            }
            i += 1;
        }
        proof {
            assert(all.take(all.len() as int) =~= all);
            lemma_dead_count(all);
        }
        dead
    }

    /// The counts of a cycle: all known mountpoints, and those among them
    /// that are not `Alive`. Both are taken from the entries as they are now;
    /// nothing is carried over from an earlier cycle.
    pub fn summary(&self) -> (counts: TickSummary)
        ensures
            self@.dom().finite(),
            counts.total_mounts == self@.dom().len(),
            counts.dead_mounts == dead_paths(self@).len(),
            counts.dead_mounts <= counts.total_mounts,
    {
        TickSummary { total_mounts: self.len(), dead_mounts: self.dead_count() }
    }
}

} // verus!
