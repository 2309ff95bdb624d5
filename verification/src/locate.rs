//! Which entries of a directory walk are manifests within the depth bound.

use vstd::prelude::*;
use crate::text::{same_text, views};

verus! {

/// The name of a manifest file.
pub open spec fn manifest_file_name() -> Seq<char> {
    "Cargo.toml"@
}

/// One entry that a walk of the directory tree met. `depth` counts the
/// steps from the directory where the walk started: 0 for that directory
/// itself, 1 for what lies directly inside it.
pub struct WalkEntry {
    pub depth: usize,
    pub is_file: bool,
    pub name: String,
    pub path: String,
}

/// A walk entry as plain values.
pub struct WalkEntryView {
    pub depth: nat,
    pub is_file: bool,
    pub name: Seq<char>,
    pub path: Seq<char>,
}

impl View for WalkEntry {
    type V = WalkEntryView;

    open spec fn view(&self) -> WalkEntryView {
        WalkEntryView {
            depth: self.depth as nat,
            is_file: self.is_file,
            name: self.name@,
            path: self.path@,
        }
    }
}

/// The views of `entries`, in order.
pub open spec fn entry_views(entries: Seq<WalkEntry>) -> Seq<WalkEntryView> {
    Seq::new(entries.len(), |i: int| entries[i]@)
}

/// The greatest depth that a walk may reach under the bound `max_depth`, or
/// nothing where it may reach any depth. No bound and a negative bound leave
/// the walk free; a bound of 0 keeps it to what lies directly inside the
/// starting directory, and each further level allows one step more.
pub open spec fn depth_limit(max_depth: Option<i32>) -> Option<nat> {
    match max_depth {
        Some(n) => if n >= 0 {
            Some((n + 1) as nat)
        } else {
            None
        },
        None => None,
    }
}

/// Whether an entry at `depth` lies within the bound `max_depth`.
pub open spec fn within_bound(depth: nat, max_depth: Option<i32>) -> bool {
    match depth_limit(max_depth) {
        Some(limit) => depth <= limit,
        None => true,
    }
}

/// Whether the entry is a manifest that the bound lets through: a file of
/// the manifest's name, within the bound.
pub open spec fn is_manifest(e: WalkEntryView, max_depth: Option<i32>) -> bool {
    e.is_file && e.name == manifest_file_name() && within_bound(e.depth, max_depth)
}

/// The paths of the manifests among `entries`, in the order of the walk.
pub open spec fn manifests_in(entries: Seq<WalkEntryView>, max_depth: Option<i32>) -> Seq<
    Seq<char>,
>
    decreases entries.len(),
{
    if entries.len() == 0 {
        Seq::empty()
    } else if is_manifest(entries.last(), max_depth) {
        manifests_in(entries.drop_last(), max_depth).push(entries.last().path)
    } else {
        manifests_in(entries.drop_last(), max_depth)
    }
}

/// The depth to which the walk is limited under the bound `max_depth`.
pub fn walk_limit(max_depth: Option<i32>) -> (r: Option<usize>)
    ensures
        match depth_limit(max_depth) {
            Some(limit) => r == Some(limit as usize) && limit <= usize::MAX,
            None => r is None,
        },
{
    match max_depth {
        Some(n) => if n >= 0 {
            Some(n as usize + 1)
        } else {
            None
        },
        None => None,
    }
}

impl WalkEntry {
    /// Whether this entry is a manifest that the bound `max_depth` lets
    /// through.
    pub fn is_manifest(&self, max_depth: Option<i32>) -> (r: bool)
        ensures
            r == is_manifest(self@, max_depth),
    {
        let within = match walk_limit(max_depth) {
            Some(limit) => self.depth <= limit,
            None => true,
        };
        self.is_file && within && same_text(self.name.as_str(), "Cargo.toml")
    }
}

/// Picks the manifests out of the entries of a walk: the path of every file
/// named `Cargo.toml` that lies within the bound, in the order of the walk.
pub fn find_cargo_files(entries: &Vec<WalkEntry>, max_depth: Option<i32>) -> (r: Vec<String>)
    ensures
        views(r@) == manifests_in(entry_views(entries@), max_depth),
{
    let mut found: Vec<String> = Vec::new();
    let mut i: usize = 0;
    while i < entries.len()
        invariant
            i <= entries.len(),
            views(found@) == manifests_in(
                entry_views(entries@).take(i as int),
                max_depth,
            ),
        decreases entries.len() - i,
    {
        let ghost before = views(found@);
        if entries[i].is_manifest(max_depth) {
            found.push(entries[i].path.clone());
        }
        proof {
            let all = entry_views(entries@);
            assert(all.take(i + 1).drop_last() =~= all.take(i as int));
            assert(all.take(i + 1).last() == entries@[i as int]@);
            if is_manifest(entries@[i as int]@, max_depth) {
                assert(views(found@) =~= before.push(entries@[i as int].path@));
            }
        }
        i += 1;
    }
    proof {
        assert(entry_views(entries@).take(i as int) =~= entry_views(entries@));
    }
    found
}

/// A path is among the manifests of a walk exactly if the walk met a
/// manifest within the bound at that path.
pub proof fn lemma_found_are_the_manifests(
    entries: Seq<WalkEntryView>,
    max_depth: Option<i32>,
    path: Seq<char>,
)
    ensures
        manifests_in(entries, max_depth).contains(path) <==> exists|i: int|
            0 <= i < entries.len() && is_manifest(#[trigger] entries[i], max_depth)
                && entries[i].path == path,
    decreases entries.len(),
{
    if entries.len() > 0 {
        let rest = entries.drop_last();
        let last = entries.last();
        lemma_found_are_the_manifests(rest, max_depth, path);
        let found = manifests_in(entries, max_depth);
        let earlier = manifests_in(rest, max_depth);
        if manifests_in(entries, max_depth).contains(path) {
            let k = choose|k: int| 0 <= k < found.len() && found[k] == path;
            if is_manifest(last, max_depth) && k == found.len() - 1 {
                assert(entries[entries.len() - 1] == last);
            } else {
                assert(earlier[k] == path);
                assert(earlier.contains(path));
                let i = choose|i: int|
                    0 <= i < rest.len() && is_manifest(#[trigger] rest[i], max_depth)
                        && rest[i].path == path;
                assert(entries[i] == rest[i]);
            }
        }
        if exists|i: int|
            0 <= i < entries.len() && is_manifest(#[trigger] entries[i], max_depth)
                && entries[i].path == path {
            let i = choose|i: int|
                0 <= i < entries.len() && is_manifest(#[trigger] entries[i], max_depth)
                    && entries[i].path == path;
            if i == entries.len() - 1 {
                assert(found[found.len() - 1] == path);
            } else {
                assert(rest[i] == entries[i]);
                assert(earlier.contains(path));
                let k = choose|k: int| 0 <= k < earlier.len() && earlier[k] == path;
                assert(found[k] == path);
            }
        }
    }
}

/// A manifest one directory below the start is left out under the bound 0,
/// and let through under no bound and under any negative bound.
pub proof fn lemma_depth_boundary(e: WalkEntryView, negative: i32)
    requires
        e.is_file,
        e.name == manifest_file_name(),
        e.depth == 2,
        negative < 0,
    ensures
        !is_manifest(e, Some(0)),
        is_manifest(e, None),
        is_manifest(e, Some(negative)),
{
}

/// Under the bound 0, no path of an entry below depth 1 is found unless a
/// manifest directly inside the start has the same path.
pub proof fn lemma_bound_zero_finds_only_direct_entries(
    entries: Seq<WalkEntryView>,
    path: Seq<char>,
)
    requires
        manifests_in(entries, Some(0)).contains(path),
    ensures
        exists|i: int|
            0 <= i < entries.len() && (#[trigger] entries[i]).depth <= 1 && entries[i].path
                == path,
{
    lemma_found_are_the_manifests(entries, Some(0), path);
    let i = choose|i: int|
        0 <= i < entries.len() && is_manifest(#[trigger] entries[i], Some(0)) && entries[i].path
            == path;
    assert(entries[i].depth <= 1);
}

} // verus!
