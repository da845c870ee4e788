//! The purge: a sweep over the whole cache root that deletes the entries that
//! are no longer valid and the key directories that are left with nothing.

use vstd::prelude::*;
use crate::expiry::{file_valid, name_expiry, name_valid};
use crate::indices::{lemma_picked, pick, picked, positions};

verus! {

/// What a directory entry is, as far as the cache cares.
#[derive(Clone, Copy, Debug, PartialEq, Eq)]
pub enum EntryKind {
    /// A regular file.
    File,
    /// A directory.
    Directory,
    /// Anything else, or an entry that could not be examined.
    Other,
}

/// One entry of a key directory's listing.
#[derive(Debug, PartialEq, Eq)]
pub struct DirEntry {
    pub name: String,
    pub kind: EntryKind,
}

/// A [`DirEntry`] as a mathematical value.
pub struct DirEntryView {
    pub name: Seq<char>,
    pub kind: EntryKind,
}

impl View for DirEntry {
    type V = DirEntryView;

    open spec fn view(&self) -> DirEntryView {
        DirEntryView { name: self.name@, kind: self.kind }
    }
}

impl DeepView for DirEntry {
    type V = DirEntryView;

    open spec fn deep_view(&self) -> DirEntryView {
        self@
    }
}

/// One entry directly under the cache root. `listing` holds the entries of a
/// directory that could be listed, and is `None` for everything else.
#[derive(Debug, PartialEq, Eq)]
pub struct RootEntry {
    pub name: String,
    pub kind: EntryKind,
    pub listing: Option<Vec<DirEntry>>,
}

/// A [`RootEntry`] as a mathematical value.
pub struct RootEntryView {
    pub name: Seq<char>,
    pub kind: EntryKind,
    pub listing: Option<Seq<DirEntryView>>,
}

impl View for RootEntry {
    type V = RootEntryView;

    open spec fn view(&self) -> RootEntryView {
        RootEntryView { name: self.name@, kind: self.kind, listing: self.listing.deep_view() }
    }
}

impl DeepView for RootEntry {
    type V = RootEntryView;

    open spec fn deep_view(&self) -> RootEntryView {
        self@
    }
}

/// What the purge does to one key directory: the files to delete, as
/// positions in the directory's listing, and whether the directory itself
/// goes afterwards. `dir` is the directory's position under the cache root.
#[derive(Debug, PartialEq, Eq)]
pub struct DirPurge {
    pub dir: usize,
    pub stale: Vec<usize>,
    pub remove_dir: bool,
}

/// A [`DirPurge`] as a mathematical value.
pub struct DirPurgeView {
    pub dir: int,
    pub stale: Seq<int>,
    pub remove_dir: bool,
}

impl View for DirPurge {
    type V = DirPurgeView;

    open spec fn view(&self) -> DirPurgeView {
        DirPurgeView {
            dir: self.dir as int,
            stale: positions(self.stale@),
            remove_dir: self.remove_dir,
        }
    }
}

impl DeepView for DirPurge {
    type V = DirPurgeView;

    open spec fn deep_view(&self) -> DirPurgeView {
        self@
    }
}

/// An entry that the purge deletes: a regular file that is not valid at
/// `now`, be it expired or named by something that is no date-time.
pub open spec fn is_stale_file(entry: DirEntryView, now: i64) -> bool {
    entry.kind == EntryKind::File && !name_valid(entry.name, now)
}

/// For each entry of a listing, whether the purge deletes it.
pub open spec fn stale_mask(entries: Seq<DirEntryView>, now: i64) -> Seq<bool> {
    Seq::new(entries.len(), |i: int| is_stale_file(entries[i], now))
}

/// A directory with nothing worth keeping: every entry in it is a file that
/// is not valid at `now`. An empty directory is one such.
pub open spec fn exhausted(entries: Seq<DirEntryView>, now: i64) -> bool {
    forall|i: int| 0 <= i < entries.len() ==> is_stale_file(#[trigger] entries[i], now)
}

/// What the purge does to the directory at position `dir` whose listing is
/// `entries`.
pub open spec fn dir_purge(dir: int, entries: Seq<DirEntryView>, now: i64) -> DirPurgeView {
    DirPurgeView {
        dir,
        stale: picked(stale_mask(entries, now)),
        remove_dir: exhausted(entries, now),
    }
}

/// An entry under the cache root that the purge looks into: a directory whose
/// listing could be read.
pub open spec fn is_key_dir(entry: RootEntryView) -> bool {
    entry.kind == EntryKind::Directory && entry.listing is Some
}

/// The purge of a whole cache root: one [`DirPurgeView`] for each key
/// directory, in the order of the root's listing. Entries that are no
/// directories, or that could not be listed, are passed over.
pub open spec fn purge_plans(root: Seq<RootEntryView>, now: i64) -> Seq<DirPurgeView>
    decreases root.len(),
{
    if root.len() == 0 {
        Seq::empty()
    } else {
        let earlier = purge_plans(root.drop_last(), now);
        if is_key_dir(root.last()) {
            earlier.push(dir_purge(root.len() - 1, root.last().listing->0, now))
        } else {
            earlier
        }
    }
}

/// The files that the purge deletes from a directory are exactly its regular
/// files that are not valid at `now`, among them every file whose name is no
/// date-time at all; and the directory itself goes exactly when that is all
/// it ever held.
pub proof fn lemma_dir_purge(dir: int, entries: Seq<DirEntryView>, now: i64)
    ensures
        forall|i: int|
            0 <= i < entries.len() ==> (dir_purge(dir, entries, now).stale.contains(i)
                <==> is_stale_file(#[trigger] entries[i], now)),
        forall|i: int|
            dir_purge(dir, entries, now).stale.contains(i) ==> 0 <= i < entries.len(),
        forall|i: int|
            0 <= i < entries.len() && (#[trigger] entries[i]).kind == EntryKind::File
                && name_expiry(entries[i].name) is None ==> dir_purge(
                dir,
                entries,
                now,
            ).stale.contains(i),
        dir_purge(dir, entries, now).remove_dir <==> dir_purge(dir, entries, now).stale.len()
            == entries.len(),
{
    let mask = stale_mask(entries, now);
    let stale = picked(mask);
    lemma_picked(mask);
    assert forall|i: int| 0 <= i < entries.len() implies (stale.contains(i) <==> is_stale_file(
        #[trigger] entries[i],
        now,
    )) by {
        if stale.contains(i) {
            let k = choose|k: int| 0 <= k < stale.len() && stale[k] == i;
            assert(mask[stale[k]]);
        }
        if is_stale_file(entries[i], now) {
            assert(mask[i]);
        }
    }
    assert forall|i: int| stale.contains(i) implies 0 <= i < entries.len() by {
        let k = choose|k: int| 0 <= k < stale.len() && stale[k] == i;
        assert(0 <= stale[k] < mask.len());
    }
    if exhausted(entries, now) {
        assert forall|i: int| 0 <= i < mask.len() implies mask[i] by {
            assert(is_stale_file(entries[i], now));
        }
    }
    if stale.len() == entries.len() {
        assert forall|i: int| 0 <= i < entries.len() implies is_stale_file(
            #[trigger] entries[i],
            now,
        ) by {
            assert(mask[i]);
        }
    }
}

/// The purge visits every key directory once, in listing order, and nothing
/// else: each plan is that of a directory under the root whose listing could
/// be read, and each such directory has its plan.
pub proof fn lemma_purge_plans(root: Seq<RootEntryView>, now: i64)
    ensures
        forall|k: int|
            0 <= k < purge_plans(root, now).len() ==> {
                let plan = #[trigger] purge_plans(root, now)[k];
                &&& 0 <= plan.dir < root.len()
                &&& is_key_dir(root[plan.dir])
                &&& plan == dir_purge(plan.dir, root[plan.dir].listing->0, now)
            },
        forall|j: int, k: int|
            0 <= j < k < purge_plans(root, now).len() ==> purge_plans(root, now)[j].dir
                < purge_plans(root, now)[k].dir,
        forall|d: int|
            0 <= d < root.len() && is_key_dir(#[trigger] root[d]) ==> purge_plans(
                root,
                now,
            ).contains(dir_purge(d, root[d].listing->0, now)),
    decreases root.len(),
{
    if root.len() > 0 {
        let init = root.drop_last();
        let last = root.len() - 1;
        let plans = purge_plans(root, now);
        lemma_purge_plans(init, now);
        assert forall|d: int| 0 <= d < root.len() && is_key_dir(#[trigger] root[d]) implies plans.contains(
            dir_purge(d, root[d].listing->0, now),
        ) by {
            let wanted = dir_purge(d, root[d].listing->0, now);
            if d < last {
                assert(is_key_dir(init[d]));
                let k = choose|k: int|
                    0 <= k < purge_plans(init, now).len() && purge_plans(init, now)[k] == wanted;
                assert(plans[k] == wanted);
            } else {
                assert(plans[plans.len() - 1] == wanted);
            }
        }
    }
}

/// A key directory that holds nothing but files that are not valid at `now`
/// is deleted by the purge, with every file in it; a key directory that
/// holds a file still valid at `now` survives, and so does that file.
pub proof fn lemma_purge_removes_exhausted_dirs(root: Seq<RootEntryView>, now: i64, d: int)
    requires
        0 <= d < root.len(),
        is_key_dir(root[d]),
    ensures
        purge_plans(root, now).contains(dir_purge(d, root[d].listing->0, now)),
        exhausted(root[d].listing->0, now) ==> {
            let plan = dir_purge(d, root[d].listing->0, now);
            &&& plan.remove_dir
            &&& forall|i: int| 0 <= i < root[d].listing->0.len() ==> plan.stale.contains(i)
        },
        forall|i: int|
            0 <= i < root[d].listing->0.len() && (#[trigger] root[d].listing->0[i]).kind
                == EntryKind::File && name_valid(root[d].listing->0[i].name, now) ==> {
                let plan = dir_purge(d, root[d].listing->0, now);
                &&& !plan.remove_dir
                &&& !plan.stale.contains(i)
            },
{
    let entries = root[d].listing->0;
    let plan = dir_purge(d, entries, now);
    lemma_purge_plans(root, now);
    lemma_dir_purge(d, entries, now);
    if exhausted(entries, now) {
        assert forall|i: int| 0 <= i < entries.len() implies plan.stale.contains(i) by {
            assert(is_stale_file(entries[i], now));
        }
    }
}

/// The purge of one key directory at `now`: which files of its listing go,
/// and whether the directory goes with them.
pub fn purge_dir(dir: usize, entries: &Vec<DirEntry>, now: i64) -> (plan: DirPurge)
    ensures
        plan@ == dir_purge(dir as int, entries.deep_view(), now),
{
    let ghost listing = entries.deep_view();
    let mut mask: Vec<bool> = Vec::new();
    let mut i: usize = 0;
    while i < entries.len()
        invariant
            i <= entries.len(),
            listing == entries.deep_view(),
            mask@ == stale_mask(listing, now).take(i as int),
        decreases entries.len() - i,
    {
        let stale = match entries[i].kind {
            EntryKind::File => !file_valid(entries[i].name.as_str(), now),
            _ => false,
        };
        mask.push(stale);
        proof {
            assert(listing[i as int] == entries@[i as int]@);
            assert(mask@ == stale_mask(listing, now).take(i + 1));
        }
        i += 1;
    }
    proof {
        assert(mask@ == stale_mask(listing, now));
        lemma_picked(mask@);
    }
    let entry_count = entries.len();
    let stale = pick(&mask);
    assert(stale@.len() == positions(stale@).len());
    let remove_dir = entry_count == 0 || entry_count == stale.len();
    proof {
        if remove_dir {
            assert forall|i: int| 0 <= i < listing.len() implies is_stale_file(
                #[trigger] listing[i],
                now,
            ) by {
                assert(mask@[i]);
            }
        }
        if exhausted(listing, now) {
            assert forall|i: int| 0 <= i < mask@.len() implies mask@[i] by {
                assert(is_stale_file(listing[i], now));
            }
        }
    }
    DirPurge { dir, stale, remove_dir }
}

/// The purge of the cache root at `now`. `root` is the listing of the cache
/// root, each directory in it with its own listing.
pub fn purge_config(root: &Vec<RootEntry>, now: i64) -> (plans: Vec<DirPurge>)
    ensures
        plans.deep_view() == purge_plans(root.deep_view(), now),
{
    let ghost tree = root.deep_view();
    let mut plans: Vec<DirPurge> = Vec::new();
    let mut d: usize = 0;
    while d < root.len()
        invariant
            d <= root.len(),
            tree == root.deep_view(),
            plans.deep_view() == purge_plans(tree.take(d as int), now),
        decreases root.len() - d,
    {
        proof {
            assert(tree.take(d + 1).drop_last() == tree.take(d as int));
            assert(tree.take(d + 1).last() == root@[d as int]@);
        }
        let ghost before = plans.deep_view();
        match root[d].kind {
            EntryKind::Directory => {
                match &root[d].listing {
                    Some(entries) => {
                        let plan = purge_dir(d, entries, now);
                        plans.push(plan);
                        proof {
                            assert(plans.deep_view() == before.push(plan@));
                        }
                    },
                    None => {},
                }
            },
            _ => {},
        }
        d += 1;
    }
    proof {
        assert(tree.take(d as int) == tree);
    }
    plans
}

} // verus!
