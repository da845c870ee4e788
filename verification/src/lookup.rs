//! Reading the cache: which entries of a key directory are still good, which
//! are to be deleted, and which body the read returns.

use vstd::prelude::*;
use vstd::string::*;
use crate::expiry::{file_valid, name_expiry, name_valid};
use crate::indices::{lemma_picked, pick, picked, positions};

verus! {

/// What a read finds in a key directory: the entries that are valid at `now`
/// and those that are not, as positions in the directory's listing. The
/// valid ones are to be read, the others deleted.
#[derive(Debug, PartialEq, Eq)]
pub struct Scan {
    pub now: i64,
    pub fresh: Vec<usize>,
    pub stale: Vec<usize>,
}

/// A [`Scan`] as a mathematical value.
pub struct ScanView {
    pub now: i64,
    pub fresh: Seq<int>,
    pub stale: Seq<int>,
}

impl View for Scan {
    type V = ScanView;

    open spec fn view(&self) -> ScanView {
        ScanView { now: self.now, fresh: positions(self.fresh@), stale: positions(self.stale@) }
    }
}

/// For each name of a listing, whether the entry under it is valid at `now`.
pub open spec fn fresh_mask(names: Seq<Seq<char>>, now: i64) -> Seq<bool> {
    Seq::new(names.len(), |i: int| name_valid(names[i], now))
}

/// For each name of a listing, whether the entry under it is to be deleted.
pub open spec fn expired_mask(names: Seq<Seq<char>>, now: i64) -> Seq<bool> {
    Seq::new(names.len(), |i: int| !name_valid(names[i], now))
}

/// What a read at `now` finds in a directory that lists `names`.
pub open spec fn scan_of(names: Seq<Seq<char>>, now: i64) -> ScanView {
    ScanView {
        now,
        fresh: picked(fresh_mask(names, now)),
        stale: picked(expired_mask(names, now)),
    }
}

/// The body that a read returns, given what reading each valid entry gave,
/// in listing order: that of the last entry that could be read. The empty
/// text stands for a miss.
pub open spec fn last_read(bodies: Seq<Option<Seq<char>>>) -> Seq<char>
    decreases bodies.len(),
{
    if bodies.len() == 0 {
        Seq::empty()
    } else {
        match bodies.last() {
            Some(body) => body,
            None => last_read(bodies.drop_last()),
        }
    }
}

/// A read returns a hit when it returns anything at all.
pub open spec fn is_hit(body: Seq<char>) -> bool {
    body.len() > 0
}

/// What a read at `now` finds in a directory that lists `names`.
pub fn scan(names: &Vec<String>, now: i64) -> (scan: Scan)
    ensures
        scan@ == scan_of(names.deep_view(), now),
{
    let ghost listing = names.deep_view();
    let mut fresh: Vec<bool> = Vec::new();
    let mut expired: Vec<bool> = Vec::new();
    let mut i: usize = 0;
    while i < names.len()
        invariant
            i <= names.len(),
            listing == names.deep_view(),
            fresh@ == fresh_mask(listing, now).take(i as int),
            expired@ == expired_mask(listing, now).take(i as int),
        decreases names.len() - i,
    {
        let valid = file_valid(names[i].as_str(), now);
        fresh.push(valid);
        expired.push(!valid);
        proof {
            assert(listing[i as int] == names@[i as int]@);
            assert(fresh@ == fresh_mask(listing, now).take(i + 1));
            assert(expired@ == expired_mask(listing, now).take(i + 1));
        }
        i += 1;
    }
    proof {
        assert(fresh@ == fresh_mask(listing, now));
        assert(expired@ == expired_mask(listing, now));
    }
    Scan { now, fresh: pick(&fresh), stale: pick(&expired) }
}

/// The body that a read returns. `bodies` holds what reading each valid
/// entry gave, in listing order, `None` where the entry could not be read.
/// Where several entries are valid, the last one listed wins; the order of a
/// listing is the file system's own.
pub fn get_cached_response(bodies: &Vec<Option<String>>) -> (body: String)
    ensures
        body@ == last_read(bodies.deep_view()),
{
    let ghost all = bodies.deep_view();
    let mut i: usize = bodies.len();
    proof {
        assert(all.take(i as int) == all);
    }
    while i > 0
        invariant
            i <= bodies.len(),
            all == bodies.deep_view(),
            last_read(all) == last_read(all.take(i as int)),
        decreases i,
    {
        proof {
            assert(all.take(i as int).drop_last() == all.take(i - 1));
            assert(all.take(i as int).last() == bodies@[i - 1].deep_view());
        }
        match &bodies[i - 1] {
            Some(found) => {
                return found.clone();
            },
            None => {},
        }
        i -= 1;
    }
    String::new()
}

/// A read sorts every entry of the directory: an entry is deleted exactly
/// when it is not valid, and read exactly when it is. Among those deleted
/// are every entry whose name is no date-time at all, and every entry whose
/// expiry `now` has reached.
pub proof fn lemma_scan_sorts_every_entry(names: Seq<Seq<char>>, now: i64)
    ensures
        forall|i: int|
            0 <= i < names.len() ==> (scan_of(names, now).fresh.contains(i) <==> name_valid(
                #[trigger] names[i],
                now,
            )),
        forall|i: int|
            0 <= i < names.len() ==> (scan_of(names, now).stale.contains(i) <==> !name_valid(
                #[trigger] names[i],
                now,
            )),
        forall|i: int|
            0 <= i < names.len() && name_expiry(#[trigger] names[i]) is None ==> scan_of(
                names,
                now,
            ).stale.contains(i),
        forall|i: int|
            0 <= i < names.len() && name_expiry(#[trigger] names[i]) is Some && name_expiry(
                names[i],
            )->0 <= now ==> scan_of(names, now).stale.contains(i),
        forall|i: int|
            scan_of(names, now).fresh.contains(i) || scan_of(names, now).stale.contains(i) ==> 0
                <= i < names.len(),
        scan_of(names, now).fresh.len() + scan_of(names, now).stale.len() == names.len(),
{
    let fresh = fresh_mask(names, now);
    let expired = expired_mask(names, now);
    lemma_picked(fresh);
    lemma_picked(expired);
    assert forall|i: int| 0 <= i < names.len() implies (picked(fresh).contains(i) <==> name_valid(
        #[trigger] names[i],
        now,
    )) by {
        if picked(fresh).contains(i) {
            let k = choose|k: int| 0 <= k < picked(fresh).len() && picked(fresh)[k] == i;
            assert(fresh[picked(fresh)[k]]);
        }
        if name_valid(names[i], now) {
            assert(fresh[i]);
        }
    }
    assert forall|i: int| 0 <= i < names.len() implies (picked(expired).contains(i) <==> !name_valid(
        #[trigger] names[i],
        now,
    )) by {
        if picked(expired).contains(i) {
            let k = choose|k: int| 0 <= k < picked(expired).len() && picked(expired)[k] == i;
            assert(expired[picked(expired)[k]]);
        }
        if !name_valid(names[i], now) {
            assert(expired[i]);
        }
    }
    assert forall|i: int| picked(fresh).contains(i) || picked(expired).contains(i) implies 0 <= i
        < names.len() by {
        if picked(fresh).contains(i) {
            let k = choose|k: int| 0 <= k < picked(fresh).len() && picked(fresh)[k] == i;
            assert(0 <= picked(fresh)[k] < fresh.len());
        } else {
            let k = choose|k: int| 0 <= k < picked(expired).len() && picked(expired)[k] == i;
            assert(0 <= picked(expired)[k] < expired.len());
        }
    }
    lemma_picked_split(fresh, expired);
}

/// Of two masks that disagree everywhere, one or the other picks each
/// position.
proof fn lemma_picked_split(mask: Seq<bool>, negated: Seq<bool>)
    requires
        mask.len() == negated.len(),
        forall|i: int| 0 <= i < mask.len() ==> mask[i] != negated[i],
    ensures
        picked(mask).len() + picked(negated).len() == mask.len(),
    decreases mask.len(),
{
    if mask.len() > 0 {
        lemma_picked_split(mask.drop_last(), negated.drop_last());
        assert(mask.last() != negated.last());
    }
}

} // verus!
