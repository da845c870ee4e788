//! A key directory as the file system holds it, what carrying out the
//! library's plans does to it, and what follows for a cache that is read
//! and written in turn.

use vstd::prelude::*;
use crate::expiry::{lemma_valid_name_is_not_empty, name_valid};
use crate::fetch::{next, FetchView, OutcomeView};
use crate::indices::{lemma_picked, picked};
use crate::key::SEPARATOR;
use crate::layout::{cache_dir_path, joined};
use crate::lookup::{fresh_mask, is_hit, last_read, scan_of};
use crate::plan::StepView;
use crate::write::write_steps;

verus! {

/// One entry of a key directory: a file, named by its expiry, that holds a
/// response body.
pub struct FileModel {
    pub name: Seq<char>,
    pub body: Seq<char>,
}

/// The listing of a key directory.
pub open spec fn names_of(dir: Seq<FileModel>) -> Seq<Seq<char>> {
    Seq::new(dir.len(), |i: int| dir[i].name)
}

/// What reading the entries at the positions `fresh` gives: each one's body.
pub open spec fn bodies_at(dir: Seq<FileModel>, fresh: Seq<int>) -> Seq<Option<Seq<char>>> {
    Seq::new(fresh.len(), |k: int| Some(dir[fresh[k]].body))
}

/// The body that a read of the directory returns at `now`.
pub open spec fn read(dir: Seq<FileModel>, now: i64) -> Seq<char> {
    last_read(bodies_at(dir, scan_of(names_of(dir), now).fresh))
}

/// The directory after a read at `now`: the entries that were not valid are
/// gone, and the others are as they were.
pub open spec fn after_read(dir: Seq<FileModel>, now: i64) -> Seq<FileModel> {
    let fresh = scan_of(names_of(dir), now).fresh;
    Seq::new(fresh.len(), |k: int| dir[fresh[k]])
}

/// The name of the file that `path` denotes in the directory at `dir_path`,
/// where it denotes one.
pub open spec fn file_name_in(dir_path: Seq<char>, path: Seq<char>) -> Option<Seq<char>> {
    if path.len() > dir_path.len() && path.take(dir_path.len() as int + 1) == dir_path.push(SEPARATOR) {
        Some(path.skip(dir_path.len() as int + 1))
    } else {
        None
    }
}

/// The directory after `body` was written to the file `name` in it: a file
/// of that name holds `body` now, and one is there.
pub open spec fn stored_in(dir: Seq<FileModel>, name: Seq<char>, body: Seq<char>) -> Seq<FileModel> {
    if exists|i: int| 0 <= i < dir.len() && dir[i].name == name {
        Seq::new(
            dir.len(),
            |i: int|
                if dir[i].name == name {
                    FileModel { name, body }
                } else {
                    dir[i]
                },
        )
    } else {
        dir.push(FileModel { name, body })
    }
}

/// The directory at `dir_path` after one step of a plan was done.
pub open spec fn after_step(dir: Seq<FileModel>, dir_path: Seq<char>, step: StepView) -> Seq<
    FileModel,
> {
    match step {
        StepView::WriteFile { path, body } => match file_name_in(dir_path, path) {
            Some(name) => stored_in(dir, name, body),
            None => dir,
        },
        StepView::EnsureDir { path } => dir,
    }
}

/// The directory at `dir_path` after a plan was carried out.
pub open spec fn after_steps(dir: Seq<FileModel>, dir_path: Seq<char>, steps: Seq<StepView>) -> Seq<
    FileModel,
>
    decreases steps.len(),
{
    if steps.len() == 0 {
        dir
    } else {
        after_step(after_steps(dir, dir_path, steps.drop_last()), dir_path, steps.last())
    }
}

/// The key directory of `url` after the write of `body` with the expiry
/// `expires` succeeded.
pub open spec fn after_write(
    dir: Seq<FileModel>,
    root: Seq<char>,
    url: Seq<char>,
    expires: Seq<char>,
    body: Seq<char>,
) -> Seq<FileModel> {
    after_steps(dir, cache_dir_path(root, url), write_steps(root, url, expires, body))
}

/// Among the entries of `dir` that are valid at `now`, one named `name` is
/// listed last.
pub open spec fn listed_last_among_valid(dir: Seq<FileModel>, name: Seq<char>, now: i64) -> bool {
    forall|i: int|
        0 <= i < dir.len() && name_valid(#[trigger] dir[i].name, now) && dir[i].name != name
            ==> exists|j: int| i < j < dir.len() && #[trigger] dir[j].name == name
}

/// A path made by joining a directory and a name denotes that name in that
/// directory.
pub proof fn lemma_file_name_in_joined(dir_path: Seq<char>, name: Seq<char>)
    ensures
        file_name_in(dir_path, joined(dir_path, name)) == Some(name),
{
    let path = joined(dir_path, name);
    assert(path.take(dir_path.len() as int + 1) == dir_path.push(SEPARATOR));
    assert(path.skip(dir_path.len() as int + 1) == name);
}

/// A write with an expiry leaves the response in the key directory under
/// that expiry; a write without one leaves the directory as it was.
pub proof fn lemma_after_write(
    dir: Seq<FileModel>,
    root: Seq<char>,
    url: Seq<char>,
    expires: Seq<char>,
    body: Seq<char>,
)
    ensures
        expires.len() == 0 ==> after_write(dir, root, url, expires, body) == dir,
        expires.len() > 0 ==> after_write(dir, root, url, expires, body) == stored_in(
            dir,
            expires,
            body,
        ),
{
    let dir_path = cache_dir_path(root, url);
    let steps = write_steps(root, url, expires, body);
    let none = Seq::<StepView>::empty();
    let one = seq![StepView::EnsureDir { path: root }];
    let two = one.push(StepView::EnsureDir { path: dir_path });
    assert(one.drop_last() == none);
    assert(two.drop_last() == one);
    assert(after_steps(dir, dir_path, none) == dir);
    assert(after_steps(dir, dir_path, one) == dir);
    assert(after_steps(dir, dir_path, two) == dir);
    if expires.len() == 0 {
        assert(steps == two);
    } else {
        let three = two.push(StepView::WriteFile { path: joined(dir_path, expires), body });
        assert(steps == three);
        assert(three.drop_last() == two);
        lemma_file_name_in_joined(dir_path, expires);
    }
}

/// The body that a read returns is that of the valid entry that is listed
/// last, and a miss where no entry is valid.
pub proof fn lemma_read_returns_last_valid(dir: Seq<FileModel>, now: i64)
    ensures
        (forall|i: int| 0 <= i < dir.len() ==> !name_valid(#[trigger] dir[i].name, now)) ==> read(
            dir,
            now,
        ) == Seq::<char>::empty() && after_read(dir, now) == Seq::<FileModel>::empty(),
        forall|i: int|
            0 <= i < dir.len() && name_valid(#[trigger] dir[i].name, now) && (forall|j: int|
                i < j < dir.len() ==> !name_valid(#[trigger] dir[j].name, now)) ==> read(dir, now)
                == dir[i].body,
{
    let names = names_of(dir);
    let mask = fresh_mask(names, now);
    let fresh = picked(mask);
    let bodies = bodies_at(dir, fresh);
    lemma_picked(mask);
    if forall|i: int| 0 <= i < dir.len() ==> !name_valid(#[trigger] dir[i].name, now) {
        if fresh.len() > 0 {
            assert(mask[fresh[0]]);
            assert(name_valid(dir[fresh[0]].name, now));
        }
        assert(bodies == Seq::<Option<Seq<char>>>::empty());
        assert(after_read(dir, now) == Seq::<FileModel>::empty());
    }
    assert forall|i: int|
        0 <= i < dir.len() && name_valid(#[trigger] dir[i].name, now) && (forall|j: int|
            i < j < dir.len() ==> !name_valid(#[trigger] dir[j].name, now)) implies read(dir, now)
        == dir[i].body by {
        assert(mask[i]);
        assert(fresh.contains(i));
        let k = choose|k: int| 0 <= k < fresh.len() && fresh[k] == i;
        let last = fresh.len() - 1;
        if k < last {
            assert(fresh[k] < fresh[last]);
            assert(mask[fresh[last]]);
            assert(name_valid(dir[fresh[last]].name, now));
        }
        assert(bodies.last() == Some(dir[i].body));
    }
}

/// A response that was written with an expiry comes back as it was written,
/// from a read at any instant before that expiry, as long as no other entry
/// that is valid at that instant is listed after it.
pub proof fn lemma_round_trip(
    dir: Seq<FileModel>,
    root: Seq<char>,
    url: Seq<char>,
    expires: Seq<char>,
    body: Seq<char>,
    now: i64,
)
    requires
        name_valid(expires, now),
        listed_last_among_valid(after_write(dir, root, url, expires, body), expires, now),
    ensures
        read(after_write(dir, root, url, expires, body), now) == body,
{
    let written = after_write(dir, root, url, expires, body);
    lemma_valid_name_is_not_empty(expires, now);
    lemma_after_write(dir, root, url, expires, body);
    assert(written == stored_in(dir, expires, body));
    // An entry of the written directory bears the name, and every such entry holds the body.
    let at = if exists|i: int| 0 <= i < dir.len() && dir[i].name == expires {
        choose|i: int| 0 <= i < dir.len() && dir[i].name == expires
    } else {
        dir.len() as int
    };
    assert(0 <= at < written.len() && written[at].name == expires);
    assert forall|i: int| 0 <= i < written.len() && written[i].name == expires implies written[i].body
        == body by {}
    // The last valid entry of the written directory is therefore one of them.
    let last = last_valid(written, now, written.len() as int);
    lemma_last_valid(written, now, written.len() as int);
    assert(name_valid(written[at].name, now));
    assert(0 <= last < written.len());
    if written[last].name != expires {
        let j = choose|j: int| last < j < written.len() && written[j].name == expires;
        assert(name_valid(written[j].name, now));
    }
    lemma_read_returns_last_valid(written, now);
}

/// A response that was written into a key directory that held no entry
/// valid at `now` comes back as it was written, from a read at `now`, as
/// long as `now` lies before its expiry.
pub proof fn lemma_round_trip_after_miss(
    dir: Seq<FileModel>,
    root: Seq<char>,
    url: Seq<char>,
    expires: Seq<char>,
    body: Seq<char>,
    now: i64,
)
    requires
        name_valid(expires, now),
        forall|i: int| 0 <= i < dir.len() ==> !name_valid(#[trigger] dir[i].name, now),
    ensures
        read(after_write(dir, root, url, expires, body), now) == body,
{
    lemma_valid_name_is_not_empty(expires, now);
    lemma_after_write(dir, root, url, expires, body);
    let written = after_write(dir, root, url, expires, body);
    assert(written == dir.push(FileModel { name: expires, body }));
    assert forall|i: int|
        0 <= i < written.len() && name_valid(#[trigger] written[i].name, now) && written[i].name
            != expires implies exists|j: int|
        i < j < written.len() && #[trigger] written[j].name == expires by {
        assert(written[i] == dir[i]);
    }
    lemma_round_trip(dir, root, url, expires, body, now);
}

/// The position of the last entry before `end` that is valid at `now`, and
/// -1 where there is none.
pub open spec fn last_valid(dir: Seq<FileModel>, now: i64, end: int) -> int
    decreases end,
{
    if end <= 0 {
        -1
    } else if name_valid(dir[end - 1].name, now) {
        end - 1
    } else {
        last_valid(dir, now, end - 1)
    }
}

/// [`last_valid`] is what its name says.
pub proof fn lemma_last_valid(dir: Seq<FileModel>, now: i64, end: int)
    requires
        0 <= end <= dir.len(),
    ensures
        -1 <= last_valid(dir, now, end) < end,
        last_valid(dir, now, end) >= 0 ==> name_valid(dir[last_valid(dir, now, end)].name, now),
        forall|j: int|
            last_valid(dir, now, end) < j < end ==> !name_valid(#[trigger] dir[j].name, now),
    decreases end,
{
    if end > 0 && !name_valid(dir[end - 1].name, now) {
        lemma_last_valid(dir, now, end - 1);
    }
}

/// A write without an expiry stores nothing: no step of its plan writes a
/// file, the key directory stays as it was, and a read that missed before
/// the write misses after it.
pub proof fn lemma_empty_expiry_bypasses_cache(
    dir: Seq<FileModel>,
    root: Seq<char>,
    url: Seq<char>,
    body: Seq<char>,
    now: i64,
)
    ensures
        forall|k: int|
            0 <= k < write_steps(root, url, Seq::empty(), body).len() ==> !(#[trigger] write_steps(
                root,
                url,
                Seq::empty(),
                body,
            )[k] is WriteFile),
        after_write(dir, root, url, Seq::empty(), body) == dir,
        !is_hit(read(dir, now)) ==> !is_hit(
            read(after_write(dir, root, url, Seq::empty(), body), now),
        ),
{
    lemma_after_write(dir, root, url, Seq::empty(), body);
}

/// What the server answers to a request.
pub struct Remote {
    pub expires: Option<Seq<char>>,
    pub body: Seq<char>,
}

/// What one fetch comes to: the body handed out, the number of requests
/// sent to the server, and the key directory as the fetch leaves it.
pub struct Invocation {
    pub body: Seq<char>,
    pub requests: nat,
    pub dir: Seq<FileModel>,
}

/// The body that an ended fetch hands out.
pub open spec fn returned(fetch: FetchView) -> Seq<char> {
    match fetch {
        FetchView::Return { body } => body,
        _ => Seq::empty(),
    }
}

/// One fetch of `url` at `now`, carried through against the key directory
/// `dir` and a server that answers `remote`. `stored` says whether the
/// cache write, where the fetch comes to one, succeeds.
pub open spec fn invocation(
    dir: Seq<FileModel>,
    root: Seq<char>,
    url: Seq<char>,
    now: i64,
    remote: Remote,
    stored: bool,
) -> Invocation {
    let swept = after_read(dir, now);
    let first = next(FetchView::ReadCache, OutcomeView::Cached { body: read(dir, now) });
    if first is Request {
        let second = next(
            first,
            OutcomeView::Response { expires: remote.expires, body: remote.body },
        );
        let third = next(second, OutcomeView::Stored { success: stored });
        Invocation {
            body: returned(third),
            requests: 1,
            dir: match second {
                FetchView::WriteCache { expires, body } if stored => after_write(
                    swept,
                    root,
                    url,
                    expires,
                    body,
                ),
                _ => swept,
            },
        }
    } else {
        Invocation { body: returned(first), requests: 0, dir: swept }
    }
}

/// A fetch that finds no valid entry sends exactly one request and hands out
/// what the server sent, whether or not the cache takes it. Where the cache
/// took it, and it came with a body, a fetch that follows at an instant
/// before its expiry finds it in the cache: it sends no request, and hands
/// out the same body.
pub proof fn lemma_miss_fetches_once(
    dir: Seq<FileModel>,
    root: Seq<char>,
    url: Seq<char>,
    now: i64,
    remote: Remote,
    stored: bool,
    later: i64,
    other: Remote,
    other_stored: bool,
)
    requires
        forall|i: int| 0 <= i < dir.len() ==> !name_valid(#[trigger] dir[i].name, now),
    ensures
        invocation(dir, root, url, now, remote, stored).requests == 1,
        invocation(dir, root, url, now, remote, stored).body == remote.body,
        stored && remote.expires is Some && name_valid(remote.expires->0, later)
            && remote.body.len() > 0 ==> {
            let following = invocation(
                invocation(dir, root, url, now, remote, stored).dir,
                root,
                url,
                later,
                other,
                other_stored,
            );
            &&& following.requests == 0
            &&& following.body == remote.body
        },
{
    lemma_read_returns_last_valid(dir, now);
    let swept = after_read(dir, now);
    assert(swept == Seq::<FileModel>::empty());
    if stored && remote.expires is Some && name_valid(remote.expires->0, later)
        && remote.body.len() > 0 {
        let expires = remote.expires->0;
        lemma_valid_name_is_not_empty(expires, later);
        lemma_after_write(swept, root, url, expires, remote.body);
        let left = invocation(dir, root, url, now, remote, stored).dir;
        assert(left == stored_in(swept, expires, remote.body));
        assert(left == seq![FileModel { name: expires, body: remote.body }]);
        lemma_read_returns_last_valid(left, later);
        assert(name_valid(left[0].name, later));
        assert(read(left, later) == remote.body);
    }
}

/// A fetch that finds a valid entry with a body sends no request, and hands
/// out what the read returned.
pub proof fn lemma_hit_fetches_nothing(
    dir: Seq<FileModel>,
    root: Seq<char>,
    url: Seq<char>,
    now: i64,
    remote: Remote,
    stored: bool,
)
    requires
        is_hit(read(dir, now)),
    ensures
        invocation(dir, root, url, now, remote, stored).requests == 0,
        invocation(dir, root, url, now, remote, stored).body == read(dir, now),
        invocation(dir, root, url, now, remote, stored).dir == after_read(dir, now),
{
}

} // verus!
