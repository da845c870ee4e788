//! Writing the cache: what storing a response takes.

use vstd::prelude::*;
use vstd::string::*;
use crate::expiry::encode;
use crate::layout::{cache_dir, cache_dir_path, entry_file_path, join};
use crate::plan::{Step, StepView};

verus! {

/// The plan that stores `body` as the response to `url` that expires at
/// `expires`, under the cache root `root`: the root and the key directory
/// are made sure of, in that order, and then the entry is written. With an
/// empty `expires` nothing is written: such a response is not cached, and
/// the plan still succeeds.
pub open spec fn write_steps(
    root: Seq<char>,
    url: Seq<char>,
    expires: Seq<char>,
    body: Seq<char>,
) -> Seq<StepView> {
    let dirs = seq![
        StepView::EnsureDir { path: root },
        StepView::EnsureDir { path: cache_dir_path(root, url) },
    ];
    if expires.len() == 0 {
        dirs
    } else {
        dirs.push(StepView::WriteFile { path: entry_file_path(root, url, expires), body })
    }
}

/// The plan that stores `body` as the response to `url` that expires at
/// `expires`, under the cache root `root`. The write has succeeded when the
/// whole plan was carried out.
pub fn cache_response(root: &str, url: &str, expires: &str, body: &str) -> (steps: Vec<Step>)
    ensures
        steps.deep_view() == write_steps(root@, url@, expires@, body@),
{
    let dir = cache_dir(root, url);
    let mut steps: Vec<Step> = Vec::new();
    steps.push(Step::EnsureDir { path: String::from_str(root) });
    match encode(expires) {
        Some(name) => {
            let file = join(dir.as_str(), name.as_str());
            steps.push(Step::EnsureDir { path: dir });
            steps.push(Step::WriteFile { path: file, body: String::from_str(body) });
        },
        None => {
            steps.push(Step::EnsureDir { path: dir });
        },
    }
    assert(steps.deep_view() == write_steps(root@, url@, expires@, body@));
    steps
}

/// A response without an expiry is never written; one with an expiry is
/// written once, as the last step, under its expiry as the file name.
pub proof fn lemma_write_steps(root: Seq<char>, url: Seq<char>, expires: Seq<char>, body: Seq<char>)
    ensures
        expires.len() == 0 ==> forall|k: int|
            0 <= k < write_steps(root, url, expires, body).len() ==> #[trigger] write_steps(
                root,
                url,
                expires,
                body,
            )[k] is EnsureDir,
        expires.len() > 0 ==> write_steps(root, url, expires, body).last() == (StepView::WriteFile {
            path: entry_file_path(root, url, expires),
            body,
        }),
        forall|k: int|
            0 <= k < write_steps(root, url, expires, body).len() - 1 ==> #[trigger] write_steps(
                root,
                url,
                expires,
                body,
            )[k] is EnsureDir,
{
}

} // verus!
