//! The cache root: `.config/nwscache` under the home directory, or, where
//! that cannot be had, a path to which nothing can be written, so that the
//! cache does nothing.

use vstd::prelude::*;
use vstd::string::*;
use crate::layout::{join, joined};
use crate::plan::{carried_out, completed, Step, StepView};

verus! {

/// The directory under the home directory that holds configuration.
pub const CONFIG_DIR_NAME: &'static str = ".config";

/// The directory under the configuration directory that is the cache root.
pub const CACHE_DIR_NAME: &'static str = "nwscache";

/// The cache root of a cache that does nothing: every write under it fails.
pub const DISCARD_PATH: &'static str = "/dev/null";

/// The configuration directory under `home`.
pub open spec fn config_base_path(home: Seq<char>) -> Seq<char> {
    joined(home, CONFIG_DIR_NAME@)
}

/// The cache root under `home`.
pub open spec fn config_dir_path(home: Seq<char>) -> Seq<char> {
    joined(config_base_path(home), CACHE_DIR_NAME@)
}

/// The plan that makes the cache root under `home`: the configuration
/// directory first, then the cache root in it. Without a home directory
/// there is nothing to do.
pub open spec fn config_steps(home: Seq<char>) -> Seq<StepView> {
    if home.len() == 0 {
        Seq::empty()
    } else {
        seq![
            StepView::EnsureDir { path: config_base_path(home) },
            StepView::EnsureDir { path: config_dir_path(home) },
        ]
    }
}

/// The cache root, given the home directory and how many steps of
/// [`config_steps`] were done: the directory under `home` when there is a
/// home directory and the plan was carried out, the discard path otherwise.
pub open spec fn config_dir(home: Seq<char>, done: int) -> Seq<char> {
    if home.len() > 0 && carried_out(config_steps(home), done) {
        config_dir_path(home)
    } else {
        DISCARD_PATH@
    }
}

/// The plan that makes the cache root under the home directory `home`, which
/// is empty where the environment names none.
pub fn config_dir_steps(home: &str) -> (steps: Vec<Step>)
    ensures
        steps.deep_view() == config_steps(home@),
{
    let mut steps: Vec<Step> = Vec::new();
    if !home.is_empty() {
        let base = join(home, CONFIG_DIR_NAME);
        let cache = join(base.as_str(), CACHE_DIR_NAME);
        steps.push(Step::EnsureDir { path: base });
        steps.push(Step::EnsureDir { path: cache });
    }
    assert(steps.deep_view() == config_steps(home@));
    steps
}

/// The cache root, given the home directory `home` and the number `done` of
/// steps of its plan that were done. A failure to make the directories is
/// not an error: the cache then does nothing.
pub fn get_config_dir(home: &str, done: usize) -> (root: String)
    ensures
        root@ == config_dir(home@, done as int),
{
    let steps = config_dir_steps(home);
    if !home.is_empty() && completed(&steps, done) {
        let base = join(home, CONFIG_DIR_NAME);
        join(base.as_str(), CACHE_DIR_NAME)
    } else {
        String::from_str(DISCARD_PATH)
    }
}

} // verus!
