//! Plans: what has to be done to the file system, in order. A plan is
//! carried out step by step: [`begin`] and [`advance`] say which step is
//! next, and a step that fails ends the plan.

use vstd::prelude::*;

verus! {

/// One step of a plan.
#[derive(Debug, PartialEq, Eq)]
pub enum Step {
    /// Make sure that a directory exists at `path`, creating it if it is
    /// missing.
    EnsureDir { path: String },
    /// Write `body` to the file at `path`, replacing what the file held.
    WriteFile { path: String, body: String },
}

/// A [`Step`] as a mathematical value.
pub enum StepView {
    EnsureDir { path: Seq<char> },
    WriteFile { path: Seq<char>, body: Seq<char> },
}

impl View for Step {
    type V = StepView;

    open spec fn view(&self) -> StepView {
        match self {
            Step::EnsureDir { path } => StepView::EnsureDir { path: path@ },
            Step::WriteFile { path, body } => StepView::WriteFile { path: path@, body: body@ },
        }
    }
}

impl DeepView for Step {
    type V = StepView;

    open spec fn deep_view(&self) -> StepView {
        self@
    }
}

/// How far carrying a plan out has come.
#[derive(Clone, Copy, Debug, PartialEq, Eq)]
pub enum Progress {
    /// The step at position `step` is to be done next; those before it are
    /// done.
    Next { step: usize },
    /// Nothing more is to be done: `done` steps were done, and the step
    /// after them, where there is one, has failed.
    Finished { done: usize },
}

/// A [`Progress`] as a mathematical value.
pub enum ProgressView {
    Next { step: int },
    Finished { done: int },
}

impl View for Progress {
    type V = ProgressView;

    open spec fn view(&self) -> ProgressView {
        match self {
            Progress::Next { step } => ProgressView::Next { step: *step as int },
            Progress::Finished { done } => ProgressView::Finished { done: *done as int },
        }
    }
}

/// Where a plan of `len` steps stands when `done` of them are done and none
/// has failed: at its next step, or at its end.
pub open spec fn standing(len: int, done: int) -> ProgressView {
    if done < len {
        ProgressView::Next { step: done }
    } else {
        ProgressView::Finished { done: len }
    }
}

/// Where a plan of `len` steps stands after its step at position `step`
/// ended: a step that failed ends the plan there, with the steps before it
/// done, and a step that succeeded leads to the one after it.
pub open spec fn advanced(len: int, step: int, succeeded: bool) -> ProgressView {
    if step < len && !succeeded {
        ProgressView::Finished { done: step }
    } else {
        standing(len, step + 1)
    }
}

/// The number of steps done when a plan of `len` steps is carried out from
/// position `at` on, `outcomes` saying of each step whether it succeeds.
pub open spec fn steps_done(len: int, outcomes: Seq<bool>, at: int) -> int
    decreases len - at,
{
    match standing(len, at) {
        ProgressView::Next { step } => match advanced(len, step, outcomes[step]) {
            ProgressView::Next { step: following } => steps_done(len, outcomes, following),
            ProgressView::Finished { done } => done,
        },
        ProgressView::Finished { done } => done,
    }
}

/// A plan has been carried out when none of its steps is left.
pub open spec fn carried_out(steps: Seq<StepView>, done: int) -> bool {
    done >= steps.len()
}

/// Whether a plan of which `done` steps were done has been carried out.
pub fn completed(steps: &Vec<Step>, done: usize) -> (complete: bool)
    ensures
        complete == carried_out(steps.deep_view(), done as int),
{
    done >= steps.len()
}

/// How carrying out `steps` begins: with the first step, where there is
/// one.
pub fn begin(steps: &Vec<Step>) -> (progress: Progress)
    ensures
        progress@ == standing(steps.deep_view().len() as int, 0),
{
    if steps.len() > 0 {
        Progress::Next { step: 0 }
    } else {
        Progress::Finished { done: 0 }
    }
}

/// How carrying out `steps` goes on after the step at position `step`
/// ended, well or not.
pub fn advance(steps: &Vec<Step>, step: usize, succeeded: bool) -> (progress: Progress)
    ensures
        progress@ == advanced(steps.deep_view().len() as int, step as int, succeeded),
{
    if step < steps.len() {
        if !succeeded {
            Progress::Finished { done: step }
        } else if step + 1 < steps.len() {
            Progress::Next { step: step + 1 }
        } else {
            Progress::Finished { done: steps.len() }
        }
    } else {
        Progress::Finished { done: steps.len() }
    }
}

/// A plan is carried out up to its first step that fails, and no further:
/// the steps done all succeeded, the step after them failed where one is
/// left, and the plan is carried out exactly when every step succeeded.
pub proof fn lemma_steps_done(len: int, outcomes: Seq<bool>, at: int)
    requires
        0 <= at <= len,
        outcomes.len() == len,
    ensures
        at <= steps_done(len, outcomes, at) <= len,
        forall|k: int| at <= k < steps_done(len, outcomes, at) ==> outcomes[k],
        steps_done(len, outcomes, at) < len ==> !outcomes[steps_done(len, outcomes, at)],
    decreases len - at,
{
    if at < len && outcomes[at] && at + 1 < len {
        lemma_steps_done(len, outcomes, at + 1);
    }
}

} // verus!
