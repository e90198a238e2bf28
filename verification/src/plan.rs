//! File operations as values. The crate plans them; its caller carries
//! them out, one after the other, and tells the crate how each one went.

use vstd::prelude::*;

verus! {

/// One operation on the file system.
#[derive(Debug, Clone, PartialEq, Eq)]
pub enum FileOp {
    /// Delete the file or the directory tree at `path`, if there is one.
    Remove { path: String },
    /// Create the directory `path`, with the directories above it.
    CreateDir { path: String },
    /// Rename `from` to `to`. Where the rename fails, what was at `to` is
    /// left as it was.
    Move { from: String, to: String },
    /// Write `text` as the whole content of the file `path`.
    WriteText { path: String, text: String },
}

/// A file operation, over the texts of its paths.
pub enum FileOpView {
    Remove { path: Seq<char> },
    CreateDir { path: Seq<char> },
    Move { from: Seq<char>, to: Seq<char> },
    WriteText { path: Seq<char>, text: Seq<char> },
}

impl View for FileOp {
    type V = FileOpView;

    open spec fn view(&self) -> FileOpView {
        match *self {
            FileOp::Remove { path } => FileOpView::Remove { path: path@ },
            FileOp::CreateDir { path } => FileOpView::CreateDir { path: path@ },
            FileOp::Move { from, to } => FileOpView::Move { from: from@, to: to@ },
            FileOp::WriteText { path, text } => FileOpView::WriteText { path: path@, text: text@ },
        }
    }
}

/// What the failure of an operation means for the plan it belongs to.
#[derive(Debug, Clone, Copy, PartialEq, Eq)]
pub enum OnFailure {
    /// The plan has failed; no later step is carried out.
    Abort,
    /// The failure is noted and the plan goes on.
    Skip,
}

/// What to do after a step.
#[derive(Debug, Clone, Copy, PartialEq, Eq)]
pub enum Verdict {
    /// Go on with the next step.
    Continue,
    /// Stop: the plan has failed.
    Halt,
}

/// One step of a plan.
#[derive(Debug, Clone, PartialEq, Eq)]
pub struct Step {
    pub op: FileOp,
    pub on_failure: OnFailure,
}

/// A step, over the texts of its paths.
pub struct StepView {
    pub op: FileOpView,
    pub on_failure: OnFailure,
}

impl View for Step {
    type V = StepView;

    open spec fn view(&self) -> StepView {
        StepView { op: self.op@, on_failure: self.on_failure }
    }
}

/// The steps of a plan, over the texts of their paths.
pub open spec fn steps_view(steps: Seq<Step>) -> Seq<StepView> {
    Seq::new(steps.len(), |i: int| steps[i]@)
}

/// A step that stops the plan where it fails.
pub open spec fn required(op: FileOpView) -> StepView {
    StepView { op, on_failure: OnFailure::Abort }
}

/// A step whose failure is tolerated.
pub open spec fn optional(op: FileOpView) -> StepView {
    StepView { op, on_failure: OnFailure::Skip }
}

/// The verdict after a step: a plan halts exactly where a step that must
/// not fail has failed.
pub open spec fn verdict_of(on_failure: OnFailure, succeeded: bool) -> Verdict {
    if !succeeded && on_failure == OnFailure::Abort {
        Verdict::Halt
    } else {
        Verdict::Continue
    }
}

impl Step {
    /// What to do after this step, given whether its operation succeeded.
    pub fn verdict(&self, succeeded: bool) -> (v: Verdict)
        ensures
            v == verdict_of(self.on_failure, succeeded),
    {
        if succeeded {
            Verdict::Continue
        } else {
            match self.on_failure {
                OnFailure::Abort => Verdict::Halt,
                OnFailure::Skip => Verdict::Continue,
            }
        }
    }
}

} // verus!
