//! Pending filesystem mutations and their dispositions.

use vstd::prelude::*;
use crate::paths::path_clone;

verus! {

/// A planned file mutation. Actions are immutable once constructed; the
/// whole list is built before any of it is executed.
pub enum Action {
    /// Copy the source file's text to the target unchanged.
    CopyFile { source: Vec<String>, target: Vec<String> },
    /// Copy the source file's text to the target with the import lines of
    /// the package `remove_prefix` stripped.
    CopyFileTransformed { source: Vec<String>, target: Vec<String>, remove_prefix: String },
    /// Write the given text to the target.
    WriteFile { content: String, target: Vec<String> },
}

/// Mathematical image of an [`Action`].
#[verifier::ext_equal]
pub enum ActionV {
    CopyFile { source: Seq<Seq<char>>, target: Seq<Seq<char>> },
    CopyFileTransformed { source: Seq<Seq<char>>, target: Seq<Seq<char>>, remove_prefix: Seq<char> },
    WriteFile { content: Seq<char>, target: Seq<Seq<char>> },
}

impl View for Action {
    type V = ActionV;

    open spec fn view(&self) -> ActionV {
        match self {
            Action::CopyFile { source, target } => ActionV::CopyFile {
                source: source.deep_view(),
                target: target.deep_view(),
            },
            Action::CopyFileTransformed { source, target, remove_prefix } => {
                ActionV::CopyFileTransformed {
                    source: source.deep_view(),
                    target: target.deep_view(),
                    remove_prefix: remove_prefix@,
                }
            },
            Action::WriteFile { content, target } => ActionV::WriteFile {
                content: content@,
                target: target.deep_view(),
            },
        }
    }
}

impl DeepView for Action {
    type V = ActionV;

    open spec fn deep_view(&self) -> ActionV {
        self.view()
    }
}

/// The target path of an action.
pub open spec fn target_of(a: ActionV) -> Seq<Seq<char>> {
    match a {
        ActionV::CopyFile { target, .. } => target,
        ActionV::CopyFileTransformed { target, .. } => target,
        ActionV::WriteFile { target, .. } => target,
    }
}

/// No two actions share a target path.
pub open spec fn targets_distinct(acts: Seq<ActionV>) -> bool {
    forall|i: int, j: int|
        0 <= i < j < acts.len() ==> target_of(acts[i]) != target_of(acts[j])
}

impl Action {
    /// The target path of this action.
    pub fn target(&self) -> (t: &Vec<String>)
        ensures
            t.deep_view() == target_of(self@),
    {
        match self {
            Action::CopyFile { target, .. } => target,
            Action::CopyFileTransformed { target, .. } => target,
            Action::WriteFile { target, .. } => target,
        }
    }

    /// Structural copy of the action.
    pub fn duplicate(&self) -> (r: Action)
        ensures
            r@ == self@,
    {
        match self {
            Action::CopyFile { source, target } => Action::CopyFile {
                source: path_clone(source),
                target: path_clone(target),
            },
            Action::CopyFileTransformed { source, target, remove_prefix } => {
                Action::CopyFileTransformed {
                    source: path_clone(source),
                    target: path_clone(target),
                    remove_prefix: remove_prefix.clone(),
                }
            },
            Action::WriteFile { content, target } => Action::WriteFile {
                content: content.clone(),
                target: path_clone(target),
            },
        }
    }
}

/// The disposition of one action against the current target state,
/// computed at execution time.
#[derive(Clone, Copy, PartialEq, Eq, Structural, Debug)]
pub enum ActionPlan {
    /// The target does not exist yet.
    Create,
    /// The target exists with different content.
    Overwrite,
    /// The target already holds exactly the prospective content.
    SkipSameContent,
}

} // verus!
