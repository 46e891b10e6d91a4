//! Why a schema has no node tree.

use vstd::prelude::*;

verus! {

/// Why a schema has no node tree. Each error names the fragment in which it
/// arose, by the label under which that fragment was built.
#[derive(Debug, PartialEq, Eq)]
pub enum BuildError {
    /// A reference names a definition that the table does not hold.
    UnresolvedReference { from: String, name: String },
    /// A reference names a definition that is being expanded: it refers to
    /// itself, directly or through others.
    CyclicReference { from: String, name: String },
    /// An `allOf` that has not exactly one branch, or two sets of
    /// alternatives to unify.
    UnsupportedComposition { from: String },
    /// Two keywords of one fragment ask for shapes that cannot be reconciled.
    MergeConflict { from: String },
}

/// The mathematical value of a [`BuildError`].
pub enum BuildErrorView {
    UnresolvedReference { from: Seq<char>, name: Seq<char> },
    CyclicReference { from: Seq<char>, name: Seq<char> },
    UnsupportedComposition { from: Seq<char> },
    MergeConflict { from: Seq<char> },
}

impl View for BuildError {
    type V = BuildErrorView;

    open spec fn view(&self) -> BuildErrorView {
        match self {
            BuildError::UnresolvedReference { from, name } => BuildErrorView::UnresolvedReference {
                from: from@,
                name: name@,
            },
            BuildError::CyclicReference { from, name } => BuildErrorView::CyclicReference {
                from: from@,
                name: name@,
            },
            BuildError::UnsupportedComposition { from } => BuildErrorView::UnsupportedComposition {
                from: from@,
            },
            BuildError::MergeConflict { from } => BuildErrorView::MergeConflict { from: from@ },
        }
    }
}

} // verus!
