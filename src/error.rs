//! Errors of the analysis registry and of dynamic-output registration.

use vstd::prelude::*;

verus! {

/// What can go wrong while a rule evaluation registers its work.
#[derive(Clone, Copy, Debug, PartialEq, Eq, Structural)]
pub enum AnalysisError {
    /// An artifact was declared with the filename `""` or `"."`.
    DeclaredEmptyFileName,
    /// A name is not a forward-relative path.
    InvalidPath,
    /// A path was claimed, or an artifact declared there, before.
    PathConflict,
    /// An artifact that cannot be bound here, because it is bound already
    /// or belongs to no artifact of this registry, was used where an
    /// unbound output is needed.
    AlreadyBound,
    /// An artifact was used with an output type it was not declared with.
    WrongOutputType,
    /// A dynamic output was registered with no outputs.
    EmptyOutput,
    /// A declared artifact was never bound by the end of the evaluation.
    UnboundArtifact,
    /// A registration has no stored value in the frozen storage.
    MissingValue,
    /// The value storage was published twice for one evaluation.
    StorageAlreadySet,
    /// The frozen module holds no published value storage.
    StorageNotSet,
}

impl AnalysisError {
    /// Whether this is an internal error: a programming mistake rather
    /// than a misuse by the rule author.
    pub open spec fn spec_is_internal(&self) -> bool {
        match self {
            AnalysisError::MissingValue | AnalysisError::StorageAlreadySet
            | AnalysisError::StorageNotSet => true,
            _ => false,
        }
    }

    /// Whether this is an internal error: a programming mistake rather
    /// than a misuse by the rule author.
    pub fn is_internal(&self) -> (r: bool)
        ensures
            r == self.spec_is_internal(),
    {
        match self {
            AnalysisError::MissingValue | AnalysisError::StorageAlreadySet
            | AnalysisError::StorageNotSet => true,
            _ => false,
        }
    }
}

} // verus!
