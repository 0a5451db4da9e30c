//! The failures of the transformation stages.

use vstd::prelude::*;

verus! {

/// The kind of a failure.
#[derive(Clone, Copy, Debug, PartialEq, Eq, Structural)]
pub enum ErrorKind {
    /// A column that a stage needs is absent, or is not of the type that the
    /// stage reads.
    SchemaError,
    /// A column cannot be brought to the type that a stage gives it.
    TypeError,
}

/// The stage in which a failure arose.
#[derive(Clone, Copy, Debug, PartialEq, Eq, Structural)]
pub enum Stage {
    /// Cleaning.
    Clean,
    /// Normalisation.
    Normalize,
    /// Validation.
    Validate,
}

/// A failure of a stage: its kind, the stage, and the column at fault.
#[derive(Debug)]
pub struct PipelineError {
    /// The kind of the failure.
    pub kind: ErrorKind,
    /// The stage that failed.
    pub stage: Stage,
    /// The name of the column at fault.
    pub column: String,
}

/// A failure as mathematics.
pub struct Failure {
    pub kind: ErrorKind,
    pub stage: Stage,
    pub column: Seq<char>,
}

impl View for PipelineError {
    type V = Failure;

    open spec fn view(&self) -> Failure {
        Failure { kind: self.kind, stage: self.stage, column: self.column@ }
    }
}

impl PipelineError {
    /// The failure of `stage` of kind `kind` at the column named `column`.
    pub fn new(kind: ErrorKind, stage: Stage, column: &str) -> (e: PipelineError)
        ensures
            e@ == (Failure { kind, stage, column: column@ }),
    {
        PipelineError { kind, stage, column: column.to_owned() }
    }
}

} // verus!
