use vstd::prelude::*;

verus! {

/// The closed set of failures the trainer can report.
///
/// Load-time problems (`IoError`, `ParseError`) abort a run before training
/// starts; `ShapeMismatch` marks a dimension disagreement in a matrix
/// product; `ConstructionError` marks a request for a network with a zero
/// dimension.
#[derive(Clone, Copy, Debug, PartialEq, Eq, Structural)]
pub enum NnError {
    /// The data source could not be read.
    IoError,
    /// A numeric field or label was malformed; `row` and `col` are 1-based
    /// positions in the data source (`col` is 0 for a label field).
    ParseError { row: usize, col: usize },
    /// Two dimensions that had to agree did not.
    ShapeMismatch { expected: usize, found: usize },
    /// A network dimension was requested as zero.
    ConstructionError,
}

} // verus!
