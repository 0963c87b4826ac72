use vstd::prelude::*;

verus! {

/// The pipeline's error taxonomy.
#[derive(Debug, Clone, Copy, PartialEq, Eq, Structural)]
pub enum PipelineError {
    /// Network or object-store transfer failed.
    Transfer,
    /// Credentials were missing or refused.
    Authentication,
    /// The requested remote object does not exist.
    NotFound,
    /// Content could not be decoded into a table.
    Parse,
    /// A table lacks a column that the schema requires.
    Schema,
    /// The training set has no rows.
    EmptyDataset,
    /// Feature and target row counts disagree.
    DimensionMismatch,
    /// A prediction request is malformed.
    Validation,
}

} // verus!
