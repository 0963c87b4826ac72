use vstd::prelude::*;

use crate::error::PipelineError;
use crate::split::train_size;
use crate::table::Table;

verus! {

/// The outcome of checking training inputs by their row counts: an empty
/// training set comes first, then any disagreement between features and targets.
pub open spec fn training_check(x_train: nat, y_train: nat, x_test: nat, y_test: nat) -> Result<
    (),
    PipelineError,
> {
    if x_train == 0 {
        Err(PipelineError::EmptyDataset)
    } else if x_train != y_train || x_test != y_test {
        Err(PipelineError::DimensionMismatch)
    } else {
        Ok(())
    }
}

/// Checks that the training set is not empty and that each feature table has
/// as many rows as its target table, before the fitting routine runs.
pub fn check_training_sets(x_train: &Table, y_train: &Table, x_test: &Table, y_test: &Table) -> (r:
    Result<(), PipelineError>)
    ensures
        r == training_check(
            x_train.rows@.len(),
            y_train.rows@.len(),
            x_test.rows@.len(),
            y_test.rows@.len(),
        ),
{
    if x_train.height() == 0 {
        Err(PipelineError::EmptyDataset)
    } else if x_train.height() != y_train.height() || x_test.height() != y_test.height() {
        Err(PipelineError::DimensionMismatch)
    } else {
        Ok(())
    }
}

/// A split point of zero happens only on a table without rows; the training
/// set it leaves is empty, and training on it fails with `EmptyDataset`.
pub proof fn lemma_empty_split_fails_training(
    n: nat,
    num: nat,
    den: nat,
    y_train: nat,
    x_test: nat,
    y_test: nat,
)
    requires
        0 < num < den,
        train_size(n, num, den) == 0,
    ensures
        n == 0,
        training_check(0, y_train, x_test, y_test) == Err::<(), PipelineError>(
            PipelineError::EmptyDataset,
        ),
{
    if n > 0 {
        assert(n * (den - num) >= 1) by (nonlinear_arith)
            requires n > 0, den - num >= 1;
        assert((n * (den - num) + den - 1) / (den as int) >= 1) by (nonlinear_arith)
            requires n * (den - num) + den - 1 >= den, den > 0;
    }
}

} // verus!
