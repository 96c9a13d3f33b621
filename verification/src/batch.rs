//! The outcome of a bulk insertion into an index the caller already holds.

use vstd::prelude::*;
use iqdb_types::IqdbError;

verus! {

/// What a bulk insertion of `supplied` items reports, given what the backend's
/// batch insert returned: the number of items on success, or the backend's
/// error unchanged.
pub fn inserted_count(outcome: Result<(), IqdbError>, supplied: usize) -> (r: Result<usize, IqdbError>)
    ensures
        outcome is Ok ==> r == Ok::<usize, IqdbError>(supplied),
        forall|e: IqdbError| outcome == Err::<(), IqdbError>(e) ==> r == Err::<usize, IqdbError>(e),
{
    match outcome {
        Ok(()) => Ok(supplied),
        Err(error) => Err(error),
    }
}

} // verus!
