//! The domain error that index backends report and this crate passes on.

use vstd::prelude::*;
use iqdb_types::{IqdbError, VectorId};

verus! {

/// `iqdb_types::IqdbError`, the single error type of the index backends. This
/// crate never builds one itself: it only hands back the errors a backend
/// returned, so the type is carried through without looking inside.
#[verifier::external_type_specification]
#[verifier::external_body]
pub struct ExIqdbError(IqdbError);

/// `iqdb_types::VectorId`, the id naming a stored vector. It is only named in
/// specifications here, as the element of an index's id set.
#[verifier::external_type_specification]
#[verifier::external_body]
pub struct ExVectorId(VectorId);

} // verus!
