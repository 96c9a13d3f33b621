//! The crate's version.

use vstd::prelude::*;

verus! {

/// The version of this crate, as published in `Cargo.toml`: a
/// `major.minor.patch` SemVer core, for diagnostics and version-skew checks
/// across the iqdb crate family.
pub const VERSION: &'static str = "0.6.0";

} // verus!
