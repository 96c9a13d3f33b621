//! Bulk index construction for the iqdb vector-database spine: the settings a
//! builder constructs every index with, how the input is cut into shards for a
//! parallel build, the progress snapshots reported as
//! shards finish, the fold that merges built shards back into one index, and
//! the count a bulk insertion reports.

pub mod batch;
pub mod builder;
pub mod errors;
pub mod merge;
pub mod plan;
pub mod progress;
pub mod version;

pub use crate::batch::inserted_count;
pub use crate::builder::BuildPlan;
pub use crate::merge::{Mergeable, merge};
pub use crate::plan::{resolve_shards, split_items};
pub use crate::progress::BuildProgress;
pub use crate::version::VERSION;
