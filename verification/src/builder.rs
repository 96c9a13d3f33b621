//! The reusable settings an index builder constructs every index with.

use vstd::prelude::*;
use iqdb_types::DistanceMetric;

verus! {

/// `iqdb_types::DistanceMetric`, the metric an index compares vectors with.
/// It is carried and copied as a whole here.
#[verifier::external_type_specification]
#[verifier::external_body]
pub struct ExDistanceMetric(DistanceMetric);

/// What a builder constructs every index with: the dimensionality, the
/// distance metric, the backend's own configuration, and the shard count of a
/// parallel build (`None` leaves it to the machine's parallelism).
///
/// A plan is cheap to clone and reuse: the same plan builds many indexes.
pub struct BuildPlan<C> {
    dim: usize,
    metric: DistanceMetric,
    config: C,
    shards: Option<usize>,
}

impl<C> BuildPlan<C> {
    /// The dimensionality of the indexes this plan builds.
    pub closed spec fn dim_spec(&self) -> usize {
        self.dim
    }

    /// The distance metric of the indexes this plan builds.
    pub closed spec fn metric_spec(&self) -> DistanceMetric {
        self.metric
    }

    /// The backend configuration of the indexes this plan builds.
    pub closed spec fn config_spec(&self) -> C {
        self.config
    }

    /// The requested shard count, or `None` for "auto".
    pub closed spec fn shards_spec(&self) -> Option<usize> {
        self.shards
    }

    /// A plan for `dim`-dimensional vectors under `metric` with an explicit
    /// backend configuration, and the shard count left to "auto".
    pub fn with_config(dim: usize, metric: DistanceMetric, config: C) -> (p: Self)
        ensures
            p.dim_spec() == dim,
            p.metric_spec() == metric,
            p.config_spec() == config,
            p.shards_spec() == None::<usize>,
    {
        BuildPlan { dim, metric, config, shards: None }
    }

    /// The dimensionality of the indexes this plan builds.
    pub fn dim(&self) -> (d: usize)
        ensures
            d == self.dim_spec(),
    {
        self.dim
    }

    /// The distance metric of the indexes this plan builds.
    pub fn metric(&self) -> (m: DistanceMetric)
        ensures
            m == self.metric_spec(),
    {
        self.metric
    }

    /// The backend configuration of the indexes this plan builds.
    pub fn config(&self) -> (c: &C)
        ensures
            *c == self.config_spec(),
    {
        &self.config
    }

    /// The requested shard count, or `None` when it is left to "auto".
    pub fn shards(&self) -> (k: Option<usize>)
        ensures
            k == self.shards_spec(),
    {
        self.shards
    }

    /// The same plan with the shard count of a parallel build set to `shards`,
    /// stored as given (a count of `0` is treated as `1` when the build runs).
    pub fn with_shards(self, shards: usize) -> (p: Self)
        ensures
            p.shards_spec() == Some(shards),
            p.dim_spec() == self.dim_spec(),
            p.metric_spec() == self.metric_spec(),
            p.config_spec() == self.config_spec(),
    {
        BuildPlan { shards: Some(shards), ..self }
    }
}

impl<C: Default> BuildPlan<C> {
    /// A plan for `dim`-dimensional vectors under `metric` with the backend's
    /// default configuration, and the shard count left to "auto".
    pub fn new(dim: usize, metric: DistanceMetric) -> (p: Self)
        ensures
            p.dim_spec() == dim,
            p.metric_spec() == metric,
            call_ensures(C::default, (), p.config_spec()),
            p.shards_spec() == None::<usize>,
    {
        BuildPlan::with_config(dim, metric, C::default())
    }
}

impl<C: Clone> Clone for BuildPlan<C> {
    /// A copy of the plan: the same dimensionality, metric and shard count,
    /// and a clone of the backend configuration.
    fn clone(&self) -> (p: Self)
        ensures
            p.dim_spec() == self.dim_spec(),
            p.metric_spec() == self.metric_spec(),
            p.shards_spec() == self.shards_spec(),
            cloned(self.config_spec(), p.config_spec()),
    {
        BuildPlan { dim: self.dim, metric: self.metric, config: self.config.clone(), shards: self.shards }
    }
}

} // verus!
