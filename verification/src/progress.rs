//! Progress snapshots reported while a parallel build completes its shards.

use vstd::prelude::*;
use std::sync::atomic::{AtomicUsize, Ordering};

verus! {

/// A progress snapshot delivered each time a shard finishes building.
///
/// One snapshot is reported per finished shard, so `shards_completed` climbs
/// from `1` to `shards_total`.
#[derive(Clone, Copy, Debug, PartialEq, Eq, Structural)]
pub struct BuildProgress {
    /// How many shards have finished building so far.
    pub shards_completed: usize,
    /// The total number of shards in this build.
    pub shards_total: usize,
}

/// The snapshot reported by the worker that found `completed_before` shards
/// already counted when it counted its own.
pub open spec fn completion_report(completed_before: int, shards_total: usize) -> BuildProgress {
    BuildProgress { shards_completed: (completed_before + 1) as usize, shards_total }
}

impl BuildProgress {
    /// The snapshot for a shard that has just finished, given the value the
    /// shared completion counter held before this shard was counted.
    pub fn after_completion(completed_before: usize, shards_total: usize) -> (p: BuildProgress)
        requires
            completed_before < shards_total,
        ensures
            p == completion_report(completed_before as int, shards_total),
            p.shards_completed == completed_before + 1,
            p.shards_total == shards_total,
            1 <= p.shards_completed <= p.shards_total,
    {
        BuildProgress { shards_completed: completed_before + 1, shards_total }
    }

    /// What a worker reports once it has counted its shard, given the value
    /// the shared completion counter held before: the snapshot for that
    /// shard, or nothing when the counter had already reached `shards_total`.
    pub fn for_counter_value(completed_before: usize, shards_total: usize) -> (r: Option<BuildProgress>)
        ensures
            r == snapshot_for(completed_before as int, shards_total),
            completed_before < shards_total ==> r == Some(
                BuildProgress { shards_completed: (completed_before + 1) as usize, shards_total },
            ),
            completed_before >= shards_total ==> r is None,
    {
        if completed_before < shards_total {
            Some(BuildProgress::after_completion(completed_before, shards_total))
        } else {
            None
        }
    }
}

/// What is reported when the shared completion counter held `completed_before`
/// before a worker counted its shard.
pub open spec fn snapshot_for(completed_before: int, shards_total: usize) -> Option<BuildProgress> {
    if completed_before < shards_total {
        Some(completion_report(completed_before, shards_total))
    } else {
        None
    }
}

/// Every count below the total yields a report: the shard counted when the
/// counter held `before` is reported as the `before + 1`-th of `shards_total`,
/// whatever the total (a single-shard build included). Only a counter that has
/// already reached the total yields none.
pub proof fn lemma_every_unfinished_count_is_reported(before: int, shards_total: usize)
    requires
        0 <= before,
    ensures
        before < shards_total ==> snapshot_for(before, shards_total) is Some,
        before < shards_total ==> snapshot_for(before, shards_total)->0.shards_completed == before + 1,
        before < shards_total ==> snapshot_for(before, shards_total)->0.shards_total == shards_total,
        before >= shards_total ==> snapshot_for(before, shards_total) is None,
{
}

/// Two workers that took different counter values below the total report
/// different completion counts, and the later value the later count.
pub proof fn lemma_distinct_counts_give_distinct_reports(a: int, b: int, shards_total: usize)
    requires
        0 <= a < b < shards_total,
    ensures
        snapshot_for(a, shards_total) is Some,
        snapshot_for(b, shards_total) is Some,
        snapshot_for(a, shards_total)->0.shards_completed < snapshot_for(b, shards_total)->0.shards_completed,
{
}

/// Count one finished shard on the completion counter shared by the workers
/// of a build, and give the snapshot to report for it.
///
/// Every shard is counted once, so the counter is below `shards_total` before
/// each count and a snapshot is always produced; should the counter ever have
/// reached `shards_total` already, nothing is reported. Which value the
/// counter held depends on how the workers interleave, so the result is the
/// report for some counter value.
pub fn count_completion(completed: &AtomicUsize, shards_total: usize) -> (r: Option<BuildProgress>)
    ensures
        exists|before: int| 0 <= before && r == #[trigger] snapshot_for(before, shards_total),
        r matches Some(p) ==> p.shards_total == shards_total && 1 <= p.shards_completed <= shards_total,
{
    let before = completed.fetch_add(1, Ordering::Relaxed);
    BuildProgress::for_counter_value(before, shards_total)
}

/// Some worker among those that took the counter values `before` reports
/// completion count `c`.
pub open spec fn reported_by_some_worker(before: Seq<int>, shards_total: usize, c: int) -> bool {
    exists|w: int| 0 <= w < before.len() && #[trigger] completion_report(before[w], shards_total).shards_completed == c
}

/// When `total` workers each take a distinct counter value (the counter starts
/// at zero and every shard adds one), the reported completions are exactly
/// `1..=total`: no count is reported twice and none is skipped.
pub proof fn lemma_reports_are_exact(total: usize, before: Seq<int>)
    requires
        before.len() == total,
        forall|w: int| 0 <= w < total ==> 0 <= #[trigger] before[w] < total,
        forall|v: int, w: int| 0 <= v < w < total ==> before[v] != before[w],
    ensures
        forall|w: int| 0 <= w < total ==> 1 <= #[trigger] completion_report(before[w], total).shards_completed <= total,
        forall|v: int, w: int|
            0 <= v < w < total ==> completion_report(before[v], total).shards_completed
                != completion_report(before[w], total).shards_completed,
        forall|c: int| 1 <= c <= total ==> #[trigger] reported_by_some_worker(before, total, c),
{
    assert forall|c: int| 1 <= c <= total implies #[trigger] reported_by_some_worker(before, total, c) by {
        lemma_distinct_values_cover(before, total as int, c - 1);
        let w = choose|w: int| 0 <= w < total && before[w] == c - 1;
        assert(completion_report(before[w], total).shards_completed == c);
    }
}

/// `n` distinct values drawn from `0..n` take every value in `0..n`.
proof fn lemma_distinct_values_cover(s: Seq<int>, n: int, target: int)
    requires
        s.len() == n,
        0 <= target < n,
        forall|w: int| 0 <= w < n ==> 0 <= #[trigger] s[w] < n,
        forall|v: int, w: int| 0 <= v < w < n ==> s[v] != s[w],
    ensures
        exists|w: int| 0 <= w < n && s[w] == target,
{
    let values = s.to_set();
    let range = Set::new(|x: int| 0 <= x < n);
    if !(exists|w: int| 0 <= w < n && s[w] == target) {
        let smaller = range.remove(target);
        assert(values.subset_of(smaller)) by {
            assert forall|x: int| values.contains(x) implies smaller.contains(x) by {
                let w = choose|w: int| 0 <= w < s.len() && s[w] == x;
            }
        }
        vstd::set_lib::lemma_int_range(0, n);
        assert(range =~= vstd::set_lib::set_int_range(0, n));
        vstd::set_lib::lemma_len_subset(values, smaller);
        s.unique_seq_to_set();
        assert(false);
    }
}

} // verus!
