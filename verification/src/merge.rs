//! Combining independently built sub-indexes into one.

use vstd::prelude::*;
use iqdb_types::{IqdbError, VectorId};

verus! {

/// A backend that can absorb another instance of itself.
///
/// Implementations promise: `other` must share `self`'s dimension and metric
/// (otherwise `InvalidConfig`); after `Ok`, every id searchable in either
/// input is searchable in `self`; an id held by both inputs gives `Duplicate`.
/// On `Err`, `self` may be left partially merged.
///
/// A backend whose implementation is proved describes itself through three spec
/// functions: `ids` (the ids searchable in an index), `same_shape` (whether
/// two indexes share dimension and metric) and `merge_step` (which
/// results a merge may leave and return), and its `merge` is then held to
/// them. A backend that does not describe itself keeps the defaults, under
/// which the contract of `merge` says nothing of it.
pub trait Mergeable: Sized {
    /// The ids searchable in this index.
    open spec fn ids(&self) -> Set<VectorId> {
        Set::empty()
    }

    /// Whether `other` shares this index's dimension and metric.
    open spec fn same_shape(&self, other: &Self) -> bool {
        true
    }

    /// Whether merging `other` into `before` may leave `after` and return
    /// `result`.
    open spec fn merge_step(before: Self, other: Self, after: Self, result: Result<(), IqdbError>) -> bool {
        true
    }

    /// Absorb `other` into `self`, leaving `self` searchable over the union of
    /// both.
    fn merge(&mut self, other: Self) -> (r: Result<(), IqdbError>)
        ensures
            Self::merge_step(*old(self), other, *final(self), r),
            r is Ok ==> old(self).ids().union(other.ids()).subset_of(final(self).ids()),
            !old(self).ids().disjoint(other.ids()) ==> r is Err,
            !old(self).same_shape(&other) ==> r is Err,
            r is Ok ==> forall|s: Self| #[trigger] final(self).same_shape(&s) == old(self).same_shape(&s);
}

/// Whether folding `rest`, in order, into `acc` may give `result`: each index
/// is merged into the accumulator in turn, and the first merge that returns an
/// error ends the fold with that error unchanged.
pub open spec fn fold_merge<I: Mergeable>(acc: I, rest: Seq<I>, result: Result<I, IqdbError>) -> bool
    decreases rest.len(),
{
    if rest.len() == 0 {
        result == Ok::<I, IqdbError>(acc)
    } else {
        exists|after: I, step: Result<(), IqdbError>|
            #[trigger] I::merge_step(acc, rest[0], after, step) && match step {
                Ok(_) => fold_merge(after, rest.drop_first(), result),
                Err(e) => result == Err::<I, IqdbError>(e),
            }
    }
}

/// Fold a collection of sub-indexes into one by merging them in order.
///
/// Returns `Ok(None)` for an empty input; otherwise merges every later index
/// into the first (in input order) and returns it, or the first merge error.
pub fn merge<I: Mergeable>(indexes: Vec<I>) -> (r: Result<Option<I>, IqdbError>)
    ensures
        indexes@.len() == 0 <==> r == Ok::<Option<I>, IqdbError>(None),
        indexes@.len() == 1 ==> r == Ok::<Option<I>, IqdbError>(Some(indexes@[0])),
        indexes@.len() >= 1 ==> (r is Err || r matches Ok(Some(_))),
        r matches Ok(Some(m)) ==> fold_merge(indexes@[0], indexes@.drop_first(), Ok(m)),
        r matches Err(e) ==> fold_merge(indexes@[0], indexes@.drop_first(), Err(e)),
        r matches Ok(Some(m)) ==> forall|j: int|
            0 <= j < indexes@.len() ==> #[trigger] indexes@[j].ids().subset_of(m.ids()),
        r matches Ok(Some(m)) ==> forall|j: int, l: int|
            0 <= j < l < indexes@.len() ==> #[trigger] indexes@[j].ids().disjoint(#[trigger] indexes@[l].ids()),
        r matches Ok(Some(m)) ==> forall|j: int|
            0 < j < indexes@.len() ==> #[trigger] indexes@[0].same_shape(&indexes@[j]),
        r matches Ok(Some(m)) ==> forall|s: I| #[trigger] m.same_shape(&s) == indexes@[0].same_shape(&s),
{
    let ghost xs = indexes@;
    let ghost tail = xs.drop_first();
    let mut first = indexes;
    if first.len() == 0 {
        return Ok(None);
    }
    let rest = first.split_off(1);
    let mut accumulator = match first.pop() {
        Some(index) => index,
        None => { return Ok(None); },
    };
    proof {
        assert(rest@ =~= tail);
        assert(tail.skip(0) =~= tail);
    }
    for next in iter: rest.into_iter()
        invariant
            xs == indexes@,
            xs.len() >= 1,
            tail == xs.drop_first(),
            iter.seq() == tail,
            xs.len() == 1 ==> accumulator == xs[0],
            forall|res: Result<I, IqdbError>|
                fold_merge(accumulator, tail.skip(iter.index() as int), res) ==> #[trigger] fold_merge(xs[0], tail, res),
            forall|j: int| 0 <= j <= iter.index() ==> #[trigger] xs[j].ids().subset_of(accumulator.ids()),
            forall|j: int| 0 < j <= iter.index() ==> #[trigger] xs[0].same_shape(&xs[j]),
            forall|s: I| #[trigger] accumulator.same_shape(&s) == xs[0].same_shape(&s),
            forall|j: int, l: int|
                0 <= j < l <= iter.index() ==> #[trigger] xs[j].ids().disjoint(#[trigger] xs[l].ids()),
    {
        let ghost before = accumulator;
        let ghost idx = iter.index() as int;
        let ghost later = tail.skip(idx);
        proof {
            assert(next == tail[idx]);
            assert(later[0] == next);
            assert(later.drop_first() =~= tail.skip(idx + 1));
            assert(xs[idx + 1] == next);
        }
        let outcome = accumulator.merge(next);
        match outcome {
            Ok(()) => {
                proof {
                    assert(I::merge_step(before, next, accumulator, outcome));
                    assert(outcome is Ok);
                    assert forall|res: Result<I, IqdbError>|
                        fold_merge(accumulator, tail.skip(idx + 1), res) implies #[trigger] fold_merge(xs[0], tail, res) by {
                        assert(I::merge_step(before, later[0], accumulator, outcome));
                        assert(fold_merge(before, later, res));
                    }
                    assert(xs[0].same_shape(&next) == before.same_shape(&next));
                    assert forall|s: I| #[trigger] accumulator.same_shape(&s) == xs[0].same_shape(&s) by {
                        assert(accumulator.same_shape(&s) == before.same_shape(&s));
                        assert(before.same_shape(&s) == xs[0].same_shape(&s));
                    }
                    assert forall|j: int| 0 <= j <= idx + 1 implies #[trigger] xs[j].ids().subset_of(accumulator.ids()) by {
                        if j <= idx {
                            assert(xs[j].ids().subset_of(before.ids()));
                        }
                    }
                    assert forall|j: int, l: int|
                        0 <= j < l <= idx + 1 implies #[trigger] xs[j].ids().disjoint(#[trigger] xs[l].ids()) by {
                        if l == idx + 1 {
                            assert(xs[j].ids().subset_of(before.ids()));
                            assert(before.ids().disjoint(next.ids()));
                        }
                    }
                }
            },
            Err(error) => {
                proof {
                    assert(I::merge_step(before, later[0], accumulator, outcome));
                    assert(fold_merge(before, later, Err::<I, IqdbError>(error)));
                }
                return Err(error);
            },
        }
    }
    proof {
        assert(tail.skip(tail.len() as int) =~= Seq::<I>::empty());
        assert(fold_merge(accumulator, Seq::<I>::empty(), Ok::<I, IqdbError>(accumulator)));
    }
    Ok(Some(accumulator))
}

} // verus!
