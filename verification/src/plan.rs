//! Shard planning: how many shards a parallel build uses, and how the input is
//! cut into contiguous, near-equal shards.

use vstd::prelude::*;
use vstd::arithmetic::div_mod::{lemma_fundamental_div_mod, lemma_mod_bound, lemma_div_pos_is_pos};
use vstd::arithmetic::mul::lemma_mul_nonnegative;

verus! {

/// The shard count a parallel build uses: the requested count (a request of
/// `0` counts as `1`), or the machine's parallelism when nothing was requested,
/// capped at the number of items (and at least `1`, even for an empty input).
pub open spec fn resolved_shard_count(requested: Option<usize>, len: int, auto: int) -> int {
    let want: int = match requested {
        Some(n) => if n == 0 { 1 } else { n as int },
        None => auto,
    };
    let cap: int = if len <= 0 { 1 } else { len };
    if want <= cap { want } else { cap }
}

/// Length of shard `i` when `len` items are cut into `k` shards: every shard
/// gets `len / k` items, and the first `len % k` shards get one more.
pub open spec fn shard_len(len: int, k: int, i: int) -> int {
    len / k + if i < len % k { 1int } else { 0int }
}

/// Position in the input at which shard `i` starts (shard `i` covers
/// `shard_start(i) .. shard_start(i + 1)`).
pub open spec fn shard_start(len: int, k: int, i: int) -> int {
    i * (len / k) + if i < len % k { i } else { len % k }
}

/// The item sequence of shard `i`.
pub open spec fn shard_of<T>(items: Seq<T>, k: int, i: int) -> Seq<T> {
    items.subrange(shard_start(items.len() as int, k, i), shard_start(items.len() as int, k, i + 1))
}

/// The contents of each chunk, as plain sequences.
pub open spec fn chunk_views<T>(chunks: Seq<Vec<T>>) -> Seq<Seq<T>> {
    chunks.map_values(|c: Vec<T>| c@)
}

/// Consecutive shard starts differ by exactly that shard's length.
pub proof fn lemma_shard_step(len: int, k: int, i: int)
    requires
        0 <= len,
        0 < k,
        0 <= i,
    ensures
        shard_start(len, k, i + 1) == shard_start(len, k, i) + shard_len(len, k, i),
        shard_start(len, k, i) >= 0,
        shard_len(len, k, i) >= 0,
{
    let b = len / k;
    assert((i + 1) * b == i * b + b) by (nonlinear_arith);
    lemma_div_pos_is_pos(len, k);
    lemma_mul_nonnegative(i, b);
    lemma_mod_bound(len, k);
}

/// The first shard starts at the beginning and the last one ends at the end.
pub proof fn lemma_shard_bounds(len: int, k: int)
    requires
        0 <= len,
        0 < k,
    ensures
        shard_start(len, k, 0) == 0,
        shard_start(len, k, k) == len,
{
    lemma_fundamental_div_mod(len, k);
    lemma_mod_bound(len, k);
    assert(k * (len / k) == (len / k) * k) by (nonlinear_arith);
}

/// Shard starts never decrease.
pub proof fn lemma_shard_start_monotone(len: int, k: int, i: int, j: int)
    requires
        0 <= len,
        0 < k,
        0 <= i <= j,
    ensures
        0 <= shard_start(len, k, i) <= shard_start(len, k, j),
    decreases j - i,
{
    lemma_shard_step(len, k, i);
    if i < j {
        lemma_shard_start_monotone(len, k, i + 1, j);
    }
}

/// Every shard start lies inside the input.
pub proof fn lemma_shard_start_in_range(len: int, k: int, i: int)
    requires
        0 <= len,
        0 < k,
        0 <= i <= k,
    ensures
        0 <= shard_start(len, k, i) <= len,
{
    lemma_shard_bounds(len, k);
    lemma_shard_start_monotone(len, k, i, k);
}

/// Shard sizes never grow along the shard order and differ by at most one.
pub proof fn lemma_shards_balanced(len: int, k: int, i: int, j: int)
    requires
        0 <= len,
        0 < k,
        0 <= i <= j < k,
    ensures
        shard_len(len, k, j) <= shard_len(len, k, i) <= shard_len(len, k, j) + 1,
{
}

/// When there are at least as many items as shards, no shard is empty.
pub proof fn lemma_shards_nonempty(len: int, k: int, i: int)
    requires
        0 < k <= len,
        0 <= i < k,
    ensures
        shard_len(len, k, i) >= 1,
{
    vstd::arithmetic::div_mod::lemma_div_non_zero(len, k);
}

/// A resolved plan never produces an empty shard, except the single empty
/// shard of an empty input, and the shards together hold exactly the input.
pub proof fn lemma_plan_has_no_empty_shard(requested: Option<usize>, len: int, auto: int, i: int)
    requires
        0 <= len,
        auto >= 1,
        0 <= i < resolved_shard_count(requested, len, auto),
    ensures
        len == 0 ==> resolved_shard_count(requested, len, auto) == 1 && shard_len(len, 1, 0) == 0,
        len > 0 ==> shard_len(len, resolved_shard_count(requested, len, auto), i) >= 1,
        shard_start(len, resolved_shard_count(requested, len, auto), resolved_shard_count(requested, len, auto)) == len,
{
    let k = resolved_shard_count(requested, len, auto);
    lemma_shard_bounds(len, k);
    if len > 0 {
        lemma_shards_nonempty(len, k, i);
    }
}

/// A requested shard count is kept as requested whenever the input has at
/// least that many items (and a request of `0` counts as `1`); otherwise it
/// is capped at the item count. With a request, the machine's parallelism
/// plays no part; without one, the machine's parallelism is used, capped at
/// the item count.
pub proof fn lemma_requested_count_is_kept(requested: Option<usize>, len: int, auto: int)
    requires
        0 <= len,
        auto >= 1,
    ensures
        forall|n: usize| requested == Some(n) && 1 <= n <= len ==> resolved_shard_count(requested, len, auto) == n,
        forall|n: usize| requested == Some(n) && n > len && len > 0 ==> resolved_shard_count(requested, len, auto) == len,
        requested == Some(0usize) ==> resolved_shard_count(requested, len, auto) == 1,
        requested is Some ==> forall|other: int|
            other >= 1 ==> #[trigger] resolved_shard_count(requested, len, other) == resolved_shard_count(requested, len, auto),
        requested is None && auto <= len ==> resolved_shard_count(requested, len, auto) == auto,
        requested is None && auto > len && len > 0 ==> resolved_shard_count(requested, len, auto) == len,
        len == 0 ==> resolved_shard_count(requested, len, auto) == 1,
{
}

/// The effective shard count for a parallel build, from the requested count
/// (`None` for "auto"), the number of items, and the machine's parallelism.
pub fn resolve_shards(requested: Option<usize>, len: usize, auto: usize) -> (k: usize)
    requires
        auto >= 1,
    ensures
        k == resolved_shard_count(requested, len as int, auto as int),
        1 <= k,
        len == 0 ==> k == 1,
        len > 0 ==> k <= len,
        forall|n: usize| requested == Some(n) && 1 <= n <= len ==> k == n,
        forall|n: usize| requested == Some(n) && n > len && len > 0 ==> k == len,
        requested == Some(0usize) ==> k == 1,
        requested is None && auto <= len ==> k == auto,
        requested is None && auto > len && len > 0 ==> k == len,
{
    let want: usize = match requested {
        Some(n) => if n == 0 { 1 } else { n },
        None => auto,
    };
    let cap: usize = if len == 0 { 1 } else { len };
    if want <= cap { want } else { cap }
}

/// Split `all` into `k` contiguous, near-equal owned chunks, in input order.
/// The first `len % k` chunks get one extra item, so sizes differ by at most one.
pub fn split_items<T>(all: Vec<T>, k: usize) -> (chunks: Vec<Vec<T>>)
    requires
        k >= 1,
    ensures
        chunks@.len() == k,
        forall|i: int| 0 <= i < k ==> #[trigger] chunks@[i]@ == shard_of(all@, k as int, i),
        forall|i: int| 0 <= i < k ==> #[trigger] chunks@[i]@.len() == shard_len(all@.len() as int, k as int, i),
        chunk_views(chunks@).flatten() == all@,
{
    let len = all.len();
    let base = len / k;
    let remainder = len % k;
    let ghost whole = all@;
    let ghost l = len as int;
    let ghost n = k as int;
    proof {
        lemma_shard_bounds(l, n);
    }
    let mut rest = all;
    let mut reversed: Vec<Vec<T>> = Vec::with_capacity(k);
    let mut i = k;
    while i > 0
        invariant
            0 <= i <= k,
            k >= 1,
            n == k,
            l == len,
            len == whole.len(),
            base == len / k,
            remainder == len % k,
            rest@ == whole.subrange(0, shard_start(l, n, i as int)),
            reversed@.len() == k - i,
            forall|j: int| 0 <= j < k - i ==> #[trigger] reversed@[j]@ == shard_of(whole, n, n - 1 - j),
        decreases i,
    {
        i = i - 1;
        proof {
            lemma_shard_step(l, n, i as int);
            lemma_shard_start_in_range(l, n, i as int + 1);
        }
        let take: usize = if i < remainder { base + 1 } else { base };
        let at = rest.len() - take;
        let chunk = rest.split_off(at);
        reversed.push(chunk);
    }
    let mut chunks: Vec<Vec<T>> = Vec::with_capacity(k);
    proof {
        assert(chunk_views(chunks@) =~= Seq::<Seq<T>>::empty());
        assert(whole.subrange(0, shard_start(l, n, 0)) =~= Seq::<T>::empty());
    }
    while reversed.len() > 0
        invariant
            k >= 1,
            n == k,
            l == len,
            len == whole.len(),
            chunks@.len() + reversed@.len() == k,
            forall|j: int| 0 <= j < chunks@.len() ==> #[trigger] chunks@[j]@ == shard_of(whole, n, j),
            forall|j: int| 0 <= j < reversed@.len() ==> #[trigger] reversed@[j]@ == shard_of(whole, n, n - 1 - j),
            chunk_views(chunks@).flatten() == whole.subrange(0, shard_start(l, n, chunks@.len() as int)),
        decreases reversed.len(),
    {
        let ghost m = reversed@.len() - 1;
        let ghost c = chunks@.len() as int;
        match reversed.pop() {
            Some(chunk) => {
                proof {
                    assert(chunk@ == shard_of(whole, n, c));
                    lemma_shard_step(l, n, c);
                    lemma_shard_start_in_range(l, n, c + 1);
                    chunk_views(chunks@).lemma_flatten_push(chunk@);
                    assert(chunk_views(chunks@.push(chunk)) =~= chunk_views(chunks@).push(chunk@));
                    assert(whole.subrange(0, shard_start(l, n, c)) + chunk@
                        =~= whole.subrange(0, shard_start(l, n, c + 1)));
                }
                chunks.push(chunk);
            },
            None => {},
        }
    }
    proof {
        assert(whole.subrange(0, l) =~= whole);
        assert forall|i: int| 0 <= i < k implies #[trigger] chunks@[i]@.len() == shard_len(l, n, i) by {
            lemma_shard_step(l, n, i);
            lemma_shard_start_in_range(l, n, i + 1);
        }
    }
    chunks
}

} // verus!
