//! Packing of token counts into batches.
//!
//! A packing walks the counts in order. Each bucket takes the longest run of
//! counts that stays within the token budget and the sequence limit; a count
//! that is over the budget on its own still gets a bucket, alone.
use vstd::prelude::*;

verus! {

/// The sum of `counts[lo..hi]`.
pub open spec fn token_sum(counts: Seq<usize>, lo: int, hi: int) -> int
    decreases hi - lo,
{
    if hi <= lo {
        0
    } else {
        token_sum(counts, lo, hi - 1) + counts[hi - 1]
    }
}

/// Whether a bucket that holds `counts[lo..hi]` has room for `counts[hi]` too.
pub open spec fn has_room(
    counts: Seq<usize>,
    max_tokens: usize,
    max_seqs: usize,
    lo: int,
    hi: int,
) -> bool {
    &&& hi < counts.len()
    &&& hi - lo < max_seqs
    &&& token_sum(counts, lo, hi) + counts[hi] <= max_tokens
}

/// Where a bucket that holds `counts[lo..hi]` ends once it has taken all that it has room for.
pub open spec fn bucket_end(
    counts: Seq<usize>,
    max_tokens: usize,
    max_seqs: usize,
    lo: int,
    hi: int,
) -> int
    decreases counts.len() - hi,
{
    if has_room(counts, max_tokens, max_seqs, lo, hi) {
        bucket_end(counts, max_tokens, max_seqs, lo, hi + 1)
    } else {
        hi
    }
}

/// The indices `lo, lo + 1, .., hi - 1`.
pub open spec fn index_run(lo: int, hi: int) -> Seq<usize> {
    Seq::new((hi - lo) as nat, |i: int| (lo + i) as usize)
}

/// The buckets that hold `counts[lo..]`.
pub open spec fn packing_from(
    counts: Seq<usize>,
    max_tokens: usize,
    max_seqs: usize,
    lo: int,
) -> Seq<Seq<usize>>
    decreases counts.len() - lo,
    when 0 <= lo <= counts.len()
    via packing_from_decreases
{
    if lo >= counts.len() {
        Seq::empty()
    } else {
        let hi = bucket_end(counts, max_tokens, max_seqs, lo, lo + 1);
        seq![index_run(lo, hi)] + packing_from(counts, max_tokens, max_seqs, hi)
    }
}

#[via_fn]
proof fn packing_from_decreases(
    counts: Seq<usize>,
    max_tokens: usize,
    max_seqs: usize,
    lo: int,
) {
    if lo < counts.len() {
        lemma_bucket_end(counts, max_tokens, max_seqs, lo, lo + 1);
    }
}

/// The whole packing of `counts`.
///
/// A sequence limit of zero leaves no bucket that may hold anything. Every
/// count then gets a bucket of its own, behind one empty bucket.
pub open spec fn packing(counts: Seq<usize>, max_tokens: usize, max_seqs: usize) -> Seq<
    Seq<usize>,
> {
    if max_seqs == 0 && counts.len() > 0 {
        seq![Seq::<usize>::empty()] + packing_from(counts, max_tokens, max_seqs, 0)
    } else {
        packing_from(counts, max_tokens, max_seqs, 0)
    }
}

/// The contents of `buckets`, one sequence per bucket.
pub open spec fn nested_view(buckets: Seq<Vec<usize>>) -> Seq<Seq<usize>> {
    buckets.map_values(|b: Vec<usize>| b@)
}

/// The number of items in the first `b` buckets.
pub open spec fn items_before(buckets: Seq<Seq<usize>>, b: int) -> int
    decreases b,
{
    if b <= 0 {
        0
    } else {
        items_before(buckets, b - 1) + buckets[b - 1].len()
    }
}

/// The sum of the token counts that `bucket` names.
pub open spec fn bucket_tokens(counts: Seq<usize>, bucket: Seq<usize>) -> int
    decreases bucket.len(),
{
    if bucket.len() == 0 {
        0
    } else {
        bucket_tokens(counts, bucket.drop_last()) + counts[bucket.last() as int]
    }
}

/// `buckets` hold `0, 1, .., n - 1`, in this order, each once.
pub open spec fn partitions_in_order(buckets: Seq<Seq<usize>>, n: int) -> bool {
    &&& forall|b: int, s: int|
        0 <= b < buckets.len() && 0 <= s < buckets[b].len() ==> #[trigger] buckets[b][s]
            == items_before(buckets, b) + s
    &&& items_before(buckets, buckets.len() as int) == n
}

/// `bucket` holds something, has at most `max_seqs` items, and is within the
/// token budget unless it holds a single item.
pub open spec fn within_bounds(
    counts: Seq<usize>,
    max_tokens: usize,
    max_seqs: usize,
    bucket: Seq<usize>,
) -> bool {
    &&& 0 < bucket.len() <= max_seqs
    &&& bucket.len() == 1 || bucket_tokens(counts, bucket) <= max_tokens
}

/// `bucket` has no room for the first item of `next`.
pub open spec fn full_before(
    counts: Seq<usize>,
    max_tokens: usize,
    max_seqs: usize,
    bucket: Seq<usize>,
    next: Seq<usize>,
) -> bool {
    bucket.len() >= max_seqs || bucket_tokens(counts, bucket) + counts[next[0] as int] > max_tokens
}

/// What a greedy packing of `counts` is, said of its buckets: an ordered
/// partition, every bucket within its bounds, and none closed early.
pub open spec fn is_greedy(
    counts: Seq<usize>,
    max_tokens: usize,
    max_seqs: usize,
    buckets: Seq<Seq<usize>>,
) -> bool {
    &&& partitions_in_order(buckets, counts.len() as int)
    &&& forall|b: int|
        0 <= b < buckets.len() ==> within_bounds(
            counts,
            max_tokens,
            max_seqs,
            #[trigger] buckets[b],
        )
    &&& forall|b: int, c: int|
        0 <= b && c == b + 1 && c < buckets.len() ==> full_before(
            counts,
            max_tokens,
            max_seqs,
            #[trigger] buckets[b],
            #[trigger] buckets[c],
        )
}

proof fn lemma_bucket_end(
    counts: Seq<usize>,
    max_tokens: usize,
    max_seqs: usize,
    lo: int,
    hi: int,
)
    requires
        hi <= counts.len(),
    ensures
        hi <= bucket_end(counts, max_tokens, max_seqs, lo, hi) <= counts.len(),
        !has_room(
            counts,
            max_tokens,
            max_seqs,
            lo,
            bucket_end(counts, max_tokens, max_seqs, lo, hi),
        ),
        bucket_end(counts, max_tokens, max_seqs, lo, hi) > hi ==> {
            let end = bucket_end(counts, max_tokens, max_seqs, lo, hi);
            end - lo <= max_seqs && token_sum(counts, lo, end) <= max_tokens
        },
    decreases counts.len() - hi,
{
    if has_room(counts, max_tokens, max_seqs, lo, hi) {
        lemma_bucket_end(counts, max_tokens, max_seqs, lo, hi + 1);
    }
}

/// Putting a bucket in front shifts the item counts of those behind it.
proof fn lemma_items_before_cons(first: Seq<usize>, rest: Seq<Seq<usize>>, b: int)
    requires
        0 <= b <= rest.len(),
    ensures
        items_before(seq![first] + rest, b + 1) == first.len() + items_before(rest, b),
    decreases b,
{
    let all = seq![first] + rest;
    assert(all[b] == if b == 0 {
        first
    } else {
        rest[b - 1]
    });
    if b > 0 {
        lemma_items_before_cons(first, rest, b - 1);
    } else {
        assert(items_before(all, 0) == 0);
        assert(items_before(rest, 0) == 0);
    }
}

proof fn lemma_bucket_tokens_run(counts: Seq<usize>, lo: int, hi: int)
    requires
        0 <= lo <= hi <= counts.len(),
        counts.len() <= usize::MAX,
    ensures
        bucket_tokens(counts, index_run(lo, hi)) == token_sum(counts, lo, hi),
    decreases hi - lo,
{
    if lo < hi {
        lemma_bucket_tokens_run(counts, lo, hi - 1);
        assert(index_run(lo, hi).drop_last() =~= index_run(lo, hi - 1));
    }
}

/// The `b`-th of `buckets`, which hold `counts[lo..]`, is a run that took all it had room for.
spec fn is_run(
    counts: Seq<usize>,
    max_tokens: usize,
    max_seqs: usize,
    lo: int,
    buckets: Seq<Seq<usize>>,
    b: int,
) -> bool {
    let start = lo + items_before(buckets, b);
    &&& lo <= start < counts.len()
    &&& buckets[b] == index_run(
        start,
        bucket_end(counts, max_tokens, max_seqs, start, start + 1),
    )
}

/// Every bucket of `packing_from` is the run that starts where the one before it ended.
proof fn lemma_packing_from(counts: Seq<usize>, max_tokens: usize, max_seqs: usize, lo: int)
    requires
        0 <= lo <= counts.len(),
    ensures
        ({
            let buckets = packing_from(counts, max_tokens, max_seqs, lo);
            &&& forall|b: int|
                0 <= b < buckets.len() ==> #[trigger] is_run(
                    counts,
                    max_tokens,
                    max_seqs,
                    lo,
                    buckets,
                    b,
                )
            &&& lo + items_before(buckets, buckets.len() as int) == counts.len()
        }),
    decreases counts.len() - lo,
{
    let buckets = packing_from(counts, max_tokens, max_seqs, lo);
    if lo < counts.len() {
        let hi = bucket_end(counts, max_tokens, max_seqs, lo, lo + 1);
        lemma_bucket_end(counts, max_tokens, max_seqs, lo, lo + 1);
        lemma_packing_from(counts, max_tokens, max_seqs, hi);
        let rest = packing_from(counts, max_tokens, max_seqs, hi);
        let first = index_run(lo, hi);
        assert(buckets == seq![first] + rest);
        assert forall|b: int| 0 <= b < buckets.len() implies #[trigger] is_run(
            counts,
            max_tokens,
            max_seqs,
            lo,
            buckets,
            b,
        ) by {
            if b > 0 {
                assert(is_run(counts, max_tokens, max_seqs, hi, rest, b - 1));
                lemma_items_before_cons(first, rest, b - 1);
                assert(buckets[b] == rest[b - 1]);
            } else {
                assert(items_before(buckets, 0) == 0);
                assert(buckets[0] == first);
            }
        }
        lemma_items_before_cons(first, rest, rest.len() as int);
    } else {
        assert(items_before(buckets, 0) == 0);
    }
}

/// Every chunk is packed exactly once, and reading the buckets one after
/// another gives the chunks in input order.
pub proof fn law_packing_preserves_order(
    counts: Seq<usize>,
    max_tokens: usize,
    max_seqs: usize,
)
    requires
        counts.len() <= usize::MAX,
    ensures
        partitions_in_order(packing(counts, max_tokens, max_seqs), counts.len() as int),
{
    let buckets = packing(counts, max_tokens, max_seqs);
    let runs = packing_from(counts, max_tokens, max_seqs, 0);
    lemma_packing_from(counts, max_tokens, max_seqs, 0);
    assert forall|b: int, s: int|
        0 <= b < buckets.len() && 0 <= s < buckets[b].len() implies #[trigger] buckets[b][s]
        == items_before(buckets, b) + s by {
        let r = buckets.len() - runs.len();
        assert(0 <= r <= 1);
        if r == 1 {
            assert(b > 0);
            lemma_items_before_cons(Seq::empty(), runs, b - 1);
        }
        assert(buckets[b] == runs[b - r]);
        assert(is_run(counts, max_tokens, max_seqs, 0, runs, b - r));
        let start = items_before(runs, b - r);
        lemma_bucket_end(counts, max_tokens, max_seqs, start, start + 1);
    }
    if max_seqs == 0 && counts.len() > 0 {
        lemma_items_before_cons(Seq::empty(), runs, runs.len() as int);
    }
}

/// With a positive sequence limit the packing is greedy: no bucket breaks its
/// bounds, and none was closed while the next chunk would still have fitted.
pub proof fn law_packing_is_greedy(counts: Seq<usize>, max_tokens: usize, max_seqs: usize)
    requires
        counts.len() <= usize::MAX,
        max_seqs > 0,
    ensures
        is_greedy(counts, max_tokens, max_seqs, packing(counts, max_tokens, max_seqs)),
{
    let buckets = packing(counts, max_tokens, max_seqs);
    law_packing_preserves_order(counts, max_tokens, max_seqs);
    lemma_packing_from(counts, max_tokens, max_seqs, 0);
    assert forall|b: int| 0 <= b < buckets.len() implies within_bounds(
        counts,
        max_tokens,
        max_seqs,
        #[trigger] buckets[b],
    ) by {
        assert(is_run(counts, max_tokens, max_seqs, 0, buckets, b));
        let lo = items_before(buckets, b);
        lemma_bucket_end(counts, max_tokens, max_seqs, lo, lo + 1);
        let hi = bucket_end(counts, max_tokens, max_seqs, lo, lo + 1);
        lemma_bucket_tokens_run(counts, lo, hi);
    }
    assert forall|b: int, c: int|
        0 <= b && c == b + 1 && c < buckets.len() implies full_before(
        counts,
        max_tokens,
        max_seqs,
        #[trigger] buckets[b],
        #[trigger] buckets[c],
    ) by {
        assert(is_run(counts, max_tokens, max_seqs, 0, buckets, b));
        assert(is_run(counts, max_tokens, max_seqs, 0, buckets, c));
        let lo = items_before(buckets, b);
        lemma_bucket_end(counts, max_tokens, max_seqs, lo, lo + 1);
        let hi = bucket_end(counts, max_tokens, max_seqs, lo, lo + 1);
        lemma_bucket_tokens_run(counts, lo, hi);
        assert(items_before(buckets, c) == hi);
        lemma_bucket_end(counts, max_tokens, max_seqs, hi, hi + 1);
        assert(buckets[c][0] == hi);
    }
}

proof fn lemma_token_sum_grows(counts: Seq<usize>, lo: int, mid: int, hi: int)
    requires
        0 <= lo <= mid <= hi <= counts.len(),
    ensures
        token_sum(counts, lo, mid) <= token_sum(counts, lo, hi),
    decreases hi - mid,
{
    if mid < hi {
        lemma_token_sum_grows(counts, lo, mid, hi - 1);
    }
}

proof fn lemma_items_before_grows(buckets: Seq<Seq<usize>>, b: int, c: int)
    requires
        0 <= b <= c <= buckets.len(),
    ensures
        items_before(buckets, b) <= items_before(buckets, c),
    decreases c - b,
{
    if b < c {
        lemma_items_before_grows(buckets, b, c - 1);
    }
}

/// In an ordered partition every bucket is a run of indices.
pub(crate) proof fn lemma_partition_bucket(buckets: Seq<Seq<usize>>, n: int, b: int)
    requires
        partitions_in_order(buckets, n),
        n <= usize::MAX,
        0 <= b < buckets.len(),
    ensures
        buckets[b] == index_run(items_before(buckets, b), items_before(buckets, b + 1)),
        0 <= items_before(buckets, b) <= items_before(buckets, b + 1) <= n,
        items_before(buckets, b + 1) == items_before(buckets, b) + buckets[b].len(),
{
    lemma_items_before_grows(buckets, 0, b);
    lemma_items_before_grows(buckets, b + 1, buckets.len() as int);
    let lo = items_before(buckets, b);
    let hi = items_before(buckets, b + 1);
    assert(buckets[b].len() == hi - lo);
    assert forall|s: int| 0 <= s < buckets[b].len() implies buckets[b][s] == index_run(lo, hi)[s] by {
        assert(buckets[b][s] == lo + s);
    }
    assert(buckets[b] =~= index_run(lo, hi));
}

/// Of two greedy packings that agree before bucket `b`, the first does not close `b` earlier.
proof fn lemma_greedy_bucket_len(
    counts: Seq<usize>,
    max_tokens: usize,
    max_seqs: usize,
    one: Seq<Seq<usize>>,
    other: Seq<Seq<usize>>,
    b: int,
)
    requires
        counts.len() <= usize::MAX,
        is_greedy(counts, max_tokens, max_seqs, one),
        is_greedy(counts, max_tokens, max_seqs, other),
        0 <= b < one.len(),
        b < other.len(),
        items_before(one, b) == items_before(other, b),
    ensures
        one[b].len() >= other[b].len(),
{
    let n = counts.len() as int;
    let lo = items_before(one, b);
    let c = b + 1;
    lemma_partition_bucket(one, n, b);
    lemma_partition_bucket(other, n, b);
    if one[b].len() < other[b].len() {
        let mid = items_before(one, c);
        let hi = items_before(other, c);
        assert(mid < hi <= n);
        assert(c < one.len());
        lemma_partition_bucket(one, n, c);
        assert(within_bounds(counts, max_tokens, max_seqs, one[c]));
        assert(within_bounds(counts, max_tokens, max_seqs, one[b]));
        assert(within_bounds(counts, max_tokens, max_seqs, other[b]));
        assert(one[c][0] == mid);
        assert(full_before(counts, max_tokens, max_seqs, one[b], one[c]));
        lemma_bucket_tokens_run(counts, lo, mid);
        lemma_bucket_tokens_run(counts, lo, hi);
        lemma_token_sum_grows(counts, lo, mid + 1, hi);
        assert(false);
    }
}

proof fn lemma_greedy_agree(
    counts: Seq<usize>,
    max_tokens: usize,
    max_seqs: usize,
    one: Seq<Seq<usize>>,
    other: Seq<Seq<usize>>,
    k: int,
)
    requires
        counts.len() <= usize::MAX,
        is_greedy(counts, max_tokens, max_seqs, one),
        is_greedy(counts, max_tokens, max_seqs, other),
        0 <= k <= one.len(),
        k <= other.len(),
    ensures
        items_before(one, k) == items_before(other, k),
        forall|b: int| 0 <= b < k ==> #[trigger] one[b] == other[b],
    decreases k,
{
    if k > 0 {
        lemma_greedy_agree(counts, max_tokens, max_seqs, one, other, k - 1);
        lemma_greedy_bucket_len(counts, max_tokens, max_seqs, one, other, k - 1);
        lemma_greedy_bucket_len(counts, max_tokens, max_seqs, other, one, k - 1);
        lemma_partition_bucket(one, counts.len() as int, k - 1);
        lemma_partition_bucket(other, counts.len() as int, k - 1);
    } else {
        assert(items_before(one, 0) == 0);
        assert(items_before(other, 0) == 0);
    }
}

/// There is one greedy packing only: buckets that are an ordered partition of
/// the chunks, each within its bounds and none closed early, are the packing.
pub proof fn law_greedy_packing_is_unique(
    counts: Seq<usize>,
    max_tokens: usize,
    max_seqs: usize,
    buckets: Seq<Seq<usize>>,
)
    requires
        counts.len() <= usize::MAX,
        max_seqs > 0,
        is_greedy(counts, max_tokens, max_seqs, buckets),
    ensures
        buckets == packing(counts, max_tokens, max_seqs),
{
    let packed = packing(counts, max_tokens, max_seqs);
    let n = counts.len() as int;
    law_packing_is_greedy(counts, max_tokens, max_seqs);
    let k = if buckets.len() <= packed.len() {
        buckets.len() as int
    } else {
        packed.len() as int
    };
    lemma_greedy_agree(counts, max_tokens, max_seqs, buckets, packed, k);
    if k < buckets.len() {
        lemma_partition_bucket(buckets, n, k);
        assert(within_bounds(counts, max_tokens, max_seqs, buckets[k]));
    }
    if k < packed.len() {
        lemma_partition_bucket(packed, n, k);
        assert(within_bounds(counts, max_tokens, max_seqs, packed[k]));
    }
    assert(buckets =~= packed);
}

proof fn lemma_token_sum_of_prefix(counts: Seq<usize>, i: int, lo: int, hi: int)
    requires
        0 <= lo <= hi <= i <= counts.len(),
    ensures
        token_sum(counts.take(i), lo, hi) == token_sum(counts, lo, hi),
    decreases hi - lo,
{
    if lo < hi {
        lemma_token_sum_of_prefix(counts, i, lo, hi - 1);
    }
}

proof fn lemma_token_sum_nonnegative(counts: Seq<usize>, lo: int, hi: int)
    ensures
        token_sum(counts, lo, hi) >= 0,
    decreases hi - lo,
{
    if lo < hi {
        lemma_token_sum_nonnegative(counts, lo, hi - 1);
    }
}

/// A bucket that opens before an oversized chunk ends as it would without that chunk.
proof fn lemma_bucket_end_before_oversized(
    counts: Seq<usize>,
    max_tokens: usize,
    max_seqs: usize,
    i: int,
    lo: int,
    hi: int,
)
    requires
        0 <= lo < hi <= i < counts.len(),
        counts[i] > max_tokens,
    ensures
        bucket_end(counts, max_tokens, max_seqs, lo, hi) == bucket_end(
            counts.take(i),
            max_tokens,
            max_seqs,
            lo,
            hi,
        ),
        bucket_end(counts, max_tokens, max_seqs, lo, hi) <= i,
    decreases i - hi,
{
    lemma_token_sum_of_prefix(counts, i, lo, hi);
    if hi < i {
        lemma_bucket_end_before_oversized(counts, max_tokens, max_seqs, i, lo, hi + 1);
    } else {
        lemma_token_sum_nonnegative(counts, lo, hi);
    }
}

proof fn lemma_packing_from_splits(
    counts: Seq<usize>,
    max_tokens: usize,
    max_seqs: usize,
    i: int,
    lo: int,
)
    requires
        0 <= lo <= i < counts.len(),
        counts[i] > max_tokens,
    ensures
        packing_from(counts, max_tokens, max_seqs, lo) == packing_from(
            counts.take(i),
            max_tokens,
            max_seqs,
            lo,
        ) + seq![index_run(i, i + 1)] + packing_from(counts, max_tokens, max_seqs, i + 1),
    decreases i - lo,
{
    if lo < i {
        lemma_bucket_end_before_oversized(counts, max_tokens, max_seqs, i, lo, lo + 1);
        let hi = bucket_end(counts, max_tokens, max_seqs, lo, lo + 1);
        lemma_bucket_end(counts, max_tokens, max_seqs, lo, lo + 1);
        lemma_packing_from_splits(counts, max_tokens, max_seqs, i, hi);
    } else {
        assert(token_sum(counts, i, i) == 0);
        assert(token_sum(counts, i, i + 1) == counts[i]);
        assert(bucket_end(counts, max_tokens, max_seqs, i, i + 1) == i + 1);
    }
    assert(packing_from(counts, max_tokens, max_seqs, lo) =~= packing_from(
        counts.take(i),
        max_tokens,
        max_seqs,
        lo,
    ) + seq![index_run(i, i + 1)] + packing_from(counts, max_tokens, max_seqs, i + 1));
}

/// `buckets` with `by` added to every index.
pub open spec fn shifted(buckets: Seq<Seq<usize>>, by: int) -> Seq<Seq<usize>> {
    buckets.map_values(|bucket: Seq<usize>| bucket.map_values(|x: usize| (x + by) as usize))
}

proof fn lemma_bucket_end_of_suffix(
    counts: Seq<usize>,
    max_tokens: usize,
    max_seqs: usize,
    by: int,
    lo: int,
    hi: int,
)
    requires
        0 <= by <= counts.len(),
        0 <= lo <= hi <= counts.len() - by,
    ensures
        bucket_end(counts, max_tokens, max_seqs, by + lo, by + hi) == by + bucket_end(
            counts.skip(by),
            max_tokens,
            max_seqs,
            lo,
            hi,
        ),
    decreases counts.len() - hi,
{
    lemma_token_sum_of_suffix(counts, by, lo, hi);
    if hi < counts.len() - by {
        lemma_bucket_end_of_suffix(counts, max_tokens, max_seqs, by, lo, hi + 1);
    }
}

proof fn lemma_token_sum_of_suffix(counts: Seq<usize>, by: int, lo: int, hi: int)
    requires
        0 <= by <= counts.len(),
        0 <= lo <= hi <= counts.len() - by,
    ensures
        token_sum(counts.skip(by), lo, hi) == token_sum(counts, by + lo, by + hi),
    decreases hi - lo,
{
    if lo < hi {
        lemma_token_sum_of_suffix(counts, by, lo, hi - 1);
    }
}

proof fn lemma_packing_from_suffix(
    counts: Seq<usize>,
    max_tokens: usize,
    max_seqs: usize,
    by: int,
    lo: int,
)
    requires
        counts.len() <= usize::MAX,
        0 <= by <= counts.len(),
        0 <= lo <= counts.len() - by,
    ensures
        packing_from(counts, max_tokens, max_seqs, by + lo) == shifted(
            packing_from(counts.skip(by), max_tokens, max_seqs, lo),
            by,
        ),
    decreases counts.len() - by - lo,
{
    let tail = counts.skip(by);
    if lo < tail.len() {
        let hi = bucket_end(tail, max_tokens, max_seqs, lo, lo + 1);
        lemma_bucket_end(tail, max_tokens, max_seqs, lo, lo + 1);
        lemma_bucket_end_of_suffix(counts, max_tokens, max_seqs, by, lo, lo + 1);
        lemma_packing_from_suffix(counts, max_tokens, max_seqs, by, hi);
        assert(index_run(by + lo, by + hi) =~= index_run(lo, hi).map_values(
            |x: usize| (x + by) as usize,
        ));
        assert(packing_from(counts, max_tokens, max_seqs, by + lo) == seq![
            index_run(by + lo, by + hi),
        ] + packing_from(counts, max_tokens, max_seqs, by + hi));
    }
    assert(packing_from(counts, max_tokens, max_seqs, by + lo) =~= shifted(
        packing_from(tail, max_tokens, max_seqs, lo),
        by,
    ));
}

/// An oversized chunk gets a bucket of its own and does not disturb the chunks
/// around it: those before it are packed as if the input ended there, those
/// behind it as if the input began there.
pub proof fn law_oversized_chunk_stands_alone(
    counts: Seq<usize>,
    max_tokens: usize,
    max_seqs: usize,
    i: int,
)
    requires
        counts.len() <= usize::MAX,
        max_seqs > 0,
        0 <= i < counts.len(),
        counts[i] > max_tokens,
    ensures
        packing(counts, max_tokens, max_seqs) == packing(counts.take(i), max_tokens, max_seqs)
            + seq![seq![i as usize]] + shifted(
            packing(counts.skip(i + 1), max_tokens, max_seqs),
            i + 1,
        ),
{
    lemma_packing_from_splits(counts, max_tokens, max_seqs, i, 0);
    lemma_packing_from_suffix(counts, max_tokens, max_seqs, i + 1, 0);
    assert(index_run(i, i + 1) =~= seq![i as usize]);
}

/// Chunk `i` is item `s` of bucket `b`.
pub open spec fn holds_at(buckets: Seq<Seq<usize>>, b: int, s: int, i: int) -> bool {
    0 <= b < buckets.len() && 0 <= s < buckets[b].len() && buckets[b][s] == i
}

proof fn lemma_item_has_a_place(buckets: Seq<Seq<usize>>, n: int, i: int, c: int) -> (place: (
    int,
    int,
))
    requires
        partitions_in_order(buckets, n),
        0 <= c <= buckets.len(),
        0 <= i < items_before(buckets, c),
    ensures
        holds_at(buckets, place.0, place.1, i),
    decreases c,
{
    let b = c - 1;
    let before = items_before(buckets, b);
    if i < before {
        lemma_item_has_a_place(buckets, n, i, b)
    } else {
        assert(buckets[b][i - before] == before + (i - before));
        (b, i - before)
    }
}

/// Every chunk is in exactly one bucket, exactly once.
pub proof fn law_every_chunk_is_packed_once(
    counts: Seq<usize>,
    max_tokens: usize,
    max_seqs: usize,
    i: int,
)
    requires
        counts.len() <= usize::MAX,
        0 <= i < counts.len(),
    ensures
        exists|b: int, s: int| holds_at(packing(counts, max_tokens, max_seqs), b, s, i),
        forall|b: int, s: int, c: int, t: int|
            #[trigger] holds_at(packing(counts, max_tokens, max_seqs), b, s, i)
                && #[trigger] holds_at(packing(counts, max_tokens, max_seqs), c, t, i) ==> b == c
                && s == t,
{
    let buckets = packing(counts, max_tokens, max_seqs);
    let n = counts.len() as int;
    law_packing_preserves_order(counts, max_tokens, max_seqs);
    let place = lemma_item_has_a_place(buckets, n, i, buckets.len() as int);
    assert forall|b: int, s: int, c: int, t: int|
        #[trigger] holds_at(buckets, b, s, i) && #[trigger] holds_at(
            buckets,
            c,
            t,
            i,
        ) implies b == c && s == t by {
        assert(buckets[b][s] == items_before(buckets, b) + s);
        assert(buckets[c][t] == items_before(buckets, c) + t);
        if b < c {
            lemma_items_before_grows(buckets, b + 1, c);
        } else if c < b {
            lemma_items_before_grows(buckets, c + 1, b);
        }
    }
}

proof fn lemma_packing_from_without_limit(counts: Seq<usize>, max_tokens: usize, lo: int)
    requires
        0 <= lo <= counts.len(),
    ensures
        packing_from(counts, max_tokens, 0, lo) == Seq::new(
            (counts.len() - lo) as nat,
            |k: int| seq![(lo + k) as usize],
        ),
    decreases counts.len() - lo,
{
    if lo < counts.len() {
        lemma_packing_from_without_limit(counts, max_tokens, lo + 1);
        assert(bucket_end(counts, max_tokens, 0, lo, lo + 1) == lo + 1);
        assert(index_run(lo, lo + 1) =~= seq![lo as usize]);
    }
    assert(packing_from(counts, max_tokens, 0, lo) =~= Seq::new(
        (counts.len() - lo) as nat,
        |k: int| seq![(lo + k) as usize],
    ));
}

/// With a sequence limit of zero a non-empty input gives one empty bucket,
/// and then one bucket for each chunk.
pub proof fn law_zero_sequence_limit(counts: Seq<usize>, max_tokens: usize)
    requires
        0 < counts.len() <= usize::MAX,
    ensures
        packing(counts, max_tokens, 0) == seq![Seq::<usize>::empty()] + Seq::new(
            counts.len(),
            |k: int| seq![k as usize],
        ),
{
    lemma_packing_from_without_limit(counts, max_tokens, 0);
    assert(packing(counts, max_tokens, 0) =~= seq![Seq::<usize>::empty()] + Seq::new(
        counts.len(),
        |k: int| seq![k as usize],
    ));
}

proof fn lemma_bucket_tokens_take(counts: Seq<usize>, bucket: Seq<usize>, s: int)
    requires
        0 <= s < bucket.len(),
    ensures
        bucket_tokens(counts, bucket.take(s + 1)) == bucket_tokens(counts, bucket.take(s))
            + counts[bucket[s] as int],
{
    assert(bucket.take(s + 1).drop_last() =~= bucket.take(s));
}

/// What a bucket holds up to some item is no more than what it holds.
pub(crate) proof fn lemma_bucket_tokens_partial(counts: Seq<usize>, bucket: Seq<usize>, s: int)
    requires
        0 <= s <= bucket.len(),
    ensures
        0 <= bucket_tokens(counts, bucket.take(s)) <= bucket_tokens(counts, bucket),
        s < bucket.len() ==> bucket_tokens(counts, bucket.take(s + 1)) == bucket_tokens(
            counts,
            bucket.take(s),
        ) + counts[bucket[s] as int],
    decreases bucket.len() - s,
{
    if s < bucket.len() {
        lemma_bucket_tokens_take(counts, bucket, s);
        lemma_bucket_tokens_partial(counts, bucket, s + 1);
    } else {
        assert(bucket.take(s) =~= bucket);
    }
    lemma_bucket_tokens_nonnegative(counts, bucket.take(s));
}

proof fn lemma_bucket_tokens_nonnegative(counts: Seq<usize>, bucket: Seq<usize>)
    ensures
        bucket_tokens(counts, bucket) >= 0,
    decreases bucket.len(),
{
    if bucket.len() > 0 {
        lemma_bucket_tokens_nonnegative(counts, bucket.drop_last());
    }
}

/// Where no chunk is over the token budget on its own, no bucket is either,
/// whatever the sequence limit.
pub proof fn law_buckets_fit_the_budget(
    counts: Seq<usize>,
    max_tokens: usize,
    max_seqs: usize,
    b: int,
)
    requires
        counts.len() <= usize::MAX,
        forall|i: int| 0 <= i < counts.len() ==> #[trigger] counts[i] <= max_tokens,
        0 <= b < packing(counts, max_tokens, max_seqs).len(),
    ensures
        bucket_tokens(counts, packing(counts, max_tokens, max_seqs)[b]) <= max_tokens,
{
    let buckets = packing(counts, max_tokens, max_seqs);
    let runs = packing_from(counts, max_tokens, max_seqs, 0);
    let r = buckets.len() - runs.len();
    lemma_packing_from(counts, max_tokens, max_seqs, 0);
    if b >= r {
        assert(buckets[b] == runs[b - r]);
        assert(is_run(counts, max_tokens, max_seqs, 0, runs, b - r));
        let lo = items_before(runs, b - r);
        let hi = bucket_end(counts, max_tokens, max_seqs, lo, lo + 1);
        lemma_bucket_end(counts, max_tokens, max_seqs, lo, lo + 1);
        lemma_bucket_tokens_run(counts, lo, hi);
        assert(token_sum(counts, lo, lo) == 0);
        assert(token_sum(counts, lo, lo + 1) == counts[lo]);
    } else {
        assert(buckets[b] =~= Seq::<usize>::empty());
    }
}

/// Greedily packs chunk token-counts into buckets bounded by `max_tokens`
/// total and `max_seqs` items, preserving input order. A single chunk whose
/// own count exceeds `max_tokens` still gets a one-item bucket: it never
/// blocks packing of the chunks around it.
pub fn bucket_by_token_budget(
    token_counts: &[usize],
    max_tokens: usize,
    max_seqs: usize,
) -> (buckets: Vec<Vec<usize>>)
    ensures
        nested_view(buckets@) == packing(token_counts@, max_tokens, max_seqs),
        buckets@.len() == packing(token_counts@, max_tokens, max_seqs).len(),
        forall|b: int|
            0 <= b < buckets@.len() ==> (#[trigger] buckets@[b])@ == packing(
                token_counts@,
                max_tokens,
                max_seqs,
            )[b],
{
    let ghost counts = token_counts@;
    let mut buckets: Vec<Vec<usize>> = Vec::new();
    let mut current: Vec<usize> = Vec::new();
    let mut current_tokens: usize = 0;
    let mut idx: usize = 0;
    let ghost mut lo: int = 0;
    while idx < token_counts.len()
        invariant
            counts == token_counts@,
            0 <= lo <= idx <= counts.len(),
            idx == 0 || lo < idx,
            current@ == index_run(lo, idx as int),
            current_tokens == token_sum(counts, lo, idx as int),
            idx == 0 ==> buckets@.len() == 0,
            idx > 0 ==> packing(counts, max_tokens, max_seqs) == nested_view(buckets@)
                + packing_from(counts, max_tokens, max_seqs, lo),
            idx > 0 ==> bucket_end(counts, max_tokens, max_seqs, lo, lo + 1) == bucket_end(
                counts,
                max_tokens,
                max_seqs,
                lo,
                idx as int,
            ),
        decreases counts.len() - idx,
    {
        let count: usize = token_counts[idx];
        let would_exceed_tokens = current.len() > 0 && (current_tokens > max_tokens || count
            > max_tokens - current_tokens);
        let would_exceed_seqs = current.len() >= max_seqs;
        let ghost closed = nested_view(buckets@);
        if would_exceed_tokens || would_exceed_seqs {
            let full = current;
            current = Vec::new();
            current_tokens = 0;
            proof {
                assert(nested_view(buckets@.push(full)) =~= closed.push(full@));
                if idx == 0 {
                    assert(full@ =~= Seq::<usize>::empty());
                    assert(closed =~= Seq::empty());
                    assert(closed.push(full@) =~= seq![Seq::<usize>::empty()]);
                } else {
                    assert(closed + (seq![index_run(lo, idx as int)] + packing_from(
                        counts,
                        max_tokens,
                        max_seqs,
                        idx as int,
                    )) =~= closed.push(index_run(lo, idx as int)) + packing_from(
                        counts,
                        max_tokens,
                        max_seqs,
                        idx as int,
                    ));
                }
                lo = idx as int;
            }
            buckets.push(full);
        } else if idx == 0 {
            proof {
                assert(closed =~= Seq::empty());
                assert(closed + packing_from(counts, max_tokens, max_seqs, 0) =~= packing_from(
                    counts,
                    max_tokens,
                    max_seqs,
                    0,
                ));
            }
        }
        proof {
            assert(current@.push(idx) =~= index_run(lo, idx + 1));
            assert(token_sum(counts, lo, idx as int) == current_tokens);
            assert(token_sum(counts, lo, idx + 1) == token_sum(counts, lo, idx as int) + count);
            if lo < idx {
                assert(has_room(counts, max_tokens, max_seqs, lo, idx as int));
            }
        }
        current.push(idx);
        current_tokens = current_tokens + count;
        idx = idx + 1;
    }
    proof {
        let closed = nested_view(buckets@);
        if counts.len() > 0 {
            let n = counts.len() as int;
            assert(bucket_end(counts, max_tokens, max_seqs, lo, n) == n);
            assert(packing_from(counts, max_tokens, max_seqs, n) =~= Seq::empty());
            assert(nested_view(buckets@.push(current)) =~= closed.push(current@));
            assert(closed.push(current@) =~= closed + (seq![index_run(lo, n)] + packing_from(
                counts,
                max_tokens,
                max_seqs,
                n,
            )));
        } else {
            assert(closed =~= packing(counts, max_tokens, max_seqs));
        }
    }
    if current.len() > 0 {
        buckets.push(current);
    }
    proof {
        law_buckets_are_their_contents(buckets@);
    }
    buckets
}

/// The contents of buckets are those of each bucket, in its place.
pub proof fn law_buckets_are_their_contents(buckets: Seq<Vec<usize>>)
    ensures
        nested_view(buckets).len() == buckets.len(),
        forall|b: int|
            #![trigger nested_view(buckets)[b]]
            #![trigger buckets[b]]
            0 <= b < buckets.len() ==> nested_view(buckets)[b] == buckets[b]@,
{
}

proof fn lemma_flatten_packing_from(
    counts: Seq<usize>,
    max_tokens: usize,
    max_seqs: usize,
    lo: int,
)
    requires
        0 <= lo <= counts.len() <= usize::MAX,
    ensures
        packing_from(counts, max_tokens, max_seqs, lo).flatten() == index_run(
            lo,
            counts.len() as int,
        ),
    decreases counts.len() - lo,
{
    let buckets = packing_from(counts, max_tokens, max_seqs, lo);
    if lo < counts.len() {
        let hi = bucket_end(counts, max_tokens, max_seqs, lo, lo + 1);
        lemma_bucket_end(counts, max_tokens, max_seqs, lo, lo + 1);
        lemma_flatten_packing_from(counts, max_tokens, max_seqs, hi);
        assert(buckets.drop_first() =~= packing_from(counts, max_tokens, max_seqs, hi));
        assert(buckets.first() == index_run(lo, hi));
    }
    assert(buckets.flatten() =~= index_run(lo, counts.len() as int));
}

/// Reading the buckets one after the other gives the chunks as they came: all
/// of them, each once, in input order.
pub proof fn law_buckets_joined_are_the_input(
    counts: Seq<usize>,
    max_tokens: usize,
    max_seqs: usize,
)
    requires
        counts.len() <= usize::MAX,
    ensures
        packing(counts, max_tokens, max_seqs).flatten() == Seq::new(
            counts.len(),
            |i: int| i as usize,
        ),
{
    let buckets = packing(counts, max_tokens, max_seqs);
    let runs = packing_from(counts, max_tokens, max_seqs, 0);
    lemma_flatten_packing_from(counts, max_tokens, max_seqs, 0);
    if max_seqs == 0 && counts.len() > 0 {
        assert(buckets.drop_first() =~= runs);
        assert(buckets.first() =~= Seq::<usize>::empty());
    }
    assert(buckets.flatten() =~= Seq::new(counts.len(), |i: int| i as usize));
}

/// The counts that `bucket` names, added up.
pub open spec fn added_up(counts: Seq<usize>, bucket: Seq<usize>) -> int {
    bucket.fold_left(0int, |total: int, i: usize| total + counts[i as int])
}

proof fn lemma_added_up(counts: Seq<usize>, bucket: Seq<usize>)
    ensures
        added_up(counts, bucket) == bucket_tokens(counts, bucket),
    decreases bucket.len(),
{
    reveal_with_fuel(Seq::fold_left, 2);
    if bucket.len() > 0 {
        lemma_added_up(counts, bucket.drop_last());
    }
}

/// With a positive sequence limit no bucket is empty or holds more chunks than
/// the limit, and none holds more tokens than the budget unless it is a single
/// chunk; and a bucket is followed by another only where the next chunk would
/// have been one too many, or its tokens too many.
pub proof fn law_buckets_are_filled_up(
    counts: Seq<usize>,
    max_tokens: usize,
    max_seqs: usize,
    b: int,
)
    requires
        counts.len() <= usize::MAX,
        max_seqs > 0,
        0 <= b < packing(counts, max_tokens, max_seqs).len(),
    ensures
        ({
            let buckets = packing(counts, max_tokens, max_seqs);
            &&& 0 < buckets[b].len() <= max_seqs
            &&& buckets[b].len() > 1 ==> added_up(counts, buckets[b]) <= max_tokens
            &&& b + 1 < buckets.len() ==> {
                ||| buckets[b].len() == max_seqs
                ||| added_up(counts, buckets[b]) + counts[buckets[b + 1][0] as int] > max_tokens
            }
        }),
{
    let buckets = packing(counts, max_tokens, max_seqs);
    let c = b + 1;
    law_packing_is_greedy(counts, max_tokens, max_seqs);
    lemma_added_up(counts, buckets[b]);
    assert(within_bounds(counts, max_tokens, max_seqs, buckets[b]));
    if c < buckets.len() {
        assert(full_before(counts, max_tokens, max_seqs, buckets[b], buckets[c]));
    }
}

} // verus!
