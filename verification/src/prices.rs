//! Price observations and the range-mean query over them.

use vstd::prelude::*;

verus! {

/// One observation: a timestamp (field `0`) and the price seen at it (field `1`).
///
/// Timestamps need not be distinct; two observations at the same instant both count.
#[derive(Debug, Clone, Copy, PartialEq, Eq, Structural)]
pub struct PricePoint(pub i32, pub i32);

/// A span of timestamps, both ends included.
#[derive(Debug, Clone, Copy, PartialEq, Eq, Structural)]
pub struct QueryRange {
    pub start: i32,
    pub end: i32,
}

impl QueryRange {
    /// Whether `timestamp` lies in the span. No timestamp lies in a span whose
    /// start is after its end.
    pub open spec fn covers(self, timestamp: i32) -> bool {
        self.start <= timestamp <= self.end
    }
}

/// The observations of `store` that `query` covers, in stored order.
pub open spec fn matching(store: Seq<PricePoint>, query: QueryRange) -> Seq<PricePoint> {
    store.filter(|p: PricePoint| query.covers(p.0))
}

/// Sum of the prices of `points`.
pub open spec fn total(points: Seq<PricePoint>) -> int
    decreases points.len(),
{
    if points.len() == 0 {
        0
    } else {
        total(points.drop_last()) + points.last().1
    }
}

/// `n / d` rounded toward zero, for a positive `d`.
pub open spec fn quotient_toward_zero(n: int, d: int) -> int
    recommends
        d > 0,
{
    if n >= 0 {
        n / d
    } else {
        -((-n) / d)
    }
}

/// The answer to `query` over `store`: the mean price of the covered
/// observations rounded toward zero, or `0` when none is covered.
pub open spec fn mean(store: Seq<PricePoint>, query: QueryRange) -> int {
    let hits = matching(store, query);
    if hits.len() == 0 {
        0
    } else {
        quotient_toward_zero(total(hits), hits.len() as int)
    }
}

/// Appending one observation extends the covered ones by it exactly when the
/// query covers its timestamp.
pub proof fn lemma_matching_push(store: Seq<PricePoint>, point: PricePoint, query: QueryRange)
    ensures
        matching(store.push(point), query) == if query.covers(point.0) {
            matching(store, query).push(point)
        } else {
            matching(store, query)
        },
{
    store.lemma_filter_push(point, |p: PricePoint| query.covers(p.0));
}

/// The total grows by the price of an appended observation.
pub proof fn lemma_total_push(points: Seq<PricePoint>, point: PricePoint)
    ensures
        total(points.push(point)) == total(points) + point.1,
{
    assert(points.push(point).drop_last() =~= points);
}

/// A total is bounded by the number of observations times the extreme prices.
pub proof fn lemma_total_bounds(points: Seq<PricePoint>)
    ensures
        points.len() * i32::MIN <= total(points) <= points.len() * i32::MAX,
    decreases points.len(),
{
    if points.len() > 0 {
        lemma_total_bounds(points.drop_last());
    }
}

/// Rounding toward zero keeps a mean of `i32` prices within `i32`.
pub proof fn lemma_quotient_bounds(n: int, d: int)
    requires
        d > 0,
        d * i32::MIN <= n <= d * i32::MAX,
    ensures
        i32::MIN <= quotient_toward_zero(n, d) <= i32::MAX,
{
    if n >= 0 {
        assert(n / d <= i32::MAX) by (nonlinear_arith)
            requires
                d > 0,
                0 <= n <= d * i32::MAX,
        ;
        assert(n / d >= 0) by (nonlinear_arith)
            requires
                d > 0,
                0 <= n,
        ;
    } else {
        let m = -n;
        assert(m / d <= 0x8000_0000) by (nonlinear_arith)
            requires
                d > 0,
                0 <= m <= d * 0x8000_0000,
        ;
        assert(m / d >= 0) by (nonlinear_arith)
            requires
                d > 0,
                0 <= m,
        ;
    }
}

/// A query that covers no stored observation is answered with `0`; so is any
/// query with its start after its end, and any query over an empty store.
pub proof fn lemma_mean_of_none(store: Seq<PricePoint>, query: QueryRange)
    ensures
        (forall|i: int| 0 <= i < store.len() ==> !query.covers(#[trigger] store[i].0)) ==> mean(
            store,
            query,
        ) == 0,
        query.start > query.end ==> mean(store, query) == 0,
        store.len() == 0 ==> mean(store, query) == 0,
{
    let covered = |p: PricePoint| query.covers(p.0);
    let hits = matching(store, query);
    if hits.len() > 0 {
        store.lemma_filter_pred(covered, 0);
        assert(store.filter(covered).contains(hits[0]));
        store.lemma_filter_contains_rev(covered, hits[0]);
        let j = choose|j: int| 0 <= j < store.len() && store[j] == hits[0];
        assert(query.covers(store[j].0));
    }
}

/// Every answer fits the `i32` that carries it on the wire.
pub proof fn lemma_mean_bounds(store: Seq<PricePoint>, query: QueryRange)
    ensures
        i32::MIN <= mean(store, query) <= i32::MAX,
{
    let hits = matching(store, query);
    if hits.len() > 0 {
        lemma_total_bounds(hits);
        lemma_quotient_bounds(total(hits), hits.len() as int);
    }
}

/// Records `point` at the end of `storage`. Nothing already stored changes.
pub fn handle_insert(storage: &mut Vec<PricePoint>, point: PricePoint)
    ensures
        final(storage)@ == old(storage)@.push(point),
{
    storage.push(point);
}

/// Answers `query` over `storage`: the mean price of the observations whose
/// timestamp lies in the range, rounded toward zero.
///
/// An inverted range, an empty store and a range that covers nothing all
/// give `0`. The running sum is wide enough for any number of observations,
/// and `storage` is only read.
pub fn handle_avg_query(storage: &Vec<PricePoint>, query: QueryRange) -> (avg: i32)
    ensures
        avg == mean(storage@, query),
        query.start > query.end ==> avg == 0,
        storage@.len() == 0 ==> avg == 0,
        (forall|i: int| 0 <= i < storage@.len() ==> !query.covers(#[trigger] storage@[i].0))
            ==> avg == 0,
{
    if query.start > query.end {
        proof {
            lemma_mean_of_none(storage@, query);
        }
        return 0;
    }
    let mut count: u64 = 0;
    let mut sum: i128 = 0;
    let mut i: usize = 0;
    while i < storage.len()
        invariant
            i <= storage@.len(),
            count == matching(storage@.take(i as int), query).len(),
            count <= i,
            sum == total(matching(storage@.take(i as int), query)),
            count * i32::MIN <= sum <= count * i32::MAX,
        decreases storage@.len() - i,
    {
        let point = storage[i];
        proof {
            assert(storage@.take(i + 1) =~= storage@.take(i as int).push(point));
            lemma_matching_push(storage@.take(i as int), point, query);
            lemma_total_push(matching(storage@.take(i as int), query), point);
        }
        if point.0 >= query.start && point.0 <= query.end {
            count = count + 1;
            sum = sum + point.1 as i128;
        }
        i = i + 1;
    }
    proof {
        assert(storage@.take(i as int) =~= storage@);
        lemma_mean_of_none(storage@, query);
    }
    if count == 0 {
        0
    } else {
        proof {
            lemma_quotient_bounds(sum as int, count as int);
        }
        if sum >= 0 {
            ((sum as u128) / (count as u128)) as i32
        } else {
            let magnitude: u128 = ((-sum) as u128) / (count as u128);
            (-(magnitude as i64)) as i32
        }
    }
}

/// Both ends of a range belong to it: an observation stamped exactly `start`
/// or exactly `end` is among those the mean is taken over.
pub proof fn lemma_bounds_inclusive(store: Seq<PricePoint>, query: QueryRange, i: int)
    requires
        query.start <= query.end,
        0 <= i < store.len(),
        store[i].0 == query.start || store[i].0 == query.end,
    ensures
        matching(store, query).contains(store[i]),
        matching(store, query).len() > 0,
{
    store.lemma_filter_contains(|p: PricePoint| query.covers(p.0), i);
}

/// One step of counting the covered observations.
pub open spec fn count_step(query: QueryRange) -> spec_fn(int, PricePoint) -> int {
    |n: int, p: PricePoint|
        if query.covers(p.0) {
            n + 1
        } else {
            n
        }
}

/// One step of summing the prices of the covered observations.
pub open spec fn sum_step(query: QueryRange) -> spec_fn(int, PricePoint) -> int {
    |t: int, p: PricePoint|
        if query.covers(p.0) {
            t + p.1
        } else {
            t
        }
}

/// The number and the total of the covered observations are left folds over
/// the store.
pub proof fn lemma_hits_as_folds(store: Seq<PricePoint>, query: QueryRange)
    ensures
        matching(store, query).len() == store.fold_left(0int, count_step(query)),
        total(matching(store, query)) == store.fold_left(0int, sum_step(query)),
    decreases store.len(),
{
    if store.len() == 0 {
        store.lemma_filter_len(|p: PricePoint| query.covers(p.0));
    } else {
        lemma_hits_as_folds(store.drop_last(), query);
        assert(store.drop_last().push(store.last()) =~= store);
        lemma_matching_push(store.drop_last(), store.last(), query);
        lemma_total_push(matching(store.drop_last(), query), store.last());
    }
}

/// The mean does not depend on the order in which the observations were
/// stored: two stores that hold the same observations, each as many times,
/// answer every query alike. In particular the order among observations
/// with equal timestamps is immaterial.
pub proof fn lemma_mean_order_independent(
    a: Seq<PricePoint>,
    b: Seq<PricePoint>,
    query: QueryRange,
)
    requires
        a.to_multiset() == b.to_multiset(),
    ensures
        matching(a, query).len() == matching(b, query).len(),
        total(matching(a, query)) == total(matching(b, query)),
        mean(a, query) == mean(b, query),
{
    lemma_hits_as_folds(a, query);
    lemma_hits_as_folds(b, query);
    vstd::seq_lib::lemma_fold_left_permutation(a, b, count_step(query), 0int);
    vstd::seq_lib::lemma_fold_left_permutation(a, b, sum_step(query), 0int);
}

} // verus!
