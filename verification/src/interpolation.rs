//! Order-independent zero-order-hold interpolation of a sampled series to a
//! query instant.

use vstd::prelude::*;
use crate::decimal::Decimal;
use crate::timestamp::Timestamp;

verus! {

/// Why a series could not be evaluated at an instant.
#[derive(Clone, Copy, Debug, PartialEq, Eq, Structural)]
pub enum InterpolationError {
    /// The query instant lies outside the span of the samples. `left` and
    /// `right` are the earliest and latest sample instants, `out` the query,
    /// all in milliseconds since the epoch.
    OutOfDomain { left: i64, right: i64, out: i64 },
    /// The two input arrays differ in length.
    LengthMismatch { times: usize, values: usize },
    /// There are no samples at all.
    NoSamples,
}

/// Every sample lies strictly after `at`.
pub open spec fn before_all(times: Seq<Timestamp>, at: Timestamp) -> bool {
    forall|i: int| 0 <= i < times.len() ==> at.instant() < (#[trigger] times[i]).instant()
}

/// Every sample lies strictly before `at`.
pub open spec fn after_all(times: Seq<Timestamp>, at: Timestamp) -> bool {
    forall|i: int| 0 <= i < times.len() ==> (#[trigger] times[i]).instant() < at.instant()
}

/// `i` is the position of an earliest sample.
pub open spec fn is_earliest(times: Seq<Timestamp>, i: int) -> bool {
    &&& 0 <= i < times.len()
    &&& forall|j: int| 0 <= j < times.len() ==> times[i].instant() <= (#[trigger] times[j]).instant()
}

/// `i` is the position of a latest sample.
pub open spec fn is_latest(times: Seq<Timestamp>, i: int) -> bool {
    &&& 0 <= i < times.len()
    &&& forall|j: int| 0 <= j < times.len() ==> (#[trigger] times[j]).instant() <= times[i].instant()
}

/// `i` is one of the latest samples that are not after `at`.
pub open spec fn is_latest_not_after(times: Seq<Timestamp>, at: Timestamp, i: int) -> bool {
    &&& 0 <= i < times.len()
    &&& times[i].instant() <= at.instant()
    &&& forall|j: int|
        0 <= j < times.len() && (#[trigger] times[j]).instant() <= at.instant()
            ==> times[j].instant() <= times[i].instant()
}

/// `i` is the sample whose value is held at `at`: among the latest samples
/// that are not after `at`, one with the greatest value. Where several of
/// them carry that value, `i` is the first, so that `i` is unique; the value
/// does not depend on which of them it is.
pub open spec fn is_held(times: Seq<Timestamp>, values: Seq<Decimal>, at: Timestamp, i: int) -> bool {
    &&& is_latest_not_after(times, at, i)
    &&& forall|j: int|
        0 <= j < times.len() && (#[trigger] times[j]).instant() == times[i].instant()
            ==> values[j].value() <= values[i].value()
    &&& forall|j: int|
        0 <= j < i ==> !((#[trigger] times[j]).instant() == times[i].instant() && values[j].value()
            == values[i].value())
}

/// The instant of the earliest sample of a non-empty series.
pub open spec fn earliest_instant(times: Seq<Timestamp>) -> int {
    times[choose|i: int| is_earliest(times, i)].instant()
}

/// The instant of the latest sample of a non-empty series.
pub open spec fn latest_instant(times: Seq<Timestamp>) -> int {
    times[choose|i: int| is_latest(times, i)].instant()
}

/// The position of the sample held at `at`.
pub open spec fn held_index(times: Seq<Timestamp>, values: Seq<Decimal>, at: Timestamp) -> int {
    choose|i: int| is_held(times, values, at, i)
}

/// What evaluating the series `(times, values)` at `at` yields.
///
/// Between two samples the series keeps the value of the earlier one. Of
/// samples taken at one instant the greatest value counts, so that the
/// result is the same in whatever order the samples come; the fill value of
/// minus ninety-nine thereby yields to every greater value.
pub open spec fn interp1d_spec(times: Seq<Timestamp>, values: Seq<Decimal>, at: Timestamp) -> Result<
    Decimal,
    InterpolationError,
> {
    if times.len() != values.len() {
        Err(
            InterpolationError::LengthMismatch {
                times: times.len() as usize,
                values: values.len() as usize,
            },
        )
    } else if times.len() == 0 {
        Err(InterpolationError::NoSamples)
    } else if before_all(times, at) || after_all(times, at) {
        Err(
            InterpolationError::OutOfDomain {
                left: earliest_instant(times) as i64,
                right: latest_instant(times) as i64,
                out: at.utc_millis,
            },
        )
    } else {
        Ok(values[held_index(times, values, at)])
    }
}

/// Two positions that are both earliest carry the same instant.
pub proof fn lemma_earliest_unique(times: Seq<Timestamp>, i: int, j: int)
    requires
        is_earliest(times, i),
        is_earliest(times, j),
    ensures
        times[i].instant() == times[j].instant(),
{
}

/// Two positions that are both latest carry the same instant.
pub proof fn lemma_latest_unique(times: Seq<Timestamp>, i: int, j: int)
    requires
        is_latest(times, i),
        is_latest(times, j),
    ensures
        times[i].instant() == times[j].instant(),
{
}

/// At most one position is held at a given instant.
pub proof fn lemma_held_unique(
    times: Seq<Timestamp>,
    values: Seq<Decimal>,
    at: Timestamp,
    i: int,
    j: int,
)
    requires
        is_held(times, values, at, i),
        is_held(times, values, at, j),
    ensures
        i == j,
{
    assert(times[i].instant() == times[j].instant());
    assert(values[i].value() == values[j].value());
}

/// A non-empty series has an earliest and a latest sample.
pub proof fn lemma_extremes_exist(times: Seq<Timestamp>)
    requires
        times.len() > 0,
    ensures
        exists|i: int| is_earliest(times, i),
        exists|i: int| is_latest(times, i),
    decreases times.len(),
{
    if times.len() == 1 {
        assert(is_earliest(times, 0));
        assert(is_latest(times, 0));
    } else {
        let head = times.drop_last();
        lemma_extremes_exist(head);
        let e = choose|i: int| is_earliest(head, i);
        let l = choose|i: int| is_latest(head, i);
        let last = times.len() - 1;
        assert(forall|j: int| 0 <= j < last ==> times[j] == head[j]);
        if times[last].instant() < head[e].instant() {
            assert(is_earliest(times, last));
        } else {
            assert(is_earliest(times, e));
        }
        if times[last].instant() > head[l].instant() {
            assert(is_latest(times, last));
        } else {
            assert(is_latest(times, l));
        }
    }
}

/// The sample that is held once one more sample is known: the new sample
/// where it is later than the one held so far without being after `at`, or
/// as late with a greater value; else the one held so far.
proof fn lemma_held_step(
    times: Seq<Timestamp>,
    values: Seq<Decimal>,
    at: Timestamp,
    h: int,
)
    requires
        times.len() == values.len(),
        times.len() > 0,
        is_held(times.drop_last(), values.drop_last(), at, h),
    ensures
        ({
            let last = times.len() - 1;
            if times[last].instant() <= at.instant() && (times[last].instant() > times[h].instant()
                || (times[last].instant() == times[h].instant() && values[last].value()
                > values[h].value())) {
                is_held(times, values, at, last)
            } else {
                is_held(times, values, at, h)
            }
        }),
{
    let head_t = times.drop_last();
    let head_v = values.drop_last();
    let last = times.len() - 1;
    assert(forall|j: int| 0 <= j < last ==> times[j] == head_t[j]);
    assert(forall|j: int| 0 <= j < last ==> values[j] == head_v[j]);
    if times[last].instant() <= at.instant() && (times[last].instant() > times[h].instant() || (
    times[last].instant() == times[h].instant() && values[last].value() > values[h].value())) {
        assert forall|j: int|
            0 <= j < times.len() && (#[trigger] times[j]).instant()
                <= at.instant() implies times[j].instant() <= times[last].instant() by {
            if j < last {
                assert(head_t[j].instant() <= head_t[h].instant());
            }
        }
        assert forall|j: int|
            0 <= j < times.len() && (#[trigger] times[j]).instant()
                == times[last].instant() implies values[j].value() <= values[last].value() by {
            if j < last {
                assert(head_t[j].instant() <= head_t[h].instant());
                assert(head_v[j].value() <= head_v[h].value());
            }
        }
        assert forall|j: int| 0 <= j < last implies !((#[trigger] times[j]).instant()
            == times[last].instant() && values[j].value() == values[last].value()) by {
            if times[j].instant() == times[last].instant() {
                assert(head_t[j].instant() <= head_t[h].instant());
                assert(head_v[j].value() <= head_v[h].value());
            }
        }
        assert(is_held(times, values, at, last));
    } else {
        assert forall|j: int|
            0 <= j < times.len() && (#[trigger] times[j]).instant()
                <= at.instant() implies times[j].instant() <= times[h].instant() by {
            if j < last {
                assert(head_t[j].instant() <= head_t[h].instant());
            }
        }
        assert forall|j: int|
            0 <= j < times.len() && (#[trigger] times[j]).instant()
                == times[h].instant() implies values[j].value() <= values[h].value() by {
            if j < last {
                assert(head_t[j].instant() == head_t[h].instant());
                assert(head_v[j].value() <= head_v[h].value());
            }
        }
        assert forall|j: int| 0 <= j < h implies !((#[trigger] times[j]).instant()
            == times[h].instant() && values[j].value() == values[h].value()) by {
            assert(!(head_t[j].instant() == head_t[h].instant() && head_v[j].value()
                == head_v[h].value()));
        }
        assert(is_held(times, values, at, h));
    }
}

/// The first sample that is not after `at` is held as long as every sample
/// before it is after `at`.
proof fn lemma_held_first(times: Seq<Timestamp>, values: Seq<Decimal>, at: Timestamp)
    requires
        times.len() == values.len(),
        times.len() > 0,
        before_all(times.drop_last(), at),
        times.last().instant() <= at.instant(),
    ensures
        is_held(times, values, at, times.len() - 1),
{
    let head_t = times.drop_last();
    let last = times.len() - 1;
    assert forall|j: int| 0 <= j < last implies at.instant() < (#[trigger] times[j]).instant() by {
        assert(times[j] == head_t[j]);
    }
}

/// Unless every sample lies after `at`, some sample is held at `at`.
pub proof fn lemma_held_exists(times: Seq<Timestamp>, values: Seq<Decimal>, at: Timestamp)
    requires
        times.len() == values.len(),
        !before_all(times, at),
    ensures
        exists|i: int| is_held(times, values, at, i),
    decreases times.len(),
{
    let w = choose|i: int| 0 <= i < times.len() && !(at.instant() < (#[trigger] times[i]).instant());
    let head_t = times.drop_last();
    let head_v = values.drop_last();
    let last = times.len() - 1;
    assert(forall|j: int| 0 <= j < last ==> times[j] == head_t[j]);
    if before_all(head_t, at) {
        assert(w == last);
        lemma_held_first(times, values, at);
    } else {
        lemma_held_exists(head_t, head_v, at);
        let h = choose|i: int| is_held(head_t, head_v, at, i);
        lemma_held_step(times, values, at, h);
    }
}

/// The samples of a series as pairs of instant and value.
pub open spec fn samples(times: Seq<Timestamp>, values: Seq<Decimal>) -> Seq<(Timestamp, Decimal)> {
    Seq::new(times.len(), |i: int| (times[i], values[i]))
}

/// A query instant strictly before the earliest sample, or strictly after the
/// latest one, is always out of domain and never yields a value.
pub proof fn law_outside_span_is_out_of_domain(
    times: Seq<Timestamp>,
    values: Seq<Decimal>,
    at: Timestamp,
)
    requires
        times.len() == values.len(),
        times.len() > 0,
        at.instant() < earliest_instant(times) || latest_instant(times) < at.instant(),
    ensures
        interp1d_spec(times, values, at) == Err::<Decimal, InterpolationError>(
            InterpolationError::OutOfDomain {
                left: earliest_instant(times) as i64,
                right: latest_instant(times) as i64,
                out: at.utc_millis,
            },
        ),
{
    lemma_extremes_exist(times);
    let e = choose|i: int| is_earliest(times, i);
    let l = choose|i: int| is_latest(times, i);
    if at.instant() < earliest_instant(times) {
        assert(before_all(times, at));
    } else {
        assert(after_all(times, at));
    }
}

/// Conversely, a query instant within the span of the samples always yields
/// the value of one of them: the greatest of the values of the latest
/// samples that are not after the query.
pub proof fn law_inside_span_yields_sample(
    times: Seq<Timestamp>,
    values: Seq<Decimal>,
    at: Timestamp,
)
    requires
        times.len() == values.len(),
        times.len() > 0,
        earliest_instant(times) <= at.instant() <= latest_instant(times),
    ensures
        interp1d_spec(times, values, at) is Ok,
        is_held(times, values, at, held_index(times, values, at)),
        interp1d_spec(times, values, at) == Ok::<Decimal, InterpolationError>(
            values[held_index(times, values, at)],
        ),
{
    lemma_extremes_exist(times);
    let e = choose|i: int| is_earliest(times, i);
    let l = choose|i: int| is_latest(times, i);
    assert(!(at.instant() < times[e].instant()));
    assert(!(times[l].instant() < at.instant()));
    assert(!before_all(times, at));
    assert(!after_all(times, at));
    lemma_held_exists(times, values, at);
}

/// Every sample of one series occurs in a series with the same multiset of
/// samples.
proof fn lemma_sample_transfers(
    t1: Seq<Timestamp>,
    v1: Seq<Decimal>,
    t2: Seq<Timestamp>,
    v2: Seq<Decimal>,
    i: int,
) -> (j: int)
    requires
        t1.len() == v1.len(),
        t2.len() == v2.len(),
        samples(t1, v1).to_multiset() == samples(t2, v2).to_multiset(),
        0 <= i < t1.len(),
    ensures
        0 <= j < t2.len(),
        t2[j] == t1[i],
        v2[j] == v1[i],
{
    let s1 = samples(t1, v1);
    let s2 = samples(t2, v2);
    s1.to_multiset_ensures();
    s2.to_multiset_ensures();
    assert(s1[i] == (t1[i], v1[i]));
    assert(s1.contains(s1[i]));
    assert(s1.to_multiset().count(s1[i]) > 0);
    assert(s2.to_multiset().count(s1[i]) > 0);
    assert(s2.contains(s1[i]));
    let j = choose|j: int| 0 <= j < s2.len() && s2[j] == s1[i];
    assert(s2[j] == (t2[j], v2[j]));
    j
}

/// Series with the same multiset of samples have the same length.
proof fn lemma_same_length(t1: Seq<Timestamp>, v1: Seq<Decimal>, t2: Seq<Timestamp>, v2: Seq<Decimal>)
    requires
        samples(t1, v1).to_multiset() == samples(t2, v2).to_multiset(),
    ensures
        t1.len() == t2.len(),
{
    samples(t1, v1).to_multiset_ensures();
    samples(t2, v2).to_multiset_ensures();
}

/// Whether every sample lies on one side of `at` depends on the multiset of
/// samples alone.
proof fn lemma_sides_transfer(
    t1: Seq<Timestamp>,
    v1: Seq<Decimal>,
    t2: Seq<Timestamp>,
    v2: Seq<Decimal>,
    at: Timestamp,
)
    requires
        t1.len() == v1.len(),
        t2.len() == v2.len(),
        samples(t1, v1).to_multiset() == samples(t2, v2).to_multiset(),
    ensures
        before_all(t1, at) ==> before_all(t2, at),
        after_all(t1, at) ==> after_all(t2, at),
{
    if before_all(t1, at) {
        assert forall|j: int| 0 <= j < t2.len() implies at.instant() < (
        #[trigger] t2[j]).instant() by {
            let i = lemma_sample_transfers(t2, v2, t1, v1, j);
        }
    }
    if after_all(t1, at) {
        assert forall|j: int| 0 <= j < t2.len() implies (#[trigger] t2[j]).instant()
            < at.instant() by {
            let i = lemma_sample_transfers(t2, v2, t1, v1, j);
        }
    }
}

/// The earliest and latest instants depend on the multiset of samples alone.
proof fn lemma_extremes_transfer(
    t1: Seq<Timestamp>,
    v1: Seq<Decimal>,
    t2: Seq<Timestamp>,
    v2: Seq<Decimal>,
)
    requires
        t1.len() == v1.len(),
        t2.len() == v2.len(),
        t1.len() > 0,
        t2.len() > 0,
        samples(t1, v1).to_multiset() == samples(t2, v2).to_multiset(),
    ensures
        earliest_instant(t1) == earliest_instant(t2),
        latest_instant(t1) == latest_instant(t2),
{
    lemma_extremes_exist(t1);
    lemma_extremes_exist(t2);
    let e1 = choose|i: int| is_earliest(t1, i);
    let e2 = choose|i: int| is_earliest(t2, i);
    let l1 = choose|i: int| is_latest(t1, i);
    let l2 = choose|i: int| is_latest(t2, i);
    let e1b = lemma_sample_transfers(t1, v1, t2, v2, e1);
    let e2b = lemma_sample_transfers(t2, v2, t1, v1, e2);
    let l1b = lemma_sample_transfers(t1, v1, t2, v2, l1);
    let l2b = lemma_sample_transfers(t2, v2, t1, v1, l2);
    assert(t1[e1].instant() <= t1[e2b].instant());
    assert(t2[e2].instant() <= t2[e1b].instant());
    assert(t1[l2b].instant() <= t1[l1].instant());
    assert(t2[l1b].instant() <= t2[l2].instant());
}

/// The held value depends on the multiset of samples alone.
proof fn lemma_held_transfers(
    t1: Seq<Timestamp>,
    v1: Seq<Decimal>,
    t2: Seq<Timestamp>,
    v2: Seq<Decimal>,
    at: Timestamp,
)
    requires
        t1.len() == v1.len(),
        t2.len() == v2.len(),
        samples(t1, v1).to_multiset() == samples(t2, v2).to_multiset(),
        !before_all(t1, at),
        !before_all(t2, at),
    ensures
        v1[held_index(t1, v1, at)] == v2[held_index(t2, v2, at)],
{
    lemma_held_exists(t1, v1, at);
    lemma_held_exists(t2, v2, at);
    let h1 = held_index(t1, v1, at);
    let h2 = held_index(t2, v2, at);
    let h1b = lemma_sample_transfers(t1, v1, t2, v2, h1);
    let h2b = lemma_sample_transfers(t2, v2, t1, v1, h2);
    assert(t2[h1b].instant() <= t2[h2].instant());
    assert(t1[h2b].instant() <= t1[h1].instant());
    assert(t1[h1].instant() == t2[h2].instant());
    assert(v2[h1b].value() <= v2[h2].value());
    assert(v1[h2b].value() <= v1[h1].value());
    assert(v1[h1].value() == v2[h2].value());
}

/// Shuffling the samples never changes what the series yields at a fixed
/// query instant.
pub proof fn law_permutation_invariant(
    t1: Seq<Timestamp>,
    v1: Seq<Decimal>,
    t2: Seq<Timestamp>,
    v2: Seq<Decimal>,
    at: Timestamp,
)
    requires
        t1.len() == v1.len(),
        t2.len() == v2.len(),
        samples(t1, v1).to_multiset() == samples(t2, v2).to_multiset(),
    ensures
        interp1d_spec(t1, v1, at) == interp1d_spec(t2, v2, at),
{
    lemma_same_length(t1, v1, t2, v2);
    if t1.len() > 0 {
        lemma_sides_transfer(t1, v1, t2, v2, at);
        lemma_sides_transfer(t2, v2, t1, v1, at);
        lemma_extremes_transfer(t1, v1, t2, v2);
        if !before_all(t1, at) && !after_all(t1, at) {
            lemma_held_transfers(t1, v1, t2, v2, at);
        }
    }
}

/// A zero-order-hold interpolator: between two samples the series keeps the
/// value of the earlier one. The samples may come in any order.
#[derive(Clone, Copy, Debug)]
pub struct ConstantValueInterp {}

impl ConstantValueInterp {
    /// An interpolator.
    pub fn new() -> (r: Self) {
        ConstantValueInterp {  }
    }

    /// Evaluates the series at `at`.
    ///
    /// Fails with `LengthMismatch` when the arrays differ in length, with
    /// `NoSamples` when they are empty, and with `OutOfDomain` exactly when
    /// `at` is strictly before every sample or strictly after every sample.
    /// Otherwise the value of the held sample is returned: of the latest
    /// samples that are not after `at`, the greatest value.
    pub fn interp1d_to_time(&self, times: &[Timestamp], values: &[Decimal], at: Timestamp) -> (r:
        Result<Decimal, InterpolationError>)
        ensures
            r == interp1d_spec(times@, values@, at),
    {
        let n = times.len();
        if n != values.len() {
            return Err(InterpolationError::LengthMismatch { times: n, values: values.len() });
        }
        if n == 0 {
            return Err(InterpolationError::NoSamples);
        }
        let mut lo: usize = 0;
        let mut hi: usize = 0;
        // `held` is meaningful once `found` is set.
        let mut found = false;
        let mut held: usize = 0;
        let mut k: usize = 0;
        while k < n
            invariant
                n == times.len(),
                n == values.len(),
                0 <= k <= n,
                n > 0,
                k == 0 ==> lo == 0 && hi == 0 && !found,
                k > 0 ==> is_earliest(times@.take(k as int), lo as int),
                k > 0 ==> is_latest(times@.take(k as int), hi as int),
                found ==> is_held(times@.take(k as int), values@.take(k as int), at, held as int),
                !found ==> before_all(times@.take(k as int), at),
            decreases n - k,
        {
            let t = times[k].utc_millis;
            let ghost prev = times@.take(k as int);
            let ghost next = times@.take(k + 1);
            let ghost next_v = values@.take(k + 1);
            assert(forall|j: int| 0 <= j < k ==> next[j] == prev[j]);
            assert(next[k as int] == times@[k as int]);
            assert(next.drop_last() == prev);
            assert(next_v.drop_last() == values@.take(k as int));
            assert(next_v[k as int] == values@[k as int]);
            if k == 0 {
                lo = 0;
                hi = 0;
            } else {
                if t < times[lo].utc_millis {
                    lo = k;
                }
                if t > times[hi].utc_millis {
                    hi = k;
                }
            }
            if !found {
                if t <= at.utc_millis {
                    proof {
                        lemma_held_first(next, next_v, at);
                    }
                    found = true;
                    held = k;
                }
            } else {
                proof {
                    lemma_held_step(next, next_v, at, held as int);
                }
                if t <= at.utc_millis && (t > times[held].utc_millis || (t
                    == times[held].utc_millis && values[k].billionths
                    > values[held].billionths)) {
                    held = k;
                }
            }
            k += 1;
        }
        assert(times@.take(n as int) == times@);
        assert(values@.take(n as int) == values@);
        proof {
            let e = choose|i: int| is_earliest(times@, i);
            let l = choose|i: int| is_latest(times@, i);
            lemma_earliest_unique(times@, e, lo as int);
            lemma_latest_unique(times@, l, hi as int);
        }
        if !found {
            return Err(
                InterpolationError::OutOfDomain {
                    left: times[lo].utc_millis,
                    right: times[hi].utc_millis,
                    out: at.utc_millis,
                },
            );
        }
        if at.utc_millis > times[hi].utc_millis {
            assert(after_all(times@, at));
            return Err(
                InterpolationError::OutOfDomain {
                    left: times[lo].utc_millis,
                    right: times[hi].utc_millis,
                    out: at.utc_millis,
                },
            );
        }
        proof {
            assert(!before_all(times@, at));
            assert(!after_all(times@, at));
            lemma_held_unique(times@, values@, at, held as int, held_index(times@, values@, at));
        }
        Ok(values[held])
    }
}

} // verus!
