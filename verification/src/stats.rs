//! Order statistics and outlier detection.
use vstd::prelude::*;
use std::ops::RangeInclusive;
use crate::sample::{
    lemma_sorted_samples_ascending,
    lemma_sorted_samples_ignore_order,
    sort_samples,
    sorted_samples,
    Sample,
};

verus! {

/// Outliers are observations this many interquartile ranges away from the nearest quartile.
pub const IQR_FACTOR: i64 = 5;

/// `s` is in ascending order.
pub open spec fn ascending(s: Seq<i64>) -> bool {
    forall|i: int, j: int| 0 <= i <= j < s.len() ==> s[i] <= s[j]
}

/// The first quartile of the ascending sequence `s`: the element at a quarter of its length.
pub open spec fn first_quartile(s: Seq<i64>) -> i64 {
    s[(s.len() / 4) as int]
}

/// The third quartile of the ascending sequence `s`: the element at three quarters of its length.
pub open spec fn third_quartile(s: Seq<i64>) -> i64 {
    s[(s.len() * 3 / 4) as int]
}

/// The outlier thresholds of the ascending sequence `s`: `Q1 - 5 IQR` and `Q3 + 5 IQR` with
/// `IQR = Q3 - Q1`. There are none when the quartiles coincide (or `s` is too short to tell
/// them apart).
pub open spec fn quartile_thresholds(s: Seq<i64>) -> Option<(int, int)> {
    let n = s.len();
    let q1 = n / 4;
    let q3 = n * 3 / 4;
    if q1 >= q3 || q3 >= n || s[q1 as int] >= s[q3 as int] {
        None
    } else {
        let iqr = s[q3 as int] - s[q1 as int];
        Some((s[q1 as int] - iqr * IQR_FACTOR, s[q3 as int] + iqr * IQR_FACTOR))
    }
}

/// `x` is an outlier: it lies outside the thresholds.
pub open spec fn outside(x: int, thresholds: (int, int)) -> bool {
    x < thresholds.0 || x > thresholds.1
}

/// The range of observations to keep from the ascending sequence `s`: its thresholds, when some
/// observation lies outside them; none when no observation is an outlier.
pub open spec fn quartile_bounds(s: Seq<i64>) -> Option<(i64, i64)> {
    match quartile_thresholds(s) {
        None => None,
        Some(t) => if exists|i: int| 0 <= i < s.len() && outside(#[trigger] s[i] as int, t) {
            Some((t.0 as i64, t.1 as i64))
        } else {
            None
        },
    }
}

/// The range of observations to keep from `input`, in whatever order they come.
pub open spec fn outlier_bounds(input: Seq<i64>) -> Option<(i64, i64)> {
    quartile_bounds(sorted_samples(input))
}

/// The threshold arithmetic on the ascending sequence `s` stays within `i64`.
pub open spec fn thresholds_fit(s: Seq<i64>) -> bool {
    let n = s.len();
    let q1 = n / 4;
    let q3 = n * 3 / 4;
    (q1 < q3 && q3 < n && s[q1 as int] < s[q3 as int]) ==> {
        let iqr = s[q3 as int] - s[q1 as int];
        &&& iqr * IQR_FACTOR <= i64::MAX
        &&& s[q1 as int] - iqr * IQR_FACTOR >= i64::MIN
        &&& s[q3 as int] + iqr * IQR_FACTOR <= i64::MAX
    }
}

/// The median of `measures`: the element in the middle of their ascending order (the upper one
/// of the two middle elements for an even count).
pub fn median<T: Sample>(measures: Vec<T>) -> (r: T)
    requires
        measures@.len() > 0,
    ensures
        r == sorted_samples(measures@)[(measures@.len() / 2) as int],
{
    let mut measures = measures;
    sort_samples(&mut measures);
    measures[measures.len() / 2]
}

/// Outlier detection based on the interquartile range.
///
/// Outliers are observations more than 5 IQR away from the corresponding quartile. Returns the
/// range of observations to keep, `Q1 - 5 IQR ..= Q3 + 5 IQR`, or `None` when no observation is
/// an outlier (or the quartiles coincide, so that no IQR can be told).
pub fn iqr_variance_thresholds(input: Vec<i64>) -> (r: Option<RangeInclusive<i64>>)
    requires
        input@.len() * 3 <= usize::MAX,
        thresholds_fit(sorted_samples(input@)),
    ensures
        match r {
            None => outlier_bounds(input@) is None,
            Some(range) => {
                &&& outlier_bounds(input@) == Some((range@.start, range@.end))
                &&& !range@.exhausted
            },
        },
{
    let ghost unsorted = input@;
    let mut input = input;
    sort_samples(&mut input);
    let ghost s = input@;
    assert(s == sorted_samples(unsorted));
    proof {
        lemma_sorted_samples_ascending(unsorted);
    }
    let n = input.len();
    let q1 = n / 4;
    let q3 = n * 3 / 4;
    if q1 >= q3 || q3 >= n || input[q1] >= input[q3] {
        return None;
    }
    let iqr = input[q3] - input[q1];
    let low_threshold = input[q1] - iqr * IQR_FACTOR;
    let high_threshold = input[q3] + iqr * IQR_FACTOR;
    let ghost t = (low_threshold as int, high_threshold as int);
    assert(quartile_thresholds(s) == Some(t));

    // The observations are in ascending order: the smallest and the largest tell whether any
    // lies outside the thresholds.
    if input[0] >= low_threshold && input[n - 1] <= high_threshold {
        assert forall|i: int| 0 <= i < s.len() implies !outside(#[trigger] s[i] as int, t) by {
            assert(s[0] <= s[i] <= s[n - 1]);
        }
        return None;
    }
    if input[0] < low_threshold {
        assert(outside(s[0] as int, t));
    } else {
        assert(outside(s[n - 1] as int, t));
    }
    Some(RangeInclusive::new(low_threshold, high_threshold))
}

/// The median does not depend on the order in which the measurements come.
pub proof fn law_median_ignores_order<T: Sample>(a: Seq<T>, b: Seq<T>)
    requires
        a.to_multiset() == b.to_multiset(),
    ensures
        a.len() == b.len(),
        sorted_samples(a)[(a.len() / 2) as int] == sorted_samples(b)[(b.len() / 2) as int],
{
    lemma_sorted_samples_ignore_order(a, b);
    lemma_sorted_samples_ascending(a);
    lemma_sorted_samples_ascending(b);
}

/// The outlier thresholds do not depend on the order in which the observations come.
pub proof fn law_outlier_bounds_ignore_order(a: Seq<i64>, b: Seq<i64>)
    requires
        a.to_multiset() == b.to_multiset(),
    ensures
        outlier_bounds(a) == outlier_bounds(b),
{
    lemma_sorted_samples_ignore_order(a, b);
}

/// Outlier filtering never drops the interquartile observations: the kept range reaches from
/// below the first quartile to above the third.
pub proof fn law_outlier_bounds_keep_quartiles(input: Seq<i64>)
    requires
        thresholds_fit(sorted_samples(input)),
        outlier_bounds(input) is Some,
    ensures
        ({
            let s = sorted_samples(input);
            let (low, high) = outlier_bounds(input).unwrap();
            &&& low < first_quartile(s)
            &&& first_quartile(s) < third_quartile(s)
            &&& third_quartile(s) < high
        }),
{
}

/// Outliers are exactly the observations more than 5 IQR away from the corresponding quartile.
/// When a range is returned, it keeps exactly the observations within `Q1 - 5 IQR ..= Q3 + 5 IQR`,
/// and at least one observation lies outside it; when none is returned, either the quartiles
/// coincide or no observation lies outside the thresholds.
pub proof fn law_outliers_beyond_thresholds(input: Seq<i64>)
    requires
        thresholds_fit(sorted_samples(input)),
    ensures
        ({
            let s = sorted_samples(input);
            match outlier_bounds(input) {
                Some((low, high)) => {
                    &&& quartile_thresholds(s) == Some((low as int, high as int))
                    &&& low == first_quartile(s) - (third_quartile(s) - first_quartile(s))
                        * IQR_FACTOR
                    &&& high == third_quartile(s) + (third_quartile(s) - first_quartile(s))
                        * IQR_FACTOR
                    &&& exists|x: i64| input.contains(x) && (x < low || x > high)
                },
                None => match quartile_thresholds(s) {
                    None => true,
                    Some(t) => forall|x: i64| #[trigger] input.contains(x) ==> !outside(x as int, t),
                },
            }
        }),
{
    broadcast use vstd::seq_lib::group_to_multiset_ensures;
    let s = sorted_samples(input);
    lemma_sorted_samples_ascending(input);
    match quartile_thresholds(s) {
        None => {},
        Some(t) => {
            if exists|i: int| 0 <= i < s.len() && outside(#[trigger] s[i] as int, t) {
                let i = choose|i: int| 0 <= i < s.len() && outside(#[trigger] s[i] as int, t);
                assert(s.to_multiset().count(s[i]) > 0);
                assert(input.contains(s[i]));
            } else {
                assert forall|x: i64| #[trigger] input.contains(x) implies !outside(x as int, t) by {
                    assert(input.to_multiset().count(x) > 0);
                    assert(s.contains(x));
                    let i = choose|i: int| 0 <= i < s.len() && s[i] == x;
                    assert(!outside(s[i] as int, t));
                }
            }
        },
    }
}

/// Outliers are the observations more than 5 interquartile ranges below the first quartile or
/// above the third, whatever the sign of the quartiles: when the ascending observations `s` have
/// `Q1 = s[n/4] < Q3 = s[3n/4]`, a range is returned exactly when some observation lies below
/// `Q1 - 5 (Q3 - Q1)` or above `Q3 + 5 (Q3 - Q1)`, and the range runs between those two values.
pub proof fn law_outlier_range_from_quartiles(input: Seq<i64>)
    requires
        input.len() / 4 < input.len() * 3 / 4 < input.len(),
        sorted_samples(input)[(input.len() / 4) as int] < sorted_samples(input)[(input.len() * 3 / 4) as int],
    ensures
        ({
            let s = sorted_samples(input);
            let q1 = s[(input.len() / 4) as int] as int;
            let q3 = s[(input.len() * 3 / 4) as int] as int;
            let low = q1 - 5 * (q3 - q1);
            let high = q3 + 5 * (q3 - q1);
            &&& outlier_bounds(input) is Some <==> exists|x: i64|
                #![trigger input.contains(x)]
                input.contains(x) && (x < low || x > high)
            &&& outlier_bounds(input) is Some && i64::MIN <= low && high <= i64::MAX
                ==> outlier_bounds(input) == Some((low as i64, high as i64))
        }),
{
    broadcast use vstd::seq_lib::group_to_multiset_ensures;
    let s = sorted_samples(input);
    lemma_sorted_samples_ascending(input);
    let n = input.len();
    let q1 = s[(n / 4) as int] as int;
    let q3 = s[(n * 3 / 4) as int] as int;
    let low = q1 - 5 * (q3 - q1);
    let high = q3 + 5 * (q3 - q1);
    let t = (low, high);
    assert(quartile_thresholds(s) == Some(t));
    if exists|i: int| 0 <= i < s.len() && outside(#[trigger] s[i] as int, t) {
        let i = choose|i: int| 0 <= i < s.len() && outside(#[trigger] s[i] as int, t);
        assert(s.to_multiset().count(s[i]) > 0);
        assert(input.contains(s[i]));
    } else {
        assert forall|x: i64| #[trigger] input.contains(x) implies !(x < low || x > high) by {
            assert(input.to_multiset().count(x) > 0);
            assert(s.contains(x));
            let i = choose|i: int| 0 <= i < s.len() && s[i] == x;
            assert(!outside(s[i] as int, t));
        }
    }
}

} // verus!
