//! Preparing the measurements of one benchmark run for its statistical summary.
use vstd::prelude::*;
use vstd::multiset::Multiset;
use crate::error::Error;
use crate::sample::{sort_samples, sorted_samples};
use crate::stats::{iqr_variance_thresholds, outlier_bounds, thresholds_fit, IQR_FACTOR};

verus! {

/// One paired observation: the candidate-minus-baseline difference, the baseline time and the
/// candidate time, each per iteration.
pub type Row = (i64, u64, u64);

/// Integer division rounding towards zero, as Rust's `/` does on signed integers.
pub open spec fn trunc_div(x: int, d: int) -> int {
    if x == 0 {
        0
    } else if x > 0 && d > 0 {
        x / d
    } else if x < 0 && d < 0 {
        (x * -1) / (d * -1)
    } else if x < 0 {
        ((x * -1) / d) * -1
    } else {
        (x / (d * -1)) * -1
    }
}

/// The candidate-minus-baseline difference of one sample before it is divided by the number of
/// iterations: both measurements are reinterpreted as `i64`.
pub open spec fn raw_diff(candidate: u64, baseline: u64) -> int {
    (#[verifier::truncate] (candidate as i64)) - (#[verifier::truncate] (baseline as i64))
}

/// The number of iterations reinterpreted as `i64`, the divisor of the differences.
pub open spec fn iterations_divisor(iterations: usize) -> int {
    (#[verifier::truncate] (iterations as i64)) as int
}

/// The per-iteration difference of one sample.
pub open spec fn sample_diff(candidate: u64, baseline: u64, iterations: usize) -> int {
    trunc_div(raw_diff(candidate, baseline), iterations_divisor(iterations))
}

/// The per-iteration differences of all samples.
pub open spec fn sample_diffs(baseline: Seq<u64>, candidate: Seq<u64>, iterations: usize) -> Seq<
    i64,
> {
    Seq::new(baseline.len(), |k: int| sample_diff(candidate[k], baseline[k], iterations) as i64)
}

/// The paired per-iteration observations of all samples.
pub open spec fn sample_rows(baseline: Seq<u64>, candidate: Seq<u64>, iterations: usize) -> Seq<
    Row,
> {
    Seq::new(
        baseline.len(),
        |k: int|
            (
                sample_diff(candidate[k], baseline[k], iterations) as i64,
                (baseline[k] / (iterations as u64)) as u64,
                (candidate[k] / (iterations as u64)) as u64,
            ),
    )
}

/// The rows made of three columns of equal length.
pub open spec fn zip_rows(diff: Seq<i64>, baseline: Seq<u64>, candidate: Seq<u64>) -> Seq<Row> {
    Seq::new(diff.len(), |k: int| (diff[k], baseline[k], candidate[k]))
}

/// A row survives outlier filtering when its difference lies within the bounds, if there are any.
pub open spec fn kept(row: Row, bounds: Option<(i64, i64)>) -> bool {
    match bounds {
        None => true,
        Some((low, high)) => low <= row.0 && row.0 <= high,
    }
}

/// The filter that keeps the rows within `bounds`.
pub open spec fn keep_within(bounds: Option<(i64, i64)>) -> spec_fn(Row) -> bool {
    |row: Row| kept(row, bounds)
}

/// The rows of `rows` that survive filtering with `bounds`, without regard to order.
pub open spec fn kept_rows(rows: Seq<Row>, bounds: Option<(i64, i64)>) -> Multiset<Row> {
    rows.filter(keep_within(bounds)).to_multiset()
}

/// The bounds that filtering applies: the outlier thresholds of the differences when filtering
/// is asked for, none otherwise.
pub open spec fn applied_bounds(
    baseline: Seq<u64>,
    candidate: Seq<u64>,
    iterations: usize,
    filter_outliers: bool,
) -> Option<(i64, i64)> {
    if filter_outliers {
        outlier_bounds(sample_diffs(baseline, candidate, iterations))
    } else {
        None
    }
}

/// The arithmetic of the run on these samples stays within the machine integers: each difference
/// fits `i64` and can be divided by the number of iterations, and, when outliers are filtered,
/// the thresholds of the differences fit too.
pub open spec fn run_arithmetic_fits(
    baseline: Seq<u64>,
    candidate: Seq<u64>,
    iterations: usize,
    filter_outliers: bool,
) -> bool {
    &&& baseline.len() > 0 ==> iterations_divisor(iterations) != 0
    &&& forall|k: int|
        0 <= k < baseline.len() ==> {
            let d = #[trigger] raw_diff(candidate[k], baseline[k]);
            &&& i64::MIN <= d <= i64::MAX
            &&& !(d == i64::MIN && iterations_divisor(iterations) == -1)
        }
    &&& filter_outliers ==> {
        &&& baseline.len() * 3 <= usize::MAX
        &&& thresholds_fit(sorted_samples(sample_diffs(baseline, candidate, iterations)))
    }
}

/// The observations of a run that go into its statistical summary.
pub struct RunMeasurements {
    /// Candidate-minus-baseline difference per iteration of each kept sample.
    pub diff: Vec<i64>,
    /// Baseline time per iteration of each kept sample.
    pub baseline: Vec<u64>,
    /// Candidate time per iteration of each kept sample.
    pub candidate: Vec<u64>,
    /// The number of samples dropped as outliers.
    pub outliers: usize,
}

/// Rounding towards zero never leaves `i64`, except for `i64::MIN / -1`.
proof fn lemma_trunc_div_fits(x: int, d: int)
    requires
        i64::MIN <= x <= i64::MAX,
        i64::MIN <= d <= i64::MAX,
        d != 0,
        !(x == i64::MIN && d == -1),
    ensures
        i64::MIN <= trunc_div(x, d) <= i64::MAX,
{
    if x > 0 && d > 0 {
        assert(0 <= x / d <= x) by (nonlinear_arith)
            requires
                x > 0,
                d > 0,
        ;
    } else if x < 0 && d < 0 {
        assert(0 <= (x * -1) / (d * -1) <= x * -1) by (nonlinear_arith)
            requires
                x < 0,
                d < 0,
        ;
        if x == i64::MIN {
            assert((x * -1) / (d * -1) <= (x * -1) / 2) by (nonlinear_arith)
                requires
                    x < 0,
                    d < -1,
            ;
        }
    } else if x < 0 {
        assert(0 <= (x * -1) / d <= x * -1) by (nonlinear_arith)
            requires
                x < 0,
                d > 0,
        ;
    } else if x > 0 {
        assert(0 <= x / (d * -1) <= x) by (nonlinear_arith)
            requires
                x > 0,
                d < 0,
        ;
    }
}

/// The per-iteration difference of one sample.
fn per_iteration_diff(candidate: u64, baseline: u64, iterations: usize) -> (r: i64)
    requires
        iterations_divisor(iterations) != 0,
        i64::MIN <= raw_diff(candidate, baseline) <= i64::MAX,
        !(raw_diff(candidate, baseline) == i64::MIN && iterations_divisor(iterations) == -1),
    ensures
        r == sample_diff(candidate, baseline, iterations),
{
    // Both measurements become i64 because the difference can be negative.
    let c = #[verifier::truncate] (candidate as i64);
    let b = #[verifier::truncate] (baseline as i64);
    let d = c - b;
    let divisor = #[verifier::truncate] (iterations as i64);
    proof {
        lemma_trunc_div_fits(d as int, divisor as int);
    }
    d.checked_div(divisor).unwrap()
}

/// Whether the arithmetic of a run on these samples stays within the machine integers, that is
/// whether [`filter_measurements`] may be called on them.
pub fn run_arithmetic_check(
    baseline: &Vec<u64>,
    candidate: &Vec<u64>,
    iterations_per_sample: usize,
    filter_outliers: bool,
) -> (r: bool)
    requires
        baseline@.len() == candidate@.len(),
    ensures
        r == run_arithmetic_fits(baseline@, candidate@, iterations_per_sample, filter_outliers),
{
    let n = baseline.len();
    if n == 0 {
        proof {
            crate::sample::lemma_sorted_samples_ascending(
                sample_diffs(baseline@, candidate@, iterations_per_sample),
            );
        }
        return true;
    }
    let divisor = #[verifier::truncate] (iterations_per_sample as i64);
    if divisor == 0 {
        return false;
    }
    let mut diff: Vec<i64> = Vec::with_capacity(n);
    let mut k: usize = 0;
    while k < n
        invariant
            n == baseline@.len(),
            n == candidate@.len(),
            k <= n,
            diff@.len() == k,
            divisor as int == iterations_divisor(iterations_per_sample),
            divisor != 0,
            forall|j: int|
                0 <= j < k ==> {
                    let d = #[trigger] raw_diff(candidate@[j], baseline@[j]);
                    &&& i64::MIN <= d <= i64::MAX
                    &&& !(d == i64::MIN && divisor == -1)
                },
            forall|j: int|
                0 <= j < k ==> diff@[j] == sample_diffs(baseline@, candidate@, iterations_per_sample)[j],
        decreases n - k,
    {
        let c = #[verifier::truncate] (candidate[k] as i64);
        let b = #[verifier::truncate] (baseline[k] as i64);
        let wide = c as i128 - b as i128;
        proof {
            assert(wide == raw_diff(candidate@[k as int], baseline@[k as int]));
        }
        if wide < i64::MIN as i128 || wide > i64::MAX as i128 || (wide == i64::MIN as i128
            && divisor == -1) {
            return false;
        }
        diff.push(per_iteration_diff(candidate[k], baseline[k], iterations_per_sample));
        k += 1;
    }
    if !filter_outliers {
        return true;
    }
    if n > usize::MAX / 3 {
        return false;
    }
    assert(diff@ =~= sample_diffs(baseline@, candidate@, iterations_per_sample));
    let ghost sorted = sorted_samples(diff@);
    sort_samples(&mut diff);
    let q1 = n / 4;
    let q3 = n * 3 / 4;
    if q1 >= q3 || q3 >= n || diff[q1] >= diff[q3] {
        return true;
    }
    let iqr = diff[q3] as i128 - diff[q1] as i128;
    let spread = iqr * (IQR_FACTOR as i128);
    spread <= i64::MAX as i128 && diff[q1] as i128 - spread >= i64::MIN as i128 && diff[q3] as i128
        + spread <= i64::MAX as i128
}

/// Filtering the concatenation of two row sequences keeps what filtering each keeps.
proof fn lemma_kept_rows_add(a: Seq<Row>, b: Seq<Row>, bounds: Option<(i64, i64)>)
    ensures
        kept_rows(a + b, bounds) == kept_rows(a, bounds).add(kept_rows(b, bounds)),
{
    let p = keep_within(bounds);
    Seq::filter_distributes_over_add(a, b, p);
    vstd::seq_lib::lemma_multiset_commutative(a.filter(p), b.filter(p));
}

/// Filtering a single row keeps it exactly when it lies within the bounds.
proof fn lemma_kept_rows_single(x: Row, bounds: Option<(i64, i64)>)
    ensures
        kept_rows(seq![x], bounds) == if kept(x, bounds) {
            Multiset::singleton(x)
        } else {
            Multiset::<Row>::empty()
        },
{
    broadcast use vstd::seq_lib::group_to_multiset_ensures;
    broadcast use vstd::multiset::group_multiset_axioms;
    reveal_with_fuel(Seq::filter, 2);
    let s = seq![x];
    assert(s.drop_last() =~= Seq::<Row>::empty());
    if kept(x, bounds) {
        assert(s.filter(keep_within(bounds)) =~= seq![x]);
        assert(seq![x] =~= Seq::<Row>::empty().push(x));
    } else {
        assert(s.filter(keep_within(bounds)) =~= Seq::<Row>::empty());
    }
}

/// The observations of a run that go into its statistical summary.
///
/// Each sample's candidate and baseline times become times per iteration, and their difference
/// per iteration is taken. When `filter_outliers` is set, the samples whose difference lies
/// outside the outlier thresholds are dropped, with their baseline and candidate times; the kept
/// samples may come in another order. Fails with `NoMeasurements` when no sample is left.
pub fn filter_measurements(
    baseline: Vec<u64>,
    candidate: Vec<u64>,
    iterations_per_sample: usize,
    filter_outliers: bool,
) -> (r: Result<RunMeasurements, Error>)
    requires
        baseline@.len() == candidate@.len(),
        run_arithmetic_fits(baseline@, candidate@, iterations_per_sample, filter_outliers),
    ensures
        ({
            let rows = sample_rows(baseline@, candidate@, iterations_per_sample);
            let bounds = applied_bounds(
                baseline@,
                candidate@,
                iterations_per_sample,
                filter_outliers,
            );
            match r {
                Ok(m) => {
                    &&& m.diff@.len() == m.baseline@.len()
                    &&& m.diff@.len() == m.candidate@.len()
                    &&& m.diff@.len() > 0
                    &&& zip_rows(m.diff@, m.baseline@, m.candidate@).to_multiset() == kept_rows(
                        rows,
                        bounds,
                    )
                    &&& m.outliers == baseline@.len() - m.diff@.len()
                    &&& bounds is None ==> zip_rows(m.diff@, m.baseline@, m.candidate@)
                        == rows
                },
                Err(e) => e is NoMeasurements && kept_rows(rows, bounds).len() == 0,
            }
        }),
{
    let ghost b0 = baseline@;
    let ghost c0 = candidate@;
    let n = baseline.len();
    if n == 0 {
        proof {
            lemma_kept_rows_empty(applied_bounds(b0, c0, iterations_per_sample, filter_outliers));
            assert(sample_rows(b0, c0, iterations_per_sample) =~= Seq::<Row>::empty());
        }
        return Err(Error::NoMeasurements);
    }
    let mut diff: Vec<i64> = Vec::with_capacity(n);
    let mut k: usize = 0;
    while k < n
        invariant
            n == b0.len(),
            n == c0.len(),
            baseline@ == b0,
            candidate@ == c0,
            k <= n,
            diff@.len() == k,
            run_arithmetic_fits(b0, c0, iterations_per_sample, filter_outliers),
            forall|j: int|
                0 <= j < k ==> diff@[j] == sample_diffs(b0, c0, iterations_per_sample)[j],
        decreases n - k,
    {
        diff.push(per_iteration_diff(candidate[k], baseline[k], iterations_per_sample));
        k += 1;
    }
    assert(diff@ =~= sample_diffs(b0, c0, iterations_per_sample));

    // Normalizing measurements
    let divisor = iterations_per_sample as u64;
    let mut baseline = baseline;
    let mut candidate = candidate;
    k = 0;
    while k < n
        invariant
            n == b0.len(),
            n == c0.len(),
            baseline@.len() == n,
            candidate@.len() == n,
            k <= n,
            divisor == iterations_per_sample as u64,
            divisor > 0,
            forall|j: int| 0 <= j < k ==> baseline@[j] == b0[j] / divisor,
            forall|j: int| k <= j < n ==> baseline@[j] == b0[j],
            forall|j: int| 0 <= j < k ==> candidate@[j] == c0[j] / divisor,
            forall|j: int| k <= j < n ==> candidate@[j] == c0[j],
        decreases n - k,
    {
        let b = baseline[k] / divisor;
        baseline.set(k, b);
        let c = candidate[k] / divisor;
        candidate.set(k, c);
        k += 1;
    }
    let ghost rows = sample_rows(b0, c0, iterations_per_sample);
    assert(zip_rows(diff@, baseline@, candidate@) =~= rows);

    // Calculating measurements range. All measurements outside this interval are outliers.
    let range = if filter_outliers {
        iqr_variance_thresholds(diff.clone())
    } else {
        None
    };
    let ghost bounds = applied_bounds(b0, c0, iterations_per_sample, filter_outliers);

    // Cleaning measurements from outliers if needed. The order of the samples does not matter
    // for the summary, therefore swap_remove() is used, on all three columns alike.
    proof {
        lemma_kept_rows_empty(bounds);
    }
    if let Some(range) = range {
        let mut i: usize = 0;
        proof {
            broadcast use vstd::seq_lib::group_to_multiset_ensures;
            broadcast use vstd::multiset::group_multiset_axioms;
            let z = zip_rows(diff@, baseline@, candidate@);
            assert(z.subrange(0, 0) =~= Seq::<Row>::empty());
            assert(z.subrange(0, diff@.len() as int) =~= z);
            assert(z.subrange(0, 0).to_multiset().add(kept_rows(z, bounds)) =~= kept_rows(rows, bounds));
        }
        while i < diff.len()
            invariant
                diff@.len() == baseline@.len(),
                diff@.len() == candidate@.len(),
                i <= diff@.len(),
                diff@.len() <= n,
                bounds == Some((range@.start, range@.end)),
                !range@.exhausted,
                zip_rows(diff@, baseline@, candidate@).subrange(0, i as int).to_multiset().add(
                    kept_rows(
                        zip_rows(diff@, baseline@, candidate@).subrange(
                            i as int,
                            diff@.len() as int,
                        ),
                        bounds,
                    ),
                ) == kept_rows(rows, bounds),
            decreases diff@.len() - i,
        {
            let ghost z = zip_rows(diff@, baseline@, candidate@);
            let ghost len = diff@.len() as int;
            proof {
                lemma_kept_rows_single(z[i as int], bounds);
                assert(z.subrange(i as int, len) =~= seq![z[i as int]] + z.subrange(
                    i + 1,
                    len,
                ));
                lemma_kept_rows_add(seq![z[i as int]], z.subrange(i + 1, len), bounds);
            }
            if range.contains(&diff[i]) {
                proof {
                    broadcast use vstd::seq_lib::group_to_multiset_ensures;
                    broadcast use vstd::multiset::group_multiset_axioms;
                    assert(kept(z[i as int], bounds));
                    assert(z.subrange(0, i + 1) =~= z.subrange(0, i as int).push(z[i as int]));
                    assert(z.subrange(0, i + 1).to_multiset() =~= z.subrange(
                        0,
                        i as int,
                    ).to_multiset().insert(z[i as int]));
                }
                i += 1;
                proof {
                    broadcast use vstd::multiset::group_multiset_axioms;
                    let z2 = zip_rows(diff@, baseline@, candidate@);
                    assert(z2 == z);
                    assert(z2.subrange(0, i as int).to_multiset().add(
                        kept_rows(z2.subrange(i as int, len), bounds),
                    ) =~= kept_rows(rows, bounds));
                }
            } else {
                proof {
                    assert(!kept(z[i as int], bounds));
                }
                diff.swap_remove(i);
                baseline.swap_remove(i);
                candidate.swap_remove(i);
                proof {
                    broadcast use vstd::multiset::group_multiset_axioms;
                    let z2 = zip_rows(diff@, baseline@, candidate@);
                    assert(z2 =~= z.update(i as int, z.last()).drop_last());
                    assert(z2.subrange(0, i as int) =~= z.subrange(0, i as int));
                    if i + 1 == len {
                        assert(z2.subrange(i as int, len - 1) =~= Seq::<Row>::empty());
                        assert(z.subrange(i + 1, len) =~= Seq::<Row>::empty());
                    } else {
                        let mid = z.subrange(i + 1, len - 1);
                        assert(z.subrange(i + 1, len) =~= mid + seq![z.last()]);
                        assert(z2.subrange(i as int, len - 1) =~= seq![z.last()] + mid);
                        lemma_kept_rows_add(mid, seq![z.last()], bounds);
                        lemma_kept_rows_add(seq![z.last()], mid, bounds);
                    }
                    assert(z2.subrange(0, i as int).to_multiset().add(
                        kept_rows(z2.subrange(i as int, len - 1), bounds),
                    ) =~= kept_rows(rows, bounds));
                }
            }
        }
    }
    proof {
        broadcast use vstd::multiset::group_multiset_axioms;
        let z = zip_rows(diff@, baseline@, candidate@);
        assert(z.subrange(0, diff@.len() as int) =~= z);
        assert(z.subrange(diff@.len() as int, diff@.len() as int) =~= Seq::<Row>::empty());
        if range is None {
            assert(bounds is None);
            assert(z.filter(keep_within(bounds)) =~= z) by {
                lemma_filter_all(z, keep_within(bounds));
            }
        }
    }
    let remaining = diff.len();
    if remaining == 0 {
        proof {
            broadcast use vstd::seq_lib::group_to_multiset_ensures;
            let z = zip_rows(diff@, baseline@, candidate@);
            assert(z =~= Seq::<Row>::empty());
        }
        return Err(Error::NoMeasurements);
    }
    Ok(RunMeasurements { diff, baseline, candidate, outliers: n - remaining })
}

/// Filtering no rows keeps none.
proof fn lemma_kept_rows_empty(bounds: Option<(i64, i64)>)
    ensures
        kept_rows(Seq::<Row>::empty(), bounds) == Multiset::<Row>::empty(),
{
    broadcast use vstd::seq_lib::group_to_multiset_ensures;
    reveal(Seq::filter);
    assert(Seq::<Row>::empty().filter(keep_within(bounds)) =~= Seq::<Row>::empty());
    assert(Seq::<Row>::empty().to_multiset() =~= Multiset::<Row>::empty());
}

/// Filtering keeps each row within the bounds as often as it occurs, and no other row.
pub proof fn law_kept_rows_count(rows: Seq<Row>, bounds: Option<(i64, i64)>, x: Row)
    ensures
        kept_rows(rows, bounds).count(x) == if kept(x, bounds) {
            rows.to_multiset().count(x)
        } else {
            0
        },
    decreases rows.len(),
{
    broadcast use vstd::seq_lib::group_to_multiset_ensures;
    broadcast use vstd::multiset::group_multiset_axioms;
    if rows.len() == 0 {
        lemma_kept_rows_empty(bounds);
    } else {
        let init = rows.drop_last();
        let last = rows.last();
        law_kept_rows_count(init, bounds, x);
        assert(rows =~= init + seq![last]);
        lemma_kept_rows_add(init, seq![last], bounds);
        lemma_kept_rows_single(last, bounds);
        vstd::seq_lib::lemma_multiset_commutative(init, seq![last]);
        assert(seq![last].to_multiset() =~= Multiset::singleton(last)) by {
            assert(seq![last] =~= Seq::<Row>::empty().push(last));
        }
    }
}

/// Without outlier filtering, every sample is kept.
pub proof fn law_unfiltered_keeps_every_sample(
    baseline: Seq<u64>,
    candidate: Seq<u64>,
    iterations: usize,
)
    ensures
        kept_rows(
            sample_rows(baseline, candidate, iterations),
            applied_bounds(baseline, candidate, iterations, false),
        ) == sample_rows(baseline, candidate, iterations).to_multiset(),
{
    let rows = sample_rows(baseline, candidate, iterations);
    lemma_filter_all(rows, keep_within(None));
}

/// With outlier filtering, whatever the number of iterations per sample, a sample is kept exactly
/// when its per-iteration difference lies within the outlier range of all the per-iteration
/// differences, or always when that range is absent: each such sample is kept as often as it
/// occurs, and no other sample is kept.
pub proof fn law_filtered_keeps_samples_within_outlier_range(
    baseline: Seq<u64>,
    candidate: Seq<u64>,
    iterations: usize,
    x: Row,
)
    ensures
        ({
            let rows = sample_rows(baseline, candidate, iterations);
            kept_rows(rows, applied_bounds(baseline, candidate, iterations, true)).count(x) == match outlier_bounds(
                sample_diffs(baseline, candidate, iterations),
            ) {
                None => rows.to_multiset().count(x),
                Some((low, high)) => if low <= x.0 <= high {
                    rows.to_multiset().count(x)
                } else {
                    0
                },
            }
        }),
{
    let rows = sample_rows(baseline, candidate, iterations);
    law_kept_rows_count(rows, applied_bounds(baseline, candidate, iterations, true), x);
}

/// A filter that keeps every element leaves a sequence unchanged.
proof fn lemma_filter_all(s: Seq<Row>, p: spec_fn(Row) -> bool)
    requires
        forall|x: Row| #[trigger] p(x),
    ensures
        s.filter(p) == s,
    decreases s.len(),
{
    reveal(Seq::filter);
    if s.len() > 0 {
        lemma_filter_all(s.drop_last(), p);
        assert(s.drop_last().push(s.last()) =~= s);
    }
}

} // verus!
