use tango_bench::run::run_arithmetic_check;
use tango_bench::{filter_measurements, Error};

#[test]
fn unfiltered_run_keeps_every_sample() {
    let m = filter_measurements(vec![10, 20, 30], vec![12, 18, 33], 1, false).unwrap();
    assert_eq!(m.diff, vec![2, -2, 3]);
    assert_eq!(m.baseline, vec![10, 20, 30]);
    assert_eq!(m.candidate, vec![12, 18, 33]);
    assert_eq!(m.outliers, 0);
}

#[test]
fn measurements_are_per_iteration() {
    let m = filter_measurements(vec![10, 21], vec![13, 20], 2, false).unwrap();
    assert_eq!(m.diff, vec![1, 0]);
    assert_eq!(m.baseline, vec![5, 10]);
    assert_eq!(m.candidate, vec![6, 10]);
}

#[test]
fn negative_differences_round_towards_zero() {
    let m = filter_measurements(vec![15], vec![10], 2, false).unwrap();
    assert_eq!(m.diff, vec![-2]);
}

#[test]
fn empty_run_has_no_measurements() {
    let r = filter_measurements(vec![], vec![], 1, true);
    assert!(matches!(r, Err(Error::NoMeasurements)));
    let r = filter_measurements(vec![], vec![], 3, false);
    assert!(matches!(r, Err(Error::NoMeasurements)));
    // Nothing is divided when there are no samples, so no number of iterations is refused.
    assert!(run_arithmetic_check(&vec![], &vec![], 0, true));
    let r = filter_measurements(vec![], vec![], 0, true);
    assert!(matches!(r, Err(Error::NoMeasurements)));
}

#[test]
fn outliers_are_filtered_with_their_samples() {
    let diffs: Vec<i64> = {
        let mut d = vec![2000, -2000, 1000, -1000];
        d.extend(1..=20);
        d
    };
    let baseline: Vec<u64> = diffs.iter().map(|_| 10_000).collect();
    let candidate: Vec<u64> = diffs.iter().map(|d| (10_000 + d) as u64).collect();
    let m = filter_measurements(baseline, candidate, 1, true).unwrap();
    // Thresholds -55 and 77: the four far samples are dropped.
    assert_eq!(m.outliers, 4);
    assert_eq!(m.diff.len(), 20);
    let mut kept = m.diff.clone();
    kept.sort();
    let expected: Vec<i64> = (1..=20).collect();
    assert_eq!(kept, expected);
    for i in 0..m.diff.len() {
        assert_eq!(m.baseline[i], 10_000);
        assert_eq!(m.candidate[i] as i64 - m.baseline[i] as i64, m.diff[i]);
    }
}

#[test]
fn filtering_without_outliers_keeps_every_sample() {
    let baseline: Vec<u64> = (1..=20).map(|_| 50).collect();
    let candidate: Vec<u64> = (1..=20).map(|i| 50 + i).collect();
    let m = filter_measurements(baseline, candidate, 1, true).unwrap();
    assert_eq!(m.outliers, 0);
    assert_eq!(m.diff, (1..=20).collect::<Vec<i64>>());
}

#[test]
fn arithmetic_check_rejects_zero_iterations_and_overflow() {
    assert!(!run_arithmetic_check(&vec![1], &vec![2], 0, false));
    assert!(run_arithmetic_check(&vec![1], &vec![2], 1, false));
    // i64::MAX - (-1) does not fit: u64::MAX reads as -1.
    assert!(!run_arithmetic_check(&vec![u64::MAX], &vec![i64::MAX as u64], 1, false));
    assert!(run_arithmetic_check(&vec![10, 20, 30, 40], &vec![11, 22, 33, 44], 1, true));
}
