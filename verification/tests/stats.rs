use tango_bench::{iqr_variance_thresholds, median, sort_samples};

#[test]
fn median_of_odd_count_is_middle_element() {
    assert_eq!(median(vec![5u64, 1, 3]), 3);
    assert_eq!(median(vec![9i64, -4, 7, 0, 2]), 2);
}

#[test]
fn median_of_even_count_is_upper_middle_element() {
    assert_eq!(median(vec![4u64, 1, 3, 2]), 3);
    assert_eq!(median(vec![10u32, 20]), 20);
}

#[test]
fn median_of_single_measure() {
    assert_eq!(median(vec![42u64]), 42);
}

#[test]
fn median_ignores_order() {
    assert_eq!(median(vec![7u64, 3, 9, 1, 5]), median(vec![1u64, 9, 5, 3, 7]));
}

#[test]
fn sort_samples_orders_ascending() {
    let mut v = vec![3i64, -1, 2, -7, 2];
    sort_samples(&mut v);
    assert_eq!(v, vec![-7, -1, 2, 2, 3]);
}

#[test]
fn iqr_thresholds_none_without_observations() {
    assert!(iqr_variance_thresholds(vec![]).is_none());
    assert!(iqr_variance_thresholds(vec![7]).is_none());
}

#[test]
fn iqr_thresholds_none_when_quartiles_coincide() {
    assert!(iqr_variance_thresholds(vec![5, 5, 5, 5, 5, 1000]).is_none());
}

#[test]
fn iqr_thresholds_none_without_outliers() {
    let input: Vec<i64> = (1..=20).collect();
    assert!(iqr_variance_thresholds(input).is_none());
}

#[test]
fn iqr_thresholds_find_a_high_outlier() {
    // Quartiles 3 and 7, IQR 4: thresholds -17 and 27, and 1000 lies above.
    let range = iqr_variance_thresholds(vec![1, 2, 3, 4, 5, 6, 7, 1000]).unwrap();
    assert!(!range.contains(&1000));
    assert!((1..=7).all(|x| range.contains(&x)));
    assert_eq!(range, -17..=27);
}

#[test]
fn iqr_thresholds_find_a_low_outlier() {
    let range = iqr_variance_thresholds(vec![-1000, 1, 2, 3, 4, 5, 6, 7]).unwrap();
    assert!(!range.contains(&-1000));
    assert!((1..=7).all(|x| range.contains(&x)));
}

#[test]
fn iqr_thresholds_are_five_iqr_from_the_quartiles() {
    // Quartiles 5 and 16, IQR 11: thresholds -50 and 71.
    let mut input: Vec<i64> = (1..=20).collect();
    input.push(1000);
    input.push(-1000);
    assert_eq!(iqr_variance_thresholds(input), Some(-50..=71));
    // Quartiles 5 and 17, IQR 12: thresholds -55 and 77.
    let mut input: Vec<i64> = vec![2000, -2000, 1000, -1000];
    input.extend(1..=20);
    assert_eq!(iqr_variance_thresholds(input), Some(-55..=77));
}

#[test]
fn iqr_thresholds_ignore_order() {
    let mut a: Vec<i64> = vec![2000, -2000, 1000, -1000];
    a.extend(1..=20);
    let mut b = a.clone();
    b.reverse();
    assert_eq!(iqr_variance_thresholds(a), iqr_variance_thresholds(b));
}

#[test]
fn iqr_thresholds_keep_interquartile_range() {
    let mut input: Vec<i64> = vec![-5000, -4000, -3000];
    input.extend(100..=140);
    let mut sorted = input.clone();
    sorted.sort();
    let q1 = sorted[sorted.len() / 4];
    let q3 = sorted[sorted.len() * 3 / 4];
    let range = iqr_variance_thresholds(input.clone()).unwrap();
    assert!(*range.start() < q1);
    assert!(q3 < *range.end());
    for v in input {
        let outlier = v < q1 - 5 * (q3 - q1) || v > q3 + 5 * (q3 - q1);
        assert_eq!(range.contains(&v), !outlier);
    }
}
