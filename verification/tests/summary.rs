use tango_bench::RunningBounds;

#[test]
fn running_bounds_track_count_min_max() {
    let mut b = RunningBounds::new(0u32);
    assert_eq!(b.count(), 0);
    assert_eq!((b.minimum(), b.maximum()), (0, 0));
    for v in [3u32, 1, 4, 1, 5] {
        b.next(v);
    }
    assert_eq!(b.count(), 5);
    assert_eq!(b.minimum(), 1);
    assert_eq!(b.maximum(), 5);
}

#[test]
fn running_bounds_first_value_replaces_initial() {
    let mut b = RunningBounds::new(0i64);
    b.next(-7);
    assert_eq!((b.count(), b.minimum(), b.maximum()), (1, -7, -7));
    b.next(-3);
    assert_eq!((b.count(), b.minimum(), b.maximum()), (2, -7, -3));
}

#[test]
fn running_bounds_of_increasing_sequence() {
    let mut b = RunningBounds::new(0u64);
    for i in 1u64..100 {
        b.next(i);
        assert_eq!(b.count() as u64, i);
        assert_eq!(b.minimum(), 1);
        assert_eq!(b.maximum(), i);
    }
}
