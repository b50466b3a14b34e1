use assistant::load::{LoadReading, LoadThreshold};

#[test]
fn zero_capacity_pool_is_busy_at_every_threshold() {
    let reading = LoadReading { running: 0, capacity: 0 };
    assert!(reading.reaches(LoadThreshold::zero()));
    assert!(reading.reaches(LoadThreshold::full()));
    assert!(reading.reaches(LoadThreshold::new(1, 2).unwrap()));
}

#[test]
fn threshold_must_be_a_ratio_between_zero_and_one() {
    assert!(LoadThreshold::new(1, 0).is_none());
    assert!(LoadThreshold::new(3, 2).is_none());
    let t = LoadThreshold::new(9, 10).unwrap();
    assert_eq!(t.numerator(), 9);
    assert_eq!(t.denominator(), 10);
    assert_eq!(LoadThreshold::zero().numerator(), 0);
    assert_eq!(LoadThreshold::full().numerator(), LoadThreshold::full().denominator());
}

#[test]
fn zero_threshold_is_reached_by_every_pool() {
    for running in 0..4usize {
        let reading = LoadReading { running, capacity: 3 };
        assert!(reading.reaches(LoadThreshold::zero()));
    }
}

#[test]
fn full_threshold_is_reached_only_by_a_full_pool() {
    assert!(!LoadReading { running: 0, capacity: 3 }.reaches(LoadThreshold::full()));
    assert!(!LoadReading { running: 2, capacity: 3 }.reaches(LoadThreshold::full()));
    assert!(LoadReading { running: 3, capacity: 3 }.reaches(LoadThreshold::full()));
}

#[test]
fn reading_is_compared_exactly() {
    let half = LoadThreshold::new(1, 2).unwrap();
    assert!(LoadReading { running: 1, capacity: 2 }.reaches(half));
    assert!(!LoadReading { running: 1, capacity: 3 }.reaches(half));
    assert!(LoadReading { running: 2, capacity: 3 }.reaches(half));
    let nine_tenths = LoadThreshold::new(9, 10).unwrap();
    assert!(!LoadReading { running: 8, capacity: 10 }.reaches(nine_tenths));
    assert!(LoadReading { running: 9, capacity: 10 }.reaches(nine_tenths));
}

#[test]
fn reading_above_capacity_is_clamped() {
    let reading = LoadReading { running: 7, capacity: 2 };
    assert!(reading.reaches(LoadThreshold::full()));
    let huge = LoadReading { running: usize::MAX, capacity: usize::MAX };
    assert!(huge.reaches(LoadThreshold::new(u32::MAX, u32::MAX).unwrap()));
}
