use wheel_phys::sparks::{spark_count, spark_life, MAX_SPARK_LIFE, MIN_SPARK_LIFE};

#[test]
fn no_contact_no_sparks() {
    assert_eq!(spark_count(false, 0), 0);
    assert_eq!(spark_count(false, 30), 0);
    assert_eq!(spark_count(false, 1000), 0);
}

#[test]
fn thirty_units_strike_five_sparks() {
    assert_eq!(spark_count(true, 30), 5);
}

#[test]
fn zero_sliding_strikes_none() {
    assert_eq!(spark_count(true, 0), 0);
}

#[test]
fn count_rounds_down() {
    assert_eq!(spark_count(true, 5), 0);
    assert_eq!(spark_count(true, 6), 1);
    assert_eq!(spark_count(true, 11), 1);
    assert_eq!(spark_count(true, 12), 2);
    assert_eq!(spark_count(true, u32::MAX), u32::MAX / 6);
}

#[test]
fn life_is_clamped() {
    assert_eq!(spark_life(0), MIN_SPARK_LIFE);
    assert_eq!(spark_life(9), 10);
    assert_eq!(spark_life(10), 10);
    assert_eq!(spark_life(57), 57);
    assert_eq!(spark_life(100), 100);
    assert_eq!(spark_life(101), MAX_SPARK_LIFE);
    assert_eq!(spark_life(u64::MAX), 100);
}
