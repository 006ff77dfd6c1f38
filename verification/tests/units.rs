use invaders::units::{points_for, saturate, travel, MICROS_PER_SECOND, SUBUNITS};

#[test]
fn saturate_keeps_values_in_range() {
    assert_eq!(saturate(5), 5);
    assert_eq!(saturate(-5), -5);
    assert_eq!(saturate(i32::MAX as i64), i32::MAX);
    assert_eq!(saturate(i32::MIN as i64), i32::MIN);
}

#[test]
fn saturate_stops_at_the_ends() {
    assert_eq!(saturate(i32::MAX as i64 + 1), i32::MAX);
    assert_eq!(saturate(i32::MIN as i64 - 1), i32::MIN);
    assert_eq!(saturate(i64::MAX), i32::MAX);
    assert_eq!(saturate(i64::MIN), i32::MIN);
}

#[test]
fn travel_rounds_down() {
    assert_eq!(travel(200_000, 16_667), 3_333);
    assert_eq!(travel(50_000, 6_944), 347);
    assert_eq!(travel(999_999, 1), 0);
}

#[test]
fn travel_of_one_second_is_the_speed() {
    assert_eq!(travel(150_000, MICROS_PER_SECOND), 150_000);
    assert_eq!(travel(0, MICROS_PER_SECOND), 0);
    assert_eq!(travel(150_000, 0), 0);
}

#[test]
fn travel_takes_the_largest_inputs() {
    assert_eq!(travel(u32::MAX, u32::MAX), 18_446_744_065_119);
}

#[test]
fn points_round_to_nearest() {
    assert_eq!(points_for(32 * SUBUNITS), 32);
    assert_eq!(points_for(32_499), 32);
    assert_eq!(points_for(32_500), 33);
    assert_eq!(points_for(499), 0);
    assert_eq!(points_for(500), 1);
    assert_eq!(points_for(0), 0);
}

#[test]
fn points_take_the_largest_size() {
    assert_eq!(points_for(u32::MAX), 4_294_967);
}
