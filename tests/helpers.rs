use radio_datetime_utils::radio_datetime_helpers::{get_bcd_value, get_parity, time_diff};

#[test]
fn test_time_diff_difference_1() {
    assert_eq!(time_diff(2, 3), 1);
}
#[test]
fn test_time_diff_difference_3() {
    assert_eq!(time_diff(0, 3), 3);
}
#[test]
fn test_time_diff_flipped_m100_0() {
    assert_eq!(time_diff(u32::MAX - 100, 0), 101);
}
#[test]
fn test_time_diff_flipped_m100_100() {
    assert_eq!(time_diff(u32::MAX - 100, 100), 201);
}
#[test]
fn test_time_diff_zero() {
    assert_eq!(time_diff(2, 2), 0);
}

const BIT_BUFFER: [Option<bool>; 10] = [
    Some(false),
    Some(true),
    Some(false),
    Some(false),
    Some(true),
    Some(true),
    Some(true),
    Some(true),
    None,
    Some(false),
];

#[test]
fn ok_get_bcd_value_regular() {
    assert_eq!(get_bcd_value(&BIT_BUFFER[0..=4], 0, 4), Some(12));
}
#[test]
fn ok_get_bcd_value_single_bit() {
    assert_eq!(get_bcd_value(&BIT_BUFFER[1..=1], 0, 0), Some(1)); // single-bit value, must be a slice
}
#[test]
fn bad_get_bcd_value_too_large_total_bcd() {
    assert_eq!(get_bcd_value(&BIT_BUFFER[0..=7], 0, 7), None);
}
#[test]
fn bad_get_bcd_value_too_large_single_bcd() {
    assert_eq!(get_bcd_value(&BIT_BUFFER[4..=7], 0, 3), None);
}
#[test]
fn bad_get_bcd_value_none() {
    assert_eq!(get_bcd_value(&BIT_BUFFER[7..=9], 0, 2), None);
}
#[test]
fn bad_get_bcd_value_too_wide() {
    assert_eq!(get_bcd_value(&BIT_BUFFER, 0, 9), None);
}
#[test]
fn ok_get_bcd_value_backwards() {
    assert_eq!(get_bcd_value(&BIT_BUFFER[0..=5], 5, 0), Some(13));
}

#[test]
fn ok_get_parity_regular_even() {
    assert_eq!(
        get_parity(&BIT_BUFFER[0..=4], 0, 3, BIT_BUFFER[4]),
        Some(false)
    );
}
#[test]
fn bad_get_parity_none() {
    assert_eq!(get_parity(&BIT_BUFFER[7..=9], 0, 1, BIT_BUFFER[2]), None);
}
#[test]
fn ok_get_parity_regular_odd() {
    assert_eq!(
        get_parity(&BIT_BUFFER[0..=3], 0, 2, BIT_BUFFER[3]),
        Some(true)
    );
}
#[test]
fn ok_get_parity_backwards() {
    assert_eq!(
        get_parity(&BIT_BUFFER[0..=3], 3, 1, BIT_BUFFER[0]),
        Some(true)
    );
}
