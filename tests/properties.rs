use radio_datetime_utils::radio_datetime_helpers::{get_bcd_value, get_parity, time_diff};
use radio_datetime_utils::{
    RadioDateTimeUtils, DST_ANNOUNCED, DST_JUMP, DST_PROCESSED, DST_SUMMER, LEAP_ANNOUNCED,
    LEAP_MISSING, LEAP_PROCESSED,
};

const T: Option<bool> = Some(true);
const F: Option<bool> = Some(false);

#[test]
fn time_diff_wraps_once() {
    assert_eq!(time_diff(u32::MAX, 0), 1);
    assert_eq!(time_diff(1, 0), u32::MAX);
    assert_eq!(time_diff(u32::MAX, u32::MAX), 0);
    assert_eq!(time_diff(0, u32::MAX), u32::MAX);
}

#[test]
fn bcd_backwards_differs_from_forwards() {
    let bits = [F, T, F, F, T, T];
    assert_eq!(get_bcd_value(&bits, 0, 5), Some(32));
    assert_eq!(get_bcd_value(&bits, 5, 0), Some(13));
}

#[test]
fn bcd_eight_bits_largest_value() {
    // 9 = 1001, 9 = 1001, least significant bit first
    let bits = [T, F, F, T, T, F, F, T];
    assert_eq!(get_bcd_value(&bits, 0, 7), Some(99));
    let bits = [T, F, F, T, T, F, T, F];
    assert_eq!(get_bcd_value(&bits, 0, 7), Some(59));
}

#[test]
fn bcd_nine_bits_too_wide() {
    let bits = [F, F, F, F, F, F, F, F, F];
    assert_eq!(get_bcd_value(&bits, 0, 8), None);
    assert_eq!(get_bcd_value(&bits, 8, 0), None);
    assert_eq!(get_bcd_value(&bits, 0, 7), Some(0));
}

#[test]
fn bcd_tens_digit_too_large() {
    // units 0, tens 10
    let bits = [F, F, F, F, F, T, F, T];
    assert_eq!(get_bcd_value(&bits, 0, 7), None);
}

#[test]
fn bcd_unknown_bit() {
    let bits = [T, F, None, F];
    assert_eq!(get_bcd_value(&bits, 0, 3), None);
    assert_eq!(get_bcd_value(&bits, 0, 1), Some(1));
}

#[test]
fn parity_same_both_directions() {
    let bits = [T, F, T, T, F, T];
    for seed in [F, T] {
        assert_eq!(get_parity(&bits, 0, 5, seed), get_parity(&bits, 5, 0, seed));
        assert_eq!(get_parity(&bits, 1, 3, seed), get_parity(&bits, 3, 1, seed));
    }
    // four set bits plus a clear seed: even
    assert_eq!(get_parity(&bits, 0, 5, F), Some(false));
    assert_eq!(get_parity(&bits, 0, 5, T), Some(true));
}

#[test]
fn parity_unknown_seed_or_bit() {
    let bits = [T, None, T];
    assert_eq!(get_parity(&bits, 0, 0, None), None);
    assert_eq!(get_parity(&bits, 0, 2, F), None);
    assert_eq!(get_parity(&bits, 2, 2, F), Some(true));
}

fn with_date(sunday: u8, year: u8, month: u8, weekday: u8) -> RadioDateTimeUtils {
    let mut rdt = RadioDateTimeUtils::new(sunday);
    rdt.year = Some(year);
    rdt.month = Some(month);
    rdt.weekday = Some(weekday);
    rdt
}

#[test]
fn last_day_short_months_any_weekday() {
    for weekday in 1..=7 {
        for month in [4, 6, 9, 11] {
            assert_eq!(with_date(7, 22, month, weekday).last_day(1), Some(30));
        }
        assert_eq!(with_date(7, 22, 12, weekday).last_day(31), Some(31));
        assert_eq!(with_date(7, 20, 2, weekday).last_day(3), Some(29));
        assert_eq!(with_date(7, 21, 2, weekday).last_day(3), Some(28));
    }
}

#[test]
fn last_day_out_of_range() {
    assert_eq!(with_date(7, 100, 6, 1).last_day(5), None);
    assert_eq!(with_date(7, 22, 13, 1).last_day(5), None);
    assert_eq!(with_date(7, 22, 0, 1).last_day(5), None);
    assert_eq!(with_date(7, 22, 6, 1).last_day(0), None);
    // the weekday decides February '00, so it must be in range there
    assert_eq!(with_date(0, 0, 2, 7).last_day(6), None);
    assert_eq!(with_date(7, 0, 2, 0).last_day(6), None);
}

#[test]
fn last_day_century_from_monday() {
    // Monday 2000-02-07 and Monday 2000-02-28: February 28 is a Monday
    assert_eq!(with_date(7, 0, 2, 1).last_day(7), Some(29));
    assert_eq!(with_date(7, 0, 2, 1).last_day(28), Some(29));
    // Monday 2100-02-01: February 28 is a Sunday
    assert_eq!(with_date(7, 0, 2, 1).last_day(1), Some(28));
    // Tuesday 2000-02-29
    assert_eq!(with_date(7, 0, 2, 2).last_day(29), Some(29));
    assert_eq!(with_date(7, 0, 2, 3).last_day(29), Some(28));
}

#[test]
fn set_day_rejects_day_past_month_end() {
    let mut rdt = with_date(7, 21, 2, 1);
    rdt.set_day(Some(29), true, true);
    assert_eq!(rdt.day, None);
    rdt.set_day(Some(28), true, true);
    assert_eq!(rdt.day, Some(28));
    assert!(!rdt.jump_day);
    rdt.set_day(Some(29), true, true);
    assert_eq!(rdt.day, Some(28));
    assert!(!rdt.jump_day);
}

#[test]
fn set_day_needs_year_month_weekday() {
    let mut rdt = RadioDateTimeUtils::new(7);
    rdt.year = Some(22);
    rdt.month = Some(9);
    rdt.set_day(Some(5), true, false);
    assert_eq!(rdt.day, None);
}

#[test]
fn invalid_value_keeps_field_and_no_jump() {
    let mut rdt = RadioDateTimeUtils::new(7);
    rdt.set_hour(Some(10), true, true);
    rdt.set_hour(Some(11), false, true);
    assert_eq!(rdt.get_hour(), Some(10));
    assert!(!rdt.get_jump_hour());
    rdt.set_hour(Some(11), true, false);
    assert_eq!(rdt.get_hour(), Some(11));
    assert!(!rdt.get_jump_hour());
    rdt.set_hour(Some(11), true, true);
    assert!(!rdt.get_jump_hour());
}

#[test]
fn setter_touches_only_its_field() {
    let mut rdt = RadioDateTimeUtils::new(7);
    rdt.set_year(Some(22), true, true);
    rdt.set_year(Some(23), true, true);
    rdt.set_month(Some(3), true, true);
    assert!(rdt.get_jump_year());
    assert!(!rdt.get_jump_month());
    assert_eq!(rdt.get_year(), Some(23));
    assert_eq!(rdt.get_month(), Some(3));
}

#[test]
fn new_weekday_bounds() {
    let dcf77 = RadioDateTimeUtils::new(7);
    assert_eq!((dcf77.min_weekday, dcf77.max_weekday), (1, 7));
    let msf = RadioDateTimeUtils::new(0);
    assert_eq!((msf.min_weekday, msf.max_weekday), (0, 6));
    let other = RadioDateTimeUtils::new(1);
    assert_eq!((other.min_weekday, other.max_weekday), (1, 6));
    assert!(dcf77.first_minute);
    assert!(!dcf77.is_valid());
}

fn full(sunday: u8) -> RadioDateTimeUtils {
    let mut rdt = RadioDateTimeUtils::new(sunday);
    rdt.set_year(Some(99), true, false);
    rdt.set_month(Some(12), true, false);
    rdt.set_weekday(Some(7), true, false);
    rdt.set_day(Some(31), true, false);
    rdt.set_hour(Some(23), true, false);
    rdt.set_minute(Some(59), true, false);
    rdt.set_dst(Some(false), Some(false), false);
    rdt
}

#[test]
fn add_minute_new_year_sunday_seven() {
    let mut rdt = full(7);
    assert!(rdt.is_valid());
    assert!(rdt.add_minute());
    assert_eq!(rdt.get_minute(), Some(0));
    assert_eq!(rdt.get_hour(), Some(0));
    assert_eq!(rdt.get_day(), Some(1));
    assert_eq!(rdt.get_month(), Some(1));
    assert_eq!(rdt.get_year(), Some(0));
    assert_eq!(rdt.get_weekday(), Some(1));
    assert_eq!(rdt.get_dst(), Some(0));
}

#[test]
fn add_minute_plain_and_hour() {
    let mut rdt = full(7);
    rdt.minute = Some(10);
    assert!(rdt.add_minute());
    assert_eq!((rdt.hour, rdt.minute, rdt.day), (Some(23), Some(11), Some(31)));
    rdt.minute = Some(59);
    rdt.hour = Some(5);
    assert!(rdt.add_minute());
    assert_eq!((rdt.hour, rdt.minute, rdt.day), (Some(6), Some(0), Some(31)));
}

#[test]
fn add_minute_leap_february() {
    let mut rdt = RadioDateTimeUtils::new(7);
    rdt.year = Some(20);
    rdt.month = Some(2);
    rdt.day = Some(28);
    rdt.weekday = Some(5);
    rdt.hour = Some(23);
    rdt.minute = Some(59);
    rdt.dst = Some(0);
    assert!(rdt.add_minute());
    assert_eq!((rdt.month, rdt.day, rdt.weekday), (Some(2), Some(29), Some(6)));
    rdt.hour = Some(23);
    rdt.minute = Some(59);
    assert!(rdt.add_minute());
    assert_eq!((rdt.month, rdt.day, rdt.weekday), (Some(3), Some(1), Some(7)));
}

#[test]
fn add_minute_needs_dst() {
    let mut rdt = full(7);
    rdt.dst = None;
    let before = (rdt.year, rdt.month, rdt.day, rdt.hour, rdt.minute);
    assert!(!rdt.add_minute());
    assert_eq!(before, (rdt.year, rdt.month, rdt.day, rdt.hour, rdt.minute));
}

#[test]
fn clear_jumps_clears_all() {
    let mut rdt = RadioDateTimeUtils::new(7);
    rdt.jump_year = true;
    rdt.jump_month = true;
    rdt.jump_day = true;
    rdt.jump_weekday = true;
    rdt.jump_hour = true;
    rdt.jump_minute = true;
    rdt.dst = Some(DST_JUMP | DST_SUMMER);
    rdt.clear_jumps();
    assert!(!rdt.get_jump_year() && !rdt.get_jump_month() && !rdt.get_jump_day());
    assert!(!rdt.get_jump_weekday() && !rdt.get_jump_hour() && !rdt.get_jump_minute());
    assert_eq!(rdt.get_dst(), Some(DST_SUMMER));
    let mut empty = RadioDateTimeUtils::new(0);
    empty.clear_jumps();
    assert_eq!(empty.get_dst(), None);
}

#[test]
fn bump_minutes_running_resets_at_hour() {
    let mut rdt = RadioDateTimeUtils::new(7);
    rdt.bump_minutes_running();
    rdt.bump_minutes_running();
    assert_eq!(rdt.minutes_running, 2);
    rdt.minute = Some(0);
    rdt.bump_minutes_running();
    assert_eq!(rdt.minutes_running, 0);
}

#[test]
fn dst_announcement_majority_from_top_of_hour() {
    let mut rdt = RadioDateTimeUtils::new(7);
    rdt.set_minute(Some(0), true, false);
    rdt.bump_minutes_running();
    rdt.set_dst(Some(false), Some(false), true);
    for minute in 1..=3 {
        rdt.set_minute(Some(minute), true, false);
        rdt.bump_minutes_running();
        rdt.set_dst(Some(false), Some(true), true);
        assert_eq!(rdt.get_dst(), Some(DST_ANNOUNCED));
        assert_eq!(rdt.dst_count, minute);
    }
    rdt.set_minute(Some(0), true, false);
    rdt.bump_minutes_running();
    rdt.set_dst(Some(true), Some(false), true);
    assert_eq!(rdt.get_dst(), Some(DST_PROCESSED | DST_SUMMER));
    assert_eq!(rdt.dst_count, 0);
}

#[test]
fn dst_announcement_minority_ignored() {
    let mut rdt = RadioDateTimeUtils::new(7);
    rdt.minute = Some(20);
    rdt.minutes_running = 20;
    rdt.dst_count = 9;
    rdt.set_dst(Some(false), Some(true), true);
    // 2 * 10 is not more than 20
    assert_eq!(rdt.get_dst(), Some(0));
    rdt.minute = Some(21);
    rdt.minutes_running = 21;
    rdt.set_dst(Some(false), Some(true), true);
    // 2 * 11 > 21
    assert_eq!(rdt.get_dst(), Some(DST_ANNOUNCED));
}

#[test]
fn dst_absent_input_is_no_op() {
    let mut rdt = RadioDateTimeUtils::new(7);
    rdt.minute = Some(5);
    rdt.set_dst(None, Some(true), true);
    rdt.set_dst(Some(true), None, true);
    assert_eq!(rdt.get_dst(), None);
    assert_eq!(rdt.dst_count, 0);
    assert!(rdt.first_minute);
}

#[test]
fn leap_second_majority_and_missing() {
    let mut rdt = RadioDateTimeUtils::new(0);
    rdt.set_minute(Some(0), true, false);
    rdt.bump_minutes_running();
    rdt.set_leap_second(Some(false), 60);
    for minute in 1..=4 {
        rdt.set_minute(Some(minute), true, false);
        rdt.bump_minutes_running();
        rdt.set_leap_second(Some(true), 60);
        assert_eq!(rdt.get_leap_second(), Some(LEAP_ANNOUNCED));
    }
    rdt.set_minute(Some(0), true, false);
    rdt.bump_minutes_running();
    rdt.set_leap_second(Some(true), 60);
    assert_eq!(rdt.get_leap_second(), Some(LEAP_PROCESSED | LEAP_MISSING));
    assert_eq!(rdt.leap_second_count, 0);
}

#[test]
fn leap_second_present() {
    let mut rdt = RadioDateTimeUtils::new(0);
    rdt.minute = Some(0);
    rdt.leap_second = Some(LEAP_ANNOUNCED);
    rdt.set_leap_second(Some(false), 61);
    assert_eq!(rdt.get_leap_second(), Some(LEAP_PROCESSED));
}

#[test]
fn leap_second_bad_minute_length_is_no_op() {
    let mut rdt = RadioDateTimeUtils::new(0);
    rdt.minute = Some(3);
    rdt.set_leap_second(Some(true), 59);
    rdt.set_leap_second(Some(true), 62);
    rdt.set_leap_second(None, 60);
    assert_eq!(rdt.get_leap_second(), None);
    assert_eq!(rdt.leap_second_count, 0);
}

#[test]
fn increase_second_new_minute_always_true() {
    let mut second = 61;
    assert!(RadioDateTimeUtils::increase_second(&mut second, true, 61));
    assert_eq!(second, 0);
    let mut second = 59;
    assert!(RadioDateTimeUtils::increase_second(&mut second, false, 61));
    assert_eq!(second, 60);
}
