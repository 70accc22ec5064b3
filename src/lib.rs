//! Date/time structures shared by decoders of longwave time-signal stations.
//!
//! A decoder feeds the fields it extracted from the radio bits into a
//! [`RadioDateTimeUtils`], which validates them, flags unexpected jumps, infers
//! daylight-saving and leap-second transitions from their announcement bits,
//! and can advance the date/time by one minute on its own.

pub mod radio_datetime_helpers;

use vstd::prelude::*;

verus! {

/// DST change has been announced
pub const DST_ANNOUNCED: u8 = 1;

/// DST change has been processed
pub const DST_PROCESSED: u8 = 2;

/// unexpected jump in DST state
pub const DST_JUMP: u8 = 4;

/// DST is active
pub const DST_SUMMER: u8 = 8;

/// Leap second has been announced
pub const LEAP_ANNOUNCED: u8 = 1;

/// Leap second has been processed
pub const LEAP_PROCESSED: u8 = 2;

/// Leap second is unexpectedly absent
pub const LEAP_MISSING: u8 = 4;

/// All DST flag bits.
pub const DST_FLAGS: u8 = DST_ANNOUNCED | DST_PROCESSED | DST_JUMP | DST_SUMMER;

/// All leap second flag bits.
pub const LEAP_FLAGS: u8 = LEAP_ANNOUNCED | LEAP_PROCESSED | LEAP_MISSING;

/// Size of bit buffer in seconds plus one spare because we cannot know
/// which method accessing the buffer is called after increase_second().
pub const BIT_BUFFER_SIZE: usize = 61 + 1;

/// Represents a date and time transmitted over radio.
///
/// Each field is `None` until a valid value for it has been received.
#[derive(Clone, Copy)]
pub struct RadioDateTimeUtils {
    /// two-digit year, 0..=99
    pub year: Option<u8>,
    /// 1..=12
    pub month: Option<u8>,
    /// 1..=last day of the month
    pub day: Option<u8>,
    /// `min_weekday..=max_weekday`
    pub weekday: Option<u8>,
    /// 0..=23
    pub hour: Option<u8>,
    /// 0..=59
    pub minute: Option<u8>,
    /// bitmask of `DST_ANNOUNCED`, `DST_PROCESSED`, `DST_JUMP`, `DST_SUMMER`
    pub dst: Option<u8>,
    /// bitmask of `LEAP_ANNOUNCED`, `LEAP_PROCESSED`, `LEAP_MISSING`
    pub leap_second: Option<u8>,
    pub jump_year: bool,
    pub jump_month: bool,
    pub jump_day: bool,
    pub jump_weekday: bool,
    pub jump_hour: bool,
    pub jump_minute: bool,
    /// numeric value of the first day of the week, fixed at construction
    pub min_weekday: u8,
    /// numeric value of the last day of the week, fixed at construction
    pub max_weekday: u8,
    /// minutes counted since the top of the hour, for set_dst() and set_leap_second()
    pub minutes_running: u8,
    /// minutes with a DST announcement since the top of the hour
    pub dst_count: u8,
    /// no DST value has been processed yet
    pub first_minute: bool,
    /// minutes with a leap second announcement since the top of the hour
    pub leap_second_count: u8,
}

/// Whether the century year `xx00` is a leap year, judged from a day in its
/// February and the weekday of that day (Monday 1 .. Sunday 7, or Sunday 0).
///
/// February 28 of a century year is a Monday exactly when the year is
/// divisible by 400; February 29 only exists then, and is a Tuesday.
pub open spec fn leap_century(day: int, weekday: int) -> bool {
    let wd = if weekday == 0 {
        7
    } else {
        weekday
    };
    if day < 29 {
        // shifting `day` to February 28 shifts its weekday by 28 - day
        (wd - 1 + (28 - day)) % 7 == 0
    } else {
        wd == 2
    }
}

/// Last day of `month` in the two-digit `year`, or `None` when an argument is
/// out of range. `day` and `weekday` only matter in February of a century year.
pub open spec fn last_day_of(
    year: int,
    month: int,
    day: int,
    weekday: int,
    min_weekday: int,
    max_weekday: int,
) -> Option<u8> {
    if !(0 <= year <= 99 && 1 <= month <= 12 && 1 <= day <= 31) {
        None
    } else if month == 2 {
        if year != 0 {
            if year % 4 == 0 {
                Some(29)
            } else {
                Some(28)
            }
        } else if !(min_weekday <= weekday <= max_weekday) {
            None
        } else if leap_century(day, weekday) {
            Some(29)
        } else {
            Some(28)
        }
    } else if month == 4 || month == 6 || month == 9 || month == 11 {
        Some(30)
    } else {
        Some(31)
    }
}

/// The weekday after `weekday`, wrapping from `max_weekday` to `min_weekday`.
pub open spec fn next_weekday(weekday: int, min_weekday: int, max_weekday: int) -> int {
    if weekday == max_weekday {
        min_weekday
    } else {
        weekday + 1
    }
}

/// Hour change that a DST transition announced in `dst` applies at the top of the hour.
pub open spec fn dst_shift(dst: u8) -> int {
    if dst & DST_ANNOUNCED == 0 {
        0
    } else if dst & DST_SUMMER != 0 {
        // back to winter time
        -1
    } else {
        // on to summer time
        1
    }
}

/// `bit` if `on`, else no bit.
pub open spec fn flag(on: bool, bit: u8) -> u8 {
    if on {
        bit
    } else {
        0
    }
}

/// A DST mask with the given flags, keeping the bits of `other` outside `DST_FLAGS`.
pub open spec fn dst_mask(other: u8, announced: bool, processed: bool, jump: bool, summer: bool) -> u8 {
    (other & !DST_FLAGS) | flag(announced, DST_ANNOUNCED) | flag(processed, DST_PROCESSED) | flag(
        jump,
        DST_JUMP,
    ) | flag(summer, DST_SUMMER)
}

/// A leap second mask with the given flags, keeping the bits of `other` outside `LEAP_FLAGS`.
pub open spec fn leap_mask(other: u8, announced: bool, processed: bool, missing: bool) -> u8 {
    (other & !LEAP_FLAGS) | flag(announced, LEAP_ANNOUNCED) | flag(processed, LEAP_PROCESSED)
        | flag(missing, LEAP_MISSING)
}

/// Majority vote: more than half of the minutes counted so far this hour announced it.
pub open spec fn majority(count: int, minutes_running: int) -> bool {
    2 * count > minutes_running
}

/// The field value after a setter was offered `value`: taken when it is present,
/// `valid` and within `lo..=hi`, otherwise the `old` value stays.
pub open spec fn offered(old: Option<u8>, value: Option<u8>, valid: bool, lo: int, hi: int) -> Option<
    u8,
> {
    if value is Some && valid && lo <= value.unwrap() <= hi {
        value
    } else {
        old
    }
}

/// A jump: checking was asked for and a present value changed to another present one.
pub open spec fn jumped(old: Option<u8>, new: Option<u8>, check_jump: bool) -> bool {
    check_jump && old is Some && new is Some && old != new
}

fn flag_bit(on: bool, bit: u8) -> (r: u8)
    ensures
        r == flag(on, bit),
{
    if on {
        bit
    } else {
        0
    }
}

impl RadioDateTimeUtils {
    /// The minute is known and is the top of the hour.
    pub open spec fn at_top_of_hour(&self) -> bool {
        self.minute == Some(0u8)
    }

    /// The minute is known and is past the top of the hour: the announcement votes count.
    pub open spec fn votes_count(&self) -> bool {
        self.minute is Some && self.minute.unwrap() > 0
    }

    /// The DST mask, an absent one read as no flags.
    pub open spec fn dst_or_zero(&self) -> u8 {
        if self.dst is Some {
            self.dst.unwrap()
        } else {
            0
        }
    }

    /// The DST announcement counter after this minute's `announce` bit.
    pub open spec fn dst_count_with(&self, announce: bool) -> int {
        self.dst_count + if announce {
            1int
        } else {
            0
        }
    }

    /// Whether a DST change counts as announced this minute, before the hourly reset.
    pub open spec fn dst_announced_with(&self, announce: bool) -> bool {
        if self.votes_count() {
            majority(self.dst_count_with(announce), self.minutes_running as int)
        } else {
            self.dst_or_zero() & DST_ANNOUNCED != 0
        }
    }

    /// Whether a new DST value is taken over this minute.
    pub open spec fn dst_change_accepted(&self, announce: bool) -> bool {
        self.first_minute || (self.dst_announced_with(announce) && self.at_top_of_hour())
    }

    /// The state after `set_dst(Some(value), Some(announce), check_jump)`.
    pub open spec fn dst_updated(self, value: bool, announce: bool, check_jump: bool) -> Self {
        let d = self.dst_or_zero();
        let summer = d & DST_SUMMER != 0;
        let announced = self.dst_announced_with(announce);
        let accepted = self.dst_change_accepted(announce);
        let processed = if self.at_top_of_hour() && announced {
            true
        } else if self.minute is Some {
            false
        } else {
            d & DST_PROCESSED != 0
        };
        Self {
            dst: Some(
                dst_mask(
                    d,
                    announced && !self.at_top_of_hour(),
                    processed,
                    value != summer && !accepted && check_jump,
                    if value != summer && accepted {
                        value
                    } else {
                        summer
                    },
                ),
            ),
            dst_count: if self.at_top_of_hour() {
                0
            } else {
                self.dst_count_with(announce) as u8
            },
            first_minute: false,
            ..self
        }
    }

    /// The state after `bump_minutes_running()`: the counter restarts at the top of the hour.
    pub open spec fn bumped(self) -> Self {
        Self {
            minutes_running: if self.at_top_of_hour() {
                0
            } else {
                (self.minutes_running + 1) as u8
            },
            ..self
        }
    }

    /// The leap second mask, an absent one read as no flags.
    pub open spec fn leap_or_zero(&self) -> u8 {
        if self.leap_second is Some {
            self.leap_second.unwrap()
        } else {
            0
        }
    }

    /// The leap second announcement counter after this minute's `announce` bit.
    pub open spec fn leap_count_with(&self, announce: bool) -> int {
        self.leap_second_count + if announce {
            1int
        } else {
            0
        }
    }

    /// Whether a leap second counts as announced this minute, before the hourly reset.
    pub open spec fn leap_announced_with(&self, announce: bool) -> bool {
        if self.votes_count() {
            majority(self.leap_count_with(announce), self.minutes_running as int)
        } else {
            self.leap_or_zero() & LEAP_ANNOUNCED != 0
        }
    }

    /// The state after `set_leap_second(Some(announce), minute_length)`, `minute_length`
    /// being 60 or 61.
    pub open spec fn leap_updated(self, announce: bool, minute_length: u8) -> Self {
        let l = self.leap_or_zero();
        let announced = self.leap_announced_with(announce);
        let processing = self.at_top_of_hour() && announced;
        let keep = !processing && self.minute is None;
        Self {
            leap_second: Some(
                leap_mask(
                    l,
                    announced && !self.at_top_of_hour(),
                    processing || (keep && l & LEAP_PROCESSED != 0),
                    (processing && minute_length == 60) || (keep && l & LEAP_MISSING != 0),
                ),
            ),
            leap_second_count: if self.at_top_of_hour() {
                0
            } else {
                self.leap_count_with(announce) as u8
            },
            ..self
        }
    }

    /// Upper bound that `set_day` accepts for `value`: the last day of the month
    /// (0, accepting nothing, when that is unknown).
    pub open spec fn day_limit(&self, value: Option<u8>) -> int {
        if value is Some && self.last_day_spec(value.unwrap()) is Some {
            self.last_day_spec(value.unwrap()).unwrap() as int
        } else {
            0
        }
    }

    /// Date, time and DST status are all present.
    pub open spec fn is_complete(&self) -> bool {
        &&& self.dst is Some
        &&& self.year is Some
        &&& self.month is Some
        &&& self.day is Some
        &&& self.weekday is Some
        &&& self.hour is Some
        &&& self.minute is Some
    }

    /// Every present date/time field lies in its range.
    pub open spec fn fields_in_range(&self) -> bool {
        &&& self.year is Some ==> self.year.unwrap() <= 99
        &&& self.month is Some ==> 1 <= self.month.unwrap() <= 12
        &&& self.day is Some ==> 1 <= self.day.unwrap() <= 31
        &&& self.weekday is Some ==> self.min_weekday <= self.weekday.unwrap() <= self.max_weekday
        &&& self.hour is Some ==> self.hour.unwrap() <= 23
        &&& self.minute is Some ==> self.minute.unwrap() <= 59
    }

    /// Last day of the current month, `day` being a day of it (see `last_day_of`).
    pub open spec fn last_day_spec(&self, day: u8) -> Option<u8> {
        if self.year is None || self.month is None || self.weekday is None {
            None
        } else {
            last_day_of(
                self.year.unwrap() as int,
                self.month.unwrap() as int,
                day as int,
                self.weekday.unwrap() as int,
                self.min_weekday as int,
                self.max_weekday as int,
            )
        }
    }

    /// The date/time one minute after the current one.
    pub open spec fn minute_advanced(self) -> Self {
        let minute = self.minute.unwrap() as int;
        let hour = self.hour.unwrap() as int + 1 + dst_shift(self.dst.unwrap());
        if minute + 1 != 60 {
            Self { minute: Some((minute + 1) as u8), ..self }
        } else if hour != 24 {
            Self { minute: Some(0), hour: Some(hour as u8), ..self }
        } else {
            let day = self.day.unwrap() as int;
            let month = self.month.unwrap() as int;
            let year = self.year.unwrap() as int;
            let month_ends = day + 1 > self.last_day_spec(self.day.unwrap()).unwrap();
            let year_ends = month_ends && month == 12;
            Self {
                minute: Some(0),
                hour: Some(0),
                weekday: Some(
                    next_weekday(
                        self.weekday.unwrap() as int,
                        self.min_weekday as int,
                        self.max_weekday as int,
                    ) as u8,
                ),
                day: Some(
                    if month_ends {
                        1
                    } else {
                        (day + 1) as u8
                    },
                ),
                month: Some(
                    if !month_ends {
                        month as u8
                    } else if month == 12 {
                        1
                    } else {
                        (month + 1) as u8
                    },
                ),
                year: Some(
                    if !year_ends {
                        year as u8
                    } else if year == 99 {
                        0
                    } else {
                        (year + 1) as u8
                    },
                ),
                ..self
            }
        }
    }

    /// Initialize a new RadioDateTimeUtils instance
    ///
    /// # Arguments
    /// * `sunday` - the numeric value of Sunday, i.e. 7 for DCF77 or 0 for MSF
    pub fn new(sunday: u8) -> (r: Self)
        ensures
            r.year is None && r.month is None && r.day is None && r.weekday is None,
            r.hour is None && r.minute is None && r.dst is None && r.leap_second is None,
            !r.jump_year && !r.jump_month && !r.jump_day && !r.jump_weekday,
            !r.jump_hour && !r.jump_minute,
            r.min_weekday == if sunday == 0 {
                0u8
            } else {
                1u8
            },
            r.max_weekday == if sunday == 7 {
                7u8
            } else {
                6u8
            },
            r.minutes_running == 0 && r.dst_count == 0 && r.leap_second_count == 0,
            r.first_minute,
    {
        Self {
            year: None,
            month: None,
            day: None,
            weekday: None,
            hour: None,
            minute: None,
            dst: None,
            dst_count: 0,
            leap_second: None,
            leap_second_count: 0,
            jump_year: false,
            jump_month: false,
            jump_day: false,
            jump_weekday: false,
            jump_hour: false,
            jump_minute: false,
            min_weekday: if sunday != 0 {
                1
            } else {
                0
            },
            max_weekday: if sunday == 7 {
                7
            } else {
                6
            },
            minutes_running: 0,
            first_minute: true,
        }
    }

    /// Increase or wrap the passed second counter.
    ///
    /// Returns if the second counter was increased/wrapped normally (true)
    /// or due to an overflow (false).
    ///
    /// # Arguments
    /// * `second` - the value of the current second (so normally 0..59)
    /// * `new_minute` - whether a new minute arrived
    /// * `minute_length` - the length of this minute in seconds
    pub fn increase_second(second: &mut u8, new_minute: bool, minute_length: u8) -> (r: bool)
        requires
            !new_minute ==> *old(second) < 255,
        ensures
            new_minute ==> r && *final(second) == 0,
            !new_minute && (*old(second) + 1 == minute_length || *old(second) + 1
                == BIT_BUFFER_SIZE) ==> !r && *final(second) == 0,
            !new_minute && !(*old(second) + 1 == minute_length || *old(second) + 1
                == BIT_BUFFER_SIZE) ==> r && *final(second) == *old(second) + 1,
    {
        if new_minute {
            *second = 0;
            true
        } else {
            *second = *second + 1;
            // wrap in case we missed the minute marker to prevent index-out-of-range
            if *second == minute_length || (*second as usize) == BIT_BUFFER_SIZE {
                *second = 0;
                false
            } else {
                true
            }
        }
    }

    /// Get the current year, truncated to two digits.
    pub fn get_year(&self) -> (r: Option<u8>)
        ensures
            r == self.year,
    {
        self.year
    }

    /// Get the current month.
    pub fn get_month(&self) -> (r: Option<u8>)
        ensures
            r == self.month,
    {
        self.month
    }

    /// Get the current day of the month.
    pub fn get_day(&self) -> (r: Option<u8>)
        ensures
            r == self.day,
    {
        self.day
    }

    /// Get the current day of the week as a number.
    pub fn get_weekday(&self) -> (r: Option<u8>)
        ensures
            r == self.weekday,
    {
        self.weekday
    }

    /// Get the current hour.
    pub fn get_hour(&self) -> (r: Option<u8>)
        ensures
            r == self.hour,
    {
        self.hour
    }

    /// Get the current minute.
    pub fn get_minute(&self) -> (r: Option<u8>)
        ensures
            r == self.minute,
    {
        self.minute
    }

    /// Get the current bitmask value (if any) of the daylight saving time status.
    pub fn get_dst(&self) -> (r: Option<u8>)
        ensures
            r == self.dst,
    {
        self.dst
    }

    /// Get the current bitmask value of the leap second status.
    pub fn get_leap_second(&self) -> (r: Option<u8>)
        ensures
            r == self.leap_second,
    {
        self.leap_second
    }

    /// Return if the year has jumped unexpectedly.
    pub fn get_jump_year(&self) -> (r: bool)
        ensures
            r == self.jump_year,
    {
        self.jump_year
    }

    /// Return if the month has jumped unexpectedly.
    pub fn get_jump_month(&self) -> (r: bool)
        ensures
            r == self.jump_month,
    {
        self.jump_month
    }

    /// Return if the day-of-month has jumped unexpectedly.
    pub fn get_jump_day(&self) -> (r: bool)
        ensures
            r == self.jump_day,
    {
        self.jump_day
    }

    /// Return if the day-of-week has jumped unexpectedly.
    pub fn get_jump_weekday(&self) -> (r: bool)
        ensures
            r == self.jump_weekday,
    {
        self.jump_weekday
    }

    /// Return if the hour has jumped unexpectedly.
    pub fn get_jump_hour(&self) -> (r: bool)
        ensures
            r == self.jump_hour,
    {
        self.jump_hour
    }

    /// Return if the minute has jumped unexpectedly.
    pub fn get_jump_minute(&self) -> (r: bool)
        ensures
            r == self.jump_minute,
    {
        self.jump_minute
    }

    /// Returns if the current date/time is valid (date, time, DST are all `is_some()`).
    pub fn is_valid(&self) -> (r: bool)
        ensures
            r == self.is_complete(),
    {
        self.dst.is_some() && self.year.is_some() && self.month.is_some() && self.day.is_some()
            && self.weekday.is_some() && self.hour.is_some() && self.minute.is_some()
    }

    /// Clear all jump values.
    pub fn clear_jumps(&mut self)
        ensures
            *final(self) == (RadioDateTimeUtils {
                jump_year: false,
                jump_month: false,
                jump_day: false,
                jump_weekday: false,
                jump_hour: false,
                jump_minute: false,
                dst: if old(self).dst is Some {
                    Some(old(self).dst.unwrap() & !DST_JUMP)
                } else {
                    None
                },
                ..*old(self)
            }),
    {
        self.jump_year = false;
        self.jump_month = false;
        self.jump_day = false;
        self.jump_weekday = false;
        self.jump_hour = false;
        self.jump_minute = false;
        if let Some(dst) = self.dst {
            self.dst = Some(dst & !DST_JUMP);
        }
    }

    /// Add one minute to the current date and time, return if the operation succeeded.
    ///
    /// * Years are limited to 2 digits, so this function wraps after 100 years.
    /// * An announced DST change moves the hour at the top of the hour.
    /// * Fails, changing nothing, unless date, time and DST are all present.
    pub fn add_minute(&mut self) -> (r: bool)
        requires
            old(self).is_complete() ==> old(self).fields_in_range(),
        ensures
            r == old(self).is_complete(),
            r ==> *final(self) == old(self).minute_advanced(),
            !r ==> *final(self) == *old(self),
    {
        if !self.is_valid() {
            return false;
        }
        let dst = self.dst.unwrap();
        let mut s_minute = self.minute.unwrap();
        let mut s_hour = self.hour.unwrap();
        let mut s_day = self.day.unwrap();
        let mut s_weekday = self.weekday.unwrap();
        let mut s_month = self.month.unwrap();
        let mut s_year = self.year.unwrap();
        s_minute = s_minute + 1;
        if s_minute == 60 {
            s_minute = 0;
            if dst & DST_ANNOUNCED == 0 {
                s_hour = s_hour + 1;
            } else if dst & DST_SUMMER == 0 {
                // changing to summer: one hour ahead on top of the regular one
                s_hour = s_hour + 2;
            }
            // changing to winter: one hour back cancels the regular one
            if s_hour == 24 {
                s_hour = 0;
                let old_last_day = self.last_day(s_day).unwrap();
                if s_weekday == self.max_weekday {
                    s_weekday = self.min_weekday;
                } else {
                    s_weekday = s_weekday + 1;
                }
                s_day = s_day + 1;
                if s_day > old_last_day {
                    s_day = 1;
                    s_month = s_month + 1;
                    if s_month == 13 {
                        s_month = 1;
                        s_year = s_year + 1;
                        if s_year == 100 {
                            s_year = 0;
                        }
                    }
                }
            }
        }
        self.minute = Some(s_minute);
        self.hour = Some(s_hour);
        self.day = Some(s_day);
        self.weekday = Some(s_weekday);
        self.month = Some(s_month);
        self.year = Some(s_year);
        true
    }

    /// Set the year value, valid values are 0 through 99.
    ///
    /// # Arguments
    /// * `value` - the new year value. None or invalid values keep the old value.
    /// * `valid` - extra validation to pass.
    /// * `check_jump` - check if the value has jumped unexpectedly compared to `add_minute()`.
    pub fn set_year(&mut self, value: Option<u8>, valid: bool, check_jump: bool)
        ensures
            final(self).year == offered(old(self).year, value, valid, 0, 99),
            final(self).jump_year == jumped(old(self).year, final(self).year, check_jump),
            *final(self) == (RadioDateTimeUtils {
                year: final(self).year,
                jump_year: final(self).jump_year,
                ..*old(self)
            }),
    {
        let year = match value {
            Some(v) if valid && v <= 99 => value,
            _ => self.year,
        };
        self.jump_year = check_jump && year.is_some() && self.year.is_some() && year != self.year;
        self.year = year;
    }

    /// Set the month value, valid values are 1 through 12.
    ///
    /// # Arguments
    /// * `value` - the new month value. None or invalid values keep the old value.
    /// * `valid` - extra validation to pass.
    /// * `check_jump` - check if the value has jumped unexpectedly compared to `add_minute()`.
    pub fn set_month(&mut self, value: Option<u8>, valid: bool, check_jump: bool)
        ensures
            final(self).month == offered(old(self).month, value, valid, 1, 12),
            final(self).jump_month == jumped(old(self).month, final(self).month, check_jump),
            *final(self) == (RadioDateTimeUtils {
                month: final(self).month,
                jump_month: final(self).jump_month,
                ..*old(self)
            }),
    {
        let month = match value {
            Some(v) if valid && 1 <= v && v <= 12 => value,
            _ => self.month,
        };
        self.jump_month = check_jump && month.is_some() && self.month.is_some() && month
            != self.month;
        self.month = month;
    }

    /// Set the day-of-week value, valid values are 0/1 through 6/7, depending on how this
    /// instance was created.
    ///
    /// # Arguments
    /// * `value` - the new day-of-week value. None or invalid values keep the old value.
    /// * `valid` - extra validation to pass.
    /// * `check_jump` - check if the value has jumped unexpectedly compared to `add_minute()`.
    pub fn set_weekday(&mut self, value: Option<u8>, valid: bool, check_jump: bool)
        ensures
            final(self).weekday == offered(
                old(self).weekday,
                value,
                valid,
                old(self).min_weekday as int,
                old(self).max_weekday as int,
            ),
            final(self).jump_weekday == jumped(
                old(self).weekday,
                final(self).weekday,
                check_jump,
            ),
            *final(self) == (RadioDateTimeUtils {
                weekday: final(self).weekday,
                jump_weekday: final(self).jump_weekday,
                ..*old(self)
            }),
    {
        let weekday = match value {
            Some(v) if valid && self.min_weekday <= v && v <= self.max_weekday => value,
            _ => self.weekday,
        };
        self.jump_weekday = check_jump && weekday.is_some() && self.weekday.is_some() && weekday
            != self.weekday;
        self.weekday = weekday;
    }

    /// Set the day-in-month value, valid values are 1 through the last day of that month.
    ///
    /// If the year, month, or weekday are absent, the last day of the month cannot be
    /// calculated which means the old day-in-month value is kept.
    ///
    /// # Arguments
    /// * `value` - the new day-in-month value. None or invalid values keep the old value.
    /// * `valid` - extra validation to pass.
    /// * `check_jump` - check if the value has jumped unexpectedly compared to `add_minute()`.
    pub fn set_day(&mut self, value: Option<u8>, valid: bool, check_jump: bool)
        ensures
            final(self).day == offered(
                old(self).day,
                value,
                valid,
                1,
                old(self).day_limit(value),
            ),
            final(self).jump_day == jumped(old(self).day, final(self).day, check_jump),
            *final(self) == (RadioDateTimeUtils {
                day: final(self).day,
                jump_day: final(self).jump_day,
                ..*old(self)
            }),
    {
        let day = match value {
            Some(v) if valid => match self.last_day(v) {
                Some(last) if 1 <= v && v <= last => value,
                _ => self.day,
            },
            _ => self.day,
        };
        self.jump_day = check_jump && day.is_some() && self.day.is_some() && day != self.day;
        self.day = day;
    }

    /// Set the hour value, valid values are 0 through 23.
    ///
    /// # Arguments
    /// * `value` - the new hour value. None or invalid values keep the old value.
    /// * `valid` - extra validation to pass.
    /// * `check_jump` - check if the value has jumped unexpectedly compared to `add_minute()`.
    pub fn set_hour(&mut self, value: Option<u8>, valid: bool, check_jump: bool)
        ensures
            final(self).hour == offered(old(self).hour, value, valid, 0, 23),
            final(self).jump_hour == jumped(old(self).hour, final(self).hour, check_jump),
            *final(self) == (RadioDateTimeUtils {
                hour: final(self).hour,
                jump_hour: final(self).jump_hour,
                ..*old(self)
            }),
    {
        let hour = match value {
            Some(v) if valid && v <= 23 => value,
            _ => self.hour,
        };
        self.jump_hour = check_jump && hour.is_some() && self.hour.is_some() && hour != self.hour;
        self.hour = hour;
    }

    /// Set the minute value, valid values are 0 through 59.
    ///
    /// # Arguments
    /// * `value` - the new minute value. None or invalid values keep the old value.
    /// * `valid` - extra validation to pass.
    /// * `check_jump` - check if the value has jumped unexpectedly compared to `add_minute()`.
    pub fn set_minute(&mut self, value: Option<u8>, valid: bool, check_jump: bool)
        ensures
            final(self).minute == offered(old(self).minute, value, valid, 0, 59),
            final(self).jump_minute == jumped(old(self).minute, final(self).minute, check_jump),
            *final(self) == (RadioDateTimeUtils {
                minute: final(self).minute,
                jump_minute: final(self).jump_minute,
                ..*old(self)
            }),
    {
        let minute = match value {
            Some(v) if valid && v <= 59 => value,
            _ => self.minute,
        };
        self.jump_minute = check_jump && minute.is_some() && self.minute.is_some() && minute
            != self.minute;
        self.minute = minute;
    }

    /// Set the DST mask value, both the actual value and any information on transitions.
    ///
    /// # Arguments
    /// * `value` - the new DST value. None or unannounced changes keep the old value.
    /// * `announce` - if any announcement is made on a transition. The history of this
    ///                value of the last hour (or part thereof if started later) is kept
    ///                to compensate for spurious True values.
    /// * `check_jump` - check if the value changed unexpectedly.
    pub fn set_dst(&mut self, value: Option<bool>, announce: Option<bool>, check_jump: bool)
        requires
            value is Some && announce == Some(true) ==> old(self).dst_count < 255,
        ensures
            value is None || announce is None ==> *final(self) == *old(self),
            value is Some && announce is Some ==> *final(self) == old(self).dst_updated(
                value.unwrap(),
                announce.unwrap(),
                check_jump,
            ),
    {
        let (value, announce) = match (value, announce) {
            (Some(v), Some(a)) => (v, a),
            _ => {
                return ;
            },
        };
        let dst: u8 = match self.dst {
            Some(d) => d,
            None => 0,
        };
        let at_hour = match self.minute {
            Some(m) => m == 0,
            None => false,
        };
        // Determine if a DST change is announced:
        if announce {
            self.dst_count = self.dst_count + 1;
        }
        let mut announced = dst & DST_ANNOUNCED != 0;
        if let Some(minute) = self.minute {
            if minute > 0 {
                announced = 2 * (self.dst_count as u16) > self.minutes_running as u16;
            }
        }
        let mut summer = dst & DST_SUMMER != 0;
        let mut jump = false;
        if value != summer {
            // Time offset changed.
            if self.first_minute || (announced && at_hour) {
                // Change is valid.
                summer = value;
            } else if check_jump {
                jump = true;
            }
        }
        let processed = if at_hour && announced {
            // DST change processed:
            true
        } else if self.minute.is_some() {
            false
        } else {
            dst & DST_PROCESSED != 0
        };
        // Always reset announcement at the hour:
        if at_hour {
            announced = false;
            self.dst_count = 0;
        }
        self.dst = Some(
            (dst & !DST_FLAGS) | flag_bit(announced, DST_ANNOUNCED) | flag_bit(
                processed,
                DST_PROCESSED,
            ) | flag_bit(jump, DST_JUMP) | flag_bit(summer, DST_SUMMER),
        );
        self.first_minute = false;
    }

    /// Set the leap second value.
    ///
    /// # Arguments
    /// * `announce` - if any announcement is made on a positive leap second. The history
    ///                of this value of the last hour (or part thereof if started later) is
    ///                kept to compensate for spurious Some(True) values.
    /// * `minute_length` - the length of the decoded minute in seconds.
    pub fn set_leap_second(&mut self, announce: Option<bool>, minute_length: u8)
        requires
            announce == Some(true) && 60 <= minute_length <= 61 ==> old(self).leap_second_count
                < 255,
        ensures
            announce is None || !(60 <= minute_length <= 61) ==> *final(self) == *old(self),
            announce is Some && 60 <= minute_length <= 61 ==> *final(self) == old(
                self,
            ).leap_updated(announce.unwrap(), minute_length),
    {
        let announce = match announce {
            Some(a) => a,
            None => {
                return ;
            },
        };
        if minute_length < 60 || minute_length > 61 {
            return ;
        }
        let leap: u8 = match self.leap_second {
            Some(l) => l,
            None => 0,
        };
        let at_hour = match self.minute {
            Some(m) => m == 0,
            None => false,
        };
        // Determine if a leap second is announced:
        if announce {
            self.leap_second_count = self.leap_second_count + 1;
        }
        let mut announced = leap & LEAP_ANNOUNCED != 0;
        if let Some(minute) = self.minute {
            if minute > 0 {
                announced = 2 * (self.leap_second_count as u16) > self.minutes_running as u16;
            }
        }
        // Process possible leap second:
        let (processed, missing) = if at_hour && announced {
            // Leap second processed, missing if the minute was not lengthened:
            (true, minute_length == 60)
        } else if self.minute.is_some() {
            (false, false)
        } else {
            (leap & LEAP_PROCESSED != 0, leap & LEAP_MISSING != 0)
        };
        // Always reset announcement at the hour:
        if at_hour {
            announced = false;
            self.leap_second_count = 0;
        }
        self.leap_second = Some(
            (leap & !LEAP_FLAGS) | flag_bit(announced, LEAP_ANNOUNCED) | flag_bit(
                processed,
                LEAP_PROCESSED,
            ) | flag_bit(missing, LEAP_MISSING),
        );
    }

    /// Bump the internal minute counter needed for set_dst() and set_leap_second()
    ///
    /// The code above this library must call this function, as this library cannot
    /// know which function got called first, or if just one of them should be called.
    pub fn bump_minutes_running(&mut self)
        requires
            !old(self).at_top_of_hour() ==> old(self).minutes_running < 255,
        ensures
            *final(self) == old(self).bumped(),
    {
        if self.minute == Some(0u8) {
            self.minutes_running = 0;
        } else {
            self.minutes_running = self.minutes_running + 1;
        }
    }

    /// Return the last calendar day of the current month, or `None` if the year,
    /// month or weekday are absent or any argument is out of range.
    ///
    /// # Arguments
    /// * `day` - day of the month in February '00, used to see if `year` is a leap year
    pub fn last_day(&self, day: u8) -> (r: Option<u8>)
        ensures
            r == self.last_day_spec(day),
    {
        // set_day() checks its argument with this function, so day must be checked here.
        if self.year.is_none() || self.month.is_none() || self.weekday.is_none() || !(1 <= day
            && day <= 31) {
            return None;
        }
        let s_year = self.year.unwrap();
        let s_month = self.month.unwrap();
        let s_weekday = self.weekday.unwrap();
        if s_year > 99 || s_month < 1 || s_month > 12 {
            None
        } else if s_month == 2 {
            if s_year != 0 {
                if s_year % 4 == 0 {
                    Some(29)
                } else {
                    Some(28)
                }
            } else if s_weekday < self.min_weekday || s_weekday > self.max_weekday {
                None
            } else if RadioDateTimeUtils::is_leap_century(day, s_weekday) {
                Some(29)
            } else {
                Some(28)
            }
        } else if s_month == 4 || s_month == 6 || s_month == 9 || s_month == 11 {
            Some(30)
        } else {
            Some(31)
        }
    }

    /// Check if the century based on the given date is divisible by 400.
    ///
    ///  Based on xx00-02-28 is a Monday <=> xx00 is a leap year
    ///
    /// # Arguments
    ///  * `day` - day of the month in February '00
    ///  * `weekday` - day of the week in February '00
    fn is_leap_century(day: u8, weekday: u8) -> (r: bool)
        ensures
            r == leap_century(day as int, weekday as int),
    {
        // Ensure Sunday is 7 when dealing with e.g. MSF :
        let wd: u16 = if weekday == 0 {
            7
        } else {
            weekday as u16
        };
        if day < 29 {
            // Monday=1 .. Sunday=7; move the weekday forward to February 28
            (wd - 1 + (28 - day as u16)) % 7 == 0
        } else {
            // Tuesday xx00-02-29
            wd == 2
        }
    }
}

/// Each flag of a DST mask reads back as it was given.
pub proof fn lemma_dst_mask_flags(other: u8, announced: bool, processed: bool, jump: bool, summer: bool)
    ensures
        (dst_mask(other, announced, processed, jump, summer) & DST_ANNOUNCED != 0) == announced,
        (dst_mask(other, announced, processed, jump, summer) & DST_PROCESSED != 0) == processed,
        (dst_mask(other, announced, processed, jump, summer) & DST_JUMP != 0) == jump,
        (dst_mask(other, announced, processed, jump, summer) & DST_SUMMER != 0) == summer,
        dst_mask(other, announced, processed, jump, summer) & !DST_FLAGS == other & !DST_FLAGS,
{
    assert(DST_FLAGS == 15u8) by (bit_vector);
    let a = flag(announced, DST_ANNOUNCED);
    let p = flag(processed, DST_PROCESSED);
    let j = flag(jump, DST_JUMP);
    let s = flag(summer, DST_SUMMER);
    assert({
        &&& ((other & !15u8) | a | p | j | s) & 1u8 != 0 <==> a == 1u8
        &&& ((other & !15u8) | a | p | j | s) & 2u8 != 0 <==> p == 2u8
        &&& ((other & !15u8) | a | p | j | s) & 4u8 != 0 <==> j == 4u8
        &&& ((other & !15u8) | a | p | j | s) & 8u8 != 0 <==> s == 8u8
        &&& ((other & !15u8) | a | p | j | s) & !15u8 == other & !15u8
    }) by (bit_vector)
        requires
            a == 0u8 || a == 1u8,
            p == 0u8 || p == 2u8,
            j == 0u8 || j == 4u8,
            s == 0u8 || s == 8u8,
    ;
}

/// Each flag of a leap second mask reads back as it was given.
pub proof fn lemma_leap_mask_flags(other: u8, announced: bool, processed: bool, missing: bool)
    ensures
        (leap_mask(other, announced, processed, missing) & LEAP_ANNOUNCED != 0) == announced,
        (leap_mask(other, announced, processed, missing) & LEAP_PROCESSED != 0) == processed,
        (leap_mask(other, announced, processed, missing) & LEAP_MISSING != 0) == missing,
        leap_mask(other, announced, processed, missing) & !LEAP_FLAGS == other & !LEAP_FLAGS,
{
    assert(LEAP_FLAGS == 7u8) by (bit_vector);
    let a = flag(announced, LEAP_ANNOUNCED);
    let p = flag(processed, LEAP_PROCESSED);
    let m = flag(missing, LEAP_MISSING);
    assert({
        &&& ((other & !7u8) | a | p | m) & 1u8 != 0 <==> a == 1u8
        &&& ((other & !7u8) | a | p | m) & 2u8 != 0 <==> p == 2u8
        &&& ((other & !7u8) | a | p | m) & 4u8 != 0 <==> m == 4u8
        &&& ((other & !7u8) | a | p | m) & !7u8 == other & !7u8
    }) by (bit_vector)
        requires
            a == 0u8 || a == 1u8,
            p == 0u8 || p == 2u8,
            m == 0u8 || m == 4u8,
    ;
}

/// `n` minutes of a decoder that moves the minute on, bumps the minute counter
/// and then reports DST `value` with its announcement bit set.
pub open spec fn dst_announced_minutes(s: RadioDateTimeUtils, value: bool, n: nat) -> RadioDateTimeUtils
    decreases n,
{
    if n == 0 {
        s
    } else {
        let p = dst_announced_minutes(s, value, (n - 1) as nat);
        RadioDateTimeUtils { minute: Some((p.minute.unwrap() + 1) as u8), ..p }.bumped().dst_updated(
            value,
            true,
            true,
        )
    }
}

/// `n` minutes of a decoder that moves the minute on, bumps the minute counter
/// and then reports a leap second announcement for a minute of `minute_length` seconds.
pub open spec fn leap_announced_minutes(
    s: RadioDateTimeUtils,
    minute_length: u8,
    n: nat,
) -> RadioDateTimeUtils
    decreases n,
{
    if n == 0 {
        s
    } else {
        let p = leap_announced_minutes(s, minute_length, (n - 1) as nat);
        RadioDateTimeUtils { minute: Some((p.minute.unwrap() + 1) as u8), ..p }.bumped().leap_updated(
            true,
            minute_length,
        )
    }
}

/// DST announcements are debounced by majority: after `n >= 1` announced minutes
/// within the hour, both counters have grown by `n`, and `DST_ANNOUNCED` is set
/// exactly when twice the announcement count exceeds the minutes counted. A DST
/// value reported unchanged all along stays and raises no jump.
pub proof fn lemma_dst_announcement_majority(s: RadioDateTimeUtils, value: bool, n: nat)
    requires
        s.minute is Some,
        s.minute.unwrap() + n <= 59,
        s.dst_count + n < 255,
        s.minutes_running + n < 255,
    ensures
        dst_announced_minutes(s, value, n).minute == Some((s.minute.unwrap() + n) as u8),
        dst_announced_minutes(s, value, n).dst_count == s.dst_count + n,
        dst_announced_minutes(s, value, n).minutes_running == s.minutes_running + n,
        n > 0 ==> (dst_announced_minutes(s, value, n).dst_or_zero() & DST_ANNOUNCED != 0)
            == majority(s.dst_count + n, s.minutes_running + n),
        value == (s.dst_or_zero() & DST_SUMMER != 0) && n > 0 ==> dst_announced_minutes(
            s,
            value,
            n,
        ).dst_or_zero() & DST_JUMP == 0,
        value == (s.dst_or_zero() & DST_SUMMER != 0) ==> (dst_announced_minutes(
            s,
            value,
            n,
        ).dst_or_zero() & DST_SUMMER != 0) == value,
    decreases n,
{
    if n > 0 {
        let p = dst_announced_minutes(s, value, (n - 1) as nat);
        lemma_dst_announcement_majority(s, value, (n - 1) as nat);
        let q = RadioDateTimeUtils { minute: Some((p.minute.unwrap() + 1) as u8), ..p }.bumped();
        let d = q.dst_or_zero();
        let t = q.dst_updated(value, true, true);
        assert(t == dst_announced_minutes(s, value, n));
        assert(q.votes_count());
        let summer = d & DST_SUMMER != 0;
        let accepted = q.dst_change_accepted(true);
        lemma_dst_mask_flags(
            d,
            q.dst_announced_with(true),
            false,
            value != summer && !accepted,
            if value != summer && accepted {
                value
            } else {
                summer
            },
        );
    }
}

/// At the top of the hour an announced DST change is taken over: the new value
/// stands, `DST_PROCESSED` is set, the announcement and its counter are reset.
/// From an announced winter mask, summer time yields `DST_PROCESSED | DST_SUMMER`.
pub proof fn lemma_dst_change_processed(
    s: RadioDateTimeUtils,
    value: bool,
    announce: bool,
    check_jump: bool,
)
    requires
        s.at_top_of_hour(),
        s.dst is Some,
        s.dst.unwrap() & DST_ANNOUNCED != 0,
    ensures
        s.dst_updated(value, announce, check_jump).dst == Some(
            dst_mask(s.dst.unwrap(), false, true, false, value),
        ),
        s.dst_updated(value, announce, check_jump).dst_count == 0,
        s.dst == Some(DST_ANNOUNCED) && value ==> s.dst_updated(value, announce, check_jump).dst
            == Some(DST_PROCESSED | DST_SUMMER),
        s.dst == Some(DST_ANNOUNCED | DST_SUMMER) && !value ==> s.dst_updated(
            value,
            announce,
            check_jump,
        ).dst == Some(DST_PROCESSED),
{
    assert(DST_FLAGS == 15u8) by (bit_vector);
    assert((1u8 & !15u8) | 0u8 | 2u8 | 0u8 | 8u8 == 2u8 | 8u8) by (bit_vector);
    assert(((1u8 | 8u8) & !15u8) | 0u8 | 2u8 | 0u8 | 0u8 == 2u8) by (bit_vector);
}

/// Leap second announcements are debounced by majority, as DST announcements
/// are: after `n >= 1` announced minutes within the hour, `LEAP_ANNOUNCED` is set
/// exactly when twice the announcement count exceeds the minutes counted.
pub proof fn lemma_leap_announcement_majority(s: RadioDateTimeUtils, minute_length: u8, n: nat)
    requires
        s.minute is Some,
        s.minute.unwrap() + n <= 59,
        s.leap_second_count + n < 255,
        s.minutes_running + n < 255,
    ensures
        leap_announced_minutes(s, minute_length, n).minute == Some((s.minute.unwrap() + n) as u8),
        leap_announced_minutes(s, minute_length, n).leap_second_count == s.leap_second_count + n,
        leap_announced_minutes(s, minute_length, n).minutes_running == s.minutes_running + n,
        n > 0 ==> (leap_announced_minutes(s, minute_length, n).leap_or_zero() & LEAP_ANNOUNCED
            != 0) == majority(s.leap_second_count + n, s.minutes_running + n),
    decreases n,
{
    if n > 0 {
        let p = leap_announced_minutes(s, minute_length, (n - 1) as nat);
        lemma_leap_announcement_majority(s, minute_length, (n - 1) as nat);
        let q = RadioDateTimeUtils { minute: Some((p.minute.unwrap() + 1) as u8), ..p }.bumped();
        assert(q.votes_count());
        lemma_leap_mask_flags(q.leap_or_zero(), q.leap_announced_with(true), false, false);
    }
}

/// At the top of the hour an announced leap second is processed: `LEAP_PROCESSED`
/// is set, `LEAP_MISSING` too exactly when the minute had 60 seconds, and the
/// announcement and its counter are reset.
pub proof fn lemma_leap_second_processed(s: RadioDateTimeUtils, announce: bool, minute_length: u8)
    requires
        s.at_top_of_hour(),
        s.leap_second is Some,
        s.leap_second.unwrap() & LEAP_ANNOUNCED != 0,
        60 <= minute_length <= 61,
    ensures
        s.leap_updated(announce, minute_length).leap_second == Some(
            leap_mask(s.leap_second.unwrap(), false, true, minute_length == 60),
        ),
        s.leap_updated(announce, minute_length).leap_second_count == 0,
        s.leap_second == Some(LEAP_ANNOUNCED) && minute_length == 60 ==> s.leap_updated(
            announce,
            minute_length,
        ).leap_second == Some(LEAP_PROCESSED | LEAP_MISSING),
        s.leap_second == Some(LEAP_ANNOUNCED) && minute_length == 61 ==> s.leap_updated(
            announce,
            minute_length,
        ).leap_second == Some(LEAP_PROCESSED),
{
    assert(LEAP_FLAGS == 7u8) by (bit_vector);
    assert((1u8 & !7u8) | 0u8 | 2u8 | 4u8 == 2u8 | 4u8) by (bit_vector);
    assert((1u8 & !7u8) | 0u8 | 2u8 | 0u8 == 2u8) by (bit_vector);
}

/// A setter's jump flag needs a value to jump from: offering a valid value to an
/// empty field stores it without a jump, offering a different valid value then
/// replaces it and raises the jump flag (with `check_jump` on both calls).
pub proof fn lemma_jump_needs_prior_value(v1: u8, lo1: int, hi1: int, v2: u8, lo2: int, hi2: int)
    requires
        lo1 <= v1 <= hi1,
        lo2 <= v2 <= hi2,
        v1 != v2,
    ensures
        offered(None, Some(v1), true, lo1, hi1) == Some(v1),
        !jumped(None, offered(None, Some(v1), true, lo1, hi1), true),
        offered(Some(v1), Some(v2), true, lo2, hi2) == Some(v2),
        jumped(Some(v1), offered(Some(v1), Some(v2), true, lo2, hi2), true),
{
}

/// A value offered with `valid == false` never changes the field and never
/// raises its jump flag.
pub proof fn lemma_invalid_value_ignored(
    old: Option<u8>,
    value: Option<u8>,
    lo: int,
    hi: int,
    check_jump: bool,
)
    ensures
        offered(old, value, false, lo, hi) == old,
        !jumped(old, offered(old, value, false, lo, hi), check_jump),
{
}

/// Outside February of a century year the last day of a month depends on the
/// year and month alone: 30 for April, June, September and November, 29 for
/// February of a leap year that is no century year.
pub proof fn lemma_last_day_ignores_weekday(
    year: int,
    month: int,
    day1: int,
    weekday1: int,
    day2: int,
    weekday2: int,
    min_weekday: int,
    max_weekday: int,
)
    requires
        0 <= year <= 99,
        1 <= month <= 12,
        1 <= day1 <= 31,
        1 <= day2 <= 31,
        !(year == 0 && month == 2),
    ensures
        last_day_of(year, month, day1, weekday1, min_weekday, max_weekday) == last_day_of(
            year,
            month,
            day2,
            weekday2,
            min_weekday,
            max_weekday,
        ),
        last_day_of(year, month, day1, weekday1, min_weekday, max_weekday) is Some,
        month == 4 || month == 6 || month == 9 || month == 11 ==> last_day_of(
            year,
            month,
            day1,
            weekday1,
            min_weekday,
            max_weekday,
        ) == Some(30u8),
        month == 2 && year % 4 == 0 ==> last_day_of(
            year,
            month,
            day1,
            weekday1,
            min_weekday,
            max_weekday,
        ) == Some(29u8),
{
}

/// Adding a minute to 23:59 on December 31, with no DST change announced,
/// starts January 1 of the next year (99 wrapping to 0) on the next weekday
/// (`max_weekday` wrapping to `min_weekday`).
pub proof fn lemma_year_rollover(s: RadioDateTimeUtils)
    requires
        s.is_complete(),
        s.fields_in_range(),
        s.minute == Some(59u8),
        s.hour == Some(23u8),
        s.day == Some(31u8),
        s.month == Some(12u8),
        s.dst.unwrap() & DST_ANNOUNCED == 0,
    ensures
        s.minute_advanced().minute == Some(0u8),
        s.minute_advanced().hour == Some(0u8),
        s.minute_advanced().day == Some(1u8),
        s.minute_advanced().month == Some(1u8),
        s.minute_advanced().year == Some(
            if s.year.unwrap() == 99 {
                0u8
            } else {
                (s.year.unwrap() + 1) as u8
            },
        ),
        s.minute_advanced().weekday == Some(
            if s.weekday.unwrap() == s.max_weekday {
                s.min_weekday
            } else {
                (s.weekday.unwrap() + 1) as u8
            },
        ),
        s.minute_advanced().dst == s.dst,
{
    assert(s.last_day_spec(31) == Some(31u8));
}

} // verus!
