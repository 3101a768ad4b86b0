//! Times of day, calendar dates and evaluation instants.

use vstd::prelude::*;
use crate::text::{digits_at, num2, num4};

verus! {

/// Weekdays are numbered from Sunday, as 0, through Saturday, as 6: parser and
/// evaluator both use this numbering.
pub const SUNDAY: u8 = 0;

pub const MONDAY: u8 = 1;

pub const TUESDAY: u8 = 2;

pub const WEDNESDAY: u8 = 3;

pub const THURSDAY: u8 = 4;

pub const FRIDAY: u8 = 5;

pub const SATURDAY: u8 = 6;

pub open spec fn is_weekday(d: int) -> bool {
    SUNDAY <= d <= SATURDAY
}

/// A wall-clock time with minute resolution.
#[derive(PartialEq, Eq, Structural, Clone, Copy, Debug)]
pub struct TimeOfDay {
    pub hour: u8,
    pub minute: u8,
}

impl TimeOfDay {
    pub open spec fn wf(self) -> bool {
        self.hour < 24 && self.minute < 60
    }

    pub fn new(hour: u8, minute: u8) -> (r: Option<TimeOfDay>)
        ensures
            r == (if hour < 24 && minute < 60 {
                Some(TimeOfDay { hour, minute })
            } else {
                None::<TimeOfDay>
            }),
    {
        if hour < 24 && minute < 60 {
            Some(TimeOfDay { hour, minute })
        } else {
            None
        }
    }

    pub fn hour(&self) -> (r: u8)
        ensures
            r == self.hour,
    {
        self.hour
    }

    pub fn minute(&self) -> (r: u8)
        ensures
            r == self.minute,
    {
        self.minute
    }
}

pub open spec fn is_leap_year(y: int) -> bool {
    y % 4 == 0 && (y % 100 != 0 || y % 400 == 0)
}

pub open spec fn days_in_month(y: int, m: int) -> int {
    if m == 2 {
        if is_leap_year(y) {
            29
        } else {
            28
        }
    } else if m == 4 || m == 6 || m == 9 || m == 11 {
        30
    } else {
        31
    }
}

/// A day of the proleptic Gregorian calendar.
pub open spec fn valid_date(y: int, m: int, d: int) -> bool {
    1 <= m <= 12 && 1 <= d <= days_in_month(y, m)
}

/// A calendar date; years run from 0 to 65535.
#[derive(PartialEq, Eq, Structural, Clone, Copy, Debug)]
pub struct CalendarDate {
    pub year: u16,
    pub month: u8,
    pub day: u8,
}

impl CalendarDate {
    pub open spec fn wf(self) -> bool {
        valid_date(self.year as int, self.month as int, self.day as int)
    }

    pub fn new(year: u16, month: u8, day: u8) -> (r: Option<CalendarDate>)
        ensures
            r == (if valid_date(year as int, month as int, day as int) {
                Some(CalendarDate { year, month, day })
            } else {
                None::<CalendarDate>
            }),
    {
        match chrono_weekday(year, month, day) {
            Some(_) => Some(CalendarDate { year, month, day }),
            None => None,
        }
    }

    pub fn year(&self) -> (r: u16)
        ensures
            r == self.year,
    {
        self.year
    }

    pub fn month(&self) -> (r: u8)
        ensures
            r == self.month,
    {
        self.month
    }

    pub fn day(&self) -> (r: u8)
        ensures
            r == self.day,
    {
        self.day
    }
}

/// The weekday (from Sunday, 0..=6) of a valid date, as chrono computes it.
pub uninterp spec fn weekday_from_sunday(year: int, month: int, day: int) -> int;

/// Relies on `chrono::NaiveDate::from_ymd_opt`, which accepts exactly the valid
/// proleptic Gregorian dates (every year of a `u16` lies in its range), and on
/// `Weekday::num_days_from_sunday`, which gives 0 for Sunday through 6 for Saturday.
#[verifier::external_body]
fn chrono_weekday(year: u16, month: u8, day: u8) -> (r: Option<u8>)
    ensures
        r is Some <==> valid_date(year as int, month as int, day as int),
        r matches Some(w) ==> w as int == weekday_from_sunday(year as int, month as int, day as int)
            && w <= 6,
{
    match chrono::NaiveDate::from_ymd_opt(year as i32, month as u32, day as u32) {
        Some(d) => Some(chrono::Datelike::weekday(&d).num_days_from_sunday() as u8),
        None => None,
    }
}

/// The evaluation instant: a date and a time of day, in the process's single
/// fixed time zone.
#[derive(PartialEq, Eq, Structural, Clone, Copy, Debug)]
pub struct Instant {
    pub date: CalendarDate,
    pub time: TimeOfDay,
}

impl Instant {
    pub open spec fn wf(self) -> bool {
        self.date.wf() && self.time.wf()
    }

    pub open spec fn weekday(self) -> int {
        weekday_from_sunday(self.date.year as int, self.date.month as int, self.date.day as int)
    }

    pub fn new(year: u16, month: u8, day: u8, hour: u8, minute: u8) -> (r: Option<Instant>)
        ensures
            r == (if valid_date(year as int, month as int, day as int) && hour < 24 && minute
                < 60 {
                Some(
                    Instant {
                        date: CalendarDate { year, month, day },
                        time: TimeOfDay { hour, minute },
                    },
                )
            } else {
                None::<Instant>
            }),
    {
        match CalendarDate::new(year, month, day) {
            Some(date) => match TimeOfDay::new(hour, minute) {
                Some(time) => Some(Instant { date, time }),
                None => None,
            },
            None => None,
        }
    }

    /// The weekday of this instant's date, numbered from Sunday.
    pub fn weekday_exec(&self) -> (r: u8)
        requires
            self.wf(),
        ensures
            r as int == self.weekday(),
            is_weekday(r as int),
    {
        let w = chrono_weekday(self.date.year, self.date.month, self.date.day);
        match w {
            Some(w) => w,
            None => {
                assert(false);
                SUNDAY
            },
        }
    }
}

/// Relies on `chrono::NaiveTime::parse_from_str` with `"%H%M"`: on four ASCII
/// digits it reads the first two as the hour and the last two as the minute, and
/// accepts exactly hours 0..=23 and minutes 0..=59.
#[verifier::external_body]
pub(crate) fn chrono_hhmm(t: &str) -> (r: Option<(u32, u32)>)
    requires
        t@.len() == 4,
        digits_at(t@, 0, 4),
    ensures
        r == (if num2(t@, 0) < 24 && num2(t@, 2) < 60 {
            Some((num2(t@, 0) as u32, num2(t@, 2) as u32))
        } else {
            None::<(u32, u32)>
        }),
{
    match chrono::NaiveTime::parse_from_str(t, "%H%M") {
        Ok(v) => Some((chrono::Timelike::hour(&v), chrono::Timelike::minute(&v))),
        Err(_) => None,
    }
}

/// `s[i..i + 10]` has the shape `DDDD-DD-DD` of an ISO calendar date.
pub open spec fn date_shape(s: Seq<char>, i: int) -> bool {
    &&& digits_at(s, i, 4)
    &&& s[i + 4] == '-'
    &&& digits_at(s, i + 5, 2)
    &&& s[i + 7] == '-'
    &&& digits_at(s, i + 8, 2)
}

/// Relies on `chrono::NaiveDate::parse_from_str` with `"%Y-%m-%d"`: on a string
/// of the shape `DDDD-DD-DD` it reads year, month and day from the digit groups
/// and accepts exactly the valid proleptic Gregorian dates.
#[verifier::external_body]
pub(crate) fn chrono_ymd(t: &str) -> (r: Option<(i32, u32, u32)>)
    requires
        t@.len() == 10,
        date_shape(t@, 0),
    ensures
        r == (if valid_date(num4(t@, 0), num2(t@, 5), num2(t@, 8)) {
            Some((num4(t@, 0) as i32, num2(t@, 5) as u32, num2(t@, 8) as u32))
        } else {
            None::<(i32, u32, u32)>
        }),
{
    match chrono::NaiveDate::parse_from_str(t, "%Y-%m-%d") {
        Ok(d) => Some((chrono::Datelike::year(&d), chrono::Datelike::month(&d), chrono::Datelike::day(&d))),
        Err(_) => None,
    }
}

} // verus!
