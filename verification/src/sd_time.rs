//! Time stamps of the files on the SD card.

use vstd::prelude::*;

verus! {

/// The earliest time that can be converted, in microseconds since 1970.
pub const EARLIEST_US: i64 = -377705023201000000;

/// The latest time that can be converted, in microseconds since 1970.
pub const LATEST_US: i64 = 253402207200000000;

/// Whether February has 29 days.
pub open spec fn is_leap_year(year: int) -> bool {
    year % 4 == 0 && (year % 100 != 0 || year % 400 == 0)
}

/// The length of a month.
pub open spec fn days_in_month(year: int, month: int) -> int {
    if month == 2 {
        if is_leap_year(year) {
            29
        } else {
            28
        }
    } else if month == 4 || month == 6 || month == 9 || month == 11 {
        30
    } else {
        31
    }
}

/// Days from the beginning of the year to the beginning of the month.
pub open spec fn days_before_month(year: int, month: int) -> int
    decreases month,
{
    if month <= 1 {
        0
    } else {
        days_before_month(year, month - 1) + days_in_month(year, month - 1)
    }
}

/// Days from the beginning of the year 1 to the beginning of the year, in the Gregorian calendar.
pub open spec fn days_before_year(year: int) -> int {
    let past = year - 1;
    365 * past + past / 4 - past / 100 + past / 400
}

/// Days from the beginning of the year 1 to the beginning of 1970.
pub open spec fn days_before_1970() -> int {
    719162
}

/// A date and a time of day in UTC.
#[derive(Clone, Copy, Debug, PartialEq, Eq, Structural)]
pub struct CivilTime {
    pub year: i16,
    pub month: i8,
    pub day: i8,
    pub hour: i8,
    pub minute: i8,
    pub second: i8,
}

impl CivilTime {
    /// The date is in the calendar, and the time on the clock.
    pub open spec fn is_valid(self) -> bool {
        &&& -9999 <= self.year <= 9999
        &&& 1 <= self.month <= 12
        &&& 1 <= self.day <= days_in_month(self.year as int, self.month as int)
        &&& 0 <= self.hour < 24
        &&& 0 <= self.minute < 60
        &&& 0 <= self.second < 60
    }

    /// Days since the beginning of 1970.
    pub open spec fn unix_days(self) -> int {
        days_before_year(self.year as int) + days_before_month(self.year as int, self.month as int)
            + self.day - 1 - days_before_1970()
    }

    /// Seconds since the beginning of 1970.
    pub open spec fn unix_seconds(self) -> int {
        ((self.unix_days() * 24 + self.hour) * 60 + self.minute) * 60 + self.second
    }
}

/// A time stamp in the form in which the file system takes it.
#[derive(Clone, Copy, Debug, PartialEq, Eq, Structural)]
pub struct FatTimestamp {
    pub year_since_1970: u8,
    pub zero_indexed_month: u8,
    pub zero_indexed_day: u8,
    pub hours: u8,
    pub minutes: u8,
    pub seconds: u8,
}

/// Converts microseconds since 1970 with `jiff::Timestamp::from_microsecond` and
/// `jiff::Timestamp::to_zoned` in `jiff::tz::TimeZone::UTC`, and reads the parts off with the
/// methods of `jiff::Zoned`.
///
/// Believed of them: the conversion succeeds exactly from `EARLIEST_US` to `LATEST_US`; the
/// result is a date of the Gregorian calendar, extended to years before its introduction, and
/// the second of that day in which the instant lies, without leap seconds.
#[verifier::external_body]
fn civil_from_microsecond(microsecond: i64) -> (civil: Option<CivilTime>)
    ensures
        civil is Some <==> EARLIEST_US <= microsecond <= LATEST_US,
        civil matches Some(civil) ==> civil.is_valid() && civil.unix_seconds() == microsecond as int
            / 1_000_000,
{
    let utc = jiff::tz::TimeZone::UTC;
    let at = jiff::Timestamp::from_microsecond(microsecond).ok()?.to_zoned(utc);
    Some(
        CivilTime {
            year: at.year(),
            month: at.month(),
            day: at.day(),
            hour: at.hour(),
            minute: at.minute(),
            second: at.second(),
        },
    )
}

/// The beginning of 1970.
pub open spec fn epoch() -> CivilTime {
    CivilTime { year: 1970, month: 1, day: 1, hour: 0, minute: 0, second: 0 }
}

/// The clock reading as a signed number: the upper half of the range stands for times before 1970.
pub open spec fn signed_clock(now_us: u64) -> int {
    if now_us <= i64::MAX {
        now_us as int
    } else {
        now_us - 0x1_0000_0000_0000_0000
    }
}

/// The clock reading can be converted.
pub open spec fn is_convertible(now_us: u64) -> bool {
    EARLIEST_US <= signed_clock(now_us) <= LATEST_US
}

/// The date and time that a clock reading stands for. A reading out of range counts as the
/// beginning of 1970.
pub fn civil_time(now_us: u64) -> (civil: CivilTime)
    ensures
        civil.is_valid(),
        is_convertible(now_us) ==> civil.unix_seconds() == signed_clock(now_us) / 1_000_000,
        !is_convertible(now_us) ==> civil == epoch(),
{
    let signed: i64 = if now_us <= i64::MAX as u64 {
        now_us as i64
    } else {
        -((u64::MAX - now_us) as i64) - 1
    };
    assert(epoch().is_valid());
    match civil_from_microsecond(signed) {
        Some(civil) => civil,
        None => CivilTime { year: 1970, month: 1, day: 1, hour: 0, minute: 0, second: 0 },
    }
}

/// The distance of the year from 1970, of which the file system takes one byte.
pub open spec fn year_distance(year: i16) -> int {
    if year >= 1970 {
        year - 1970
    } else {
        1970 - year
    }
}

impl FatTimestamp {
    /// The date and time in the form in which the file system takes them.
    pub fn from_civil(civil: CivilTime) -> (stamp: Self)
        requires
            civil.is_valid(),
        ensures
            stamp_shows(stamp, civil),
    {
        let year: i32 = civil.year as i32;
        let distance: i32 = if year >= 1970 {
            year - 1970
        } else {
            1970 - year
        };
        FatTimestamp {
            year_since_1970: (distance % 256) as u8,
            zero_indexed_month: (civil.month - 1) as u8,
            zero_indexed_day: (civil.day - 1) as u8,
            hours: civil.hour as u8,
            minutes: civil.minute as u8,
            seconds: civil.second as u8,
        }
    }

    /// The time stamp for a clock reading in microseconds. Unless the clock was set, it counts
    /// from the start of the board.
    pub fn get_timestamp(now_us: u64) -> (stamp: Self)
        ensures
            exists|civil: CivilTime| #[trigger]
                civil.is_valid() && (if is_convertible(now_us) {
                    civil.unix_seconds() == signed_clock(now_us) / 1_000_000
                } else {
                    civil == epoch()
                }) && stamp_shows(stamp, civil),
    {
        FatTimestamp::from_civil(civil_time(now_us))
    }
}

/// The time stamp shows this date and time.
pub open spec fn stamp_shows(stamp: FatTimestamp, civil: CivilTime) -> bool {
    &&& stamp.year_since_1970 == year_distance(civil.year) % 256
    &&& stamp.zero_indexed_month == civil.month - 1
    &&& stamp.zero_indexed_day == civil.day - 1
    &&& stamp.hours == civil.hour
    &&& stamp.minutes == civil.minute
    &&& stamp.seconds == civil.second
}

#[verifier::rlimit(40)]
proof fn lemma_year_length(year: int)
    ensures
        days_before_year(year + 1) == days_before_year(year) + (if is_leap_year(year) {
            366int
        } else {
            365
        }),
{
    lemma_quotient_steps(year, 4);
    lemma_quotient_steps(year, 100);
    lemma_quotient_steps(year, 400);
    lemma_multiples_nest(year);
}

proof fn lemma_multiples_nest(value: int)
    ensures
        value % 400 == 0 ==> value % 100 == 0,
        value % 100 == 0 ==> value % 4 == 0,
{
    assert(value % 400 == 0 ==> value % 100 == 0) by {
        vstd::arithmetic::div_mod::lemma_mod_mod(value, 100, 4);
    }
    assert(value % 100 == 0 ==> value % 4 == 0) by {
        vstd::arithmetic::div_mod::lemma_mod_mod(value, 4, 25);
    }
}

#[verifier::rlimit(40)]
proof fn lemma_quotient_steps(value: int, divisor: int)
    requires
        divisor == 4 || divisor == 100 || divisor == 400,
    ensures
        value / divisor == (value - 1) / divisor + (if value % divisor == 0 {
            1int
        } else {
            0
        }),
{
    if divisor == 4 {
        assert(value / 4 == (value - 1) / 4 + (if value % 4 == 0 {
            1int
        } else {
            0
        }));
    } else if divisor == 100 {
        assert(value / 100 == (value - 1) / 100 + (if value % 100 == 0 {
            1int
        } else {
            0
        }));
    } else {
        assert(value / 400 == (value - 1) / 400 + (if value % 400 == 0 {
            1int
        } else {
            0
        }));
    }
}

proof fn lemma_later_years_begin_later(earlier: int, later: int)
    requires
        earlier < later,
    ensures
        days_before_year(earlier) + (if is_leap_year(earlier) {
            366int
        } else {
            365
        }) <= days_before_year(later),
    decreases later - earlier,
{
    lemma_year_length(earlier);
    if earlier + 1 < later {
        lemma_later_years_begin_later(earlier + 1, later);
    }
}

proof fn lemma_months_fill_the_year(year: int, month: int)
    requires
        1 <= month <= 12,
    ensures
        0 <= days_before_month(year, month),
        days_before_month(year, month) + days_in_month(year, month) <= (if is_leap_year(year) {
            366int
        } else {
            365
        }),
{
    reveal_with_fuel(days_before_month, 13);
}

proof fn lemma_later_months_begin_later(year: int, earlier: int, later: int)
    requires
        1 <= earlier < later,
    ensures
        days_before_month(year, earlier) + days_in_month(year, earlier) <= days_before_month(
            year,
            later,
        ),
    decreases later - earlier,
{
    if earlier + 1 < later {
        lemma_later_months_begin_later(year, earlier, later - 1);
    }
}

#[verifier::rlimit(40)]
proof fn lemma_days_are_ordered(a: CivilTime, b: CivilTime)
    requires
        a.is_valid(),
        b.is_valid(),
        a.year < b.year || (a.year == b.year && a.month < b.month),
    ensures
        a.unix_days() < b.unix_days(),
{
    lemma_months_fill_the_year(a.year as int, a.month as int);
    lemma_months_fill_the_year(b.year as int, b.month as int);
    if a.year < b.year {
        lemma_later_years_begin_later(a.year as int, b.year as int);
    } else {
        lemma_later_months_begin_later(a.year as int, a.month as int, b.month as int);
    }
}

/// Law: a second lies in one date and time only, so the conversion of a clock reading has one
/// possible result.
#[verifier::rlimit(40)]
pub proof fn law_civil_time_is_unique(a: CivilTime, b: CivilTime)
    requires
        a.is_valid(),
        b.is_valid(),
        a.unix_seconds() == b.unix_seconds(),
    ensures
        a == b,
{
    assert(a.unix_days() == b.unix_days() && a.hour == b.hour && a.minute == b.minute && a.second
        == b.second);
    if a.year < b.year || (a.year == b.year && a.month < b.month) {
        lemma_days_are_ordered(a, b);
    } else if b.year < a.year || (b.year == a.year && b.month < a.month) {
        lemma_days_are_ordered(b, a);
    }
}

/// Law: a clock that was never set starts at the beginning of 1970.
pub proof fn law_clock_starts_at_the_epoch()
    ensures
        epoch().is_valid(),
        epoch().unix_seconds() == 0,
        is_convertible(0),
{
    assert(days_before_month(1970, 1) == 0);
}

/// Law: from 1970 to 2225 the time stamp tells every second from every other.
pub proof fn law_stamps_tell_seconds_apart(stamp: FatTimestamp, a: CivilTime, b: CivilTime)
    requires
        stamp_shows(stamp, a),
        stamp_shows(stamp, b),
        1970 <= a.year < 2226,
        1970 <= b.year < 2226,
    ensures
        a == b,
{
}

/// Law: what a time stamp shows: from 1970 to 2225 the year, and always month, day and time of
/// day, months and days counted from zero.
pub proof fn law_stamps_show_the_date(stamp: FatTimestamp, civil: CivilTime)
    requires
        stamp_shows(stamp, civil),
    ensures
        1970 <= civil.year < 2226 ==> 1970 + stamp.year_since_1970 == civil.year,
        1714 < civil.year <= 1970 ==> 1970 - stamp.year_since_1970 == civil.year,
        stamp.zero_indexed_month + 1 == civil.month,
        stamp.zero_indexed_day + 1 == civil.day,
        stamp.hours == civil.hour && stamp.minutes == civil.minute && stamp.seconds
            == civil.second,
{
}

/// Law: a clock reading is taken as a signed 64-bit number, and what lies outside the years that
/// can be converted is the beginning of 1970.
pub proof fn law_clock_readings_are_signed(now_us: u64)
    ensures
        -0x8000_0000_0000_0000 <= signed_clock(now_us) < 0x8000_0000_0000_0000,
        signed_clock(now_us) == now_us || signed_clock(now_us) + 0x1_0000_0000_0000_0000 == now_us,
        is_convertible(now_us) <==> -377705023201000000 <= signed_clock(now_us)
            <= 253402207200000000,
        epoch() == (CivilTime { year: 1970, month: 1, day: 1, hour: 0, minute: 0, second: 0 }),
{
}

/// Law: which dates and times there are: months have their lengths, and only every fourth year has
/// a 29th of February, of the full centuries every fourth.
pub proof fn law_months_have_their_lengths(civil: CivilTime)
    ensures
        ({
            let leap = civil.year as int % 4 == 0 && !(civil.year as int % 100 == 0
                && civil.year as int % 400 != 0);
            let short = civil.month == 4 || civil.month == 6 || civil.month == 9 || civil.month
                == 11;
            civil.is_valid() <==> {
                &&& -9999 <= civil.year && civil.year <= 9999
                &&& 1 <= civil.month && civil.month <= 12
                &&& 1 <= civil.day && civil.day <= 31
                &&& civil.day == 31 ==> !short
                &&& civil.month == 2 ==> civil.day <= 29
                &&& civil.month == 2 && civil.day == 29 ==> leap
                &&& 0 <= civil.hour && civil.hour <= 23
                &&& 0 <= civil.minute && civil.minute <= 59
                &&& 0 <= civil.second && civil.second <= 59
            }
        }),
{
}

/// Law: one second later on the clock is one second later in the count, also where the minute,
/// the hour, the day, the month or the year begins.
pub proof fn law_seconds_follow_each_other(civil: CivilTime)
    requires
        civil.is_valid(),
    ensures
        civil.second < 59 ==> (CivilTime {
            second: (civil.second + 1) as i8,
            ..civil
        }).unix_seconds() == civil.unix_seconds() + 1,
        civil.second == 59 && civil.minute < 59 ==> (CivilTime {
            second: 0,
            minute: (civil.minute + 1) as i8,
            ..civil
        }).unix_seconds() == civil.unix_seconds() + 1,
        civil.second == 59 && civil.minute == 59 && civil.hour < 23 ==> (CivilTime {
            second: 0,
            minute: 0,
            hour: (civil.hour + 1) as i8,
            ..civil
        }).unix_seconds() == civil.unix_seconds() + 1,
        civil.second == 59 && civil.minute == 59 && civil.hour == 23 ==> {
            let midnight = CivilTime { second: 0, minute: 0, hour: 0, ..civil };
            let next = civil.unix_seconds() + 1;
            &&& civil.day < days_in_month(civil.year as int, civil.month as int) ==> (CivilTime {
                day: (civil.day + 1) as i8,
                ..midnight
            }).unix_seconds() == next
            &&& civil.day == days_in_month(civil.year as int, civil.month as int) && civil.month
                < 12 ==> (CivilTime {
                day: 1,
                month: (civil.month + 1) as i8,
                ..midnight
            }).unix_seconds() == next
            &&& civil.day == 31 && civil.month == 12 && civil.year < 9999 ==> (CivilTime {
                day: 1,
                month: 1,
                year: (civil.year + 1) as i16,
                ..midnight
            }).unix_seconds() == next
        },
{
    if civil.month == 12 {
        reveal_with_fuel(days_before_month, 13);
        lemma_year_length(civil.year as int);
    }
}

} // verus!
