//! Local civil time as the scheduler sees it: instants counted in seconds,
//! weekdays, units of periodicity, times of day, and the clock.
use vstd::arithmetic::div_mod::lemma_fundamental_div_mod_converse;
use vstd::prelude::*;

verus! {

/// The first supported instant, 0001-01-01T00:00:00, in seconds from
/// 1970-01-01T00:00:00. That day is a Monday.
pub const MIN_SECOND: i64 = -62135596800;

/// The last supported instant, 9999-12-29T23:59:59: the end of the last
/// whole day within the range of jiff's timestamps.
pub const MAX_SECOND: i64 = 253402127999;

pub const SECONDS_PER_DAY: i64 = 86400;

pub open spec fn in_range(s: int) -> bool {
    MIN_SECOND <= s <= MAX_SECOND
}

/// Whole days since the first supported day.
pub open spec fn day_index(s: int) -> int {
    (s - MIN_SECOND) / 86400
}

pub open spec fn second_of_day(s: int) -> int {
    (s - MIN_SECOND) % 86400
}

/// Day of the week, 0 for Monday through 6 for Sunday.
pub open spec fn weekday_index(s: int) -> int {
    day_index(s) % 7
}

pub open spec fn hour_of(s: int) -> int {
    second_of_day(s) / 3600
}

pub open spec fn minute_of(s: int) -> int {
    (second_of_day(s) % 3600) / 60
}

pub open spec fn second_of(s: int) -> int {
    second_of_day(s) % 60
}

/// The first second of the day that holds `s`.
pub open spec fn day_start(s: int) -> int {
    s - second_of_day(s)
}

/// The instant `t` seconds into day `d` (counted from the first supported
/// day) has that day and that second of the day.
pub proof fn lemma_day_and_second(d: int, t: int)
    requires
        d >= 0,
        0 <= t < 86400,
    ensures
        day_index(MIN_SECOND + d * 86400 + t) == d,
        second_of_day(MIN_SECOND + d * 86400 + t) == t,
        day_start(MIN_SECOND + d * 86400 + t) == MIN_SECOND + d * 86400,
{
    lemma_fundamental_div_mod_converse(d * 86400 + t, 86400, d, t);
}

/// Every supported instant is the start of its day plus its second of the
/// day.
pub proof fn lemma_split_instant(s: int)
    requires
        in_range(s),
    ensures
        day_index(s) >= 0,
        0 <= second_of_day(s) < 86400,
        s == MIN_SECOND + day_index(s) * 86400 + second_of_day(s),
{
    vstd::arithmetic::div_mod::lemma_fundamental_div_mod(s - MIN_SECOND, 86400);
    assert(day_index(s) >= 0) by (nonlinear_arith)
        requires
            s - MIN_SECOND >= 0,
            day_index(s) == (s - MIN_SECOND) / 86400,
    ;
}

pub open spec fn is_leap_year(y: int) -> bool {
    y % 4 == 0 && (y % 100 != 0 || y % 400 == 0)
}

pub open spec fn days_in_month(y: int, m: int) -> int {
    if m == 2 {
        if is_leap_year(y) {
            29
        } else {
            28
        }
    } else if m == 4 || m == 6 || m == 9 || m == 11 {
        30
    } else {
        31
    }
}

/// Days from 1970-01-01 to the given date of the proleptic Gregorian
/// calendar (years counted from March, in eras of 400 years).
pub open spec fn days_from_civil(y: int, m: int, d: int) -> int {
    let yy = if m <= 2 {
        y - 1
    } else {
        y
    };
    let era = yy / 400;
    let yoe = yy - era * 400;
    let mp = if m > 2 {
        m - 3
    } else {
        m + 9
    };
    let doy = (153 * mp + 2) / 5 + d - 1;
    let doe = yoe * 365 + yoe / 4 - yoe / 100 + doy;
    era * 146097 + doe - 719468
}

/// A date and time that exists, from year 1 to year 9999.
pub open spec fn valid_civil(y: int, m: int, d: int, h: int, mi: int, s: int) -> bool {
    &&& 1 <= y <= 9999
    &&& 1 <= m <= 12
    &&& 1 <= d <= days_in_month(y, m)
    &&& 0 <= h < 24
    &&& 0 <= mi < 60
    &&& 0 <= s < 60
}

/// Seconds from 1970-01-01T00:00:00 to the given date and time.
pub open spec fn civil_second(y: int, m: int, d: int, h: int, mi: int, s: int) -> int {
    days_from_civil(y, m, d) * 86400 + h * 3600 + mi * 60 + s
}

/// Days from 1970-01-01 to the day that holds `s`.
pub open spec fn unix_day(s: int) -> int {
    day_index(s) - 719162
}

/// `(y, m, d)` is the date of day `z`: the year and month are the last whose
/// first day is not after `z`.
pub open spec fn is_date_of_day(y: int, m: int, d: int, z: int) -> bool {
    &&& 1 <= y <= 9999
    &&& 1 <= m <= 12
    &&& d >= 1
    &&& days_from_civil(y, m, d) == z
    &&& days_from_civil(y, 1, 1) <= z < days_from_civil(y + 1, 1, 1)
    &&& (m == 12 || z < days_from_civil(y, m + 1, 1))
}

fn days_from_civil_exec(y: i64, m: i64, d: i64) -> (r: i64)
    requires
        1 <= y <= 10000,
        1 <= m <= 12,
        1 <= d <= 31,
    ensures
        r == days_from_civil(y as int, m as int, d as int),
{
    let yy: i64 = if m <= 2 {
        y - 1
    } else {
        y
    };
    let era = yy / 400;
    let yoe = yy - era * 400;
    let mp: i64 = if m > 2 {
        m - 3
    } else {
        m + 9
    };
    let doy = (153 * mp + 2) / 5 + d - 1;
    let doe = yoe * 365 + yoe / 4 - yoe / 100 + doy;
    era * 146097 + doe - 719468
}

fn days_in_month_exec(y: i64, m: i64) -> (r: i64)
    requires
        1 <= y <= 9999,
        1 <= m <= 12,
    ensures
        r == days_in_month(y as int, m as int),
{
    if m == 2 {
        if y % 4 == 0 && (y % 100 != 0 || y % 400 == 0) {
            29
        } else {
            28
        }
    } else if m == 4 || m == 6 || m == 9 || m == 11 {
        30
    } else {
        31
    }
}

/// Relies on jiff's `Zoned::try_from` on `std::time::SystemTime::now()`,
/// which fails (rather than panics) on a system time outside jiff's range:
/// the wall-clock date and time of the system time zone, read as if it were
/// UTC. Nothing is known of the value.
#[verifier::external_body]
fn local_now_second() -> (r: Option<i64>) {
    match jiff::Zoned::try_from(std::time::SystemTime::now()) {
        Ok(now) => match now.datetime().to_zoned(jiff::tz::TimeZone::UTC) {
            Ok(z) => Some(z.timestamp().as_second()),
            Err(_) => None,
        },
        Err(_) => None,
    }
}

/// A local civil instant, to the second, from the start of year 1 to the
/// end of 9999-12-29.
#[derive(Clone, Copy, Debug, PartialEq, Eq, Structural, Hash)]
pub struct Timestamp {
    second: i64,
}

impl View for Timestamp {
    type V = int;

    closed spec fn view(&self) -> int {
        self.second as int
    }
}

impl Timestamp {
    #[verifier::type_invariant]
    spec fn inv(self) -> bool {
        in_range(self.second as int)
    }

    /// The instant `s` seconds after 1970-01-01T00:00:00.
    pub closed spec fn spec_from(s: int) -> Timestamp {
        Timestamp { second: s as i64 }
    }

    pub broadcast proof fn lemma_from_view(t: Timestamp)
        ensures
            #[trigger] Timestamp::spec_from(t@) == t,
    {
    }

    pub broadcast proof fn lemma_view_from(s: int)
        requires
            in_range(s),
        ensures
            #[trigger] Timestamp::spec_from(s)@ == s,
    {
    }

    /// The instant `second` seconds after 1970-01-01T00:00:00, if supported.
    pub fn from_second(second: i64) -> (r: Option<Timestamp>)
        ensures
            r is Some <==> in_range(second as int),
            r is Some ==> r->0@ == second,
    {
        if MIN_SECOND <= second && second <= MAX_SECOND {
            Some(Timestamp { second })
        } else {
            None
        }
    }

    /// The instant at the given civil date and time, if it exists and is
    /// supported.
    pub fn from_civil(
        year: i16,
        month: i8,
        day: i8,
        hour: i8,
        minute: i8,
        second: i8,
    ) -> (r: Option<Timestamp>)
        ensures
            r is Some <==> valid_civil(
                year as int,
                month as int,
                day as int,
                hour as int,
                minute as int,
                second as int,
            ) && in_range(
                civil_second(
                    year as int,
                    month as int,
                    day as int,
                    hour as int,
                    minute as int,
                    second as int,
                ),
            ),
            r is Some ==> r->0@ == civil_second(
                year as int,
                month as int,
                day as int,
                hour as int,
                minute as int,
                second as int,
            ),
    {
        let (y, m, d) = (year as i64, month as i64, day as i64);
        if y < 1 || y > 9999 || m < 1 || m > 12 || d < 1 || d > days_in_month_exec(y, m) {
            return None;
        }
        if hour < 0 || hour >= 24 || minute < 0 || minute >= 60 || second < 0 || second >= 60 {
            return None;
        }
        let days = days_from_civil_exec(y, m, d);
        Timestamp::from_second(
            days * 86400 + hour as i64 * 3600 + minute as i64 * 60 + second as i64,
        )
    }

    pub fn as_second(&self) -> (r: i64)
        ensures
            r == self@,
            in_range(r as int),
    {
        proof {
            use_type_invariant(self);
        }
        self.second
    }

    /// `self` moved by `delta` seconds, if the result is supported.
    pub fn checked_add_seconds(self, delta: i64) -> (r: Option<Timestamp>)
        ensures
            r is Some <==> in_range(self@ + delta),
            r is Some ==> r->0@ == self@ + delta,
    {
        proof {
            use_type_invariant(&self);
        }
        if delta > MAX_SECOND - self.second || delta < MIN_SECOND - self.second {
            None
        } else {
            Some(Timestamp { second: self.second + delta })
        }
    }

    pub fn is_after(&self, other: &Timestamp) -> (r: bool)
        ensures
            r == (self@ > other@),
    {
        self.second > other.second
    }

    pub fn seconds_since(&self, other: &Timestamp) -> (r: i64)
        ensures
            r == self@ - other@,
    {
        proof {
            use_type_invariant(self);
            use_type_invariant(other);
        }
        self.second - other.second
    }

    pub fn second_of_day(&self) -> (r: i64)
        ensures
            r == second_of_day(self@),
            0 <= r < 86400,
    {
        proof {
            use_type_invariant(self);
        }
        (self.second - MIN_SECOND) % SECONDS_PER_DAY
    }

    pub fn hour(&self) -> (r: i8)
        ensures
            r == hour_of(self@),
            0 <= r < 24,
    {
        (self.second_of_day() / 3600) as i8
    }

    pub fn minute(&self) -> (r: i8)
        ensures
            r == minute_of(self@),
            0 <= r < 60,
    {
        ((self.second_of_day() % 3600) / 60) as i8
    }

    pub fn second(&self) -> (r: i8)
        ensures
            r == second_of(self@),
            0 <= r < 60,
    {
        (self.second_of_day() % 60) as i8
    }

    pub fn weekday(&self) -> (r: Weekday)
        ensures
            r.index() == weekday_index(self@),
    {
        proof {
            use_type_invariant(self);
        }
        let days = (self.second - MIN_SECOND) / SECONDS_PER_DAY;
        Weekday::from_index((days % 7) as u8)
    }

    /// The instant on the same day at `time`.
    pub fn with_time(self, time: LocalTime) -> (r: Timestamp)
        requires
            time.wf(),
        ensures
            r@ == day_start(self@) + time.seconds(),
    {
        proof {
            use_type_invariant(&self);
            let k = self.second - MIN_SECOND;
            assert(k % 86400 <= k) by (nonlinear_arith)
                requires k >= 0;
            assert(k - k % 86400 <= 315537724800 - 86400) by (nonlinear_arith)
                requires 0 <= k <= 315537724799, k - k % 86400 == (k / 86400) * 86400;
        }
        let start = self.second - self.second_of_day();
        let offset = time.hour as i64 * 3600 + time.minute as i64 * 60 + time.second as i64;
        Timestamp { second: start + offset }
    }

    /// Days from 1970-01-01 to the day of this instant.
    pub fn unix_day(&self) -> (r: i64)
        ensures
            r == unix_day(self@),
            -719162 <= r <= 2932894,
    {
        proof {
            use_type_invariant(self);
        }
        (self.second - MIN_SECOND) / SECONDS_PER_DAY - 719162
    }

    /// Year, month and day of this instant.
    pub fn date(&self) -> (r: (i64, i64, i64))
        ensures
            is_date_of_day(r.0 as int, r.1 as int, r.2 as int, unix_day(self@)),
    {
        let z = self.unix_day();
        assert(days_from_civil(1, 1, 1) == -719162);
        assert(days_from_civil(10000, 1, 1) == 2932897);
        let mut lo: i64 = 1;
        let mut hi: i64 = 10000;
        while hi - lo > 1
            invariant
                1 <= lo < hi <= 10000,
                days_from_civil(lo as int, 1, 1) <= z < days_from_civil(hi as int, 1, 1),
            decreases hi - lo,
        {
            let mid = lo + (hi - lo) / 2;
            if days_from_civil_exec(mid, 1, 1) <= z {
                lo = mid;
            } else {
                hi = mid;
            }
        }
        let y = lo;
        let mut m: i64 = 1;
        while m < 12 && days_from_civil_exec(y, m + 1, 1) <= z
            invariant
                1 <= y <= 9999,
                1 <= m <= 12,
                days_from_civil(y as int, m as int, 1) <= z,
            decreases 12 - m,
        {
            m = m + 1;
        }
        let d = z - days_from_civil_exec(y, m, 1) + 1;
        (y, m, d)
    }

    pub fn year(&self) -> (r: i64)
        ensures
            exists|m: int, d: int| is_date_of_day(r as int, m, d, unix_day(self@)),
    {
        self.date().0
    }

    pub fn month(&self) -> (r: i64)
        ensures
            exists|y: int, d: int| is_date_of_day(y, r as int, d, unix_day(self@)),
    {
        self.date().1
    }

    pub fn day(&self) -> (r: i64)
        ensures
            exists|y: int, m: int| is_date_of_day(y, m, r as int, unix_day(self@)),
    {
        self.date().2
    }
}

/// A day of the week.
#[derive(Clone, Copy, Debug, PartialEq, Eq, Structural, Hash)]
pub enum Weekday {
    Monday,
    Tuesday,
    Wednesday,
    Thursday,
    Friday,
    Saturday,
    Sunday,
}

impl Weekday {
    /// Days after Monday.
    pub open spec fn index(self) -> int {
        match self {
            Weekday::Monday => 0,
            Weekday::Tuesday => 1,
            Weekday::Wednesday => 2,
            Weekday::Thursday => 3,
            Weekday::Friday => 4,
            Weekday::Saturday => 5,
            Weekday::Sunday => 6,
        }
    }

    pub fn to_monday_zero_offset(self) -> (r: u8)
        ensures
            r == self.index(),
    {
        match self {
            Weekday::Monday => 0,
            Weekday::Tuesday => 1,
            Weekday::Wednesday => 2,
            Weekday::Thursday => 3,
            Weekday::Friday => 4,
            Weekday::Saturday => 5,
            Weekday::Sunday => 6,
        }
    }

    pub fn from_index(i: u8) -> (r: Weekday)
        requires
            i < 7,
        ensures
            r.index() == i,
    {
        match i {
            0 => Weekday::Monday,
            1 => Weekday::Tuesday,
            2 => Weekday::Wednesday,
            3 => Weekday::Thursday,
            4 => Weekday::Friday,
            5 => Weekday::Saturday,
            _ => Weekday::Sunday,
        }
    }

    pub open spec fn spec_name(self) -> Seq<char> {
        match self {
            Weekday::Monday => "Monday"@,
            Weekday::Tuesday => "Tuesday"@,
            Weekday::Wednesday => "Wednesday"@,
            Weekday::Thursday => "Thursday"@,
            Weekday::Friday => "Friday"@,
            Weekday::Saturday => "Saturday"@,
            Weekday::Sunday => "Sunday"@,
        }
    }

    pub fn name(self) -> (r: &'static str)
        ensures
            r@ == self.spec_name(),
    {
        match self {
            Weekday::Monday => "Monday",
            Weekday::Tuesday => "Tuesday",
            Weekday::Wednesday => "Wednesday",
            Weekday::Thursday => "Thursday",
            Weekday::Friday => "Friday",
            Weekday::Saturday => "Saturday",
            Weekday::Sunday => "Sunday",
        }
    }
}

/// The granularity of a job's period.
#[derive(Clone, Copy, Debug, PartialEq, Eq, Structural, Hash)]
pub enum TimeUnit {
    Second,
    Minute,
    Hour,
    Day,
    Week,
    Month,
    Year,
}

impl TimeUnit {
    /// Seconds in one unit. A month is taken as four weeks and a year as
    /// fifty-two weeks.
    pub open spec fn seconds(self) -> int {
        match self {
            TimeUnit::Second => 1,
            TimeUnit::Minute => 60,
            TimeUnit::Hour => 3600,
            TimeUnit::Day => 86400,
            TimeUnit::Week => 604800,
            TimeUnit::Month => 2419200,
            TimeUnit::Year => 31449600,
        }
    }

    pub fn duration_seconds(self) -> (r: i64)
        ensures
            r == self.seconds(),
    {
        match self {
            TimeUnit::Second => 1,
            TimeUnit::Minute => 60,
            TimeUnit::Hour => 3600,
            TimeUnit::Day => 86400,
            TimeUnit::Week => 604800,
            TimeUnit::Month => 2419200,
            TimeUnit::Year => 31449600,
        }
    }

    pub open spec fn spec_name(self) -> Seq<char> {
        match self {
            TimeUnit::Second => "second"@,
            TimeUnit::Minute => "minute"@,
            TimeUnit::Hour => "hour"@,
            TimeUnit::Day => "day"@,
            TimeUnit::Week => "week"@,
            TimeUnit::Month => "month"@,
            TimeUnit::Year => "year"@,
        }
    }

    pub fn name(self) -> (r: &'static str)
        ensures
            r@ == self.spec_name(),
    {
        match self {
            TimeUnit::Second => "second",
            TimeUnit::Minute => "minute",
            TimeUnit::Hour => "hour",
            TimeUnit::Day => "day",
            TimeUnit::Week => "week",
            TimeUnit::Month => "month",
            TimeUnit::Year => "year",
        }
    }
}

/// A time of day, to the second.
#[derive(Clone, Copy, Debug, PartialEq, Eq, Structural, Hash)]
pub struct LocalTime {
    pub hour: u8,
    pub minute: u8,
    pub second: u8,
}

impl LocalTime {
    pub open spec fn wf(self) -> bool {
        self.hour < 24 && self.minute < 60 && self.second < 60
    }

    /// Seconds after midnight.
    pub open spec fn seconds(self) -> int {
        self.hour * 3600 + self.minute * 60 + self.second
    }
}

/// Where the scheduler reads the current time: the system clock, or a fixed
/// instant that only moves when told to.
#[derive(Clone, Copy, Debug, PartialEq, Eq, Structural)]
pub enum Clock {
    Real,
    Mock(Timestamp),
}

impl Clock {
    /// The current instant; `None` when the system clock reads outside the
    /// supported range.
    pub fn now(&self) -> (r: Option<Timestamp>)
        ensures
            self matches Clock::Mock(t) ==> r == Some(*t),
    {
        match self {
            Clock::Real => match local_now_second() {
                Some(s) => Timestamp::from_second(s),
                None => None,
            },
            Clock::Mock(t) => Some(*t),
        }
    }
}

} // verus!
