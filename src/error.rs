//! The error type of the scheduler and its messages.
use vstd::prelude::*;
use vstd::string::StringExecFns;

use crate::time::{TimeUnit, Weekday};

verus! {

/// Everything that can go wrong while configuring or rescheduling a job.
#[derive(Clone, Copy, Debug, PartialEq, Eq, Structural)]
pub enum Error {
    /// A singular unit setter was used on an interval other than one.
    Interval(TimeUnit),
    /// A unit was set on a job that already had one: (attempted, existing).
    Unit(TimeUnit, TimeUnit),
    /// The upper bound of a randomized interval does not exceed the interval.
    InvalidInterval,
    /// A time of day was given for a unit that does not take one.
    InvalidUnit,
    InvalidHour(u32),
    InvalidDailyAtStr,
    InvalidHourlyAtStr,
    InvalidMinuteAtStr,
    /// A deadline before the job's last run, or before the current time when
    /// the job is registered.
    InvalidUntilTime,
    /// A job was scheduled without a unit.
    UnitUnreachable,
    /// A start day was set on a job whose unit is not weeks.
    StartDayError,
    /// A weekday setter was used on an interval other than one.
    Weekday(Weekday),
    /// A weekday was set on a job that already had one: (attempted, existing).
    WeekdayCollision(Weekday, Weekday),
    /// A time of day was set on a job whose unit does not allow one.
    UnspecifiedStartDay,
    /// A computed run time falls outside the supported range of instants.
    TimestampOutOfRange,
}

pub open spec fn digit_char(d: nat) -> char {
    if d == 0 {
        '0'
    } else if d == 1 {
        '1'
    } else if d == 2 {
        '2'
    } else if d == 3 {
        '3'
    } else if d == 4 {
        '4'
    } else if d == 5 {
        '5'
    } else if d == 6 {
        '6'
    } else if d == 7 {
        '7'
    } else if d == 8 {
        '8'
    } else {
        '9'
    }
}

/// The decimal digits of `n`, without leading zeros.
pub open spec fn decimal_digits(n: nat) -> Seq<char>
    decreases n,
{
    if n < 10 {
        seq![digit_char(n)]
    } else {
        decimal_digits(n / 10).push(digit_char(n % 10))
    }
}

/// The decimal digit `d` as a string.
fn digit_str(d: u32) -> (r: &'static str)
    requires
        d < 10,
    ensures
        r@ == seq![digit_char(d as nat)],
{
    match d {
        0 => {
            proof {
                reveal_strlit("0");
            }
            assert("0"@ =~= seq![digit_char(0)]);
            "0"
        },
        1 => {
            proof {
                reveal_strlit("1");
            }
            assert("1"@ =~= seq![digit_char(1)]);
            "1"
        },
        2 => {
            proof {
                reveal_strlit("2");
            }
            assert("2"@ =~= seq![digit_char(2)]);
            "2"
        },
        3 => {
            proof {
                reveal_strlit("3");
            }
            assert("3"@ =~= seq![digit_char(3)]);
            "3"
        },
        4 => {
            proof {
                reveal_strlit("4");
            }
            assert("4"@ =~= seq![digit_char(4)]);
            "4"
        },
        5 => {
            proof {
                reveal_strlit("5");
            }
            assert("5"@ =~= seq![digit_char(5)]);
            "5"
        },
        6 => {
            proof {
                reveal_strlit("6");
            }
            assert("6"@ =~= seq![digit_char(6)]);
            "6"
        },
        7 => {
            proof {
                reveal_strlit("7");
            }
            assert("7"@ =~= seq![digit_char(7)]);
            "7"
        },
        8 => {
            proof {
                reveal_strlit("8");
            }
            assert("8"@ =~= seq![digit_char(8)]);
            "8"
        },
        _ => {
            proof {
                reveal_strlit("9");
            }
            assert("9"@ =~= seq![digit_char(9)]);
            "9"
        },
    }
}

/// `n` written in decimal.
fn decimal(n: u32) -> (r: String)
    ensures
        r@ == decimal_digits(n as nat),
    decreases n,
{
    if n < 10 {
        digit_str(n).to_owned()
    } else {
        let mut s = decimal(n / 10);
        s.append(digit_str(n % 10));
        s
    }
}

/// `a` followed by `b`.
fn concat(a: &str, b: &str) -> (r: String)
    ensures
        r@ == a@ + b@,
{
    let mut s = a.to_owned();
    s.append(b);
    s
}

impl Error {
    pub open spec fn message(self) -> Seq<char> {
        match self {
            Error::Interval(u) => "Use "@ + u.spec_name() + "s() instead of "@ + u.spec_name()
                + "()"@,
            Error::Unit(a, b) => "Cannot set "@ + a.spec_name() + "s mode, already using "@
                + b.spec_name() + "s"@,
            Error::InvalidInterval => "Latest val is greater than interval val"@,
            Error::InvalidUnit => "Invalid unit (valid units are `days`, `hours`, and `minutes`)"@,
            Error::InvalidHour(h) => "Invalid hour ("@ + decimal_digits(h as nat)
                + " is not between 0 and 23)"@,
            Error::InvalidDailyAtStr => "Invalid time format for daily job (valid format is HH:MM(:SS)?)"@,
            Error::InvalidHourlyAtStr => "Invalid time format for hourly job (valid format is (MM)?:SS)"@,
            Error::InvalidMinuteAtStr => "Invalid time format for minutely job (valid format is :SS)"@,
            Error::InvalidUntilTime => "Cannot schedule a job to run until a time in the past"@,
            Error::UnitUnreachable => "Attempted to reference the unit but failed"@,
            Error::StartDayError => "Attempted to use a start day for a unit other than `weeks`"@,
            Error::Weekday(w) => "Scheduling jobs on "@ + w.spec_name()
                + " is only allowed for weekly jobs.  Using specific days on a job scheduled to run every 2 or more weeks is not supported"@,
            Error::WeekdayCollision(a, b) => "Cannot schedule "@ + a.spec_name()
                + " job, already scheduled for "@ + b.spec_name(),
            Error::UnspecifiedStartDay => "Invalid unit without specifying start day"@,
            Error::TimestampOutOfRange => "Computed time is outside the supported range"@,
        }
    }

    /// The human-readable description of this error.
    pub fn to_string(&self) -> (r: String)
        ensures
            r@ == self.message(),
    {
        match *self {
            Error::Interval(u) => {
                let s = concat("Use ", u.name());
                let s = concat(s.as_str(), "s() instead of ");
                let s = concat(s.as_str(), u.name());
                concat(s.as_str(), "()")
            },
            Error::Unit(a, b) => {
                let s = concat("Cannot set ", a.name());
                let s = concat(s.as_str(), "s mode, already using ");
                let s = concat(s.as_str(), b.name());
                concat(s.as_str(), "s")
            },
            Error::InvalidInterval => "Latest val is greater than interval val".to_owned(),
            Error::InvalidUnit => "Invalid unit (valid units are `days`, `hours`, and `minutes`)".to_owned(),
            Error::InvalidHour(h) => {
                let d = decimal(h);
                let s = concat("Invalid hour (", d.as_str());
                concat(s.as_str(), " is not between 0 and 23)")
            },
            Error::InvalidDailyAtStr => "Invalid time format for daily job (valid format is HH:MM(:SS)?)".to_owned(),
            Error::InvalidHourlyAtStr => "Invalid time format for hourly job (valid format is (MM)?:SS)".to_owned(),
            Error::InvalidMinuteAtStr => "Invalid time format for minutely job (valid format is :SS)".to_owned(),
            Error::InvalidUntilTime => "Cannot schedule a job to run until a time in the past".to_owned(),
            Error::UnitUnreachable => "Attempted to reference the unit but failed".to_owned(),
            Error::StartDayError => "Attempted to use a start day for a unit other than `weeks`".to_owned(),
            Error::Weekday(w) => {
                let s = concat("Scheduling jobs on ", w.name());
                concat(
                    s.as_str(),
                    " is only allowed for weekly jobs.  Using specific days on a job scheduled to run every 2 or more weeks is not supported",
                )
            },
            Error::WeekdayCollision(a, b) => {
                let s = concat("Cannot schedule ", a.name());
                let s = concat(s.as_str(), " job, already scheduled for ");
                concat(s.as_str(), b.name())
            },
            Error::UnspecifiedStartDay => "Invalid unit without specifying start day".to_owned(),
            Error::TimestampOutOfRange => "Computed time is outside the supported range".to_owned(),
        }
    }
}

/// The result of configuring or rescheduling a job.
pub type Result<T> = core::result::Result<T, Error>;

} // verus!
