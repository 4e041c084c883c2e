//! A job: one periodic schedule, its configuration, and the computation of
//! its next run.
use vstd::arithmetic::div_mod::{
    lemma_fundamental_div_mod, lemma_fundamental_div_mod_converse, lemma_mod_add_multiples_vanish,
};
use vstd::prelude::*;

use crate::callable::{
    Callable, FiveToUnit, FourToUnit, OneToUnit, SixToUnit, ThreeToUnit, TwoToUnit, UnitToUnit,
};
use crate::error::{Error, Result};
use crate::scheduler::{reads, Scheduler, SchedulerView};
use crate::time::{
    day_index, day_start, hour_of, in_range, lemma_day_and_second, lemma_split_instant, minute_of,
    second_of, second_of_day, weekday_index, Clock, LocalTime, TimeUnit, Timestamp, Weekday,
};

verus! {

broadcast use {Timestamp::lemma_from_view, Timestamp::lemma_view_from};

/// A label used to group jobs.
pub type Tag = String;

/// How many units pass between runs.
pub type Interval = u32;

/// What a job holds, as plain values.
pub struct JobView {
    pub interval: u32,
    pub latest: Option<u32>,
    pub has_work: bool,
    pub tags: Set<Seq<char>>,
    pub unit: Option<TimeUnit>,
    pub at_time: Option<LocalTime>,
    pub last_run: Option<Timestamp>,
    pub next_run: Option<Timestamp>,
    pub period: Option<i64>,
    pub start_day: Option<Weekday>,
    pub cancel_after: Option<Timestamp>,
    pub call_count: u64,
}

impl JobView {
    /// A time of day, once set, is a valid one; a job bound to a weekday is
    /// a weekly job.
    pub open spec fn wf(self) -> bool {
        &&& self.at_time matches Some(t) ==> t.wf()
        &&& self.start_day is Some ==> self.unit == Some(TimeUnit::Week)
    }

    pub open spec fn has_tag(self, tag: Seq<char>) -> bool {
        self.tags.contains(tag)
    }
}

/// A freshly made job: only its interval is set.
pub open spec fn fresh_job(interval: u32) -> JobView {
    JobView {
        interval,
        latest: None,
        has_work: false,
        tags: Set::empty(),
        unit: None,
        at_time: None,
        last_run: None,
        next_run: None,
        period: None,
        start_day: None,
        cancel_after: None,
        call_count: 0,
    }
}

/// Sets the unit, which may be set once only.
pub open spec fn with_unit(v: JobView, unit: TimeUnit) -> Result<JobView> {
    match v.unit {
        Some(existing) => Err(Error::Unit(unit, existing)),
        None => Ok(JobView { unit: Some(unit), ..v }),
    }
}

/// Sets the unit through its singular name, which needs an interval of one.
pub open spec fn with_single_unit(v: JobView, unit: TimeUnit) -> Result<JobView> {
    if v.interval == 1 {
        with_unit(v, unit)
    } else {
        Err(Error::Interval(unit))
    }
}

/// Anchors a weekly job to a day of the week.
pub open spec fn with_weekday(v: JobView, day: Weekday) -> Result<JobView> {
    if v.interval != 1 {
        Err(Error::Weekday(day))
    } else if let Some(existing) = v.start_day {
        Err(Error::WeekdayCollision(day, existing))
    } else {
        with_unit(JobView { start_day: Some(day), ..v }, TimeUnit::Week)
    }
}

pub open spec fn with_latest(v: JobView, latest: u32) -> Result<JobView> {
    if latest <= v.interval {
        Err(Error::InvalidInterval)
    } else {
        Ok(JobView { latest: Some(latest), ..v })
    }
}

pub open spec fn with_deadline(v: JobView, until: Timestamp) -> Result<JobView> {
    if v.last_run matches Some(last) && until@ < last@ {
        Err(Error::InvalidUntilTime)
    } else {
        Ok(JobView { cancel_after: Some(until), ..v })
    }
}

pub open spec fn is_digit(c: char) -> bool {
    '0' <= c <= '9'
}

pub open spec fn digit_value(c: char) -> int {
    c as int - '0' as int
}

/// A two-digit field at `i` whose first digit is at most `top`.
pub open spec fn field_at(s: Seq<char>, i: int, top: char) -> bool {
    '0' <= s[i] <= top && is_digit(s[i + 1])
}

pub open spec fn field_value(s: Seq<char>, i: int) -> int {
    10 * digit_value(s[i]) + digit_value(s[i + 1])
}

/// `HH:MM:SS`, with the first digit of the hour at most 2.
pub open spec fn is_long_daily(s: Seq<char>) -> bool {
    s.len() == 8 && field_at(s, 0, '2') && s[2] == ':' && field_at(s, 3, '5') && s[5] == ':'
        && field_at(s, 6, '5')
}

/// `NN:NN`, each field from 00 to 59.
pub open spec fn is_pair(s: Seq<char>) -> bool {
    s.len() == 5 && field_at(s, 0, '5') && s[2] == ':' && field_at(s, 3, '5')
}

/// `:SS`, from 00 to 59.
pub open spec fn is_colon_seconds(s: Seq<char>) -> bool {
    s.len() == 3 && s[0] == ':' && field_at(s, 1, '5')
}

/// The time of day `text` names for a job configured as `v`.
pub open spec fn with_at_time(v: JobView, text: Seq<char>) -> Result<JobView> {
    let daily = v.unit == Some(TimeUnit::Day) || v.start_day is Some;
    if !(daily || v.unit == Some(TimeUnit::Hour) || v.unit == Some(TimeUnit::Minute)) {
        Err(Error::InvalidUnit)
    } else if daily {
        if is_long_daily(text) {
            let hour = field_value(text, 0);
            if hour > 23 {
                Err(Error::InvalidHour(hour as u32))
            } else {
                Ok(
                    JobView {
                        at_time: Some(
                            LocalTime {
                                hour: hour as u8,
                                minute: field_value(text, 3) as u8,
                                second: field_value(text, 6) as u8,
                            },
                        ),
                        ..v
                    },
                )
            }
        } else if is_pair(text) {
            let hour = field_value(text, 0);
            if hour > 23 {
                Err(Error::InvalidHour(hour as u32))
            } else {
                Ok(
                    JobView {
                        at_time: Some(
                            LocalTime {
                                hour: hour as u8,
                                minute: field_value(text, 3) as u8,
                                second: 0,
                            },
                        ),
                        ..v
                    },
                )
            }
        } else {
            Err(Error::InvalidDailyAtStr)
        }
    } else if v.unit == Some(TimeUnit::Hour) {
        if is_pair(text) {
            Ok(
                JobView {
                    at_time: Some(
                        LocalTime {
                            hour: 0,
                            minute: field_value(text, 0) as u8,
                            second: field_value(text, 3) as u8,
                        },
                    ),
                    ..v
                },
            )
        } else if is_colon_seconds(text) {
            Ok(
                JobView {
                    at_time: Some(
                        LocalTime { hour: 0, minute: 0, second: field_value(text, 1) as u8 },
                    ),
                    ..v
                },
            )
        } else {
            Err(Error::InvalidHourlyAtStr)
        }
    } else {
        if is_colon_seconds(text) {
            Ok(
                JobView {
                    at_time: Some(
                        LocalTime { hour: 0, minute: 0, second: field_value(text, 1) as u8 },
                    ),
                    ..v
                },
            )
        } else {
            Err(Error::InvalidMinuteAtStr)
        }
    }
}

/// Whether `s` has a two-digit field at `i` whose first digit is at most `top`.
fn has_field(s: &str, i: usize, top: char) -> (r: bool)
    requires
        i < 8,
        i + 1 < s@.len(),
    ensures
        r == field_at(s@, i as int, top),
{
    let a = s.get_char(i);
    let b = s.get_char(i + 1);
    '0' <= a && a <= top && '0' <= b && b <= '9'
}

fn field(s: &str, i: usize) -> (r: u8)
    requires
        i < 8,
        i + 1 < s@.len(),
        field_at(s@, i as int, '9'),
    ensures
        r == field_value(s@, i as int),
{
    let a = s.get_char(i);
    let b = s.get_char(i + 1);
    ((a as u32 - '0' as u32) * 10 + (b as u32 - '0' as u32)) as u8
}

fn long_daily(s: &str) -> (r: bool)
    ensures
        r == is_long_daily(s@),
{
    s.unicode_len() == 8 && has_field(s, 0, '2') && s.get_char(2) == ':' && has_field(s, 3, '5')
        && s.get_char(5) == ':' && has_field(s, 6, '5')
}

fn pair(s: &str) -> (r: bool)
    ensures
        r == is_pair(s@),
{
    s.unicode_len() == 5 && has_field(s, 0, '5') && s.get_char(2) == ':' && has_field(s, 3, '5')
}

fn colon_seconds(s: &str) -> (r: bool)
    ensures
        r == is_colon_seconds(s@),
{
    s.unicode_len() == 3 && s.get_char(0) == ':' && has_field(s, 1, '5')
}

/// Days to move forward from the day of `s` to the next `day`: one to seven.
pub open spec fn days_ahead(day: Weekday, s: int) -> int {
    let d = day.index() - weekday_index(s);
    if d <= 0 {
        d + 7
    } else {
        d
    }
}

/// Whether `drawn` is an interval the job may use for its next period: one
/// from `interval` up to, not including, `latest` when that bound is usable,
/// else `interval` itself.
pub open spec fn valid_draw(v: JobView, drawn: u32) -> bool {
    match v.latest {
        Some(latest) => if latest > v.interval {
            v.interval <= drawn < latest
        } else {
            drawn == v.interval
        },
        None => drawn == v.interval,
    }
}

/// How far to step back from `next` so that a job bound to a time of day
/// fires at its nearest coming occurrence rather than a whole unit later.
pub open spec fn catch_up(v: JobView, now: int, next: int, period: int, at: LocalTime) -> int {
    if v.last_run is None || next - v.last_run->0@ > period {
        if v.unit == Some(TimeUnit::Day) && at.seconds() > second_of_day(now) && v.interval == 1 {
            86400
        } else if v.unit == Some(TimeUnit::Hour) && (at.minute > minute_of(now) || (at.minute
            == minute_of(now) && at.second > second_of(now))) {
            3600
        } else if v.unit == Some(TimeUnit::Minute) && at.second > second_of(now) {
            60
        } else {
            0
        }
    } else {
        0
    }
}

/// The next run after `now` and the period that led to it, for a job that
/// uses `drawn` as its interval when it has a randomized range.
pub open spec fn next_run_after(v: JobView, now: int, drawn: u32) -> Result<(int, int)> {
    if v.latest matches Some(latest) && latest <= v.interval {
        Err(Error::InvalidInterval)
    } else if v.unit is None {
        Err(Error::UnitUnreachable)
    } else {
        let unit = v.unit->0;
        let count: int = if v.latest is Some {
            drawn as int
        } else {
            v.interval as int
        };
        let period = count * unit.seconds();
        let base = now + period;
        if !in_range(base) {
            Err(Error::TimestampOutOfRange)
        } else if v.start_day is Some && unit != TimeUnit::Week {
            Err(Error::StartDayError)
        } else {
            let anchored = match v.start_day {
                Some(day) => base + days_ahead(day, base) * 86400 - period,
                None => base,
            };
            if !in_range(anchored) {
                Err(Error::TimestampOutOfRange)
            } else {
                match v.at_time {
                    None => Ok((anchored, period)),
                    Some(at) => {
                        let daily = unit == TimeUnit::Day || v.start_day is Some;
                        if !(daily || unit == TimeUnit::Hour || unit == TimeUnit::Minute) {
                            Err(Error::UnspecifiedStartDay)
                        } else {
                            let hour = if daily {
                                at.hour as int
                            } else {
                                hour_of(anchored)
                            };
                            let minute = if daily || unit == TimeUnit::Hour {
                                at.minute as int
                            } else {
                                minute_of(anchored)
                            };
                            let timed = day_start(anchored) + hour * 3600 + minute * 60
                                + at.second;
                            let stepped = timed - catch_up(v, now, timed, period, at);
                            if !in_range(stepped) {
                                Err(Error::TimestampOutOfRange)
                            } else {
                                let result = if v.start_day is Some && stepped - now >= 7
                                    * 86400 {
                                    stepped - period
                                } else {
                                    stepped
                                };
                                if !in_range(result) {
                                    Err(Error::TimestampOutOfRange)
                                } else {
                                    Ok((result, period))
                                }
                            }
                        }
                    },
                }
            }
        }
    }
}

/// The job rescheduled from `now` with the drawn interval `drawn`.
pub open spec fn rescheduled(v: JobView, now: Timestamp, drawn: u32) -> Result<JobView> {
    match next_run_after(v, now@, drawn) {
        Ok((next, period)) => Ok(
            JobView {
                next_run: Some(Timestamp::spec_from(next)),
                period: Some(period as i64),
                ..v
            },
        ),
        Err(e) => Err(e),
    }
}

pub open spec fn should_run(v: JobView, now: Timestamp) -> bool {
    v.next_run matches Some(next) && now@ >= next@
}

pub open spec fn is_overdue(v: JobView, when: Timestamp) -> bool {
    v.cancel_after matches Some(deadline) && when@ > deadline@
}

/// One execution at `now`: whether the job stays scheduled, and the job
/// afterwards.
pub open spec fn executed(v: JobView, now: Timestamp, drawn: u32) -> (Result<bool>, JobView) {
    if is_overdue(v, now) {
        (Ok(false), v)
    } else {
        let ran = JobView {
            call_count: if v.call_count < u64::MAX {
                (v.call_count + 1) as u64
            } else {
                v.call_count
            },
            last_run: Some(now),
            ..v
        };
        match rescheduled(ran, now, drawn) {
            Err(e) => (Err(e), ran),
            Ok(after) => (Ok(!is_overdue(after, now)), after),
        }
    }
}

/// The job registered at `now`: refused when its deadline has already
/// passed, else scheduled from `now`.
pub open spec fn registered(v: JobView, now: Timestamp, drawn: u32) -> Result<JobView> {
    if is_overdue(v, now) {
        Err(Error::InvalidUntilTime)
    } else {
        rescheduled(v, now, drawn)
    }
}

/// Giving the job `v` its work and registering it with the scheduler
/// `before` returns `r` and leaves the scheduler `after`: the clock is read
/// (the system clock may fail), the interval drawn, and the job appended
/// when it can be scheduled.
pub open spec fn registration_gives(
    v: JobView,
    before: SchedulerView,
    r: Result<()>,
    after: SchedulerView,
) -> bool {
    let work = JobView { has_work: true, ..v };
    ||| before.clock == Clock::Real && r == Err::<(), Error>(Error::TimestampOutOfRange) && after
        == before
    ||| exists|now: Timestamp, drawn: u32|
        reads(before.clock, now) && valid_draw(work, drawn) && match #[trigger] registered(
            work,
            now,
            drawn,
        ) {
            Ok(w) => r is Ok && after == (SchedulerView { jobs: before.jobs.push(w), ..before }),
            Err(e) => r == Err::<(), Error>(e) && after == before,
        }
}

/// A job every `interval` seconds, with no randomized range, weekday or
/// time of day, that is polled exactly when due moves its next run forward
/// by exactly `interval` seconds and stays scheduled.
pub proof fn lemma_second_job_advances_by_interval(v: JobView, now: Timestamp, drawn: u32)
    requires
        v.wf(),
        v.has_work,
        v.unit == Some(TimeUnit::Second),
        v.latest is None,
        v.start_day is None,
        v.at_time is None,
        v.next_run == Some(now),
        !is_overdue(v, now),
        in_range(now@ + v.interval),
    ensures
        executed(v, now, drawn).0 == Ok::<bool, Error>(true),
        executed(v, now, drawn).1.next_run matches Some(next) && next@ == now@ + v.interval,
{
}

/// A unit can be set once only: a second unit, the same or another, is
/// refused with an error that names both.
pub proof fn lemma_unit_set_once(v: JobView, first: TimeUnit, second: TimeUnit)
    requires
        with_unit(v, first) is Ok,
    ensures
        with_unit(with_unit(v, first)->Ok_0, second) == Err::<JobView, Error>(
            Error::Unit(second, first),
        ),
{
}

/// With a randomized range from `interval` to `latest`, every reschedule of
/// a job without weekday or time of day places the next run a whole number
/// of units from now, that number being at least `interval` and below
/// `latest`.
pub proof fn lemma_randomized_interval_in_range(v: JobView, now: Timestamp, drawn: u32)
    requires
        v.latest matches Some(latest) && latest > v.interval,
        valid_draw(v, drawn),
        v.start_day is None,
        v.at_time is None,
        next_run_after(v, now@, drawn) is Ok,
    ensures
        ({
            let (next, period) = next_run_after(v, now@, drawn)->Ok_0;
            &&& v.interval <= drawn < v.latest->0
            &&& next == now@ + drawn * v.unit->0.seconds()
            &&& period == drawn * v.unit->0.seconds()
        }),
{
}

/// Every time of day that `at` accepts is a valid one: out-of-range hours,
/// minutes and seconds are refused.
pub proof fn lemma_at_time_is_valid(v: JobView, text: Seq<char>)
    requires
        v.wf(),
    ensures
        with_at_time(v, text) matches Ok(w) ==> w.wf() && w.at_time is Some,
{
}

/// A weekly job bound to `day` at the time of day `at`, that has never run,
/// is first scheduled at the earliest instant from `now` on that weekday at
/// that time: within the coming seven days, today if the time has not
/// passed yet.
pub proof fn lemma_weekday_at_time_next_occurrence(
    v: JobView,
    now: Timestamp,
    drawn: u32,
    day: Weekday,
    at: LocalTime,
)
    requires
        v.start_day == Some(day),
        v.at_time == Some(at),
        at.wf(),
        v.unit == Some(TimeUnit::Week),
        v.interval == 1,
        v.latest is None,
        v.last_run is None,
        in_range(now@),
        next_run_after(v, now@, drawn) is Ok,
    ensures
        ({
            let next = next_run_after(v, now@, drawn)->Ok_0.0;
            &&& weekday_index(next) == day.index()
            &&& second_of_day(next) == at.seconds()
            &&& now@ <= next < now@ + 7 * 86400
        }),
{
    let n = now@;
    lemma_split_instant(n);
    let dn = day_index(n);
    let tn = second_of_day(n);
    let base = n + 604800;
    lemma_day_and_second(dn + 7, tn);
    assert(base == crate::time::MIN_SECOND + (dn + 7) * 86400 + tn);
    assert(weekday_index(base) == (dn + 7) % 7);
    assert((dn + 7) % 7 == dn % 7) by {
        lemma_mod_add_multiples_vanish(dn, 7);
    }
    let da = days_ahead(day, base);
    assert(1 <= da <= 7);
    assert((dn + da) % 7 == day.index()) by {
        lemma_fundamental_div_mod(dn, 7);
        let q = dn / 7;
        let w = dn % 7;
        if day.index() - w <= 0 {
            lemma_fundamental_div_mod_converse(dn + da, 7, q + 1, day.index());
        } else {
            lemma_fundamental_div_mod_converse(dn + da, 7, q, day.index());
        }
    }
    let anchored = base + da * 86400 - 604800;
    assert(anchored == crate::time::MIN_SECOND + (dn + da) * 86400 + tn);
    lemma_day_and_second(dn + da, tn);
    let timed = crate::time::MIN_SECOND + (dn + da) * 86400 + at.seconds();
    lemma_day_and_second(dn + da, at.seconds());
    if timed - n >= 7 * 86400 {
        assert(da == 7);
        lemma_day_and_second(dn, at.seconds());
        assert((dn + 7) % 7 == dn % 7) by {
            lemma_mod_add_multiples_vanish(dn, 7);
        }
    }
}

/// Every configuration step keeps a well-formed job well formed.
pub proof fn lemma_configuration_keeps_wf(
    v: JobView,
    unit: TimeUnit,
    day: Weekday,
    latest: u32,
    until: Timestamp,
    text: Seq<char>,
)
    requires
        v.wf(),
    ensures
        fresh_job(v.interval).wf(),
        with_unit(v, unit) matches Ok(w) ==> w.wf(),
        with_single_unit(v, unit) matches Ok(w) ==> w.wf(),
        with_weekday(v, day) matches Ok(w) ==> w.wf(),
        with_latest(v, latest) matches Ok(w) ==> w.wf(),
        with_deadline(v, until) matches Ok(w) ==> w.wf(),
        with_at_time(v, text) matches Ok(w) ==> w.wf(),
{
}

/// A job bound to a weekday whose unit is not weeks cannot be scheduled.
pub proof fn lemma_start_day_needs_weekly_unit(v: JobView, now: Timestamp, drawn: u32)
    requires
        v.start_day is Some,
        v.unit matches Some(u) && u != TimeUnit::Week,
        v.latest is None,
        in_range(now@ + v.interval * v.unit->0.seconds()),
    ensures
        next_run_after(v, now@, drawn) == Err::<(int, int), Error>(Error::StartDayError),
{
}

/// One configuration step of the fluent chain.
pub enum ConfigStep {
    Unit(TimeUnit),
    SingleUnit(TimeUnit),
    Weekday(Weekday),
    Latest(u32),
    At(Seq<char>),
    Until(Timestamp),
    Tags(Seq<Seq<char>>),
}

/// The job after `steps`, applied in order, or the first error.
pub open spec fn configured(v: JobView, steps: Seq<ConfigStep>) -> Result<JobView>
    decreases steps.len(),
{
    if steps.len() == 0 {
        Ok(v)
    } else {
        match configured(v, steps.drop_last()) {
            Err(e) => Err(e),
            Ok(w) => match steps.last() {
                ConfigStep::Unit(u) => with_unit(w, u),
                ConfigStep::SingleUnit(u) => with_single_unit(w, u),
                ConfigStep::Weekday(d) => with_weekday(w, d),
                ConfigStep::Latest(l) => with_latest(w, l),
                ConfigStep::At(t) => with_at_time(w, t),
                ConfigStep::Until(t) => with_deadline(w, t),
                ConfigStep::Tags(ts) => Ok(JobView { tags: w.tags.union(ts.to_set()), ..w }),
            },
        }
    }
}

/// `every(1)` and `every_single()` make the same job, so any chain of
/// configuration steps gives the same job, or the same error, from either.
pub proof fn lemma_every_single_is_every_one(steps: Seq<ConfigStep>)
    ensures
        configured(fresh_job(1), steps) == configured(fresh_job(1u32), steps),
        fresh_job(1) == fresh_job(1u32),
{
}

/// A job whose deadline has passed when it is registered is refused.
pub proof fn lemma_past_deadline_refused(v: JobView, now: Timestamp, drawn: u32)
    requires
        v.cancel_after matches Some(deadline) && now@ > deadline@,
    ensures
        registered(v, now, drawn) == Err::<JobView, Error>(Error::InvalidUntilTime),
{
}

/// A job whose next run lies past its deadline is dropped, without running,
/// when it is next executed, even if it never ran.
pub proof fn lemma_run_past_deadline_cancels(v: JobView, now: Timestamp, drawn: u32)
    requires
        v.next_run matches Some(next) && v.cancel_after matches Some(deadline) && next@
            > deadline@,
        should_run(v, now),
    ensures
        executed(v, now, drawn) == (Ok::<bool, Error>(false), v),
{
}

/// Relies on rand's `Rng::gen_range` on the thread-local generator, which
/// returns a value of the half-open range and panics on an empty one.
#[verifier::external_body]
fn random_below(low: u32, high: u32) -> (r: u32)
    requires
        low < high,
    ensures
        low <= r < high,
{
    rand::Rng::gen_range(&mut rand::thread_rng(), low..high)
}

proof fn lemma_push_contains(s: Seq<Seq<char>>, v: Seq<char>)
    ensures
        forall|x: Seq<char>| #[trigger] s.push(v).contains(x) <==> s.contains(x) || x == v,
{
    assert forall|x: Seq<char>| #[trigger] s.push(v).contains(x) <==> s.contains(x) || x == v by {
        if s.push(v).contains(x) {
            let k = choose|k: int| 0 <= k < s.len() + 1 && s.push(v)[k] == x;
            if k < s.len() {
                assert(s[k] == x);
            }
        }
        if s.contains(x) {
            let k = choose|k: int| 0 <= k < s.len() && s[k] == x;
            assert(s.push(v)[k] == x);
        }
        if x == v {
            assert(s.push(v)[s.len() as int] == x);
        }
    }
}

/// A job is anything that can be scheduled to run periodically. It is made
/// by `every` or `every_single`.
pub struct Job {
    interval: Interval,
    latest: Option<Interval>,
    job: Option<Box<dyn Callable>>,
    tags: Vec<Tag>,
    unit: Option<TimeUnit>,
    at_time: Option<LocalTime>,
    last_run: Option<Timestamp>,
    next_run: Option<Timestamp>,
    period: Option<i64>,
    start_day: Option<Weekday>,
    cancel_after: Option<Timestamp>,
    call_count: u64,
}

/// What a configuration step gives, as plain values.
pub open spec fn result_view(r: Result<Job>) -> Result<JobView> {
    match r {
        Ok(j) => Ok(j@),
        Err(e) => Err(e),
    }
}

impl View for Job {
    type V = JobView;

    closed spec fn view(&self) -> JobView {
        JobView {
            interval: self.interval,
            latest: self.latest,
            has_work: self.job is Some,
            tags: self.tags@.map_values(|t: String| t@).to_set(),
            unit: self.unit,
            at_time: self.at_time,
            last_run: self.last_run,
            next_run: self.next_run,
            period: self.period,
            start_day: self.start_day,
            cancel_after: self.cancel_after,
            call_count: self.call_count,
        }
    }
}

/// A new job that runs every `interval` units.
pub fn every(interval: Interval) -> (r: Job)
    ensures
        r@ == fresh_job(interval),
{
    Job::new(interval)
}

/// A new job that runs every single unit; the same as `every(1)`.
pub fn every_single() -> (r: Job)
    ensures
        r@ == fresh_job(1),
{
    Job::new(1)
}

impl Job {
    pub fn new(interval: Interval) -> (r: Job)
        ensures
            r@ == fresh_job(interval),
    {
        let r = Job {
            interval,
            latest: None,
            job: None,
            tags: Vec::new(),
            unit: None,
            at_time: None,
            last_run: None,
            next_run: None,
            period: None,
            start_day: None,
            cancel_after: None,
            call_count: 0,
        };
        assert(r@.tags =~= Set::empty());
        r
    }

    /// Tags the job with each of `tags` that it does not carry yet.
    pub fn tag(&mut self, tags: &[&str])
        ensures
            final(self)@ == (JobView {
                tags: old(self)@.tags.union(tags@.map_values(|t: &str| t@).to_set()),
                ..old(self)@
            }),
    {
        let ghost start = self@;
        let ghost all = tags@.map_values(|t: &str| t@);
        let mut i: usize = 0;
        assert(start.tags.union(all.take(0).to_set()) =~= start.tags);
        while i < tags.len()
            invariant
                0 <= i <= tags@.len(),
                all == tags@.map_values(|t: &str| t@),
                self@ == (JobView { tags: start.tags.union(all.take(i as int).to_set()), ..start }),
            decreases tags@.len() - i,
        {
            let t: &str = tags[i];
            let ghost before = self.tags@.map_values(|t: String| t@);
            assert(all.take(i + 1) =~= all.take(i as int).push(t@));
            proof {
                lemma_push_contains(all.take(i as int), t@);
            }
            let ghost old_tags = self@.tags;
            assert(old_tags == before.to_set());
            let present = self.has_tag(t);
            if !present {
                self.tags.push(t.to_owned());
                assert(self.tags@.map_values(|t: String| t@) =~= before.push(t@));
                proof {
                    lemma_push_contains(before, t@);
                }
            }
            assert forall|x: Seq<char>| #[trigger] self@.tags.contains(x) <==> start.tags.union(
                all.take(i + 1).to_set(),
            ).contains(x) by {
                assert(all.take(i + 1).contains(x) <==> all.take(i as int).contains(x) || x == t@);
                assert(old_tags.contains(x) <==> before.contains(x));
                if present {
                    assert(before.contains(t@));
                    assert(self@.tags == old_tags);
                } else {
                    assert(self@.tags.contains(x) <==> before.push(t@).contains(x));
                }
            }
            assert(self@.tags =~= start.tags.union(all.take(i + 1).to_set()));
            i = i + 1;
        }
        assert(all.take(tags@.len() as int) =~= all);
    }

    /// Whether the job carries `tag`.
    pub fn has_tag(&self, tag: &str) -> (r: bool)
        ensures
            r == self@.has_tag(tag@),
    {
        let wanted = tag.to_owned();
        tags_contain(&self.tags, &wanted)
    }

    fn set_unit_mode(self, unit: TimeUnit) -> (r: Result<Job>)
        ensures
            result_view(r) == with_unit(self@, unit),
    {
        let mut job = self;
        match job.unit {
            Some(existing) => Err(Error::Unit(unit, existing)),
            None => {
                job.unit = Some(unit);
                Ok(job)
            },
        }
    }

    fn set_single_unit_mode(self, unit: TimeUnit) -> (r: Result<Job>)
        ensures
            result_view(r) == with_single_unit(self@, unit),
    {
        if self.interval == 1 {
            self.set_unit_mode(unit)
        } else {
            Err(Error::Interval(unit))
        }
    }

    /// Runs every second; needs an interval of one.
    pub fn second(self) -> (r: Result<Job>)
        ensures
            result_view(r) == with_single_unit(self@, TimeUnit::Second),
    {
        self.set_single_unit_mode(TimeUnit::Second)
    }

    pub fn seconds(self) -> (r: Result<Job>)
        ensures
            result_view(r) == with_unit(self@, TimeUnit::Second),
    {
        self.set_unit_mode(TimeUnit::Second)
    }

    pub fn minute(self) -> (r: Result<Job>)
        ensures
            result_view(r) == with_single_unit(self@, TimeUnit::Minute),
    {
        self.set_single_unit_mode(TimeUnit::Minute)
    }

    pub fn minutes(self) -> (r: Result<Job>)
        ensures
            result_view(r) == with_unit(self@, TimeUnit::Minute),
    {
        self.set_unit_mode(TimeUnit::Minute)
    }

    pub fn hour(self) -> (r: Result<Job>)
        ensures
            result_view(r) == with_single_unit(self@, TimeUnit::Hour),
    {
        self.set_single_unit_mode(TimeUnit::Hour)
    }

    pub fn hours(self) -> (r: Result<Job>)
        ensures
            result_view(r) == with_unit(self@, TimeUnit::Hour),
    {
        self.set_unit_mode(TimeUnit::Hour)
    }

    pub fn day(self) -> (r: Result<Job>)
        ensures
            result_view(r) == with_single_unit(self@, TimeUnit::Day),
    {
        self.set_single_unit_mode(TimeUnit::Day)
    }

    pub fn days(self) -> (r: Result<Job>)
        ensures
            result_view(r) == with_unit(self@, TimeUnit::Day),
    {
        self.set_unit_mode(TimeUnit::Day)
    }

    pub fn week(self) -> (r: Result<Job>)
        ensures
            result_view(r) == with_single_unit(self@, TimeUnit::Week),
    {
        self.set_single_unit_mode(TimeUnit::Week)
    }

    pub fn weeks(self) -> (r: Result<Job>)
        ensures
            result_view(r) == with_unit(self@, TimeUnit::Week),
    {
        self.set_unit_mode(TimeUnit::Week)
    }

    pub fn month(self) -> (r: Result<Job>)
        ensures
            result_view(r) == with_single_unit(self@, TimeUnit::Month),
    {
        self.set_single_unit_mode(TimeUnit::Month)
    }

    pub fn months(self) -> (r: Result<Job>)
        ensures
            result_view(r) == with_unit(self@, TimeUnit::Month),
    {
        self.set_unit_mode(TimeUnit::Month)
    }

    pub fn year(self) -> (r: Result<Job>)
        ensures
            result_view(r) == with_single_unit(self@, TimeUnit::Year),
    {
        self.set_single_unit_mode(TimeUnit::Year)
    }

    pub fn years(self) -> (r: Result<Job>)
        ensures
            result_view(r) == with_unit(self@, TimeUnit::Year),
    {
        self.set_unit_mode(TimeUnit::Year)
    }

    fn set_weekday_mode(self, day: Weekday) -> (r: Result<Job>)
        ensures
            result_view(r) == with_weekday(self@, day),
    {
        if self.interval != 1 {
            Err(Error::Weekday(day))
        } else {
            match self.start_day {
                Some(existing) => Err(Error::WeekdayCollision(day, existing)),
                None => {
                    let mut job = self;
                    job.start_day = Some(day);
                    job.weeks()
                },
            }
        }
    }

    /// Runs every Monday; needs an interval of one.
    pub fn monday(self) -> (r: Result<Job>)
        ensures
            result_view(r) == with_weekday(self@, Weekday::Monday),
    {
        self.set_weekday_mode(Weekday::Monday)
    }

    pub fn tuesday(self) -> (r: Result<Job>)
        ensures
            result_view(r) == with_weekday(self@, Weekday::Tuesday),
    {
        self.set_weekday_mode(Weekday::Tuesday)
    }

    pub fn wednesday(self) -> (r: Result<Job>)
        ensures
            result_view(r) == with_weekday(self@, Weekday::Wednesday),
    {
        self.set_weekday_mode(Weekday::Wednesday)
    }

    pub fn thursday(self) -> (r: Result<Job>)
        ensures
            result_view(r) == with_weekday(self@, Weekday::Thursday),
    {
        self.set_weekday_mode(Weekday::Thursday)
    }

    pub fn friday(self) -> (r: Result<Job>)
        ensures
            result_view(r) == with_weekday(self@, Weekday::Friday),
    {
        self.set_weekday_mode(Weekday::Friday)
    }

    pub fn saturday(self) -> (r: Result<Job>)
        ensures
            result_view(r) == with_weekday(self@, Weekday::Saturday),
    {
        self.set_weekday_mode(Weekday::Saturday)
    }

    pub fn sunday(self) -> (r: Result<Job>)
        ensures
            result_view(r) == with_weekday(self@, Weekday::Sunday),
    {
        self.set_weekday_mode(Weekday::Sunday)
    }

    /// Runs the job at a time of day, whose form depends on the unit:
    /// `HH:MM:SS` or `HH:MM` for daily jobs and jobs on a weekday,
    /// `MM:SS` or `:SS` for hourly jobs, `:SS` for jobs every minute.
    pub fn at(self, time_str: &str) -> (r: Result<Job>)
        ensures
            result_view(r) == with_at_time(self@, time_str@),
    {
        let daily = self.unit == Some(TimeUnit::Day) || self.start_day.is_some();
        let hourly = self.unit == Some(TimeUnit::Hour);
        let minutely = self.unit == Some(TimeUnit::Minute);
        if !(daily || hourly || minutely) {
            return Err(Error::InvalidUnit);
        }
        let time = if daily {
            let (hour, minute, second) = if long_daily(time_str) {
                (field(time_str, 0), field(time_str, 3), field(time_str, 6))
            } else if pair(time_str) {
                (field(time_str, 0), field(time_str, 3), 0)
            } else {
                return Err(Error::InvalidDailyAtStr);
            };
            if hour > 23 {
                return Err(Error::InvalidHour(hour as u32));
            }
            LocalTime { hour, minute, second }
        } else if hourly {
            if pair(time_str) {
                LocalTime { hour: 0, minute: field(time_str, 0), second: field(time_str, 3) }
            } else if colon_seconds(time_str) {
                LocalTime { hour: 0, minute: 0, second: field(time_str, 1) }
            } else {
                return Err(Error::InvalidHourlyAtStr);
            }
        } else {
            if colon_seconds(time_str) {
                LocalTime { hour: 0, minute: 0, second: field(time_str, 1) }
            } else {
                return Err(Error::InvalidMinuteAtStr);
            }
        };
        let mut job = self;
        job.at_time = Some(time);
        Ok(job)
    }

    /// Draws each interval at random from `interval` up to, not including,
    /// `latest`.
    pub fn to(self, latest: Interval) -> (r: Result<Job>)
        ensures
            result_view(r) == with_latest(self@, latest),
    {
        if latest <= self.interval {
            Err(Error::InvalidInterval)
        } else {
            let mut job = self;
            job.latest = Some(latest);
            Ok(job)
        }
    }

    /// Runs the job until `until_time`: once the current time is past it, the
    /// job is dropped from the schedule. A deadline before the job's last run
    /// is refused here; one before the current time is refused when the job
    /// is registered.
    pub fn until(self, until_time: Timestamp) -> (r: Result<Job>)
        ensures
            result_view(r) == with_deadline(self@, until_time),
    {
        match self.last_run {
            Some(last) => {
                if last.is_after(&until_time) {
                    return Err(Error::InvalidUntilTime);
                }
            },
            None => {},
        }
        let mut job = self;
        job.cancel_after = Some(until_time);
        Ok(job)
    }
    /// Gives the job its work and registers it with `scheduler`.
    fn attach(self, scheduler: &mut Scheduler, work: Box<dyn Callable>) -> (r: Result<()>)
        requires
            self@.wf(),
            old(scheduler)@.wf(),
        ensures
            registration_gives(self@, old(scheduler)@, r, final(scheduler)@),
            final(scheduler)@.wf(),
    {
        let mut job = self;
        job.job = Some(work);
        let now = scheduler.now()?;
        if job.overdue(now) {
            assert(valid_draw(job@, job.interval));
            assert(registered(job@, now, job.interval) == Err::<JobView, Error>(
                Error::InvalidUntilTime,
            ));
            return Err(Error::InvalidUntilTime);
        }
        let drawn = job.draw_interval();
        let ghost work_view = job@;
        job.schedule_next_run_with(now, drawn)?;
        scheduler.add_job(job);
        assert(registered(work_view, now, drawn) == Ok::<JobView, Error>(job@));
        Ok(())
    }

    /// Gives the job its work, a function of no arguments, and registers it
    /// with `scheduler`.
    pub fn run<F>(
        self,
        scheduler: &mut Scheduler,
        job: F,
    ) -> (r: Result<()>)
        where
        F: Fn() + 'static,
        requires
            self@.wf(),
            old(scheduler)@.wf(),
            job.requires(()),
        ensures
            registration_gives(self@, old(scheduler)@, r, final(scheduler)@),
            final(scheduler)@.wf(),
    {
        self.attach(scheduler, Box::new(UnitToUnit::new("job", job)))
    }

    /// Gives the job its work, a function with one bound argument, and
    /// registers it with `scheduler`.
    pub fn run_one_arg<T, F>(
        self,
        scheduler: &mut Scheduler,
        job: F,
        arg: T,
    ) -> (r: Result<()>)
        where
        T: 'static + Clone,
        F: Fn(T) + 'static,
        requires
            self@.wf(),
            old(scheduler)@.wf(),
            forall|a0: T| #[trigger] job.requires((a0,)),
        ensures
            registration_gives(self@, old(scheduler)@, r, final(scheduler)@),
            final(scheduler)@.wf(),
    {
        self.attach(scheduler, Box::new(OneToUnit::new("job_one_arg", job, arg)))
    }

    /// Gives the job its work, a function with two bound arguments, and
    /// registers it with `scheduler`.
    pub fn run_two_args<T, U, F>(
        self,
        scheduler: &mut Scheduler,
        job: F,
        arg_one: T,
        arg_two: U,
    ) -> (r: Result<()>)
        where
        T: 'static + Clone,
        U: 'static + Clone,
        F: Fn(T, U) + 'static,
        requires
            self@.wf(),
            old(scheduler)@.wf(),
            forall|a0: T, a1: U| #[trigger] job.requires((a0, a1)),
        ensures
            registration_gives(self@, old(scheduler)@, r, final(scheduler)@),
            final(scheduler)@.wf(),
    {
        self.attach(scheduler, Box::new(TwoToUnit::new("job_two_args", job, arg_one, arg_two)))
    }

    /// Gives the job its work, a function with three bound arguments, and
    /// registers it with `scheduler`.
    pub fn run_three_args<T, U, V, F>(
        self,
        scheduler: &mut Scheduler,
        job: F,
        arg_one: T,
        arg_two: U,
        arg_three: V,
    ) -> (r: Result<()>)
        where
        T: 'static + Clone,
        U: 'static + Clone,
        V: 'static + Clone,
        F: Fn(T, U, V) + 'static,
        requires
            self@.wf(),
            old(scheduler)@.wf(),
            forall|a0: T, a1: U, a2: V| #[trigger] job.requires((a0, a1, a2)),
        ensures
            registration_gives(self@, old(scheduler)@, r, final(scheduler)@),
            final(scheduler)@.wf(),
    {
        self.attach(scheduler, Box::new(ThreeToUnit::new("job_three_args", job, arg_one, arg_two, arg_three)))
    }

    /// Gives the job its work, a function with four bound arguments, and
    /// registers it with `scheduler`.
    pub fn run_four_args<T, U, V, W, F>(
        self,
        scheduler: &mut Scheduler,
        job: F,
        arg_one: T,
        arg_two: U,
        arg_three: V,
        arg_four: W,
    ) -> (r: Result<()>)
        where
        T: 'static + Clone,
        U: 'static + Clone,
        V: 'static + Clone,
        W: 'static + Clone,
        F: Fn(T, U, V, W) + 'static,
        requires
            self@.wf(),
            old(scheduler)@.wf(),
            forall|a0: T, a1: U, a2: V, a3: W| #[trigger] job.requires((a0, a1, a2, a3)),
        ensures
            registration_gives(self@, old(scheduler)@, r, final(scheduler)@),
            final(scheduler)@.wf(),
    {
        self.attach(scheduler, Box::new(FourToUnit::new("job_four_args", job, arg_one, arg_two, arg_three, arg_four)))
    }

    /// Gives the job its work, a function with five bound arguments, and
    /// registers it with `scheduler`.
    pub fn run_five_args<T, U, V, W, X, F>(
        self,
        scheduler: &mut Scheduler,
        job: F,
        arg_one: T,
        arg_two: U,
        arg_three: V,
        arg_four: W,
        arg_five: X,
    ) -> (r: Result<()>)
        where
        T: 'static + Clone,
        U: 'static + Clone,
        V: 'static + Clone,
        W: 'static + Clone,
        X: 'static + Clone,
        F: Fn(T, U, V, W, X) + 'static,
        requires
            self@.wf(),
            old(scheduler)@.wf(),
            forall|a0: T, a1: U, a2: V, a3: W, a4: X| #[trigger] job.requires((a0, a1, a2, a3, a4)),
        ensures
            registration_gives(self@, old(scheduler)@, r, final(scheduler)@),
            final(scheduler)@.wf(),
    {
        self.attach(scheduler, Box::new(FiveToUnit::new("job_five_args", job, arg_one, arg_two, arg_three, arg_four, arg_five)))
    }

    /// Gives the job its work, a function with six bound arguments, and
    /// registers it with `scheduler`.
    pub fn run_six_args<T, U, V, W, X, Y, F>(
        self,
        scheduler: &mut Scheduler,
        job: F,
        arg_one: T,
        arg_two: U,
        arg_three: V,
        arg_four: W,
        arg_five: X,
        arg_six: Y,
    ) -> (r: Result<()>)
        where
        T: 'static + Clone,
        U: 'static + Clone,
        V: 'static + Clone,
        W: 'static + Clone,
        X: 'static + Clone,
        Y: 'static + Clone,
        F: Fn(T, U, V, W, X, Y) + 'static,
        requires
            self@.wf(),
            old(scheduler)@.wf(),
            forall|a0: T, a1: U, a2: V, a3: W, a4: X, a5: Y| #[trigger] job.requires((a0, a1, a2, a3, a4, a5)),
        ensures
            registration_gives(self@, old(scheduler)@, r, final(scheduler)@),
            final(scheduler)@.wf(),
    {
        self.attach(scheduler, Box::new(SixToUnit::new("job_six_args", job, arg_one, arg_two, arg_three, arg_four, arg_five, arg_six)))
    }

    pub fn interval(&self) -> (r: Interval)
        ensures
            r == self@.interval,
    {
        self.interval
    }

    pub fn latest(&self) -> (r: Option<Interval>)
        ensures
            r == self@.latest,
    {
        self.latest
    }

    pub fn unit(&self) -> (r: Option<TimeUnit>)
        ensures
            r == self@.unit,
    {
        self.unit
    }

    pub fn at_time(&self) -> (r: Option<LocalTime>)
        ensures
            r == self@.at_time,
    {
        self.at_time
    }

    pub fn start_day(&self) -> (r: Option<Weekday>)
        ensures
            r == self@.start_day,
    {
        self.start_day
    }

    pub fn last_run(&self) -> (r: Option<Timestamp>)
        ensures
            r == self@.last_run,
    {
        self.last_run
    }

    pub fn period(&self) -> (r: Option<i64>)
        ensures
            r == self@.period,
    {
        self.period
    }

    pub fn cancel_after(&self) -> (r: Option<Timestamp>)
        ensures
            r == self@.cancel_after,
    {
        self.cancel_after
    }

    /// How many times the job has run.
    pub fn call_count(&self) -> (r: u64)
        ensures
            r == self@.call_count,
    {
        self.call_count
    }

    pub fn next_run(&self) -> (r: Option<Timestamp>)
        ensures
            r == self@.next_run,
    {
        self.next_run
    }

    /// The key that orders jobs: the next run, or less than any instant
    /// when there is none.
    pub fn run_key(&self) -> (r: i64)
        ensures
            r == crate::scheduler::run_key(self@),
    {
        match self.next_run {
            Some(t) => t.as_second(),
            None => crate::time::MIN_SECOND - 1,
        }
    }

    /// Picks the interval of the next period: at random within the
    /// configured range, if there is one.
    pub fn draw_interval(&self) -> (r: u32)
        ensures
            valid_draw(self@, r),
    {
        match self.latest {
            Some(latest) => if latest > self.interval {
                random_below(self.interval, latest)
            } else {
                self.interval
            },
            None => self.interval,
        }
    }

    fn compute_next_run(&self, now: Timestamp, drawn: u32) -> (r: Result<(Timestamp, i64)>)
        requires
            self@.wf(),
        ensures
            match r {
                Ok((next, period)) => next_run_after(self@, now@, drawn) == Ok::<(int, int), Error>(
                    (next@, period as int),
                ),
                Err(e) => next_run_after(self@, now@, drawn) == Err::<(int, int), Error>(e),
            },
    {
        match self.latest {
            Some(latest) => if latest <= self.interval {
                return Err(Error::InvalidInterval);
            },
            None => {},
        }
        let unit = match self.unit {
            Some(u) => u,
            None => return Err(Error::UnitUnreachable),
        };
        let count: u32 = if self.latest.is_some() {
            drawn
        } else {
            self.interval
        };
        let per = unit.duration_seconds();
        assert(0 <= count as int * per <= 4294967295 * 31449600) by (nonlinear_arith)
            requires
                0 <= count <= 4294967295,
                1 <= per <= 31449600,
        ;
        let period: i64 = count as i64 * per;
        let base = match now.checked_add_seconds(period) {
            Some(t) => t,
            None => return Err(Error::TimestampOutOfRange),
        };
        if self.start_day.is_some() && unit != TimeUnit::Week {
            return Err(Error::StartDayError);
        }
        let anchored = match self.start_day {
            Some(day) => {
                let target = day.to_monday_zero_offset() as i64;
                let current = base.weekday().to_monday_zero_offset() as i64;
                let mut ahead = target - current;
                if ahead <= 0 {
                    ahead = ahead + 7;
                }
                match base.checked_add_seconds(ahead * 86400 - period) {
                    Some(t) => t,
                    None => return Err(Error::TimestampOutOfRange),
                }
            },
            None => base,
        };
        let at = match self.at_time {
            Some(at) => at,
            None => return Ok((anchored, period)),
        };
        let daily = unit == TimeUnit::Day || self.start_day.is_some();
        if !(daily || unit == TimeUnit::Hour || unit == TimeUnit::Minute) {
            return Err(Error::UnspecifiedStartDay);
        }
        let hour: u8 = if daily {
            at.hour
        } else {
            anchored.hour() as u8
        };
        let minute: u8 = if daily || unit == TimeUnit::Hour {
            at.minute
        } else {
            anchored.minute() as u8
        };
        let timed = anchored.with_time(LocalTime { hour, minute, second: at.second });
        let mut back: i64 = 0;
        let catching_up = match self.last_run {
            None => true,
            Some(last) => timed.seconds_since(&last) > period,
        };
        if catching_up {
            if unit == TimeUnit::Day && at.hour as i64 * 3600 + at.minute as i64 * 60
                + at.second as i64 > now.second_of_day() && self.interval == 1 {
                back = 86400;
            } else if unit == TimeUnit::Hour && (at.minute as i8 > now.minute() || (
            at.minute as i8 == now.minute() && at.second as i8 > now.second())) {
                back = 3600;
            } else if unit == TimeUnit::Minute && at.second as i8 > now.second() {
                back = 60;
            }
        }
        let stepped = match timed.checked_add_seconds(-back) {
            Some(t) => t,
            None => return Err(Error::TimestampOutOfRange),
        };
        if self.start_day.is_some() && stepped.seconds_since(&now) >= 7 * 86400 {
            match stepped.checked_add_seconds(-period) {
                Some(t) => Ok((t, period)),
                None => Err(Error::TimestampOutOfRange),
            }
        } else {
            Ok((stepped, period))
        }
    }

    /// Sets the next run from `now`, using `drawn` as the interval when the
    /// job has a randomized range.
    pub fn schedule_next_run_with(&mut self, now: Timestamp, drawn: u32) -> (r: Result<()>)
        requires
            old(self)@.wf(),
        ensures
            match rescheduled(old(self)@, now, drawn) {
                Ok(v) => r is Ok && final(self)@ == v,
                Err(e) => r == Err::<(), Error>(e) && final(self)@ == old(self)@,
            },
    {
        let (next, period) = self.compute_next_run(now, drawn)?;
        self.next_run = Some(next);
        self.period = Some(period);
        Ok(())
    }

    /// Runs the job at `now` unless its deadline has passed, then
    /// reschedules it, using `drawn` as the interval when the job has a
    /// randomized range. `Ok(false)` means the job is to be dropped.
    pub fn execute_with(&mut self, now: Timestamp, drawn: u32) -> (r: Result<bool>)
        requires
            old(self)@.wf(),
        ensures
            (r, final(self)@) == executed(old(self)@, now, drawn),
            final(self)@.wf(),
    {
        if self.overdue(now) {
            return Ok(false);
        }
        match &self.job {
            Some(work) => {
                let _ = work.call();
            },
            None => {},
        }
        if self.call_count < u64::MAX {
            self.call_count = self.call_count + 1;
        }
        self.last_run = Some(now);
        self.schedule_next_run_with(now, drawn)?;
        Ok(!self.overdue(now))
    }

    /// Runs the job at `now` unless its deadline has passed, then
    /// reschedules it. `Ok(false)` means the job is to be dropped.
    pub fn execute(&mut self, now: Timestamp) -> (r: Result<bool>)
        requires
            old(self)@.wf(),
        ensures
            exists|drawn: u32|
                valid_draw(old(self)@, drawn) && (r, final(self)@) == executed(
                    old(self)@,
                    now,
                    drawn,
                ),
            final(self)@.wf(),
    {
        let drawn = self.draw_interval();
        self.execute_with(now, drawn)
    }

    pub fn should_run(&self, now: Timestamp) -> (r: bool)
        ensures
            r == should_run(self@, now),
    {
        match self.next_run {
            Some(next) => !next.is_after(&now),
            None => false,
        }
    }

    fn overdue(&self, when: Timestamp) -> (r: bool)
        ensures
            r == is_overdue(self@, when),
    {
        match self.cancel_after {
            Some(deadline) => when.is_after(&deadline),
            None => false,
        }
    }
}


/// Whether `tags` holds `wanted`.
fn tags_contain(tags: &Vec<Tag>, wanted: &String) -> (r: bool)
    ensures
        r == tags@.map_values(|t: String| t@).contains(wanted@),
{
    let ghost view = tags@.map_values(|t: String| t@);
    let mut i: usize = 0;
    while i < tags.len()
        invariant
            0 <= i <= tags@.len(),
            view == tags@.map_values(|t: String| t@),
            forall|k: int| 0 <= k < i ==> view[k] != wanted@,
        decreases tags@.len() - i,
    {
        if tags[i] == *wanted {
            assert(view[i as int] == wanted@);
            return true;
        }
        i = i + 1;
    }
    false
}

/// Whether every tag of `a` is in `b`.
fn tags_within(a: &Vec<Tag>, b: &Vec<Tag>) -> (r: bool)
    ensures
        r == a@.map_values(|t: String| t@).to_set().subset_of(b@.map_values(|t: String| t@).to_set()),
{
    let ghost va = a@.map_values(|t: String| t@);
    let ghost vb = b@.map_values(|t: String| t@);
    let mut i: usize = 0;
    while i < a.len()
        invariant
            0 <= i <= a@.len(),
            va == a@.map_values(|t: String| t@),
            vb == b@.map_values(|t: String| t@),
            forall|k: int| 0 <= k < i ==> vb.contains(#[trigger] va[k]),
        decreases a@.len() - i,
    {
        if !tags_contain(b, &a[i]) {
            assert(va.to_set().contains(va[i as int]));
            return false;
        }
        i = i + 1;
    }
    assert forall|x: Seq<char>| va.to_set().contains(x) implies vb.to_set().contains(x) by {
        let k = choose|k: int| 0 <= k < va.len() && va[k] == x;
    }
    true
}

/// Two jobs are equal when everything they hold is, tags taken as a set,
/// whatever work they run.
impl PartialEq for Job {
    fn eq(&self, other: &Job) -> (r: bool)
        ensures
            r == (self@ == other@),
    {
        proof {
            let a = self@.tags;
            let b = other@.tags;
            if a.subset_of(b) && b.subset_of(a) {
                assert(a =~= b);
            }
        }
        self.interval == other.interval && self.latest == other.latest && self.job.is_some()
            == other.job.is_some() && tags_within(&self.tags, &other.tags) && tags_within(&other.tags, &self.tags) && self.unit == other.unit
            && self.at_time == other.at_time && self.last_run == other.last_run && self.next_run
            == other.next_run && self.period == other.period && self.start_day == other.start_day
            && self.cancel_after == other.cancel_after && self.call_count == other.call_count
    }
}

impl vstd::std_specs::cmp::PartialEqSpecImpl for Job {
    open spec fn obeys_eq_spec() -> bool {
        true
    }

    open spec fn eq_spec(&self, other: &Job) -> bool {
        self@ == other@
    }
}

} // verus!
