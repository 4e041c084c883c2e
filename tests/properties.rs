use std::cell::Cell;
use std::rc::Rc;

use skedge::{
    every, every_single, Callable, Error, OneToUnit, Result, Scheduler, TimeUnit, Timestamp,
    UnitToUnit, Weekday,
};

fn start() -> Timestamp {
    Timestamp::from_civil(2024, 1, 1, 7, 0, 0).unwrap()
}

fn job() {}

#[test]
fn civil_conversion_round_trip() {
    let t = start();
    assert_eq!(t.as_second(), 1_704_092_400);
    assert_eq!(t.date(), (2024, 1, 1));
    assert_eq!((t.hour(), t.minute(), t.second()), (7, 0, 0));
    assert_eq!(t.weekday(), Weekday::Monday);
    let leap = Timestamp::from_civil(2024, 2, 29, 23, 59, 59).unwrap();
    assert_eq!(leap.date(), (2024, 2, 29));
    assert_eq!(leap.weekday(), Weekday::Thursday);
    assert!(Timestamp::from_civil(2023, 2, 29, 0, 0, 0).is_none());
    assert!(Timestamp::from_second(skedge::MAX_SECOND + 1).is_none());
    assert_eq!(Timestamp::from_second(skedge::MAX_SECOND).unwrap().date(), (9999, 12, 29));
    assert!(Timestamp::from_civil(9999, 12, 30, 0, 0, 0).is_none());
    assert_eq!(Timestamp::from_second(skedge::MIN_SECOND).unwrap().weekday(), Weekday::Monday);
    assert_eq!(Timestamp::from_second(skedge::MIN_SECOND).unwrap().date(), (1, 1, 1));
}

#[test]
fn seconds_job_advances_by_its_interval() -> Result<()> {
    let mut scheduler = Scheduler::with_mock_time(start());
    every(7).seconds()?.run(&mut scheduler, job)?;
    assert_eq!(scheduler.next_run(), start().checked_add_seconds(7));
    scheduler.add_duration(7)?;
    scheduler.run_pending()?;
    assert_eq!(scheduler.next_run(), start().checked_add_seconds(14));
    assert_eq!(scheduler.most_recent_job().unwrap().last_run(), start().checked_add_seconds(7));
    assert_eq!(scheduler.most_recent_job().unwrap().period(), Some(7));
    Ok(())
}

#[test]
fn every_single_matches_every_one_after_same_calls() -> Result<()> {
    assert!(every(1) == every_single());
    assert!(every(1).wednesday()?.at("13:15")? == every_single().wednesday()?.at("13:15")?);
    assert!(every(1).minutes()? == every_single().minute()?);
    assert!(!(every(2) == every_single()));
    Ok(())
}

#[test]
fn same_unit_twice_is_refused() -> Result<()> {
    assert_eq!(
        every(2).seconds()?.seconds().err().unwrap(),
        Error::Unit(TimeUnit::Second, TimeUnit::Second)
    );
    assert_eq!(
        every(2).hours()?.days().err().unwrap().to_string(),
        "Cannot set days mode, already using hours"
    );
    Ok(())
}

#[test]
fn randomized_interval_stays_in_range() -> Result<()> {
    assert_eq!(every(3).to(3).err().unwrap(), Error::InvalidInterval);
    let mut scheduler = Scheduler::with_mock_time(start());
    for _ in 0..50 {
        every(2).to(5)?.seconds()?.run(&mut scheduler, job)?;
        let next = scheduler.most_recent_job().unwrap().next_run().unwrap();
        let gap = next.seconds_since(&start());
        assert!((2..5).contains(&gap));
    }
    Ok(())
}

#[test]
fn at_boundaries() -> Result<()> {
    assert_eq!(every_single().minute()?.at(":61").err().unwrap(), Error::InvalidMinuteAtStr);
    let t = every_single().minute()?.at(":59")?.at_time().unwrap();
    assert_eq!((t.hour, t.minute, t.second), (0, 0, 59));
    let t = every_single().day()?.at("23:59:59")?.at_time().unwrap();
    assert_eq!((t.hour, t.minute, t.second), (23, 59, 59));
    let t = every_single().hour()?.at("59:59")?.at_time().unwrap();
    assert_eq!((t.hour, t.minute, t.second), (0, 59, 59));
    let t = every_single().hour()?.at(":07")?.at_time().unwrap();
    assert_eq!((t.hour, t.minute, t.second), (0, 0, 7));
    assert_eq!(every_single().day()?.at("24:00").err().unwrap(), Error::InvalidHour(24));
    assert_eq!(every_single().day()?.at("60:00").err().unwrap(), Error::InvalidDailyAtStr);
    assert_eq!(every(2).weeks()?.at("10:00").err().unwrap(), Error::InvalidUnit);
    assert_eq!(every_single().at("10:00").err().unwrap(), Error::InvalidUnit);
    Ok(())
}

#[test]
fn wednesday_at_next_occurrence() -> Result<()> {
    // From a Monday morning: the coming Wednesday.
    let mut s = Scheduler::with_mock_time(start());
    every_single().wednesday()?.at("13:15")?.run(&mut s, job)?;
    assert_eq!(s.next_run(), Timestamp::from_civil(2024, 1, 3, 13, 15, 0));
    // From a Wednesday morning: the same day.
    let mut s = Scheduler::with_mock_time(Timestamp::from_civil(2024, 1, 3, 10, 0, 0).unwrap());
    every_single().wednesday()?.at("13:15")?.run(&mut s, job)?;
    assert_eq!(s.next_run(), Timestamp::from_civil(2024, 1, 3, 13, 15, 0));
    // From a Wednesday afternoon: a week later.
    let mut s = Scheduler::with_mock_time(Timestamp::from_civil(2024, 1, 3, 14, 0, 0).unwrap());
    every_single().wednesday()?.at("13:15")?.run(&mut s, job)?;
    assert_eq!(s.next_run(), Timestamp::from_civil(2024, 1, 10, 13, 15, 0));
    // From a Thursday: six days later.
    let mut s = Scheduler::with_mock_time(Timestamp::from_civil(2024, 1, 4, 9, 0, 0).unwrap());
    every_single().wednesday()?.at("13:15")?.run(&mut s, job)?;
    assert_eq!(s.next_run(), Timestamp::from_civil(2024, 1, 10, 13, 15, 0));
    Ok(())
}

#[test]
fn monday_without_time_runs_next_monday() -> Result<()> {
    let mut s = Scheduler::with_mock_time(start());
    every_single().monday()?.run(&mut s, job)?;
    assert_eq!(s.next_run(), Timestamp::from_civil(2024, 1, 8, 7, 0, 0));
    Ok(())
}

#[test]
fn hourly_and_minutely_at_time() -> Result<()> {
    let now = Timestamp::from_civil(2024, 1, 1, 7, 20, 30).unwrap();
    let mut s = Scheduler::with_mock_time(now);
    every_single().hour()?.at("45:00")?.run(&mut s, job)?;
    assert_eq!(s.next_run(), Timestamp::from_civil(2024, 1, 1, 7, 45, 0));
    let mut s = Scheduler::with_mock_time(now);
    every_single().hour()?.at("10:00")?.run(&mut s, job)?;
    assert_eq!(s.next_run(), Timestamp::from_civil(2024, 1, 1, 8, 10, 0));
    let mut s = Scheduler::with_mock_time(now);
    every_single().minute()?.at(":45")?.run(&mut s, job)?;
    assert_eq!(s.next_run(), Timestamp::from_civil(2024, 1, 1, 7, 20, 45));
    let mut s = Scheduler::with_mock_time(now);
    every_single().minute()?.at(":10")?.run(&mut s, job)?;
    assert_eq!(s.next_run(), Timestamp::from_civil(2024, 1, 1, 7, 21, 10));
    Ok(())
}

#[test]
fn past_deadline_is_refused_at_registration() -> Result<()> {
    let mut s = Scheduler::with_mock_time(start());
    let past = Timestamp::from_civil(2023, 12, 31, 0, 0, 0).unwrap();
    let r = every(5).seconds()?.until(past)?.run(&mut s, job);
    assert_eq!(r.err().unwrap(), Error::InvalidUntilTime);
    assert_eq!(
        Error::InvalidUntilTime.to_string(),
        "Cannot schedule a job to run until a time in the past"
    );
    assert_eq!(s.get_jobs(None).len(), 0);
    Ok(())
}

#[test]
fn deadline_before_first_run_drops_job_unrun() -> Result<()> {
    let mut s = Scheduler::with_mock_time(start());
    let deadline = start().checked_add_seconds(3).unwrap();
    every(5).seconds()?.until(deadline)?.run(&mut s, job)?;
    s.add_duration(5)?;
    s.run_pending()?;
    assert_eq!(s.get_jobs(None).len(), 0);
    Ok(())
}

#[test]
fn clear_by_tag_keeps_others_untouched() -> Result<()> {
    let mut s = Scheduler::with_mock_time(start());
    let mut tagged = every(10).seconds()?;
    tagged.tag(&["reports", "daily", "reports"]);
    assert!(tagged.has_tag("reports"));
    assert!(!tagged.has_tag("weekly"));
    tagged.run(&mut s, job)?;
    let mut other = every(20).seconds()?;
    other.tag(&["weekly"]);
    other.run(&mut s, job)?;
    every(30).seconds()?.run(&mut s, job)?;
    assert_eq!(s.get_jobs(Some("reports".to_string())).len(), 1);
    s.clear(Some("reports".to_string()));
    let left = s.get_jobs(None);
    assert_eq!(left.len(), 2);
    assert_eq!(left[0].next_run(), start().checked_add_seconds(20));
    assert_eq!(left[1].next_run(), start().checked_add_seconds(30));
    s.clear(None);
    assert_eq!(s.get_jobs(None).len(), 0);
    assert_eq!(s.next_run(), None);
    Ok(())
}

#[test]
fn work_runs_with_its_arguments() -> Result<()> {
    let seen = Rc::new(Cell::new(0u32));
    let counter = seen.clone();
    let add = move |a: u32, b: u32| counter.set(counter.get() + a + b);
    let mut s = Scheduler::with_mock_time(start());
    every(1).seconds()?.run_two_args(&mut s, add, 2, 3)?;
    s.add_duration(1)?;
    s.run_pending()?;
    s.add_duration(1)?;
    s.run_pending()?;
    assert_eq!(seen.get(), 10);
    assert_eq!(s.most_recent_job().unwrap().call_count(), 2);
    Ok(())
}

#[test]
fn errors_of_configuration() -> Result<()> {
    let mut s = Scheduler::with_mock_time(start());
    assert_eq!(every(1).run(&mut s, job).err().unwrap(), Error::UnitUnreachable);
    assert_eq!(
        every_single().monday()?.tuesday().err().unwrap().to_string(),
        "Cannot schedule Tuesday job, already scheduled for Monday"
    );
    let end = Timestamp::from_civil(9999, 12, 29, 12, 0, 0).unwrap();
    let mut late = Scheduler::with_mock_time(end);
    assert_eq!(
        every(1).days()?.run(&mut late, job).err().unwrap(),
        Error::TimestampOutOfRange
    );
    assert_eq!(late.add_duration(86400).err().unwrap(), Error::TimestampOutOfRange);
    Ok(())
}

#[test]
fn error_in_poll_keeps_jobs() -> Result<()> {
    let mut s = Scheduler::with_mock_time(start());
    every(1).seconds()?.run(&mut s, job)?;
    every(2).seconds()?.run(&mut s, job)?;
    assert_eq!(s.idle_seconds()?, Some(1));
    s.add_duration(1)?;
    s.run_pending()?;
    assert_eq!(s.get_jobs(None).len(), 2);
    assert_eq!(s.idle_seconds()?, Some(1));
    Ok(())
}

#[test]
fn run_job_at_runs_regardless_of_due() -> Result<()> {
    let mut s = Scheduler::with_mock_time(start());
    every(10).minutes()?.run(&mut s, job)?;
    let now = s.now()?;
    assert!(s.run_job_at(0, now)?);
    assert_eq!(s.most_recent_job().unwrap().call_count(), 1);
    assert_eq!(s.next_run(), start().checked_add_seconds(600));
    Ok(())
}

#[test]
fn error_in_poll_drops_jobs_cancelled_before_it() -> Result<()> {
    let t = Timestamp::from_civil(9999, 12, 28, 0, 0, 0).unwrap();
    let mut s = Scheduler::with_mock_time(t);
    every(1).seconds()?.until(t.checked_add_seconds(1).unwrap())?.run(&mut s, job)?;
    every(1).days()?.run(&mut s, job)?;
    s.add_duration(86400)?;
    assert_eq!(s.run_pending().err(), Some(Error::TimestampOutOfRange));
    let left = s.get_jobs(None);
    assert_eq!(left.len(), 1);
    assert_eq!(left[0].unit(), Some(TimeUnit::Day));
    Ok(())
}

#[test]
fn callables_keep_name_and_return_none() {
    let seen = Rc::new(Cell::new(0u32));
    let counter = seen.clone();
    let c = OneToUnit::new("adder", move |a: u32| counter.set(counter.get() + a), 4);
    assert_eq!(c.name(), "adder");
    assert_eq!(c.call(), None);
    assert_eq!(c.call(), None);
    assert_eq!(seen.get(), 8);
    let u = UnitToUnit::new("noop", || {});
    assert_eq!(u.name(), "noop");
    assert_eq!(u.call(), None);
}

#[test]
fn calendar_dates() {
    for &(y, m, d) in &[(1i16, 1i8, 1i8), (1600, 2, 29), (1900, 3, 1), (1970, 1, 1), (2000, 2, 29), (2023, 12, 31), (9999, 12, 29)] {
        let t = Timestamp::from_civil(y, m, d, 12, 30, 15).unwrap();
        assert_eq!(t.date(), (y as i64, m as i64, d as i64));
        assert_eq!((t.hour(), t.minute(), t.second()), (12, 30, 15));
    }
    assert!(Timestamp::from_civil(1900, 2, 29, 0, 0, 0).is_none());
    assert!(Timestamp::from_civil(2024, 4, 31, 0, 0, 0).is_none());
    assert!(Timestamp::from_civil(2024, 1, 1, 24, 0, 0).is_none());
    assert_eq!(Timestamp::from_civil(1970, 1, 1, 0, 0, 0).unwrap().as_second(), 0);
}
