use skedge::{every, every_single, Result, Scheduler, Timestamp};

fn start() -> Timestamp {
    Timestamp::from_civil(2024, 1, 1, 7, 0, 0).unwrap()
}

fn setup() -> Scheduler {
    Scheduler::with_mock_time(start())
}

/// Empty mock job
fn job() {}

#[test]
fn test_two_jobs() -> Result<()> {
    let mut scheduler = setup();

    assert_eq!(scheduler.idle_seconds().unwrap(), None);

    every(17).seconds()?.run(&mut scheduler, job)?;
    assert_eq!(scheduler.idle_seconds().unwrap(), Some(17));

    every_single().minute()?.run(&mut scheduler, job)?;
    assert_eq!(scheduler.idle_seconds().unwrap(), Some(17));
    assert_eq!(scheduler.next_run(), start().checked_add_seconds(17));

    scheduler.add_duration(17)?;
    scheduler.run_pending()?;
    println!("after one: {:?}", scheduler.now());
    assert_eq!(scheduler.next_run(), start().checked_add_seconds(17 * 2));

    scheduler.add_duration(17)?;
    scheduler.run_pending()?;
    assert_eq!(scheduler.next_run(), start().checked_add_seconds(17 * 3));

    // This time, we should hit the minute mark next, not the next 17 second mark
    scheduler.add_duration(17)?;
    scheduler.run_pending()?;
    assert_eq!(scheduler.idle_seconds().unwrap(), Some(9));
    assert_eq!(scheduler.next_run(), start().checked_add_seconds(60));

    // Afterwards, back to the 17 second job
    scheduler.add_duration(9)?;
    scheduler.run_pending()?;
    assert_eq!(scheduler.idle_seconds().unwrap(), Some(8));
    assert_eq!(scheduler.next_run(), start().checked_add_seconds(17 * 4));

    Ok(())
}

#[test]
fn test_time_range() -> Result<()> {
    let mut scheduler = setup();

    // Set up 100 jobs, store the minute of the next run
    let num_jobs = 100;
    let mut minutes = std::collections::HashSet::with_capacity(num_jobs);
    for _ in 0..num_jobs {
        every(5).to(30)?.minutes()?.run(&mut scheduler, job)?;
        minutes.insert(scheduler.most_recent_job().unwrap().next_run().unwrap().minute());
    }

    // Make sure each job got a run time within the specified bounds
    assert!(minutes.len() > 1);
    assert!(minutes.iter().min().unwrap() >= &5);
    assert!(minutes.iter().max().unwrap() <= &30);

    Ok(())
}

#[test]
fn test_at_time() -> Result<()> {
    let mut scheduler = setup();

    every_single().day()?.at("10:30:50")?.run(&mut scheduler, job)?;
    assert_eq!(scheduler.most_recent_job().unwrap().next_run().unwrap().hour(), 10);
    assert_eq!(scheduler.most_recent_job().unwrap().next_run().unwrap().minute(), 30);
    assert_eq!(scheduler.most_recent_job().unwrap().next_run().unwrap().second(), 50);

    Ok(())
}

#[test]
fn test_clear_scheduler() -> Result<()> {
    let mut scheduler = setup();

    every_single().day()?.run(&mut scheduler, job)?;
    every_single().minute()?.run(&mut scheduler, job)?;
    assert_eq!(scheduler.get_jobs(None).len(), 2);
    scheduler.clear(None);
    assert_eq!(scheduler.get_jobs(None).len(), 0);

    Ok(())
}

#[test]
fn test_until_time() -> Result<()> {
    let mut scheduler = setup();

    // Make sure it stores a deadline

    let deadline = Timestamp::from_civil(3000, 1, 1, 12, 0, 0).unwrap();
    every_single().day()?.until(deadline)?.run(&mut scheduler, job)?;
    assert_eq!(scheduler.most_recent_job().unwrap().cancel_after().unwrap(), deadline);

    // Make sure it cancels a job after next_run passes the deadline

    scheduler.clear(None);
    let deadline = Timestamp::from_civil(2024, 1, 1, 7, 0, 10).unwrap();
    every(5).seconds()?.until(deadline)?.run(&mut scheduler, job)?;
    assert_eq!(scheduler.most_recent_job().unwrap().call_count(), 0);
    scheduler.add_duration(5)?;
    scheduler.run_pending()?;
    assert_eq!(scheduler.most_recent_job().unwrap().call_count(), 1);
    assert_eq!(scheduler.get_jobs(None).len(), 1);
    scheduler.add_duration(5)?;
    scheduler.run_pending()?;
    assert_eq!(scheduler.get_jobs(None).len(), 1);
    assert_eq!(scheduler.most_recent_job().unwrap().call_count(), 2);
    scheduler.add_duration(5)?;
    scheduler.run_pending()?;
    assert_eq!(scheduler.get_jobs(None).len(), 0);

    // A deadline already past when the job is registered is refused

    scheduler.clear(None);
    let deadline = start();
    let refused = every(5).seconds()?.until(deadline)?.run(&mut scheduler, job);
    assert_eq!(refused.err(), Some(skedge::Error::InvalidUntilTime));
    scheduler.add_duration(5)?;
    scheduler.run_pending()?;
    assert_eq!(scheduler.get_jobs(None).len(), 0);

    Ok(())
}

#[test]
fn test_weekday_at_time() -> Result<()> {
    let mut scheduler = setup();

    every_single().wednesday()?.at("22:38:10")?.run(&mut scheduler, job)?;
    let j = scheduler.most_recent_job().unwrap();

    assert_eq!(j.next_run().unwrap().year(), 2024);
    assert_eq!(j.next_run().unwrap().month(), 1);
    assert_eq!(j.next_run().unwrap().day(), 3);
    assert_eq!(j.next_run().unwrap().hour(), 22);
    assert_eq!(j.next_run().unwrap().minute(), 38);
    assert_eq!(j.next_run().unwrap().second(), 10);

    scheduler.clear(None);

    every_single().wednesday()?.at("22:39")?.run(&mut scheduler, job)?;
    let j = scheduler.most_recent_job().unwrap();

    assert_eq!(j.next_run().unwrap().year(), 2024);
    assert_eq!(j.next_run().unwrap().month(), 1);
    assert_eq!(j.next_run().unwrap().day(), 3);
    assert_eq!(j.next_run().unwrap().hour(), 22);
    assert_eq!(j.next_run().unwrap().minute(), 39);
    assert_eq!(j.next_run().unwrap().second(), 0);

    Ok(())
}
