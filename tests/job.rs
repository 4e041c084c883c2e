use skedge::{every, every_single, Result};
use skedge::TimeUnit::{Day, Hour, Minute, Month, Second, Week, Year};

#[test]
fn test_plural_time_units() -> Result<()> {
    assert_eq!(every(2).seconds()?.unit(), Some(Second));
    assert_eq!(every(2).minutes()?.unit(), Some(Minute));
    assert_eq!(every(2).hours()?.unit(), Some(Hour));
    assert_eq!(every(2).days()?.unit(), Some(Day));
    assert_eq!(every(2).weeks()?.unit(), Some(Week));
    assert_eq!(every(2).months()?.unit(), Some(Month));
    assert_eq!(every(2).years()?.unit(), Some(Year));
    // Okay to use plural method with singular interval:
    assert_eq!(every(1).seconds()?.unit(), Some(Second));
    assert_eq!(every(1).minutes()?.unit(), Some(Minute));
    assert_eq!(every(1).hours()?.unit(), Some(Hour));
    assert_eq!(every(1).days()?.unit(), Some(Day));
    assert_eq!(every(1).weeks()?.unit(), Some(Week));
    assert_eq!(every(1).months()?.unit(), Some(Month));
    assert_eq!(every(1).years()?.unit(), Some(Year));
    Ok(())
}

#[test]
fn test_singular_time_units() -> Result<()> {
    assert!(every(1) == every_single());
    assert_eq!(every_single().second()?.unit(), Some(Second));
    assert_eq!(every_single().minute()?.unit(), Some(Minute));
    assert_eq!(every_single().hour()?.unit(), Some(Hour));
    assert_eq!(every_single().day()?.unit(), Some(Day));
    assert_eq!(every_single().week()?.unit(), Some(Week));
    assert_eq!(every_single().month()?.unit(), Some(Month));
    assert_eq!(every_single().year()?.unit(), Some(Year));
    Ok(())
}

#[test]
fn test_singular_unit_plural_interval_mismatch() {
    assert_eq!(
        every(2).second().err().unwrap().to_string(),
        "Use seconds() instead of second()".to_string()
    );
    assert_eq!(
        every(2).minute().err().unwrap().to_string(),
        "Use minutes() instead of minute()".to_string()
    );
    assert_eq!(
        every(2).hour().err().unwrap().to_string(),
        "Use hours() instead of hour()".to_string()
    );
    assert_eq!(
        every(2).day().err().unwrap().to_string(),
        "Use days() instead of day()".to_string()
    );
    assert_eq!(
        every(2).week().err().unwrap().to_string(),
        "Use weeks() instead of week()".to_string()
    );
    assert_eq!(
        every(2).month().err().unwrap().to_string(),
        "Use months() instead of month()".to_string()
    );
    assert_eq!(
        every(2).year().err().unwrap().to_string(),
        "Use years() instead of year()".to_string()
    );
}

#[test]
fn test_singular_units_match_plural_units() -> Result<()> {
    assert_eq!(every(1).second()?.unit(), every(1).seconds()?.unit());
    assert_eq!(every(1).minute()?.unit(), every(1).minutes()?.unit());
    assert_eq!(every(1).hour()?.unit(), every(1).hours()?.unit());
    assert_eq!(every(1).day()?.unit(), every(1).days()?.unit());
    assert_eq!(every(1).week()?.unit(), every(1).weeks()?.unit());
    assert_eq!(every(1).month()?.unit(), every(1).months()?.unit());
    assert_eq!(every(1).year()?.unit(), every(1).years()?.unit());
    Ok(())
}

#[test]
fn test_reject_weekday_multiple_weeks() {
    assert_eq!(
        every(2).monday().err().unwrap().to_string(),
        "Scheduling jobs on Monday is only allowed for weekly jobs.  Using specific days on a job scheduled to run every 2 or more weeks is not supported".to_string()
    );
    assert_eq!(
        every(2).tuesday().err().unwrap().to_string(),
        "Scheduling jobs on Tuesday is only allowed for weekly jobs.  Using specific days on a job scheduled to run every 2 or more weeks is not supported".to_string()
    );
    assert_eq!(
        every(2).wednesday().err().unwrap().to_string(),
        "Scheduling jobs on Wednesday is only allowed for weekly jobs.  Using specific days on a job scheduled to run every 2 or more weeks is not supported".to_string()
    );
    assert_eq!(
        every(2).thursday().err().unwrap().to_string(),
        "Scheduling jobs on Thursday is only allowed for weekly jobs.  Using specific days on a job scheduled to run every 2 or more weeks is not supported".to_string()
    );
    assert_eq!(
        every(2).friday().err().unwrap().to_string(),
        "Scheduling jobs on Friday is only allowed for weekly jobs.  Using specific days on a job scheduled to run every 2 or more weeks is not supported".to_string()
    );
    assert_eq!(
        every(2).saturday().err().unwrap().to_string(),
        "Scheduling jobs on Saturday is only allowed for weekly jobs.  Using specific days on a job scheduled to run every 2 or more weeks is not supported".to_string()
    );
    assert_eq!(
        every(2).sunday().err().unwrap().to_string(),
        "Scheduling jobs on Sunday is only allowed for weekly jobs.  Using specific days on a job scheduled to run every 2 or more weeks is not supported".to_string()
    );
}

#[test]
fn test_reject_multiple_time_units() -> Result<()> {
    assert_eq!(
        every_single().day()?.wednesday().err().unwrap().to_string(),
        "Cannot set weeks mode, already using days".to_string()
    );
    assert_eq!(
        every_single().minute()?.second().err().unwrap().to_string(),
        "Cannot set seconds mode, already using minutes".to_string()
    );
    Ok(())
}

#[test]
fn test_reject_invalid_at_time() -> Result<()> {
    let bad_hour = "Invalid hour (25 is not between 0 and 23)".to_string();
    let bad_daily = "Invalid time format for daily job (valid format is HH:MM(:SS)?)".to_string();
    let bad_hourly = "Invalid time format for hourly job (valid format is (MM)?:SS)".to_string();
    let bad_minutely = "Invalid time format for minutely job (valid format is :SS)".to_string();
    let bad_unit = "Invalid unit (valid units are `days`, `hours`, and `minutes`)".to_string();
    assert_eq!(every_single().second()?.at("13:15").err().unwrap().to_string(), bad_unit);
    assert_eq!(every_single().day()?.at("25:00:00").err().unwrap().to_string(), bad_hour);
    assert_eq!(every_single().day()?.at("00:61:00").err().unwrap().to_string(), bad_daily);
    assert_eq!(every_single().day()?.at("00:00:61").err().unwrap().to_string(), bad_daily);
    assert_eq!(every_single().day()?.at("00:61:00").err().unwrap().to_string(), bad_daily);
    assert_eq!(every_single().day()?.at("25:0:0").err().unwrap().to_string(), bad_daily);
    assert_eq!(every_single().day()?.at("0:61:0").err().unwrap().to_string(), bad_daily);
    assert_eq!(every_single().day()?.at("0:0:61").err().unwrap().to_string(), bad_daily);
    assert_eq!(every_single().hour()?.at("23:59:29").err().unwrap().to_string(), bad_hourly);
    assert_eq!(every_single().hour()?.at("61:00").err().unwrap().to_string(), bad_hourly);
    assert_eq!(every_single().hour()?.at("00:61").err().unwrap().to_string(), bad_hourly);
    assert_eq!(every_single().hour()?.at(":61").err().unwrap().to_string(), bad_hourly);
    assert_eq!(every_single().minute()?.at("22:45:34").err().unwrap().to_string(), bad_minutely);
    assert_eq!(every_single().minute()?.at(":61").err().unwrap().to_string(), bad_minutely);
    Ok(())
}

#[test]
fn test_latest_greater_than_interval() {
    assert_eq!(
        every(2).to(1).err().unwrap().to_string(),
        "Latest val is greater than interval val".to_string()
    );
    assert_eq!(every(2).to(3).unwrap().latest(), Some(3));
}
