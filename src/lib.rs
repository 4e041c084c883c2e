//! A single-process periodic job scheduler.
//!
//! Jobs are configured with a fluent chain (`every(10).seconds()?`), given
//! their work with one of the `run` methods, and fired by
//! `Scheduler::run_pending`, which the host calls periodically.
mod callable;
mod error;
mod job;
mod scheduler;
mod time;

pub use callable::{
    Callable, FiveToUnit, FourToUnit, OneToUnit, SixToUnit, ThreeToUnit, TwoToUnit, UnitToUnit,
};
pub use error::{Error, Result};
pub use job::{every, every_single, Interval, Job, JobView, Tag};
pub use scheduler::{Scheduler, SchedulerView};
pub use time::{Clock, LocalTime, TimeUnit, Timestamp, Weekday, MAX_SECOND, MIN_SECOND};
