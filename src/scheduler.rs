//! The scheduler: owns the jobs, polls them, runs the due ones, reschedules
//! them and drops the cancelled ones.
use vstd::prelude::*;

use crate::error::{Error, Result};
use crate::job::{executed, should_run, valid_draw, Job, JobView, Tag};
use crate::time::{Clock, Timestamp, MIN_SECOND};

verus! {

/// What a scheduler holds, as plain values.
pub struct SchedulerView {
    pub jobs: Seq<JobView>,
    pub clock: Clock,
}

impl SchedulerView {
    pub open spec fn wf(self) -> bool {
        forall|i: int| 0 <= i < self.jobs.len() ==> #[trigger] self.jobs[i].wf()
    }
}

/// Whether `now` is a time that `clock` may give: its own instant for a
/// fixed clock, any instant for the system clock.
pub open spec fn reads(clock: Clock, now: Timestamp) -> bool {
    match clock {
        Clock::Mock(t) => t == now,
        Clock::Real => true,
    }
}

pub open spec fn views(jobs: Seq<Job>) -> Seq<JobView> {
    jobs.map_values(|j: Job| j@)
}

/// The order of jobs: by next run, a job with none first.
pub open spec fn run_key(v: JobView) -> int {
    match v.next_run {
        Some(t) => t@,
        None => MIN_SECOND - 1,
    }
}

/// `i` is the first position of a job whose next run is the earliest.
pub open spec fn is_first_min(s: Seq<JobView>, i: int) -> bool {
    &&& 0 <= i < s.len()
    &&& forall|k: int| 0 <= k < s.len() ==> run_key(s[i]) <= run_key(#[trigger] s[k])
    &&& forall|k: int| 0 <= k < i ==> run_key(#[trigger] s[k]) > run_key(s[i])
}

/// `s` ordered by next run; jobs that run at the same time keep their order.
pub open spec fn sorted_by_next_run(s: Seq<JobView>) -> Seq<JobView>
    decreases s.len(),
{
    if s.len() == 0 {
        s
    } else {
        let i = choose|i: int| is_first_min(s, i);
        if 0 <= i < s.len() {
            seq![s[i]] + sorted_by_next_run(s.remove(i))
        } else {
            s
        }
    }
}

/// The next run of the job that comes first.
pub open spec fn earliest_run(s: Seq<JobView>) -> Option<Timestamp> {
    if s.len() == 0 {
        None
    } else {
        s[choose|i: int| is_first_min(s, i)].next_run
    }
}

/// One job polled at `now`: run if it is due, left alone otherwise.
pub open spec fn poll_step(v: JobView, now: Timestamp, drawn: u32) -> (Result<bool>, JobView) {
    if should_run(v, now) {
        executed(v, now, drawn)
    } else {
        (Ok(true), v)
    }
}

/// The first `k` jobs of `s` polled in order, the job at `i` drawing
/// `draws[i]`: each job afterwards with whether it stays; or the first error,
/// with the jobs that stay among those polled before it, the job that failed,
/// and how many jobs were polled.
pub open spec fn poll_prefix(s: Seq<JobView>, now: Timestamp, draws: Seq<u32>, k: int) -> core::result::Result<
    Seq<(JobView, bool)>,
    (Error, Seq<JobView>, int),
>
    decreases k,
{
    if k <= 0 {
        Ok(seq![])
    } else {
        match poll_prefix(s, now, draws, k - 1) {
            Err(x) => Err(x),
            Ok(done) => {
                let (r, v) = poll_step(s[k - 1], now, draws[k - 1]);
                match r {
                    Ok(keep) => Ok(done.push((v, keep))),
                    Err(e) => Err((e, kept_jobs(done).push(v), k)),
                }
            },
        }
    }
}

/// The jobs of `done` that stay, in order.
pub open spec fn kept_jobs(done: Seq<(JobView, bool)>) -> Seq<JobView>
    decreases done.len(),
{
    if done.len() == 0 {
        seq![]
    } else {
        let before = kept_jobs(done.drop_last());
        if done.last().1 {
            before.push(done.last().0)
        } else {
            before
        }
    }
}

/// One poll of the jobs `s` at `now`: its result and the jobs afterwards. On
/// an error the jobs polled before it are kept rescheduled or dropped as they
/// asked, the failing job stays, and the jobs not reached yet stay as they
/// were.
pub open spec fn polled(s: Seq<JobView>, now: Timestamp, draws: Seq<u32>) -> (Result<()>, Seq<JobView>) {
    match poll_prefix(s, now, draws, s.len() as int) {
        Ok(done) => (Ok(()), kept_jobs(done)),
        Err((e, reached, polled_count)) => (Err(e), reached + s.skip(polled_count)),
    }
}

/// A poll of `s` at `now` with the draws `draws`, each of which the job in
/// its position may make, gives `r` and leaves the jobs `after`.
pub open spec fn poll_gives(
    s: Seq<JobView>,
    now: Timestamp,
    draws: Seq<u32>,
    r: Result<()>,
    after: Seq<JobView>,
) -> bool {
    &&& draws.len() == s.len()
    &&& forall|i: int| 0 <= i < s.len() ==> valid_draw(s[i], #[trigger] draws[i])
    &&& polled(s, now, draws) == (r, after)
}

proof fn lemma_filter_take(s: Seq<JobView>, i: int, f: spec_fn(JobView) -> bool)
    requires
        0 <= i < s.len(),
    ensures
        s.take(i + 1).filter(f) == if f(s[i]) {
            s.take(i).filter(f).push(s[i])
        } else {
            s.take(i).filter(f)
        },
{
    reveal(Seq::filter);
    assert(s.take(i + 1).drop_last() =~= s.take(i));
    assert(s.take(i + 1).last() == s[i]);
}

proof fn lemma_first_min_unique(s: Seq<JobView>, i: int, j: int)
    requires
        is_first_min(s, i),
        is_first_min(s, j),
    ensures
        i == j,
{
    if i < j {
        assert(run_key(s[i]) > run_key(s[j]));
    } else if j < i {
        assert(run_key(s[j]) > run_key(s[i]));
    }
}

proof fn lemma_poll_prefix_draws(s: Seq<JobView>, now: Timestamp, d1: Seq<u32>, d2: Seq<u32>, k: int)
    requires
        forall|j: int| 0 <= j < k ==> d1[j] == d2[j],
    ensures
        poll_prefix(s, now, d1, k) == poll_prefix(s, now, d2, k),
    decreases k,
{
    if k > 0 {
        lemma_poll_prefix_draws(s, now, d1, d2, k - 1);
    }
}

proof fn lemma_poll_prefix_error_stays(s: Seq<JobView>, now: Timestamp, draws: Seq<u32>, k: int, m: int)
    requires
        poll_prefix(s, now, draws, k) is Err,
        0 <= k <= m,
    ensures
        poll_prefix(s, now, draws, m) == poll_prefix(s, now, draws, k),
    decreases m - k,
{
    if m > k {
        lemma_poll_prefix_error_stays(s, now, draws, k, m - 1);
    }
}

/// A scheduler owns jobs and runs the ones that are due.
pub struct Scheduler {
    jobs: Vec<Job>,
    clock: Clock,
}

impl View for Scheduler {
    type V = SchedulerView;

    closed spec fn view(&self) -> SchedulerView {
        SchedulerView { jobs: views(self.jobs@), clock: self.clock }
    }
}

/// Position of the first job whose next run is the earliest.
fn first_min_index(jobs: &Vec<Job>) -> (r: usize)
    requires
        jobs@.len() > 0,
    ensures
        is_first_min(views(jobs@), r as int),
{
    let ghost s = views(jobs@);
    let mut best: usize = 0;
    let mut best_key = jobs[0].run_key();
    let mut i: usize = 1;
    while i < jobs.len()
        invariant
            s == views(jobs@),
            0 <= best < i <= jobs@.len(),
            best_key == run_key(s[best as int]),
            forall|k: int| 0 <= k < i ==> run_key(s[best as int]) <= run_key(#[trigger] s[k]),
            forall|k: int| 0 <= k < best ==> run_key(#[trigger] s[k]) > run_key(s[best as int]),
        decreases jobs@.len() - i,
    {
        let key = jobs[i].run_key();
        if key < best_key {
            best = i;
            best_key = key;
        }
        i = i + 1;
    }
    best
}

/// The jobs of `processed` whose mark in `keep` is set, in order.
fn retain_kept(processed: Vec<Job>, keep: &Vec<bool>, Ghost(done): Ghost<Seq<(JobView, bool)>>) -> (out: Vec<Job>)
    requires
        processed@.len() == done.len() == keep@.len(),
        forall|k: int|
            0 <= k < done.len() ==> (#[trigger] done[k]).0 == processed@[k]@ && done[k].1
                == keep@[k],
        forall|k: int| 0 <= k < processed@.len() ==> (#[trigger] processed@[k])@.wf(),
    ensures
        views(out@) == kept_jobs(done),
        forall|k: int| 0 <= k < out@.len() ==> (#[trigger] out@[k])@.wf(),
{
    let mut processed = processed;
    let mut out: Vec<Job> = Vec::new();
    let mut j: usize = 0;
    while j < keep.len()
        invariant
            keep@.len() == done.len(),
            processed@.len() + j == done.len(),
            forall|k: int| 0 <= k < processed@.len() ==> (#[trigger] processed@[k])@ == done[k + j].0,
            forall|k: int| 0 <= k < done.len() ==> (#[trigger] done[k]).1 == keep@[k],
            0 <= j <= keep@.len(),
            views(out@) == kept_jobs(done.take(j as int)),
            forall|k: int| 0 <= k < processed@.len() ==> (#[trigger] processed@[k])@.wf(),
            forall|k: int| 0 <= k < out@.len() ==> (#[trigger] out@[k])@.wf(),
        decreases keep@.len() - j,
    {
        let job = processed.remove(0);
        assert(done.take(j + 1).drop_last() =~= done.take(j as int));
        assert(done.take(j + 1).last() == done[j as int]);
        if keep[j] {
            out.push(job);
            assert(views(out@) =~= kept_jobs(done.take(j + 1)));
        } else {
            assert(views(out@) =~= kept_jobs(done.take(j + 1)));
        }
        j = j + 1;
    }
    assert(done.take(done.len() as int) =~= done);
    out
}

impl Scheduler {
    /// A scheduler with no jobs that reads the system clock.
    pub fn new() -> (r: Scheduler)
        ensures
            r@.jobs == Seq::<JobView>::empty(),
            r@.clock == Clock::Real,
    {
        let r = Scheduler { jobs: Vec::new(), clock: Clock::Real };
        assert(r@.jobs =~= Seq::<JobView>::empty());
        r
    }

    /// A scheduler with no jobs whose clock stands at `start` until moved
    /// with `add_duration`.
    pub fn with_mock_time(start: Timestamp) -> (r: Scheduler)
        ensures
            r@.jobs == Seq::<JobView>::empty(),
            r@.clock == Clock::Mock(start),
    {
        let r = Scheduler { jobs: Vec::new(), clock: Clock::Mock(start) };
        assert(r@.jobs =~= Seq::<JobView>::empty());
        r
    }

    /// The current time.
    pub fn now(&self) -> (r: Result<Timestamp>)
        ensures
            match r {
                Ok(t) => reads(self@.clock, t),
                Err(e) => self@.clock == Clock::Real && e == Error::TimestampOutOfRange,
            },
    {
        match self.clock.now() {
            Some(t) => Ok(t),
            None => Err(Error::TimestampOutOfRange),
        }
    }

    /// Moves a fixed clock forward by `seconds`.
    pub fn add_duration(&mut self, seconds: i64) -> (r: Result<()>)
        requires
            old(self)@.clock is Mock,
        ensures
            final(self)@.jobs == old(self)@.jobs,
            match old(self)@.clock {
                Clock::Mock(t) => if crate::time::in_range(t@ + seconds) {
                    r is Ok && final(self)@.clock == Clock::Mock(Timestamp::spec_from(t@ + seconds))
                } else {
                    r == Err::<(), Error>(Error::TimestampOutOfRange) && final(self)@.clock
                        == old(self)@.clock
                },
                Clock::Real => false,
            },
    {
        match self.clock {
            Clock::Mock(t) => match t.checked_add_seconds(seconds) {
                Some(moved) => {
                    proof {
                        Timestamp::lemma_from_view(moved);
                    }
                    self.clock = Clock::Mock(moved);
                    Ok(())
                },
                None => Err(Error::TimestampOutOfRange),
            },
            Clock::Real => Ok(()),
        }
    }

    /// Appends a registered job.
    pub(crate) fn add_job(&mut self, job: Job)
        ensures
            final(self)@ == (SchedulerView { jobs: old(self)@.jobs.push(job@), ..old(self)@ }),
    {
        self.jobs.push(job);
        assert(views(self.jobs@) =~= views(old(self).jobs@).push(job@));
    }

    /// Orders the jobs by next run, keeping the order of jobs that run at the
    /// same time.
    fn sort_jobs(&mut self)
        requires
            old(self)@.wf(),
        ensures
            final(self)@.jobs == sorted_by_next_run(old(self)@.jobs),
            final(self)@.clock == old(self)@.clock,
            final(self)@.wf(),
    {
        let ghost start = self@.jobs;
        let mut rest: Vec<Job> = Vec::new();
        core::mem::swap(&mut rest, &mut self.jobs);
        let mut out: Vec<Job> = Vec::new();
        assert(views(out@) + sorted_by_next_run(views(rest@)) =~= sorted_by_next_run(start));
        assert forall|k: int| 0 <= k < rest@.len() implies (#[trigger] rest@[k])@.wf() by {
            assert(views(rest@)[k] == rest@[k]@);
        }
        while rest.len() > 0
            invariant
                sorted_by_next_run(start) == views(out@) + sorted_by_next_run(views(rest@)),
                forall|k: int| 0 <= k < rest@.len() ==> (#[trigger] rest@[k])@.wf(),
                forall|k: int| 0 <= k < out@.len() ==> (#[trigger] out@[k])@.wf(),
                self.clock == old(self).clock,
            decreases rest@.len(),
        {
            let i = first_min_index(&rest);
            let ghost s = views(rest@);
            proof {
                let c = choose|c: int| is_first_min(s, c);
                lemma_first_min_unique(s, c, i as int);
            }
            let ghost out_before = views(out@);
            let job = rest.remove(i);
            assert(views(rest@) =~= s.remove(i as int));
            out.push(job);
            assert(views(out@) + sorted_by_next_run(views(rest@)) =~= out_before + (seq![
                s[i as int],
            ] + sorted_by_next_run(s.remove(i as int))));
        }
        assert(sorted_by_next_run(views(rest@)) =~= Seq::<JobView>::empty());
        assert(views(out@) =~= sorted_by_next_run(start));
        self.jobs = out;
    }

    /// Runs, at `now`, every job that is due, in order of next run; then
    /// drops the jobs that were cancelled. On the first error the poll stops
    /// and the error is returned; jobs not reached yet wait for the next
    /// poll.
    #[verifier::rlimit(40)]
    pub fn run_pending_at(&mut self, now: Timestamp) -> (r: Result<()>)
        requires
            old(self)@.wf(),
        ensures
            final(self)@.clock == old(self)@.clock,
            final(self)@.wf(),
            exists|draws: Seq<u32>|
                #[trigger] poll_gives(
                    sorted_by_next_run(old(self)@.jobs),
                    now,
                    draws,
                    r,
                    final(self)@.jobs,
                ),
    {
        self.sort_jobs();
        let ghost s = self@.jobs;
        let mut rest: Vec<Job> = Vec::new();
        core::mem::swap(&mut rest, &mut self.jobs);
        let mut processed: Vec<Job> = Vec::new();
        let mut keep: Vec<bool> = Vec::new();
        let ghost mut done: Seq<(JobView, bool)> = seq![];
        let ghost mut draws: Seq<u32> = Seq::new(s.len(), |i: int| s[i].interval);
        let mut i: usize = 0;
        assert(views(rest@) =~= s.skip(0));
        assert forall|k: int| 0 <= k < rest@.len() implies (#[trigger] rest@[k])@.wf() by {
            assert(views(rest@)[k] == rest@[k]@);
        }
        while rest.len() > 0
            invariant
                s == sorted_by_next_run(old(self)@.jobs),
                i + rest@.len() == s.len(),
                views(rest@) == s.skip(i as int),
                processed@.len() == i,
                keep@.len() == i,
                done.len() == i,
                forall|k: int|
                    0 <= k < i ==> (#[trigger] done[k]).0 == processed@[k]@ && done[k].1
                        == keep@[k],
                draws.len() == s.len(),
                forall|k: int| 0 <= k < s.len() ==> valid_draw(s[k], #[trigger] draws[k]),
                poll_prefix(s, now, draws, i as int) == Ok::<
                    Seq<(JobView, bool)>,
                    (Error, Seq<JobView>, int),
                >(done),
                forall|k: int| 0 <= k < rest@.len() ==> (#[trigger] rest@[k])@.wf(),
                forall|k: int| 0 <= k < processed@.len() ==> (#[trigger] processed@[k])@.wf(),
                self.clock == old(self).clock,
                self.jobs@.len() == 0,
            decreases rest@.len(),
        {
            let ghost rest_before = rest@;
            let mut job = rest.remove(0);
            assert(views(rest_before)[0] == rest_before[0]@);
            assert(s.skip(i as int)[0] == s[i as int]);
            assert(job@ == s[i as int]);
            assert forall|k: int| 0 <= k < rest@.len() implies views(rest@)[k] == s.skip(i + 1)[k] by {
                assert(rest@[k] == rest_before[k + 1]);
                assert(views(rest_before)[k + 1] == rest_before[k + 1]@);
                assert(s.skip(i as int)[k + 1] == s.skip(i + 1)[k]);
            }
            assert(views(rest@) =~= s.skip(i + 1));
            if job.should_run(now) {
                let drawn = job.draw_interval();
                proof {
                    let old_draws = draws;
                    draws = draws.update(i as int, drawn);
                    lemma_poll_prefix_draws(s, now, old_draws, draws, i as int);
                    assert forall|k: int| 0 <= k < s.len() implies valid_draw(
                        s[k],
                        #[trigger] draws[k],
                    ) by {
                        if k != i {
                            assert(draws[k] == old_draws[k]);
                        }
                    }
                }
                match job.execute_with(now, drawn) {
                    Ok(k) => {
                        processed.push(job);
                        keep.push(k);
                        proof {
                            done = done.push((job@, k));
                        }
                    },
                    Err(e) => {
                        let ghost reached = kept_jobs(done).push(job@);
                        let mut out = retain_kept(processed, &keep, Ghost(done));
                        out.push(job);
                        assert(views(out@) =~= reached);
                        out.append(&mut rest);
                        proof {
                            lemma_poll_prefix_error_stays(
                                s,
                                now,
                                draws,
                                i + 1,
                                s.len() as int,
                            );
                        }
                        assert(views(out@) =~= reached + s.skip(i + 1));
                        self.jobs = out;
                        assert(poll_gives(s, now, draws, Err(e), self@.jobs));
                        return Err(e);
                    },
                }
            } else {
                processed.push(job);
                keep.push(true);
                proof {
                    done = done.push((job@, true));
                }
            }
            i = processed.len();
        }
        let out = retain_kept(processed, &keep, Ghost(done));
        self.jobs = out;
        assert(poll_gives(s, now, draws, Ok(()), self@.jobs));
        Ok(())
    }

    /// Runs every job that is due now. See `run_pending_at`.
    pub fn run_pending(&mut self) -> (r: Result<()>)
        requires
            old(self)@.wf(),
        ensures
            final(self)@.clock == old(self)@.clock,
            final(self)@.wf(),
            old(self)@.clock == Clock::Real && r == Err::<(), Error>(Error::TimestampOutOfRange)
                && final(self)@ == old(self)@ || exists|now: Timestamp, draws: Seq<u32>|
                reads(old(self)@.clock, now) && #[trigger] poll_gives(
                    sorted_by_next_run(old(self)@.jobs),
                    now,
                    draws,
                    r,
                    final(self)@.jobs,
                ),
    {
        let now = self.now()?;
        self.run_pending_at(now)
    }

    /// Runs the job at `index` at `now`, whether due or not, and reschedules
    /// it; a cancelled job stays in place. This is one step of running every
    /// job on demand.
    pub fn run_job_at(&mut self, index: usize, now: Timestamp) -> (r: Result<bool>)
        requires
            old(self)@.wf(),
            index < old(self)@.jobs.len(),
        ensures
            final(self)@.clock == old(self)@.clock,
            final(self)@.wf(),
            exists|drawn: u32|
                valid_draw(old(self)@.jobs[index as int], drawn) && {
                    let (res, after) = #[trigger] executed(
                        old(self)@.jobs[index as int],
                        now,
                        drawn,
                    );
                    r == res && final(self)@.jobs == old(self)@.jobs.update(index as int, after)
                },
    {
        let ghost start = self@.jobs;
        let mut job = self.jobs.remove(index);
        assert(start[index as int] == job@);
        assert(job@.wf());
        let r = job.execute(now);
        self.jobs.insert(index, job);
        let ghost after = job@;
        assert(self@.jobs =~= start.update(index as int, after));
        assert forall|k: int| 0 <= k < self@.jobs.len() implies #[trigger] self@.jobs[k].wf() by {
            if k != index {
                assert(self@.jobs[k] == start[k]);
            }
        }
        r
    }

    /// The jobs carrying `tag`, or all jobs when no tag is given.
    pub fn get_jobs(&self, tag: Option<Tag>) -> (r: Vec<&Job>)
        ensures
            r@.map_values(|j: &Job| j@) == match tag {
                Some(t) => self@.jobs.filter(|v: JobView| v.has_tag(t@)),
                None => self@.jobs,
            },
    {
        let mut out: Vec<&Job> = Vec::new();
        let mut i: usize = 0;
        while i < self.jobs.len()
            invariant
                0 <= i <= self.jobs@.len(),
                out@.map_values(|j: &Job| j@) == match tag {
                    Some(t) => self@.jobs.take(i as int).filter(|v: JobView| v.has_tag(t@)),
                    None => self@.jobs.take(i as int),
                },
            decreases self.jobs@.len() - i,
        {
            let job = &self.jobs[i];
            assert(self@.jobs.take(i + 1).drop_last() =~= self@.jobs.take(i as int));
            assert(self@.jobs[i as int] == job@);
            assert(self@.jobs.take(i + 1).last() == job@);
            let wanted = match &tag {
                Some(t) => job.has_tag(t.as_str()),
                None => true,
            };
            let ghost pre = out@.map_values(|j: &Job| j@);
            if wanted {
                out.push(job);
                assert(out@.map_values(|j: &Job| j@) =~= pre.push(job@));
            }
            proof {
                match tag {
                    Some(ref t) => lemma_filter_take(self@.jobs, i as int, |v: JobView| v.has_tag(t@)),
                    None => {},
                }
            }
            i = i + 1;
        }
        assert(self@.jobs.take(self.jobs@.len() as int) =~= self@.jobs);
        out
    }

    /// Drops the jobs carrying `tag`, or all jobs when no tag is given. The
    /// jobs that stay are left as they were.
    pub fn clear(&mut self, tag: Option<Tag>)
        requires
            old(self)@.wf(),
        ensures
            final(self)@.clock == old(self)@.clock,
            final(self)@.wf(),
            final(self)@.jobs == match tag {
                Some(t) => old(self)@.jobs.filter(|v: JobView| !v.has_tag(t@)),
                None => Seq::<JobView>::empty(),
            },
    {
        let ghost start = self@.jobs;
        let mut rest: Vec<Job> = Vec::new();
        core::mem::swap(&mut rest, &mut self.jobs);
        match tag {
            None => {
                assert(self@.jobs =~= Seq::<JobView>::empty());
            },
            Some(t) => {
                let mut out: Vec<Job> = Vec::new();
                let mut i: usize = 0;
                let n = rest.len();
                assert(views(rest@) =~= start.skip(0));
                while rest.len() > 0
                    invariant
                        views(rest@) == start.skip(i as int),
                        i + rest@.len() == start.len(),
                        start.len() == n,
                        views(out@) == start.take(i as int).filter(|v: JobView| !v.has_tag(t@)),
                        forall|k: int| 0 <= k < out@.len() ==> (#[trigger] out@[k])@.wf(),
                        forall|k: int| 0 <= k < start.len() ==> (#[trigger] start[k]).wf(),
                        self.clock == old(self).clock,
                    decreases rest@.len(),
                {
                    let ghost rest_before = rest@;
                    let job = rest.remove(0);
                    assert(views(rest_before)[0] == rest_before[0]@);
                    assert(start.skip(i as int)[0] == start[i as int]);
                    assert forall|k: int| 0 <= k < rest@.len() implies views(rest@)[k] == start.skip(
                        i + 1,
                    )[k] by {
                        assert(rest@[k] == rest_before[k + 1]);
                        assert(views(rest_before)[k + 1] == rest_before[k + 1]@);
                        assert(start.skip(i as int)[k + 1] == start.skip(i + 1)[k]);
                    }
                    assert(views(rest@) =~= start.skip(i + 1));
                    assert(start.take(i + 1).drop_last() =~= start.take(i as int));
                    assert(start.take(i + 1).last() == job@);
                    let ghost pre = views(out@);
                    proof {
                        lemma_filter_take(start, i as int, |v: JobView| !v.has_tag(t@));
                    }
                    if !job.has_tag(t.as_str()) {
                        out.push(job);
                        assert(views(out@) =~= pre.push(job@));
                    }
                    i = i + 1;
                }
                assert(start.take(i as int) =~= start);
                self.jobs = out;
            },
        }
    }

    /// The next run of the job that comes first, if there is any job.
    pub fn next_run(&self) -> (r: Option<Timestamp>)
        ensures
            r == earliest_run(self@.jobs),
    {
        if self.jobs.len() == 0 {
            None
        } else {
            let i = first_min_index(&self.jobs);
            proof {
                let c = choose|c: int| is_first_min(self@.jobs, c);
                lemma_first_min_unique(self@.jobs, c, i as int);
            }
            self.jobs[i].next_run()
        }
    }

    /// Whole seconds from now until the next run, if there is any job.
    pub fn idle_seconds(&self) -> (r: Result<Option<i64>>)
        ensures
            match r {
                Ok(o) => exists|now: Timestamp|
                    #[trigger] reads(self@.clock, now) && o == match earliest_run(self@.jobs) {
                        Some(next) => Some((next@ - now@) as i64),
                        None => None,
                    },
                Err(e) => self@.clock == Clock::Real && e == Error::TimestampOutOfRange,
            },
    {
        let now = self.now()?;
        match self.next_run() {
            Some(next) => Ok(Some(next.seconds_since(&now))),
            None => Ok(None),
        }
    }

    /// The job added last, if any.
    pub fn most_recent_job(&self) -> (r: Option<&Job>)
        ensures
            match r {
                Some(j) => self@.jobs.len() > 0 && j@ == self@.jobs.last(),
                None => self@.jobs.len() == 0,
            },
    {
        if self.jobs.len() == 0 {
            None
        } else {
            Some(&self.jobs[self.jobs.len() - 1])
        }
    }
}

} // verus!
