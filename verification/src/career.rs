//! The job board of the scheduler: the scheduled jobs, ordered by their
//! next execution time, and the bookkeeping of jobs marked for deletion.
//!
//! Times are milliseconds since the Unix epoch (UTC). A job carries a command
//! of any type `C`; running a command and producing the upcoming times of
//! its schedule are left to the caller, through the closures passed to
//! `JobBoard::try_run_next`.
use vstd::prelude::*;

use std::cmp::Ordering;

use crate::utils::map::{base, SimpleMap};

pub mod error;

use self::error::DescheduleError;

verus! {

/// When a job stops being scheduled: after a number of runs, or at a date.
#[derive(Clone, Copy, Debug, PartialEq, Eq, Structural)]
pub enum Limit {
    NumTimes(u64),
    EndDate(i64),
}

/// What is left of a job's schedule: every upcoming time, a number of
/// further times, or the times before a last date (exclusive).
#[derive(Clone, Copy, Debug, PartialEq, Eq, Structural)]
pub enum ScheduleKind {
    Infinite,
    Finite(u64),
    Condition(i64),
}

/// A scheduled job: its id, the next time it runs (none once it is done),
/// what is left of its schedule, and its command.
#[derive(Debug)]
pub struct Job<C> {
    pub id: usize,
    pub next_exec_time: Option<i64>,
    pub schedule: ScheduleKind,
    pub command: C,
}

/// A job handed out to be run: its id and what running its command gave.
#[derive(Debug)]
pub struct RunJob<R> {
    pub id: usize,
    pub command: R,
}

/// Whether job key `(a, a_id)` comes before or equals `(b, b_id)`: no time
/// comes before any time, earlier times first, then smaller ids.
pub open spec fn spec_key_le(a: Option<i64>, a_id: usize, b: Option<i64>, b_id: usize) -> bool {
    match (a, b) {
        (None, None) => a_id <= b_id,
        (None, Some(_)) => true,
        (Some(_), None) => false,
        (Some(x), Some(y)) => x < y || (x == y && a_id <= b_id),
    }
}

/// Jobs are ordered by their next time, earliest first: between two jobs
/// with times, the one with the earlier time comes strictly first; a job
/// with no time left comes before every job with a time (so that spent
/// jobs are cleared first); jobs with equal times, or both with none, go by
/// the smaller id. The order is total.
pub proof fn law_key_earliest_first(x: i64, y: i64, i: usize, j: usize)
    ensures
        x < y ==> spec_key_le(Some(x), i, Some(y), j) && !spec_key_le(Some(y), j, Some(x), i),
        spec_key_le(None, i, Some(y), j) && !spec_key_le(Some(y), j, None, i),
        spec_key_le(Some(x), i, Some(x), j) <==> i <= j,
        spec_key_le(None, i, None, j) <==> i <= j,
        spec_key_le(Some(x), i, Some(y), j) || spec_key_le(Some(y), j, Some(x), i),
{
}

/// The job that comes first on a board has the earliest time: when it has
/// a time, every job of the board has one, no earlier; when it has none,
/// it has the smallest id among the jobs with no time.
pub proof fn law_first_is_earliest<C>(jobs: Seq<Job<C>>, i: int)
    requires
        spec_is_first(jobs, i),
    ensures
        jobs[i].next_exec_time matches Some(x) ==> forall|k: int|
            0 <= k < jobs.len() ==> (#[trigger] jobs[k].next_exec_time matches Some(y) && x <= y),
        jobs[i].next_exec_time is None ==> forall|k: int|
            0 <= k < jobs.len() && #[trigger] jobs[k].next_exec_time is None ==> jobs[i].id <= jobs[k].id,
{
    assert forall|k: int| 0 <= k < jobs.len() implies spec_key_le(
        jobs[i].next_exec_time,
        jobs[i].id,
        #[trigger] jobs[k].next_exec_time,
        jobs[k].id,
    ) by {}
}

impl ScheduleKind {
    /// Whether the next read pulls a time from the schedule: always, but
    /// for a finite schedule with no times left.
    pub open spec fn spec_pulls(self) -> bool {
        !(self == ScheduleKind::Finite(0))
    }

    /// The next time given when `candidate` is what the schedule yields
    /// (when it is pulled): none for a spent finite schedule, the time
    /// before the last date only, else the time itself.
    pub open spec fn spec_next(self, candidate: Option<i64>) -> Option<i64> {
        match self {
            ScheduleKind::Infinite => candidate,
            ScheduleKind::Finite(n) => if n == 0 {
                None
            } else {
                candidate
            },
            ScheduleKind::Condition(last) => match candidate {
                Some(t) => if t < last {
                    Some(t)
                } else {
                    None
                },
                None => None,
            },
        }
    }

    /// What is left of the schedule after a read.
    pub open spec fn spec_after_next(self) -> ScheduleKind {
        match self {
            ScheduleKind::Finite(n) => if n == 0 {
                ScheduleKind::Finite(0)
            } else {
                ScheduleKind::Finite((n - 1) as u64)
            },
            _ => self,
        }
    }

    /// The schedule left for a job with `limit`, once its first time was
    /// read: `n - 1` more times (none for 0), the times before the date, or
    /// every time.
    pub open spec fn spec_of_limit(limit: Option<Limit>) -> ScheduleKind {
        match limit {
            Some(Limit::NumTimes(n)) => ScheduleKind::Finite(if n == 0 { 0 } else { (n - 1) as u64 }),
            Some(Limit::EndDate(last)) => ScheduleKind::Condition(last),
            None => ScheduleKind::Infinite,
        }
    }
}

/// What is left of schedule `s` after `k` reads.
pub open spec fn spec_schedule_after(s: ScheduleKind, k: nat) -> ScheduleKind
    decreases k,
{
    if k == 0 {
        s
    } else {
        spec_schedule_after(s, (k - 1) as nat).spec_after_next()
    }
}

/// A finite schedule of `m` further times has `m - j` left after `j` reads
/// (none once they are used up).
proof fn lemma_finite_after(m: u64, j: nat)
    ensures
        spec_schedule_after(ScheduleKind::Finite(m), j) == ScheduleKind::Finite(
            if j <= m { (m - j) as u64 } else { 0 },
        ),
    decreases j,
{
    if j > 0 {
        lemma_finite_after(m, (j - 1) as nat);
    }
}

/// A job made with the limit `NumTimes(n)` (n at least 1) runs `n` times:
/// its first time, then, when every read of its schedule yields a time,
/// the time of its `k`-th advance exists exactly when `k < n`. A job with
/// no limit keeps every time it reads, and one with `EndDate(last)` only
/// times before `last`, whatever its schedule yields, however many times it
/// was advanced; a spent schedule stays spent and yields no time.
pub proof fn law_job_limits(n: u64, k: nat, t: i64, last: i64)
    requires
        n >= 1,
        k >= 1,
    ensures
        spec_schedule_after(ScheduleKind::spec_of_limit(Some(Limit::NumTimes(n))), (k - 1) as nat).spec_next(
            Some(t),
        ) is Some <==> k < n,
        spec_schedule_after(ScheduleKind::spec_of_limit(None), (k - 1) as nat).spec_next(Some(t)) == Some(t),
        spec_schedule_after(ScheduleKind::spec_of_limit(Some(Limit::EndDate(last))), (k - 1) as nat).spec_next(
            Some(t),
        ) == (if t < last { Some(t) } else { None::<i64> }),
        spec_schedule_after(ScheduleKind::Finite(0), k) == ScheduleKind::Finite(0),
        forall|c: Option<i64>|
            #[trigger] spec_schedule_after(ScheduleKind::spec_of_limit(Some(Limit::EndDate(last))), k).spec_next(c)
                matches Some(u) ==> u < last,
        forall|c: Option<i64>| #[trigger] spec_schedule_after(ScheduleKind::Finite(0), k).spec_next(c) is None,
{
    lemma_fixed_after(ScheduleKind::Condition(last), k);
    lemma_finite_after((n - 1) as u64, (k - 1) as nat);
    lemma_finite_after(0, k);
    lemma_fixed_after(ScheduleKind::Infinite, (k - 1) as nat);
    lemma_fixed_after(ScheduleKind::Condition(last), (k - 1) as nat);
}

/// Reading a schedule with no count leaves it as it was.
proof fn lemma_fixed_after(s: ScheduleKind, j: nat)
    requires
        !(s is Finite),
    ensures
        spec_schedule_after(s, j) == s,
    decreases j,
{
    if j > 0 {
        lemma_fixed_after(s, (j - 1) as nat);
    }
}

/// The job `job` after `advance_with(pulled)`.
pub open spec fn spec_advanced<C>(job: Job<C>, pulled: Option<i64>) -> Job<C> {
    Job { schedule: job.schedule.spec_after_next(), next_exec_time: job.schedule.spec_next(pulled), ..job }
}

/// The job `job` after `advance_with` was called with each value of
/// `pulled` in turn.
pub open spec fn spec_advanced_all<C>(job: Job<C>, pulled: Seq<Option<i64>>) -> Job<C>
    decreases pulled.len(),
{
    if pulled.len() == 0 {
        job
    } else {
        spec_advanced(spec_advanced_all(job, pulled.drop_last()), pulled.last())
    }
}

/// The job made by `Job::with_limit(id, command, first, limit)`.
pub open spec fn spec_new_job<C>(id: usize, command: C, first: Option<i64>, limit: Option<Limit>) -> Job<C> {
    Job { id, next_exec_time: first, schedule: ScheduleKind::spec_of_limit(limit), command }
}

/// After `k` advances the schedule has been read `k` times, and the next
/// time is the last read's.
proof fn lemma_advanced_all<C>(job: Job<C>, pulled: Seq<Option<i64>>)
    ensures
        spec_advanced_all(job, pulled).schedule == spec_schedule_after(job.schedule, pulled.len()),
        spec_advanced_all(job, pulled).id == job.id,
        pulled.len() > 0 ==> spec_advanced_all(job, pulled).next_exec_time == spec_schedule_after(
            job.schedule,
            (pulled.len() - 1) as nat,
        ).spec_next(pulled.last()),
    decreases pulled.len(),
{
    if pulled.len() > 0 {
        lemma_advanced_all(job, pulled.drop_last());
    }
}

/// A job made by `Job::with_limit` and advanced `k` times (k at least 1),
/// each read of its schedule yielding a time: with no limit it always has
/// a next time; with `NumTimes(n)` (n at least 1) it has one exactly while
/// `k < n`, so it runs `n` times in all; with `EndDate(last)` every next
/// time it gets is before `last`, whatever its schedule yielded.
pub proof fn law_job_advances<C>(id: usize, command: C, first: Option<i64>, limit: Option<Limit>, pulled: Seq<Option<i64>>)
    requires
        pulled.len() >= 1,
        forall|i: int| 0 <= i < pulled.len() ==> #[trigger] pulled[i] is Some,
    ensures
        ({
            let job = spec_advanced_all(spec_new_job(id, command, first, limit), pulled);
            &&& limit is None ==> job.next_exec_time == pulled.last()
            &&& (limit matches Some(Limit::NumTimes(n)) && n >= 1) ==> (job.next_exec_time is Some <==> pulled.len()
                < limit->Some_0->NumTimes_0)
            &&& (limit matches Some(Limit::EndDate(last))) ==> (job.next_exec_time is Some
                ==> job.next_exec_time->Some_0 < limit->Some_0->EndDate_0)
        }),
{
    let j0 = spec_new_job(id, command, first, limit);
    lemma_advanced_all(j0, pulled);
    let k = pulled.len();
    let t = pulled.last().unwrap();
    match limit {
        None => {
            law_job_limits(1, k, t, 0);
        },
        Some(Limit::NumTimes(n)) => {
            if n >= 1 {
                law_job_limits(n, k, t, 0);
            }
        },
        Some(Limit::EndDate(last)) => {
            law_job_limits(1, k, t, last);
        },
    }
}

impl<C> Job<C> {
    /// A job with `id` and `job_fn`, whose schedule first yields `first`,
    /// limited by `limit`.
    pub fn with_limit(id: usize, job_fn: C, first: Option<i64>, limit: Option<Limit>) -> (r: Self)
        ensures
            r.id == id,
            r.command == job_fn,
            r.next_exec_time == first,
            r.schedule == ScheduleKind::spec_of_limit(limit),
    {
        Job {
            id,
            next_exec_time: first,
            command: job_fn,
            schedule: match limit {
                Some(Limit::NumTimes(n)) => ScheduleKind::Finite(n.saturating_sub(1)),
                Some(Limit::EndDate(last_date)) => ScheduleKind::Condition(last_date),
                None => ScheduleKind::Infinite,
            },
        }
    }

    /// Returns the next execution time of this job. This will always
    /// occur if the job was created with no limit.
    /// Returns `None` if the job reaches the limit that was specified with either
    /// `Limit::EndDate` or `Limit::NumTimes`.
    pub fn next_exec_time(&self) -> (r: Option<i64>)
        ensures
            r == self.next_exec_time,
    {
        self.next_exec_time
    }

    /// Returns the id given to this job.
    pub fn id(&self) -> (r: usize)
        ensures
            r == self.id,
    {
        self.id
    }

    /// Moves the schedule of this job on by one read, given `pulled`, what
    /// the schedule yielded when it was read (see `ScheduleKind::spec_next`;
    /// ignored when the schedule has no times left).
    pub fn advance_with(&mut self, pulled: Option<i64>)
        ensures
            final(self).id == old(self).id,
            final(self).command == old(self).command,
            final(self).schedule == old(self).schedule.spec_after_next(),
            final(self).next_exec_time == old(self).schedule.spec_next(pulled),
            *final(self) == spec_advanced(*old(self), pulled),
    {
        let next = match self.schedule {
            ScheduleKind::Infinite => pulled,
            ScheduleKind::Finite(n) => {
                if n != 0 {
                    self.schedule = ScheduleKind::Finite(n - 1);
                    pulled
                } else {
                    None
                }
            },
            ScheduleKind::Condition(last_date) => match pulled {
                Some(t) => if t < last_date {
                    Some(t)
                } else {
                    None
                },
                None => None,
            },
        };
        self.next_exec_time = next;
    }

    /// Advances the schedule of this job to its next time, if it exists:
    /// when the schedule still has times, `pull` is called on the job's
    /// command and yields the schedule's next time, which becomes the job's
    /// next time (see `ScheduleKind::spec_next`); when it has none, `pull`
    /// is not called and the job has no next time.
    pub fn advance_schedule<F: FnOnce(&mut C) -> Option<i64>>(&mut self, pull: F)
        requires
            old(self).schedule.spec_pulls() ==> forall|c: &mut C| call_requires(pull, (c,)),
        ensures
            final(self).id == old(self).id,
            final(self).schedule == old(self).schedule.spec_after_next(),
            !old(self).schedule.spec_pulls() ==> final(self).next_exec_time is None && final(self).command
                == old(self).command,
            old(self).schedule.spec_pulls() ==> exists|c: &mut C, t: Option<i64>|
                #![trigger call_ensures(pull, (c,), t)]
                *c == old(self).command && *final(c) == final(self).command && call_ensures(pull, (c,), t)
                    && final(self).next_exec_time == old(self).schedule.spec_next(t),
    {
        let pulls = match self.schedule {
            ScheduleKind::Finite(n) => n != 0,
            _ => true,
        };
        let pulled = if pulls {
            let c = &mut self.command;
            pull(c)
        } else {
            None
        };
        self.advance_with(pulled);
    }

    /// Whether this job's key comes before or equals `other`'s (see
    /// `spec_key_le`).
    pub fn key_le(&self, other: &Job<C>) -> (r: bool)
        ensures
            r == spec_key_le(self.next_exec_time, self.id, other.next_exec_time, other.id),
    {
        match (self.next_exec_time, other.next_exec_time) {
            (None, None) => self.id <= other.id,
            (None, Some(_)) => true,
            (Some(_), None) => false,
            (Some(x), Some(y)) => x < y || (x == y && self.id <= other.id),
        }
    }
}

/// How the time `a` compares to the time `b`.
pub open spec fn time_order(a: i64, b: i64) -> Ordering {
    if a < b {
        Ordering::Less
    } else if a == b {
        Ordering::Equal
    } else {
        Ordering::Greater
    }
}

/// How the id `a` compares to the id `b`.
pub open spec fn id_order(a: usize, b: usize) -> Ordering {
    if a < b {
        Ordering::Less
    } else if a == b {
        Ordering::Equal
    } else {
        Ordering::Greater
    }
}

/// The order of two jobs by `Job::cmp`: a job with a time after one
/// without; by their times when both have one; by their ids when neither
/// has one or their times are equal.
pub open spec fn job_order(a: Option<i64>, a_id: usize, b: Option<i64>, b_id: usize) -> Ordering {
    match (a, b) {
        (Some(x), Some(y)) => if x == y {
            id_order(a_id, b_id)
        } else {
            time_order(x, y)
        },
        (None, None) => id_order(a_id, b_id),
        (Some(_), None) => Ordering::Greater,
        (None, Some(_)) => Ordering::Less,
    }
}

/// The order of two jobs by `Job::partial_cmp`: by their times (no time
/// first), then by their ids.
pub open spec fn job_partial_order(a: Option<i64>, a_id: usize, b: Option<i64>, b_id: usize) -> Ordering {
    match (a, b) {
        (Some(x), Some(y)) => if x == y {
            id_order(a_id, b_id)
        } else {
            time_order(x, y)
        },
        (None, None) => id_order(a_id, b_id),
        (Some(_), None) => Ordering::Greater,
        (None, Some(_)) => Ordering::Less,
    }
}

/// How `a` compares to `b`.
fn order_i64(a: i64, b: i64) -> (r: Ordering)
    ensures
        r == time_order(a, b),
{
    if a < b {
        Ordering::Less
    } else if a == b {
        Ordering::Equal
    } else {
        Ordering::Greater
    }
}

/// How `a` compares to `b`.
fn order_usize(a: usize, b: usize) -> (r: Ordering)
    ensures
        r == id_order(a, b),
{
    if a < b {
        Ordering::Less
    } else if a == b {
        Ordering::Equal
    } else {
        Ordering::Greater
    }
}

impl<C> Job<C> {
    /// A job only has two comparable features: its id and
    /// its next execution time. We compare the execution times
    /// first, but if both exec times are `None` or `Some` then
    /// we compare the id's and return that result. If `self` has
    /// no more execution times left, then return `Ordering::Less`,
    /// otherwise return `Ordering::Greater`.
    ///
    /// This is so the scheduler can sooner sift out the jobs that
    /// have already completed, leaving the queue filled with only
    /// available jobs.
    pub fn cmp(&self, other: &Job<C>) -> (r: Ordering)
        ensures
            r == job_order(self.next_exec_time, self.id, other.next_exec_time, other.id),
    {
        if self.next_exec_time.is_some() && other.next_exec_time.is_some() {
            let (x, y) = (self.next_exec_time.unwrap(), other.next_exec_time.unwrap());
            if x == y {
                order_usize(self.id, other.id)
            } else {
                order_i64(x, y)
            }
        } else if self.next_exec_time.is_none() && other.next_exec_time.is_none() {
            order_usize(self.id, other.id)
        } else if self.next_exec_time.is_some() {
            Ordering::Greater
        } else {
            Ordering::Less
        }
    }

    /// Whether both jobs have the same id and the same next execution time.
    pub fn eq(&self, other: &Job<C>) -> (r: bool)
        ensures
            r == (self.id == other.id && self.next_exec_time == other.next_exec_time),
    {
        self.id() == other.id() && match (self.next_exec_time, other.next_exec_time) {
            (Some(x), Some(y)) => x == y,
            (None, None) => true,
            _ => false,
        }
    }

    /// Compares the execution times (no time first), then the ids.
    pub fn partial_cmp(&self, other: &Job<C>) -> (r: Option<Ordering>)
        ensures
            r == Some(job_partial_order(self.next_exec_time, self.id, other.next_exec_time, other.id)),
    {
        let times = match (self.next_exec_time, other.next_exec_time) {
            (Some(x), Some(y)) => order_i64(x, y),
            (None, None) => Ordering::Equal,
            (Some(_), None) => Ordering::Greater,
            (None, Some(_)) => Ordering::Less,
        };
        match times {
            Ordering::Equal => Some(order_usize(self.id, other.id)),
            Ordering::Less => Some(Ordering::Less),
            Ordering::Greater => Some(Ordering::Greater),
        }
    }
}

/// The jobs of the scheduler, the id given to the next job, and the ids
/// of the jobs marked for deletion (`false`) or deleted (`true`).
///
/// The jobs are kept in a vector; the next job to run is the one whose key
/// (see `spec_key_le`) comes first.
#[derive(Debug)]
pub struct JobBoard<C> {
    pub next_id: usize,
    pub active_jobs: Vec<Job<C>>,
    pub scheduled_for_deletion: SimpleMap<bool>,
}

/// Whether the job at `i` of `jobs` has a key that comes first.
pub open spec fn spec_is_first<C>(jobs: Seq<Job<C>>, i: int) -> bool {
    &&& 0 <= i < jobs.len()
    &&& forall|k: int|
        0 <= k < jobs.len() ==> spec_key_le(jobs[i].next_exec_time, jobs[i].id, #[trigger] jobs[k].next_exec_time, jobs[k].id)
}

/// The position of a job whose key comes first.
fn first_job<C>(jobs: &Vec<Job<C>>) -> (r: usize)
    requires
        jobs@.len() > 0,
    ensures
        spec_is_first(jobs@, r as int),
{
    let mut best: usize = 0;
    let mut i: usize = 1;
    while i < jobs.len()
        invariant
            0 < i <= jobs@.len(),
            best < i,
            forall|k: int|
                0 <= k < i ==> spec_key_le(jobs@[best as int].next_exec_time, jobs@[best as int].id, #[trigger] jobs@[k].next_exec_time, jobs@[k].id),
        decreases jobs@.len() - i,
    {
        if !jobs[best].key_le(&jobs[i]) {
            best = i;
        }
        i = i + 1;
    }
    best
}

impl<C> JobBoard<C> {
    /// A board with no job and no deletion, with room for 4 jobs.
    pub fn new() -> (r: Self)
        ensures
            r.next_id == 0,
            r.active_jobs@.len() == 0,
            r.scheduled_for_deletion.base.slots().len() == 0,
    {
        Self::with_capacity(4)
    }

    /// A board with no job and no deletion, with room for `capacity` jobs.
    pub fn with_capacity(capacity: usize) -> (r: Self)
        ensures
            r.next_id == 0,
            r.active_jobs@.len() == 0,
            r.scheduled_for_deletion.base.slots().len() == 0,
    {
        JobBoard {
            next_id: 0,
            active_jobs: Vec::with_capacity(capacity),
            scheduled_for_deletion: SimpleMap::with_capacity(capacity),
        }
    }

    /// The id for the next job: the board's next id, which is checked to
    /// have a successor but is not moved on.
    fn next_id(&mut self) -> (r: usize)
        requires
            old(self).next_id < usize::MAX,
        ensures
            r == old(self).next_id,
            *final(self) == *old(self),
    {
        let id = self.next_id;
        let _ = self.next_id.checked_add(1);
        id
    }

    /// Adds a job running `job`, whose schedule first yields `first`,
    /// limited by `limit`, and returns its id.
    pub fn schedule(&mut self, first: Option<i64>, limit: Option<Limit>, job: C) -> (r: usize)
        requires
            old(self).next_id < usize::MAX,
        ensures
            r == old(self).next_id,
            final(self).next_id == old(self).next_id,
            final(self).scheduled_for_deletion == old(self).scheduled_for_deletion,
            final(self).active_jobs@.len() == old(self).active_jobs@.len() + 1,
            final(self).active_jobs@.drop_last() == old(self).active_jobs@,
            final(self).active_jobs@.last() == (Job {
                id: r,
                next_exec_time: first,
                schedule: ScheduleKind::spec_of_limit(limit),
                command: job,
            }),
    {
        let id = self.next_id();
        let job = Job::with_limit(id, job, first, limit);
        self.active_jobs.push(job);
        id
    }

    /// The next time a job should run: that of the job that comes first
    /// (`Some(None)` when it has no time left, which the caller reads as
    /// "now"), or `None` when there is no job.
    pub fn peek_next(&self) -> (r: Option<Option<i64>>)
        ensures
            r is None <==> self.active_jobs@.len() == 0,
            r matches Some(t) ==> exists|i: int|
                spec_is_first(self.active_jobs@, i) && #[trigger] self.active_jobs@[i].next_exec_time == t,
    {
        if self.active_jobs.len() == 0 {
            None
        } else {
            let i = first_job(&self.active_jobs);
            Some(self.active_jobs[i].next_exec_time())
        }
    }
}

/// Whether running the job at `i` would fail in the bookkeeping of
/// `try_run_next`: a job with no time left whose id has a slot in the
/// deletion map that holds nothing (the map cannot mark it), or whose id
/// leaves no room for its slot.
pub open spec fn spec_cannot_mark<C>(jobs: Seq<Job<C>>, deletion: base::SimpleMap<bool>, i: int) -> bool {
    let job = jobs[i];
    &&& deletion.spec_get(job.id as int) is None
    &&& job.next_exec_time is None
    &&& (job.id < deletion.slots().len() || job.id == usize::MAX)
}

impl<C> JobBoard<C> {
    /// Attempts to run the job that comes first. It is taken off the board;
    /// when it was marked for deletion it is recorded as deleted and
    /// nothing is run; when it has no time left it is recorded as deleted
    /// (`true` put in its slot) and nothing is run; else `call` makes its
    /// run from its command, its schedule moves on (`pull` yielding the
    /// schedule's next time), and it goes back on the board.
    pub fn try_run_next<R, F: FnOnce(&C) -> R, G: FnOnce(&mut C) -> Option<i64>>(&mut self, call: F, pull: G) -> (r:
        Option<RunJob<R>>)
        requires
            forall|i: int|
                spec_is_first(old(self).active_jobs@, i) ==> !spec_cannot_mark(
                    old(self).active_jobs@,
                    old(self).scheduled_for_deletion.base,
                    i,
                ),
            forall|c: &C| call_requires(call, (c,)),
            forall|c: &mut C| call_requires(pull, (c,)),
        ensures
            old(self).active_jobs@.len() == 0 ==> r is None && *final(self) == *old(self),
            old(self).active_jobs@.len() > 0 ==> exists|i: int|
                #[trigger] spec_is_first(old(self).active_jobs@, i) && {
                    let job = old(self).active_jobs@[i];
                    let rest = old(self).active_jobs@.remove(i);
                    let slots = old(self).scheduled_for_deletion.base.slots();
                    &&& final(self).next_id == old(self).next_id
                    &&& if old(self).scheduled_for_deletion.base.spec_get(job.id as int) is Some {
                        &&& r is None
                        &&& final(self).active_jobs@ == rest
                        &&& final(self).scheduled_for_deletion.base.slots() == slots.update(job.id as int, Some(true))
                    } else if job.next_exec_time is None {
                        &&& r is None
                        &&& final(self).active_jobs@ == rest
                        &&& final(self).scheduled_for_deletion.base.slots() == base::spec_insert_slots(
                            slots,
                            job.id as int,
                            true,
                        )
                    } else {
                        &&& r matches Some(run) && run.id == job.id && call_ensures(call, (&job.command,), run.command)
                        &&& final(self).scheduled_for_deletion == old(self).scheduled_for_deletion
                        &&& final(self).active_jobs@.len() == old(self).active_jobs@.len()
                        &&& final(self).active_jobs@.drop_last() == rest
                        &&& final(self).active_jobs@.last().id == job.id
                        &&& final(self).active_jobs@.last().schedule == job.schedule.spec_after_next()
                        &&& !job.schedule.spec_pulls() ==> final(self).active_jobs@.last().next_exec_time is None
                            && final(self).active_jobs@.last().command == job.command
                        &&& job.schedule.spec_pulls() ==> exists|c: &mut C, t: Option<i64>|
                            #![trigger call_ensures(pull, (c,), t)]
                            *c == job.command && *final(c) == final(self).active_jobs@.last().command
                                && call_ensures(pull, (c,), t) && final(self).active_jobs@.last().next_exec_time
                                == job.schedule.spec_next(t)
                    }
                },
    {
        if self.active_jobs.len() == 0 {
            return None;
        }
        let i = first_job(&self.active_jobs);
        let mut job = self.active_jobs.remove(i);
        let id = job.id();
        let deleted = match self.scheduled_for_deletion.get_mut(id) {
            Some(was_deleted) => {
                *was_deleted = true;
                true
            },
            None => false,
        };
        if deleted {
            None
        } else if job.next_exec_time().is_none() {
            let _ = self.scheduled_for_deletion.entry(id).and_modify(
                |was_deleted: &mut bool|
                    {
                        *was_deleted = true;
                    },
            ).or_insert(true);
            None
        } else {
            let command = call(&job.command);
            job.advance_schedule(pull);
            self.active_jobs.push(job);
            Some(RunJob { id, command })
        }
    }

    /// Marks the job `job_id` for deletion: it is deleted the next time it
    /// comes first. Fails when its slot in the deletion map already exists.
    pub fn deschedule(&mut self, job_id: usize) -> (r: Result<(), DescheduleError>)
        requires
            job_id < old(self).scheduled_for_deletion.base.slots().len() || job_id < usize::MAX,
        ensures
            final(self).next_id == old(self).next_id,
            final(self).active_jobs@ == old(self).active_jobs@,
            job_id < old(self).scheduled_for_deletion.base.slots().len() ==> {
                &&& r matches Err(DescheduleError::AlreadyScheduled(id)) && id == job_id
                &&& final(self).scheduled_for_deletion == old(self).scheduled_for_deletion
            },
            job_id >= old(self).scheduled_for_deletion.base.slots().len() ==> {
                &&& r is Ok
                &&& final(self).scheduled_for_deletion.base.slots() == base::spec_insert_slots(
                    old(self).scheduled_for_deletion.base.slots(),
                    job_id as int,
                    false,
                )
            },
    {
        if !self.scheduled_for_deletion.contains_key(job_id) {
            let _ = self.scheduled_for_deletion.insert(job_id, false);
            Ok(())
        } else {
            Err(DescheduleError::AlreadyScheduled(job_id))
        }
    }

    /// Removes every job and deletion mark, and gives ids from 0 again.
    pub fn clear(&mut self)
        ensures
            final(self).next_id == 0,
            final(self).active_jobs@.len() == 0,
            final(self).scheduled_for_deletion.base.slots().len() == 0,
    {
        self.active_jobs.clear();
        self.next_id = 0;
        self.scheduled_for_deletion.clear();
    }
}

} // verus!
