//! The decisions of the scheduler's clock: whether to sleep, and for how
//! long, or to run the next job. Times are milliseconds since the Unix
//! epoch (UTC).
use vstd::prelude::*;

use crate::career::{spec_is_first, spec_cannot_mark, spec_key_le, Job, JobBoard, RunJob};
use crate::utils::map::base;

verus! {

/// How long the clock sleeps when there is no job: an hour, in milliseconds.
pub const SLEEP_WITHOUT_JOBS_MS: u64 = 3_600_000;

/// What the clock does next: sleep for a number of milliseconds, or run a job.
#[derive(Debug)]
pub enum State<R> {
    Sleep(u64),
    Run(RunJob<R>),
}

/// The phase of the scheduler's clock.
#[derive(Clone, Copy, Debug, PartialEq, Eq, Structural)]
pub enum ClockPhase {
    Starting,
    Running,
    Pausing,
    Stopped,
}

/// Whether the clock counts as active: in the starting, running or pausing
/// phase, but not when stopped.
pub fn clock_active(phase: ClockPhase) -> (r: bool)
    ensures
        r == !(phase is Stopped),
{
    match phase {
        ClockPhase::Stopped => false,
        _ => true,
    }
}

/// Whether `try_run_next` can run on `jobs` (see its `requires`).
pub open spec fn spec_can_try<C>(jobs: JobBoard<C>) -> bool {
    forall|i: int|
        spec_is_first(jobs.active_jobs@, i) ==> !spec_cannot_mark(jobs.active_jobs@, jobs.scheduled_for_deletion.base, i)
}

/// Whether `determine` (and `JobBoard::try_run_next`) can run on `jobs`:
/// no job whose key comes first both has no time left and has an empty
/// slot in the deletion map (or an id that leaves no room for one).
pub fn can_try<C>(jobs: &JobBoard<C>) -> (r: bool)
    ensures
        r == spec_can_try(*jobs),
{
    let n = jobs.active_jobs.len();
    let mut i: usize = 0;
    while i < n
        invariant
            n == jobs.active_jobs@.len(),
            i <= n,
            forall|k: int|
                0 <= k < i ==> (spec_is_first(jobs.active_jobs@, k) ==> !spec_cannot_mark(
                    jobs.active_jobs@,
                    jobs.scheduled_for_deletion.base,
                    k,
                )),
        decreases n - i,
    {
        let job = &jobs.active_jobs[i];
        let mut first = true;
        let mut k: usize = 0;
        while k < n
            invariant
                n == jobs.active_jobs@.len(),
                i < n,
                k <= n,
                *job == jobs.active_jobs@[i as int],
                first == (forall|m: int|
                    0 <= m < k ==> spec_key_le(
                        jobs.active_jobs@[i as int].next_exec_time,
                        jobs.active_jobs@[i as int].id,
                        #[trigger] jobs.active_jobs@[m].next_exec_time,
                        jobs.active_jobs@[m].id,
                    )),
            decreases n - k,
        {
            if !job.key_le(&jobs.active_jobs[k]) {
                first = false;
            }
            k = k + 1;
        }
        if first {
            let id = job.id();
            let unmarkable = jobs.scheduled_for_deletion.get(id).is_none() && job.next_exec_time().is_none() && (
            jobs.scheduled_for_deletion.contains_key(id) || id == usize::MAX);
            if unmarkable {
                assert(spec_is_first(jobs.active_jobs@, i as int));
                assert(spec_cannot_mark(jobs.active_jobs@, jobs.scheduled_for_deletion.base, i as int));
                return false;
            }
        }
        i = i + 1;
    }
    true
}

/// Whether the job that comes first has a time later than `now`.
pub open spec fn spec_due_later<C>(jobs: JobBoard<C>, now: i64) -> bool {
    exists|i: int|
        spec_is_first(jobs.active_jobs@, i) && (#[trigger] jobs.active_jobs@[i].next_exec_time matches Some(t) && t > now)
}

/// Runs the calculation to determine whether any jobs exist,
/// and when those jobs should be run.
///
/// With no job, sleeps for an hour. When the job that comes first is due
/// later than `now`, sleeps until then; else tries to run it (see
/// `JobBoard::try_run_next`), which gives `None` when that job was
/// deleted or finished instead.
pub fn determine<C, R, F: FnOnce(&C) -> R, G: FnOnce(&mut C) -> Option<i64>>(
    jobs: &mut JobBoard<C>,
    now: i64,
    call: F,
    pull: G,
) -> (r: Option<State<R>>)
    requires
        spec_can_try(*old(jobs)),
        forall|c: &C| call_requires(call, (c,)),
        forall|c: &mut C| call_requires(pull, (c,)),
    ensures
        old(jobs).active_jobs@.len() == 0 ==> r == Some(State::<R>::Sleep(SLEEP_WITHOUT_JOBS_MS)) && *final(jobs)
            == *old(jobs),
        spec_due_later(*old(jobs), now) ==> {
            &&& *final(jobs) == *old(jobs)
            &&& r matches Some(State::Sleep(ms)) && exists|i: int|
                spec_is_first(old(jobs).active_jobs@, i) && (#[trigger] old(jobs).active_jobs@[i].next_exec_time
                    matches Some(t) && t == now + ms)
        },
        old(jobs).active_jobs@.len() > 0 && !spec_due_later(*old(jobs), now) ==> exists|i: int|
            #[trigger] spec_is_first(old(jobs).active_jobs@, i) && {
                let job = old(jobs).active_jobs@[i];
                let rest = old(jobs).active_jobs@.remove(i);
                let slots = old(jobs).scheduled_for_deletion.base.slots();
                &&& final(jobs).next_id == old(jobs).next_id
                &&& if old(jobs).scheduled_for_deletion.base.spec_get(job.id as int) is Some {
                    &&& r is None
                    &&& final(jobs).active_jobs@ == rest
                    &&& final(jobs).scheduled_for_deletion.base.slots() == slots.update(job.id as int, Some(true))
                } else if job.next_exec_time is None {
                    &&& r is None
                    &&& final(jobs).active_jobs@ == rest
                    &&& final(jobs).scheduled_for_deletion.base.slots() == base::spec_insert_slots(
                        slots,
                        job.id as int,
                        true,
                    )
                } else {
                    &&& r matches Some(State::Run(run)) && run.id == job.id && call_ensures(
                        call,
                        (&job.command,),
                        run.command,
                    )
                    &&& final(jobs).scheduled_for_deletion == old(jobs).scheduled_for_deletion
                    &&& final(jobs).active_jobs@.len() == old(jobs).active_jobs@.len()
                    &&& final(jobs).active_jobs@.drop_last() == rest
                    &&& final(jobs).active_jobs@.last().id == job.id
                    &&& final(jobs).active_jobs@.last().schedule == job.schedule.spec_after_next()
                    &&& !job.schedule.spec_pulls() ==> final(jobs).active_jobs@.last().next_exec_time is None
                        && final(jobs).active_jobs@.last().command == job.command
                    &&& job.schedule.spec_pulls() ==> exists|c: &mut C, t: Option<i64>|
                        #![trigger call_ensures(pull, (c,), t)]
                        *c == job.command && *final(c) == final(jobs).active_jobs@.last().command
                            && call_ensures(pull, (c,), t) && final(jobs).active_jobs@.last().next_exec_time
                            == job.schedule.spec_next(t)
                }
            },
{
    match jobs.peek_next() {
        Some(exec_time) => {
            let due = match exec_time {
                Some(then) => if then > now {
                    Some(then)
                } else {
                    None
                },
                None => None,
            };
            match due {
                Some(then) => Some(State::Sleep((then as i128 - now as i128) as u64)),
                None => match jobs.try_run_next(call, pull) {
                    Some(job) => Some(State::Run(job)),
                    None => None,
                },
            }
        },
        None => Some(State::Sleep(SLEEP_WITHOUT_JOBS_MS)),
    }
}


/// Whether `run` is the run of the job at `i` of the board `jobs`, which
/// came first and was due (its time at or before `now`), with `call` making
/// the run from its command, and `after` is that job with its schedule
/// moved on by one read (with no next time when the schedule was spent).
pub open spec fn spec_ran<C, R, F: Fn(&C) -> R>(
    jobs: Seq<Job<C>>,
    i: int,
    after: Job<C>,
    now: i64,
    call: F,
    run: RunJob<R>,
) -> bool {
    let job = jobs[i];
    &&& spec_is_first(jobs, i)
    &&& job.next_exec_time matches Some(t) && t <= now
    &&& run.id == job.id
    &&& call_ensures(call, (&job.command,), run.command)
    &&& after.id == job.id
    &&& after.schedule == job.schedule.spec_after_next()
    &&& !job.schedule.spec_pulls() ==> after.next_exec_time is None && after.command == job.command
}

/// Asks `determine` until it answers with a state: each `None` removed a
/// deleted or finished job, so the board shrinks until the answer comes.
/// Gives `None` when the board comes to a state where its bookkeeping
/// cannot go on (see `can_try`); the board is then left as it is.
#[verifier::rlimit(80)]
pub fn determine_state<C, R, F: Fn(&C) -> R + Copy, G: Fn(&mut C) -> Option<i64> + Copy>(
    jobs: &mut JobBoard<C>,
    now: i64,
    call: F,
    pull: G,
) -> (r: Option<State<R>>)
    requires
        forall|c: &C| call_requires(call, (c,)),
        forall|c: &mut C| call_requires(pull, (c,)),
    ensures
        r is None ==> !spec_can_try(*final(jobs)),
        final(jobs).next_id == old(jobs).next_id,
        final(jobs).active_jobs@.len() <= old(jobs).active_jobs@.len(),
        r matches Some(State::Sleep(ms)) ==> ms > 0 && ((final(jobs).active_jobs@.len() == 0 && ms
            == SLEEP_WITHOUT_JOBS_MS) || exists|i: int|
            spec_is_first(final(jobs).active_jobs@, i) && (#[trigger] final(jobs).active_jobs@[i].next_exec_time
                matches Some(t) && t == now + ms)),
        r matches Some(State::Run(run)) ==> final(jobs).active_jobs@.len() > 0 && exists|i: int, job: Job<C>|
            #![trigger spec_is_first(final(jobs).active_jobs@.drop_last().insert(i, job), i)]
            0 <= i < final(jobs).active_jobs@.len() && spec_ran(
                final(jobs).active_jobs@.drop_last().insert(i, job),
                i,
                final(jobs).active_jobs@.last(),
                now,
                call,
                run,
            ) && (job.schedule.spec_pulls() ==> exists|c: &mut C, t: Option<i64>|
                #![trigger call_ensures(pull, (c,), t)]
                *c == job.command && *final(c) == final(jobs).active_jobs@.last().command && call_ensures(
                    pull,
                    (c,),
                    t,
                ) && final(jobs).active_jobs@.last().next_exec_time == job.schedule.spec_next(t)),
{
    loop
        invariant
            forall|c: &C| call_requires(call, (c,)),
            forall|c: &mut C| call_requires(pull, (c,)),
            jobs.next_id == old(jobs).next_id,
            jobs.active_jobs@.len() <= old(jobs).active_jobs@.len(),
        decreases jobs.active_jobs@.len(),
    {
        if !can_try(jobs) {
            return None;
        }
        let ghost before = *jobs;
        let state = determine(jobs, now, call, pull);
        match state {
            Some(State::Run(run)) => {
                proof {
                    let i = choose|i: int| #[trigger]
                        spec_is_first(before.active_jobs@, i) && {
                            let job = before.active_jobs@[i];
                            let rest = before.active_jobs@.remove(i);
                            &&& jobs.active_jobs@.drop_last() == rest
                            &&& run.id == job.id
                            &&& call_ensures(call, (&job.command,), run.command)
                            &&& jobs.active_jobs@.last().id == job.id
                            &&& jobs.active_jobs@.last().schedule == job.schedule.spec_after_next()
                            &&& !job.schedule.spec_pulls() ==> jobs.active_jobs@.last().next_exec_time is None
                                && jobs.active_jobs@.last().command == job.command
                            &&& job.schedule.spec_pulls() ==> exists|c: &mut C, t: Option<i64>|
                                #![trigger call_ensures(pull, (c,), t)]
                                *c == job.command && *final(c) == jobs.active_jobs@.last().command && call_ensures(
                                    pull,
                                    (c,),
                                    t,
                                ) && jobs.active_jobs@.last().next_exec_time == job.schedule.spec_next(t)
                        };
                    let job = before.active_jobs@[i];
                    assert(jobs.active_jobs@.drop_last().insert(i, job) =~= before.active_jobs@);
                    assert(spec_is_first(jobs.active_jobs@.drop_last().insert(i, job), i));
                    if let Some(t) = job.next_exec_time {
                        if t > now {
                            assert(spec_due_later(before, now));
                        }
                    }
                    assert(jobs.active_jobs@.drop_last().insert(i, job)[i] == job);
                    assert(spec_ran(jobs.active_jobs@.drop_last().insert(i, job), i, jobs.active_jobs@.last(), now, call, run));
                }
                return Some(State::Run(run));
            },
            Some(state) => {
                return Some(state);
            },
            None => {
                assert(jobs.active_jobs@.len() < before.active_jobs@.len());
            },
        }
    }
}

} // verus!
