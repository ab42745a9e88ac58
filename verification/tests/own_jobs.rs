use cronsched::career::error::DescheduleError;
use cronsched::career::{Job, JobBoard, Limit, ScheduleKind};
use cronsched::scheduler::{determine, State, SLEEP_WITHOUT_JOBS_MS};
use cronsched::utils::map::{Entry, SimpleMap};

#[test]
fn map_insert_get_remove() {
    let mut m: SimpleMap<&str> = SimpleMap::new();
    assert!(!m.contains_key(2));
    assert_eq!(m.insert(2, "b"), None);
    assert!(m.contains_key(0));
    assert_eq!(m.get(0), None);
    assert_eq!(m.get(2), Some(&"b"));
    assert_eq!(m.insert(2, "c"), Some("b"));
    assert_eq!(*m.index(2), "c");
    assert_eq!(m.remove(2), Some("c"));
    assert_eq!(m.get(2), None);
    assert!(m.contains_key(2));
    assert!(m.capacity() >= 3);
    m.clear();
    assert!(!m.contains_key(0));
}

#[test]
fn map_insert_drops_higher_keys() {
    let mut m: SimpleMap<u32> = SimpleMap::with_capacity(8);
    m.insert(5, 50);
    m.insert(1, 10);
    assert_eq!(m.get(5), None);
    assert!(!m.contains_key(5));
    assert_eq!(m.get(1), Some(&10));
    assert_eq!(m.keys(), vec![1]);
}

#[test]
fn map_entries() {
    let mut m: SimpleMap<u32> = SimpleMap::new();
    *m.entry(3).or_insert(7) += 1;
    assert_eq!(m.get(3), Some(&8));
    *m.entry(3).or_insert(100) += 1;
    assert_eq!(m.get(3), Some(&9));
    m.entry(3).and_modify(|v| *v = 1).or_insert(5);
    assert_eq!(m.get(3), Some(&1));
    assert_eq!(*m.entry(4).or_insert_with(|| 42), 42);
    assert_eq!(*m.entry(6).or_default(), 0);
    if let Entry::Occupied(e) = m.entry(4) {
        assert_eq!(*e.get(), 42);
        assert_eq!(e.remove(), 42);
    } else {
        panic!("key 4 should be occupied");
    }
    assert_eq!(m.get(4), None);
    *m.get_mut(6).unwrap() = 9;
    assert_eq!(m.keys(), vec![3, 6]);
}

#[test]
fn limits_shape_the_schedule() {
    let mut finite = Job::with_limit(1, (), Some(10), Some(Limit::NumTimes(2)));
    assert_eq!(finite.schedule, ScheduleKind::Finite(1));
    finite.advance_schedule(|_| Some(20));
    assert_eq!(finite.next_exec_time(), Some(20));
    finite.advance_schedule(|_| Some(30));
    assert_eq!(finite.next_exec_time(), None);

    let mut until = Job::with_limit(2, (), Some(10), Some(Limit::EndDate(25)));
    until.advance_schedule(|_| Some(20));
    assert_eq!(until.next_exec_time(), Some(20));
    until.advance_schedule(|_| Some(30));
    assert_eq!(until.next_exec_time(), None);
}

#[test]
fn jobs_compare_by_time_then_id() {
    let a = Job::with_limit(1, (), Some(10), None);
    let b = Job::with_limit(2, (), Some(10), None);
    let done = Job::with_limit(0, (), None, None);
    assert_eq!(a.cmp(&b), std::cmp::Ordering::Less);
    assert_eq!(b.cmp(&a), std::cmp::Ordering::Greater);
    assert_eq!(a.partial_cmp(&b), Some(std::cmp::Ordering::Less));
    assert_eq!(done.cmp(&a), std::cmp::Ordering::Less);
    assert!(!a.eq(&b));
}

#[test]
fn board_runs_the_first_job() {
    let mut board: JobBoard<&str> = JobBoard::new();
    let id = board.schedule(Some(100), Some(Limit::NumTimes(2)), "first");
    assert_eq!(id, 0);
    assert_eq!(board.peek_next(), Some(Some(100)));
    let run = board.try_run_next(|c: &&str| c.len(), |_c: &mut &str| Some(200)).unwrap();
    assert_eq!(run.id, 0);
    assert_eq!(run.command, 5);
    assert_eq!(board.peek_next(), Some(Some(200)));
}

#[test]
fn board_deletes_marked_and_finished_jobs() {
    let mut board: JobBoard<u8> = JobBoard::with_capacity(2);
    board.schedule(Some(5), None, 1);
    assert!(board.deschedule(0).is_ok());
    assert!(matches!(board.deschedule(0), Err(DescheduleError::AlreadyScheduled(0))));
    assert!(board.try_run_next(|c: &u8| *c, |_c: &mut u8| Some(6)).is_none());
    assert_eq!(board.peek_next(), None);
    assert_eq!(board.scheduled_for_deletion.get(0), Some(&true));

    board.clear();
    board.schedule(None, None, 2);
    assert!(board.try_run_next(|c: &u8| *c, |_c: &mut u8| None).is_none());
    assert_eq!(board.scheduled_for_deletion.get(0), Some(&true));
}

#[test]
fn clock_sleeps_or_runs() {
    let mut board: JobBoard<u8> = JobBoard::new();
    assert!(matches!(determine(&mut board, 0, |c: &u8| *c, |_c: &mut u8| None), Some(State::Sleep(SLEEP_WITHOUT_JOBS_MS))));
    board.schedule(Some(5_000), None, 3);
    assert!(matches!(determine(&mut board, 1_000, |c: &u8| *c, |_c: &mut u8| Some(9_000)), Some(State::Sleep(4_000))));
    match determine(&mut board, 6_000, |c: &u8| *c, |_c: &mut u8| Some(9_000)) {
        Some(State::Run(job)) => assert_eq!(job.command, 3),
        _ => panic!("the job is due"),
    }
    assert_eq!(board.peek_next(), Some(Some(9_000)));
}

#[test]
fn a_job_limited_to_three_runs_has_two_more_times() {
    let mut j = Job::with_limit(0, (), Some(10), Some(Limit::NumTimes(3)));
    j.advance_with(Some(20));
    assert_eq!(j.next_exec_time(), Some(20));
    j.advance_with(Some(30));
    assert_eq!(j.next_exec_time(), Some(30));
    j.advance_with(Some(40));
    assert_eq!(j.next_exec_time(), None);
    j.advance_with(Some(50));
    assert_eq!(j.next_exec_time(), None);
}

#[test]
fn can_try_spots_a_finished_job_that_cannot_be_marked() {
    let mut board: JobBoard<()> = JobBoard::new();
    board.schedule(None, None, ());
    assert!(cronsched::scheduler::can_try(&board));
    board.deschedule(2).unwrap();
    assert!(!cronsched::scheduler::can_try(&board));
}

#[test]
fn determine_state_drops_finished_jobs_until_it_can_answer() {
    let mut board: JobBoard<()> = JobBoard::new();
    board.schedule(Some(500), None, ());
    let s = cronsched::scheduler::determine_state(&mut board, 100, |_c: &()| 1u8, |_c: &mut ()| Some(900));
    assert!(matches!(s, Some(State::Sleep(400))));
    let mut board: JobBoard<()> = JobBoard::new();
    board.schedule(None, None, ());
    let s = cronsched::scheduler::determine_state(&mut board, 100, |_c: &()| 1u8, |_c: &mut ()| Some(900));
    assert!(matches!(s, Some(State::Sleep(SLEEP_WITHOUT_JOBS_MS))));
    assert_eq!(board.active_jobs.len(), 0);
}

#[test]
fn determine_state_runs_the_due_job_and_moves_it_on() {
    let mut board: JobBoard<u8> = JobBoard::new();
    board.schedule(Some(50), None, 7);
    let s = cronsched::scheduler::determine_state(&mut board, 100, |c: &u8| *c + 1, |c: &mut u8| Some(*c as i64 * 100));
    match s {
        Some(State::Run(run)) => {
            assert_eq!(run.id, 0);
            assert_eq!(run.command, 8);
        },
        _ => panic!("expected a run"),
    }
    assert_eq!(board.active_jobs.len(), 1);
    assert_eq!(board.active_jobs[0].next_exec_time(), Some(700));
}

#[test]
fn the_clock_is_active_unless_stopped() {
    use_phases();
}

fn use_phases() {
    assert!(cronsched::scheduler::clock_active(cronsched::scheduler::ClockPhase::Starting));
    assert!(cronsched::scheduler::clock_active(cronsched::scheduler::ClockPhase::Running));
    assert!(cronsched::scheduler::clock_active(cronsched::scheduler::ClockPhase::Pausing));
    assert!(!cronsched::scheduler::clock_active(cronsched::scheduler::ClockPhase::Stopped));
}

#[test]
fn a_job_without_limit_keeps_every_time_and_an_end_date_cuts_off() {
    let mut j = Job::with_limit(0, (), Some(10), None);
    j.advance_with(Some(20));
    j.advance_with(Some(30));
    assert_eq!(j.next_exec_time(), Some(30));
    let mut j = Job::with_limit(0, (), Some(10), Some(Limit::EndDate(25)));
    j.advance_with(Some(20));
    assert_eq!(j.next_exec_time(), Some(20));
    j.advance_with(Some(30));
    assert_eq!(j.next_exec_time(), None);
}
