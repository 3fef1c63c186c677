use delay_timer::expression::check_cron_text;
use delay_timer::supervisor::{RunEnd, RunTable, Settlement};
use delay_timer::task::{frequency, Task, TaskBuilder, TaskError, TaskMark};
use delay_timer::wheel::DelayTimer;
use std::time::{SystemTime, UNIX_EPOCH};

fn epoch_now() -> i64 {
    SystemTime::now().duration_since(UNIX_EPOCH).unwrap().as_secs() as i64
}

fn build(task_id: u32, f: frequency, max_runtime: Option<u64>) -> Result<Task, TaskError> {
    let mut builder = TaskBuilder::new();
    builder.set_frequency(f);
    builder.set_task_id(task_id);
    if let Some(seconds) = max_runtime {
        builder.set_maximum_running_time(seconds);
    }
    builder.spawn()
}

/// Ticks from `start` for `ticks` seconds, recording the ids fired on each tick.
fn run_ticks(timer: &mut DelayTimer, start: i64, ticks: i64) -> Vec<(i64, u32)> {
    let mut fired = Vec::new();
    for t in 1..=ticks {
        let outcome = timer.tick(start + t);
        for event in outcome.fired.iter() {
            fired.push((t, event.task_id));
        }
    }
    fired
}

#[test]
fn builder_defaults_and_setters() {
    let mut builder = TaskBuilder::new();
    assert!(builder.frequency.is_none());
    assert_eq!(builder.task_id, 0);
    builder.set_task_id(3);
    builder.set_frequency(frequency::CountDown(4, "@secondly"));
    assert_eq!(builder.task_id, 3);
    assert!(matches!(builder.frequency, Some(frequency::CountDown(4, "@secondly"))));
    let mark = TaskMark::new(3);
    assert_eq!(mark.task_id, 3);
    assert_eq!(mark.slot_mark, 0);
}

#[test]
fn spawn_keeps_id_count_and_limit() {
    let task = build(7, frequency::CountDown(2, "0/7 * * * * * *"), Some(5)).unwrap();
    assert_eq!(task.id(), 7);
    assert_eq!(task.maximum_running_time(), Some(5));
    assert!(task.is_valid());
    assert!(task.is_live());
    assert!(task.is_already());
}

#[test]
fn spawn_rejects_invalid_cron() {
    let r = build(12, frequency::repeated("not a cron"), None);
    assert!(matches!(r, Err(TaskError::InvalidCron)));
}

#[test]
fn spawn_rejects_missing_frequency_and_zero_count() {
    let mut builder = TaskBuilder::new();
    builder.set_task_id(5);
    assert!(matches!(builder.spawn(), Err(TaskError::InvalidFrequency)));
    assert!(matches!(
        build(5, frequency::CountDown(0, "* * * * * * *"), None),
        Err(TaskError::InvalidFrequency)
    ));
}

#[test]
fn spawn_rejects_zero_id() {
    assert!(matches!(
        build(0, frequency::Once("* * * * * * *"), None),
        Err(TaskError::InvalidTaskId)
    ));
}

#[test]
fn invalid_cron_leaves_scheduler_unchanged() {
    let mut timer = DelayTimer::new();
    assert!(matches!(
        build(12, frequency::repeated("not a cron"), None),
        Err(TaskError::InvalidCron)
    ));
    assert_eq!(timer.task_count(), 0);
    assert!(run_ticks(&mut timer, epoch_now(), 3).is_empty());
}

#[test]
fn duplicate_id_is_refused() {
    let mut timer = DelayTimer::new();
    let now = epoch_now();
    let first = build(7, frequency::repeated("* * * * * * *"), None).unwrap();
    let second = build(7, frequency::Once("* * * * * * *"), None).unwrap();
    assert_eq!(timer.add_task(first, now), Ok(()));
    assert_eq!(timer.add_task(second, now), Err(TaskError::DuplicateTaskId));
    assert_eq!(timer.task_count(), 1);
}

#[test]
fn count_down_fires_twice_then_dies() {
    let mut timer = DelayTimer::new();
    let now = epoch_now();
    let task = build(7, frequency::CountDown(2, "0/7 * * * * * *"), Some(5)).unwrap();
    assert_eq!(timer.add_task(task, now), Ok(()));
    let fired = run_ticks(&mut timer, now, 100);
    assert_eq!(fired.len(), 2);
    assert!(fired.iter().all(|(_, id)| *id == 7));
    assert!(!timer.contains_task(7));
    assert_eq!(timer.task_count(), 0);
    timer.stop_delay_timer();
    assert!(timer.is_stopped());
}

#[test]
fn once_fires_exactly_once() {
    let mut timer = DelayTimer::new();
    let now = epoch_now();
    let task = build(4, frequency::Once("* * * * * * *"), None).unwrap();
    assert_eq!(timer.add_task(task, now), Ok(()));
    let fired = run_ticks(&mut timer, now, 10);
    assert_eq!(fired.len(), 1);
    assert!(!timer.contains_task(4));
}

#[test]
fn no_fire_on_the_tick_of_adding() {
    let mut timer = DelayTimer::new();
    let now = epoch_now();
    let task = build(4, frequency::repeated("* * * * * * *"), None).unwrap();
    assert_eq!(timer.add_task(task, now), Ok(()));
    // The tick at the second of adding visits the cursor's slot, where the task is not.
    let outcome = timer.tick(now);
    assert!(outcome.fired.is_empty());
}

#[test]
fn concurrent_runs_get_distinct_records_and_cancel_one() {
    let mut timer = DelayTimer::new();
    let now = epoch_now();
    let task = build(9, frequency::repeated("* * * * * * *"), None).unwrap();
    assert_eq!(timer.add_task(task, now), Ok(()));
    let mut records = Vec::new();
    for t in 1..=5 {
        let outcome = timer.tick(now + t);
        for event in outcome.fired.iter() {
            records.push(timer.start_run(event.task_id).unwrap());
        }
    }
    assert!(records.len() >= 3);
    let mut sorted = records.clone();
    sorted.dedup();
    assert_eq!(sorted.len(), records.len());
    let r = records[1];
    assert_eq!(timer.cancel_task(9, r), Ok(Some(Settlement::Quit)));
    assert_eq!(timer.cancel_task(9, r), Ok(None));
    assert_eq!(timer.latest_run(9), Some(*records.last().unwrap()));
    assert!(timer.contains_task(9));
}

#[test]
fn timeout_quits_once_and_task_continues() {
    let mut timer = DelayTimer::new();
    let now = epoch_now();
    let task = build(10, frequency::repeated("* * * * * * *"), Some(2)).unwrap();
    assert_eq!(timer.add_task(task, now), Ok(()));
    // The tick that drains the add visits the cursor's slot; the task waits in the next one.
    assert!(timer.tick(now + 1).fired.is_empty());
    let first = timer.tick(now + 2);
    assert_eq!(first.fired.len(), 1);
    assert_eq!(first.fired[0].maximum_running_time, Some(2));
    let record = timer.start_run(10).unwrap();
    assert_eq!(timer.settle_run(10, record, RunEnd::TimedOut), Some(Settlement::Quit));
    assert_eq!(timer.settle_run(10, record, RunEnd::TimedOut), None);
    let later = run_ticks(&mut timer, now + 2, 3);
    assert!(!later.is_empty());
}

#[test]
fn remove_during_pending_prevents_fire() {
    let mut timer = DelayTimer::new();
    let now = epoch_now();
    let task = build(11, frequency::repeated("* * * * * * *"), None).unwrap();
    assert_eq!(timer.add_task(task, now), Ok(()));
    assert_eq!(timer.remove_task(11), Ok(()));
    let fired = run_ticks(&mut timer, now, 70);
    assert!(fired.is_empty());
    assert_eq!(timer.task_count(), 0);
}

#[test]
fn remove_twice_reports_not_found() {
    let mut timer = DelayTimer::new();
    let now = epoch_now();
    let task = build(11, frequency::repeated("* * * * * * *"), None).unwrap();
    assert_eq!(timer.add_task(task, now), Ok(()));
    assert_eq!(timer.remove_task(11), Ok(()));
    assert_eq!(timer.remove_task(11), Err(TaskError::NotFound));
    assert_eq!(timer.task_count(), 1);
    assert_eq!(timer.remove_task(99), Err(TaskError::NotFound));
}

#[test]
fn add_then_remove_allows_the_id_again() {
    let mut timer = DelayTimer::new();
    let now = epoch_now();
    let task = build(11, frequency::repeated("* * * * * * *"), None).unwrap();
    assert_eq!(timer.add_task(task, now), Ok(()));
    assert_eq!(timer.remove_task(11), Ok(()));
    assert!(!timer.contains_task(11));
    let again = build(11, frequency::repeated("* * * * * * *"), None).unwrap();
    assert_eq!(timer.add_task(again, now), Ok(()));
}

#[test]
fn stop_twice_is_a_no_op() {
    let mut timer = DelayTimer::new();
    let now = epoch_now();
    timer.stop_delay_timer();
    timer.stop_delay_timer();
    assert!(timer.is_stopped());
    let task = build(3, frequency::repeated("* * * * * * *"), None).unwrap();
    assert_eq!(timer.add_task(task, now), Err(TaskError::Stopped));
    assert_eq!(timer.remove_task(3), Err(TaskError::Stopped));
    assert_eq!(timer.cancel_task(3, 0), Err(TaskError::Stopped));
    let outcome = timer.tick(now + 1);
    assert!(outcome.fired.is_empty());
    assert_eq!(timer.cursor_position(), 0);
}

#[test]
fn due_now_goes_to_the_next_slot() {
    let mut task = build(1, frequency::repeated("* * * * * * *"), None).unwrap();
    task.place(59, 1_000, 1_000);
    assert_eq!(task.slot(), 0);
    assert_eq!(task.cylinder_line(), 0);
    task.place(10, 900, 1_000);
    assert_eq!(task.slot(), 11);
    assert_eq!(task.cylinder_line(), 0);
}

#[test]
fn minute_ahead_waits_one_revolution() {
    let mut task = build(1, frequency::repeated("* * * * * * *"), None).unwrap();
    task.place(20, 1_060, 1_000);
    assert_eq!(task.slot(), 20);
    assert_eq!(task.cylinder_line(), 1);
    assert!(!task.check_arrived());
    assert_eq!(task.cylinder_line(), 0);
    assert!(task.check_arrived());
}

#[test]
fn hours_ahead_counts_revolutions() {
    let mut task = build(1, frequency::repeated("* * * * * * *"), None).unwrap();
    task.place(5, 1_000 + 3_725, 1_000);
    assert_eq!(task.slot(), (5 + 3_725) % 60);
    assert_eq!(task.cylinder_line(), 62);
    for _ in 0..62 {
        assert!(!task.check_arrived());
    }
    assert!(task.check_arrived());
}

#[test]
fn placement_formula_values() {
    let mut task = build(1, frequency::repeated("* * * * * * *"), None).unwrap();
    task.place(5, 1_125, 1_000);
    assert_eq!(task.slot(), 10);
    assert_eq!(task.cylinder_line(), 2);
    task.place(0, i64::MAX, i64::MIN);
    assert_eq!(task.cylinder_line(), u64::MAX / 60);
}

#[test]
fn count_down_and_validity() {
    let mut task = build(2, frequency::CountDown(2, "* * * * * * *"), None).unwrap();
    assert!(task.down_count_and_set_vaild());
    assert!(!task.down_count_and_set_vaild());
    assert!(!task.is_live());
    let mut other = build(2, frequency::CountDown(1, "* * * * * * *"), None).unwrap();
    other.down_count();
    other.set_valid_by_count_down();
    assert!(!other.is_valid());
    other.set_cylinder_line(3);
    assert!(!other.is_can_running());
    assert!(!other.sub_cylinder_line());
}

#[test]
fn run_table_records() {
    let mut runs = RunTable::new();
    assert_eq!(runs.begin(9), Some(0));
    assert_eq!(runs.begin(9), Some(1));
    assert_eq!(runs.begin(4), Some(2));
    assert_eq!(runs.latest(9), Some(1));
    assert_eq!(runs.latest(5), None);
    assert!(runs.outstanding(9, 0));
    assert_eq!(runs.settle(9, 0, RunEnd::Finished), Some(Settlement::Finish));
    assert!(!runs.outstanding(9, 0));
    assert_eq!(runs.settle(9, 0, RunEnd::Cancelled), None);
    assert_eq!(runs.settle(4, 2, RunEnd::Cancelled), Some(Settlement::Quit));
}

#[test]
fn zero_steps_are_refused() {
    assert!(!check_cron_text("*/0 * * * * *"));
    assert!(!check_cron_text("0/00 * * * * * *"));
    assert!(!check_cron_text("*/ 0 * * * * *"));
    assert!(check_cron_text("*/10 * * * * *"));
    assert!(check_cron_text("0/7 * * * * * *"));
    assert!(matches!(
        build(6, frequency::repeated("*/0 * * * * *"), None),
        Err(TaskError::InvalidCron)
    ));
}

#[test]
fn restricted_years_are_refused() {
    assert!(!check_cron_text("0 0 0 * 2 * 2025"));
    assert!(!check_cron_text("0 0 0 * 2 *2025"));
    assert!(!check_cron_text("0 0 0 * * * */2"));
    assert!(check_cron_text("0 0 0 * 2 * *"));
    assert!(check_cron_text("@yearly"));
    assert!(check_cron_text("1 1 1 1 1 1"));
    assert!(matches!(
        build(6, frequency::repeated("0 0 0 * 2 * 2025"), None),
        Err(TaskError::InvalidCron)
    ));
    assert!(build(6, frequency::repeated("@daily"), None).is_ok());
}

#[test]
fn last_fire_is_not_reported_as_dropped() {
    let mut timer = DelayTimer::new();
    let now = epoch_now();
    let task = build(4, frequency::Once("* * * * * * *"), None).unwrap();
    assert_eq!(timer.add_task(task, now), Ok(()));
    let mut fired = 0;
    for t in 1..=5 {
        let outcome = timer.tick(now + t);
        fired += outcome.fired.len();
        assert!(outcome.dropped.is_empty());
    }
    assert_eq!(fired, 1);
}

#[test]
fn removed_task_is_reported_when_visited() {
    let mut timer = DelayTimer::new();
    let now = epoch_now();
    let task = build(11, frequency::repeated("* * * * * * *"), None).unwrap();
    assert_eq!(timer.add_task(task, now), Ok(()));
    assert_eq!(timer.remove_task(11), Ok(()));
    let mut dropped = Vec::new();
    for t in 1..=61 {
        dropped.extend(timer.tick(now + t).dropped);
    }
    assert_eq!(dropped, vec![11]);
}

#[test]
fn task_mark_reports_the_slot() {
    let mut timer = DelayTimer::new();
    let now = epoch_now();
    assert!(timer.task_mark(8).is_none());
    let task = build(8, frequency::repeated("* * * * * * *"), None).unwrap();
    assert_eq!(timer.add_task(task, now), Ok(()));
    let mark = timer.task_mark(8).unwrap();
    assert_eq!(mark.task_id, 8);
    assert!(mark.slot_mark < 60);
    assert_eq!(timer.remove_task(8), Ok(()));
    assert!(timer.task_mark(8).is_none());
}
