//! Tasks and their firing frequency: the count of fires left, validity, and
//! the place a task takes in the wheel.
use vstd::prelude::*;
use vstd::arithmetic::div_mod::lemma_add_mod_noop;
use vstd::string::StringSliceAdditionalSpecFns;
use crate::expression::{check_cron_text, cron_text_allowed};
use crate::cron::{cron_accepts, next_timestamp, parse_schedule, upcoming_utc, CronClock};

verus! {

/// The number of slots of the wheel: one for each second of a minute.
pub const SLOT_COUNT: usize = 60;

/// The seconds from `now` until a task due at `fire_at` may fire: never less
/// than one, so that a task never fires on the tick at which it was placed.
pub open spec fn delay_of(fire_at: int, now: int) -> int {
    if fire_at - now < 1 { 1 } else { fire_at - now }
}

/// The slot that a task due at `fire_at` goes to when placed at `cursor`.
pub open spec fn slot_of(cursor: int, fire_at: int, now: int) -> int {
    (cursor + delay_of(fire_at, now)) % (SLOT_COUNT as int)
}

/// The full revolutions of the wheel that such a task waits before it fires.
pub open spec fn cylinder_of(fire_at: int, now: int) -> int {
    delay_of(fire_at, now) / (SLOT_COUNT as int)
}

/// What goes wrong when a task is built, added or removed.
#[derive(Debug, Clone, Copy, PartialEq, Eq, Structural)]
pub enum TaskError {
    DuplicateTaskId,
    InvalidCron,
    InvalidFrequency,
    InvalidTaskId,
    Stopped,
    NotFound,
}

/// Where a task stands in the wheel.
#[derive(Debug, Clone, Copy, PartialEq, Eq, Structural)]
pub struct TaskMark {
    pub task_id: u32,
    pub slot_mark: u32,
}

impl TaskMark {
    pub fn new(task_id: u32) -> (r: TaskMark)
        ensures
            r.task_id == task_id,
            r.slot_mark == 0,
    {
        TaskMark { task_id, slot_mark: 0 }
    }
}

/// How often a task fires, as the user writes it: once, for ever, or a given
/// number of times, each with a cron expression.
#[allow(non_camel_case_types)]
#[derive(Debug, Clone, Copy)]
pub enum frequency {
    Once(&'static str),
    repeated(&'static str),
    CountDown(u32, &'static str),
}

impl frequency {
    /// The cron expression.
    pub open spec fn expression(self) -> Seq<char> {
        match self {
            frequency::Once(e) => e@,
            frequency::repeated(e) => e@,
            frequency::CountDown(_, e) => e@,
        }
    }

    /// The cron expression as written.
    pub open spec fn text(self) -> &'static str {
        match self {
            frequency::Once(e) => e,
            frequency::repeated(e) => e,
            frequency::CountDown(_, e) => e,
        }
    }

    /// How many fires are asked for; `None` for ever. `Once` is a count of one.
    pub open spec fn count(self) -> Option<u32> {
        match self {
            frequency::Once(_) => Some(1u32),
            frequency::repeated(_) => None,
            frequency::CountDown(n, _) => Some(n),
        }
    }
}

/// How often a task fires, with the clock that yields its instants.
#[allow(non_camel_case_types)]
pub enum Frequency {
    repeated(CronClock),
    CountDown(u32, CronClock),
}

impl Frequency {
    /// Fires left: `None` for a task that repeats for ever.
    pub open spec fn remaining(&self) -> Option<u32> {
        match self {
            Frequency::repeated(_) => None,
            Frequency::CountDown(n, _) => Some(*n),
        }
    }

    /// Fires left, with `u32::MAX` standing for ever.
    pub fn residual_time(&self) -> (r: u32)
        ensures
            r == match self.remaining() {
                Some(n) => n,
                None => u32::MAX,
            },
    {
        match self {
            Frequency::repeated(_) => u32::MAX,
            Frequency::CountDown(time, _) => *time,
        }
    }

    /// The next instant of the schedule in epoch seconds, or `None` once the
    /// schedule is exhausted.
    pub fn next_alarm_timestamp(&mut self) -> (r: Option<i64>)
        ensures
            final(self).remaining() == old(self).remaining(),
    {
        match self {
            Frequency::CountDown(_, clock) => next_timestamp(clock),
            Frequency::repeated(clock) => next_timestamp(clock),
        }
    }

    /// One fire fewer left; no change for a task that repeats for ever or has
    /// none left.
    pub fn down_count(&mut self)
        ensures
            final(self).remaining() == match old(self).remaining() {
                Some(n) => Some(if n > 0 { (n - 1) as u32 } else { 0u32 }),
                None => None,
            },
    {
        match self {
            Frequency::CountDown(exec_count, _) => {
                if *exec_count > 0 {
                    *exec_count = *exec_count - 1;
                }
            },
            Frequency::repeated(_) => {},
        }
    }

    /// Whether no fire is left.
    pub fn is_down_over(&self) -> (r: bool)
        ensures
            r == (self.remaining() == Some(0u32)),
    {
        match self {
            Frequency::CountDown(n, _) => *n == 0,
            Frequency::repeated(_) => false,
        }
    }
}

/// The settings from which a task is built.
pub struct TaskBuilder {
    pub frequency: Option<frequency>,
    pub task_id: u32,
    pub maximum_running_time: Option<u64>,
}

/// What the wheel and the scheduler read of a task.
pub struct TaskView {
    pub task_id: u32,
    pub remaining: Option<u32>,
    pub cylinder_line: u64,
    pub slot: int,
    pub valid: bool,
    pub maximum_running_time: Option<u64>,
}

impl TaskView {
    /// Whether the task may still fire: not removed and with a fire left.
    pub open spec fn live(self) -> bool {
        self.valid && self.remaining != Some(0u32)
    }

    /// Whether the task fires when the cursor reaches its slot.
    pub open spec fn arrived(self) -> bool {
        self.live() && self.cylinder_line == 0
    }

    /// The task after one fire: a fire fewer left, and no longer valid once
    /// none is left.
    pub open spec fn fired(self) -> TaskView {
        let remaining = match self.remaining {
            Some(n) => Some(if n > 0 { (n - 1) as u32 } else { 0u32 }),
            None => None,
        };
        TaskView {
            remaining,
            valid: self.valid && remaining != Some(0u32),
            ..self
        }
    }

    /// The task placed at `cursor`, due at `fire_at`.
    pub open spec fn placed(self, cursor: int, fire_at: int, now: int) -> TaskView {
        TaskView {
            slot: slot_of(cursor, fire_at, now),
            cylinder_line: cylinder_of(fire_at, now) as u64,
            ..self
        }
    }
}

/// A task: its identity, its frequency with its clock, and its place in the
/// wheel.
pub struct Task {
    pub task_id: u32,
    frequency: Frequency,
    cylinder_line: u64,
    slot: usize,
    valid: bool,
    maximum_running_time: Option<u64>,
}

impl View for Task {
    type V = TaskView;

    closed spec fn view(&self) -> TaskView {
        TaskView {
            task_id: self.task_id,
            remaining: self.frequency.remaining(),
            cylinder_line: self.cylinder_line,
            slot: self.slot as int,
            valid: self.valid,
            maximum_running_time: self.maximum_running_time,
        }
    }
}

impl TaskBuilder {
    pub fn new() -> (r: TaskBuilder)
        ensures
            r.frequency.is_none(),
            r.task_id == 0,
            r.maximum_running_time.is_none(),
    {
        TaskBuilder { frequency: None, task_id: 0, maximum_running_time: None }
    }

    pub fn set_frequency(&mut self, frequency: frequency)
        ensures
            final(self).frequency == Some(frequency),
            final(self).task_id == old(self).task_id,
            final(self).maximum_running_time == old(self).maximum_running_time,
    {
        self.frequency = Some(frequency);
    }

    pub fn set_task_id(&mut self, task_id: u32)
        ensures
            final(self).task_id == task_id,
            final(self).frequency == old(self).frequency,
            final(self).maximum_running_time == old(self).maximum_running_time,
    {
        self.task_id = task_id;
    }

    /// Bounds how long each run of the task may take, in seconds.
    pub fn set_maximum_running_time(&mut self, seconds: u64)
        ensures
            final(self).maximum_running_time == Some(seconds),
            final(self).task_id == old(self).task_id,
            final(self).frequency == old(self).frequency,
    {
        self.maximum_running_time = Some(seconds);
    }

    /// Builds the task: its id must be non-zero, its frequency set with a
    /// count above zero, and its cron expression accepted, with no step of
    /// zero and no year field that leaves out a year. `Once` becomes a
    /// count of one.
    pub fn spawn(self) -> (r: Result<Task, TaskError>)
        ensures
            self.task_id == 0 ==> r == Err::<Task, TaskError>(TaskError::InvalidTaskId),
            self.task_id != 0 && (self.frequency.is_none() || self.frequency.unwrap().count()
                == Some(0u32)) ==> r == Err::<Task, TaskError>(TaskError::InvalidFrequency),
            self.task_id != 0 && self.frequency.is_some() && self.frequency.unwrap().count()
                != Some(0u32) ==> match r {
                Ok(t) => cron_text_allowed(self.frequency.unwrap().text().spec_bytes())
                    && cron_accepts(self.frequency.unwrap().expression()) && t@ == (TaskView {
                    task_id: self.task_id,
                    remaining: self.frequency.unwrap().count(),
                    cylinder_line: 0,
                    slot: 0,
                    valid: true,
                    maximum_running_time: self.maximum_running_time,
                }),
                Err(e) => !(cron_text_allowed(self.frequency.unwrap().text().spec_bytes())
                    && cron_accepts(self.frequency.unwrap().expression())) && e
                    == TaskError::InvalidCron,
            },
    {
        if self.task_id == 0 {
            return Err(TaskError::InvalidTaskId);
        }
        let (expression, count): (&str, Option<u32>) = match self.frequency {
            None => {
                return Err(TaskError::InvalidFrequency);
            },
            Some(frequency::Once(e)) => (e, Some(1u32)),
            Some(frequency::repeated(e)) => (e, None),
            Some(frequency::CountDown(n, e)) => (e, Some(n)),
        };
        if count == Some(0u32) {
            return Err(TaskError::InvalidFrequency);
        }
        if !check_cron_text(expression) {
            return Err(TaskError::InvalidCron);
        }
        let schedule = match parse_schedule(expression) {
            Some(s) => s,
            None => {
                return Err(TaskError::InvalidCron);
            },
        };
        let clock = upcoming_utc(schedule);
        let frequency = match count {
            None => Frequency::repeated(clock),
            Some(n) => Frequency::CountDown(n, clock),
        };
        Ok(Task::new(self.task_id, frequency, self.maximum_running_time))
    }
}

impl Task {
    pub fn new(task_id: u32, frequency: Frequency, maximum_running_time: Option<u64>) -> (r: Task)
        ensures
            r@ == (TaskView {
                task_id,
                remaining: frequency.remaining(),
                cylinder_line: 0,
                slot: 0,
                valid: true,
                maximum_running_time,
            }),
    {
        Task { task_id, frequency, cylinder_line: 0, slot: 0, valid: true, maximum_running_time }
    }

    pub fn id(&self) -> (r: u32)
        ensures
            r == self@.task_id,
    {
        self.task_id
    }

    /// A fire fewer left, and validity updated from it in the same step;
    /// returns the new validity.
    pub fn down_count_and_set_vaild(&mut self) -> (r: bool)
        ensures
            final(self)@ == old(self)@.fired(),
            r == final(self)@.valid,
    {
        self.down_count();
        let over = self.frequency.is_down_over();
        self.valid = self.valid && !over;
        self.valid
    }

    pub fn down_count(&mut self)
        ensures
            final(self)@ == (TaskView { remaining: old(self)@.fired().remaining, ..old(self)@ }),
    {
        self.frequency.down_count();
    }

    /// Valid exactly while a fire is left.
    pub fn set_valid_by_count_down(&mut self)
        ensures
            final(self)@ == (TaskView {
                valid: old(self)@.remaining != Some(0u32),
                ..old(self)@
            }),
    {
        self.valid = !self.frequency.is_down_over();
    }

    /// Takes the task out of the schedule: it never fires again.
    pub fn invalidate(&mut self)
        ensures
            final(self)@ == (TaskView { valid: false, ..old(self)@ }),
    {
        self.valid = false;
    }

    pub fn set_cylinder_line(&mut self, cylinder_line: u64)
        ensures
            final(self)@ == (TaskView { cylinder_line, ..old(self)@ }),
    {
        self.cylinder_line = cylinder_line;
    }

    /// One revolution fewer to wait; returns whether the task may now run.
    pub fn sub_cylinder_line(&mut self) -> (r: bool)
        requires
            old(self)@.cylinder_line > 0,
        ensures
            final(self)@ == (TaskView { cylinder_line: (old(self)@.cylinder_line - 1) as u64, ..old(self)@ }),
            r == (final(self)@.valid && final(self)@.cylinder_line == 0),
    {
        self.cylinder_line = self.cylinder_line - 1;
        self.is_can_running()
    }

    /// Whether the task fires on this visit of its slot: it is valid and has
    /// no revolution left to wait. Otherwise a revolution is counted off.
    pub fn check_arrived(&mut self) -> (r: bool)
        ensures
            r == (old(self)@.valid && old(self)@.cylinder_line == 0),
            old(self)@.cylinder_line == 0 ==> final(self)@ == old(self)@,
            old(self)@.cylinder_line > 0 ==> final(self)@ == (TaskView {
                cylinder_line: (old(self)@.cylinder_line - 1) as u64,
                ..old(self)@
            }),
    {
        if self.cylinder_line == 0 {
            return self.is_can_running();
        }
        self.cylinder_line = self.cylinder_line - 1;
        false
    }

    pub fn is_already(&self) -> (r: bool)
        ensures
            r == (self@.cylinder_line == 0),
    {
        self.cylinder_line == 0
    }

    pub fn is_can_running(&self) -> (r: bool)
        ensures
            r == (self@.valid && self@.cylinder_line == 0),
    {
        if self.is_valid() {
            return self.is_already();
        }
        false
    }

    pub fn is_valid(&self) -> (r: bool)
        ensures
            r == self@.valid,
    {
        self.valid
    }

    /// Whether the task may still fire.
    pub fn is_live(&self) -> (r: bool)
        ensures
            r == self@.live(),
    {
        self.valid && !self.frequency.is_down_over()
    }

    pub fn cylinder_line(&self) -> (r: u64)
        ensures
            r == self@.cylinder_line,
    {
        self.cylinder_line
    }

    pub fn slot(&self) -> (r: usize)
        ensures
            r == self@.slot,
    {
        self.slot
    }

    pub fn maximum_running_time(&self) -> (r: Option<u64>)
        ensures
            r == self@.maximum_running_time,
    {
        self.maximum_running_time
    }

    /// The next instant of the task's schedule, or `None` once exhausted.
    pub fn get_next_exec_timestamp(&mut self) -> (r: Option<i64>)
        ensures
            final(self)@ == old(self)@,
    {
        self.frequency.next_alarm_timestamp()
    }

    /// Places the task in the wheel whose cursor stands at `cursor` at epoch
    /// second `now`, due at `fire_at`.
    pub fn place(&mut self, cursor: usize, fire_at: i64, now: i64)
        requires
            cursor < SLOT_COUNT,
        ensures
            final(self)@ == old(self)@.placed(cursor as int, fire_at as int, now as int),
            final(self)@.slot < SLOT_COUNT,
    {
        let gap: i128 = fire_at as i128 - now as i128;
        let delay: u64 = if gap < 1 { 1 } else { gap as u64 };
        assert(delay == delay_of(fire_at as int, now as int));
        let slot: usize = ((cursor as u64 + delay % 60) % 60) as usize;
        proof {
            lemma_add_mod_noop(cursor as int, delay as int, 60);
            assert((cursor as int) % 60 == cursor as int) by {
                vstd::arithmetic::div_mod::lemma_small_mod(cursor as nat, 60);
            }
        }
        self.slot = slot;
        self.cylinder_line = delay / 60;
    }
}

} // verus!
