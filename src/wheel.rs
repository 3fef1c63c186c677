//! The timing wheel and the commands on it: tasks wait in one of sixty
//! slots, the cursor visits one slot per tick, and a task whose revolutions
//! are all waited fires.
use vstd::prelude::*;
use crate::supervisor::{RunEnd, RunRecord, RunTable, Settlement, holds_record, settlement_of, without};
use crate::task::{Task, TaskError, TaskMark, TaskView, SLOT_COUNT};

verus! {

/// A task due to run on this tick.
#[derive(Debug, Clone, Copy, PartialEq, Eq, Structural)]
pub struct FireEvent {
    pub task_id: u32,
    pub maximum_running_time: Option<u64>,
}

/// What one tick did: the tasks fired, in slot order, and the tasks found
/// no longer live on the visit (removed ones), whose latest run is to be
/// ended. A task whose last fire happens on this tick is only fired.
pub struct TickOutcome {
    pub fired: Vec<FireEvent>,
    pub dropped: Vec<u32>,
}

/// The fire events when the cursor stands at `cursor`, in wheel order.
pub open spec fn fire_events(tasks: Seq<TaskView>, cursor: int) -> Seq<FireEvent>
    decreases tasks.len(),
{
    if tasks.len() == 0 {
        Seq::empty()
    } else {
        let last = tasks.last();
        let earlier = fire_events(tasks.drop_last(), cursor);
        if last.slot == cursor && last.arrived() {
            earlier.push(
                FireEvent {
                    task_id: last.task_id,
                    maximum_running_time: last.maximum_running_time,
                },
            )
        } else {
            earlier
        }
    }
}

/// The ids of the tasks found no longer live when the cursor stands at
/// `cursor`, in wheel order: removed tasks, whose latest run is to end.
pub open spec fn found_dead(tasks: Seq<TaskView>, cursor: int) -> Seq<u32>
    decreases tasks.len(),
{
    if tasks.len() == 0 {
        Seq::empty()
    } else {
        let last = tasks.last();
        let earlier = found_dead(tasks.drop_last(), cursor);
        if last.slot == cursor && !last.live() {
            earlier.push(last.task_id)
        } else {
            earlier
        }
    }
}

/// What one visit of the cursor at `cursor`, at epoch second `now`, does to
/// a task: one in another slot is left alone; one no longer live is marked
/// invalid; one waiting counts a revolution off; one due fires and, while a
/// fire is left, is placed again at its next instant or, with none left,
/// marked invalid.
pub open spec fn visit_step(before: TaskView, after: TaskView, cursor: int, now: int) -> bool {
    if before.slot != cursor {
        after == before
    } else if !before.live() {
        after == TaskView { valid: false, ..before }
    } else if before.cylinder_line > 0 {
        after == TaskView { cylinder_line: (before.cylinder_line - 1) as u64, ..before }
    } else if !before.fired().valid {
        after == before.fired()
    } else {
        after == TaskView { valid: false, ..before.fired() } || exists|fire_at: i64|
            after == before.fired().placed(cursor, fire_at as int, now)
    }
}

/// Whether the task leaves the wheel on a visit of the cursor at `cursor`.
pub open spec fn leaves(task: TaskView, cursor: int) -> bool {
    task.slot == cursor && !task.valid
}

/// The tasks that stay in the wheel after a visit of the cursor at `cursor`.
pub open spec fn staying(tasks: Seq<TaskView>, cursor: int) -> Seq<TaskView>
    decreases tasks.len(),
{
    if tasks.len() == 0 {
        tasks
    } else if leaves(tasks[0], cursor) {
        staying(tasks.skip(1), cursor)
    } else {
        seq![tasks[0]] + staying(tasks.skip(1), cursor)
    }
}

/// Whether a valid task with this id waits in the wheel.
pub open spec fn holds_live(tasks: Seq<TaskView>, task_id: u32) -> bool {
    exists|i: int| 0 <= i < tasks.len() && tasks[i].valid && tasks[i].task_id == task_id
}

/// The wheel's tasks as they stand: in slots, a valid task has a fire left,
/// and no two valid tasks share an id.
pub open spec fn well_placed(tasks: Seq<TaskView>) -> bool {
    &&& forall|i: int| 0 <= i < tasks.len() ==> 0 <= #[trigger] tasks[i].slot < SLOT_COUNT
    &&& forall|i: int| 0 <= i < tasks.len() && #[trigger] tasks[i].valid ==> tasks[i].remaining
        != Some(0u32)
    &&& forall|i: int, j: int|
        0 <= i < tasks.len() && 0 <= j < tasks.len() && i != j && #[trigger] tasks[i].valid
            && #[trigger] tasks[j].valid ==> tasks[i].task_id != tasks[j].task_id
}

/// The tasks after the valid one with this id is taken out of the schedule.
pub open spec fn removed(tasks: Seq<TaskView>, task_id: u32) -> Seq<TaskView> {
    tasks.map_values(
        |t: TaskView|
            if t.valid && t.task_id == task_id {
                TaskView { valid: false, ..t }
            } else {
                t
            },
    )
}

/// Taking a task out of the schedule keeps the wheel well placed.
pub proof fn lemma_removed_well_placed(tasks: Seq<TaskView>, task_id: u32)
    requires
        well_placed(tasks),
    ensures
        well_placed(removed(tasks, task_id)),
{
    let after = removed(tasks, task_id);
    assert forall|i: int| 0 <= i < after.len() implies after[i].task_id == tasks[i].task_id
        && after[i].slot == tasks[i].slot && after[i].remaining == tasks[i].remaining
        && (after[i].valid ==> tasks[i].valid) by {}
}

/// A task leaving the wheel keeps it well placed.
pub proof fn lemma_remove_well_placed(tasks: Seq<TaskView>, k: int)
    requires
        well_placed(tasks),
        0 <= k < tasks.len(),
    ensures
        well_placed(tasks.remove(k)),
{
    let after = tasks.remove(k);
    assert forall|a: int| 0 <= a < after.len() implies after[a] == tasks[if a < k { a } else { a + 1 }] by {}
}

/// The scheduler: a wheel of sixty slots with its cursor.
pub struct DelayTimer {
    tasks: Vec<Task>,
    cursor: usize,
    stopped: bool,
    runs: RunTable,
}

impl DelayTimer {
    /// The tasks in the wheel, each with its slot, in the order in which the
    /// wheel walks them.
    pub closed spec fn tasks(&self) -> Seq<TaskView> {
        self.tasks@.map_values(|t: Task| t@)
    }

    pub closed spec fn cursor(&self) -> int {
        self.cursor as int
    }

    pub closed spec fn stopped(&self) -> bool {
        self.stopped
    }

    /// The runs in flight.
    pub closed spec fn runs(&self) -> RunTable {
        self.runs
    }

    pub closed spec fn wf(&self) -> bool {
        &&& self.cursor < SLOT_COUNT
        &&& well_placed(self.tasks())
        &&& self.runs.wf()
    }

    pub fn new() -> (r: DelayTimer)
        ensures
            r.wf(),
            r.tasks() == Seq::<TaskView>::empty(),
            r.cursor() == 0,
            !r.stopped(),
            r.runs().records() == Seq::<RunRecord>::empty(),
    {
        let r = DelayTimer { tasks: Vec::new(), cursor: 0, stopped: false, runs: RunTable::new() };
        assert(r.tasks() =~= Seq::<TaskView>::empty());
        r
    }

    pub fn cursor_position(&self) -> (r: usize)
        ensures
            r == self.cursor(),
    {
        self.cursor
    }

    /// How many tasks the wheel holds, valid or waiting to leave.
    pub fn task_count(&self) -> (r: usize)
        ensures
            r == self.tasks().len(),
    {
        self.tasks.len()
    }

    pub fn is_stopped(&self) -> (r: bool)
        ensures
            r == self.stopped(),
    {
        self.stopped
    }

    /// Whether a valid task with this id waits in the wheel.
    pub fn contains_task(&self, task_id: u32) -> (r: bool)
        ensures
            r == holds_live(self.tasks(), task_id),
    {
        let mut i: usize = 0;
        while i < self.tasks.len()
            invariant
                0 <= i <= self.tasks@.len(),
                forall|j: int| 0 <= j < i ==> !(self.tasks()[j].valid && self.tasks()[j].task_id
                    == task_id),
            decreases self.tasks@.len() - i,
        {
            if self.tasks[i].is_valid() && self.tasks[i].id() == task_id {
                assert(self.tasks()[i as int] == self.tasks@[i as int]@);
                return true;
            }
            i = i + 1;
        }
        false
    }

    /// Puts a task due at `next` into the wheel at the cursor, as seen at
    /// epoch second `now`; a schedule with no instant left is refused.
    pub fn insert_placed(&mut self, task: Task, next: Option<i64>, now: i64) -> (r: Result<(), TaskError>)
        requires
            old(self).wf(),
            !holds_live(old(self).tasks(), task@.task_id),
            task@.live(),
        ensures
            final(self).wf(),
            final(self).cursor() == old(self).cursor(),
            final(self).stopped() == old(self).stopped(),
            final(self).runs() == old(self).runs(),
            match next {
                None => r == Err::<(), TaskError>(TaskError::InvalidCron) && final(self).tasks()
                    == old(self).tasks(),
                Some(fire_at) => r is Ok && final(self).tasks() == old(self).tasks().push(
                    task@.placed(old(self).cursor(), fire_at as int, now as int),
                ),
            },
    {
        match next {
            None => Err(TaskError::InvalidCron),
            Some(fire_at) => {
                let mut task = task;
                task.place(self.cursor, fire_at, now);
                self.tasks.push(task);
                assert(self.tasks() =~= old(self).tasks().push(
                    task@.placed(old(self).cursor(), fire_at as int, now as int),
                ));
                Ok(())
            },
        }
    }

    /// Adds a task, to fire first at the next instant of its schedule.
    pub fn add_task(&mut self, task: Task, now: i64) -> (r: Result<(), TaskError>)
        requires
            old(self).wf(),
        ensures
            final(self).wf(),
            final(self).cursor() == old(self).cursor(),
            final(self).stopped() == old(self).stopped(),
            final(self).runs() == old(self).runs(),
            old(self).stopped() ==> r == Err::<(), TaskError>(TaskError::Stopped),
            !old(self).stopped() && holds_live(old(self).tasks(), task@.task_id) ==> r == Err::<
                (),
                TaskError,
            >(TaskError::DuplicateTaskId),
            !old(self).stopped() && !holds_live(old(self).tasks(), task@.task_id) && !task@.live()
                ==> r == Err::<(), TaskError>(TaskError::InvalidFrequency),
            !old(self).stopped() && !holds_live(old(self).tasks(), task@.task_id) && task@.live()
                ==> match r {
                Ok(_) => exists|fire_at: i64|
                    final(self).tasks() == old(self).tasks().push(
                        task@.placed(old(self).cursor(), fire_at as int, now as int),
                    ),
                Err(e) => e == TaskError::InvalidCron,
            },
            r is Err ==> final(self).tasks() == old(self).tasks(),
    {
        if self.stopped {
            return Err(TaskError::Stopped);
        }
        if self.contains_task(task.id()) {
            return Err(TaskError::DuplicateTaskId);
        }
        if !task.is_live() {
            return Err(TaskError::InvalidFrequency);
        }
        let mut task = task;
        let next = task.get_next_exec_timestamp();
        self.insert_placed(task, next, now)
    }

    /// Takes the valid task with this id out of the schedule: it fires no
    /// more, and leaves the wheel when the cursor next visits its slot.
    pub fn remove_task(&mut self, task_id: u32) -> (r: Result<(), TaskError>)
        requires
            old(self).wf(),
        ensures
            final(self).wf(),
            final(self).cursor() == old(self).cursor(),
            final(self).stopped() == old(self).stopped(),
            final(self).runs() == old(self).runs(),
            old(self).stopped() ==> r == Err::<(), TaskError>(TaskError::Stopped),
            !old(self).stopped() && !holds_live(old(self).tasks(), task_id) ==> r == Err::<
                (),
                TaskError,
            >(TaskError::NotFound),
            !old(self).stopped() && holds_live(old(self).tasks(), task_id) ==> r is Ok,
            r is Ok ==> final(self).tasks() == removed(old(self).tasks(), task_id),
            r is Err ==> final(self).tasks() == old(self).tasks(),
    {
        if self.stopped {
            return Err(TaskError::Stopped);
        }
        let mut i: usize = 0;
        while i < self.tasks.len()
            invariant
                0 <= i <= self.tasks@.len(),
                *self == *old(self),
                old(self).wf(),
                !old(self).stopped,
                forall|j: int| 0 <= j < i ==> !(self.tasks()[j].valid && self.tasks()[j].task_id
                    == task_id),
            decreases self.tasks@.len() - i,
        {
            if self.tasks[i].is_valid() && self.tasks[i].id() == task_id {
                let ghost before = self.tasks();
                assert(before == old(self).tasks());
                assert(well_placed(before));
                assert(before[i as int] == self.tasks@[i as int]@);
                self.tasks[i].invalidate();
                assert(self.tasks() =~= removed(before, task_id)) by {
                    assert forall|j: int| 0 <= j < before.len() && j != i implies !(before[j].valid
                        && before[j].task_id == task_id) by {
                        assert(before[i as int].valid);
                    }
                }
                proof {
                    lemma_removed_well_placed(before, task_id);
                }
                return Ok(());
            }
            i = i + 1;
        }
        Err(TaskError::NotFound)
    }

    /// Advances the wheel by one tick at epoch second `now`. Each task in the
    /// slot under the cursor is visited in wheel order: one no longer valid
    /// leaves the wheel; one with revolutions to wait counts one off; one
    /// due fires, counts a fire off and goes to its next place, or leaves
    /// the wheel when no fire or instant is left. The cursor then moves on.
    /// A stopped scheduler does nothing.
    pub fn tick(&mut self, now: i64) -> (r: TickOutcome)
        requires
            old(self).wf(),
        ensures
            final(self).wf(),
            final(self).stopped() == old(self).stopped(),
            final(self).runs() == old(self).runs(),
            old(self).stopped() ==> *final(self) == *old(self) && r.fired@.len() == 0
                && r.dropped@.len() == 0,
            !old(self).stopped() ==> r.fired@ == fire_events(old(self).tasks(), old(self).cursor()),
            !old(self).stopped() ==> r.dropped@ == found_dead(old(self).tasks(), old(self).cursor()),
            !old(self).stopped() ==> final(self).cursor() == (old(self).cursor() + 1)
                % (SLOT_COUNT as int),
            !old(self).stopped() ==> exists|visited: Seq<TaskView>|
                visited.len() == old(self).tasks().len() && (forall|j: int|
                    0 <= j < visited.len() ==> visit_step(
                        #[trigger] old(self).tasks()[j],
                        visited[j],
                        old(self).cursor(),
                        now as int,
                    )) && final(self).tasks() == staying(visited, old(self).cursor()),
    {
        let mut fired: Vec<FireEvent> = Vec::new();
        let mut dropped: Vec<u32> = Vec::new();
        if self.stopped {
            return TickOutcome { fired, dropped };
        }
        let cursor = self.cursor;
        let ghost start = self.tasks();
        assert(fired@ =~= fire_events(start.take(0), cursor as int));
        assert(dropped@ =~= found_dead(start.take(0), cursor as int));
        let mut i: usize = 0;
        while i < self.tasks.len()
            invariant
                self.cursor == cursor,
                cursor < SLOT_COUNT,
                !self.stopped,
                self.runs == old(self).runs,
                0 <= i <= self.tasks@.len(),
                self.tasks@.len() == start.len(),
                well_placed(start),
                forall|j: int|
                    0 <= j < self.tasks@.len() ==> #[trigger] self.tasks()[j].task_id
                        == start[j].task_id && (self.tasks()[j].valid ==> start[j].valid)
                        && 0 <= self.tasks()[j].slot < SLOT_COUNT && (self.tasks()[j].valid
                        ==> self.tasks()[j].remaining != Some(0u32)),
                forall|j: int| i <= j < self.tasks@.len() ==> self.tasks()[j] == start[j],
                forall|j: int|
                    0 <= j < i ==> visit_step(
                        #[trigger] start[j],
                        self.tasks()[j],
                        cursor as int,
                        now as int,
                    ),
                fired@ == fire_events(start.take(i as int), cursor as int),
                dropped@ == found_dead(start.take(i as int), cursor as int),
            decreases self.tasks@.len() - i,
        {
            assert(start.take(i + 1).drop_last() =~= start.take(i as int));
            assert(self.tasks()[i as int] == self.tasks@[i as int]@);
            let ghost visited = start[i as int];
            let ghost before = self.tasks@;
            let ghost before_view = self.tasks();
            if self.tasks[i].slot() == cursor {
                if !self.tasks[i].is_live() {
                    dropped.push(self.tasks[i].id());
                    self.tasks[i].invalidate();
                } else if self.tasks[i].check_arrived() {
                    let ghost due = self.tasks@[i as int]@;
                    let event = FireEvent {
                        task_id: self.tasks[i].id(),
                        maximum_running_time: self.tasks[i].maximum_running_time(),
                    };
                    fired.push(event);
                    if self.tasks[i].down_count_and_set_vaild() {
                        match self.tasks[i].get_next_exec_timestamp() {
                            Some(fire_at) => {
                                self.tasks[i].place(cursor, fire_at, now);
                                assert(self.tasks@[i as int]@ == due.fired().placed(
                                    cursor as int,
                                    fire_at as int,
                                    now as int,
                                ));
                            },
                            None => self.tasks[i].invalidate(),
                        }
                    }
                }
            }
            proof {
                assert forall|j: int| 0 <= j < self.tasks@.len() && j != i implies self.tasks()[j]
                    == before_view[j] by {
                    assert(self.tasks@[j] == before[j]);
                }
                let changed = self.tasks()[i as int];
                assert(changed == self.tasks@[i as int]@);
                assert(changed.task_id == visited.task_id);
                assert(changed.valid ==> visited.valid);
                assert(0 <= changed.slot < SLOT_COUNT);
                assert(changed.valid ==> changed.remaining != Some(0u32));
                assert(visit_step(visited, changed, cursor as int, now as int));
                assert forall|j: int| 0 <= j < i + 1 implies visit_step(
                    #[trigger] start[j],
                    self.tasks()[j],
                    cursor as int,
                    now as int,
                ) by {
                    if j < i {
                        assert(self.tasks()[j] == before_view[j]);
                    }
                }
                assert forall|j: int| 0 <= j < self.tasks@.len() implies #[trigger] self.tasks()[j].task_id
                        == start[j].task_id && (self.tasks()[j].valid ==> start[j].valid)
                        && 0 <= self.tasks()[j].slot < SLOT_COUNT && (self.tasks()[j].valid
                        ==> self.tasks()[j].remaining != Some(0u32)) by {
                    if j != i {
                        assert(before_view[j].task_id == start[j].task_id);
                    }
                }
                assert(fired@ =~= fire_events(start.take(i + 1), cursor as int));
                assert(dropped@ =~= found_dead(start.take(i + 1), cursor as int));
            }
            i = i + 1;
        }
        assert(start.take(start.len() as int) =~= start);
        proof {
            let now_tasks = self.tasks();
            assert forall|a: int, b: int|
                0 <= a < now_tasks.len() && 0 <= b < now_tasks.len() && a != b
                    && #[trigger] now_tasks[a].valid && #[trigger] now_tasks[b].valid implies
                now_tasks[a].task_id != now_tasks[b].task_id by {
                assert(now_tasks[a].task_id == start[a].task_id);
                assert(now_tasks[b].task_id == start[b].task_id);
                assert(start[a].valid && start[b].valid);
            }
            assert forall|a: int| 0 <= a < now_tasks.len() implies 0 <= #[trigger] now_tasks[a].slot
                < SLOT_COUNT by {
                assert(now_tasks[a].task_id == start[a].task_id);
            }
            assert forall|a: int| 0 <= a < now_tasks.len() && #[trigger] now_tasks[a].valid implies
                now_tasks[a].remaining != Some(0u32) by {
                assert(now_tasks[a].task_id == start[a].task_id);
            }
            assert(well_placed(now_tasks));
        }
        let ghost visited = self.tasks();
        assert(visited.skip(visited.len() as int) =~= Seq::<TaskView>::empty());
        assert(visited.take(visited.len() as int) =~= visited);
        assert(self.tasks() =~= visited.take(i as int) + staying(visited.skip(i as int), cursor as int));
        while i > 0
            invariant
                self.cursor == cursor,
                cursor < SLOT_COUNT,
                !self.stopped,
                self.runs == old(self).runs,
                0 <= i <= visited.len(),
                i <= self.tasks@.len(),
                well_placed(self.tasks()),
                self.tasks() == visited.take(i as int) + staying(visited.skip(i as int), cursor as int),
            decreases i,
        {
            assert(visited.skip(i - 1).skip(1) =~= visited.skip(i as int));
            assert(visited.skip(i - 1)[0] == visited[i - 1]);
            assert(self.tasks()[i - 1] == visited[i - 1]);
            assert(self.tasks()[i - 1] == self.tasks@[i - 1]@);
            i = i - 1;
            if self.tasks[i].slot() == cursor && !self.tasks[i].is_valid() {
                let ghost before = self.tasks();
                self.tasks.remove(i);
                proof {
                    assert(self.tasks() =~= before.remove(i as int));
                    lemma_remove_well_placed(before, i as int);
                    assert(self.tasks() =~= visited.take(i as int) + staying(visited.skip(i as int), cursor as int));
                }
            } else {
                assert(self.tasks() =~= visited.take(i as int) + staying(visited.skip(i as int), cursor as int));
            }
        }
        assert(visited.skip(0) =~= visited);
        assert(self.tasks() =~= staying(visited, cursor as int));
        self.cursor = (cursor + 1) % SLOT_COUNT;
        TickOutcome { fired, dropped }
    }

    /// Starts a run of a fired task under a fresh record id; `None` once
    /// every record id has been given out.
    pub fn start_run(&mut self, task_id: u32) -> (r: Option<u64>)
        requires
            old(self).wf(),
        ensures
            final(self).wf(),
            final(self).tasks() == old(self).tasks(),
            final(self).cursor() == old(self).cursor(),
            final(self).stopped() == old(self).stopped(),
            old(self).runs().next_record() < u64::MAX ==> r == Some(
                old(self).runs().next_record() as u64,
            ) && final(self).runs().records() == old(self).runs().records().push(
                RunRecord { task_id, record_id: old(self).runs().next_record() as u64 },
            ),
            old(self).runs().next_record() == u64::MAX ==> r is None && final(self).runs()
                == old(self).runs(),
    {
        self.runs.begin(task_id)
    }

    /// Settles a run in flight that `end` ended first; `None` for a run not
    /// in flight.
    pub fn settle_run(&mut self, task_id: u32, record_id: u64, end: RunEnd) -> (r: Option<Settlement>)
        requires
            old(self).wf(),
        ensures
            final(self).wf(),
            final(self).tasks() == old(self).tasks(),
            final(self).cursor() == old(self).cursor(),
            final(self).stopped() == old(self).stopped(),
            holds_record(old(self).runs().records(), RunRecord { task_id, record_id }) ==> r
                == Some(settlement_of(end)),
            !holds_record(old(self).runs().records(), RunRecord { task_id, record_id }) ==> r is None,
            final(self).runs().records() == without(old(self).runs().records(), RunRecord { task_id, record_id }),
            final(self).runs().next_record() == old(self).runs().next_record(),
            !holds_record(final(self).runs().records(), RunRecord { task_id, record_id }),
    {
        self.runs.settle(task_id, record_id, end)
    }

    /// Asks that the run end: `Some(Quit)` when it was in flight, `None`
    /// when it had ended already. The task stays scheduled.
    pub fn cancel_task(&mut self, task_id: u32, record_id: u64) -> (r: Result<Option<Settlement>, TaskError>)
        requires
            old(self).wf(),
        ensures
            final(self).wf(),
            final(self).tasks() == old(self).tasks(),
            final(self).cursor() == old(self).cursor(),
            final(self).stopped() == old(self).stopped(),
            old(self).stopped() ==> r == Err::<Option<Settlement>, TaskError>(TaskError::Stopped)
                && final(self).runs() == old(self).runs(),
            !old(self).stopped() && holds_record(old(self).runs().records(), RunRecord { task_id, record_id }) ==> r
                == Ok::<Option<Settlement>, TaskError>(Some(Settlement::Quit)),
            !old(self).stopped() && !holds_record(old(self).runs().records(), RunRecord { task_id, record_id }) ==> r
                == Ok::<Option<Settlement>, TaskError>(None),
            !old(self).stopped() ==> final(self).runs().records() == without(
                old(self).runs().records(),
                RunRecord { task_id, record_id },
            ),
            final(self).runs().next_record() == old(self).runs().next_record(),
            !holds_record(old(self).runs().records(), RunRecord { task_id, record_id }) ==> final(self).runs().records()
                == old(self).runs().records(),
            !holds_record(final(self).runs().records(), RunRecord { task_id, record_id }) || old(self).stopped(),
    {
        if self.stopped {
            return Err(TaskError::Stopped);
        }
        Ok(self.runs.settle(task_id, record_id, RunEnd::Cancelled))
    }

    /// The record id of the task's latest run in flight.
    pub fn latest_run(&self, task_id: u32) -> (r: Option<u64>)
        ensures
            r == crate::supervisor::latest_of(self.runs().records(), task_id),
    {
        self.runs.latest(task_id)
    }

    /// Where the valid task with this id waits.
    pub fn task_mark(&self, task_id: u32) -> (r: Option<TaskMark>)
        requires
            self.wf(),
        ensures
            r.is_some() == holds_live(self.tasks(), task_id),
            r matches Some(m) ==> m.task_id == task_id && exists|i: int|
                0 <= i < self.tasks().len() && self.tasks()[i].valid && self.tasks()[i].task_id
                    == task_id && self.tasks()[i].slot == m.slot_mark as int,
    {
        let mut i: usize = 0;
        while i < self.tasks.len()
            invariant
                0 <= i <= self.tasks@.len(),
                self.wf(),
                forall|j: int| 0 <= j < i ==> !(self.tasks()[j].valid && self.tasks()[j].task_id
                    == task_id),
            decreases self.tasks@.len() - i,
        {
            if self.tasks[i].is_valid() && self.tasks[i].id() == task_id {
                assert(self.tasks()[i as int] == self.tasks@[i as int]@);
                let slot = self.tasks[i].slot();
                assert(slot < SLOT_COUNT);
                return Some(TaskMark { task_id, slot_mark: slot as u32 });
            }
            i = i + 1;
        }
        None
    }

    /// Stops the scheduler: no task fires and no command is taken after.
    /// Stopping a stopped scheduler changes nothing.
    pub fn stop_delay_timer(&mut self)
        ensures
            final(self).stopped(),
            final(self).tasks() == old(self).tasks(),
            final(self).cursor() == old(self).cursor(),
            final(self).runs() == old(self).runs(),
            final(self).wf() == old(self).wf(),
            old(self).stopped() ==> *final(self) == *old(self),
    {
        if !self.stopped {
            self.stopped = true;
        }
    }
}

} // verus!
