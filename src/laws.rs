//! What holds of the scheduler over all inputs and over sequences of calls.
use vstd::prelude::*;
use vstd::arithmetic::div_mod::{lemma_fundamental_div_mod, lemma_add_mod_noop, lemma_small_mod, lemma_mod_pos_bound};
use crate::supervisor::{RunRecord, RunEnd, Settlement, holds_record, issued_below, settlement_of, without};
use crate::task::{frequency, TaskView, SLOT_COUNT, cylinder_of, delay_of, slot_of};
use crate::wheel::{holds_live, removed, well_placed};

verus! {

/// The task after `k` fires.
pub open spec fn fired_times(task: TaskView, k: nat) -> TaskView
    decreases k,
{
    if k == 0 {
        task
    } else {
        fired_times(task, (k - 1) as nat).fired()
    }
}

/// The ids of the valid tasks, in wheel order.
pub open spec fn live_ids(tasks: Seq<TaskView>) -> Seq<u32>
    decreases tasks.len(),
{
    if tasks.len() == 0 {
        Seq::empty()
    } else if tasks.last().valid {
        live_ids(tasks.drop_last()).push(tasks.last().task_id)
    } else {
        live_ids(tasks.drop_last())
    }
}

/// A valid task stands at one place in the wheel, hence in one slot: two
/// valid tasks with one id are the same entry.
pub proof fn valid_task_in_one_slot(tasks: Seq<TaskView>, i: int, j: int)
    requires
        well_placed(tasks),
        0 <= i < tasks.len(),
        0 <= j < tasks.len(),
        tasks[i].valid,
        tasks[j].valid,
        tasks[i].task_id == tasks[j].task_id,
    ensures
        i == j,
        tasks[i].slot == tasks[j].slot,
{
}

/// A task with `n` fires left may fire after each of its first `n` fires
/// but the last, and not after the `n`-th: it fires exactly `n` times.
pub proof fn count_down_fires_exactly(task: TaskView, n: u32)
    requires
        task.valid,
        task.remaining == Some(n),
        n > 0,
    ensures
        forall|k: nat| k < n ==> #[trigger] fired_times(task, k).live() && fired_times(task, k).remaining
            == Some((n - k) as u32),
        !fired_times(task, n as nat).live(),
    decreases n,
{
    assert forall|k: nat| k <= n implies #[trigger] fired_times(task, k).remaining == Some((n - k) as u32)
        && (fired_times(task, k).valid <==> k < n) by {
        lemma_fired_times(task, n, k);
    }
}

proof fn lemma_fired_times(task: TaskView, n: u32, k: nat)
    requires
        task.valid,
        task.remaining == Some(n),
        k <= n,
    ensures
        fired_times(task, k).remaining == Some((n - k) as u32),
        fired_times(task, k).valid <==> k < n || n == 0,
    decreases k,
{
    if k > 0 {
        lemma_fired_times(task, n, (k - 1) as nat);
    }
}

/// A task of one fire (what `Once` builds) fires once, then is dead.
pub proof fn once_fires_once(task: TaskView)
    requires
        task.valid,
        task.remaining == Some(1u32),
    ensures
        task.live(),
        !task.fired().live(),
        !task.fired().valid,
{
}

/// The task after `k` visits of its slot on which it waited.
pub open spec fn waited_times(task: TaskView, k: nat) -> TaskView
    decreases k,
{
    if k == 0 {
        task
    } else {
        let t = waited_times(task, (k - 1) as nat);
        TaskView { cylinder_line: (t.cylinder_line - 1) as u64, ..t }
    }
}

/// A live task placed with `L` revolutions to wait is not due on the first
/// `L` visits of its slot, each of which counts one off, and is due on the
/// next: no fire comes before its instant.
pub proof fn waits_its_revolutions(task: TaskView)
    requires
        task.live(),
    ensures
        forall|k: nat| k < task.cylinder_line ==> !#[trigger] waited_times(task, k).arrived()
            && waited_times(task, k).cylinder_line == task.cylinder_line - k,
        waited_times(task, task.cylinder_line as nat).arrived(),
{
    assert forall|k: nat| k <= task.cylinder_line implies #[trigger] waited_times(task, k).cylinder_line
        == task.cylinder_line - k && waited_times(task, k).live() by {
        lemma_waited_times(task, k);
    }
}

proof fn lemma_waited_times(task: TaskView, k: nat)
    requires
        k <= task.cylinder_line,
    ensures
        waited_times(task, k).cylinder_line == task.cylinder_line - k,
        waited_times(task, k).valid == task.valid,
        waited_times(task, k).remaining == task.remaining,
    decreases k,
{
    if k > 0 {
        lemma_waited_times(task, (k - 1) as nat);
    }
}

/// `Once` asks for a count of one, with the same expression: the task it
/// builds fires once (see `once_fires_once`).
pub proof fn once_is_a_count_of_one(e: &'static str)
    ensures
        frequency::Once(e).count() == Some(1u32),
        frequency::Once(e).count() == frequency::CountDown(1, e).count(),
        frequency::Once(e).expression() == frequency::CountDown(1, e).expression(),
{
}

/// A task placed at the cursor is never due at the cursor's own tick: it
/// lands in another slot, or waits at least one revolution.
pub proof fn never_fires_when_placed(cursor: int, fire_at: int, now: int)
    requires
        0 <= cursor < SLOT_COUNT,
    ensures
        slot_of(cursor, fire_at, now) == cursor ==> cylinder_of(fire_at, now) >= 1,
{
    let d = delay_of(fire_at, now);
    lemma_fundamental_div_mod(d, 60);
    lemma_add_mod_noop(cursor, d, 60);
    lemma_small_mod(cursor as nat, 60);
    lemma_mod_pos_bound(d, 60);
    if slot_of(cursor, fire_at, now) == cursor && d / 60 == 0 {
        lemma_small_mod(d as nat, 60);
        lemma_small_mod((cursor + d) as nat, 60);
        if cursor + d >= 60 {
            assert((cursor + d) % 60 == cursor + d - 60) by {
                vstd::arithmetic::div_mod::lemma_mod_sub_multiples_vanish(cursor + d, 60);
                lemma_small_mod((cursor + d - 60) as nat, 60);
            }
        }
    }
}

/// Placement reaches the fire instant exactly: the slot is the delay on
/// from the cursor, and the revolutions are the whole minutes of the delay.
pub proof fn placement_is_exact(cursor: int, fire_at: int, now: int)
    requires
        0 <= cursor < SLOT_COUNT,
    ensures
        delay_of(fire_at, now) == 60 * cylinder_of(fire_at, now) + (slot_of(cursor, fire_at, now)
            - cursor + 60) % 60,
        fire_at > now ==> now + delay_of(fire_at, now) == fire_at,
{
    let d = delay_of(fire_at, now);
    lemma_fundamental_div_mod(d, 60);
    lemma_add_mod_noop(cursor, d, 60);
    lemma_small_mod(cursor as nat, 60);
    lemma_mod_pos_bound(d, 60);
    let s = (cursor + d % 60) % 60;
    assert(s == slot_of(cursor, fire_at, now));
    if cursor + d % 60 < 60 {
        lemma_small_mod((cursor + d % 60) as nat, 60);
        lemma_small_mod((d % 60) as nat, 60);
        assert((s - cursor + 60) % 60 == d % 60) by {
            vstd::arithmetic::div_mod::lemma_mod_add_multiples_vanish(d % 60, 60);
        }
    } else {
        assert(s == cursor + d % 60 - 60) by {
            vstd::arithmetic::div_mod::lemma_mod_sub_multiples_vanish(cursor + d % 60, 60);
            lemma_small_mod((cursor + d % 60 - 60) as nat, 60);
        }
        lemma_small_mod((d % 60) as nat, 60);
    }
}

/// A task due now, or already past, is placed to fire on the next tick.
pub proof fn due_now_fires_next_tick(cursor: int, fire_at: int, now: int)
    requires
        0 <= cursor < SLOT_COUNT,
        fire_at <= now,
    ensures
        slot_of(cursor, fire_at, now) == (cursor + 1) % 60,
        cylinder_of(fire_at, now) == 0,
{
}

/// A task due one minute ahead goes to the cursor's own slot and waits one
/// revolution.
pub proof fn minute_ahead_waits_one_revolution(cursor: int, now: int)
    requires
        0 <= cursor < SLOT_COUNT,
    ensures
        cylinder_of(now + 60, now) == 1,
        slot_of(cursor, now + 60, now) == cursor,
{
    assert((cursor + 60) % 60 == cursor) by {
        vstd::arithmetic::div_mod::lemma_mod_add_multiples_vanish(cursor, 60);
        lemma_small_mod(cursor as nat, 60);
    }
}

/// A task due more than an hour ahead waits at least sixty revolutions.
pub proof fn hours_ahead_wait_revolutions(fire_at: int, now: int)
    requires
        fire_at - now > 3600,
    ensures
        cylinder_of(fire_at, now) >= 60,
{
    vstd::arithmetic::div_mod::lemma_div_is_ordered(3600, fire_at - now, 60);
}

/// Adding a task and removing it leaves the valid tasks as they were.
pub proof fn add_then_remove_restores(tasks: Seq<TaskView>, task: TaskView, cursor: int, fire_at: int, now: int)
    requires
        well_placed(tasks),
        !holds_live(tasks, task.task_id),
        task.valid,
    ensures
        live_ids(removed(tasks.push(task.placed(cursor, fire_at, now)), task.task_id)) == live_ids(tasks),
        !holds_live(removed(tasks.push(task.placed(cursor, fire_at, now)), task.task_id), task.task_id),
{
    let placed = task.placed(cursor, fire_at, now);
    let after = removed(tasks.push(placed), task.task_id);
    assert(after.drop_last() =~= tasks) by {
        assert forall|i: int| 0 <= i < tasks.len() implies !(tasks[i].valid && tasks[i].task_id
            == task.task_id) by {}
    }
    assert(!after.last().valid);
    lemma_removed_not_live(tasks.push(placed), task.task_id);
}

/// After a removal no valid task with that id is left, so a second removal
/// finds nothing and changes nothing.
pub proof fn remove_twice_finds_nothing(tasks: Seq<TaskView>, task_id: u32)
    ensures
        !holds_live(removed(tasks, task_id), task_id),
{
    lemma_removed_not_live(tasks, task_id);
}

proof fn lemma_removed_not_live(tasks: Seq<TaskView>, task_id: u32)
    ensures
        !holds_live(removed(tasks, task_id), task_id),
{
    let after = removed(tasks, task_id);
    assert forall|i: int| 0 <= i < after.len() implies !(after[i].valid && after[i].task_id == task_id) by {}
}

/// A run is settled at most once: once settled it is no longer in flight,
/// and its record id lies below every id still to be given out.
pub proof fn settled_at_most_once(records: Seq<RunRecord>, next: nat, record: RunRecord)
    requires
        issued_below(records, next),
        holds_record(records, record),
    ensures
        !holds_record(without(records, record), record),
        record.record_id < next,
{
    let k = choose|k: int| 0 <= k < records.len() && records[k] == record;
    crate::supervisor::lemma_without_unique(records, k);
}

/// Every run in flight ends in exactly one way: the body finishes, or the
/// handle is quit.
pub proof fn run_ends_one_way(end: RunEnd)
    ensures
        (settlement_of(end) == Settlement::Finish) != (settlement_of(end) == Settlement::Quit),
        settlement_of(end) == Settlement::Finish <==> end == RunEnd::Finished,
{
}

} // verus!
