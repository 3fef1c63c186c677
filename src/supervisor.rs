//! The table of in-flight runs: each fire of a task starts a run with a
//! fresh record id, and each run is settled once, by its own finish, a
//! cancellation or a timeout.
use vstd::prelude::*;

verus! {

/// One run of a task.
#[derive(Debug, Clone, Copy, PartialEq, Eq, Structural)]
pub struct RunRecord {
    pub task_id: u32,
    pub record_id: u64,
}

/// What ended a run first.
#[derive(Debug, Clone, Copy, PartialEq, Eq, Structural)]
pub enum RunEnd {
    Finished,
    Cancelled,
    TimedOut,
}

/// What is done with the run's handle: nothing more when the body
/// finished by itself, `quit` otherwise.
#[derive(Debug, Clone, Copy, PartialEq, Eq, Structural)]
pub enum Settlement {
    Finish,
    Quit,
}

/// The settlement owed to a run that `end` ended.
pub open spec fn settlement_of(end: RunEnd) -> Settlement {
    match end {
        RunEnd::Finished => Settlement::Finish,
        _ => Settlement::Quit,
    }
}

/// Whether the run is among `records`.
pub open spec fn holds_record(records: Seq<RunRecord>, record: RunRecord) -> bool {
    exists|i: int| 0 <= i < records.len() && records[i] == record
}

/// `records` without the run.
pub open spec fn without(records: Seq<RunRecord>, record: RunRecord) -> Seq<RunRecord> {
    records.filter(|r: RunRecord| r != record)
}

/// The record id of the latest run of the task among `records`.
pub open spec fn latest_of(records: Seq<RunRecord>, task_id: u32) -> Option<u64>
    decreases records.len(),
{
    if records.len() == 0 {
        None
    } else if records.last().task_id == task_id {
        Some(records.last().record_id)
    } else {
        latest_of(records.drop_last(), task_id)
    }
}

/// Record ids below `next`, and increasing along the table.
pub open spec fn issued_below(records: Seq<RunRecord>, next: nat) -> bool {
    &&& forall|i: int| 0 <= i < records.len() ==> (#[trigger] records[i]).record_id < next
    &&& forall|i: int, j: int|
        0 <= i < j < records.len() ==> (#[trigger] records[i]).record_id
            < (#[trigger] records[j]).record_id
}

/// The runs in flight, with the record id that the next run gets.
pub struct RunTable {
    records: Vec<RunRecord>,
    next_record: u64,
}

impl RunTable {
    pub closed spec fn records(&self) -> Seq<RunRecord> {
        self.records@
    }

    pub closed spec fn next_record(&self) -> nat {
        self.next_record as nat
    }

    pub closed spec fn wf(&self) -> bool {
        issued_below(self.records@, self.next_record as nat)
    }

    pub fn new() -> (r: RunTable)
        ensures
            r.wf(),
            r.records() == Seq::<RunRecord>::empty(),
            r.next_record() == 0,
    {
        RunTable { records: Vec::new(), next_record: 0 }
    }

    /// Starts a run of the task under a fresh record id; `None` once every
    /// record id has been given out.
    pub fn begin(&mut self, task_id: u32) -> (r: Option<u64>)
        requires
            old(self).wf(),
        ensures
            final(self).wf(),
            old(self).next_record() < u64::MAX ==> r == Some(old(self).next_record() as u64)
                && final(self).records() == old(self).records().push(
                RunRecord { task_id, record_id: old(self).next_record() as u64 },
            ) && final(self).next_record() == old(self).next_record() + 1,
            old(self).next_record() == u64::MAX ==> r is None && *final(self) == *old(self),
    {
        if self.next_record == u64::MAX {
            return None;
        }
        let record_id = self.next_record;
        self.records.push(RunRecord { task_id, record_id });
        self.next_record = record_id + 1;
        Some(record_id)
    }

    /// Whether the run is in flight.
    pub fn outstanding(&self, task_id: u32, record_id: u64) -> (r: bool)
        ensures
            r == holds_record(self.records(), RunRecord { task_id, record_id }),
    {
        let mut i: usize = 0;
        while i < self.records.len()
            invariant
                0 <= i <= self.records@.len(),
                forall|j: int| 0 <= j < i ==> self.records@[j] != (RunRecord { task_id, record_id }),
            decreases self.records@.len() - i,
        {
            let r = self.records[i];
            if r.task_id == task_id && r.record_id == record_id {
                return true;
            }
            i = i + 1;
        }
        false
    }

    /// The record id of the task's latest run in flight.
    pub fn latest(&self, task_id: u32) -> (r: Option<u64>)
        ensures
            r == latest_of(self.records(), task_id),
    {
        let mut i: usize = self.records.len();
        assert(self.records@.take(i as int) =~= self.records@);
        while i > 0
            invariant
                0 <= i <= self.records@.len(),
                latest_of(self.records@, task_id) == latest_of(self.records@.take(i as int), task_id),
            decreases i,
        {
            assert(self.records@.take(i as int).drop_last() =~= self.records@.take(i - 1));
            let r = self.records[i - 1];
            if r.task_id == task_id {
                return Some(r.record_id);
            }
            i = i - 1;
        }
        assert(self.records@.take(0) =~= Seq::<RunRecord>::empty());
        None
    }

    /// Settles a run in flight that `end` ended first, and says what is
    /// owed to its handle. A run that is not in flight, being settled
    /// already or never begun, is left alone: `None`.
    pub fn settle(&mut self, task_id: u32, record_id: u64, end: RunEnd) -> (r: Option<Settlement>)
        requires
            old(self).wf(),
        ensures
            final(self).wf(),
            final(self).next_record() == old(self).next_record(),
            holds_record(old(self).records(), RunRecord { task_id, record_id }) ==> r == Some(
                settlement_of(end),
            ),
            !holds_record(old(self).records(), RunRecord { task_id, record_id }) ==> r is None
                && final(self).records() == old(self).records(),
            final(self).records() == without(old(self).records(), RunRecord { task_id, record_id }),
            !holds_record(final(self).records(), RunRecord { task_id, record_id }),
    {
        let ghost target = RunRecord { task_id, record_id };
        let mut i: usize = 0;
        while i < self.records.len()
            invariant
                0 <= i <= self.records@.len(),
                *self == *old(self),
                old(self).wf(),
                target == (RunRecord { task_id, record_id }),
                forall|j: int| 0 <= j < i ==> self.records@[j] != target,
            decreases self.records@.len() - i,
        {
            let r = self.records[i];
            if r.task_id == task_id && r.record_id == record_id {
                let ghost before = self.records@;
                self.records.remove(i);
                proof {
                    lemma_without_unique(before, i as int);
                    lemma_issued_below_remove(before, self.next_record as nat, i as int);
                }
                return Some(
                    match end {
                        RunEnd::Finished => Settlement::Finish,
                        _ => Settlement::Quit,
                    },
                );
            }
            i = i + 1;
        }
        proof {
            lemma_filter_keeps_all(self.records@, target);
        }
        None
    }
}

/// Filtering out a record that is not there keeps everything.
proof fn lemma_filter_keeps_all(records: Seq<RunRecord>, target: RunRecord)
    requires
        forall|j: int| 0 <= j < records.len() ==> records[j] != target,
    ensures
        without(records, target) == records,
    decreases records.len(),
{
    reveal_with_fuel(Seq::filter, 1);
    if records.len() > 0 {
        lemma_filter_keeps_all(records.drop_last(), target);
        assert(records.drop_last().push(records.last()) =~= records);
    } else {
        assert(without(records, target) =~= records);
    }
}

/// In a table of increasing record ids, filtering out one record drops
/// exactly its position.
pub proof fn lemma_without_unique(records: Seq<RunRecord>, k: int)
    requires
        0 <= k < records.len(),
        forall|i: int, j: int|
            0 <= i < j < records.len() ==> (#[trigger] records[i]).record_id
                < (#[trigger] records[j]).record_id,
    ensures
        without(records, records[k]) == records.remove(k),
        !holds_record(records.remove(k), records[k]),
    decreases records.len(),
{
    let target = records[k];
    let rest = records.remove(k);
    assert forall|j: int| 0 <= j < rest.len() implies rest[j] != target by {
        if j < k {
            assert(rest[j] == records[j]);
        } else {
            assert(rest[j] == records[j + 1]);
        }
    }
    reveal_with_fuel(Seq::filter, 1);
    if k == records.len() - 1 {
        assert(records.drop_last() =~= rest);
        lemma_filter_keeps_all(rest, target);
    } else {
        lemma_without_unique(records.drop_last(), k);
        assert(records.drop_last().remove(k).push(records.last()) =~= rest);
        assert(records.last() != target);
    }
}

proof fn lemma_issued_below_remove(records: Seq<RunRecord>, next: nat, k: int)
    requires
        issued_below(records, next),
        0 <= k < records.len(),
    ensures
        issued_below(records.remove(k), next),
{
    let rest = records.remove(k);
    assert forall|a: int| 0 <= a < rest.len() implies rest[a] == records[if a < k { a } else { a + 1 }] by {}
}

} // verus!
