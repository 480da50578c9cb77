//! The most recently ended executions.

use vstd::prelude::*;

use crate::execute::ExecutionRecord;
use crate::search::{first, found, lemma_first};
use crate::table::{find_in, Test};
use crate::text::same;

verus! {

pub open spec fn execution_is(id: Seq<char>) -> spec_fn(ExecutionRecord) -> bool {
    |record: ExecutionRecord| record.execution_id@ == id
}

/// Selects an execution by its identifier.
pub struct ExecutionIs<'a> {
    pub id: &'a str,
}

impl<'a> Test<ExecutionRecord> for ExecutionIs<'a> {
    open spec fn pred(&self) -> spec_fn(ExecutionRecord) -> bool {
        execution_is(self.id@)
    }

    fn test(&self, item: &ExecutionRecord) -> (r: bool) {
        same(&item.execution_id, self.id)
    }
}

/// How many executions are kept.
pub const CAPACITY: usize = 4096;

/// The most recently terminalized executions, by execution ID, oldest
/// first.
pub struct TerminalLog {
    records: Vec<ExecutionRecord>,
}

/// Whether no execution is in a log twice, and it holds no more than it
/// may.
pub open spec fn is_log(records: Seq<ExecutionRecord>) -> bool {
    &&& records.len() <= CAPACITY
    &&& forall|i: int, j: int|
        0 <= i < j < records.len() ==> (#[trigger] records[i]).execution_id@ != (
        #[trigger] records[j]).execution_id@
}

/// A log with an execution recorded: over what it said of the same
/// execution, or as the newest, with the oldest forgotten beyond capacity.
pub open spec fn logged(records: Seq<ExecutionRecord>, record: ExecutionRecord) -> Seq<
    ExecutionRecord,
> {
    match first(records, execution_is(record.execution_id@)) {
        Some(i) => records.update(i, record),
        None => if records.len() < CAPACITY {
            records.push(record)
        } else {
            records.push(record).skip(1)
        },
    }
}

impl View for TerminalLog {
    type V = Seq<ExecutionRecord>;

    closed spec fn view(&self) -> Seq<ExecutionRecord> {
        self.records@
    }
}

impl TerminalLog {
    #[verifier::type_invariant]
    closed spec fn wf(self) -> bool {
        is_log(self.records@)
    }

    pub fn new() -> (r: Self)
        ensures
            r@ == Seq::<ExecutionRecord>::empty(),
    {
        TerminalLog { records: Vec::new() }
    }

    pub fn get(&self, execution_id: &str) -> (r: Option<&ExecutionRecord>)
        ensures
            match r {
                Some(record) => found(self@, execution_is(execution_id@)) == Some(*record),
                None => found(self@, execution_is(execution_id@)) is None,
            },
    {
        match find_in(&self.records, &ExecutionIs { id: execution_id }) {
            Some(i) => Some(&self.records[i]),
            None => None,
        }
    }

    pub fn insert(&mut self, record: ExecutionRecord)
        ensures
            final(self)@ == logged(old(self)@, record),
            is_log(final(self)@),
    {
        proof {
            use_type_invariant(&*self);
            law_log_stays_a_log(self.records@, record);
        }
        let ghost before = self.records@;
        let mut records: Vec<ExecutionRecord> = Vec::new();
        std::mem::swap(&mut records, &mut self.records);
        match find_in(&records, &ExecutionIs { id: &record.execution_id }) {
            Some(i) => {
                records.set(i, record);
            },
            None => {
                records.push(record);
                if records.len() > CAPACITY {
                    records.remove(0);
                    proof {
                        assert(records@ =~= before.push(record).skip(1));
                    }
                }
            },
        }
        self.records = records;
    }
}

/// Recording an execution keeps a log bounded and each execution in it
/// once.
pub proof fn law_log_stays_a_log(records: Seq<ExecutionRecord>, record: ExecutionRecord)
    requires
        is_log(records),
    ensures
        is_log(logged(records, record)),
{
    let p = execution_is(record.execution_id@);
    lemma_first(records, p);
    let after = logged(records, record);
    match first(records, p) {
        Some(k) => {
            assert forall|i: int, j: int| 0 <= i < j < after.len() implies (
            #[trigger] after[i]).execution_id@ != (#[trigger] after[j]).execution_id@ by {
                assert(records[i].execution_id@ != records[j].execution_id@);
            }
        },
        None => {
            let all = records.push(record);
            assert forall|i: int, j: int| 0 <= i < j < all.len() implies (
            #[trigger] all[i]).execution_id@ != (#[trigger] all[j]).execution_id@ by {
                assert(all[i] == records[i]);
                if j < records.len() {
                    assert(all[j] == records[j]);
                } else {
                    assert(!p(records[i]));
                }
            }
            if records.len() >= CAPACITY {
                assert forall|i: int, j: int| 0 <= i < j < after.len() implies (
                #[trigger] after[i]).execution_id@ != (#[trigger] after[j]).execution_id@ by {
                    assert(after[i] == all[i + 1] && after[j] == all[j + 1]);
                }
            }
        },
    }
}

/// An execution that was just recorded is found as it was recorded.
pub proof fn law_recorded_execution_is_found(
    records: Seq<ExecutionRecord>,
    record: ExecutionRecord,
)
    requires
        is_log(records),
    ensures
        found(logged(records, record), execution_is(record.execution_id@)) == Some(record),
{
    let p = execution_is(record.execution_id@);
    let after = logged(records, record);
    lemma_first(records, p);
    lemma_first(after, p);
    law_log_stays_a_log(records, record);
    let at = match first(records, p) {
        Some(k) => k,
        None => after.len() - 1,
    };
    assert(after[at] == record);
    assert(p(after[at]));
    let k = first(after, p).unwrap();
    if k != at {
        assert(after[k].execution_id@ != after[at].execution_id@);
    }
}

/// Terminalizing an execution again is a no-op.
pub proof fn law_recording_again_changes_nothing(
    records: Seq<ExecutionRecord>,
    record: ExecutionRecord,
)
    requires
        is_log(records),
    ensures
        logged(logged(records, record), record) == logged(records, record),
{
    let p = execution_is(record.execution_id@);
    let after = logged(records, record);
    law_recorded_execution_is_found(records, record);
    lemma_first(after, p);
    let k = first(after, p).unwrap();
    assert(after[k] == record);
    assert(after.update(k, record) =~= after);
}

/// Recording an execution forgets none of the others before there are
/// 4,096, and from there on no more than the oldest.
pub proof fn law_only_the_oldest_execution_is_forgotten(
    records: Seq<ExecutionRecord>,
    record: ExecutionRecord,
    i: int,
)
    requires
        is_log(records),
        0 <= i < records.len(),
        records[i].execution_id@ != record.execution_id@,
        i > 0 || records.len() < 4096,
    ensures
        logged(records, record).contains(records[i]),
        records.len() <= 4096,
        logged(records, record).len() <= 4096,
{
    let p = execution_is(record.execution_id@);
    let after = logged(records, record);
    lemma_first(records, p);
    law_log_stays_a_log(records, record);
    if first(records, p) is Some || records.len() < 4096 {
        assert(after[i] == records[i]);
    } else {
        assert(after[i - 1] == records[i]);
    }
}

} // verus!
