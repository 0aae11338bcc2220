use vstd::prelude::*;

use crate::handle_dir::DirEntry;

verus! {

/// Why an entry could not be moved.
#[derive(Clone, Copy, Debug, PartialEq, Eq, Structural)]
pub enum MoveFailure {
    /// The category directory could not be created.
    DirectoryCreate,
    /// A file of the same name already occupies the destination.
    DestinationExists,
    /// The destination lies on another device.
    CrossDevice,
    /// The move failed for another reason.
    Move,
}

/// What became of one entry that had a category.
#[derive(Clone, Copy, Debug, PartialEq, Eq, Structural)]
pub enum MoveResult {
    Moved,
    Failed(MoveFailure),
}

/// The outcome of one entry: the entry, its category, and what happened.
pub struct MoveOutcome {
    pub entry: DirEntry,
    pub category: String,
    pub result: MoveResult,
}

/// The number of outcomes that are moves.
pub open spec fn moved_in(os: Seq<MoveOutcome>) -> nat
    decreases os.len(),
{
    if os.len() == 0 {
        0
    } else {
        moved_in(os.drop_last()) + if os.last().result == MoveResult::Moved {
            1nat
        } else {
            0nat
        }
    }
}

/// The number of outcomes that are failures.
pub open spec fn failed_in(os: Seq<MoveOutcome>) -> nat
    decreases os.len(),
{
    if os.len() == 0 {
        0
    } else {
        failed_in(os.drop_last()) + if os.last().result is Failed {
            1nat
        } else {
            0nat
        }
    }
}

/// Moves and failures together account for every outcome.
pub proof fn lemma_outcomes_counted(os: Seq<MoveOutcome>)
    ensures
        moved_in(os) + failed_in(os) == os.len(),
    decreases os.len(),
{
    if os.len() > 0 {
        lemma_outcomes_counted(os.drop_last());
    }
}

proof fn lemma_all_moved(os: Seq<MoveOutcome>)
    requires
        forall|j: int| 0 <= j < os.len() ==> (#[trigger] os[j]).result == MoveResult::Moved,
    ensures
        moved_in(os) == os.len(),
        failed_in(os) == 0,
    decreases os.len(),
{
    if os.len() > 0 {
        assert forall|j: int| 0 <= j < os.drop_last().len() implies (
        #[trigger] os.drop_last()[j]).result == MoveResult::Moved by {
            assert(os.drop_last()[j] == os[j]);
        }
        lemma_all_moved(os.drop_last());
        assert(os.last() == os[os.len() - 1]);
    }
}

proof fn lemma_counts_one_failure(os: Seq<MoveOutcome>, k: int)
    requires
        0 <= k < os.len(),
        os[k].result is Failed,
        forall|j: int| 0 <= j < os.len() && j != k ==> (#[trigger] os[j]).result == MoveResult::Moved,
    ensures
        moved_in(os) == os.len() - 1,
        failed_in(os) == 1,
    decreases os.len(),
{
    let init = os.drop_last();
    assert(os.last() == os[os.len() - 1]);
    if k == os.len() - 1 {
        assert forall|j: int| 0 <= j < init.len() implies (#[trigger] init[j]).result
            == MoveResult::Moved by {
            assert(init[j] == os[j]);
        }
        lemma_all_moved(init);
    } else {
        assert forall|j: int| 0 <= j < init.len() && j != k implies (#[trigger] init[j]).result
            == MoveResult::Moved by {
            assert(init[j] == os[j]);
        }
        assert(init[k] == os[k]);
        lemma_counts_one_failure(init, k);
    }
}

/// One failure stays one failure: when one outcome of a report is a failure
/// (a destination that was taken, say) and the others are moves, the report
/// counts every other entry as moved and that one as failed.
pub proof fn lemma_one_failure(report: RunReport, k: int)
    requires
        report.wf(),
        0 <= k < report.outcomes@.len(),
        report.outcomes@[k].result is Failed,
        forall|j: int|
            0 <= j < report.outcomes@.len() && j != k ==> (#[trigger] report.outcomes@[j]).result
                == MoveResult::Moved,
    ensures
        report.moved_count == report.outcomes@.len() - 1,
        failed_in(report.outcomes@) == 1,
{
    lemma_counts_one_failure(report.outcomes@, k);
}

/// The report of a run: the outcomes in the order the entries were handled,
/// and how many of them are moves.
pub struct RunReport {
    pub moved_count: usize,
    pub outcomes: Vec<MoveOutcome>,
}

impl RunReport {
    /// The count of moves agrees with the outcomes.
    pub open spec fn wf(&self) -> bool {
        self.moved_count == moved_in(self.outcomes@)
    }

    /// A report with no outcome.
    pub fn new() -> (r: Self)
        ensures
            r.wf(),
            r.moved_count == 0,
            r.outcomes@.len() == 0,
    {
        RunReport { moved_count: 0, outcomes: Vec::new() }
    }

    /// Adds one outcome at the end, counting it when it is a move.
    pub fn record(&mut self, outcome: MoveOutcome)
        requires
            old(self).wf(),
        ensures
            final(self).wf(),
            final(self).outcomes@ == old(self).outcomes@.push(outcome),
            final(self).moved_count == old(self).moved_count + if outcome.result
                == MoveResult::Moved {
                1int
            } else {
                0int
            },
    {
        let ghost before = self.outcomes@;
        proof {
            lemma_outcomes_counted(before);
        }
        let moved = match outcome.result {
            MoveResult::Moved => true,
            MoveResult::Failed(_) => false,
        };
        self.outcomes.push(outcome);
        let n = self.outcomes.len();
        assert(self.outcomes@.drop_last() == before);
        if moved {
            assert(self.moved_count < n);
            self.moved_count = self.moved_count + 1;
        }
    }
}

} // verus!
