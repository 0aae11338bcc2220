use vstd::prelude::*;

use crate::handle_dir::DirEntry;
use crate::report::{moved_in, MoveFailure, MoveOutcome, MoveResult, RunReport};
use crate::rules::{classify, destination_of, dotted, is_first_match, RuleTable};

verus! {

/// An entry together with the category it is to be moved to.
pub struct MoveTask {
    pub entry: DirEntry,
    pub category: String,
}

/// The model of a task: its entry and its category's name.
pub open spec fn task_view(t: MoveTask) -> (DirEntry, Seq<char>) {
    (t.entry, t.category@)
}

/// The tasks of a run: each entry that the rules give a category, with that
/// category, in the order of the listing.
pub open spec fn plan_of(cats: Seq<(Seq<char>, Seq<Seq<char>>)>, es: Seq<DirEntry>) -> Seq<
    (DirEntry, Seq<char>),
>
    decreases es.len(),
{
    if es.len() == 0 {
        Seq::empty()
    } else {
        let p = plan_of(cats, es.drop_last());
        match destination_of(cats, es.last()) {
            Some(c) => p.push((es.last(), c)),
            None => p,
        }
    }
}

/// The entries that have a category.
pub open spec fn classified(cats: Seq<(Seq<char>, Seq<Seq<char>>)>, es: Seq<DirEntry>) -> Seq<
    DirEntry,
> {
    es.filter(|e: DirEntry| destination_of(cats, e) is Some)
}

/// The tasks of a run are exactly the entries that have a category, in the
/// listing's order, each with the category that the rules give it.
pub proof fn lemma_plan_entries(cats: Seq<(Seq<char>, Seq<Seq<char>>)>, es: Seq<DirEntry>)
    ensures
        plan_of(cats, es).map_values(|p: (DirEntry, Seq<char>)| p.0) == classified(cats, es),
        forall|k: int|
            0 <= k < plan_of(cats, es).len() ==> destination_of(cats, #[trigger] plan_of(cats, es)[k].0)
                == Some(plan_of(cats, es)[k].1),
    decreases es.len(),
{
    reveal(Seq::filter);
    if es.len() > 0 {
        lemma_plan_entries(cats, es.drop_last());
        let p = plan_of(cats, es.drop_last());
        match destination_of(cats, es.last()) {
            Some(c) => {
                assert(plan_of(cats, es) == p.push((es.last(), c)));
                assert(plan_of(cats, es).map_values(|p: (DirEntry, Seq<char>)| p.0) =~= p.map_values(
                    |p: (DirEntry, Seq<char>)| p.0,
                ).push(es.last()));
                assert forall|k: int| 0 <= k < plan_of(cats, es).len() implies destination_of(
                    cats,
                    #[trigger] plan_of(cats, es)[k].0,
                ) == Some(plan_of(cats, es)[k].1) by {
                    if k < p.len() {
                        assert(plan_of(cats, es)[k] == p[k]);
                    }
                }
            },
            None => {},
        }
    }
}

/// An already sorted directory leaves nothing to do: when no entry has a
/// category (the category directories are directories, and what is left has
/// no rule), the run has no task.
pub proof fn lemma_sorted_directory_has_no_tasks(
    cats: Seq<(Seq<char>, Seq<Seq<char>>)>,
    es: Seq<DirEntry>,
)
    requires
        forall|i: int| 0 <= i < es.len() ==> destination_of(cats, #[trigger] es[i]) is None,
    ensures
        plan_of(cats, es).len() == 0,
    decreases es.len(),
{
    if es.len() > 0 {
        assert(destination_of(cats, es[es.len() - 1]) is None);
        assert forall|i: int| 0 <= i < es.drop_last().len() implies destination_of(
            cats,
            #[trigger] es.drop_last()[i],
        ) is None by {
            assert(es.drop_last()[i] == es[i]);
        }
        lemma_sorted_directory_has_no_tasks(cats, es.drop_last());
    }
}

/// The step of the current task that waits for the file system.
#[derive(Clone, Copy, Debug, PartialEq, Eq, Structural)]
pub enum Stage {
    /// The category directory is to be made to exist.
    CreateDir,
    /// The destination path is to be checked for an existing file.
    CheckDestination,
    /// The entry is to be moved.
    Rename,
}

/// What the caller is asked to do in the directory being sorted. Paths are
/// given relative to it: a category is the directory of that name in it.
pub enum MoveAction {
    /// Make the category directory exist; one that exists already is fine.
    CreateDir { category: String },
    /// Tell whether something named `file_name` exists in the category directory.
    CheckDestination { category: String, file_name: String },
    /// Move the file at `source` to `file_name` in the category directory.
    Rename { source: String, category: String, file_name: String },
}

/// The caller's answer to an action.
#[derive(Clone, Copy, Debug, PartialEq, Eq, Structural)]
pub enum MoveEvent {
    /// The category directory exists.
    DirReady,
    /// The category directory could not be created.
    DirFailed,
    /// Nothing occupies the destination.
    DestinationFree,
    /// Something already occupies the destination.
    DestinationTaken,
    /// The entry was moved.
    Renamed,
    /// The move failed because the destination is on another device.
    CrossDevice,
    /// The move failed for another reason.
    RenameFailed,
}

/// Where an answer leads: to another step of the same task, or to the
/// task's outcome.
#[derive(Clone, Copy, Debug, PartialEq, Eq, Structural)]
pub enum Step {
    Continue(Stage),
    Finish(MoveResult),
}

/// The answers that each stage waits for.
pub open spec fn accepts(stage: Stage, event: MoveEvent) -> bool {
    match stage {
        Stage::CreateDir => event == MoveEvent::DirReady || event == MoveEvent::DirFailed,
        Stage::CheckDestination => event == MoveEvent::DestinationFree || event
            == MoveEvent::DestinationTaken,
        Stage::Rename => event == MoveEvent::Renamed || event == MoveEvent::CrossDevice || event
            == MoveEvent::RenameFailed,
    }
}

/// Where each answer leads. A ready directory leads to the destination check,
/// a free destination to the move; every other answer ends the task.
pub open spec fn step_of(event: MoveEvent) -> Step {
    match event {
        MoveEvent::DirReady => Step::Continue(Stage::CheckDestination),
        MoveEvent::DirFailed => Step::Finish(MoveResult::Failed(MoveFailure::DirectoryCreate)),
        MoveEvent::DestinationFree => Step::Continue(Stage::Rename),
        MoveEvent::DestinationTaken => Step::Finish(
            MoveResult::Failed(MoveFailure::DestinationExists),
        ),
        MoveEvent::Renamed => Step::Finish(MoveResult::Moved),
        MoveEvent::CrossDevice => Step::Finish(MoveResult::Failed(MoveFailure::CrossDevice)),
        MoveEvent::RenameFailed => Step::Finish(MoveResult::Failed(MoveFailure::Move)),
    }
}

/// How many steps a stage is from the end of its task.
pub open spec fn stage_rank(stage: Stage) -> nat {
    match stage {
        Stage::CreateDir => 3,
        Stage::CheckDestination => 2,
        Stage::Rename => 1,
    }
}

/// `r` is the action that `stage` asks for on task `t`.
pub open spec fn is_action_for(r: MoveAction, t: MoveTask, stage: Stage) -> bool {
    match stage {
        Stage::CreateDir => r matches MoveAction::CreateDir { category } && category@
            == t.category@,
        Stage::CheckDestination => r matches MoveAction::CheckDestination {
            category,
            file_name,
        } && category@ == t.category@ && file_name@ == t.entry.file_name@,
        Stage::Rename => r matches MoveAction::Rename { source, category, file_name } && source@
            == t.entry.path@ && category@ == t.category@ && file_name@ == t.entry.file_name@,
    }
}

/// Where an answer leads, as `step_of` states it.
pub fn step(event: MoveEvent) -> (r: Step)
    ensures
        r == step_of(event),
{
    match event {
        MoveEvent::DirReady => Step::Continue(Stage::CheckDestination),
        MoveEvent::DirFailed => Step::Finish(MoveResult::Failed(MoveFailure::DirectoryCreate)),
        MoveEvent::DestinationFree => Step::Continue(Stage::Rename),
        MoveEvent::DestinationTaken => Step::Finish(
            MoveResult::Failed(MoveFailure::DestinationExists),
        ),
        MoveEvent::Renamed => Step::Finish(MoveResult::Moved),
        MoveEvent::CrossDevice => Step::Finish(MoveResult::Failed(MoveFailure::CrossDevice)),
        MoveEvent::RenameFailed => Step::Finish(MoveResult::Failed(MoveFailure::Move)),
    }
}

/// Whether `stage` waits for `event`, as `accepts` states it.
pub fn accepts_event(stage: Stage, event: MoveEvent) -> (r: bool)
    ensures
        r == accepts(stage, event),
{
    match stage {
        Stage::CreateDir => match event {
            MoveEvent::DirReady | MoveEvent::DirFailed => true,
            _ => false,
        },
        Stage::CheckDestination => match event {
            MoveEvent::DestinationFree | MoveEvent::DestinationTaken => true,
            _ => false,
        },
        Stage::Rename => match event {
            MoveEvent::Renamed | MoveEvent::CrossDevice | MoveEvent::RenameFailed => true,
            _ => false,
        },
    }
}

/// The moves of one run, taken one entry and one step at a time. The caller
/// performs each action that `next_action` gives and hands the answer to
/// `handle`, until `is_done`.
pub struct MoveExecutor {
    pub tasks: Vec<MoveTask>,
    pub position: usize,
    pub stage: Stage,
    pub report: RunReport,
}

impl MoveExecutor {
    /// The model of the tasks.
    pub open spec fn tasks_view(&self) -> Seq<(DirEntry, Seq<char>)> {
        self.tasks@.map_values(|t: MoveTask| task_view(t))
    }

    /// The tasks before `position` are done, each with one outcome, in order;
    /// the others have none yet.
    pub open spec fn wf(&self) -> bool {
        &&& self.position <= self.tasks@.len()
        &&& self.report.wf()
        &&& self.report.outcomes@.len() == self.position
        &&& forall|k: int|
            0 <= k < self.position ==> (#[trigger] self.report.outcomes@[k]).entry
                == self.tasks@[k].entry && self.report.outcomes@[k].category@
                == self.tasks@[k].category@
    }

    /// Every task is done.
    pub open spec fn done(&self) -> bool {
        self.position == self.tasks@.len()
    }

    /// How many answers the run can still take, at most.
    pub open spec fn remaining(&self) -> nat {
        if self.position < self.tasks@.len() {
            stage_rank(self.stage) + 3 * (self.tasks@.len() - self.position - 1) as nat
        } else {
            0
        }
    }

    /// A run over `entries`: a task for each entry that the rules give a
    /// category, none done yet.
    pub fn new(entries: &Vec<DirEntry>, rules: &RuleTable) -> (r: Self)
        ensures
            r.wf(),
            r.tasks_view() == plan_of(rules@, entries@),
            r.position == 0,
            r.stage == Stage::CreateDir,
            r.report.moved_count == 0,
            r.report.outcomes@.len() == 0,
    {
        let mut tasks: Vec<MoveTask> = Vec::new();
        let n = entries.len();
        for i in 0..n
            invariant
                n == entries.len(),
                tasks@.map_values(|t: MoveTask| task_view(t)) == plan_of(
                    rules@,
                    entries@.subrange(0, i as int),
                ),
        {
            let ghost before = tasks@;
            let c = classify(entries[i].duplicate(), rules);
            assert(entries@.subrange(0, i + 1).drop_last() == entries@.subrange(0, i as int));
            assert(entries@.subrange(0, i + 1).last() == entries@[i as int]);
            match c.destination {
                Some(category) => {
                    let ghost t = (c.entry, category@);
                    tasks.push(MoveTask { entry: c.entry, category });
                    assert(tasks@.map_values(|t: MoveTask| task_view(t)) =~= before.map_values(
                        |t: MoveTask| task_view(t),
                    ).push(t));
                },
                None => {},
            }
        }
        assert(entries@.subrange(0, n as int) == entries@);
        MoveExecutor { tasks, position: 0, stage: Stage::CreateDir, report: RunReport::new() }
    }

    /// Whether every task is done.
    pub fn is_done(&self) -> (r: bool)
        ensures
            r == self.done(),
    {
        self.position == self.tasks.len()
    }

    /// The stage of the current task.
    pub fn stage(&self) -> (r: Stage)
        ensures
            r == self.stage,
    {
        self.stage
    }

    /// The action that the current task waits for.
    pub fn next_action(&self) -> (r: MoveAction)
        requires
            self.wf(),
            !self.done(),
        ensures
            is_action_for(r, self.tasks@[self.position as int], self.stage),
    {
        let t = &self.tasks[self.position];
        match self.stage {
            Stage::CreateDir => MoveAction::CreateDir { category: t.category.clone() },
            Stage::CheckDestination => MoveAction::CheckDestination {
                category: t.category.clone(),
                file_name: t.entry.file_name.clone(),
            },
            Stage::Rename => MoveAction::Rename {
                source: t.entry.path.clone(),
                category: t.category.clone(),
                file_name: t.entry.file_name.clone(),
            },
        }
    }

    /// Takes the answer to the current action. An answer that does not end
    /// the task moves it to its next stage; one that ends it records the
    /// task's outcome and moves on to the next task.
    pub fn handle(&mut self, event: MoveEvent)
        requires
            old(self).wf(),
            !old(self).done(),
            accepts(old(self).stage, event),
        ensures
            final(self).wf(),
            final(self).tasks@ == old(self).tasks@,
            final(self).remaining() < old(self).remaining(),
            match step_of(event) {
                Step::Continue(s) => {
                    &&& final(self).position == old(self).position
                    &&& final(self).stage == s
                    &&& final(self).report == old(self).report
                },
                Step::Finish(res) => {
                    &&& final(self).position == old(self).position + 1
                    &&& final(self).stage == Stage::CreateDir
                    &&& final(self).report.outcomes@ == old(self).report.outcomes@.push(
                        (MoveOutcome {
                            entry: old(self).tasks@[old(self).position as int].entry,
                            category: old(self).tasks@[old(self).position as int].category,
                            result: res,
                        }),
                    )
                },
            },
    {
        match step(event) {
            Step::Continue(s) => {
                self.stage = s;
            },
            Step::Finish(res) => {
                let n = self.tasks.len();
                assert(self.position < n);
                let t = &self.tasks[self.position];
                let outcome = MoveOutcome {
                    entry: t.entry.duplicate(),
                    category: t.category.clone(),
                    result: res,
                };
                self.report.record(outcome);
                self.position = self.position + 1;
                self.stage = Stage::CreateDir;
            },
        }
    }

    /// The report of the run.
    pub fn into_report(self) -> (r: RunReport)
        ensures
            r == self.report,
    {
        self.report
    }
}

/// A run that has ended holds exactly one outcome for each entry that has a
/// category, in the listing's order, and none for any other entry; each
/// outcome names the category that the rules give its entry.
pub proof fn lemma_one_outcome_per_classified_entry(
    ex: MoveExecutor,
    rules: RuleTable,
    entries: Seq<DirEntry>,
)
    requires
        ex.wf(),
        ex.done(),
        ex.tasks_view() == plan_of(rules@, entries),
    ensures
        ex.report.outcomes@.map_values(|o: MoveOutcome| o.entry) == classified(rules@, entries),
        forall|k: int|
            0 <= k < ex.report.outcomes@.len() ==> destination_of(
                rules@,
                (#[trigger] ex.report.outcomes@[k]).entry,
            ) == Some(ex.report.outcomes@[k].category@),
{
    lemma_plan_entries(rules@, entries);
    let os = ex.report.outcomes@;
    let plan = plan_of(rules@, entries);
    assert forall|k: int| 0 <= k < os.len() implies os[k].entry == plan[k].0
        && os[k].category@ == plan[k].1 by {
        assert(plan[k] == task_view(ex.tasks@[k]));
    }
    assert(os.map_values(|o: MoveOutcome| o.entry) =~= plan.map_values(
        |p: (DirEntry, Seq<char>)| p.0,
    ));
    assert forall|k: int| 0 <= k < os.len() implies destination_of(
        rules@,
        (#[trigger] os[k]).entry,
    ) == Some(os[k].category@) by {
        assert(destination_of(rules@, plan[k].0) == Some(plan[k].1));
    }
}

/// A run over no entries, or under rules without categories, has no task:
/// it has ended before it starts, with no move and no outcome.
pub proof fn lemma_empty_input(ex: MoveExecutor, rules: RuleTable, entries: Seq<DirEntry>)
    requires
        ex.wf(),
        ex.tasks_view() == plan_of(rules@, entries),
        ex.position == 0,
        entries.len() == 0 || rules@.len() == 0,
    ensures
        ex.done(),
        ex.report.moved_count == 0,
        ex.report.outcomes@.len() == 0,
{
    if rules@.len() > 0 {
        assert(plan_of(rules@, entries) == Seq::<(DirEntry, Seq<char>)>::empty());
    } else {
        assert forall|i: int| 0 <= i < entries.len() implies destination_of(
            rules@,
            #[trigger] entries[i],
        ) is None by {
            let e = entries[i];
            let d = dotted(e.file_type@);
            assert(!exists|k: int| is_first_match(rules@, d, k));
        }
        lemma_sorted_directory_has_no_tasks(rules@, entries);
    }
    assert(ex.tasks_view().len() == ex.tasks@.len());
    assert(ex.report.moved_count == moved_in(ex.report.outcomes@));
}

/// A task is moved at most once: every answer to its move ends the task, so
/// the run never asks for the same task's move again.
pub proof fn lemma_move_asked_once(event: MoveEvent)
    requires
        accepts(Stage::Rename, event),
    ensures
        step_of(event) is Finish,
{
}

/// A task reaches its move only once its destination was found free; a taken
/// destination ends the task as `DestinationExists`, so the file stays where
/// it was.
pub proof fn lemma_move_only_to_free_destination(event: MoveEvent)
    ensures
        step_of(event) == Step::Continue(Stage::Rename) <==> event == MoveEvent::DestinationFree,
        event == MoveEvent::DestinationTaken ==> step_of(event) == Step::Finish(
            MoveResult::Failed(MoveFailure::DestinationExists),
        ),
{
}

/// A run ends: it has ended exactly when it can take no more answers, and
/// each answer it takes brings it closer to that (see `handle`).
pub proof fn lemma_run_ends(ex: MoveExecutor)
    requires
        ex.wf(),
    ensures
        ex.done() <==> ex.remaining() == 0,
{
}

} // verus!
