//! The decisions of the executor: which item of a command list runs next, the
//! status that each outcome gives, and what a pipeline runs.
//!
//! Creating and waiting for processes is left to the caller, which reports
//! each outcome back.

use vstd::prelude::*;
use crate::command::{
    item_view, lemma_list_view_index, list_view, runs_after, Command, CommandList,
    CommandListItem, ItemModel, Pipeline, RunConditions,
};

verus! {

/// The status of a command that could not be started: a process could not be
/// created, the program was not found, or it was a pipeline of several commands.
pub const FAILURE_STATUS: i8 = 1;

/// Whether a pipeline with condition `c` runs after an item that ended with `status`.
pub fn should_run(c: RunConditions, status: i8) -> (r: bool)
    ensures
        r == runs_after(c, status),
{
    match c {
        RunConditions::Always => true,
        RunConditions::IfTrue => status == 0,
        RunConditions::IfFalse => status != 0,
    }
}

/// Whether an item runs after an item that ended with `status`. A subshell
/// always runs.
pub open spec fn item_runs(item: ItemModel, status: i8) -> bool {
    match item {
        ItemModel::Pipeline(p) => runs_after(p.condition, status),
        ItemModel::Subshell(_) => true,
    }
}

/// Whether every item in `from..to` is passed over when the status is `status`.
pub open spec fn all_skipped(items: Seq<ItemModel>, from: int, to: int, status: i8) -> bool {
    forall|k: int| from <= k < to ==> !item_runs(#[trigger] items[k], status)
}

/// What to do next while running a command list.
#[derive(PartialEq, Eq, Structural, Clone, Copy, Debug)]
pub enum ListStep {
    /// Run the pipeline at this index.
    RunPipeline(usize),
    /// Run the body of the subshell at this index in a child process.
    RunSubshell(usize),
    /// Nothing is left to run; the list ends with this status.
    Finished(i8),
}

/// The progress of a run through one command list: the index of the next item
/// to consider and the status of the last item that ran (0 before any).
#[derive(PartialEq, Eq, Structural, Clone, Copy, Debug)]
pub struct ListRun {
    pub next: usize,
    pub status: i8,
}

/// What one step of a run does: from `before`, the pipelines whose condition
/// does not hold are passed over with the status carried forward, and the
/// step names the first item that runs, or finishes with the status.
pub open spec fn step_outcome(
    items: Seq<ItemModel>,
    before: ListRun,
    r: ListStep,
    after: ListRun,
) -> bool {
    let s = before.status;
    let from = before.next as int;
    &&& after.status == s
    &&& match r {
        ListStep::Finished(st) => {
            &&& st == s
            &&& all_skipped(items, from, items.len() as int, s)
            &&& after.next == if from < items.len() {
                items.len() as int
            } else {
                from
            }
        },
        ListStep::RunPipeline(i) => {
            &&& from <= i < items.len()
            &&& items[i as int] is Pipeline
            &&& item_runs(items[i as int], s)
            &&& all_skipped(items, from, i as int, s)
            &&& after.next == i + 1
        },
        ListStep::RunSubshell(i) => {
            &&& from <= i < items.len()
            &&& items[i as int] is Subshell
            &&& all_skipped(items, from, i as int, s)
            &&& after.next == i + 1
        },
    }
}

/// Whether `item` is a pipeline with condition `c`.
pub open spec fn is_pipeline_with(item: ItemModel, c: RunConditions) -> bool {
    item matches ItemModel::Pipeline(p) && p.condition == c
}

/// When the last item is a pipeline under `&&` and the item before it ended
/// with a non-zero status, the last pipeline does not run: the run finishes
/// with that status.
pub proof fn lemma_and_after_failure(
    items: Seq<ItemModel>,
    before: ListRun,
    r: ListStep,
    after: ListRun,
)
    requires
        items.len() >= 1,
        before.next == items.len() - 1,
        is_pipeline_with(items.last(), RunConditions::IfTrue),
        before.status != 0,
        step_outcome(items, before, r, after),
    ensures
        r == ListStep::Finished(before.status),
{
    assert(!item_runs(items[items.len() - 1], before.status));
}

/// When the last item is a pipeline under `||` and the item before it ended
/// with status 0, the last pipeline does not run: the run finishes with 0.
pub proof fn lemma_or_after_success(
    items: Seq<ItemModel>,
    before: ListRun,
    r: ListStep,
    after: ListRun,
)
    requires
        items.len() >= 1,
        before.next == items.len() - 1,
        is_pipeline_with(items.last(), RunConditions::IfFalse),
        before.status == 0,
        step_outcome(items, before, r, after),
    ensures
        r == ListStep::Finished(0),
{
    assert(!item_runs(items[items.len() - 1], before.status));
}

impl ListRun {
    pub fn new() -> (r: ListRun)
        ensures
            r.next == 0,
            r.status == 0,
    {
        ListRun { next: 0, status: 0 }
    }

    /// Passes over the pipelines whose condition does not hold, carrying the
    /// status forward, and says which item runs next.
    pub fn step(&mut self, list: &CommandList) -> (r: ListStep)
        ensures
            step_outcome(list_view(list@), *old(self), r, *final(self)),
    {
        proof {
            lemma_list_view_index(list@);
        }
        let ghost items = list_view(list@);
        let ghost from = self.next as int;
        while self.next < list.len()
            invariant
                items == list_view(list@),
                items.len() == list@.len(),
                forall|k: int| 0 <= k < list@.len() ==> #[trigger] items[k] == item_view(list@[k]),
                from == old(self).next,
                self.status == old(self).status,
                from <= self.next,
                from < list@.len() ==> self.next <= list@.len(),
                from >= list@.len() ==> self.next == from,
                all_skipped(items, from, self.next as int, self.status),
            decreases list.len() - self.next,
        {
            let i = self.next;
            self.next = i + 1;
            assert(items[i as int] == item_view(list@[i as int]));
            match &list[i] {
                CommandListItem::Pipeline(p) => {
                    if should_run(p.run_conditions, self.status) {
                        return ListStep::RunPipeline(i);
                    }
                },
                CommandListItem::Subshell(_) => {
                    return ListStep::RunSubshell(i);
                },
            }
        }
        ListStep::Finished(self.status)
    }

    /// Ends the run when a child process could not be created: nothing more of
    /// the list runs, and it ends with `FAILURE_STATUS`.
    pub fn fail(&mut self, list: &CommandList) -> (r: i8)
        ensures
            r == FAILURE_STATUS,
            final(self).status == FAILURE_STATUS,
            final(self).next == list@.len(),
    {
        self.next = list.len();
        self.status = FAILURE_STATUS;
        FAILURE_STATUS
    }

    /// Records the status of the item that just ran.
    pub fn record(&mut self, status: i8)
        ensures
            final(self).status == status,
            final(self).next == old(self).next,
    {
        self.status = status;
    }
}

/// The command of a pipeline that can run: only a pipeline of exactly one
/// command runs; any other runs nothing and fails with `FAILURE_STATUS`.
pub fn runnable_command(pipeline: &Pipeline) -> (r: Result<&Command, i8>)
    ensures
        r is Ok <==> pipeline@.commands.len() == 1,
        r matches Ok(c) ==> c@ == pipeline@.commands[0],
        r matches Err(s) ==> s == FAILURE_STATUS,
{
    if pipeline.commands.len() == 1 {
        Ok(&pipeline.commands[0])
    } else {
        Err(FAILURE_STATUS)
    }
}

/// How a child process ended, as plain values.
#[derive(PartialEq, Eq, Structural, Clone, Copy, Debug)]
pub enum Termination {
    /// It exited with this code.
    Exited(u8),
    /// A signal ended it.
    Signaled,
    /// A signal stopped it.
    Stopped,
    /// Waiting reported anything else.
    Other,
}

/// The status that a termination gives: the exit code, read as a signed byte
/// (so 255 gives -1), or -1, -2 or -3.
pub open spec fn termination_status(t: Termination) -> i8 {
    match t {
        Termination::Exited(code) => if code < 128 {
            code as i8
        } else {
            (code - 256) as i8
        },
        Termination::Signaled => -1i8,
        Termination::Stopped => -2i8,
        Termination::Other => -3i8,
    }
}

/// The status that a termination gives.
pub fn status_of(t: Termination) -> (r: i8)
    ensures
        r == termination_status(t),
{
    match t {
        Termination::Exited(code) => if code < 128 {
            code as i8
        } else {
            (code as i16 - 256) as i8
        },
        Termination::Signaled => -1,
        Termination::Stopped => -2,
        Termination::Other => -3,
    }
}

/// What came of launching an external program.
#[derive(PartialEq, Eq, Structural, Clone, Copy, Debug)]
pub enum Launch {
    /// No candidate path exists.
    NotFound,
    /// A child process could not be created.
    ForkFailed,
    /// The child ran and was waited for.
    Waited(Termination),
}

/// The status of a launch: `FAILURE_STATUS` when the program was not found
/// or no child could be created, else the status of its termination.
pub open spec fn launch_outcome(o: Launch) -> i8 {
    match o {
        Launch::NotFound => FAILURE_STATUS,
        Launch::ForkFailed => FAILURE_STATUS,
        Launch::Waited(t) => termination_status(t),
    }
}

/// The status of a launch.
pub fn launch_status(o: Launch) -> (r: i8)
    ensures
        r == launch_outcome(o),
{
    match o {
        Launch::NotFound => FAILURE_STATUS,
        Launch::ForkFailed => FAILURE_STATUS,
        Launch::Waited(t) => status_of(t),
    }
}

} // verus!
