//! The transfers of one directory, run side by side up to a limit.

use vstd::prelude::*;
use crate::download::{
    effective_concurrency, record_batch, tallied, tasks_view, DownloadTask, DownloadTaskView,
    TaskOutcome,
};
use crate::stats::ScrapingStats;

verus! {

/// A batch as contracts see it.
pub struct BatchState {
    /// The tasks of the batch, in the order in which they are started.
    pub tasks: Seq<DownloadTaskView>,
    /// The number of transfers that may run at a time.
    pub limit: nat,
    /// The number of tasks that were started.
    pub started: nat,
    /// The outcomes of the transfers that ended, in the order in which they ended.
    pub outcomes: Seq<TaskOutcome>,
}

impl BatchState {
    /// The number of transfers that run.
    pub open spec fn running(self) -> int {
        self.started - self.outcomes.len()
    }

    /// No task is started twice or left out of the count, no transfer ends
    /// that did not begin, and no more run than the limit allows.
    pub open spec fn wf(self) -> bool {
        &&& self.started <= self.tasks.len()
        &&& self.outcomes.len() <= self.started
        &&& self.running() <= self.limit
        &&& self.tasks.len() > 0 ==> self.limit >= 1
    }

    /// Whether the next task may be started: one is left, and the limit has room.
    pub open spec fn may_start(self) -> bool {
        self.started < self.tasks.len() && self.running() < self.limit
    }

    /// The batch once the next task was started.
    pub open spec fn start(self) -> BatchState {
        if self.may_start() {
            BatchState { started: self.started + 1, ..self }
        } else {
            self
        }
    }

    /// The batch once one running transfer ended with `outcome`.
    pub open spec fn finish(self, outcome: TaskOutcome) -> BatchState {
        if self.running() > 0 {
            BatchState { outcomes: self.outcomes.push(outcome), ..self }
        } else {
            self
        }
    }

    /// Whether every task was started and has ended.
    pub open spec fn complete(self) -> bool {
        self.outcomes.len() == self.tasks.len()
    }

    /// The batch after it was run with transfers that end as `results` say,
    /// one after the other: tasks are started while the limit has room, then
    /// the next transfer ends, and so on.
    pub open spec fn drive(self, results: Seq<TaskOutcome>) -> BatchState
        decreases self.tasks.len() - self.started, results.len(),
    {
        if self.may_start() {
            self.start().drive(results)
        } else if self.running() > 0 && results.len() > 0 {
            self.finish(results[0]).drive(results.skip(1))
        } else {
            self
        }
    }
}

/// The transfers of one directory.
pub struct Batch {
    tasks: Vec<DownloadTask>,
    limit: usize,
    started: usize,
    outcomes: Vec<TaskOutcome>,
}

impl View for Batch {
    type V = BatchState;

    closed spec fn view(&self) -> BatchState {
        BatchState {
            tasks: tasks_view(self.tasks@),
            limit: self.limit as nat,
            started: self.started as nat,
            outcomes: self.outcomes@,
        }
    }
}

impl Batch {
    /// A batch of `tasks` of which at most `concurrency` run at a time; all
    /// of them may, where `concurrency` is 0. Nothing is started yet.
    pub fn new(tasks: Vec<DownloadTask>, concurrency: usize) -> (batch: Self)
        ensures
            batch@.wf(),
            batch@ == (BatchState {
                tasks: tasks_view(tasks@),
                limit: if concurrency == 0 {
                    tasks@.len()
                } else {
                    concurrency as nat
                },
                started: 0,
                outcomes: Seq::empty(),
            }),
    {
        let limit = effective_concurrency(concurrency, tasks.len());
        Batch { tasks, limit, started: 0, outcomes: Vec::new() }
    }

    /// Starts the next task and returns its position in the batch; or
    /// returns `None` and changes nothing, where every task was started or
    /// the limit has no room.
    pub fn start_next(&mut self) -> (position: Option<usize>)
        ensures
            old(self)@.wf() ==> final(self)@.wf(),
            final(self)@ == old(self)@.start(),
            position == if old(self)@.may_start() {
                Some(old(self)@.started as usize)
            } else {
                None::<usize>
            },
    {
        if self.started < self.tasks.len() && (self.outcomes.len() > self.started || self.started
            - self.outcomes.len() < self.limit) {
            let position = self.started;
            self.started = position + 1;
            Some(position)
        } else {
            None
        }
    }

    /// The task at `position`, if the batch has one there.
    pub fn task(&self, position: usize) -> (task: Option<&DownloadTask>)
        ensures
            task is Some == (position < self@.tasks.len()),
            task matches Some(t) ==> t@ == self@.tasks[position as int],
    {
        if position < self.tasks.len() {
            Some(&self.tasks[position])
        } else {
            None
        }
    }

    /// Takes note that one running transfer ended with `outcome`, however it
    /// ended; returns `false` and changes nothing where none was running.
    pub fn finish(&mut self, outcome: TaskOutcome) -> (noted: bool)
        ensures
            old(self)@.wf() ==> final(self)@.wf(),
            final(self)@ == old(self)@.finish(outcome),
            noted == (old(self)@.running() > 0),
    {
        if self.started > self.outcomes.len() {
            self.outcomes.push(outcome);
            true
        } else {
            false
        }
    }

    /// Whether every task was started and has ended.
    pub fn is_complete(&self) -> (complete: bool)
        ensures
            complete == self@.complete(),
    {
        self.outcomes.len() == self.tasks.len()
    }

    /// The number of transfers that run.
    pub fn running(&self) -> (running: usize)
        ensures
            running == if self@.running() >= 0 {
                self@.running()
            } else {
                0
            },
    {
        if self.started >= self.outcomes.len() {
            self.started - self.outcomes.len()
        } else {
            0
        }
    }

    /// The outcomes of the transfers that ended so far, in the order in
    /// which they ended.
    pub fn outcomes(&self) -> (outcomes: &Vec<TaskOutcome>)
        ensures
            outcomes@ == self@.outcomes,
    {
        &self.outcomes
    }

    /// Counts the outcomes of the transfers that ended so far.
    pub fn settle(&self, stats: &mut ScrapingStats)
        ensures
            final(stats)@ == tallied(old(stats)@, self@.outcomes),
    {
        record_batch(stats, &self.outcomes);
    }
}

/// A batch runs to its end whatever its transfers come to: every task is
/// started, once, and every outcome is kept as it came, the failures among
/// them too. A transfer that fails keeps no other from running.
pub proof fn lemma_batch_runs_every_task(batch: BatchState, results: Seq<TaskOutcome>)
    requires
        batch.wf(),
        results.len() == batch.tasks.len() - batch.outcomes.len(),
    ensures
        batch.drive(results).wf(),
        batch.drive(results).complete(),
        batch.drive(results).started == batch.tasks.len(),
        batch.drive(results).outcomes == batch.outcomes + results,
        batch.drive(results).tasks == batch.tasks,
    decreases batch.tasks.len() - batch.started, results.len(),
{
    if batch.may_start() {
        lemma_batch_runs_every_task(batch.start(), results);
    } else if batch.running() > 0 && results.len() > 0 {
        lemma_batch_runs_every_task(batch.finish(results[0]), results.skip(1));
        assert(batch.outcomes.push(results[0]) + results.skip(1) =~= batch.outcomes + results);
    } else {
        assert(batch.outcomes + results =~= batch.outcomes);
    }
}

/// Whether a task may be started does not depend on how the transfers
/// before it ended.
pub proof fn lemma_admission_ignores_outcomes(batch: BatchState, one: TaskOutcome, other: TaskOutcome)
    requires
        batch.wf(),
    ensures
        batch.finish(one).may_start() == batch.finish(other).may_start(),
        batch.finish(one).started == batch.finish(other).started,
        batch.running() > 0 && batch.started < batch.tasks.len() ==> batch.finish(one).may_start(),
{
}

} // verus!
