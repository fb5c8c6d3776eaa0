//! The bounded download scheduler, modelled as an explicit batch state.
//!
//! A batch runs "fetch then persist" once per descriptor under a fixed
//! concurrency ceiling. Each task moves forward through
//! `Pending -> Permitted -> Fetching -> Sniffing -> Writing -> Done`,
//! fails from `Fetching` or `Writing` only, and skips straight from
//! `Permitted` to `Done` on a dry run. A task holds one concurrency permit
//! from `Permitted` until it reaches a terminal phase; the well-formedness
//! invariant keeps the permits in use at or below the ceiling, and records
//! exactly one outcome per task that has finished. One task's failure
//! never touches a sibling: every transition rewrites one slot only.

use crate::errors::DownloadErrorKind;
use crate::paths::ResourceDescriptor;
use crate::paths::stem_path;
use vstd::prelude::*;

verus! {

/// Where one task stands. Terminal phases are `Done` and `Failed`; there
/// are no backward transitions and no retries.
#[derive(Clone, Copy, PartialEq, Eq, Structural, Debug)]
pub enum TaskPhase {
    Pending,
    Permitted,
    Fetching,
    Sniffing,
    Writing,
    Done,
    Failed,
}

/// The result one task ends in: what was written, or why it failed.
/// Exactly one outcome exists per descriptor once the batch is complete;
/// a failure is recorded, never silently dropped.
#[derive(Clone, Debug)]
pub enum DownloadOutcome {
    Success { bytes_written: usize, resolved_extension: String, final_path: String },
    Failure { descriptor: ResourceDescriptor, kind: DownloadErrorKind, message: String },
}

/// True of the phases during which a task holds a concurrency permit:
/// from admission until it reaches a terminal phase.
pub open spec fn holds_permit(p: TaskPhase) -> bool {
    p is Permitted || p is Fetching || p is Sniffing || p is Writing
}

/// True of the phases a finished task rests in.
pub open spec fn is_terminal(p: TaskPhase) -> bool {
    p is Done || p is Failed
}

/// True of the phases that perform network or filesystem work.
pub open spec fn does_io(p: TaskPhase) -> bool {
    p is Fetching || p is Sniffing || p is Writing
}

/// How many tasks of `ps` hold a concurrency permit.
pub open spec fn permits_held(ps: Seq<TaskPhase>) -> int
    decreases ps.len(),
{
    if ps.len() == 0 {
        0
    } else {
        permits_held(ps.drop_last()) + if holds_permit(ps.last()) {
            1int
        } else {
            0int
        }
    }
}

proof fn lemma_permits_held_bounds(ps: Seq<TaskPhase>)
    ensures
        0 <= permits_held(ps) <= ps.len(),
    decreases ps.len(),
{
    if ps.len() > 0 {
        lemma_permits_held_bounds(ps.drop_last());
    }
}

proof fn lemma_permits_held_update(ps: Seq<TaskPhase>, i: int, p: TaskPhase)
    requires
        0 <= i < ps.len(),
    ensures
        permits_held(ps.update(i, p)) == permits_held(ps) - (if holds_permit(ps[i]) {
            1int
        } else {
            0int
        }) + (if holds_permit(p) {
            1int
        } else {
            0int
        }),
    decreases ps.len(),
{
    let q = ps.update(i, p);
    if i == ps.len() - 1 {
        assert(q.drop_last() =~= ps.drop_last());
    } else {
        assert(q.drop_last() =~= ps.drop_last().update(i, p));
        lemma_permits_held_update(ps.drop_last(), i, p);
    }
}

proof fn lemma_permits_held_at(ps: Seq<TaskPhase>, i: int)
    requires
        0 <= i < ps.len(),
        holds_permit(ps[i]),
    ensures
        permits_held(ps) >= 1,
    decreases ps.len(),
{
    lemma_permits_held_bounds(ps.drop_last());
    if i < ps.len() - 1 {
        lemma_permits_held_at(ps.drop_last(), i);
    }
}

proof fn lemma_permits_held_none(ps: Seq<TaskPhase>)
    requires
        forall|i: int| 0 <= i < ps.len() ==> !holds_permit(#[trigger] ps[i]),
    ensures
        permits_held(ps) == 0,
    decreases ps.len(),
{
    if ps.len() > 0 {
        lemma_permits_held_none(ps.drop_last());
    }
}

/// One batch of downloads: the descriptors, where each task stands, the
/// outcome of each finished task, and the permit accounting.
#[derive(Debug)]
pub struct Batch {
    pub descriptors: Vec<ResourceDescriptor>,
    pub phases: Vec<TaskPhase>,
    pub outcomes: Vec<Option<DownloadOutcome>>,
    pub ceiling: usize,
    pub permits_in_use: usize,
    pub dry_run: bool,
}

impl Batch {
    /// The batch invariant: one phase and one outcome slot per descriptor,
    /// permits counted exactly and never above the ceiling, an outcome
    /// recorded exactly for the finished tasks, and no I/O phase ever
    /// entered on a dry run.
    pub open spec fn wf(self) -> bool {
        &&& self.phases@.len() == self.descriptors@.len()
        &&& self.outcomes@.len() == self.descriptors@.len()
        &&& self.ceiling >= 1
        &&& self.permits_in_use as int == permits_held(self.phases@)
        &&& self.permits_in_use <= self.ceiling
        &&& forall|i: int|
            0 <= i < self.phases@.len() ==> ((self.outcomes@[i] is Some) <==> is_terminal(
                #[trigger] self.phases@[i],
            ))
        &&& self.dry_run ==> forall|i: int|
            0 <= i < self.phases@.len() ==> !does_io(#[trigger] self.phases@[i])
    }

    /// True once every task has reached a terminal phase: only then does
    /// the scheduler return.
    pub open spec fn complete(self) -> bool {
        forall|i: int| 0 <= i < self.phases@.len() ==> is_terminal(#[trigger] self.phases@[i])
    }

    /// Opens a batch: every task pending, no permit in use, no outcome
    /// recorded.
    pub fn new(descriptors: Vec<ResourceDescriptor>, ceiling: usize, dry_run: bool) -> (r: Batch)
        requires
            ceiling >= 1,
        ensures
            r.wf(),
            r.descriptors == descriptors,
            r.ceiling == ceiling,
            r.dry_run == dry_run,
            r.permits_in_use == 0,
            r.phases@.len() == descriptors@.len(),
            forall|i: int| 0 <= i < r.phases@.len() ==> (#[trigger] r.phases@[i]) is Pending,
            forall|i: int| 0 <= i < r.outcomes@.len() ==> (#[trigger] r.outcomes@[i]) is None,
    {
        let n = descriptors.len();
        let mut phases: Vec<TaskPhase> = Vec::new();
        let mut outcomes: Vec<Option<DownloadOutcome>> = Vec::new();
        let mut i: usize = 0;
        while i < n
            invariant
                i <= n,
                phases@.len() == i,
                outcomes@.len() == i,
                forall|j: int| 0 <= j < i ==> (#[trigger] phases@[j]) is Pending,
                forall|j: int| 0 <= j < i ==> (#[trigger] outcomes@[j]) is None,
            decreases n - i,
        {
            phases.push(TaskPhase::Pending);
            outcomes.push(None);
            i = i + 1;
        }
        proof {
            lemma_permits_held_none(phases@);
        }
        Batch { descriptors, phases, outcomes, ceiling, permits_in_use: 0, dry_run }
    }

    /// Tries to admit task `i`: grants a permit exactly when the task is
    /// still pending and a permit is free. On refusal nothing changes, so
    /// the caller blocks the task, not the batch, until a permit frees up.
    pub fn try_acquire(&mut self, i: usize) -> (granted: bool)
        requires
            old(self).wf(),
            i < old(self).phases@.len(),
        ensures
            final(self).wf(),
            final(self).descriptors == old(self).descriptors,
            final(self).outcomes == old(self).outcomes,
            final(self).ceiling == old(self).ceiling,
            final(self).dry_run == old(self).dry_run,
            granted ==> ({
                &&& old(self).phases@[i as int] is Pending
                &&& old(self).permits_in_use < old(self).ceiling
                &&& final(self).phases@ == old(self).phases@.update(
                    i as int,
                    TaskPhase::Permitted,
                )
                &&& final(self).permits_in_use == old(self).permits_in_use + 1
            }),
            !granted ==> ({
                &&& *final(self) == *old(self)
                &&& (!(old(self).phases@[i as int] is Pending) || old(self).permits_in_use
                    == old(self).ceiling)
            }),
    {
        let has_capacity = self.permits_in_use < self.ceiling;
        let pending = matches!(self.phases[i], TaskPhase::Pending);
        if has_capacity && pending {
            proof {
                lemma_permits_held_update(self.phases@, i as int, TaskPhase::Permitted);
            }
            self.phases.set(i, TaskPhase::Permitted);
            self.permits_in_use = self.permits_in_use + 1;
            true
        } else {
            false
        }
    }

    /// Moves an admitted task into its network fetch. Never taken on a dry
    /// run: the dry run skips the fetch entirely.
    pub fn begin_fetch(&mut self, i: usize)
        requires
            old(self).wf(),
            i < old(self).phases@.len(),
            old(self).phases@[i as int] is Permitted,
            !old(self).dry_run,
        ensures
            final(self).wf(),
            final(self).phases@ == old(self).phases@.update(i as int, TaskPhase::Fetching),
            final(self).descriptors == old(self).descriptors,
            final(self).outcomes == old(self).outcomes,
            final(self).ceiling == old(self).ceiling,
            final(self).permits_in_use == old(self).permits_in_use,
            final(self).dry_run == old(self).dry_run,
    {
        proof {
            lemma_permits_held_update(self.phases@, i as int, TaskPhase::Fetching);
        }
        self.phases.set(i, TaskPhase::Fetching);
    }

    /// Moves a fetched task into content sniffing.
    pub fn begin_sniff(&mut self, i: usize)
        requires
            old(self).wf(),
            i < old(self).phases@.len(),
            old(self).phases@[i as int] is Fetching,
        ensures
            final(self).wf(),
            final(self).phases@ == old(self).phases@.update(i as int, TaskPhase::Sniffing),
            final(self).descriptors == old(self).descriptors,
            final(self).outcomes == old(self).outcomes,
            final(self).ceiling == old(self).ceiling,
            final(self).permits_in_use == old(self).permits_in_use,
            final(self).dry_run == old(self).dry_run,
    {
        proof {
            lemma_permits_held_update(self.phases@, i as int, TaskPhase::Sniffing);
        }
        self.phases.set(i, TaskPhase::Sniffing);
    }

    /// Moves a sniffed task into its filesystem write: only now is the
    /// final path known, so no write can precede extension resolution.
    pub fn begin_write(&mut self, i: usize)
        requires
            old(self).wf(),
            i < old(self).phases@.len(),
            old(self).phases@[i as int] is Sniffing,
        ensures
            final(self).wf(),
            final(self).phases@ == old(self).phases@.update(i as int, TaskPhase::Writing),
            final(self).descriptors == old(self).descriptors,
            final(self).outcomes == old(self).outcomes,
            final(self).ceiling == old(self).ceiling,
            final(self).permits_in_use == old(self).permits_in_use,
            final(self).dry_run == old(self).dry_run,
    {
        proof {
            lemma_permits_held_update(self.phases@, i as int, TaskPhase::Writing);
        }
        self.phases.set(i, TaskPhase::Writing);
    }

    /// Ends task `i` with its outcome and releases its permit — on every
    /// exit path, success or failure. A success ends a write (or a
    /// dry-run admission); a failure comes out of the fetch or the write.
    /// Only slot `i` changes: sibling tasks are untouched.
    pub fn finish(&mut self, i: usize, outcome: DownloadOutcome)
        requires
            old(self).wf(),
            i < old(self).phases@.len(),
            outcome is Success ==> (old(self).phases@[i as int] is Writing || (old(
                self,
            ).dry_run && old(self).phases@[i as int] is Permitted)),
            outcome is Failure ==> (old(self).phases@[i as int] is Fetching || old(
                self,
            ).phases@[i as int] is Writing),
        ensures
            final(self).wf(),
            final(self).phases@ == old(self).phases@.update(
                i as int,
                if outcome is Success {
                    TaskPhase::Done
                } else {
                    TaskPhase::Failed
                },
            ),
            final(self).outcomes@ == old(self).outcomes@.update(i as int, Some(outcome)),
            final(self).permits_in_use == old(self).permits_in_use - 1,
            final(self).descriptors == old(self).descriptors,
            final(self).ceiling == old(self).ceiling,
            final(self).dry_run == old(self).dry_run,
    {
        let next = if matches!(outcome, DownloadOutcome::Success { .. }) {
            TaskPhase::Done
        } else {
            TaskPhase::Failed
        };
        proof {
            lemma_permits_held_at(self.phases@, i as int);
            lemma_permits_held_update(self.phases@, i as int, next);
        }
        self.phases.set(i, next);
        self.outcomes.set(i, Some(outcome));
        self.permits_in_use = self.permits_in_use - 1;
    }

    /// True exactly when every task has reached a terminal phase.
    pub fn is_complete(&self) -> (r: bool)
        ensures
            r == self.complete(),
    {
        let n = self.phases.len();
        let mut i: usize = 0;
        while i < n
            invariant
                i <= n,
                n == self.phases@.len(),
                forall|j: int| 0 <= j < i ==> is_terminal(#[trigger] self.phases@[j]),
            decreases n - i,
        {
            if !matches!(self.phases[i], TaskPhase::Done | TaskPhase::Failed) {
                return false;
            }
            i = i + 1;
        }
        true
    }
}

/// How many recorded outcomes of `outs` are successes.
pub open spec fn successes_in(outs: Seq<Option<DownloadOutcome>>) -> int
    decreases outs.len(),
{
    if outs.len() == 0 {
        0
    } else {
        successes_in(outs.drop_last()) + if outs.last() matches Some(o) && o is Success {
            1int
        } else {
            0int
        }
    }
}

/// How many recorded outcomes of `outs` are failures.
pub open spec fn failures_in(outs: Seq<Option<DownloadOutcome>>) -> int
    decreases outs.len(),
{
    if outs.len() == 0 {
        0
    } else {
        failures_in(outs.drop_last()) + if outs.last() matches Some(o) && o is Failure {
            1int
        } else {
            0int
        }
    }
}

proof fn lemma_counts_partition(outs: Seq<Option<DownloadOutcome>>)
    requires
        forall|i: int| 0 <= i < outs.len() ==> (#[trigger] outs[i]) is Some,
    ensures
        successes_in(outs) + failures_in(outs) == outs.len(),
    decreases outs.len(),
{
    if outs.len() > 0 {
        assert(outs.last() is Some);
        lemma_counts_partition(outs.drop_last());
    }
}

impl Batch {
    /// The end-of-run summary: how many tasks succeeded and how many
    /// failed among the outcomes recorded so far.
    pub fn count_outcomes(&self) -> (r: (usize, usize))
        ensures
            r.0 as int == successes_in(self.outcomes@),
            r.1 as int == failures_in(self.outcomes@),
    {
        let n = self.outcomes.len();
        let mut succeeded: usize = 0;
        let mut failed: usize = 0;
        let mut i: usize = 0;
        while i < n
            invariant
                i <= n,
                n == self.outcomes@.len(),
                succeeded as int == successes_in(self.outcomes@.take(i as int)),
                failed as int == failures_in(self.outcomes@.take(i as int)),
                succeeded <= i,
                failed <= i,
            decreases n - i,
        {
            match &self.outcomes[i] {
                Some(DownloadOutcome::Success { .. }) => {
                    succeeded = succeeded + 1;
                },
                Some(DownloadOutcome::Failure { .. }) => {
                    failed = failed + 1;
                },
                None => {},
            }
            proof {
                assert(self.outcomes@.take(i + 1).drop_last() =~= self.outcomes@.take(i as int));
            }
            i = i + 1;
        }
        proof {
            assert(self.outcomes@.take(n as int) =~= self.outcomes@);
        }
        (succeeded, failed)
    }
}

/// Law: once a batch is complete, every task is accounted for — the
/// successes and the failures together cover the descriptors exactly, so
/// partial failure is reportable, never fatal.
pub proof fn lemma_summary_covers_batch(b: Batch)
    requires
        b.wf(),
        b.complete(),
    ensures
        successes_in(b.outcomes@) + failures_in(b.outcomes@) == b.descriptors@.len(),
{
    assert forall|i: int| 0 <= i < b.outcomes@.len() implies (#[trigger] b.outcomes@[i])
        is Some by {
        assert(is_terminal(b.phases@[i]));
    }
    lemma_counts_partition(b.outcomes@);
}

/// Law: in a well-formed batch, the tasks holding a concurrency permit
/// never exceed the configured ceiling.
pub proof fn lemma_ceiling_respected(b: Batch)
    requires
        b.wf(),
    ensures
        permits_held(b.phases@) <= b.ceiling as int,
{
}

/// Law: a dry-run batch never enters a fetching, sniffing, or writing
/// phase — no network call and no filesystem write ever starts.
pub proof fn lemma_dry_run_skips_io(b: Batch, i: int)
    requires
        b.wf(),
        b.dry_run,
        0 <= i < b.phases@.len(),
    ensures
        !does_io(b.phases@[i]),
{
}

/// Law: a complete well-formed batch holds exactly one outcome per input
/// descriptor — no task is dropped, and no failure is discarded.
pub proof fn lemma_one_outcome_per_descriptor(b: Batch, i: int)
    requires
        b.wf(),
        b.complete(),
        0 <= i < b.descriptors@.len(),
    ensures
        b.outcomes@.len() == b.descriptors@.len(),
        b.outcomes@[i] is Some,
{
    assert(is_terminal(b.phases@[i]));
}

/// What a dry run records for descriptor `d`: a success-shaped outcome
/// describing what would have been written — no bytes, no sniffed
/// extension, the path the stem resolves to under `root`.
pub open spec fn is_dry_outcome(root: Seq<char>, d: ResourceDescriptor, o: Option<
    DownloadOutcome,
>) -> bool {
    &&& o matches Some(out)
    &&& out is Success
    &&& out->bytes_written == 0
    &&& out->resolved_extension@.len() == 0
    &&& out->final_path@ == root + "/"@ + d.local_directory@ + "/"@ + d.local_stem@
}

/// The outcome a dry run records for one descriptor: success-shaped, no
/// bytes written, no extension resolved, the path only.
pub fn dry_run_outcome(root: &str, descriptor: &ResourceDescriptor) -> (r: DownloadOutcome)
    ensures
        is_dry_outcome(root@, *descriptor, Some(r)),
{
    let path = stem_path(
        root,
        descriptor.local_directory.as_str(),
        descriptor.local_stem.as_str(),
    );
    DownloadOutcome::Success {
        bytes_written: 0,
        resolved_extension: String::new(),
        final_path: path,
    }
}

/// Runs a whole batch in dry-run mode: no task ever enters an I/O phase,
/// yet the batch completes with one success-shaped outcome per
/// descriptor, each describing the write that was skipped.
pub fn run_dry_batch(descriptors: Vec<ResourceDescriptor>, ceiling: usize, root: &str) -> (r:
    Batch)
    requires
        ceiling >= 1,
    ensures
        r.wf(),
        r.complete(),
        r.dry_run,
        r.descriptors == descriptors,
        r.outcomes@.len() == descriptors@.len(),
        forall|i: int|
            0 <= i < r.outcomes@.len() ==> is_dry_outcome(
                root@,
                r.descriptors@[i],
                #[trigger] r.outcomes@[i],
            ),
{
    let mut batch = Batch::new(descriptors, ceiling, true);
    let n = batch.descriptors.len();
    let mut i: usize = 0;
    while i < n
        invariant
            i <= n,
            batch.wf(),
            batch.dry_run,
            batch.descriptors == descriptors,
            n == batch.descriptors@.len(),
            batch.phases@.len() == n,
            batch.outcomes@.len() == n,
            batch.permits_in_use == 0,
            batch.ceiling == ceiling,
            forall|j: int| 0 <= j < i ==> is_terminal(#[trigger] batch.phases@[j]),
            forall|j: int|
                0 <= j < i ==> is_dry_outcome(
                    root@,
                    batch.descriptors@[j],
                    #[trigger] batch.outcomes@[j],
                ),
            forall|j: int| i <= j < n ==> (#[trigger] batch.phases@[j]) is Pending,
        decreases n - i,
    {
        let outcome = dry_run_outcome(root, &batch.descriptors[i]);
        let granted = batch.try_acquire(i);
        assert(granted);
        batch.finish(i, outcome);
        i = i + 1;
    }
    batch
}

} // verus!
