//! A run of the processing queue, as decisions between the steps that apply
//! one operation each: which operations a run takes, which one comes next,
//! what each outcome does to the queue, and whether the data is reloaded at
//! the end. Applying an operation is left to the caller.
use vstd::prelude::*;

use crate::queue::{
    can_start, lemma_start_matches_actionable, well_formed,
    actionable_with_id, find_first, set_status_model, ApplyCounts, EnqueueOperationResult,
    OperationQueue, QueuedOperationKind, QueuedOperationStatus,
};
use crate::text::{decimal, decimal_string, owned, push_str};

verus! {

/// Why a run of the queue does not start.
#[derive(Debug, Clone, Copy, PartialEq, Eq)]
pub enum QueueApplyRefusal {
    /// None of the requested operations can be applied.
    NoOperations,
    /// A run is already in progress.
    AlreadyRunning,
}

impl QueueApplyRefusal {
    /// The message shown for the refusal.
    pub fn message(self) -> (r: String)
        ensures
            r@ == match self {
                QueueApplyRefusal::NoOperations => "No queued operations to apply."@,
                QueueApplyRefusal::AlreadyRunning => "The processing queue is already running."@,
            },
    {
        match self {
            QueueApplyRefusal::NoOperations => owned("No queued operations to apply."),
            QueueApplyRefusal::AlreadyRunning => owned("The processing queue is already running."),
        }
    }
}

/// Whether the queue has an operation with an id that can be applied.
pub open spec fn has_actionable(queue: OperationQueue, id: u64) -> bool {
    find_first(queue.ops(), actionable_with_id(id)) is Some
}

/// Of the requested ids, those of operations that can be applied, in order.
pub open spec fn applicable_ids(queue: OperationQueue, ids: Seq<u64>) -> Seq<u64> {
    ids.filter(|id: u64| has_actionable(queue, id))
}

/// The ids a run takes, or why it does not start: no applicable operation,
/// or a run in progress.
pub fn queue_apply_ids(queue: &OperationQueue, ids: &[u64]) -> (r: Result<Vec<u64>, QueueApplyRefusal>)
    ensures
        match r {
            Ok(v) => v@ == applicable_ids(*queue, ids@) && v@.len() > 0 && !queue.running(),
            Err(QueueApplyRefusal::NoOperations) => applicable_ids(*queue, ids@).len() == 0,
            Err(QueueApplyRefusal::AlreadyRunning) => applicable_ids(*queue, ids@).len() > 0
                && queue.running(),
        },
{
    let mut taken: Vec<u64> = Vec::new();
    let mut i: usize = 0;
    while i < ids.len()
        invariant
            i <= ids.len(),
            taken@ == applicable_ids(*queue, ids@.take(i as int)),
        decreases ids.len() - i,
    {
        proof {
            let t = ids@.take(i as int + 1);
            assert(t.drop_last() == ids@.take(i as int));
            assert(t.last() == ids@[i as int]);
            reveal_with_fuel(Seq::filter, 1);
        }
        if queue.operation_kind(ids[i]).is_some() {
            taken.push(ids[i]);
        }
        i += 1;
    }
    assert(ids@.take(ids.len() as int) == ids@);
    if taken.len() == 0 {
        Err(QueueApplyRefusal::NoOperations)
    } else if queue.is_processing() {
        Err(QueueApplyRefusal::AlreadyRunning)
    } else {
        Ok(taken)
    }
}

/// A run in progress: the ids it takes, how many it has gone through, and
/// the counts so far.
pub struct QueueRun {
    pub ids: Vec<u64>,
    pub next: usize,
    pub counts: ApplyCounts,
}

impl QueueRun {
    /// The counts never exceed the steps taken, nor the steps the ids.
    pub open spec fn valid(self) -> bool {
        &&& self.next <= self.ids@.len()
        &&& self.counts.applied + self.counts.failed <= self.next
    }
}

/// Starts a run over the ids: the queue is marked as running.
pub fn start_queue_run(queue: &mut OperationQueue, ids: Vec<u64>) -> (r: QueueRun)
    ensures
        final(queue).running(),
        final(queue).ops() == old(queue).ops(),
        final(queue).next() == old(queue).next(),
        final(queue).queued_count() == old(queue).queued_count(),
        r.valid(),
        r.ids@ == ids@,
        r.next == 0,
        r.counts == (ApplyCounts { applied: 0, failed: 0 }),
{
    queue.set_processing(true);
    QueueRun { ids, next: 0, counts: ApplyCounts { applied: 0, failed: 0 } }
}

/// The operation a run applies next.
pub struct QueueStep {
    pub id: u64,
    pub kind: QueuedOperationKind,
    /// Its place in the run, from 1.
    pub position: usize,
    /// The number of ids the run takes.
    pub total: usize,
}

/// The kind of the first operation with an id that can be applied.
pub open spec fn actionable_kind(queue: OperationQueue, id: u64) -> Option<QueuedOperationKind> {
    match find_first(queue.ops(), actionable_with_id(id)) {
        Some(i) => Some(queue.ops()[i].kind),
        None => None,
    }
}

/// Moves a run to its next operation that can still be applied, and marks it
/// as being applied; ids whose operation was removed or can no longer be
/// applied are passed over, and only those. `None` once the ids are used up.
pub fn next_queue_step(queue: &mut OperationQueue, run: &mut QueueRun) -> (r: Option<QueueStep>)
    requires
        old(run).valid(),
    ensures
        final(run).valid(),
        final(run).ids@ == old(run).ids@,
        final(run).counts == old(run).counts,
        old(run).next <= final(run).next,
        final(queue).next() == old(queue).next(),
        final(queue).queued_count() == old(queue).queued_count(),
        final(queue).running() == old(queue).running(),
        match r {
            None => {
                &&& final(run).next == final(run).ids@.len()
                &&& final(queue).ops() == old(queue).ops()
                &&& forall|k: int|
                    old(run).next <= k < old(run).ids@.len() ==> !can_start(
                        old(queue).ops(),
                        #[trigger] old(run).ids@[k],
                    )
                &&& old(queue).next() < u64::MAX ==> forall|k: int|
                    old(run).next <= k < old(run).ids@.len() ==> actionable_kind(
                        *old(queue),
                        #[trigger] old(run).ids@[k],
                    ) is None
            },
            Some(step) => {
                &&& forall|k: int|
                    old(run).next <= k < final(run).next - 1 ==> !can_start(
                        old(queue).ops(),
                        #[trigger] old(run).ids@[k],
                    )
                &&& old(queue).next() < u64::MAX ==> forall|k: int|
                    old(run).next <= k < final(run).next - 1 ==> actionable_kind(
                        *old(queue),
                        #[trigger] old(run).ids@[k],
                    ) is None
                &&& final(run).next > old(run).next
                &&& step.id == final(run).ids@[final(run).next - 1]
                &&& step.position == final(run).next
                &&& step.total == final(run).ids@.len()
                &&& actionable_kind(*old(queue), step.id) == Some(step.kind)
                &&& (final(queue).ops(), true) == set_status_model(
                    old(queue).ops(),
                    step.id,
                    QueuedOperationStatus::Applying,
                    true,
                )
            },
        },
{
    proof {
        use_type_invariant(&*queue);
    }
    let ghost start_ops = queue.ops();
    while run.next < run.ids.len()
        invariant
            run.valid(),
            run.ids@ == old(run).ids@,
            run.counts == old(run).counts,
            old(run).next <= run.next,
            queue.ops() == start_ops,
            start_ops == old(queue).ops(),
            queue.next() == old(queue).next(),
            queue.queued_count() == old(queue).queued_count(),
            queue.running() == old(queue).running(),
            old(queue).next() < u64::MAX ==> well_formed(start_ops, old(queue).next()),
            forall|k: int|
                old(run).next <= k < run.next ==> !can_start(start_ops, #[trigger] run.ids@[k]),
        decreases run.ids.len() - run.next,
    {
        let id = run.ids[run.next];
        proof {
            lemma_start_matches_actionable(start_ops, old(queue).next(), id);
        }
        run.next = run.next + 1;
        match queue.operation_kind(id) {
            Some(kind) => {
                if queue.mark_applying(id) {
                    proof {
                        assert forall|k: int|
                            old(run).next <= k < run.next - 1 && old(queue).next()
                                < u64::MAX implies actionable_kind(*old(queue), #[trigger] run.ids@[k]) is None by {
                            lemma_start_matches_actionable(start_ops, old(queue).next(), run.ids@[k]);
                        }
                    }
                    return Some(QueueStep { id, kind, position: run.next, total: run.ids.len() });
                }
            },
            None => {},
        }
    }
    proof {
        assert forall|k: int|
            old(run).next <= k < old(run).ids@.len() && old(queue).next() < u64::MAX implies actionable_kind(*old(queue), #[trigger] old(run).ids@[k]) is None by {
            lemma_start_matches_actionable(start_ops, old(queue).next(), old(run).ids@[k]);
        }
    }
    None
}

/// How applying one operation ended.
pub enum StepOutcome {
    Applied,
    /// It failed with this message.
    Failed(String),
    /// The background task stopped before it answered.
    Canceled,
}

/// The message an operation is marked failed with when its task stopped.
pub open spec fn canceled_message() -> Seq<char> {
    "The background task stopped unexpectedly."@
}

/// Records how applying a run's current operation ended: counted as
/// applied or failed, and marked so in the queue.
pub fn finish_queue_step(queue: &mut OperationQueue, run: &mut QueueRun, id: u64, outcome: StepOutcome)
    requires
        old(run).valid(),
        old(run).counts.applied + old(run).counts.failed < old(run).next,
    ensures
        final(run).valid(),
        final(run).ids@ == old(run).ids@,
        final(run).next == old(run).next,
        final(queue).next() == old(queue).next(),
        final(queue).queued_count() == old(queue).queued_count(),
        final(queue).running() == old(queue).running(),
        match outcome {
            StepOutcome::Applied => {
                &&& final(run).counts == (ApplyCounts {
                    applied: (old(run).counts.applied + 1) as usize,
                    failed: old(run).counts.failed,
                })
                &&& final(queue).ops() == set_status_model(
                    old(queue).ops(),
                    id,
                    QueuedOperationStatus::Applied,
                    false,
                ).0
            },
            StepOutcome::Failed(message) => {
                &&& final(run).counts == (ApplyCounts {
                    applied: old(run).counts.applied,
                    failed: (old(run).counts.failed + 1) as usize,
                })
                &&& final(queue).ops() == set_status_model(
                    old(queue).ops(),
                    id,
                    QueuedOperationStatus::Failed(message),
                    false,
                ).0
            },
            StepOutcome::Canceled => {
                &&& final(run).counts == (ApplyCounts {
                    applied: old(run).counts.applied,
                    failed: (old(run).counts.failed + 1) as usize,
                })
                &&& exists|message: String|
                    message@ == canceled_message() && final(queue).ops() == set_status_model(
                        old(queue).ops(),
                        id,
                        QueuedOperationStatus::Failed(message),
                        false,
                    ).0
            },
        },
{
    match outcome {
        StepOutcome::Applied => {
            run.counts = ApplyCounts { applied: run.counts.applied + 1, failed: run.counts.failed };
            queue.mark_applied(id);
        },
        StepOutcome::Failed(message) => {
            run.counts = ApplyCounts { applied: run.counts.applied, failed: run.counts.failed + 1 };
            queue.mark_failed(id, message);
        },
        StepOutcome::Canceled => {
            run.counts = ApplyCounts { applied: run.counts.applied, failed: run.counts.failed + 1 };
            let message = owned("The background task stopped unexpectedly.");
            queue.mark_failed(id, message);
        },
    }
}

/// Ends a run: the queue is no longer running. Answers whether the data
/// must be reloaded, which it must once an operation was applied.
pub fn finish_queue_run(queue: &mut OperationQueue, run: &QueueRun) -> (r: bool)
    ensures
        !final(queue).running(),
        final(queue).ops() == old(queue).ops(),
        final(queue).next() == old(queue).next(),
        final(queue).queued_count() == old(queue).queued_count(),
        r == (run.counts.applied > 0),
{
    queue.set_processing(false);
    run.counts.applied > 0
}

/// The message shown while a run applies an operation.
pub open spec fn progress_text(position: nat, total: nat) -> Seq<char> {
    "Applying queued operation "@ + decimal(position) + " of "@ + decimal(total) + "..."@
}

/// The message shown while a run applies an operation.
pub fn apply_progress_message(position: usize, total: usize) -> (r: String)
    ensures
        r@ == progress_text(position as nat, total as nat),
{
    let mut message = owned("Applying queued operation ");
    let p = decimal_string(position as u64);
    push_str(&mut message, p.as_str());
    push_str(&mut message, " of ");
    let t = decimal_string(total as u64);
    push_str(&mut message, t.as_str());
    push_str(&mut message, "...");
    message
}

/// The message shown after a request to queue an operation.
pub fn enqueue_status_message(result: EnqueueOperationResult) -> (r: String)
    ensures
        r@ == if result is Queued {
            "Operation added to queue."@
        } else {
            "Operation is already in the processing queue."@
        },
{
    if result.queued() {
        owned("Operation added to queue.")
    } else {
        owned("Operation is already in the processing queue.")
    }
}

} // verus!
