//! What holds of the task registry over every sequence of operations.
//!
//! The operations of `BatchManager` are collected in `ManagerOp`, and `run`
//! applies a sequence of them to a registry, one after the other. Callers
//! that share a manager between threads apply the operations under a lock,
//! so every interleaving of their calls is one such sequence.

use vstd::prelude::*;
use crate::error::BatchError;
use crate::memory::{after_release, ReserveOutcome};
use crate::registry::{
    distinct_ids, holds, lemma_abort_effect, lemma_cancel_effect, lemma_checkpoint_effect,
    lemma_complete_effect, lemma_fail_effect, lemma_release_effect, lemma_remove_finished_effect,
    lemma_retired_is_not_live, lemma_schedule_effect, lemma_start_effect, lemma_status_at,
    lemma_sum_of_nothing,
    lemma_try_reserve_effect, lemma_with_status_wf, reserved_sum, slot, touches_only, ManagerState,
};
use crate::task::{TaskDescriptor, TaskId, TaskState};

verus! {

/// One call of an operation of the task manager, with its arguments.
pub enum ManagerOp {
    Schedule(TaskDescriptor),
    Abort(TaskId, u64),
    Start(TaskId, u64),
    Complete(TaskId, u64),
    Fail(TaskId, BatchError, u64),
    Cancel(TaskId, u64),
    Checkpoint(TaskId, u64),
    RemoveFinished(TaskId),
    TryReserve(TaskId, u64),
    Release(TaskId, u64),
}

impl ManagerOp {
    /// The task that the operation is about.
    pub open spec fn target(self) -> TaskId {
        match self {
            ManagerOp::Schedule(descriptor) => descriptor.id(),
            ManagerOp::Abort(id, _) => id,
            ManagerOp::Start(id, _) => id,
            ManagerOp::Complete(id, _) => id,
            ManagerOp::Fail(id, _, _) => id,
            ManagerOp::Cancel(id, _) => id,
            ManagerOp::Checkpoint(id, _) => id,
            ManagerOp::RemoveFinished(id) => id,
            ManagerOp::TryReserve(id, _) => id,
            ManagerOp::Release(id, _) => id,
        }
    }
}

/// The registry after one operation.
pub open spec fn step(s: ManagerState, op: ManagerOp) -> ManagerState {
    match op {
        ManagerOp::Schedule(descriptor) => s.schedule(descriptor),
        ManagerOp::Abort(id, now) => s.abort(id, now),
        ManagerOp::Start(id, now) => s.start(id, now),
        ManagerOp::Complete(id, now) => s.complete(id, now),
        ManagerOp::Fail(id, error, now) => s.fail(id, error, now),
        ManagerOp::Cancel(id, now) => s.cancel(id, now),
        ManagerOp::Checkpoint(id, now) => s.checkpoint(id, now),
        ManagerOp::RemoveFinished(id) => s.remove_finished(id),
        ManagerOp::TryReserve(id, bytes) => s.try_reserve(id, bytes),
        ManagerOp::Release(id, bytes) => s.release(id, bytes),
    }
}

/// The registry after the operations `ops`, applied first to last.
pub open spec fn run(s: ManagerState, ops: Seq<ManagerOp>) -> ManagerState
    decreases ops.len(),
{
    if ops.len() == 0 {
        s
    } else {
        step(run(s, ops.drop_last()), ops.last())
    }
}

/// Every operation keeps the registry well formed, leaves the limits and the
/// retired identifiers in place, and touches no task but its own. A task
/// that was terminal keeps the very status it had, unless the operation
/// removed it, and then its identifier is retired.
pub proof fn lemma_step_wf(s: ManagerState, op: ManagerOp)
    requires
        s.wf(),
    ensures
        step(s, op).wf(),
        touches_only(s, step(s, op), op.target()),
        s.status(op.target()) matches Some(status) && status.state.is_terminal() ==> step(
            s,
            op,
        ).status(op.target()) == s.status(op.target()) || (step(s, op).status(op.target()) is None
            && step(s, op).retired.contains(op.target())),
{
    let id = op.target();
    if holds(s.tasks, id) {
        assert(s.tasks[slot(s.tasks, id)].status.is_consistent());
    }
    match op {
        ManagerOp::Schedule(descriptor) => {
            lemma_schedule_effect(s, descriptor);
        },
        ManagerOp::Abort(id, now) => {
            lemma_abort_effect(s, id, now);
        },
        ManagerOp::Start(id, now) => {
            lemma_start_effect(s, id, now);
        },
        ManagerOp::Complete(id, now) => {
            lemma_complete_effect(s, id, now);
        },
        ManagerOp::Fail(id, error, now) => {
            lemma_fail_effect(s, id, error, now);
        },
        ManagerOp::Cancel(id, now) => {
            lemma_cancel_effect(s, id, now);
        },
        ManagerOp::Checkpoint(id, now) => {
            lemma_checkpoint_effect(s, id, now);
        },
        ManagerOp::RemoveFinished(id) => {
            lemma_remove_finished_effect(s, id);
        },
        ManagerOp::TryReserve(id, bytes) => {
            lemma_try_reserve_effect(s, id, bytes);
        },
        ManagerOp::Release(id, bytes) => {
            lemma_release_effect(s, id, bytes);
        },
    }
}

/// Every sequence of operations keeps the registry well formed, and leaves
/// the limits and the retired identifiers in place.
pub proof fn lemma_run_wf(s: ManagerState, ops: Seq<ManagerOp>)
    requires
        s.wf(),
    ensures
        run(s, ops).wf(),
        run(s, ops).policy == s.policy,
        run(s, ops).max_tasks == s.max_tasks,
        s.retired.subset_of(run(s, ops).retired),
    decreases ops.len(),
{
    if ops.len() > 0 {
        lemma_run_wf(s, ops.drop_last());
        lemma_step_wf(run(s, ops.drop_last()), ops.last());
    }
}

/// Whatever is scheduled, aborted, advanced or removed, and in whatever
/// order, the registry never holds two tasks with the same identifier, and
/// never a task under an identifier that was retired.
pub proof fn lemma_identifiers_stay_unique(s: ManagerState, ops: Seq<ManagerOp>)
    requires
        s.wf(),
    ensures
        distinct_ids(run(s, ops).tasks),
        forall|id: TaskId| run(s, ops).retired.contains(id) ==> !holds(run(s, ops).tasks, id),
        forall|id: TaskId| s.retired.contains(id) ==> !holds(run(s, ops).tasks, id),
{
    lemma_run_wf(s, ops);
    let after = run(s, ops);
    assert forall|id: TaskId| after.retired.contains(id) implies !holds(after.tasks, id) by {
        lemma_retired_is_not_live(after, id);
    }
}

/// No operation takes a task out of a terminal state: after any one
/// operation a task that was terminal has the very status it had, unless the
/// operation removed it, and then its identifier is retired.
pub proof fn lemma_step_keeps_terminal(s: ManagerState, op: ManagerOp, id: TaskId)
    requires
        s.wf(),
        s.status(id) matches Some(status) && status.state.is_terminal(),
    ensures
        step(s, op).status(id) == s.status(id) || (step(s, op).status(id) is None && step(
            s,
            op,
        ).retired.contains(id)),
{
    lemma_step_wf(s, op);
}

/// Terminal states are final: once a task is terminal, no sequence of
/// operations shows it in another state or with another status. It stays as
/// it is until it is removed, and once removed it never comes back.
pub proof fn lemma_terminal_is_final(s: ManagerState, ops: Seq<ManagerOp>, id: TaskId)
    requires
        s.wf(),
        s.status(id) matches Some(status) && status.state.is_terminal(),
    ensures
        run(s, ops).status(id) == s.status(id) || (run(s, ops).status(id) is None && run(
            s,
            ops,
        ).retired.contains(id)),
    decreases ops.len(),
{
    if ops.len() > 0 {
        let before = run(s, ops.drop_last());
        lemma_terminal_is_final(s, ops.drop_last(), id);
        lemma_run_wf(s, ops.drop_last());
        lemma_step_wf(before, ops.last());
        if before.status(id) == s.status(id) {
            lemma_step_keeps_terminal(before, ops.last(), id);
        } else {
            lemma_retired_is_not_live(step(before, ops.last()), id);
        }
    }
}

/// While the controller is on, the ledger entries of all tasks add up to no
/// more than the node limit after every sequence of operations; while it is
/// off, they add up to nothing.
pub proof fn lemma_ledger_within_limit(s: ManagerState, ops: Seq<ManagerOp>)
    requires
        s.wf(),
    ensures
        s.policy.enabled() ==> reserved_sum(run(s, ops).tasks) <= s.policy.node_limit,
        !s.policy.enabled() ==> reserved_sum(run(s, ops).tasks) == 0,
{
    lemma_run_wf(s, ops);
    if !s.policy.enabled() {
        lemma_sum_of_nothing(run(s, ops).tasks);
    }
}

/// A release leaves of an entry what is left after taking the bytes away,
/// and nothing where more is released than was held: no entry ever goes
/// below zero, and no other entry changes.
pub proof fn lemma_release_is_clamped(s: ManagerState, id: TaskId, bytes: u64)
    requires
        s.wf(),
        holds(s.tasks, id),
    ensures
        s.release(id, bytes).wf(),
        s.release(id, bytes).status(id) == Some(s.status(id).unwrap().on_release(bytes)),
        s.release(id, bytes).status(id).unwrap().reserved == after_release(
            s.status(id).unwrap().reserved,
            bytes,
        ),
        0 <= s.release(id, bytes).status(id).unwrap().reserved <= s.status(id).unwrap().reserved,
        forall|other: TaskId|
            other != id ==> #[trigger] s.release(id, bytes).status(other) == s.status(other),
{
    lemma_release_effect(s, id, bytes);
}

/// Releasing memory that was never reserved changes nothing: where the task
/// holds nothing, or is not registered, the registry after the release is
/// the registry before it.
pub proof fn lemma_release_of_nothing_is_noop(s: ManagerState, id: TaskId, bytes: u64)
    requires
        s.wf(),
        s.status(id) matches Some(status) ==> status.reserved == 0,
    ensures
        s.release(id, bytes) == s,
{
    if holds(s.tasks, id) {
        let i = slot(s.tasks, id);
        assert(s.tasks[i].status.on_release(bytes) == s.tasks[i].status);
        assert(s.release(id, bytes).tasks =~= s.tasks);
    }
}

/// Aborting a task twice leaves the registry as aborting it once does,
/// whenever the second call is made.
pub proof fn lemma_abort_is_idempotent(s: ManagerState, id: TaskId, first: u64, second: u64)
    requires
        s.wf(),
    ensures
        s.abort(id, first).abort(id, second) == s.abort(id, first),
{
    if holds(s.tasks, id) {
        let i = slot(s.tasks, id);
        let status = s.tasks[i].status;
        assert(status.is_consistent());
        lemma_abort_effect(s, id, first);
        let once = s.abort(id, first);
        assert(once.tasks[i].id == id);
        lemma_status_at(once, i);
        assert(status.on_abort(first).on_abort(second) == status.on_abort(first));
        assert(once.abort(id, second).tasks =~= once.tasks);
    }
}

/// A task that is aborted while pending is cancelled on the spot, and no
/// later operation shows it in any other state, running least of all.
pub proof fn lemma_abort_of_pending_is_cancelled(
    s: ManagerState,
    id: TaskId,
    now: u64,
    ops: Seq<ManagerOp>,
)
    requires
        s.wf(),
        s.status(id) matches Some(status) && status.state == TaskState::Pending,
    ensures
        s.abort(id, now).status(id) == Some(s.status(id).unwrap().on_cancel(now)),
        s.abort(id, now).status(id).unwrap().state == TaskState::Cancelled,
        run(s.abort(id, now), ops).status(id) matches Some(later) ==> later.state
            == TaskState::Cancelled,
{
    lemma_abort_effect(s, id, now);
    lemma_terminal_is_final(s.abort(id, now), ops, id);
}

/// One operation keeps a task that was told to stop from finishing: if the
/// cancellation token of the task is set and the task is not finished, the
/// same holds after the operation, unless the operation removed the task, and
/// then its identifier is retired.
pub proof fn lemma_step_keeps_token(s: ManagerState, op: ManagerOp, id: TaskId)
    requires
        s.wf(),
        s.status(id) matches Some(status) && status.cancel_requested && status.state
            != TaskState::Finished,
    ensures
        match step(s, op).status(id) {
            Some(later) => later.cancel_requested && later.state != TaskState::Finished,
            None => step(s, op).retired.contains(id),
        },
{
    let status = s.tasks[slot(s.tasks, id)].status;
    assert(status.is_consistent());
    match op {
        ManagerOp::Schedule(descriptor) => {
            lemma_schedule_effect(s, descriptor);
        },
        ManagerOp::Abort(id, now) => {
            lemma_abort_effect(s, id, now);
        },
        ManagerOp::Start(id, now) => {
            lemma_start_effect(s, id, now);
        },
        ManagerOp::Complete(id, now) => {
            lemma_complete_effect(s, id, now);
        },
        ManagerOp::Fail(id, error, now) => {
            lemma_fail_effect(s, id, error, now);
        },
        ManagerOp::Cancel(id, now) => {
            lemma_cancel_effect(s, id, now);
        },
        ManagerOp::Checkpoint(id, now) => {
            lemma_checkpoint_effect(s, id, now);
        },
        ManagerOp::RemoveFinished(id) => {
            lemma_remove_finished_effect(s, id);
        },
        ManagerOp::TryReserve(id, bytes) => {
            lemma_try_reserve_effect(s, id, bytes);
        },
        ManagerOp::Release(id, bytes) => {
            lemma_release_effect(s, id, bytes);
        },
    }
}

/// A task that was told to stop never finishes: once its cancellation token
/// is set, no sequence of operations shows the task as finished. It is seen
/// running until its worker reaches a checkpoint or reports completion, and
/// cancelled or failed from then on.
pub proof fn lemma_told_to_stop_never_finishes(s: ManagerState, ops: Seq<ManagerOp>, id: TaskId)
    requires
        s.wf(),
        s.status(id) matches Some(status) && status.cancel_requested && status.state
            != TaskState::Finished,
    ensures
        match run(s, ops).status(id) {
            Some(later) => later.cancel_requested && later.state != TaskState::Finished,
            None => run(s, ops).retired.contains(id),
        },
    decreases ops.len(),
{
    if ops.len() > 0 {
        let before = run(s, ops.drop_last());
        lemma_told_to_stop_never_finishes(s, ops.drop_last(), id);
        lemma_run_wf(s, ops.drop_last());
        lemma_step_wf(before, ops.last());
        if before.status(id) is Some {
            lemma_step_keeps_token(before, ops.last(), id);
        } else {
            lemma_retired_is_not_live(step(before, ops.last()), id);
        }
    }
}

/// Aborting a task that is pending or running sets its token for good: from
/// the abort on, whatever follows, the task is never seen as finished.
pub proof fn lemma_aborted_task_never_finishes(
    s: ManagerState,
    id: TaskId,
    now: u64,
    ops: Seq<ManagerOp>,
)
    requires
        s.wf(),
        s.is_live(id),
    ensures
        run(s.abort(id, now), ops).status(id) matches Some(later) ==> later.state
            != TaskState::Finished,
{
    let status = s.tasks[slot(s.tasks, id)].status;
    assert(status.is_consistent());
    lemma_abort_effect(s, id, now);
    lemma_told_to_stop_never_finishes(s.abort(id, now), ops, id);
}

/// Spilling is never a dead end: a task that was told to spill, and then
/// releases all it holds, is granted the same request when it asks again,
/// whatever the other tasks hold.
pub proof fn lemma_spill_then_retry_is_granted(s: ManagerState, id: TaskId, bytes: u64)
    requires
        s.wf(),
        s.reserve_outcome(id, bytes) == ReserveOutcome::SpillRequired,
    ensures
        s.status(id) matches Some(status) && s.release(id, status.reserved).reserve_outcome(
            id,
            bytes,
        ) == ReserveOutcome::Grant,
{
    let i = slot(s.tasks, id);
    let status = s.tasks[i].status;
    assert(status.is_consistent());
    lemma_release_effect(s, id, status.reserved);
    let after = s.release(id, status.reserved);
    lemma_with_status_wf(s, i, status.on_release(status.reserved));
    crate::memory::lemma_spill_then_retry_is_granted(
        s.policy,
        reserved_sum(s.tasks) as u64,
        status.reserved,
        status.memory_quota,
        bytes,
    );
}

} // verus!
