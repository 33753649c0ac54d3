//! The mathematical model of the task registry.
//!
//! A registry is the sequence of its live tasks in the order in which they
//! were registered, the set of identifiers that were removed and can never
//! come back, and the node's limits. Every operation of `BatchManager` is
//! stated as a function on this model; the lemmas here show that each of
//! them keeps the registry well formed.

use vstd::prelude::*;
use crate::error::BatchError;
use crate::memory::{MemoryPolicy, ReserveOutcome};
use crate::task::{Task, TaskDescriptor, TaskId, TaskState, TaskStatus};

verus! {

/// Some live task has the identifier `id`.
pub open spec fn holds(tasks: Seq<Task>, id: TaskId) -> bool {
    exists|i: int| 0 <= i < tasks.len() && (#[trigger] tasks[i]).id == id
}

/// The position of the task with the identifier `id`, where there is one.
pub open spec fn slot(tasks: Seq<Task>, id: TaskId) -> int {
    choose|i: int| 0 <= i < tasks.len() && (#[trigger] tasks[i]).id == id
}

/// No two live tasks share an identifier.
pub open spec fn distinct_ids(tasks: Seq<Task>) -> bool {
    forall|i: int, j: int|
        0 <= i < j < tasks.len() ==> (#[trigger] tasks[i]).id != (#[trigger] tasks[j]).id
}

/// The sum of the ledger entries of all tasks.
pub open spec fn reserved_sum(tasks: Seq<Task>) -> nat
    decreases tasks.len(),
{
    if tasks.len() == 0 {
        0
    } else {
        reserved_sum(tasks.drop_last()) + tasks.last().status.reserved as nat
    }
}

/// The number of tasks in `state`.
pub open spec fn count_in(tasks: Seq<Task>, state: TaskState) -> nat
    decreases tasks.len(),
{
    if tasks.len() == 0 {
        0
    } else {
        count_in(tasks.drop_last(), state) + if tasks.last().status.state == state {
            1nat
        } else {
            0nat
        }
    }
}

/// The number of tasks that are pending or running: those that count against
/// the node's limit of concurrent tasks.
pub open spec fn active(tasks: Seq<Task>) -> nat {
    count_in(tasks, TaskState::Pending) + count_in(tasks, TaskState::Running)
}

/// The registry as a mathematical value.
#[verifier::ext_equal]
pub struct ManagerState {
    /// The live tasks, first registered first.
    pub tasks: Seq<Task>,
    /// The identifiers of the tasks that were removed.
    pub retired: Set<TaskId>,
    /// How many tasks may be pending or running at a time.
    pub max_tasks: u64,
    pub policy: MemoryPolicy,
}

impl ManagerState {
    pub open spec fn empty(max_tasks: u64, policy: MemoryPolicy) -> ManagerState {
        ManagerState { tasks: Seq::empty(), retired: Set::empty(), max_tasks, policy }
    }

    /// What holds of a registry at every moment: identifiers are unique among
    /// the registered tasks and never shared with a removed one, every task
    /// has the shape of its state, so that one that has ended holds no
    /// memory, and the ledger entries add up to no more than the node limit
    /// (to nothing where the controller is switched off).
    pub open spec fn wf(self) -> bool {
        &&& distinct_ids(self.tasks)
        &&& self.retired.finite()
        &&& forall|i: int|
            0 <= i < self.tasks.len() ==> !self.retired.contains((#[trigger] self.tasks[i]).id)
        &&& forall|i: int|
            0 <= i < self.tasks.len() ==> (#[trigger] self.tasks[i]).status.is_consistent()
        &&& self.policy.enabled() ==> reserved_sum(self.tasks) <= self.policy.node_limit
        &&& !self.policy.enabled() ==> forall|i: int|
            0 <= i < self.tasks.len() ==> (#[trigger] self.tasks[i]).status.reserved == 0
    }

    /// What `lookup` answers for `id`.
    pub open spec fn status(self, id: TaskId) -> Option<TaskStatus> {
        if holds(self.tasks, id) {
            Some(self.tasks[slot(self.tasks, id)].status)
        } else {
            None
        }
    }

    /// The identifier is taken: by a live task, or by one that was removed.
    pub open spec fn knows(self, id: TaskId) -> bool {
        holds(self.tasks, id) || self.retired.contains(id)
    }

    /// The registry with the status of the task at position `i` replaced.
    pub open spec fn with_status(self, i: int, status: TaskStatus) -> ManagerState {
        ManagerState { tasks: self.tasks.update(i, Task { id: self.tasks[i].id, status }), ..self }
    }

    /// A descriptor is admitted when it is valid, its identifier was never
    /// taken, and fewer tasks are active than the node admits.
    pub open spec fn admits(self, descriptor: TaskDescriptor) -> bool {
        &&& descriptor.is_valid()
        &&& !self.knows(descriptor.id())
        &&& active(self.tasks) < self.max_tasks
    }

    /// The registry after `schedule`: the task is appended as pending where
    /// the descriptor is admitted, and nothing changes otherwise.
    pub open spec fn schedule(self, descriptor: TaskDescriptor) -> ManagerState {
        if self.admits(descriptor) {
            ManagerState {
                tasks: self.tasks.push(
                    Task {
                        id: descriptor.id(),
                        status: TaskStatus::pending(descriptor.memory_quota),
                    },
                ),
                ..self
            }
        } else {
            self
        }
    }

    /// The registry after `abort`.
    pub open spec fn abort(self, id: TaskId, now: u64) -> ManagerState {
        if holds(self.tasks, id) {
            let i = slot(self.tasks, id);
            self.with_status(i, self.tasks[i].status.on_abort(now))
        } else {
            self
        }
    }

    /// The registry after `start`.
    pub open spec fn start(self, id: TaskId, now: u64) -> ManagerState {
        if holds(self.tasks, id) {
            let i = slot(self.tasks, id);
            self.with_status(i, self.tasks[i].status.on_start(now))
        } else {
            self
        }
    }

    /// The registry after `complete`: a running task finishes, unless it was
    /// told to stop, and then it is cancelled.
    pub open spec fn complete(self, id: TaskId, now: u64) -> ManagerState {
        if holds(self.tasks, id) {
            let i = slot(self.tasks, id);
            self.with_status(i, self.tasks[i].status.on_complete(now))
        } else {
            self
        }
    }

    /// The registry after `fail`.
    pub open spec fn fail(self, id: TaskId, error: BatchError, now: u64) -> ManagerState {
        if holds(self.tasks, id) {
            let i = slot(self.tasks, id);
            self.with_status(i, self.tasks[i].status.on_fail(error, now))
        } else {
            self
        }
    }

    /// The registry after `cancel`.
    pub open spec fn cancel(self, id: TaskId, now: u64) -> ManagerState {
        if holds(self.tasks, id) {
            let i = slot(self.tasks, id);
            self.with_status(i, self.tasks[i].status.on_cancel(now))
        } else {
            self
        }
    }

    /// The registry after `checkpoint`: a running task whose token is set is
    /// cancelled, and nothing changes otherwise.
    pub open spec fn checkpoint(self, id: TaskId, now: u64) -> ManagerState {
        if holds(self.tasks, id) && self.tasks[slot(self.tasks, id)].status.cancel_requested {
            self.cancel(id, now)
        } else {
            self
        }
    }

    /// A task can be removed once it is terminal.
    pub open spec fn removable(self, id: TaskId) -> bool {
        holds(self.tasks, id) && self.tasks[slot(self.tasks, id)].status.state.is_terminal()
    }

    /// The registry after `remove_finished`: a terminal task leaves the
    /// registry and its identifier is retired; nothing changes otherwise.
    pub open spec fn remove_finished(self, id: TaskId) -> ManagerState {
        if self.removable(id) {
            ManagerState {
                tasks: self.tasks.remove(slot(self.tasks, id)),
                retired: self.retired.insert(id),
                ..self
            }
        } else {
            self
        }
    }

    /// The task `id` is registered and has not ended: it is pending or
    /// running.
    pub open spec fn is_live(self, id: TaskId) -> bool {
        holds(self.tasks, id) && !self.tasks[slot(self.tasks, id)].status.state.is_terminal()
    }

    /// What `try_reserve` answers: everything is granted while the controller
    /// is switched off; otherwise a task that is pending or running gets what
    /// the policy says of the node's total, its entry, its quota and the
    /// request, and a task that has ended or is not registered is denied.
    pub open spec fn reserve_outcome(self, id: TaskId, bytes: u64) -> ReserveOutcome {
        if !self.policy.enabled() {
            ReserveOutcome::Grant
        } else if self.is_live(id) {
            let status = self.tasks[slot(self.tasks, id)].status;
            self.policy.outcome(
                reserved_sum(self.tasks) as u64,
                status.reserved,
                status.memory_quota,
                bytes,
            )
        } else {
            ReserveOutcome::Denied
        }
    }

    /// The registry after `try_reserve`: the bytes are recorded where the
    /// controller is on and grants them, and nothing changes otherwise.
    pub open spec fn try_reserve(self, id: TaskId, bytes: u64) -> ManagerState {
        if self.policy.enabled() && self.reserve_outcome(id, bytes) == ReserveOutcome::Grant {
            let i = slot(self.tasks, id);
            self.with_status(i, self.tasks[i].status.on_grant(bytes))
        } else {
            self
        }
    }

    /// The registry after `release`.
    pub open spec fn release(self, id: TaskId, bytes: u64) -> ManagerState {
        if holds(self.tasks, id) {
            let i = slot(self.tasks, id);
            self.with_status(i, self.tasks[i].status.on_release(bytes))
        } else {
            self
        }
    }
}

/// With unique identifiers, the task at position `i` is the one that `slot`
/// finds for its identifier.
pub proof fn lemma_slot_is(tasks: Seq<Task>, i: int)
    requires
        distinct_ids(tasks),
        0 <= i < tasks.len(),
    ensures
        holds(tasks, tasks[i].id),
        slot(tasks, tasks[i].id) == i,
{
    let j = slot(tasks, tasks[i].id);
    assert(0 <= j < tasks.len() && tasks[j].id == tasks[i].id);
    if j < i {
        assert(tasks[j].id != tasks[i].id);
    } else if i < j {
        assert(tasks[i].id != tasks[j].id);
    }
}

pub proof fn lemma_sum_push(tasks: Seq<Task>, task: Task)
    ensures
        reserved_sum(tasks.push(task)) == reserved_sum(tasks) + task.status.reserved,
{
    assert(tasks.push(task).drop_last() =~= tasks);
}

pub proof fn lemma_sum_update(tasks: Seq<Task>, i: int, task: Task)
    requires
        0 <= i < tasks.len(),
    ensures
        reserved_sum(tasks.update(i, task)) == reserved_sum(tasks) - tasks[i].status.reserved
            + task.status.reserved,
        tasks[i].status.reserved <= reserved_sum(tasks),
    decreases tasks.len(),
{
    let updated = tasks.update(i, task);
    if i == tasks.len() - 1 {
        assert(updated.drop_last() =~= tasks.drop_last());
    } else {
        assert(updated.drop_last() =~= tasks.drop_last().update(i, task));
        lemma_sum_update(tasks.drop_last(), i, task);
    }
}

pub proof fn lemma_sum_remove(tasks: Seq<Task>, i: int)
    requires
        0 <= i < tasks.len(),
    ensures
        reserved_sum(tasks.remove(i)) == reserved_sum(tasks) - tasks[i].status.reserved,
    decreases tasks.len(),
{
    let removed = tasks.remove(i);
    if i == tasks.len() - 1 {
        assert(removed =~= tasks.drop_last());
    } else {
        assert(removed.drop_last() =~= tasks.drop_last().remove(i));
        assert(removed.last() == tasks.last());
        lemma_sum_remove(tasks.drop_last(), i);
    }
}

pub proof fn lemma_sum_of_nothing(tasks: Seq<Task>)
    requires
        forall|i: int| 0 <= i < tasks.len() ==> (#[trigger] tasks[i]).status.reserved == 0,
    ensures
        reserved_sum(tasks) == 0,
    decreases tasks.len(),
{
    if tasks.len() > 0 {
        assert forall|i: int| 0 <= i < tasks.drop_last().len() implies (
        #[trigger] tasks.drop_last()[i]).status.reserved == 0 by {
            assert(tasks.drop_last()[i] == tasks[i]);
        }
        lemma_sum_of_nothing(tasks.drop_last());
        assert(tasks.last() == tasks[tasks.len() - 1]);
    }
}

/// Replacing the status of one task keeps the registry well formed, provided
/// that the new status has the shape of its state and the ledger stays within
/// the node limit.
pub proof fn lemma_with_status_wf(s: ManagerState, i: int, status: TaskStatus)
    requires
        s.wf(),
        0 <= i < s.tasks.len(),
        status.is_consistent(),
        s.policy.enabled() ==> reserved_sum(s.tasks) - s.tasks[i].status.reserved
            + status.reserved <= s.policy.node_limit,
        !s.policy.enabled() ==> status.reserved == 0,
    ensures
        s.with_status(i, status).wf(),
        reserved_sum(s.with_status(i, status).tasks) == reserved_sum(s.tasks)
            - s.tasks[i].status.reserved + status.reserved,
        forall|id: TaskId| holds(s.with_status(i, status).tasks, id) == holds(s.tasks, id),
        forall|id: TaskId|
            holds(s.tasks, id) ==> slot(s.with_status(i, status).tasks, id) == slot(s.tasks, id),
{
    let after = s.with_status(i, status);
    let task = Task { id: s.tasks[i].id, status };
    lemma_sum_update(s.tasks, i, task);
    assert forall|j: int| 0 <= j < after.tasks.len() implies (#[trigger] after.tasks[j]).id
        == s.tasks[j].id by {}
    assert(distinct_ids(after.tasks)) by {
        assert forall|a: int, b: int| 0 <= a < b < after.tasks.len() implies (
        #[trigger] after.tasks[a]).id != (#[trigger] after.tasks[b]).id by {
            assert(s.tasks[a].id != s.tasks[b].id);
        }
    }
    assert forall|j: int| 0 <= j < after.tasks.len() implies !after.retired.contains(
        (#[trigger] after.tasks[j]).id,
    ) by {
        assert(!s.retired.contains(s.tasks[j].id));
    }
    assert forall|j: int| 0 <= j < after.tasks.len() implies (
    #[trigger] after.tasks[j]).status.is_consistent() by {
        if j != i {
            assert(s.tasks[j].status.is_consistent());
        }
    }
    if !s.policy.enabled() {
        assert forall|j: int| 0 <= j < after.tasks.len() implies (
        #[trigger] after.tasks[j]).status.reserved == 0 by {
            if j != i {
                assert(s.tasks[j].status.reserved == 0);
            }
        }
    }
    assert forall|id: TaskId| holds(after.tasks, id) == holds(s.tasks, id) by {
        if holds(s.tasks, id) {
            let j = slot(s.tasks, id);
            assert(after.tasks[j].id == id);
        }
        if holds(after.tasks, id) {
            let j = slot(after.tasks, id);
            assert(s.tasks[j].id == id);
        }
    }
    assert forall|id: TaskId| holds(s.tasks, id) implies slot(after.tasks, id) == slot(
        s.tasks,
        id,
    ) by {
        let j = slot(s.tasks, id);
        assert(after.tasks[j].id == id);
        lemma_slot_is(after.tasks, j);
    }
}

/// `schedule` keeps the registry well formed.
pub proof fn lemma_schedule_wf(s: ManagerState, descriptor: TaskDescriptor)
    requires
        s.wf(),
    ensures
        s.schedule(descriptor).wf(),
        reserved_sum(s.schedule(descriptor).tasks) == reserved_sum(s.tasks),
{
    if s.admits(descriptor) {
        let task = Task {
            id: descriptor.id(),
            status: TaskStatus::pending(descriptor.memory_quota),
        };
        let after = s.schedule(descriptor);
        lemma_sum_push(s.tasks, task);
        assert forall|a: int, b: int| 0 <= a < b < after.tasks.len() implies (
        #[trigger] after.tasks[a]).id != (#[trigger] after.tasks[b]).id by {
            assert(after.tasks[a] == s.tasks[a]);
            if b < s.tasks.len() {
                assert(after.tasks[b] == s.tasks[b]);
            } else {
                assert(!holds(s.tasks, descriptor.id()));
            }
        }
        assert forall|j: int| 0 <= j < after.tasks.len() implies !after.retired.contains(
            (#[trigger] after.tasks[j]).id,
        ) && after.tasks[j].status.is_consistent() && (!s.policy.enabled()
            ==> after.tasks[j].status.reserved == 0) by {
            if j < s.tasks.len() {
                assert(after.tasks[j] == s.tasks[j]);
            }
        }
    }
}

/// `remove_finished` keeps the registry well formed, and the ledger as it is.
pub proof fn lemma_remove_finished_wf(s: ManagerState, id: TaskId)
    requires
        s.wf(),
    ensures
        s.remove_finished(id).wf(),
        reserved_sum(s.remove_finished(id).tasks) == reserved_sum(s.tasks),
        !holds(s.remove_finished(id).tasks, id) || !s.removable(id),
{
    if s.removable(id) {
        let i = slot(s.tasks, id);
        let after = s.remove_finished(id);
        lemma_sum_remove(s.tasks, i);
        assert(s.tasks[i].status.is_consistent());
        assert forall|j: int| 0 <= j < after.tasks.len() implies #[trigger] after.tasks[j] == (
        if j < i {
            s.tasks[j]
        } else {
            s.tasks[j + 1]
        }) by {}
        assert forall|a: int, b: int| 0 <= a < b < after.tasks.len() implies (
        #[trigger] after.tasks[a]).id != (#[trigger] after.tasks[b]).id by {
            let a0 = if a < i {
                a
            } else {
                a + 1
            };
            let b0 = if b < i {
                b
            } else {
                b + 1
            };
            assert(s.tasks[a0].id != s.tasks[b0].id);
        }
        assert forall|j: int| 0 <= j < after.tasks.len() implies !after.retired.contains(
            (#[trigger] after.tasks[j]).id,
        ) && after.tasks[j].status.is_consistent() && (!s.policy.enabled()
            ==> after.tasks[j].status.reserved == 0) && after.tasks[j].id != id by {
            let j0 = if j < i {
                j
            } else {
                j + 1
            };
            assert(after.tasks[j] == s.tasks[j0]);
            assert(!s.retired.contains(s.tasks[j0].id));
            if j0 < i {
                assert(s.tasks[j0].id != s.tasks[i].id);
            } else {
                assert(s.tasks[i].id != s.tasks[j0].id);
            }
        }
    }
}

/// In a well-formed registry, looking up the identifier of the task at
/// position `i` gives the status of that task.
pub proof fn lemma_status_at(s: ManagerState, i: int)
    requires
        s.wf(),
        0 <= i < s.tasks.len(),
    ensures
        holds(s.tasks, s.tasks[i].id),
        slot(s.tasks, s.tasks[i].id) == i,
        s.status(s.tasks[i].id) == Some(s.tasks[i].status),
{
    lemma_slot_is(s.tasks, i);
}

/// In a well-formed registry no retired identifier names a live task.
pub proof fn lemma_retired_is_not_live(s: ManagerState, id: TaskId)
    requires
        s.wf(),
        s.retired.contains(id),
    ensures
        !holds(s.tasks, id),
        s.status(id) is None,
{
    if holds(s.tasks, id) {
        let i = slot(s.tasks, id);
        assert(!s.retired.contains(s.tasks[i].id));
    }
}

/// `after` has the limits of `s` and at least its retired identifiers, and
/// shows every task but `id` as `s` does.
pub open spec fn touches_only(s: ManagerState, after: ManagerState, id: TaskId) -> bool {
    &&& after.policy == s.policy
    &&& after.max_tasks == s.max_tasks
    &&& s.retired.subset_of(after.retired)
    &&& forall|other: TaskId| other != id ==> #[trigger] after.status(other) == s.status(other)
}

/// Replacing the status of the live task `id` by one that holds no more
/// memory keeps the registry well formed and touches no other task.
pub proof fn lemma_change_wf(s: ManagerState, id: TaskId, status: TaskStatus)
    requires
        s.wf(),
        holds(s.tasks, id),
        status.is_consistent(),
        status.reserved <= s.tasks[slot(s.tasks, id)].status.reserved,
    ensures
        s.with_status(slot(s.tasks, id), status).wf(),
        s.with_status(slot(s.tasks, id), status).status(id) == Some(status),
        touches_only(s, s.with_status(slot(s.tasks, id), status), id),
{
    let i = slot(s.tasks, id);
    let after = s.with_status(i, status);
    lemma_sum_update(s.tasks, i, s.tasks[i]);
    lemma_with_status_wf(s, i, status);
    lemma_status_at(after, i);
    assert forall|other: TaskId| other != id implies #[trigger] after.status(other) == s.status(
        other,
    ) by {
        if holds(s.tasks, other) {
            let j = slot(s.tasks, other);
            assert(j != i);
            assert(after.tasks[j] == s.tasks[j]);
        }
    }
}

/// `schedule` registers the task as pending where the descriptor is
/// admitted, and touches no other task.
pub proof fn lemma_schedule_effect(s: ManagerState, descriptor: TaskDescriptor)
    requires
        s.wf(),
    ensures
        s.schedule(descriptor).wf(),
        touches_only(s, s.schedule(descriptor), descriptor.id()),
        s.schedule(descriptor).retired == s.retired,
        s.admits(descriptor) ==> s.status(descriptor.id()) is None && s.schedule(
            descriptor,
        ).status(descriptor.id()) == Some(TaskStatus::pending(descriptor.memory_quota)),
        !s.admits(descriptor) ==> s.schedule(descriptor) == s,
{
    lemma_schedule_wf(s, descriptor);
    if s.admits(descriptor) {
        let after = s.schedule(descriptor);
        let n = s.tasks.len() as int;
        assert(after.tasks[n].id == descriptor.id());
        lemma_status_at(after, n);
        assert forall|other: TaskId| other != descriptor.id() implies #[trigger] after.status(
            other,
        ) == s.status(other) by {
            if holds(s.tasks, other) {
                let j = slot(s.tasks, other);
                assert(after.tasks[j] == s.tasks[j]);
                lemma_status_at(after, j);
            } else if holds(after.tasks, other) {
                let j = slot(after.tasks, other);
                if j < n {
                    assert(after.tasks[j] == s.tasks[j]);
                }
            }
        }
    }
}

/// `remove_finished` takes a terminal task out and retires its identifier,
/// and touches no other task.
pub proof fn lemma_remove_finished_effect(s: ManagerState, id: TaskId)
    requires
        s.wf(),
    ensures
        s.remove_finished(id).wf(),
        touches_only(s, s.remove_finished(id), id),
        s.removable(id) ==> s.remove_finished(id).status(id) is None && s.remove_finished(
            id,
        ).retired == s.retired.insert(id),
        !s.removable(id) ==> s.remove_finished(id) == s,
{
    lemma_remove_finished_wf(s, id);
    if s.removable(id) {
        let after = s.remove_finished(id);
        let gone = slot(s.tasks, id);
        assert forall|j: int| 0 <= j < after.tasks.len() implies #[trigger] after.tasks[j] == (
        if j < gone {
            s.tasks[j]
        } else {
            s.tasks[j + 1]
        }) by {}
        assert forall|other: TaskId| other != id implies #[trigger] after.status(other)
            == s.status(other) by {
            if holds(s.tasks, other) {
                let j = slot(s.tasks, other);
                let moved = if j < gone {
                    j
                } else {
                    j - 1
                };
                assert(after.tasks[moved] == s.tasks[j]);
                lemma_status_at(after, moved);
            } else if holds(after.tasks, other) {
                let j = slot(after.tasks, other);
                let origin = if j < gone {
                    j
                } else {
                    j + 1
                };
                assert(s.tasks[origin].id == other);
            }
        }
    }
}

/// `abort` changes the status of the task as `on_abort` says, and touches no
/// other task.
pub proof fn lemma_abort_effect(s: ManagerState, id: TaskId, now: u64)
    requires
        s.wf(),
    ensures
        s.abort(id, now).wf(),
        touches_only(s, s.abort(id, now), id),
        s.abort(id, now).retired == s.retired,
        s.abort(id, now).status(id) == match s.status(id) {
            Some(status) => Some(status.on_abort(now)),
            None => None,
        },
{
    if holds(s.tasks, id) {
        let status = s.tasks[slot(s.tasks, id)].status;
        assert(status.is_consistent());
        lemma_change_wf(s, id, status.on_abort(now));
    }
}

/// `start` changes the status of the task as `on_start` says, and touches no
/// other task.
pub proof fn lemma_start_effect(s: ManagerState, id: TaskId, now: u64)
    requires
        s.wf(),
    ensures
        s.start(id, now).wf(),
        touches_only(s, s.start(id, now), id),
        s.start(id, now).retired == s.retired,
        s.start(id, now).status(id) == match s.status(id) {
            Some(status) => Some(status.on_start(now)),
            None => None,
        },
{
    if holds(s.tasks, id) {
        let status = s.tasks[slot(s.tasks, id)].status;
        assert(status.is_consistent());
        lemma_change_wf(s, id, status.on_start(now));
    }
}

/// `complete` changes the status of the task as `on_complete` says, and
/// touches no other task.
pub proof fn lemma_complete_effect(s: ManagerState, id: TaskId, now: u64)
    requires
        s.wf(),
    ensures
        s.complete(id, now).wf(),
        touches_only(s, s.complete(id, now), id),
        s.complete(id, now).retired == s.retired,
        s.complete(id, now).status(id) == match s.status(id) {
            Some(status) => Some(status.on_complete(now)),
            None => None,
        },
{
    if holds(s.tasks, id) {
        let status = s.tasks[slot(s.tasks, id)].status;
        assert(status.is_consistent());
        lemma_change_wf(s, id, status.on_complete(now));
    }
}

/// `fail` changes the status of the task as `on_fail` says, and touches no
/// other task.
pub proof fn lemma_fail_effect(s: ManagerState, id: TaskId, error: BatchError, now: u64)
    requires
        s.wf(),
    ensures
        s.fail(id, error, now).wf(),
        touches_only(s, s.fail(id, error, now), id),
        s.fail(id, error, now).retired == s.retired,
        s.fail(id, error, now).status(id) == match s.status(id) {
            Some(status) => Some(status.on_fail(error, now)),
            None => None,
        },
{
    if holds(s.tasks, id) {
        let status = s.tasks[slot(s.tasks, id)].status;
        assert(status.is_consistent());
        lemma_change_wf(s, id, status.on_fail(error, now));
    }
}

/// `cancel` changes the status of the task as `on_cancel` says, and touches
/// no other task.
pub proof fn lemma_cancel_effect(s: ManagerState, id: TaskId, now: u64)
    requires
        s.wf(),
    ensures
        s.cancel(id, now).wf(),
        touches_only(s, s.cancel(id, now), id),
        s.cancel(id, now).retired == s.retired,
        s.cancel(id, now).status(id) == match s.status(id) {
            Some(status) => Some(status.on_cancel(now)),
            None => None,
        },
{
    if holds(s.tasks, id) {
        let status = s.tasks[slot(s.tasks, id)].status;
        assert(status.is_consistent());
        lemma_change_wf(s, id, status.on_cancel(now));
    }
}

/// `checkpoint` cancels the task where its token is set, leaves it as it is
/// otherwise, and touches no other task.
pub proof fn lemma_checkpoint_effect(s: ManagerState, id: TaskId, now: u64)
    requires
        s.wf(),
    ensures
        s.checkpoint(id, now).wf(),
        touches_only(s, s.checkpoint(id, now), id),
        s.checkpoint(id, now).retired == s.retired,
        s.checkpoint(id, now).status(id) == match s.status(id) {
            Some(status) => Some(
                if status.cancel_requested {
                    status.on_cancel(now)
                } else {
                    status
                },
            ),
            None => None,
        },
{
    lemma_cancel_effect(s, id, now);
}

/// `try_reserve` records the bytes for the task where they are granted and
/// the controller is on, changes nothing otherwise, and touches no other
/// task. The ledger never goes over the node limit.
pub proof fn lemma_try_reserve_effect(s: ManagerState, id: TaskId, bytes: u64)
    requires
        s.wf(),
    ensures
        s.try_reserve(id, bytes).wf(),
        touches_only(s, s.try_reserve(id, bytes), id),
        s.try_reserve(id, bytes).retired == s.retired,
        s.try_reserve(id, bytes).status(id) == if s.policy.enabled() && s.reserve_outcome(
            id,
            bytes,
        ) == ReserveOutcome::Grant {
            Some(s.status(id).unwrap().on_grant(bytes))
        } else {
            s.status(id)
        },
        s.policy.enabled() && s.reserve_outcome(id, bytes) == ReserveOutcome::Grant ==> {
            &&& s.status(id) matches Some(status)
            &&& !status.state.is_terminal()
            &&& status.reserved + bytes <= s.policy.node_limit
            &&& reserved_sum(s.try_reserve(id, bytes).tasks) == reserved_sum(s.tasks) + bytes
        },
{
    if s.policy.enabled() && s.reserve_outcome(id, bytes) == ReserveOutcome::Grant {
        let i = slot(s.tasks, id);
        let status = s.tasks[i].status;
        let after = s.with_status(i, status.on_grant(bytes));
        assert(status.is_consistent());
        lemma_sum_update(s.tasks, i, s.tasks[i]);
        lemma_with_status_wf(s, i, status.on_grant(bytes));
        lemma_status_at(after, i);
        assert forall|other: TaskId| other != id implies #[trigger] after.status(other)
            == s.status(other) by {
            if holds(s.tasks, other) {
                let j = slot(s.tasks, other);
                assert(j != i);
                assert(after.tasks[j] == s.tasks[j]);
            }
        }
    }
}

/// `release` changes the status of the task as `on_release` says, and
/// touches no other task.
pub proof fn lemma_release_effect(s: ManagerState, id: TaskId, bytes: u64)
    requires
        s.wf(),
    ensures
        s.release(id, bytes).wf(),
        touches_only(s, s.release(id, bytes), id),
        s.release(id, bytes).retired == s.retired,
        s.release(id, bytes).status(id) == match s.status(id) {
            Some(status) => Some(status.on_release(bytes)),
            None => None,
        },
{
    if holds(s.tasks, id) {
        let status = s.tasks[slot(s.tasks, id)].status;
        assert(status.is_consistent());
        lemma_change_wf(s, id, status.on_release(bytes));
    }
}

} // verus!
