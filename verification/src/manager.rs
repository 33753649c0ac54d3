//! The task manager: the registry of the tasks on this node, and the one
//! place where they are created, aborted, looked up and removed, and where
//! their memory is accounted for.

use vstd::prelude::*;
use crate::config::BatchConfig;
use crate::error::BatchError;
use crate::memory::{after_release, MemoryPolicy, ReserveOutcome};
use crate::registry::{
    active, count_in, holds, lemma_remove_finished_wf, lemma_schedule_wf, lemma_slot_is,
    lemma_sum_of_nothing, lemma_sum_update, lemma_with_status_wf, reserved_sum, slot, ManagerState,
};
use crate::task::{Task, TaskDescriptor, TaskHandle, TaskId, TaskState, TaskStatus};

verus! {

/// How many tasks are in each state, and what the ledger holds in all.
#[derive(Clone, Copy, Debug, PartialEq, Eq, Structural)]
pub struct BatchManagerMetrics {
    pub pending: u64,
    pub running: u64,
    pub finished: u64,
    pub failed: u64,
    pub cancelled: u64,
    pub reserved_bytes: u64,
}

/// The metrics of a registry: the number of tasks in each state and the sum
/// of the ledger entries.
pub open spec fn metrics_of(s: ManagerState) -> BatchManagerMetrics {
    BatchManagerMetrics {
        pending: count_in(s.tasks, TaskState::Pending) as u64,
        running: count_in(s.tasks, TaskState::Running) as u64,
        finished: count_in(s.tasks, TaskState::Finished) as u64,
        failed: count_in(s.tasks, TaskState::Failed) as u64,
        cancelled: count_in(s.tasks, TaskState::Cancelled) as u64,
        reserved_bytes: reserved_sum(s.tasks) as u64,
    }
}

/// The registry of the tasks on this node.
pub struct BatchManager {
    tasks: Vec<Task>,
    retired: Vec<TaskId>,
    max_tasks: u64,
    policy: MemoryPolicy,
    /// The sum of the ledger entries, kept beside them.
    total_reserved: u64,
}

impl View for BatchManager {
    type V = ManagerState;

    closed spec fn view(&self) -> ManagerState {
        ManagerState {
            tasks: self.tasks@,
            retired: self.retired@.to_set(),
            max_tasks: self.max_tasks,
            policy: self.policy,
        }
    }
}

impl Clone for BatchManager {
    fn clone(&self) -> (copy: Self)
        ensures
            copy@ == self@,
            self.wf() ==> copy.wf(),
    {
        let tasks = self.tasks.clone();
        let retired = self.retired.clone();
        assert(tasks@ =~= self.tasks@);
        assert(retired@ =~= self.retired@);
        BatchManager {
            tasks,
            retired,
            max_tasks: self.max_tasks,
            policy: self.policy,
            total_reserved: self.total_reserved,
        }
    }
}

impl BatchManager {
    /// The node-wide counter agrees with the ledger entries.
    pub closed spec fn counter_agrees(&self) -> bool {
        self.total_reserved == reserved_sum(self.tasks@)
    }

    /// The manager is well formed: its registry is, and the node-wide counter
    /// is the sum of the ledger entries.
    pub open spec fn wf(&self) -> bool {
        self@.wf() && self.counter_agrees()
    }

    /// A manager without tasks that admits `config.max_concurrent_tasks`
    /// tasks at a time and hands out at most `mem_limit` bytes (zero: no
    /// limit, and no accounting).
    pub fn new(config: &BatchConfig, mem_limit: u64) -> (manager: Self)
        ensures
            manager.wf(),
            manager@ == ManagerState::empty(
                config.max_concurrent_tasks,
                MemoryPolicy {
                    node_limit: mem_limit,
                    spill_headroom_percent: config.spill_headroom_percent,
                },
            ),
            reserved_sum(manager@.tasks) == 0,
    {
        let manager = BatchManager {
            tasks: Vec::new(),
            retired: Vec::new(),
            max_tasks: config.max_concurrent_tasks,
            policy: MemoryPolicy::new(mem_limit, config.spill_headroom_percent),
            total_reserved: 0,
        };
        proof {
            assert(manager.retired@.to_set() =~= Set::<TaskId>::empty());
        }
        manager
    }

    /// The position of the task `id`.
    fn find(&self, id: TaskId) -> (found: Option<usize>)
        requires
            self.wf(),
        ensures
            found is Some <==> holds(self@.tasks, id),
            found matches Some(i) ==> i < self.tasks.len() && self.tasks@[i as int].id == id
                && slot(self@.tasks, id) == i,
    {
        let mut i: usize = 0;
        while i < self.tasks.len()
            invariant
                self.wf(),
                i <= self.tasks.len(),
                forall|j: int| 0 <= j < i ==> (#[trigger] self.tasks@[j]).id != id,
            decreases self.tasks.len() - i,
        {
            if self.tasks[i].id == id {
                proof {
                    lemma_slot_is(self.tasks@, i as int);
                }
                return Some(i);
            }
            i += 1;
        }
        None
    }

    /// Whether a task with the identifier `id` was removed.
    fn is_retired(&self, id: TaskId) -> (found: bool)
        ensures
            found == self@.retired.contains(id),
    {
        let mut i: usize = 0;
        while i < self.retired.len()
            invariant
                i <= self.retired.len(),
                forall|j: int| 0 <= j < i ==> self.retired@[j] != id,
            decreases self.retired.len() - i,
        {
            if self.retired[i] == id {
                return true;
            }
            i += 1;
        }
        false
    }

    /// The number of tasks in `state`.
    pub fn count(&self, state: TaskState) -> (n: usize)
        ensures
            n == count_in(self@.tasks, state),
    {
        let mut n: usize = 0;
        let mut i: usize = 0;
        while i < self.tasks.len()
            invariant
                i <= self.tasks.len(),
                n <= i,
                n == count_in(self.tasks@.take(i as int), state),
            decreases self.tasks.len() - i,
        {
            proof {
                let next = self.tasks@.take(i + 1);
                assert(next.drop_last() =~= self.tasks@.take(i as int));
                assert(next.last() == self.tasks@[i as int]);
            }
            if self.tasks[i].status.state == state {
                n += 1;
            }
            i += 1;
        }
        proof {
            assert(self.tasks@.take(i as int) =~= self.tasks@);
        }
        n
    }

    /// The number of tasks that are pending or running.
    pub fn active_count(&self) -> (n: usize)
        ensures
            n == active(self@.tasks),
    {
        let mut n: usize = 0;
        let mut i: usize = 0;
        while i < self.tasks.len()
            invariant
                i <= self.tasks.len(),
                n <= i,
                n == active(self.tasks@.take(i as int)),
            decreases self.tasks.len() - i,
        {
            proof {
                let next = self.tasks@.take(i + 1);
                assert(next.drop_last() =~= self.tasks@.take(i as int));
                assert(next.last() == self.tasks@[i as int]);
            }
            if !self.tasks[i].status.state.terminal() {
                n += 1;
            }
            i += 1;
        }
        proof {
            assert(self.tasks@.take(i as int) =~= self.tasks@);
        }
        n
    }

    /// How many tasks the registry holds, terminal ones included.
    pub fn len(&self) -> (n: usize)
        ensures
            n == self@.tasks.len(),
    {
        self.tasks.len()
    }

    /// The bytes that the ledger holds for all tasks together.
    pub fn reserved_bytes(&self) -> (bytes: u64)
        requires
            self.wf(),
        ensures
            bytes == reserved_sum(self@.tasks),
            self@.policy.enabled() ==> bytes <= self@.policy.node_limit,
    {
        self.total_reserved
    }

    /// The metrics of the manager as they stand.
    pub fn metrics(&self) -> (metrics: BatchManagerMetrics)
        requires
            self.wf(),
        ensures
            metrics == metrics_of(self@),
            metrics.pending + metrics.running == active(self@.tasks),
    {
        BatchManagerMetrics {
            pending: self.count(TaskState::Pending) as u64,
            running: self.count(TaskState::Running) as u64,
            finished: self.count(TaskState::Finished) as u64,
            failed: self.count(TaskState::Failed) as u64,
            cancelled: self.count(TaskState::Cancelled) as u64,
            reserved_bytes: self.total_reserved,
        }
    }

    /// Registers a task for `descriptor` as pending and hands back what its
    /// worker needs.
    ///
    /// The descriptor is rejected, and the registry left as it was, where it
    /// is not valid (`Failed`), where its identifier is or once was taken
    /// (`DuplicateTask`), and where as many tasks are active as the node
    /// admits (`Overloaded`); the first of these that applies is reported.
    pub fn schedule(&mut self, descriptor: TaskDescriptor) -> (admitted: Result<
        TaskHandle,
        BatchError,
    >)
        requires
            old(self).wf(),
        ensures
            final(self).wf(),
            final(self)@ == old(self)@.schedule(descriptor),
            reserved_sum(final(self)@.tasks) == reserved_sum(old(self)@.tasks),
            admitted is Ok <==> old(self)@.admits(descriptor),
            match admitted {
                Ok(handle) => handle == descriptor.handle(),
                Err(error) => if !descriptor.is_valid() {
                    descriptor.is_rejection(error)
                } else if old(self)@.knows(descriptor.id()) {
                    error == BatchError::DuplicateTask
                } else {
                    error == BatchError::Overloaded
                },
            },
    {
        match descriptor.validate() {
            Err(error) => {
                return Err(error);
            },
            Ok(_) => {},
        }
        let id = descriptor.task_id();
        if self.find(id).is_some() || self.is_retired(id) {
            return Err(BatchError::DuplicateTask);
        }
        let running_now = self.active_count();
        if running_now as u64 >= self.max_tasks {
            return Err(BatchError::Overloaded);
        }
        proof {
            lemma_schedule_wf(self@, descriptor);
        }
        self.tasks.push(Task { id, status: TaskStatus::new_pending(descriptor.memory_quota) });
        Ok(descriptor.into_handle())
    }

    /// Puts `status` in the place of the status of the task at `i` and
    /// brings the node-wide counter up to date.
    fn replace_status(&mut self, i: usize, status: TaskStatus)
        requires
            old(self).wf(),
            i < old(self)@.tasks.len(),
            status.is_consistent(),
            old(self)@.policy.enabled() ==> reserved_sum(old(self)@.tasks)
                - old(self)@.tasks[i as int].status.reserved + status.reserved
                <= old(self)@.policy.node_limit,
            !old(self)@.policy.enabled() ==> status.reserved == 0,
        ensures
            final(self).wf(),
            final(self)@ == old(self)@.with_status(i as int, status),
            reserved_sum(final(self)@.tasks) == reserved_sum(old(self)@.tasks) - old(
                self,
            )@.tasks[i as int].status.reserved + status.reserved,
    {
        let id = self.tasks[i].id;
        let held = self.tasks[i].status.reserved;
        proof {
            lemma_with_status_wf(self@, i as int, status);
            lemma_sum_update(self.tasks@, i as int, Task { id, status });
            if !self@.policy.enabled() {
                lemma_sum_of_nothing(self.tasks@);
            }
        }
        self.total_reserved = self.total_reserved - held + status.reserved;
        self.tasks.set(i, Task { id, status });
    }

    /// Tells the task `id` to stop at `now`. A pending task is cancelled on
    /// the spot and gives back what it held; a running one gets its
    /// cancellation token set and stays running until its worker sees the
    /// token, at its next checkpoint or when it reports completion; a
    /// terminal or unknown one is left alone. Aborting twice is the same as
    /// aborting once.
    pub fn abort(&mut self, id: TaskId, now: u64)
        requires
            old(self).wf(),
        ensures
            final(self).wf(),
            final(self)@ == old(self)@.abort(id, now),
    {
        match self.find(id) {
            Some(i) => {
                let status = self.tasks[i].status.clone().aborted(now);
                self.replace_status(i, status);
            },
            None => {},
        }
    }

    /// A worker picks the task `id` up at `now`: a pending task starts
    /// running, any other stays as it is. The answer is the state that the
    /// task is in afterwards, or `NotFound`.
    pub fn start(&mut self, id: TaskId, now: u64) -> (outcome: Result<TaskState, BatchError>)
        requires
            old(self).wf(),
        ensures
            final(self).wf(),
            final(self)@ == old(self)@.start(id, now),
            reserved_sum(final(self)@.tasks) == reserved_sum(old(self)@.tasks),
            outcome == match old(self)@.status(id) {
                Some(status) => Ok::<TaskState, BatchError>(status.on_start(now).state),
                None => Err(BatchError::NotFound),
            },
    {
        match self.find(id) {
            Some(i) => {
                let status = self.tasks[i].status.clone().started(now);
                let state = status.state;
                self.replace_status(i, status);
                Ok(state)
            },
            None => Err(BatchError::NotFound),
        }
    }

    /// The task `id` completes at `now`: a running task becomes finished and
    /// gives back what it held, any other stays as it is. A task that was
    /// told to stop never finishes: where the cancellation token is set, the
    /// completion counts as the checkpoint that the worker did not reach, and
    /// the task becomes cancelled. The answer is the state that the task is
    /// in afterwards, or `NotFound`.
    pub fn complete(&mut self, id: TaskId, now: u64) -> (outcome: Result<TaskState, BatchError>)
        requires
            old(self).wf(),
        ensures
            final(self).wf(),
            final(self)@ == old(self)@.complete(id, now),
            outcome == match old(self)@.status(id) {
                Some(status) => Ok::<TaskState, BatchError>(status.on_complete(now).state),
                None => Err(BatchError::NotFound),
            },
    {
        match self.find(id) {
            Some(i) => {
                let status = self.tasks[i].status.clone().completed(now);
                let state = status.state;
                self.replace_status(i, status);
                Ok(state)
            },
            None => Err(BatchError::NotFound),
        }
    }

    /// The task `id` fails with `error` at `now`: a running task becomes
    /// failed, keeps the error and gives back what it held; any other stays
    /// as it is. A failure is recorded also where the task was told to stop
    /// and had not stopped yet. The answer is the state that the task is in
    /// afterwards, or `NotFound`.
    pub fn fail(&mut self, id: TaskId, error: BatchError, now: u64) -> (outcome: Result<
        TaskState,
        BatchError,
    >)
        requires
            old(self).wf(),
        ensures
            final(self).wf(),
            final(self)@ == old(self)@.fail(id, error, now),
            outcome == match old(self)@.status(id) {
                Some(status) => Ok::<TaskState, BatchError>(status.on_fail(error, now).state),
                None => Err(BatchError::NotFound),
            },
    {
        match self.find(id) {
            Some(i) => {
                let status = self.tasks[i].status.clone().failed(error, now);
                let state = status.state;
                self.replace_status(i, status);
                Ok(state)
            },
            None => Err(BatchError::NotFound),
        }
    }

    /// The task `id` is cancelled at `now`, by its worker or from upstream: a
    /// pending or running task becomes cancelled and gives back what it held,
    /// a terminal one stays as it is. The answer is the state that the task
    /// is in afterwards, or `NotFound`.
    pub fn cancel(&mut self, id: TaskId, now: u64) -> (outcome: Result<TaskState, BatchError>)
        requires
            old(self).wf(),
        ensures
            final(self).wf(),
            final(self)@ == old(self)@.cancel(id, now),
            outcome == match old(self)@.status(id) {
                Some(status) => Ok::<TaskState, BatchError>(status.on_cancel(now).state),
                None => Err(BatchError::NotFound),
            },
    {
        match self.find(id) {
            Some(i) => {
                let status = self.tasks[i].status.clone().cancelled(now);
                let state = status.state;
                self.replace_status(i, status);
                Ok(state)
            },
            None => Err(BatchError::NotFound),
        }
    }

    /// Whether the task `id` has been told to stop.
    pub fn is_cancelled(&self, id: TaskId) -> (told: bool)
        requires
            self.wf(),
        ensures
            told == (self@.status(id) matches Some(status) && status.cancel_requested),
    {
        match self.find(id) {
            Some(i) => self.tasks[i].status.cancel_requested,
            None => false,
        }
    }

    /// The check that a worker makes between two bounded steps of the task
    /// `id`: where the cancellation token is set, the task is cancelled at
    /// `now`. The answer is the state that the task is in afterwards, or
    /// `NotFound`; the worker goes on only on `Running`.
    pub fn checkpoint(&mut self, id: TaskId, now: u64) -> (outcome: Result<TaskState, BatchError>)
        requires
            old(self).wf(),
        ensures
            final(self).wf(),
            final(self)@ == old(self)@.checkpoint(id, now),
            outcome == match old(self)@.status(id) {
                Some(status) => Ok::<TaskState, BatchError>(
                    if status.cancel_requested {
                        status.on_cancel(now).state
                    } else {
                        status.state
                    },
                ),
                None => Err(BatchError::NotFound),
            },
    {
        match self.find(id) {
            Some(i) => {
                if self.tasks[i].status.cancel_requested {
                    self.cancel(id, now)
                } else {
                    Ok(self.tasks[i].status.state)
                }
            },
            None => Err(BatchError::NotFound),
        }
    }

    /// What the registry knows of the task `id`, as a copy.
    pub fn lookup(&self, id: TaskId) -> (found: Option<TaskStatus>)
        requires
            self.wf(),
        ensures
            found == self@.status(id),
    {
        match self.find(id) {
            Some(i) => Some(self.tasks[i].status.clone()),
            None => None,
        }
    }

    /// Takes the terminal task `id` out of the registry and retires its
    /// identifier. Fails with `NotFound` where no such task is registered and
    /// with `NotTerminal` where it is still pending or running; the registry
    /// is then left as it was.
    pub fn remove_finished(&mut self, id: TaskId) -> (outcome: Result<(), BatchError>)
        requires
            old(self).wf(),
        ensures
            final(self).wf(),
            final(self)@ == old(self)@.remove_finished(id),
            outcome == match old(self)@.status(id) {
                None => Err::<(), BatchError>(BatchError::NotFound),
                Some(status) => if status.state.is_terminal() {
                    Ok(())
                } else {
                    Err(BatchError::NotTerminal)
                },
            },
    {
        match self.find(id) {
            Some(i) => {
                if !self.tasks[i].status.state.terminal() {
                    return Err(BatchError::NotTerminal);
                }
                proof {
                    lemma_remove_finished_wf(self@, id);
                    self.retired@.lemma_push_to_set_commute(id);
                }
                self.tasks.remove(i);
                self.retired.push(id);
                Ok(())
            },
            None => Err(BatchError::NotFound),
        }
    }

    /// Asks for `bytes` more for the task `id`.
    ///
    /// While the controller is switched off everything is granted and nothing
    /// is recorded. Otherwise a task that is pending or running gets the
    /// answer of the policy, which looks at the node limit, the quota of the
    /// task and what is held, and at nothing else; a task that has ended or
    /// is not registered is denied. On `Grant` the bytes are recorded for the
    /// task, on any other answer nothing changes.
    pub fn try_reserve(&mut self, id: TaskId, bytes: u64) -> (answer: ReserveOutcome)
        requires
            old(self).wf(),
        ensures
            final(self).wf(),
            answer == old(self)@.reserve_outcome(id, bytes),
            final(self)@ == old(self)@.try_reserve(id, bytes),
            reserved_sum(final(self)@.tasks) == reserved_sum(old(self)@.tasks) + if old(
                self,
            )@.policy.enabled() && answer == ReserveOutcome::Grant {
                bytes as int
            } else {
                0
            },
    {
        if self.policy.node_limit == 0 {
            return ReserveOutcome::Grant;
        }
        match self.find(id) {
            Some(i) => {
                if !self.tasks[i].status.state.terminal() {
                    let held = self.tasks[i].status.reserved;
                    let quota = self.tasks[i].status.memory_quota;
                    let answer = self.policy.decide(self.total_reserved, held, quota, bytes);
                    if answer == ReserveOutcome::Grant {
                        proof {
                            lemma_sum_update(self.tasks@, i as int, self.tasks@[i as int]);
                        }
                        let mut status = self.tasks[i].status.clone();
                        status.reserved = held + bytes;
                        self.replace_status(i, status);
                    }
                    answer
                } else {
                    ReserveOutcome::Denied
                }
            },
            None => ReserveOutcome::Denied,
        }
    }

    /// Gives back `bytes` of what the task `id` holds. Where the task holds
    /// less, all of it is given back and the entry stands at zero; where it
    /// holds nothing, or is not registered, nothing changes.
    pub fn release(&mut self, id: TaskId, bytes: u64)
        requires
            old(self).wf(),
        ensures
            final(self).wf(),
            final(self)@ == old(self)@.release(id, bytes),
            reserved_sum(final(self)@.tasks) == reserved_sum(old(self)@.tasks) - match old(
                self,
            )@.status(id) {
                Some(status) => status.reserved - after_release(status.reserved, bytes),
                None => 0,
            },
    {
        match self.find(id) {
            Some(i) => {
                let held = self.tasks[i].status.reserved;
                let mut status = self.tasks[i].status.clone();
                status.reserved = if bytes >= held {
                    0
                } else {
                    held - bytes
                };
                self.replace_status(i, status);
            },
            None => {},
        }
    }

    /// Asks for `bytes` more for the task `id`, as `try_reserve` does, and
    /// lets the task fail with `ResourceExhausted` at `now` where the answer
    /// is `Denied`. Only a running task can fail: a pending task that is
    /// denied stays pending, with what it held, and a task that has ended or
    /// is not registered is left alone.
    pub fn reserve_or_fail(&mut self, id: TaskId, bytes: u64, now: u64) -> (answer: ReserveOutcome)
        requires
            old(self).wf(),
        ensures
            final(self).wf(),
            answer == old(self)@.reserve_outcome(id, bytes),
            final(self)@ == if answer == ReserveOutcome::Denied {
                old(self)@.fail(id, BatchError::ResourceExhausted, now)
            } else {
                old(self)@.try_reserve(id, bytes)
            },
    {
        let answer = self.try_reserve(id, bytes);
        if answer == ReserveOutcome::Denied {
            let _ = self.fail(id, BatchError::ResourceExhausted, now);
        }
        answer
    }
}

} // verus!
