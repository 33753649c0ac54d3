//! Tasks: identity, life cycle and the record that the registry keeps.

use vstd::prelude::*;
use crate::error::{BatchError, Component, Failure};
use crate::memory::after_release;

verus! {

/// Identity of a task: the query it belongs to, the stage within that query
/// and the index of the task within the stage.
#[derive(Clone, Copy, Debug, PartialEq, Eq, Structural, Hash)]
pub struct TaskId {
    pub query_id: u64,
    pub stage_id: u32,
    pub task_index: u32,
}

/// Where a task stands in its life cycle.
#[derive(Clone, Copy, Debug, PartialEq, Eq, Structural)]
pub enum TaskState {
    Pending,
    Running,
    Finished,
    Failed,
    Cancelled,
}

/// What can happen to a task.
#[derive(Clone, Copy, Debug, PartialEq, Eq, Structural)]
pub enum TaskEvent {
    /// A worker picked the task up.
    Start,
    /// The last operator finished.
    Complete,
    /// An operator or a collaborator failed.
    Fail,
    /// The task was aborted, or its worker saw the cancellation token.
    Cancel,
}

impl TaskState {
    /// `Finished`, `Failed` and `Cancelled` are terminal.
    pub open spec fn is_terminal(self) -> bool {
        self is Finished || self is Failed || self is Cancelled
    }

    /// The life cycle: `Pending` starts into `Running`, `Running` completes
    /// into `Finished` or fails into `Failed`, and both can be cancelled.
    /// Every other pair leaves the state as it is.
    pub open spec fn next(self, event: TaskEvent) -> TaskState {
        match (self, event) {
            (TaskState::Pending, TaskEvent::Start) => TaskState::Running,
            (TaskState::Running, TaskEvent::Complete) => TaskState::Finished,
            (TaskState::Running, TaskEvent::Fail) => TaskState::Failed,
            (TaskState::Pending, TaskEvent::Cancel) => TaskState::Cancelled,
            (TaskState::Running, TaskEvent::Cancel) => TaskState::Cancelled,
            _ => self,
        }
    }

    pub fn terminal(&self) -> (r: bool)
        ensures
            r == self.is_terminal(),
    {
        match self {
            TaskState::Pending => false,
            TaskState::Running => false,
            _ => true,
        }
    }

    /// The state that follows `self` on `event`.
    pub fn advance(&self, event: TaskEvent) -> (r: TaskState)
        ensures
            r == self.next(event),
            self.is_terminal() ==> r == *self,
    {
        match (*self, event) {
            (TaskState::Pending, TaskEvent::Start) => TaskState::Running,
            (TaskState::Running, TaskEvent::Complete) => TaskState::Finished,
            (TaskState::Running, TaskEvent::Fail) => TaskState::Failed,
            (TaskState::Pending, TaskEvent::Cancel) => TaskState::Cancelled,
            (TaskState::Running, TaskEvent::Cancel) => TaskState::Cancelled,
            (state, _) => state,
        }
    }
}

/// What the registry knows of one task, as `lookup` hands it out.
#[derive(Debug, PartialEq, Eq)]
pub struct TaskStatus {
    pub state: TaskState,
    /// The quota the task was scheduled with; zero for none.
    pub memory_quota: u64,
    /// The bytes that the memory ledger holds for the task.
    pub reserved: u64,
    /// The cancellation token: set once the task has been told to stop.
    pub cancel_requested: bool,
    pub start_time: Option<u64>,
    pub end_time: Option<u64>,
    /// Why the task failed; set in `Failed` and in no other state.
    pub last_error: Option<BatchError>,
}

impl Clone for TaskStatus {
    fn clone(&self) -> (copy: Self)
        ensures
            copy == *self,
    {
        let last_error = match &self.last_error {
            Some(error) => Some(error.clone()),
            None => None,
        };
        TaskStatus {
            state: self.state,
            memory_quota: self.memory_quota,
            reserved: self.reserved,
            cancel_requested: self.cancel_requested,
            start_time: self.start_time,
            end_time: self.end_time,
            last_error,
        }
    }
}

impl TaskStatus {
    /// The status of a task that was just registered.
    pub open spec fn pending(memory_quota: u64) -> TaskStatus {
        TaskStatus {
            state: TaskState::Pending,
            memory_quota,
            reserved: 0,
            cancel_requested: false,
            start_time: None,
            end_time: None,
            last_error: None,
        }
    }

    /// Each state has one shape: a task holds memory only while it is pending
    /// or running, it has an end time exactly when it is terminal, an error
    /// exactly when it failed, and a start time once it ran.
    pub open spec fn is_consistent(self) -> bool {
        match self.state {
            TaskState::Pending => !self.cancel_requested && self.start_time is None
                && self.end_time is None && self.last_error is None,
            TaskState::Running => self.start_time is Some && self.end_time is None
                && self.last_error is None,
            TaskState::Finished => self.reserved == 0 && self.start_time is Some
                && self.end_time is Some && self.last_error is None,
            TaskState::Failed => self.reserved == 0 && self.start_time is Some
                && self.end_time is Some && self.last_error is Some,
            TaskState::Cancelled => self.cancel_requested && self.reserved == 0
                && self.end_time is Some && self.last_error is None,
        }
    }

    /// A worker picks the task up at `now`.
    pub open spec fn on_start(self, now: u64) -> TaskStatus {
        if self.state == TaskState::Pending {
            TaskStatus { state: TaskState::Running, start_time: Some(now), ..self }
        } else {
            self
        }
    }

    /// The event that `event` counts as here: the completion of a
    /// task that was told to stop is its cancellation, and every other event
    /// is itself.
    pub open spec fn effective(self, event: TaskEvent) -> TaskEvent {
        if event == TaskEvent::Complete && self.cancel_requested {
            TaskEvent::Cancel
        } else {
            event
        }
    }

    /// The task completes at `now`; what it held is given back. A task that
    /// was told to stop does not finish: its completion cancels it.
    pub open spec fn on_complete(self, now: u64) -> TaskStatus {
        if self.cancel_requested {
            self.on_cancel(now)
        } else if self.state == TaskState::Running {
            TaskStatus { state: TaskState::Finished, reserved: 0, end_time: Some(now), ..self }
        } else {
            self
        }
    }

    /// The task fails with `error` at `now`; what it held is given back.
    pub open spec fn on_fail(self, error: BatchError, now: u64) -> TaskStatus {
        if self.state == TaskState::Running {
            TaskStatus {
                state: TaskState::Failed,
                reserved: 0,
                end_time: Some(now),
                last_error: Some(error),
                ..self
            }
        } else {
            self
        }
    }

    /// The task is cancelled at `now`; what it held is given back.
    pub open spec fn on_cancel(self, now: u64) -> TaskStatus {
        if self.state == TaskState::Pending || self.state == TaskState::Running {
            TaskStatus {
                state: TaskState::Cancelled,
                reserved: 0,
                cancel_requested: true,
                end_time: Some(now),
                ..self
            }
        } else {
            self
        }
    }

    /// The task is told to stop at `now`: a pending task is cancelled on the
    /// spot, a running one gets its token set and stays running until its
    /// worker sees it, a terminal one is left alone.
    pub open spec fn on_abort(self, now: u64) -> TaskStatus {
        if self.state == TaskState::Pending {
            self.on_cancel(now)
        } else if self.state == TaskState::Running {
            TaskStatus { cancel_requested: true, ..self }
        } else {
            self
        }
    }

    /// `bytes` more are recorded for the task.
    pub open spec fn on_grant(self, bytes: u64) -> TaskStatus {
        TaskStatus { reserved: (self.reserved + bytes) as u64, ..self }
    }

    /// `bytes` are given back, or all of it where less is held.
    pub open spec fn on_release(self, bytes: u64) -> TaskStatus {
        TaskStatus { reserved: after_release(self.reserved, bytes), ..self }
    }

    /// The status that `event` leads to; `error` is recorded where the task
    /// fails.
    pub open spec fn on_event(self, event: TaskEvent, error: BatchError, now: u64) -> TaskStatus {
        match event {
            TaskEvent::Start => self.on_start(now),
            TaskEvent::Complete => self.on_complete(now),
            TaskEvent::Fail => self.on_fail(error, now),
            TaskEvent::Cancel => self.on_cancel(now),
        }
    }

    pub fn new_pending(memory_quota: u64) -> (status: TaskStatus)
        ensures
            status == TaskStatus::pending(memory_quota),
            status.is_consistent(),
    {
        TaskStatus {
            state: TaskState::Pending,
            memory_quota,
            reserved: 0,
            cancel_requested: false,
            start_time: None,
            end_time: None,
            last_error: None,
        }
    }

    pub fn started(self, now: u64) -> (status: TaskStatus)
        ensures
            status == self.on_start(now),
            status.state == self.state.next(TaskEvent::Start),
            self.is_consistent() ==> status.is_consistent(),
    {
        match self.state {
            TaskState::Pending => TaskStatus {
                state: TaskState::Running,
                memory_quota: self.memory_quota,
                reserved: self.reserved,
                cancel_requested: self.cancel_requested,
                start_time: Some(now),
                end_time: self.end_time,
                last_error: self.last_error,
            },
            _ => self,
        }
    }

    pub fn completed(self, now: u64) -> (status: TaskStatus)
        ensures
            status == self.on_complete(now),
            status.state == self.state.next(self.effective(TaskEvent::Complete)),
            self.is_consistent() ==> status.is_consistent(),
    {
        if self.cancel_requested {
            return self.cancelled(now);
        }
        match self.state {
            TaskState::Running => TaskStatus {
                state: TaskState::Finished,
                memory_quota: self.memory_quota,
                reserved: 0,
                cancel_requested: self.cancel_requested,
                start_time: self.start_time,
                end_time: Some(now),
                last_error: self.last_error,
            },
            _ => self,
        }
    }

    pub fn failed(self, error: BatchError, now: u64) -> (status: TaskStatus)
        ensures
            status == self.on_fail(error, now),
            status.state == self.state.next(TaskEvent::Fail),
            self.is_consistent() ==> status.is_consistent(),
    {
        match self.state {
            TaskState::Running => TaskStatus {
                state: TaskState::Failed,
                memory_quota: self.memory_quota,
                reserved: 0,
                cancel_requested: self.cancel_requested,
                start_time: self.start_time,
                end_time: Some(now),
                last_error: Some(error),
            },
            _ => self,
        }
    }

    pub fn cancelled(self, now: u64) -> (status: TaskStatus)
        ensures
            status == self.on_cancel(now),
            status.state == self.state.next(TaskEvent::Cancel),
            self.is_consistent() ==> status.is_consistent(),
    {
        match self.state {
            TaskState::Pending | TaskState::Running => TaskStatus {
                state: TaskState::Cancelled,
                memory_quota: self.memory_quota,
                reserved: 0,
                cancel_requested: true,
                start_time: self.start_time,
                end_time: Some(now),
                last_error: self.last_error,
            },
            _ => self,
        }
    }

    pub fn aborted(self, now: u64) -> (status: TaskStatus)
        ensures
            status == self.on_abort(now),
            self.is_consistent() ==> status.is_consistent(),
    {
        match self.state {
            TaskState::Pending => self.cancelled(now),
            TaskState::Running => TaskStatus {
                state: self.state,
                memory_quota: self.memory_quota,
                reserved: self.reserved,
                cancel_requested: true,
                start_time: self.start_time,
                end_time: self.end_time,
                last_error: self.last_error,
            },
            _ => self,
        }
    }

    /// Applies `event`; `error` is recorded where the task fails, and dropped
    /// otherwise.
    pub fn applied(self, event: TaskEvent, error: BatchError, now: u64) -> (status: TaskStatus)
        ensures
            status == self.on_event(event, error, now),
            status.state == self.state.next(self.effective(event)),
            self.state.is_terminal() ==> status == self,
            self.is_consistent() ==> status.is_consistent(),
    {
        match event {
            TaskEvent::Start => self.started(now),
            TaskEvent::Complete => self.completed(now),
            TaskEvent::Fail => self.failed(error, now),
            TaskEvent::Cancel => self.cancelled(now),
        }
    }
}

/// One entry of the registry.
#[derive(Debug, PartialEq, Eq)]
pub struct Task {
    pub id: TaskId,
    pub status: TaskStatus,
}

impl Clone for Task {
    fn clone(&self) -> (copy: Self)
        ensures
            copy == *self,
    {
        Task { id: self.id, status: self.status.clone() }
    }
}

/// A request to run one fragment of a query plan on this node.
#[derive(Debug, PartialEq, Eq)]
pub struct TaskDescriptor {
    pub query_id: u64,
    pub stage_id: u32,
    pub task_index: u32,
    /// The plan fragment, serialised.
    pub plan: Vec<u8>,
    /// The worker that the fragment was assigned to.
    pub worker_id: u32,
    /// The memory quota of the task in bytes; zero for none.
    pub memory_quota: u64,
}

/// What a worker needs to run a task that was admitted.
#[derive(Debug, PartialEq, Eq)]
pub struct TaskHandle {
    pub task_id: TaskId,
    pub plan: Vec<u8>,
    pub worker_id: u32,
    pub memory_quota: u64,
}

impl TaskDescriptor {
    pub open spec fn id(&self) -> TaskId {
        TaskId { query_id: self.query_id, stage_id: self.stage_id, task_index: self.task_index }
    }

    /// A descriptor is valid when it names a query, which zero does not, and
    /// carries a plan.
    pub open spec fn is_valid(&self) -> bool {
        self.query_id != 0 && self.plan@.len() > 0
    }

    /// The handle that admission turns the descriptor into.
    pub open spec fn handle(&self) -> TaskHandle {
        TaskHandle {
            task_id: self.id(),
            plan: self.plan,
            worker_id: self.worker_id,
            memory_quota: self.memory_quota,
        }
    }

    /// `error` is the rejection that an invalid descriptor earns: a failure of
    /// the task manager that says what is wrong, the query id before the plan.
    pub open spec fn is_rejection(&self, error: BatchError) -> bool {
        &&& error matches BatchError::Failed(cause)
        &&& cause.component == Component::TaskManager
        &&& cause.message@ == if self.query_id == 0 {
            "invalid query id"@
        } else {
            "empty plan"@
        }
    }

    pub fn task_id(&self) -> (id: TaskId)
        ensures
            id == self.id(),
    {
        TaskId { query_id: self.query_id, stage_id: self.stage_id, task_index: self.task_index }
    }

    /// Checks the descriptor: `Ok` where it is valid, the rejection otherwise.
    pub fn validate(&self) -> (checked: Result<(), BatchError>)
        ensures
            checked is Ok <==> self.is_valid(),
            checked matches Err(error) ==> self.is_rejection(error),
    {
        if self.query_id == 0 {
            Err(
                BatchError::Failed(
                    Failure {
                        component: Component::TaskManager,
                        message: "invalid query id".to_owned(),
                    },
                ),
            )
        } else if self.plan.len() == 0 {
            Err(
                BatchError::Failed(
                    Failure { component: Component::TaskManager, message: "empty plan".to_owned() },
                ),
            )
        } else {
            Ok(())
        }
    }

    pub fn into_handle(self) -> (handle: TaskHandle)
        ensures
            handle == self.handle(),
    {
        TaskHandle {
            task_id: self.task_id(),
            plan: self.plan,
            worker_id: self.worker_id,
            memory_quota: self.memory_quota,
        }
    }
}

} // verus!
