//! The errors that the coordinator reports.

use vstd::prelude::*;

verus! {

/// The part of the node in which a failure started.
#[derive(Clone, Copy, Debug, PartialEq, Eq, Structural)]
pub enum Component {
    TaskManager,
    MemoryController,
    ClientPool,
    Executor,
    Exchange,
    StateStore,
    DmlManager,
}

/// The cause carried by [`BatchError::Failed`]: where the failure started and
/// what the failing part said.
#[derive(Debug, PartialEq, Eq)]
pub struct Failure {
    pub component: Component,
    pub message: String,
}

impl Clone for Failure {
    fn clone(&self) -> (copy: Self)
        ensures
            copy == *self,
    {
        Failure { component: self.component, message: self.message.clone() }
    }
}

/// Every way in which a request to the coordinator, or a task, can fail.
#[derive(Debug, PartialEq, Eq)]
pub enum BatchError {
    /// A task with this identifier is, or once was, registered.
    DuplicateTask,
    /// No task with this identifier is registered.
    NotFound,
    /// The task has not reached a terminal state yet.
    NotTerminal,
    /// The node runs as many tasks as it admits at a time.
    Overloaded,
    /// Memory could not be had even by spilling, or an exchange timed out.
    ResourceExhausted,
    /// The peer could not be reached within the configured retries.
    ConnectFailed,
    /// An operator or a collaborator failed.
    Failed(Failure),
}

impl Clone for BatchError {
    fn clone(&self) -> (copy: Self)
        ensures
            copy == *self,
    {
        match self {
            BatchError::DuplicateTask => BatchError::DuplicateTask,
            BatchError::NotFound => BatchError::NotFound,
            BatchError::NotTerminal => BatchError::NotTerminal,
            BatchError::Overloaded => BatchError::Overloaded,
            BatchError::ResourceExhausted => BatchError::ResourceExhausted,
            BatchError::ConnectFailed => BatchError::ConnectFailed,
            BatchError::Failed(cause) => BatchError::Failed(cause.clone()),
        }
    }
}

} // verus!
