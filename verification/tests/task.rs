use batch_task::error::{BatchError, Component, Failure};
use batch_task::task::{TaskEvent, TaskState, TaskStatus};

const STATES: [TaskState; 5] = [
    TaskState::Pending,
    TaskState::Running,
    TaskState::Finished,
    TaskState::Failed,
    TaskState::Cancelled,
];

const EVENTS: [TaskEvent; 4] =
    [TaskEvent::Start, TaskEvent::Complete, TaskEvent::Fail, TaskEvent::Cancel];

#[test]
fn the_state_machine_has_exactly_five_moves() {
    for state in STATES {
        for event in EVENTS {
            let expected = match (state, event) {
                (TaskState::Pending, TaskEvent::Start) => TaskState::Running,
                (TaskState::Running, TaskEvent::Complete) => TaskState::Finished,
                (TaskState::Running, TaskEvent::Fail) => TaskState::Failed,
                (TaskState::Pending, TaskEvent::Cancel) => TaskState::Cancelled,
                (TaskState::Running, TaskEvent::Cancel) => TaskState::Cancelled,
                (unchanged, _) => unchanged,
            };
            assert_eq!(state.advance(event), expected);
        }
    }
}

#[test]
fn terminal_states_are_the_three_outcomes() {
    assert!(!TaskState::Pending.terminal());
    assert!(!TaskState::Running.terminal());
    assert!(TaskState::Finished.terminal());
    assert!(TaskState::Failed.terminal());
    assert!(TaskState::Cancelled.terminal());
    for state in STATES {
        if state.terminal() {
            for event in EVENTS {
                assert_eq!(state.advance(event), state);
            }
        }
    }
}

#[test]
fn a_status_follows_its_events() {
    let pending = TaskStatus::new_pending(9);
    assert_eq!(pending.state, TaskState::Pending);
    assert_eq!(pending.memory_quota, 9);
    let mut running = pending.clone().started(3);
    assert_eq!(running.state, TaskState::Running);
    assert_eq!(running.start_time, Some(3));
    running.reserved = 5;
    let finished = running.clone().completed(8);
    assert_eq!(finished.state, TaskState::Finished);
    assert_eq!(finished.end_time, Some(8));
    assert_eq!(finished.reserved, 0);
    let failed = running.clone().failed(BatchError::ResourceExhausted, 8);
    assert_eq!(failed.state, TaskState::Failed);
    assert_eq!(failed.last_error, Some(BatchError::ResourceExhausted));
    assert_eq!(failed.reserved, 0);
    let cancelled = running.clone().cancelled(8);
    assert_eq!(cancelled.state, TaskState::Cancelled);
    assert!(cancelled.cancel_requested);
    let told = running.clone().aborted(8);
    assert_eq!(told.state, TaskState::Running);
    assert!(told.cancel_requested);
    assert_eq!(told.reserved, 5);
    assert_eq!(told.end_time, None);
    assert_eq!(told.clone().completed(9), told.clone().cancelled(9));
    assert_eq!(told.clone().completed(9).state, TaskState::Cancelled);
    assert_eq!(told.clone().failed(BatchError::ConnectFailed, 9).state, TaskState::Failed);
    assert_eq!(pending.clone().aborted(4), pending.clone().cancelled(4));
    assert_eq!(finished.clone().aborted(9), finished);
}

#[test]
fn applied_matches_the_single_steps() {
    let error = BatchError::Failed(Failure {
        component: Component::Executor,
        message: "division by zero".to_string(),
    });
    let running = TaskStatus::new_pending(1).started(1);
    assert_eq!(
        TaskStatus::new_pending(1).applied(TaskEvent::Start, error.clone(), 1),
        running
    );
    assert_eq!(
        running.clone().applied(TaskEvent::Complete, error.clone(), 2),
        running.clone().completed(2)
    );
    assert_eq!(
        running.clone().applied(TaskEvent::Fail, error.clone(), 2),
        running.clone().failed(error.clone(), 2)
    );
    assert_eq!(
        running.clone().applied(TaskEvent::Cancel, error.clone(), 2),
        running.clone().cancelled(2)
    );
    let told = running.clone().aborted(2);
    assert_eq!(
        told.clone().applied(TaskEvent::Complete, error.clone(), 3),
        told.clone().cancelled(3)
    );
    let mut holding = TaskStatus::new_pending(1);
    holding.reserved = 7;
    assert_eq!(holding.clone().started(4).reserved, 7);
    assert_eq!(holding.clone().aborted(4).reserved, 0);
    let failed = running.failed(error.clone(), 2);
    assert_eq!(failed.last_error, Some(error.clone()));
    assert_eq!(failed.clone().applied(TaskEvent::Start, BatchError::NotFound, 3), failed);
}
