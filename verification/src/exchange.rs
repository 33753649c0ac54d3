//! Timeouts of remote exchanges.
//!
//! An exchange that has seen no progress for longer than the configured
//! interval gives up: its task fails with `ResourceExhausted`.

use vstd::prelude::*;
use crate::config::BatchConfig;
use crate::error::BatchError;
use crate::manager::BatchManager;
use crate::registry::{lemma_checkpoint_effect, lemma_fail_effect};
use crate::task::{TaskId, TaskState};

verus! {

/// An exchange that last saw progress at `last_progress` has timed out at
/// `now`: a timeout is set, and at least that much time has gone by. A clock
/// that went backwards never times an exchange out.
pub open spec fn is_timed_out(timeout_ms: u64, last_progress: u64, now: u64) -> bool {
    timeout_ms != 0 && now >= last_progress && now - last_progress >= timeout_ms
}

/// Computes `is_timed_out` for the timeout that `config` sets.
pub fn timed_out(config: &BatchConfig, last_progress: u64, now: u64) -> (late: bool)
    ensures
        late == is_timed_out(config.exchange_timeout_ms, last_progress, now),
{
    config.exchange_timeout_ms != 0 && now >= last_progress && now - last_progress
        >= config.exchange_timeout_ms
}

/// The check that an exchange operator of the task `id` makes while it
/// waits: where the exchange has timed out, the task fails with
/// `ResourceExhausted` at `now`; otherwise the check is a `checkpoint`. The
/// answer is the state that the task is in afterwards, or `NotFound`.
pub fn watch_exchange(
    manager: &mut BatchManager,
    config: &BatchConfig,
    id: TaskId,
    last_progress: u64,
    now: u64,
) -> (outcome: Result<TaskState, BatchError>)
    requires
        old(manager).wf(),
    ensures
        final(manager).wf(),
        final(manager)@ == if is_timed_out(config.exchange_timeout_ms, last_progress, now) {
            old(manager)@.fail(id, BatchError::ResourceExhausted, now)
        } else {
            old(manager)@.checkpoint(id, now)
        },
        outcome is Ok <==> old(manager)@.status(id) is Some,
        outcome matches Ok(state) ==> final(manager)@.status(id) matches Some(status)
            && status.state == state,
        outcome matches Err(error) ==> error == BatchError::NotFound,
{
    proof {
        lemma_fail_effect(manager@, id, BatchError::ResourceExhausted, now);
        lemma_checkpoint_effect(manager@, id, now);
    }
    if timed_out(config, last_progress, now) {
        manager.fail(id, BatchError::ResourceExhausted, now)
    } else {
        manager.checkpoint(id, now)
    }
}

} // verus!
