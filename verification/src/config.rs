//! The settings of the batch coordinator.

use vstd::prelude::*;

verus! {

/// The settings that the coordinator reads.
#[derive(Clone, Copy, Debug, PartialEq, Eq, Structural)]
pub struct BatchConfig {
    /// How many tasks may be pending or running on the node at a time.
    pub max_concurrent_tasks: u64,
    /// The share of the node's memory limit, in percent, that a request may
    /// count on once the asking task has spilled all it holds.
    pub spill_headroom_percent: u8,
    /// How often a failed connection attempt is tried again.
    pub connect_max_retries: u32,
    /// The wait before the first retry, in milliseconds.
    pub connect_backoff_base_ms: u64,
    /// The longest wait between two attempts, in milliseconds.
    pub connect_backoff_cap_ms: u64,
    /// How long an exchange may go without progress, in milliseconds; zero
    /// for no limit.
    pub exchange_timeout_ms: u64,
}

impl BatchConfig {
    /// The settings of a node that was given none.
    pub open spec fn standard() -> BatchConfig {
        BatchConfig {
            max_concurrent_tasks: 1024,
            spill_headroom_percent: 100,
            connect_max_retries: 3,
            connect_backoff_base_ms: 100,
            connect_backoff_cap_ms: 10_000,
            exchange_timeout_ms: 60_000,
        }
    }
}

impl Default for BatchConfig {
    fn default() -> (config: Self)
        ensures
            config == BatchConfig::standard(),
    {
        BatchConfig {
            max_concurrent_tasks: 1024,
            spill_headroom_percent: 100,
            connect_max_retries: 3,
            connect_backoff_base_ms: 100,
            connect_backoff_cap_ms: 10_000,
            exchange_timeout_ms: 60_000,
        }
    }
}

} // verus!
