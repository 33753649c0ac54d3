//! Coordination core for batch query tasks on one compute node.
//!
//! The crate holds the sequential state machines of the node: the task
//! registry with its life cycle, the memory ledger that decides between
//! granting, spilling and denying, and the pool of peer connections. Callers
//! that share a value between threads wrap it in a lock of their own; every
//! operation here is one short step that never blocks.

pub mod addr;
pub mod config;
pub mod env;
pub mod error;
pub mod exchange;
pub mod manager;
pub mod memory;
pub mod pool;
pub mod pool_laws;
pub mod registry;
pub mod registry_laws;
pub mod task;
