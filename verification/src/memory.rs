//! The memory and spill policy: what is answered to a request for memory.
//!
//! The policy is a pure rule over four numbers: what the node has handed out
//! in all, what the asking task holds, the task's quota and the size of the
//! request. The registry keeps the numbers; see `BatchManager::try_reserve`.

use vstd::prelude::*;

verus! {

/// The answer to a request for memory.
#[derive(Clone, Copy, Debug, PartialEq, Eq, Structural)]
pub enum ReserveOutcome {
    /// The bytes are recorded for the task, which may go on.
    Grant,
    /// The task has to write buffered data to disk, release the memory
    /// behind it and ask again.
    SpillRequired,
    /// Not even spilling would make room: the task has to fail.
    Denied,
}

/// The limits of one node.
///
/// A `node_limit` of zero switches the controller off: every request is
/// granted and nothing is recorded. A task quota of zero means that the task
/// has no quota of its own. `spill_headroom_percent` is the share of the node
/// limit that a request may count on once the asking task has spilled all it
/// holds; values above 100 count as 100.
#[derive(Clone, Copy, Debug, PartialEq, Eq, Structural)]
pub struct MemoryPolicy {
    pub node_limit: u64,
    pub spill_headroom_percent: u8,
}

impl MemoryPolicy {
    pub open spec fn enabled(self) -> bool {
        self.node_limit != 0
    }

    /// The configured share, capped at 100.
    pub open spec fn headroom_percent(self) -> int {
        if self.spill_headroom_percent > 100 {
            100
        } else {
            self.spill_headroom_percent as int
        }
    }

    /// A task that holds `held` bytes stays within `quota` with `bytes` more.
    pub open spec fn within_quota(quota: u64, held: int, bytes: u64) -> bool {
        quota == 0 || held + bytes <= quota
    }

    /// What the other tasks hold: the node's total less the entry of the asking one.
    pub open spec fn held_by_others(total: u64, entry: u64) -> int {
        if entry <= total {
            total - entry
        } else {
            0
        }
    }

    /// The request fits as things stand: within the task's quota and within
    /// the node limit.
    pub open spec fn fits(self, total: u64, entry: u64, quota: u64, bytes: u64) -> bool {
        Self::within_quota(quota, entry as int, bytes) && total + bytes <= self.node_limit
    }

    /// The request would fit if the task spilled all it holds: the request
    /// alone is within the quota, and with what the others hold it is within
    /// the headroom share of the node limit.
    pub open spec fn fits_after_spill(self, total: u64, entry: u64, quota: u64, bytes: u64) -> bool {
        Self::within_quota(quota, 0, bytes) && (Self::held_by_others(total, entry) + bytes) * 100
            <= self.node_limit * self.headroom_percent()
    }

    /// The answer to a task that holds `entry` bytes under `quota`, asks for
    /// `bytes` more, on a node that has handed out `total` bytes.
    pub open spec fn outcome(self, total: u64, entry: u64, quota: u64, bytes: u64) -> ReserveOutcome {
        if !self.enabled() || self.fits(total, entry, quota, bytes) {
            ReserveOutcome::Grant
        } else if self.fits_after_spill(total, entry, quota, bytes) {
            ReserveOutcome::SpillRequired
        } else {
            ReserveOutcome::Denied
        }
    }

    pub fn new(node_limit: u64, spill_headroom_percent: u8) -> (policy: Self)
        ensures
            policy.node_limit == node_limit,
            policy.spill_headroom_percent == spill_headroom_percent,
    {
        MemoryPolicy { node_limit, spill_headroom_percent }
    }

    /// A policy that never limits anything.
    pub fn unbounded() -> (policy: Self)
        ensures
            policy == (MemoryPolicy { node_limit: 0, spill_headroom_percent: 100 }),
            !policy.enabled(),
    {
        MemoryPolicy { node_limit: 0, spill_headroom_percent: 100 }
    }

    /// Decides one request. Nothing is recorded here.
    pub fn decide(&self, total: u64, entry: u64, quota: u64, bytes: u64) -> (answer: ReserveOutcome)
        ensures
            answer == self.outcome(total, entry, quota, bytes),
    {
        if self.node_limit == 0 {
            return ReserveOutcome::Grant;
        }
        let in_quota = quota == 0 || (bytes <= quota && entry <= quota - bytes);
        let in_node = bytes <= self.node_limit && total <= self.node_limit - bytes;
        if in_quota && in_node {
            return ReserveOutcome::Grant;
        }
        let alone_in_quota = quota == 0 || bytes <= quota;
        let others: u64 = if entry <= total {
            total - entry
        } else {
            0
        };
        let percent: u128 = if self.spill_headroom_percent > 100 {
            100
        } else {
            self.spill_headroom_percent as u128
        };
        let needed: u128 = (others as u128 + bytes as u128) * 100;
        assert(self.node_limit * percent <= u64::MAX * 100) by (nonlinear_arith)
            requires
                0 <= self.node_limit <= u64::MAX,
                0 <= percent <= 100,
        ;
        let offered: u128 = self.node_limit as u128 * percent;
        if alone_in_quota && needed <= offered {
            ReserveOutcome::SpillRequired
        } else {
            ReserveOutcome::Denied
        }
    }
}

/// What a release of `bytes` leaves of an entry of `entry` bytes: the
/// difference, or nothing where more is released than was held.
pub open spec fn after_release(entry: u64, bytes: u64) -> u64 {
    if bytes >= entry {
        0
    } else {
        (entry - bytes) as u64
    }
}

/// A granted request never takes the node over its limit.
pub proof fn lemma_grant_stays_within_limit(
    policy: MemoryPolicy,
    total: u64,
    entry: u64,
    quota: u64,
    bytes: u64,
)
    requires
        policy.enabled(),
        policy.outcome(total, entry, quota, bytes) == ReserveOutcome::Grant,
    ensures
        total + bytes <= policy.node_limit,
        quota != 0 ==> entry + bytes <= quota,
{
}

/// Spilling is never a dead end: a task that was told to spill, and then
/// releases all it holds while nothing else changes, is granted the same
/// request when it asks again.
pub proof fn lemma_spill_then_retry_is_granted(
    policy: MemoryPolicy,
    total: u64,
    entry: u64,
    quota: u64,
    bytes: u64,
)
    requires
        entry <= total,
        policy.outcome(total, entry, quota, bytes) == ReserveOutcome::SpillRequired,
    ensures
        policy.outcome((total - entry) as u64, 0, quota, bytes) == ReserveOutcome::Grant,
{
    let limit = policy.node_limit as int;
    let percent = policy.headroom_percent();
    assert(limit * percent <= limit * 100) by (nonlinear_arith)
        requires
            0 <= limit,
            0 <= percent <= 100,
    ;
}

} // verus!
