use batch_task::memory::{MemoryPolicy, ReserveOutcome};

#[test]
fn a_request_that_fits_is_granted() {
    let policy = MemoryPolicy::new(1000, 100);
    assert_eq!(policy.decide(0, 0, 0, 1000), ReserveOutcome::Grant);
    assert_eq!(policy.decide(900, 50, 100, 50), ReserveOutcome::Grant);
    assert_eq!(policy.decide(1000, 50, 100, 0), ReserveOutcome::Grant);
    assert_eq!(policy.decide(0, 0, 10, 10), ReserveOutcome::Grant);
}

#[test]
fn over_the_quota_with_headroom_means_spill() {
    let policy = MemoryPolicy::new(1000, 100);
    assert_eq!(policy.decide(60, 60, 100, 50), ReserveOutcome::SpillRequired);
    assert_eq!(policy.decide(20, 20, 100, 50), ReserveOutcome::Grant);
    assert_eq!(policy.decide(60, 60, 100, 100), ReserveOutcome::SpillRequired);
    assert_eq!(policy.decide(60, 60, 100, 101), ReserveOutcome::Denied);
}

#[test]
fn a_full_node_means_spill_or_deny() {
    let policy = MemoryPolicy::new(1000, 100);
    assert_eq!(policy.decide(1000, 300, 0, 300), ReserveOutcome::SpillRequired);
    assert_eq!(policy.decide(1000, 300, 0, 301), ReserveOutcome::Denied);
    assert_eq!(policy.decide(1000, 0, 0, 1), ReserveOutcome::Denied);
    assert_eq!(policy.decide(0, 0, 0, 1001), ReserveOutcome::Denied);
    assert_eq!(policy.decide(u64::MAX, u64::MAX, 0, u64::MAX), ReserveOutcome::Denied);
}

#[test]
fn the_headroom_share_is_exact() {
    let half = MemoryPolicy::new(1000, 50);
    assert_eq!(half.decide(1000, 600, 0, 100), ReserveOutcome::SpillRequired);
    assert_eq!(half.decide(1000, 600, 0, 101), ReserveOutcome::Denied);
    assert_eq!(half.decide(900, 0, 0, 100), ReserveOutcome::Grant);
    let odd = MemoryPolicy::new(7, 33);
    assert_eq!(odd.decide(7, 7, 0, 2), ReserveOutcome::SpillRequired);
    assert_eq!(odd.decide(7, 7, 0, 3), ReserveOutcome::Denied);
    let none = MemoryPolicy::new(1000, 0);
    assert_eq!(none.decide(1000, 1000, 0, 1), ReserveOutcome::Denied);
    let over = MemoryPolicy::new(1000, 200);
    assert_eq!(over.decide(1000, 300, 0, 300), ReserveOutcome::SpillRequired);
    assert_eq!(over.decide(1000, 300, 0, 301), ReserveOutcome::Denied);
}

#[test]
fn an_entry_above_the_total_counts_the_others_as_nothing() {
    let policy = MemoryPolicy::new(100, 100);
    assert_eq!(policy.decide(10, 50, 60, 20), ReserveOutcome::SpillRequired);
    assert_eq!(policy.decide(10, 50, 0, 100), ReserveOutcome::SpillRequired);
    assert_eq!(policy.decide(10, 50, 0, 101), ReserveOutcome::Denied);
}

#[test]
fn a_limit_of_zero_grants_everything() {
    let off = MemoryPolicy::unbounded();
    assert_eq!(off, MemoryPolicy { node_limit: 0, spill_headroom_percent: 100 });
    assert_eq!(off.decide(u64::MAX, u64::MAX, 1, u64::MAX), ReserveOutcome::Grant);
    assert_eq!(MemoryPolicy::new(0, 0).decide(5, 5, 1, 7), ReserveOutcome::Grant);
}

#[test]
fn spilling_everything_makes_the_retry_succeed() {
    let policy = MemoryPolicy::new(1000, 60);
    for (total, entry, quota, bytes) in
        [(1000u64, 500u64, 0u64, 100u64), (700, 700, 800, 600), (1000, 500, 0, 1), (60, 60, 100, 50)]
    {
        assert_eq!(policy.decide(total, entry, quota, bytes), ReserveOutcome::SpillRequired);
        assert_eq!(policy.decide(total - entry, 0, quota, bytes), ReserveOutcome::Grant);
    }
}
