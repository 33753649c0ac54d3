//! The pool of connections to peer nodes.
//!
//! The pool decides; it does not connect. `get_or_connect` answers with a
//! connection that is ready, with the order to set one up, or with the
//! advice to wait for a setup that another caller has under way. The caller
//! that was told to connect does so and reports back with `connected` or
//! `connect_failed`, which says how long to wait before the next attempt or
//! that the peer is given up. For one address the pool never orders a second
//! setup while the first is under way or its connection is healthy.

use vstd::prelude::*;
use vstd::arithmetic::power2::{
    lemma2_to64, lemma_pow2_pos, lemma_pow2_strictly_increases, lemma_pow2_unfold, pow2,
};
use crate::addr::{HostAddr, HostAddrView};
use crate::config::BatchConfig;
use crate::error::BatchError;

verus! {

/// A connection to a peer, named by the number under which its owner keeps
/// it. Handles are plain values: many callers hold the same one.
#[derive(Clone, Copy, Debug, PartialEq, Eq, Structural)]
pub struct ConnectionHandle {
    pub connection: u64,
}

/// What the pool knows of its connection to one peer.
#[derive(Clone, Copy, Debug, PartialEq, Eq, Structural)]
pub enum Link {
    /// A caller is setting the connection up; so many attempts have failed.
    Connecting { failures: u32 },
    /// The connection stands and is shared.
    Healthy { handle: ConnectionHandle },
    /// The connection was invalidated, or its setup was given up.
    Unhealthy,
}

/// One entry of the pool.
#[derive(Debug, PartialEq, Eq)]
pub struct PoolEntry {
    pub addr: HostAddr,
    pub link: Link,
}

/// The answer of `get_or_connect`.
#[derive(Clone, Copy, Debug, PartialEq, Eq, Structural)]
pub enum Acquire {
    /// A healthy connection stands: use it.
    Ready(ConnectionHandle),
    /// Set the connection up, and report how it went.
    Connect,
    /// Another caller is setting the connection up: wait, and ask again.
    Wait,
}

/// How failed connection attempts are retried.
#[derive(Clone, Copy, Debug, PartialEq, Eq, Structural)]
pub struct RetryPolicy {
    /// How often a failed attempt is tried again.
    pub max_retries: u32,
    /// The wait before the first retry, in milliseconds.
    pub backoff_base_ms: u64,
    /// The longest wait, in milliseconds.
    pub backoff_cap_ms: u64,
}

/// The wait after the given number of failed attempts: the base after the
/// first, twice as long after each further one, and never more than the cap.
pub open spec fn backoff(base: u64, cap: u64, failures: u32) -> u64 {
    if failures == 0 {
        0
    } else if base * pow2((failures - 1) as nat) >= cap {
        cap
    } else {
        (base * pow2((failures - 1) as nat)) as u64
    }
}

/// Computes `backoff`.
pub fn backoff_delay_ms(base: u64, cap: u64, failures: u32) -> (delay: u64)
    ensures
        delay == backoff(base, cap, failures),
        delay <= cap,
{
    if failures == 0 {
        return 0;
    }
    proof {
        lemma_pow2_pos((failures - 1) as nat);
        assert(base * pow2((failures - 1) as nat) >= base) by (nonlinear_arith)
            requires
                pow2((failures - 1) as nat) >= 1,
                base >= 0,
        ;
    }
    if base == 0 {
        proof {
            assert(base * pow2((failures - 1) as nat) == 0) by (nonlinear_arith)
                requires
                    base == 0,
            ;
        }
        return 0;
    }
    if base >= cap {
        return cap;
    }
    let mut delay: u64 = base;
    let mut k: u32 = 1;
    proof {
        assert(pow2(0) == 1) by {
            lemma2_to64();
        }
        assert(base * pow2(0) == base) by (nonlinear_arith)
            requires
                pow2(0) == 1,
        ;
    }
    while k < failures && delay < cap
        invariant
            1 <= k <= failures,
            0 < base < cap,
            delay <= cap,
            delay < cap ==> delay == base * pow2((k - 1) as nat),
            delay == cap ==> base * pow2((k - 1) as nat) >= cap,
        decreases failures - k,
    {
        proof {
            lemma_pow2_unfold(k as nat);
            assert(base * pow2(k as nat) == 2 * (base * pow2((k - 1) as nat))) by (nonlinear_arith)
                requires
                    pow2(k as nat) == 2 * pow2((k - 1) as nat),
            ;
        }
        delay = if delay >= cap - delay {
            cap
        } else {
            delay + delay
        };
        k += 1;
    }
    proof {
        if k < failures {
            lemma_pow2_strictly_increases((k - 1) as nat, (failures - 1) as nat);
            assert(base * pow2((k - 1) as nat) <= base * pow2((failures - 1) as nat))
                by (nonlinear_arith)
                requires
                    pow2((k - 1) as nat) < pow2((failures - 1) as nat),
                    base > 0,
            ;
        }
    }
    delay
}

/// Some entry is for the address `addr`.
pub open spec fn has_peer(entries: Seq<PoolEntry>, addr: HostAddrView) -> bool {
    exists|i: int| 0 <= i < entries.len() && (#[trigger] entries[i]).addr@ == addr
}

/// The position of the entry for `addr`, where there is one.
pub open spec fn peer_slot(entries: Seq<PoolEntry>, addr: HostAddrView) -> int {
    choose|i: int| 0 <= i < entries.len() && (#[trigger] entries[i]).addr@ == addr
}

/// No two entries are for the same address.
pub open spec fn distinct_peers(entries: Seq<PoolEntry>) -> bool {
    forall|i: int, j: int|
        0 <= i < j < entries.len() ==> (#[trigger] entries[i]).addr@ != (#[trigger] entries[j]).addr@
}

/// The number of entries whose connection stands.
pub open spec fn healthy_count(entries: Seq<PoolEntry>) -> nat
    decreases entries.len(),
{
    if entries.len() == 0 {
        0
    } else {
        healthy_count(entries.drop_last()) + if entries.last().link is Healthy {
            1nat
        } else {
            0nat
        }
    }
}

/// One more, but never past the largest number.
pub open spec fn bumped(n: u64) -> u64 {
    if n == u64::MAX {
        n
    } else {
        (n + 1) as u64
    }
}

/// The pool as a mathematical value.
#[verifier::ext_equal]
pub struct PoolState {
    /// One entry for each peer that was ever asked for.
    pub entries: Seq<PoolEntry>,
    /// How many setups were ordered so far.
    pub setups: u64,
    pub retry: RetryPolicy,
}

impl PoolState {
    pub open spec fn empty(retry: RetryPolicy) -> PoolState {
        PoolState { entries: Seq::empty(), setups: 0, retry }
    }

    /// At most one entry, and so at most one connection, for each address.
    pub open spec fn wf(self) -> bool {
        distinct_peers(self.entries)
    }

    /// What the pool knows of its connection to `addr`.
    pub open spec fn link(self, addr: HostAddrView) -> Option<Link> {
        if has_peer(self.entries, addr) {
            Some(self.entries[peer_slot(self.entries, addr)].link)
        } else {
            None
        }
    }

    /// A setup is due for `addr`: none is under way and no connection stands.
    pub open spec fn needs_setup(self, addr: HostAddrView) -> bool {
        self.link(addr) is None || self.link(addr) == Some(Link::Unhealthy)
    }

    /// The pool with the link of the entry at `i` replaced.
    pub open spec fn with_link(self, i: int, link: Link) -> PoolState {
        PoolState {
            entries: self.entries.update(i, PoolEntry { addr: self.entries[i].addr, link }),
            ..self
        }
    }

    /// What `get_or_connect` answers for `addr`.
    pub open spec fn answer(self, addr: HostAddrView) -> Acquire {
        match self.link(addr) {
            Some(Link::Healthy { handle }) => Acquire::Ready(handle),
            Some(Link::Connecting { .. }) => Acquire::Wait,
            _ => Acquire::Connect,
        }
    }

    /// The pool after `get_or_connect`: where a setup is due it is now under
    /// way and counted; otherwise nothing changes.
    pub open spec fn get_or_connect(self, addr: HostAddr) -> PoolState {
        if !has_peer(self.entries, addr@) {
            PoolState {
                entries: self.entries.push(
                    PoolEntry { addr, link: Link::Connecting { failures: 0 } },
                ),
                setups: bumped(self.setups),
                ..self
            }
        } else if self.link(addr@) == Some(Link::Unhealthy) {
            PoolState {
                setups: bumped(self.setups),
                ..self.with_link(
                    peer_slot(self.entries, addr@),
                    Link::Connecting { failures: 0 },
                )
            }
        } else {
            self
        }
    }

    /// The pool after `connected`: the setup under way for `addr` ends in a
    /// healthy connection; without such a setup nothing changes.
    pub open spec fn connected(self, addr: HostAddrView, handle: ConnectionHandle) -> PoolState {
        if self.link(addr) matches Some(Link::Connecting { .. }) {
            self.with_link(peer_slot(self.entries, addr), Link::Healthy { handle })
        } else {
            self
        }
    }

    /// What `connect_failed` answers: the wait before the next attempt while
    /// retries are left, `ConnectFailed` when they are used up, and
    /// `NotFound` where no setup is under way for `addr`.
    pub open spec fn failure_answer(self, addr: HostAddrView) -> Result<u64, BatchError> {
        match self.link(addr) {
            Some(Link::Connecting { failures }) => if failures < self.retry.max_retries {
                Ok(
                    backoff(
                        self.retry.backoff_base_ms,
                        self.retry.backoff_cap_ms,
                        (failures + 1) as u32,
                    ),
                )
            } else {
                Err(BatchError::ConnectFailed)
            },
            _ => Err(BatchError::NotFound),
        }
    }

    /// The pool after `connect_failed`: the failure is counted while retries
    /// are left, and the peer is marked unhealthy when they are used up.
    pub open spec fn connect_failed(self, addr: HostAddrView) -> PoolState {
        match self.link(addr) {
            Some(Link::Connecting { failures }) => self.with_link(
                peer_slot(self.entries, addr),
                if failures < self.retry.max_retries {
                    Link::Connecting { failures: (failures + 1) as u32 }
                } else {
                    Link::Unhealthy
                },
            ),
            _ => self,
        }
    }

    /// The pool after `invalidate`: a healthy connection becomes unhealthy;
    /// nothing else changes.
    pub open spec fn invalidate(self, addr: HostAddrView) -> PoolState {
        if self.link(addr) matches Some(Link::Healthy { .. }) {
            self.with_link(peer_slot(self.entries, addr), Link::Unhealthy)
        } else {
            self
        }
    }
}

/// With one entry for each address, the entry at position `i` is the one
/// that `peer_slot` finds for its address.
pub proof fn lemma_peer_slot_is(entries: Seq<PoolEntry>, i: int)
    requires
        distinct_peers(entries),
        0 <= i < entries.len(),
    ensures
        has_peer(entries, entries[i].addr@),
        peer_slot(entries, entries[i].addr@) == i,
{
    let j = peer_slot(entries, entries[i].addr@);
    assert(0 <= j < entries.len() && entries[j].addr@ == entries[i].addr@);
    if j < i {
        assert(entries[j].addr@ != entries[i].addr@);
    } else if i < j {
        assert(entries[i].addr@ != entries[j].addr@);
    }
}

/// `after` has the retry policy of `p` and shows every peer but `addr` as
/// `p` does.
pub open spec fn touches_only_peer(p: PoolState, after: PoolState, addr: HostAddrView) -> bool {
    &&& after.retry == p.retry
    &&& forall|other: HostAddrView| other != addr ==> #[trigger] after.link(other) == p.link(other)
}

/// Replacing the link of the entry for `addr` keeps the pool well formed and
/// touches no other peer.
pub proof fn lemma_with_link(p: PoolState, addr: HostAddrView, link: Link)
    requires
        p.wf(),
        has_peer(p.entries, addr),
    ensures
        p.with_link(peer_slot(p.entries, addr), link).wf(),
        p.with_link(peer_slot(p.entries, addr), link).link(addr) == Some(link),
        p.with_link(peer_slot(p.entries, addr), link).setups == p.setups,
        touches_only_peer(p, p.with_link(peer_slot(p.entries, addr), link), addr),
{
    let i = peer_slot(p.entries, addr);
    let after = p.with_link(i, link);
    assert forall|j: int| 0 <= j < after.entries.len() implies (#[trigger] after.entries[j]).addr
        == p.entries[j].addr by {}
    assert forall|a: int, b: int| 0 <= a < b < after.entries.len() implies (
    #[trigger] after.entries[a]).addr@ != (#[trigger] after.entries[b]).addr@ by {
        assert(p.entries[a].addr@ != p.entries[b].addr@);
    }
    assert(after.entries[i].addr@ == addr);
    lemma_peer_slot_is(after.entries, i);
    assert forall|other: HostAddrView| other != addr implies #[trigger] after.link(other)
        == p.link(other) by {
        if has_peer(p.entries, other) {
            let j = peer_slot(p.entries, other);
            assert(after.entries[j] == p.entries[j]);
            lemma_peer_slot_is(after.entries, j);
        } else if has_peer(after.entries, other) {
            let j = peer_slot(after.entries, other);
            assert(p.entries[j].addr@ == other);
        }
    }
}

/// `get_or_connect` puts a setup under way where one is due, changes nothing
/// otherwise, and touches no other peer. Afterwards no setup is due.
pub proof fn lemma_get_or_connect_effect(p: PoolState, addr: HostAddr)
    requires
        p.wf(),
    ensures
        p.get_or_connect(addr).wf(),
        touches_only_peer(p, p.get_or_connect(addr), addr@),
        p.needs_setup(addr@) <==> p.answer(addr@) == Acquire::Connect,
        p.needs_setup(addr@) ==> p.get_or_connect(addr).link(addr@) == Some(
            Link::Connecting { failures: 0 },
        ) && p.get_or_connect(addr).setups == bumped(p.setups),
        !p.needs_setup(addr@) ==> p.get_or_connect(addr) == p,
        !p.get_or_connect(addr).needs_setup(addr@),
{
    let after = p.get_or_connect(addr);
    if !has_peer(p.entries, addr@) {
        let n = p.entries.len() as int;
        assert forall|a: int, b: int| 0 <= a < b < after.entries.len() implies (
        #[trigger] after.entries[a]).addr@ != (#[trigger] after.entries[b]).addr@ by {
            assert(after.entries[a] == p.entries[a]);
            if b < n {
                assert(after.entries[b] == p.entries[b]);
            }
        }
        assert(after.entries[n].addr@ == addr@);
        lemma_peer_slot_is(after.entries, n);
        assert forall|other: HostAddrView| other != addr@ implies #[trigger] after.link(other)
            == p.link(other) by {
            if has_peer(p.entries, other) {
                let j = peer_slot(p.entries, other);
                assert(after.entries[j] == p.entries[j]);
                lemma_peer_slot_is(after.entries, j);
            } else if has_peer(after.entries, other) {
                let j = peer_slot(after.entries, other);
                if j < n {
                    assert(after.entries[j] == p.entries[j]);
                }
            }
        }
    } else if p.link(addr@) == Some(Link::Unhealthy) {
        lemma_with_link(p, addr@, Link::Connecting { failures: 0 });
        let changed = p.with_link(peer_slot(p.entries, addr@), Link::Connecting { failures: 0 });
        assert(after.entries == changed.entries);
        assert(after.link(addr@) == changed.link(addr@));
        assert forall|other: HostAddrView| other != addr@ implies #[trigger] after.link(other)
            == p.link(other) by {
            assert(after.link(other) == changed.link(other));
        }
    }
}

/// `connected` ends the setup under way in a healthy connection, changes
/// nothing where none is under way, and touches no other peer.
pub proof fn lemma_connected_effect(p: PoolState, addr: HostAddrView, handle: ConnectionHandle)
    requires
        p.wf(),
    ensures
        p.connected(addr, handle).wf(),
        touches_only_peer(p, p.connected(addr, handle), addr),
        p.connected(addr, handle).setups == p.setups,
        p.link(addr) matches Some(Link::Connecting { .. }) ==> p.connected(addr, handle).link(
            addr,
        ) == Some(Link::Healthy { handle }),
        !(p.link(addr) matches Some(Link::Connecting { .. })) ==> p.connected(addr, handle) == p,
{
    if p.link(addr) matches Some(Link::Connecting { .. }) {
        lemma_with_link(p, addr, Link::Healthy { handle });
    }
}

/// `connect_failed` counts the failure or gives the peer up, changes nothing
/// where no setup is under way, and touches no other peer.
pub proof fn lemma_connect_failed_effect(p: PoolState, addr: HostAddrView)
    requires
        p.wf(),
    ensures
        p.connect_failed(addr).wf(),
        touches_only_peer(p, p.connect_failed(addr), addr),
        p.connect_failed(addr).setups == p.setups,
        p.connect_failed(addr).link(addr) == match p.link(addr) {
            Some(Link::Connecting { failures }) => Some(
                if failures < p.retry.max_retries {
                    Link::Connecting { failures: (failures + 1) as u32 }
                } else {
                    Link::Unhealthy
                },
            ),
            other => other,
        },
{
    match p.link(addr) {
        Some(Link::Connecting { failures }) => {
            lemma_with_link(
                p,
                addr,
                if failures < p.retry.max_retries {
                    Link::Connecting { failures: (failures + 1) as u32 }
                } else {
                    Link::Unhealthy
                },
            );
        },
        _ => {},
    }
}

/// `invalidate` marks a healthy connection unhealthy, changes nothing
/// otherwise, and touches no other peer.
pub proof fn lemma_invalidate_effect(p: PoolState, addr: HostAddrView)
    requires
        p.wf(),
    ensures
        p.invalidate(addr).wf(),
        touches_only_peer(p, p.invalidate(addr), addr),
        p.invalidate(addr).setups == p.setups,
        p.invalidate(addr).link(addr) == match p.link(addr) {
            Some(Link::Healthy { .. }) => Some(Link::Unhealthy),
            other => other,
        },
{
    if p.link(addr) matches Some(Link::Healthy { .. }) {
        lemma_with_link(p, addr, Link::Unhealthy);
    }
}

/// The pool of connections to peer nodes.
pub struct ClientPool {
    entries: Vec<PoolEntry>,
    setups: u64,
    retry: RetryPolicy,
}

impl View for ClientPool {
    type V = PoolState;

    closed spec fn view(&self) -> PoolState {
        PoolState { entries: self.entries@, setups: self.setups, retry: self.retry }
    }
}

impl Clone for PoolEntry {
    fn clone(&self) -> (copy: Self)
        ensures
            copy == *self,
    {
        PoolEntry { addr: self.addr.clone(), link: self.link }
    }
}

impl Clone for ClientPool {
    fn clone(&self) -> (copy: Self)
        ensures
            copy@ == self@,
    {
        let entries = self.entries.clone();
        assert(entries@ =~= self.entries@);
        ClientPool { entries, setups: self.setups, retry: self.retry }
    }
}

impl ClientPool {
    pub open spec fn wf(&self) -> bool {
        self@.wf()
    }

    /// A pool without connections that retries as `config` says.
    pub fn new(config: &BatchConfig) -> (pool: Self)
        ensures
            pool.wf(),
            pool@ == PoolState::empty(
                RetryPolicy {
                    max_retries: config.connect_max_retries,
                    backoff_base_ms: config.connect_backoff_base_ms,
                    backoff_cap_ms: config.connect_backoff_cap_ms,
                },
            ),
    {
        ClientPool {
            entries: Vec::new(),
            setups: 0,
            retry: RetryPolicy {
                max_retries: config.connect_max_retries,
                backoff_base_ms: config.connect_backoff_base_ms,
                backoff_cap_ms: config.connect_backoff_cap_ms,
            },
        }
    }

    /// The position of the entry for `addr`.
    fn find(&self, addr: &HostAddr) -> (found: Option<usize>)
        requires
            self.wf(),
        ensures
            found is Some <==> has_peer(self@.entries, addr@),
            found matches Some(i) ==> i < self.entries.len() && self.entries@[i as int].addr@
                == addr@ && peer_slot(self@.entries, addr@) == i,
    {
        let mut i: usize = 0;
        while i < self.entries.len()
            invariant
                self.wf(),
                i <= self.entries.len(),
                forall|j: int| 0 <= j < i ==> (#[trigger] self.entries@[j]).addr@ != addr@,
            decreases self.entries.len() - i,
        {
            if self.entries[i].addr.same_as(addr) {
                proof {
                    lemma_peer_slot_is(self.entries@, i as int);
                }
                return Some(i);
            }
            i += 1;
        }
        None
    }

    /// Puts `link` in the place of the link of the entry at `i`.
    fn replace_link(&mut self, i: usize, link: Link)
        requires
            i < old(self)@.entries.len(),
        ensures
            final(self)@ == old(self)@.with_link(i as int, link),
    {
        let addr = self.entries[i].addr.clone();
        self.entries.set(i, PoolEntry { addr, link });
    }

    /// Asks for the connection to `addr`.
    ///
    /// A healthy connection is handed out as it is (`Ready`). Where a setup
    /// is under way the caller is told to wait (`Wait`). Where neither holds
    /// the caller is told to connect (`Connect`), and the setup is from now
    /// on under way and counted: no other caller is told to connect to `addr`
    /// until this setup has been given up or its connection invalidated.
    pub fn get_or_connect(&mut self, addr: &HostAddr) -> (answer: Acquire)
        requires
            old(self).wf(),
        ensures
            final(self).wf(),
            answer == old(self)@.answer(addr@),
            final(self)@ == old(self)@.get_or_connect(*addr),
    {
        proof {
            lemma_get_or_connect_effect(self@, *addr);
        }
        let setups = if self.setups == u64::MAX {
            self.setups
        } else {
            self.setups + 1
        };
        match self.find(addr) {
            Some(i) => {
                match self.entries[i].link {
                    Link::Healthy { handle } => Acquire::Ready(handle),
                    Link::Connecting { .. } => Acquire::Wait,
                    Link::Unhealthy => {
                        self.replace_link(i, Link::Connecting { failures: 0 });
                        self.setups = setups;
                        Acquire::Connect
                    },
                }
            },
            None => {
                self.entries.push(
                    PoolEntry { addr: addr.clone(), link: Link::Connecting { failures: 0 } },
                );
                self.setups = setups;
                Acquire::Connect
            },
        }
    }

    /// Reports that the setup for `addr` ended in the connection `handle`.
    /// The connection is healthy from now on and the answer is `Ok` with the
    /// handle; where no setup was under way for `addr` the pool is left as it
    /// was and the answer is `NotFound`.
    pub fn connected(&mut self, addr: &HostAddr, handle: ConnectionHandle) -> (outcome: Result<
        ConnectionHandle,
        BatchError,
    >)
        requires
            old(self).wf(),
        ensures
            final(self).wf(),
            final(self)@ == old(self)@.connected(addr@, handle),
            outcome == if old(self)@.link(addr@) matches Some(Link::Connecting { .. }) {
                Ok::<ConnectionHandle, BatchError>(handle)
            } else {
                Err(BatchError::NotFound)
            },
    {
        proof {
            lemma_connected_effect(self@, addr@, handle);
        }
        match self.find(addr) {
            Some(i) => {
                match self.entries[i].link {
                    Link::Connecting { .. } => {
                        self.replace_link(i, Link::Healthy { handle });
                        Ok(handle)
                    },
                    _ => Err(BatchError::NotFound),
                }
            },
            None => Err(BatchError::NotFound),
        }
    }

    /// Reports that an attempt to connect to `addr` failed.
    ///
    /// While retries are left the failure is counted and the answer is the
    /// wait in milliseconds before the next attempt. When they are used up
    /// the peer is marked unhealthy and the answer is `ConnectFailed`. Where
    /// no setup was under way for `addr` the pool is left as it was and the
    /// answer is `NotFound`.
    pub fn connect_failed(&mut self, addr: &HostAddr) -> (outcome: Result<u64, BatchError>)
        requires
            old(self).wf(),
        ensures
            final(self).wf(),
            final(self)@ == old(self)@.connect_failed(addr@),
            outcome == old(self)@.failure_answer(addr@),
    {
        proof {
            lemma_connect_failed_effect(self@, addr@);
        }
        match self.find(addr) {
            Some(i) => {
                match self.entries[i].link {
                    Link::Connecting { failures } => {
                        if failures < self.retry.max_retries {
                            self.replace_link(i, Link::Connecting { failures: failures + 1 });
                            Ok(
                                backoff_delay_ms(
                                    self.retry.backoff_base_ms,
                                    self.retry.backoff_cap_ms,
                                    failures + 1,
                                ),
                            )
                        } else {
                            self.replace_link(i, Link::Unhealthy);
                            Err(BatchError::ConnectFailed)
                        }
                    },
                    _ => Err(BatchError::NotFound),
                }
            },
            None => Err(BatchError::NotFound),
        }
    }

    /// Marks the connection to `addr` unhealthy, so that the next caller is
    /// told to connect anew. Without a healthy connection nothing changes.
    pub fn invalidate(&mut self, addr: &HostAddr)
        requires
            old(self).wf(),
        ensures
            final(self).wf(),
            final(self)@ == old(self)@.invalidate(addr@),
    {
        proof {
            lemma_invalidate_effect(self@, addr@);
        }
        match self.find(addr) {
            Some(i) => {
                match self.entries[i].link {
                    Link::Healthy { .. } => {
                        self.replace_link(i, Link::Unhealthy);
                    },
                    _ => {},
                }
            },
            None => {},
        }
    }

    /// What the pool knows of its connection to `addr`; nothing changes.
    pub fn link_of(&self, addr: &HostAddr) -> (link: Option<Link>)
        requires
            self.wf(),
        ensures
            link == self@.link(addr@),
    {
        match self.find(addr) {
            Some(i) => Some(self.entries[i].link),
            None => None,
        }
    }

    /// How many setups the pool has ordered so far.
    pub fn setups_begun(&self) -> (n: u64)
        ensures
            n == self@.setups,
    {
        self.setups
    }

    /// How many connections stand.
    pub fn connection_count(&self) -> (n: usize)
        ensures
            n == healthy_count(self@.entries),
    {
        let mut n: usize = 0;
        let mut i: usize = 0;
        while i < self.entries.len()
            invariant
                i <= self.entries.len(),
                n <= i,
                n == healthy_count(self.entries@.take(i as int)),
            decreases self.entries.len() - i,
        {
            proof {
                let next = self.entries@.take(i + 1);
                assert(next.drop_last() =~= self.entries@.take(i as int));
                assert(next.last() == self.entries@[i as int]);
            }
            match self.entries[i].link {
                Link::Healthy { .. } => {
                    n += 1;
                },
                _ => {},
            }
            i += 1;
        }
        proof {
            assert(self.entries@.take(i as int) =~= self.entries@);
        }
        n
    }
}

} // verus!
