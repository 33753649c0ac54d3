//! What holds of the connection pool over every sequence of operations.
//!
//! The operations of `ClientPool` are collected in `PoolOp`, and `pool_run`
//! applies a sequence of them to a pool, one after the other. Callers that
//! share a pool between threads apply the operations under a lock, so every
//! interleaving of their calls is one such sequence.

use vstd::prelude::*;
use crate::addr::{HostAddr, HostAddrView};
use crate::pool::{
    bumped, lemma_connect_failed_effect, lemma_connected_effect, lemma_get_or_connect_effect,
    lemma_invalidate_effect, touches_only_peer, Acquire, ConnectionHandle, Link, PoolState,
};

verus! {

/// One call of an operation of the pool, with its arguments.
pub enum PoolOp {
    GetOrConnect(HostAddr),
    Connected(HostAddr, ConnectionHandle),
    ConnectFailed(HostAddr),
    Invalidate(HostAddr),
}

impl PoolOp {
    /// The peer that the operation is about.
    pub open spec fn peer(self) -> HostAddrView {
        match self {
            PoolOp::GetOrConnect(addr) => addr@,
            PoolOp::Connected(addr, _) => addr@,
            PoolOp::ConnectFailed(addr) => addr@,
            PoolOp::Invalidate(addr) => addr@,
        }
    }

    /// The operation can end a setup or a connection: it reports a failed
    /// attempt or invalidates.
    pub open spec fn upsets(self, addr: HostAddrView) -> bool {
        self.peer() == addr && (self is ConnectFailed || self is Invalidate)
    }
}

/// The pool after one operation.
pub open spec fn pool_step(p: PoolState, op: PoolOp) -> PoolState {
    match op {
        PoolOp::GetOrConnect(addr) => p.get_or_connect(addr),
        PoolOp::Connected(addr, handle) => p.connected(addr@, handle),
        PoolOp::ConnectFailed(addr) => p.connect_failed(addr@),
        PoolOp::Invalidate(addr) => p.invalidate(addr@),
    }
}

/// The pool after the operations `ops`, applied first to last.
pub open spec fn pool_run(p: PoolState, ops: Seq<PoolOp>) -> PoolState
    decreases ops.len(),
{
    if ops.len() == 0 {
        p
    } else {
        pool_step(pool_run(p, ops.drop_last()), ops.last())
    }
}

/// The operation `op`, applied to `p`, is a `get_or_connect` for `addr` that
/// is answered with the order to connect.
pub open spec fn orders_setup(p: PoolState, op: PoolOp, addr: HostAddrView) -> bool {
    op is GetOrConnect && op.peer() == addr && p.answer(addr) == Acquire::Connect
}

/// How many setups for `addr` are ordered in the course of `ops`.
pub open spec fn setups_ordered(p: PoolState, ops: Seq<PoolOp>, addr: HostAddrView) -> nat
    decreases ops.len(),
{
    if ops.len() == 0 {
        0
    } else {
        setups_ordered(p, ops.drop_last(), addr) + if orders_setup(
            pool_run(p, ops.drop_last()),
            ops.last(),
            addr,
        ) {
            1nat
        } else {
            0nat
        }
    }
}

/// How many operations in `ops` report a failed attempt for `addr` or
/// invalidate its connection.
pub open spec fn upsets_in(ops: Seq<PoolOp>, addr: HostAddrView) -> nat
    decreases ops.len(),
{
    if ops.len() == 0 {
        0
    } else {
        upsets_in(ops.drop_last(), addr) + if ops.last().upsets(addr) {
            1nat
        } else {
            0nat
        }
    }
}

/// Every operation keeps the pool well formed and touches no peer but its
/// own. A setup becomes due for a peer only by an operation that upsets it.
pub proof fn lemma_pool_step(p: PoolState, op: PoolOp)
    requires
        p.wf(),
    ensures
        pool_step(p, op).wf(),
        touches_only_peer(p, pool_step(p, op), op.peer()),
        pool_step(p, op).needs_setup(op.peer()) && !p.needs_setup(op.peer()) ==> op.upsets(
            op.peer(),
        ),
        orders_setup(p, op, op.peer()) <==> op is GetOrConnect && p.needs_setup(op.peer()),
        orders_setup(p, op, op.peer()) ==> !pool_step(p, op).needs_setup(op.peer()) && pool_step(
            p,
            op,
        ).setups == bumped(p.setups),
        !orders_setup(p, op, op.peer()) ==> pool_step(p, op).setups == p.setups,
{
    match op {
        PoolOp::GetOrConnect(addr) => {
            lemma_get_or_connect_effect(p, addr);
        },
        PoolOp::Connected(addr, handle) => {
            lemma_connected_effect(p, addr@, handle);
        },
        PoolOp::ConnectFailed(addr) => {
            lemma_connect_failed_effect(p, addr@);
        },
        PoolOp::Invalidate(addr) => {
            lemma_invalidate_effect(p, addr@);
        },
    }
}

/// Every sequence of operations keeps the pool well formed: there is never
/// more than one entry, and so never more than one live connection, for an
/// address.
pub proof fn lemma_pool_run_wf(p: PoolState, ops: Seq<PoolOp>)
    requires
        p.wf(),
    ensures
        pool_run(p, ops).wf(),
        pool_run(p, ops).retry == p.retry,
    decreases ops.len(),
{
    if ops.len() > 0 {
        lemma_pool_run_wf(p, ops.drop_last());
        lemma_pool_step(pool_run(p, ops.drop_last()), ops.last());
    }
}

/// For one address the pool orders a new setup only after the last one was
/// upset: over any sequence of operations, the setups ordered for `addr`,
/// and one more where a setup is due at the end, are at most one more than
/// the failure reports and invalidations for `addr`. Where no setup was due
/// at the start, they are at most as many.
pub proof fn lemma_setups_are_bounded(p: PoolState, ops: Seq<PoolOp>, addr: HostAddrView)
    requires
        p.wf(),
    ensures
        setups_ordered(p, ops, addr) + (if pool_run(p, ops).needs_setup(addr) {
            1nat
        } else {
            0nat
        }) <= upsets_in(ops, addr) + (if p.needs_setup(addr) {
            1nat
        } else {
            0nat
        }),
    decreases ops.len(),
{
    if ops.len() > 0 {
        let before = pool_run(p, ops.drop_last());
        lemma_setups_are_bounded(p, ops.drop_last(), addr);
        lemma_pool_run_wf(p, ops.drop_last());
        lemma_pool_step(before, ops.last());
        let after = pool_step(before, ops.last());
        if ops.last().peer() != addr {
            assert(after.link(addr) == before.link(addr));
        }
    }
}

/// However many callers ask for the connection to one address, at most one
/// of them is told to connect, as long as no failure is reported for the
/// address and its connection is not invalidated; and none is, where a setup
/// was under way or a connection stood to begin with.
pub proof fn lemma_at_most_one_setup(p: PoolState, ops: Seq<PoolOp>, addr: HostAddrView)
    requires
        p.wf(),
        forall|i: int| 0 <= i < ops.len() ==> !(#[trigger] ops[i]).upsets(addr),
    ensures
        setups_ordered(p, ops, addr) <= 1,
        !p.needs_setup(addr) ==> setups_ordered(p, ops, addr) == 0,
        setups_ordered(p, ops, addr) == 1 ==> !pool_run(p, ops).needs_setup(addr),
{
    lemma_setups_are_bounded(p, ops, addr);
    lemma_no_upsets(ops, addr);
}

/// A sequence without an upsetting operation counts none.
proof fn lemma_no_upsets(ops: Seq<PoolOp>, addr: HostAddrView)
    requires
        forall|i: int| 0 <= i < ops.len() ==> !(#[trigger] ops[i]).upsets(addr),
    ensures
        upsets_in(ops, addr) == 0,
    decreases ops.len(),
{
    if ops.len() > 0 {
        assert forall|i: int| 0 <= i < ops.drop_last().len() implies !(
        #[trigger] ops.drop_last()[i]).upsets(addr) by {
            assert(ops.drop_last()[i] == ops[i]);
        }
        lemma_no_upsets(ops.drop_last(), addr);
        assert(ops.last() == ops[ops.len() - 1]);
    }
}

/// The calls of `callers` callers that all ask for the connection to `addr`.
pub open spec fn same_request(addr: HostAddr, callers: nat) -> Seq<PoolOp> {
    Seq::new(callers, |i: int| PoolOp::GetOrConnect(addr))
}

/// Where any number of callers ask for the connection to an address that the
/// pool has no connection to, exactly one setup is ordered, by the answer to
/// the first of them, and the pool's counter of setups goes up by one.
pub proof fn lemma_many_callers_one_setup(p: PoolState, addr: HostAddr, callers: nat)
    requires
        p.wf(),
        callers > 0,
    ensures
        setups_ordered(p, same_request(addr, callers), addr@) == if p.needs_setup(addr@) {
            1nat
        } else {
            0nat
        },
        pool_run(p, same_request(addr, callers)).setups == if p.needs_setup(addr@) {
            bumped(p.setups)
        } else {
            p.setups
        },
        !pool_run(p, same_request(addr, callers)).needs_setup(addr@),
    decreases callers,
{
    let ops = same_request(addr, callers);
    let earlier = same_request(addr, (callers - 1) as nat);
    assert(ops.drop_last() =~= earlier);
    assert(ops.last() == PoolOp::GetOrConnect(addr));
    lemma_pool_run_wf(p, earlier);
    let before = pool_run(p, earlier);
    lemma_pool_step(before, ops.last());
    if callers > 1 {
        lemma_many_callers_one_setup(p, addr, (callers - 1) as nat);
    } else {
        assert(earlier.len() == 0);
        assert(before == p);
        assert(setups_ordered(p, earlier, addr@) == 0);
    }
    assert(ops.drop_last() == earlier);
}

/// Once a setup has ended in a connection, every caller is handed that
/// connection, without any setup, until it is invalidated.
pub proof fn lemma_connection_is_shared(
    p: PoolState,
    addr: HostAddr,
    handle: ConnectionHandle,
    callers: nat,
)
    requires
        p.wf(),
        p.link(addr@) == Some(Link::Healthy { handle }),
    ensures
        pool_run(p, same_request(addr, callers)) == p,
        p.answer(addr@) == Acquire::Ready(handle),
    decreases callers,
{
    let ops = same_request(addr, callers);
    if callers > 0 {
        let earlier = same_request(addr, (callers - 1) as nat);
        assert(ops.drop_last() =~= earlier);
        assert(ops.last() == PoolOp::GetOrConnect(addr));
        lemma_connection_is_shared(p, addr, handle, (callers - 1) as nat);
    }
}

/// Invalidation is followed by a reconnect: once a healthy connection has
/// been invalidated, the next caller is told to connect, and the callers
/// after it to wait.
pub proof fn lemma_invalidate_then_reconnect(p: PoolState, addr: HostAddr)
    requires
        p.wf(),
        p.link(addr@) matches Some(Link::Healthy { .. }),
    ensures
        p.invalidate(addr@).answer(addr@) == Acquire::Connect,
        p.invalidate(addr@).get_or_connect(addr).answer(addr@) == Acquire::Wait,
{
    lemma_invalidate_effect(p, addr@);
    lemma_get_or_connect_effect(p.invalidate(addr@), addr);
}

} // verus!
