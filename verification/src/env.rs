//! The environment of task execution: one bundle of everything a task is
//! handed when it is created.
//!
//! The bundle owns no logic and is read only. The registry and the pool in
//! it are values behind reference counts: what they hold is what they held
//! when the environment was built, and nothing can be scheduled, aborted,
//! reserved or connected through them, since those operations need exclusive
//! access. Whoever runs tasks keeps the live registry and pool behind a lock
//! of its own and builds an environment from them when it creates a task.

use std::sync::Arc;
use vstd::prelude::*;
use crate::addr::{HostAddr, HostAddrView};
use crate::config::BatchConfig;
use crate::manager::{metrics_of, BatchManager, BatchManagerMetrics};
use crate::memory::MemoryPolicy;
use crate::pool::{ClientPool, PoolState, RetryPolicy};
use crate::registry::ManagerState;

verus! {

/// The number of a worker node in the cluster.
pub type WorkerNodeId = u32;

/// How much a node records.
#[derive(Clone, Copy, Debug, PartialEq, Eq, Structural)]
pub enum MetricLevel {
    Disabled,
    Critical,
    Info,
    Debug,
}

/// The state store that answers table scans, named by the slot under which
/// the node keeps it.
#[derive(Clone, Copy, Debug, PartialEq, Eq, Structural)]
pub struct StateStoreRef {
    pub slot: u64,
}

/// The manager that applies inserts and deletes, named by the slot under
/// which the node keeps it.
#[derive(Clone, Copy, Debug, PartialEq, Eq, Structural)]
pub struct DmlManagerRef {
    pub slot: u64,
}

/// A sink for metrics, named by the slot under which the node keeps it;
/// `None` where no sink is attached.
#[derive(Clone, Copy, Debug, PartialEq, Eq, Structural)]
pub struct MetricsRef {
    pub slot: Option<u64>,
}

/// A pool of connections to peers as it stood at one moment: a read-only
/// value behind a reference count, not a handle to a pool that changes.
pub type ComputeClientPoolRef = Arc<ClientPool>;

/// The environment of task execution: a read-only bundle. Copies of it share
/// their parts by reference count; none of the parts changes once the
/// environment is built.
pub struct BatchEnvironment {
    /// The address on which the node takes requests for batch tasks.
    server_addr: HostAddr,
    /// The registry of tasks as it stood when the environment was built;
    /// read-only.
    task_manager: Arc<BatchManager>,
    /// The settings of the coordinator.
    config: Arc<BatchConfig>,
    /// The number of this worker node.
    worker_id: WorkerNodeId,
    /// The state store that table scans read from.
    state_store: StateStoreRef,
    /// The sink for the metrics of tasks.
    task_metrics: MetricsRef,
    /// The sink for the metrics of executors.
    executor_metrics: MetricsRef,
    /// The pool of peer connections as it stood when the environment was
    /// built; read-only.
    client_pool: ComputeClientPoolRef,
    /// The manager that applies inserts and deletes.
    dml_manager: DmlManagerRef,
    /// The sink for the metrics of sources.
    source_metrics: MetricsRef,
    /// The sink for the metrics of spilling.
    spill_metrics: MetricsRef,
    metric_level: MetricLevel,
}

/// The environment as a mathematical value.
pub struct EnvironmentView {
    pub server_addr: HostAddrView,
    pub task_manager: ManagerState,
    pub config: BatchConfig,
    pub worker_id: WorkerNodeId,
    pub state_store: StateStoreRef,
    pub task_metrics: MetricsRef,
    pub executor_metrics: MetricsRef,
    pub client_pool: PoolState,
    pub dml_manager: DmlManagerRef,
    pub source_metrics: MetricsRef,
    pub spill_metrics: MetricsRef,
    pub metric_level: MetricLevel,
}

impl View for BatchEnvironment {
    type V = EnvironmentView;

    closed spec fn view(&self) -> EnvironmentView {
        EnvironmentView {
            server_addr: self.server_addr@,
            task_manager: self.task_manager@,
            config: *self.config,
            worker_id: self.worker_id,
            state_store: self.state_store,
            task_metrics: self.task_metrics,
            executor_metrics: self.executor_metrics,
            client_pool: self.client_pool@,
            dml_manager: self.dml_manager,
            source_metrics: self.source_metrics,
            spill_metrics: self.spill_metrics,
            metric_level: self.metric_level,
        }
    }
}

/// `Arc::clone` of the standard library: the new pointer points to the value
/// that the old one points to.
#[verifier::external_body]
fn share<T>(shared: &Arc<T>) -> (copy: Arc<T>)
    ensures
        copy == *shared,
{
    Arc::clone(shared)
}

impl Clone for BatchEnvironment {
    fn clone(&self) -> (copy: Self)
        ensures
            copy@ == self@,
            self.wf() ==> copy.wf(),
    {
        BatchEnvironment {
            server_addr: self.server_addr.clone(),
            task_manager: share(&self.task_manager),
            config: share(&self.config),
            worker_id: self.worker_id,
            state_store: self.state_store,
            task_metrics: self.task_metrics,
            executor_metrics: self.executor_metrics,
            client_pool: share(&self.client_pool),
            dml_manager: self.dml_manager,
            source_metrics: self.source_metrics,
            spill_metrics: self.spill_metrics,
            metric_level: self.metric_level,
        }
    }
}

impl BatchEnvironment {
    /// The manager and the pool that the environment shares are well formed.
    pub closed spec fn wf(&self) -> bool {
        self.task_manager.wf() && self.client_pool.wf()
    }

    /// Bundles the parts as they are handed in; none of them is changed or
    /// looked into.
    pub fn new(
        task_manager: Arc<BatchManager>,
        server_addr: HostAddr,
        config: Arc<BatchConfig>,
        worker_id: WorkerNodeId,
        state_store: StateStoreRef,
        task_metrics: MetricsRef,
        executor_metrics: MetricsRef,
        client_pool: ComputeClientPoolRef,
        dml_manager: DmlManagerRef,
        source_metrics: MetricsRef,
        spill_metrics: MetricsRef,
        metric_level: MetricLevel,
    ) -> (env: Self)
        requires
            task_manager.wf(),
            client_pool.wf(),
        ensures
            env.wf(),
            env@ == (EnvironmentView {
                server_addr: server_addr@,
                task_manager: task_manager@,
                config: *config,
                worker_id,
                state_store,
                task_metrics,
                executor_metrics,
                client_pool: client_pool@,
                dml_manager,
                source_metrics,
                spill_metrics,
                metric_level,
            }),
    {
        BatchEnvironment {
            server_addr,
            task_manager,
            config,
            worker_id,
            state_store,
            task_metrics,
            executor_metrics,
            client_pool,
            dml_manager,
            source_metrics,
            spill_metrics,
            metric_level,
        }
    }

    /// An environment to try things out in: a manager and a pool without
    /// entries under the standard settings and without a memory limit worth
    /// the name, the address `127.0.0.1:2333`, worker `0`, every collaborator
    /// in slot `0`, no metrics sink, and everything recorded.
    pub fn for_test() -> (env: Self)
        ensures
            env.wf(),
            env@.server_addr == (HostAddrView { host: "127.0.0.1"@, port: 2333 }),
            env@.task_manager == ManagerState::empty(
                BatchConfig::standard().max_concurrent_tasks,
                MemoryPolicy {
                    node_limit: u64::MAX,
                    spill_headroom_percent: BatchConfig::standard().spill_headroom_percent,
                },
            ),
            env@.config == BatchConfig::standard(),
            env@.worker_id == 0,
            env@.state_store == (StateStoreRef { slot: 0 }),
            env@.dml_manager == (DmlManagerRef { slot: 0 }),
            env@.task_metrics == (MetricsRef { slot: None }),
            env@.executor_metrics == (MetricsRef { slot: None }),
            env@.source_metrics == (MetricsRef { slot: None }),
            env@.spill_metrics == (MetricsRef { slot: None }),
            env@.client_pool == PoolState::empty(
                RetryPolicy {
                    max_retries: BatchConfig::standard().connect_max_retries,
                    backoff_base_ms: BatchConfig::standard().connect_backoff_base_ms,
                    backoff_cap_ms: BatchConfig::standard().connect_backoff_cap_ms,
                },
            ),
            env@.metric_level == MetricLevel::Debug,
    {
        let config = BatchConfig::default();
        BatchEnvironment {
            server_addr: HostAddr::new("127.0.0.1".to_owned(), 2333),
            task_manager: Arc::new(BatchManager::new(&config, u64::MAX)),
            config: Arc::new(config),
            worker_id: 0,
            state_store: StateStoreRef { slot: 0 },
            task_metrics: MetricsRef { slot: None },
            executor_metrics: MetricsRef { slot: None },
            client_pool: Arc::new(ClientPool::new(&config)),
            dml_manager: DmlManagerRef { slot: 0 },
            source_metrics: MetricsRef { slot: None },
            spill_metrics: MetricsRef { slot: None },
            metric_level: MetricLevel::Debug,
        }
    }

    pub fn server_address(&self) -> (addr: &HostAddr)
        ensures
            addr@ == self@.server_addr,
    {
        &self.server_addr
    }

    /// The registry as the environment holds it, shared by reference count.
    /// It can be looked into and counted; it cannot be changed through this
    /// handle.
    pub fn task_manager(&self) -> (manager: Arc<BatchManager>)
        ensures
            manager@ == self@.task_manager,
            self.wf() ==> manager.wf(),
    {
        share(&self.task_manager)
    }

    pub fn config(&self) -> (config: &BatchConfig)
        ensures
            *config == self@.config,
    {
        &self.config
    }

    pub fn worker_id(&self) -> (id: WorkerNodeId)
        ensures
            id == self@.worker_id,
    {
        self.worker_id
    }

    pub fn state_store(&self) -> (store: StateStoreRef)
        ensures
            store == self@.state_store,
    {
        self.state_store
    }

    /// The metrics of the registry that the environment holds.
    pub fn manager_metrics(&self) -> (metrics: BatchManagerMetrics)
        requires
            self.wf(),
        ensures
            metrics == metrics_of(self@.task_manager),
    {
        self.task_manager.metrics()
    }

    pub fn task_metrics(&self) -> (sink: MetricsRef)
        ensures
            sink == self@.task_metrics,
    {
        self.task_metrics
    }

    pub fn executor_metrics(&self) -> (sink: MetricsRef)
        ensures
            sink == self@.executor_metrics,
    {
        self.executor_metrics
    }

    /// The pool as the environment holds it, shared by reference count. It
    /// can be looked into and counted; it cannot be changed through this
    /// handle.
    pub fn client_pool(&self) -> (pool: ComputeClientPoolRef)
        ensures
            pool@ == self@.client_pool,
            self.wf() ==> pool.wf(),
    {
        share(&self.client_pool)
    }

    pub fn dml_manager_ref(&self) -> (manager: DmlManagerRef)
        ensures
            manager == self@.dml_manager,
    {
        self.dml_manager
    }

    pub fn source_metrics(&self) -> (sink: MetricsRef)
        ensures
            sink == self@.source_metrics,
    {
        self.source_metrics
    }

    pub fn spill_metrics(&self) -> (sink: MetricsRef)
        ensures
            sink == self@.spill_metrics,
    {
        self.spill_metrics
    }

    pub fn metric_level(&self) -> (level: MetricLevel)
        ensures
            level == self@.metric_level,
    {
        self.metric_level
    }
}

} // verus!
