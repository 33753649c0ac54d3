use std::sync::Arc;

use batch_task::addr::HostAddr;
use batch_task::config::BatchConfig;
use batch_task::env::{BatchEnvironment, DmlManagerRef, MetricLevel, MetricsRef, StateStoreRef};
use batch_task::manager::{BatchManager, BatchManagerMetrics};
use batch_task::pool::{Acquire, ClientPool, ConnectionHandle};
use batch_task::task::{TaskDescriptor, TaskId, TaskState};

fn environment() -> BatchEnvironment {
    let config = BatchConfig { max_concurrent_tasks: 2, ..BatchConfig::default() };
    let mut manager = BatchManager::new(&config, 500);
    manager
        .schedule(TaskDescriptor {
            query_id: 4,
            stage_id: 0,
            task_index: 0,
            plan: vec![1, 2, 3],
            worker_id: 12,
            memory_quota: 0,
        })
        .unwrap();
    manager.start(TaskId { query_id: 4, stage_id: 0, task_index: 0 }, 1).unwrap();
    manager.try_reserve(TaskId { query_id: 4, stage_id: 0, task_index: 0 }, 77);
    let mut pool = ClientPool::new(&config);
    pool.get_or_connect(&HostAddr::new("peer".to_string(), 9));
    pool.connected(&HostAddr::new("peer".to_string(), 9), ConnectionHandle { connection: 5 }).unwrap();
    BatchEnvironment::new(
        Arc::new(manager),
        HostAddr::new("192.168.1.20".to_string(), 5688),
        Arc::new(config),
        12,
        StateStoreRef { slot: 3 },
        MetricsRef { slot: Some(1) },
        MetricsRef { slot: Some(2) },
        Arc::new(pool),
        DmlManagerRef { slot: 4 },
        MetricsRef { slot: None },
        MetricsRef { slot: Some(6) },
        MetricLevel::Info,
    )
}

#[test]
fn the_environment_hands_out_what_it_was_given() {
    let env = environment();
    assert_eq!(env.server_address(), &HostAddr::new("192.168.1.20".to_string(), 5688));
    assert_eq!(env.config(), &BatchConfig { max_concurrent_tasks: 2, ..BatchConfig::default() });
    assert_eq!(env.worker_id(), 12);
    assert_eq!(env.state_store(), StateStoreRef { slot: 3 });
    assert_eq!(env.task_metrics(), MetricsRef { slot: Some(1) });
    assert_eq!(env.executor_metrics(), MetricsRef { slot: Some(2) });
    assert_eq!(env.dml_manager_ref(), DmlManagerRef { slot: 4 });
    assert_eq!(env.source_metrics(), MetricsRef { slot: None });
    assert_eq!(env.spill_metrics(), MetricsRef { slot: Some(6) });
    assert_eq!(env.metric_level(), MetricLevel::Info);
    let manager = env.task_manager();
    assert_eq!(
        manager.lookup(TaskId { query_id: 4, stage_id: 0, task_index: 0 }).unwrap().state,
        TaskState::Running
    );
    assert_eq!(
        env.manager_metrics(),
        BatchManagerMetrics {
            pending: 0,
            running: 1,
            finished: 0,
            failed: 0,
            cancelled: 0,
            reserved_bytes: 77,
        }
    );
    assert_eq!(env.client_pool().connection_count(), 1);
    assert_eq!(env.client_pool().setups_begun(), 1);
}

#[test]
fn the_parts_are_shared_not_copied() {
    let env = environment();
    let first = env.task_manager();
    let second = env.task_manager();
    assert!(Arc::ptr_eq(&first, &second));
    assert_eq!(Arc::strong_count(&first), 3);
    let copy = env.clone();
    assert!(Arc::ptr_eq(&copy.task_manager(), &first));
    assert!(Arc::ptr_eq(&copy.client_pool(), &env.client_pool()));
    assert_eq!(Arc::strong_count(&first), 4);
    assert_eq!(copy.server_address(), env.server_address());
    assert_eq!(copy.config(), env.config());
    assert_eq!(copy.worker_id(), 12);
    assert_eq!(copy.metric_level(), MetricLevel::Info);
    drop(copy);
    drop(second);
    assert_eq!(Arc::strong_count(&first), 2);
}

#[test]
fn the_trial_environment() {
    let env = BatchEnvironment::for_test();
    assert_eq!(env.server_address(), &HostAddr::new("127.0.0.1".to_string(), 2333));
    assert_eq!(env.config(), &BatchConfig::default());
    assert_eq!(env.worker_id(), 0);
    assert_eq!(env.state_store(), StateStoreRef { slot: 0 });
    assert_eq!(env.dml_manager_ref(), DmlManagerRef { slot: 0 });
    assert_eq!(env.task_metrics(), MetricsRef { slot: None });
    assert_eq!(env.executor_metrics(), MetricsRef { slot: None });
    assert_eq!(env.source_metrics(), MetricsRef { slot: None });
    assert_eq!(env.spill_metrics(), MetricsRef { slot: None });
    assert_eq!(env.metric_level(), MetricLevel::Debug);
    assert_eq!(env.task_manager().len(), 0);
    assert_eq!(
        env.manager_metrics(),
        BatchManagerMetrics {
            pending: 0,
            running: 0,
            finished: 0,
            failed: 0,
            cancelled: 0,
            reserved_bytes: 0,
        }
    );
    assert_eq!(env.client_pool().connection_count(), 0);
    let mut pool = ClientPool::new(env.config());
    assert_eq!(pool.get_or_connect(env.server_address()), Acquire::Connect);
}

#[test]
fn the_standard_settings() {
    assert_eq!(
        BatchConfig::default(),
        BatchConfig {
            max_concurrent_tasks: 1024,
            spill_headroom_percent: 100,
            connect_max_retries: 3,
            connect_backoff_base_ms: 100,
            connect_backoff_cap_ms: 10_000,
            exchange_timeout_ms: 60_000,
        }
    );
}
