use batch_task::addr::HostAddr;
use batch_task::config::BatchConfig;
use batch_task::error::BatchError;
use batch_task::exchange::{timed_out, watch_exchange};
use batch_task::manager::BatchManager;
use batch_task::pool::{backoff_delay_ms, Acquire, ClientPool, ConnectionHandle};
use batch_task::task::{TaskDescriptor, TaskId, TaskState};

fn addr(host: &str, port: u16) -> HostAddr {
    HostAddr::new(host.to_string(), port)
}

fn pool() -> ClientPool {
    ClientPool::new(&BatchConfig::default())
}

#[test]
fn many_callers_one_setup() {
    let mut pool = pool();
    let peer = addr("10.0.0.5", 5688);
    assert_eq!(pool.get_or_connect(&peer), Acquire::Connect);
    for _ in 0..9 {
        assert_eq!(pool.get_or_connect(&addr("10.0.0.5", 5688)), Acquire::Wait);
    }
    assert_eq!(pool.setups_begun(), 1);
    assert_eq!(pool.connection_count(), 0);
    let handle = ConnectionHandle { connection: 41 };
    assert_eq!(pool.connected(&peer, handle), Ok(handle));
    for _ in 0..10 {
        assert_eq!(pool.get_or_connect(&peer), Acquire::Ready(handle));
    }
    assert_eq!(pool.setups_begun(), 1);
    assert_eq!(pool.connection_count(), 1);
}

#[test]
fn peers_are_told_apart_by_host_and_port() {
    let mut pool = pool();
    assert_eq!(pool.get_or_connect(&addr("a", 1)), Acquire::Connect);
    assert_eq!(pool.get_or_connect(&addr("a", 2)), Acquire::Connect);
    assert_eq!(pool.get_or_connect(&addr("b", 1)), Acquire::Connect);
    assert_eq!(pool.get_or_connect(&addr("a", 1)), Acquire::Wait);
    assert_eq!(pool.setups_begun(), 3);
    let first = ConnectionHandle { connection: 1 };
    let second = ConnectionHandle { connection: 2 };
    assert_eq!(pool.connected(&addr("a", 2), second), Ok(second));
    assert_eq!(pool.connected(&addr("a", 1), first), Ok(first));
    assert_eq!(pool.get_or_connect(&addr("a", 1)), Acquire::Ready(first));
    assert_eq!(pool.get_or_connect(&addr("a", 2)), Acquire::Ready(second));
    assert_eq!(pool.get_or_connect(&addr("b", 1)), Acquire::Wait);
    assert_eq!(pool.connection_count(), 2);
}

#[test]
fn invalidate_makes_the_next_caller_connect_anew() {
    let mut pool = pool();
    let peer = addr("peer", 80);
    pool.invalidate(&peer);
    assert_eq!(pool.get_or_connect(&peer), Acquire::Connect);
    pool.invalidate(&peer);
    assert_eq!(pool.get_or_connect(&peer), Acquire::Wait);
    let old = ConnectionHandle { connection: 1 };
    pool.connected(&peer, old).unwrap();
    pool.invalidate(&peer);
    assert_eq!(pool.connection_count(), 0);
    pool.invalidate(&peer);
    assert_eq!(pool.get_or_connect(&peer), Acquire::Connect);
    assert_eq!(pool.get_or_connect(&peer), Acquire::Wait);
    assert_eq!(pool.setups_begun(), 2);
    let new = ConnectionHandle { connection: 2 };
    assert_eq!(pool.connected(&peer, new), Ok(new));
    assert_eq!(pool.get_or_connect(&peer), Acquire::Ready(new));
}

#[test]
fn failures_back_off_and_then_give_up() {
    let mut pool = pool();
    let peer = addr("down", 1);
    assert_eq!(pool.get_or_connect(&peer), Acquire::Connect);
    assert_eq!(pool.connect_failed(&peer), Ok(100));
    assert_eq!(pool.get_or_connect(&peer), Acquire::Wait);
    assert_eq!(pool.connect_failed(&peer), Ok(200));
    assert_eq!(pool.connect_failed(&peer), Ok(400));
    assert_eq!(pool.connect_failed(&peer), Err(BatchError::ConnectFailed));
    assert_eq!(pool.connect_failed(&peer), Err(BatchError::NotFound));
    assert_eq!(pool.setups_begun(), 1);
    assert_eq!(pool.get_or_connect(&peer), Acquire::Connect);
    assert_eq!(pool.setups_begun(), 2);
    assert_eq!(pool.connect_failed(&peer), Ok(100));
    let handle = ConnectionHandle { connection: 3 };
    assert_eq!(pool.connected(&peer, handle), Ok(handle));
    assert_eq!(pool.get_or_connect(&peer), Acquire::Ready(handle));
}

#[test]
fn without_retries_the_first_failure_gives_up() {
    let config = BatchConfig { connect_max_retries: 0, ..BatchConfig::default() };
    let mut pool = ClientPool::new(&config);
    let peer = addr("down", 1);
    assert_eq!(pool.get_or_connect(&peer), Acquire::Connect);
    assert_eq!(pool.connect_failed(&peer), Err(BatchError::ConnectFailed));
    assert_eq!(pool.get_or_connect(&peer), Acquire::Connect);
}

#[test]
fn reports_without_a_setup_are_not_found() {
    let mut pool = pool();
    let peer = addr("peer", 1);
    let handle = ConnectionHandle { connection: 1 };
    assert_eq!(pool.connected(&peer, handle), Err(BatchError::NotFound));
    assert_eq!(pool.connect_failed(&peer), Err(BatchError::NotFound));
    assert_eq!(pool.get_or_connect(&peer), Acquire::Connect);
    assert_eq!(pool.connected(&peer, handle), Ok(handle));
    let other = ConnectionHandle { connection: 2 };
    assert_eq!(pool.connected(&peer, other), Err(BatchError::NotFound));
    assert_eq!(pool.connect_failed(&peer), Err(BatchError::NotFound));
    assert_eq!(pool.get_or_connect(&peer), Acquire::Ready(handle));
}

#[test]
fn the_backoff_doubles_up_to_the_cap() {
    assert_eq!(backoff_delay_ms(100, 10_000, 0), 0);
    assert_eq!(backoff_delay_ms(100, 10_000, 1), 100);
    assert_eq!(backoff_delay_ms(100, 10_000, 2), 200);
    assert_eq!(backoff_delay_ms(100, 10_000, 3), 400);
    assert_eq!(backoff_delay_ms(100, 10_000, 7), 6400);
    assert_eq!(backoff_delay_ms(100, 10_000, 8), 10_000);
    assert_eq!(backoff_delay_ms(100, 10_000, 9), 10_000);
    assert_eq!(backoff_delay_ms(100, 10_000, u32::MAX), 10_000);
    assert_eq!(backoff_delay_ms(3, 12, 3), 12);
    assert_eq!(backoff_delay_ms(3, 13, 3), 12);
    assert_eq!(backoff_delay_ms(3, 13, 4), 13);
    assert_eq!(backoff_delay_ms(500, 100, 1), 100);
    assert_eq!(backoff_delay_ms(0, 100, 5), 0);
    assert_eq!(backoff_delay_ms(7, 0, 5), 0);
    assert_eq!(backoff_delay_ms(1, u64::MAX, 64), 1 << 63);
    assert_eq!(backoff_delay_ms(1, u64::MAX, 65), u64::MAX);
    assert_eq!(backoff_delay_ms(u64::MAX, u64::MAX, 2), u64::MAX);
}

#[test]
fn an_exchange_times_out_after_the_interval() {
    let config = BatchConfig { exchange_timeout_ms: 500, ..BatchConfig::default() };
    assert!(!timed_out(&config, 1000, 1499));
    assert!(timed_out(&config, 1000, 1500));
    assert!(timed_out(&config, 1000, u64::MAX));
    assert!(!timed_out(&config, 1000, 999));
    assert!(!timed_out(&config, 1000, 0));
    let never = BatchConfig { exchange_timeout_ms: 0, ..BatchConfig::default() };
    assert!(!timed_out(&never, 0, u64::MAX));
}

#[test]
fn a_timed_out_exchange_fails_its_task() {
    let config = BatchConfig { exchange_timeout_ms: 500, ..BatchConfig::default() };
    let mut manager = BatchManager::new(&config, 1000);
    let task = TaskId { query_id: 1, stage_id: 0, task_index: 0 };
    assert_eq!(watch_exchange(&mut manager, &config, task, 0, 600), Err(BatchError::NotFound));
    manager
        .schedule(TaskDescriptor {
            query_id: 1,
            stage_id: 0,
            task_index: 0,
            plan: vec![1],
            worker_id: 0,
            memory_quota: 0,
        })
        .unwrap();
    manager.start(task, 100).unwrap();
    manager.try_reserve(task, 10);
    assert_eq!(watch_exchange(&mut manager, &config, task, 100, 599), Ok(TaskState::Running));
    assert_eq!(watch_exchange(&mut manager, &config, task, 100, 600), Ok(TaskState::Failed));
    let status = manager.lookup(task).unwrap();
    assert_eq!(status.last_error, Some(BatchError::ResourceExhausted));
    assert_eq!(status.end_time, Some(600));
    assert_eq!(status.reserved, 0);
}

#[test]
fn a_waiting_exchange_sees_the_cancellation() {
    let config = BatchConfig::default();
    let mut manager = BatchManager::new(&config, 0);
    let task = TaskId { query_id: 1, stage_id: 0, task_index: 0 };
    manager
        .schedule(TaskDescriptor {
            query_id: 1,
            stage_id: 0,
            task_index: 0,
            plan: vec![1],
            worker_id: 0,
            memory_quota: 0,
        })
        .unwrap();
    manager.start(task, 100).unwrap();
    manager.abort(task, 150);
    assert_eq!(watch_exchange(&mut manager, &config, task, 100, 200), Ok(TaskState::Cancelled));
    assert_eq!(manager.lookup(task).unwrap().last_error, None);
}
