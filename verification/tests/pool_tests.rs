use enteract::data::errors::DatabaseErrorType;
use enteract::data::pool::{ConnectionPool, ConnectionPoolConfig, ConnectionPoolStats};

fn cfg(max: usize) -> ConnectionPoolConfig {
    ConnectionPoolConfig {
        max_connections: max,
        max_connection_age_ms: 1_000,
        idle_timeout_ms: 100,
        connection_timeout_ms: 30_000,
        cleanup_interval_ms: 50,
    }
}

#[test]
fn default_config_and_stats() {
    let c = ConnectionPoolConfig::default();
    assert_eq!(c.max_connections, 10);
    assert_eq!(c.max_connection_age_ms, 3_600_000);
    assert_eq!(c.idle_timeout_ms, 300_000);
    assert_eq!(c.connection_timeout_ms, 30_000);
    assert_eq!(c.cleanup_interval_ms, 60_000);
    let s = ConnectionPoolStats::default();
    assert_eq!(s.active_connections, 0);
    assert_eq!(s.total_created, 0);
}

#[test]
fn create_lend_return_and_reuse() {
    let mut pool: ConnectionPool<&str> = ConnectionPool::new(Some(cfg(2)), 0);
    assert!(pool.take_candidate(0).is_none());
    assert!(pool.may_create());
    let c = pool.created("db-1", 0);
    assert_eq!(c.use_count, 1);
    pool.return_connection(c, 10);
    assert_eq!(pool.get_stats().active_connections, 1);
    let cand = pool.take_candidate(20).expect("fresh connection");
    let c = pool.accept(cand, 20);
    assert_eq!(c.connection, "db-1");
    assert_eq!(c.use_count, 2);
    let s = pool.get_stats();
    assert_eq!(s.total_created, 1);
    assert_eq!(s.total_borrowed, 2);
    assert_eq!(s.total_returned, 1);
}

#[test]
fn stale_connections_are_closed_when_taken() {
    let mut pool: ConnectionPool<u32> = ConnectionPool::new(Some(cfg(5)), 0);
    let a = pool.created(1, 0);
    let b = pool.created(2, 450);
    pool.return_connection(a, 0);
    pool.return_connection(b, 450);
    let cand = pool.take_candidate(500).expect("b is fresh");
    assert_eq!(cand.connection, 2);
    let s = pool.get_stats();
    assert_eq!(s.total_closed, 1);
}

#[test]
fn exhausted_pool_reports_retry() {
    let mut pool: ConnectionPool<u32> = ConnectionPool::new(Some(cfg(1)), 0);
    let _c = pool.created(1, 0);
    assert!(!pool.may_create());
    let e = pool.exhausted();
    assert_eq!(e.error_type, DatabaseErrorType::ConnectionFailed);
    assert_eq!(e.message, "Connection pool exhausted");
    assert_eq!(e.operation, "get_connection");
    assert_eq!(e.retry_after, Some(1));
    assert!(e.recoverable);
    let f = pool.creation_failed("disk");
    assert_eq!(f.message, "Failed to create new connection: disk");
    assert_eq!(pool.get_stats().connection_errors, 2);
}

#[test]
fn full_pool_closes_returned_connection() {
    let mut pool: ConnectionPool<u32> = ConnectionPool::new(Some(cfg(1)), 0);
    let a = pool.created(1, 0);
    let b = pool.created(2, 0);
    pool.return_connection(a, 1);
    pool.return_connection(b, 1);
    let s = pool.get_stats();
    assert_eq!(s.active_connections, 1);
    assert_eq!(s.total_returned, 1);
    assert_eq!(s.total_closed, 1);
}

#[test]
fn cleanup_runs_when_due() {
    let mut pool: ConnectionPool<u32> = ConnectionPool::new(Some(cfg(5)), 0);
    let a = pool.created(1, 0);
    let b = pool.created(2, 190);
    pool.return_connection(a, 0);
    pool.return_connection(b, 190);
    assert_eq!(pool.maybe_cleanup(10), 0);
    assert_eq!(pool.maybe_cleanup(200), 1);
    let s = pool.get_stats();
    assert_eq!(s.cleanup_runs, 1);
    assert_eq!(s.active_connections, 1);
    assert_eq!(pool.close_all(), 1);
    assert_eq!(pool.get_stats().active_connections, 0);
    assert_eq!(pool.get_stats().total_closed, 2);
}
