use enteract::data::errors::{
    connection_error, error_type_label, initialization_error, lock_timeout_error, permission_error,
    DatabaseError, DatabaseErrorType, OperationResult, SqliteCode, SqliteErrorKind,
};
use enteract::data::logging::{console_line, priority, DatabaseLogger, LogEntry, LogLevel};

#[test]
fn error_builders() {
    let e = DatabaseError::new(DatabaseErrorType::QueryFailed, "bad".to_string(), "select".to_string())
        .with_details("d".to_string())
        .with_code(7);
    assert_eq!(e.details.as_deref(), Some("d"));
    assert_eq!(e.code, Some(7));
    assert!(!e.recoverable);
    let r = e.retry_after(3);
    assert!(r.recoverable);
    assert_eq!(r.retry_after, Some(3));
    assert_eq!(r.describe(), "[QueryFailed] bad (Operation: select)");
    assert_eq!(error_type_label(DatabaseErrorType::DiskFull), "DiskFull");
}

#[test]
fn named_errors() {
    let c = connection_error("refused");
    assert_eq!(c.error_type, DatabaseErrorType::ConnectionFailed);
    assert_eq!(c.message, "Failed to connect to database");
    assert_eq!(c.operation, "database_connection");
    assert_eq!(c.details.as_deref(), Some("refused"));
    assert_eq!(initialization_error("x").operation, "database_initialization");
    assert_eq!(permission_error("x").error_type, DatabaseErrorType::PermissionDenied);
    let l = lock_timeout_error();
    assert!(l.recoverable);
    assert_eq!(l.retry_after, Some(1));
}

#[test]
fn sqlite_kinds() {
    let busy = DatabaseError::from_sqlite_kind(SqliteErrorKind::Failure(SqliteCode::DatabaseBusy), "m".to_string(), "op".to_string());
    assert_eq!(busy.error_type, DatabaseErrorType::LockTimeout);
    assert!(busy.recoverable);
    assert_eq!(busy.retry_after, Some(1));
    let full = DatabaseError::from_sqlite_kind(SqliteErrorKind::Failure(SqliteCode::DiskFull), "m".to_string(), "op".to_string());
    assert_eq!(full.error_type, DatabaseErrorType::DiskFull);
    let none = DatabaseError::from_sqlite_kind(SqliteErrorKind::QueryReturnedNoRows, "m".to_string(), "op".to_string());
    assert_eq!(none.error_type, DatabaseErrorType::QueryFailed);
    let e = DatabaseError::from_sqlite_error(rusqlite::Error::QueryReturnedNoRows, "lookup".to_string());
    assert_eq!(e.error_type, DatabaseErrorType::QueryFailed);
    assert_eq!(e.operation, "lookup");
}

#[test]
fn operation_results() {
    let ok = OperationResult::success(5u32, "op1".to_string(), 12);
    assert!(ok.success);
    assert_eq!(ok.data, Some(5));
    let err: OperationResult<u32> = OperationResult::error(lock_timeout_error(), "op2".to_string(), 3);
    assert!(!err.success);
    assert!(err.data.is_none());
    assert!(err.error.is_some());
}

fn entry(level: LogLevel, op: &str) -> LogEntry {
    LogEntry::new(level, op.to_string(), format!("{} happened", op), None)
}

#[test]
fn logger_keeps_newest_entries_at_level() {
    let mut log = DatabaseLogger::new(3, LogLevel::Info);
    assert!(!log.log(entry(LogLevel::Debug, "d")));
    for op in ["a", "b", "c", "d"] {
        assert!(log.log(entry(LogLevel::Info, op)));
    }
    assert!(log.log(entry(LogLevel::Error, "e")));
    let all = log.get_logs(None);
    let ops: Vec<&str> = all.iter().map(|e| e.operation.as_str()).collect();
    assert_eq!(ops, vec!["c", "d", "e"]);
    assert_eq!(log.get_logs(Some(1))[0].operation, "e");
    assert_eq!(log.get_logs_by_level(LogLevel::Info).len(), 2);
    assert_eq!(log.get_logs_by_operation("d").len(), 1);
    let stats = log.get_stats();
    assert_eq!(stats.total_logs, 3);
    assert_eq!(stats.info_count, 2);
    assert_eq!(stats.error_count, 1);
    log.clear_logs();
    assert_eq!(log.get_stats().total_logs, 0);
    assert!(priority(LogLevel::Critical) > priority(LogLevel::Warn));
}

#[test]
fn console_line_shape() {
    let e = entry(LogLevel::Warn, "sync").with_session("s".to_string());
    let line = console_line(&e);
    assert!(line.contains("sync"));
    assert!(line.contains("sync happened"));
}

#[test]
fn logger_level_shortcuts() {
    let mut log = DatabaseLogger::new(10, LogLevel::Info);
    assert!(!log.trace("t".to_string(), "x".to_string(), None));
    assert!(!log.debug("d".to_string(), "x".to_string(), None));
    assert!(log.info("i".to_string(), "x".to_string(), Some("main".to_string())));
    assert!(log.warn("w".to_string(), "x".to_string(), None));
    assert!(log.error("e".to_string(), "x".to_string(), None));
    assert!(log.critical("c".to_string(), "x".to_string(), None));
    let ops: Vec<String> = log.get_logs(None).iter().map(|e| e.operation.clone()).collect();
    assert_eq!(ops, vec!["i", "w", "e", "c"]);
    assert_eq!(log.get_logs(None)[0].thread_id.as_deref(), Some("main"));
    assert_eq!(log.get_logs(None)[3].level, LogLevel::Critical);
}

#[test]
fn sqlite_errors_are_classified_from_the_error() {
    let busy_err = rusqlite::Error::SqliteFailure(
        rusqlite::ffi::Error { code: rusqlite::ErrorCode::DatabaseBusy, extended_code: 5 },
        Some("database is locked".to_string()),
    );
    let text = busy_err.to_string();
    let busy = DatabaseError::from_sqlite_error(busy_err, "write".to_string());
    assert_eq!(busy.error_type, DatabaseErrorType::LockTimeout);
    assert!(busy.recoverable);
    assert_eq!(busy.retry_after, Some(1));
    assert_eq!(busy.message, text);
    let none = DatabaseError::from_sqlite_error(rusqlite::Error::QueryReturnedNoRows, "lookup".to_string());
    assert_eq!(none.message, rusqlite::Error::QueryReturnedNoRows.to_string());
    assert!(!none.recoverable);
    let other = DatabaseError::from_sqlite_error(rusqlite::Error::InvalidQuery, "q".to_string());
    assert_eq!(other.error_type, DatabaseErrorType::Unknown);
}
