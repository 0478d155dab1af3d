//! The database layer's error values.

use vstd::prelude::*;
use crate::clock::unix_timestamp_now;
use crate::text::{push_str, to_owned_string};

verus! {

/// What went wrong in the database layer.
#[derive(Debug, Clone, Copy, PartialEq, Eq, Structural)]
pub enum DatabaseErrorType {
    ConnectionFailed,
    InitializationFailed,
    SchemaError,
    QueryFailed,
    TransactionFailed,
    ConstraintViolation,
    DataCorruption,
    PermissionDenied,
    DiskFull,
    LockTimeout,
    Unknown,
}

/// A database error with its context.
#[derive(Debug, Clone)]
pub struct DatabaseError {
    pub error_type: DatabaseErrorType,
    pub message: String,
    pub details: Option<String>,
    pub code: Option<i32>,
    pub timestamp: i64,
    pub operation: String,
    pub recoverable: bool,
    /// Seconds to wait before retrying.
    pub retry_after: Option<u64>,
}

/// The result of a database operation.
pub type DatabaseResult<T> = Result<T, DatabaseError>;

/// The name of an error type, as `{:?}` writes it.
pub open spec fn error_type_name(t: DatabaseErrorType) -> Seq<char> {
    match t {
        DatabaseErrorType::ConnectionFailed => "ConnectionFailed"@,
        DatabaseErrorType::InitializationFailed => "InitializationFailed"@,
        DatabaseErrorType::SchemaError => "SchemaError"@,
        DatabaseErrorType::QueryFailed => "QueryFailed"@,
        DatabaseErrorType::TransactionFailed => "TransactionFailed"@,
        DatabaseErrorType::ConstraintViolation => "ConstraintViolation"@,
        DatabaseErrorType::DataCorruption => "DataCorruption"@,
        DatabaseErrorType::PermissionDenied => "PermissionDenied"@,
        DatabaseErrorType::DiskFull => "DiskFull"@,
        DatabaseErrorType::LockTimeout => "LockTimeout"@,
        DatabaseErrorType::Unknown => "Unknown"@,
    }
}

/// The name of an error type, as `{:?}` writes it.
pub fn error_type_label(t: DatabaseErrorType) -> (s: &'static str)
    ensures
        s@ == error_type_name(t),
{
    match t {
        DatabaseErrorType::ConnectionFailed => "ConnectionFailed",
        DatabaseErrorType::InitializationFailed => "InitializationFailed",
        DatabaseErrorType::SchemaError => "SchemaError",
        DatabaseErrorType::QueryFailed => "QueryFailed",
        DatabaseErrorType::TransactionFailed => "TransactionFailed",
        DatabaseErrorType::ConstraintViolation => "ConstraintViolation",
        DatabaseErrorType::DataCorruption => "DataCorruption",
        DatabaseErrorType::PermissionDenied => "PermissionDenied",
        DatabaseErrorType::DiskFull => "DiskFull",
        DatabaseErrorType::LockTimeout => "LockTimeout",
        DatabaseErrorType::Unknown => "Unknown",
    }
}

impl DatabaseError {
    /// A fresh error: no details, no code, not recoverable, stamped with the current time.
    pub fn new(error_type: DatabaseErrorType, message: String, operation: String) -> (e: Self)
        ensures
            e.error_type == error_type,
            e.message == message,
            e.operation == operation,
            e.details is None,
            e.code is None,
            !e.recoverable,
            e.retry_after is None,
    {
        DatabaseError {
            error_type,
            message,
            details: None,
            code: None,
            timestamp: unix_timestamp_now(),
            operation,
            recoverable: false,
            retry_after: None,
        }
    }

    /// The same error with `details` attached.
    pub fn with_details(self, details: String) -> (e: Self)
        ensures
            e == (DatabaseError { details: Some(details), ..self }),
    {
        let mut e = self;
        e.details = Some(details);
        e
    }

    /// The same error with a numeric code attached.
    pub fn with_code(self, code: i32) -> (e: Self)
        ensures
            e == (DatabaseError { code: Some(code), ..self }),
    {
        let mut e = self;
        e.code = Some(code);
        e
    }

    /// The same error, marked recoverable.
    pub fn recoverable(self) -> (e: Self)
        ensures
            e == (DatabaseError { recoverable: true, ..self }),
    {
        let mut e = self;
        e.recoverable = true;
        e
    }

    /// Marking an error recoverable a second time changes nothing more.
    pub proof fn law_recoverable_twice_is_once(e: DatabaseError)
        ensures
            (DatabaseError { recoverable: true, ..(DatabaseError { recoverable: true, ..e }) }) == (
            DatabaseError { recoverable: true, ..e }),
    {
    }

    /// The same error, to be retried after `seconds`; a retry makes it recoverable.
    pub fn retry_after(self, seconds: u64) -> (e: Self)
        ensures
            e == (DatabaseError { retry_after: Some(seconds), recoverable: true, ..self }),
    {
        let mut e = self;
        e.retry_after = Some(seconds);
        e.recoverable = true;
        e
    }

    /// The error as a line of text: `[<type>] <message> (Operation: <operation>)`.
    pub fn describe(&self) -> (s: String)
        ensures
            s@ == "["@ + error_type_name(self.error_type) + "] "@ + self.message@
                + " (Operation: "@ + self.operation@ + ")"@,
    {
        let mut s = to_owned_string("[");
        push_str(&mut s, error_type_label(self.error_type));
        push_str(&mut s, "] ");
        push_str(&mut s, self.message.as_str());
        push_str(&mut s, " (Operation: ");
        push_str(&mut s, self.operation.as_str());
        push_str(&mut s, ")");
        s
    }
}

/// `rusqlite::Error`, carried opaquely.
#[verifier::external_type_specification]
#[verifier::external_body]
pub struct ExSqliteError(rusqlite::Error);

/// The primary SQLite result codes that the error model distinguishes.
#[derive(Debug, Clone, Copy, PartialEq, Eq, Structural)]
pub enum SqliteCode {
    DatabaseBusy,
    DatabaseLocked,
    CannotOpen,
    DiskFull,
    ConstraintViolation,
    DatabaseCorrupt,
    Other,
}

/// The shape of a `rusqlite::Error` that the error model distinguishes.
#[derive(Debug, Clone, Copy, PartialEq, Eq, Structural)]
pub enum SqliteErrorKind {
    Failure(SqliteCode),
    QueryReturnedNoRows,
    Other,
}

/// The kind of a `rusqlite::Error`: which variant it is and, for
/// `SqliteFailure`, which primary code it carries.
pub uninterp spec fn sqlite_kind_of(err: rusqlite::Error) -> SqliteErrorKind;

/// The text that a `rusqlite::Error` displays.
pub uninterp spec fn sqlite_error_text(err: rusqlite::Error) -> Seq<char>;

/// Tells the variants of a `rusqlite::Error` apart: `SqliteFailure` with its primary
/// code (`DatabaseBusy`, `DatabaseLocked`, `CannotOpen`, `DiskFull`,
/// `ConstraintViolation`, `DatabaseCorrupt`, any other code), `QueryReturnedNoRows`,
/// or any other variant. The error is opaque here; the kind is named by `sqlite_kind_of`.
#[verifier::external_body]
fn sqlite_error_kind(err: &rusqlite::Error) -> (r: SqliteErrorKind)
    ensures
        r == sqlite_kind_of(*err),
{
    match err {
        rusqlite::Error::SqliteFailure(e, _) => SqliteErrorKind::Failure(match e.code {
            rusqlite::ErrorCode::DatabaseBusy => SqliteCode::DatabaseBusy,
            rusqlite::ErrorCode::DatabaseLocked => SqliteCode::DatabaseLocked,
            rusqlite::ErrorCode::CannotOpen => SqliteCode::CannotOpen,
            rusqlite::ErrorCode::DiskFull => SqliteCode::DiskFull,
            rusqlite::ErrorCode::ConstraintViolation => SqliteCode::ConstraintViolation,
            rusqlite::ErrorCode::DatabaseCorrupt => SqliteCode::DatabaseCorrupt,
            _ => SqliteCode::Other,
        }),
        rusqlite::Error::QueryReturnedNoRows => SqliteErrorKind::QueryReturnedNoRows,
        _ => SqliteErrorKind::Other,
    }
}

/// The text of a `rusqlite::Error` (`ToString::to_string` through its `Display`),
/// named by `sqlite_error_text`; its wording is not stated.
#[verifier::external_body]
fn sqlite_error_message(err: &rusqlite::Error) -> (r: String)
    ensures
        r@ == sqlite_error_text(*err),
{
    err.to_string()
}

/// How an SQLite error is classified: its type, whether it is recoverable, and when to retry.
pub open spec fn sqlite_classification(kind: SqliteErrorKind) -> (DatabaseErrorType, bool, Option<u64>) {
    match kind {
        SqliteErrorKind::Failure(code) => match code {
            SqliteCode::DatabaseBusy => (DatabaseErrorType::LockTimeout, true, Some(1u64)),
            SqliteCode::DatabaseLocked => (DatabaseErrorType::LockTimeout, true, Some(1u64)),
            SqliteCode::CannotOpen => (DatabaseErrorType::PermissionDenied, false, None),
            SqliteCode::DiskFull => (DatabaseErrorType::DiskFull, false, None),
            SqliteCode::ConstraintViolation => (DatabaseErrorType::ConstraintViolation, false, None),
            SqliteCode::DatabaseCorrupt => (DatabaseErrorType::DataCorruption, false, None),
            SqliteCode::Other => (DatabaseErrorType::QueryFailed, false, None),
        },
        SqliteErrorKind::QueryReturnedNoRows => (DatabaseErrorType::QueryFailed, false, None),
        SqliteErrorKind::Other => (DatabaseErrorType::Unknown, false, None),
    }
}

impl DatabaseError {
    /// The error for an SQLite failure of the given kind, with its text and operation.
    pub fn from_sqlite_kind(kind: SqliteErrorKind, message: String, operation: String) -> (e: Self)
        ensures
            (e.error_type, e.recoverable, e.retry_after) == sqlite_classification(kind),
            e.message == message,
            e.operation == operation,
            e.details is None,
            e.code is None,
    {
        let (error_type, recoverable, retry_after) = match kind {
            SqliteErrorKind::Failure(code) => match code {
                SqliteCode::DatabaseBusy => (DatabaseErrorType::LockTimeout, true, Some(1u64)),
                SqliteCode::DatabaseLocked => (DatabaseErrorType::LockTimeout, true, Some(1u64)),
                SqliteCode::CannotOpen => (DatabaseErrorType::PermissionDenied, false, None),
                SqliteCode::DiskFull => (DatabaseErrorType::DiskFull, false, None),
                SqliteCode::ConstraintViolation => (DatabaseErrorType::ConstraintViolation, false, None),
                SqliteCode::DatabaseCorrupt => (DatabaseErrorType::DataCorruption, false, None),
                SqliteCode::Other => (DatabaseErrorType::QueryFailed, false, None),
            },
            SqliteErrorKind::QueryReturnedNoRows => (DatabaseErrorType::QueryFailed, false, None),
            SqliteErrorKind::Other => (DatabaseErrorType::Unknown, false, None),
        };
        DatabaseError {
            error_type,
            message,
            details: None,
            code: None,
            timestamp: unix_timestamp_now(),
            operation,
            recoverable,
            retry_after,
        }
    }

    /// The error for a `rusqlite::Error`: classified by its kind, carrying its text.
    pub fn from_sqlite_error(err: rusqlite::Error, operation: String) -> (e: Self)
        ensures
            (e.error_type, e.recoverable, e.retry_after) == sqlite_classification(sqlite_kind_of(err)),
            e.message@ == sqlite_error_text(err),
            e.operation == operation,
            e.details is None,
            e.code is None,
    {
        let kind = sqlite_error_kind(&err);
        let message = sqlite_error_message(&err);
        DatabaseError::from_sqlite_kind(kind, message, operation)
    }
}

/// The outcome of an operation, with its identifier and duration.
#[derive(Debug)]
pub struct OperationResult<T> {
    pub success: bool,
    pub data: Option<T>,
    pub error: Option<DatabaseError>,
    pub operation_id: String,
    pub duration_ms: u64,
    pub timestamp: i64,
}

impl<T> OperationResult<T> {
    /// A successful outcome carrying `data`.
    pub fn success(data: T, operation_id: String, duration_ms: u64) -> (r: Self)
        ensures
            r.success,
            r.data == Some(data),
            r.error is None,
            r.operation_id == operation_id,
            r.duration_ms == duration_ms,
    {
        OperationResult {
            success: true,
            data: Some(data),
            error: None,
            operation_id,
            duration_ms,
            timestamp: unix_timestamp_now(),
        }
    }

    /// A failed outcome carrying `error`.
    pub fn error(error: DatabaseError, operation_id: String, duration_ms: u64) -> (r: Self)
        ensures
            !r.success,
            r.data is None,
            r.error == Some(error),
            r.operation_id == operation_id,
            r.duration_ms == duration_ms,
    {
        OperationResult {
            success: false,
            data: None,
            error: Some(error),
            operation_id,
            duration_ms,
            timestamp: unix_timestamp_now(),
        }
    }
}

/// A failure to connect, with `details`.
pub fn connection_error(details: &str) -> (e: DatabaseError)
    ensures
        e.error_type == DatabaseErrorType::ConnectionFailed,
        e.message@ == "Failed to connect to database"@,
        e.operation@ == "database_connection"@,
        e.details matches Some(d) && d@ == details@,
        e.code is None,
        !e.recoverable,
        e.retry_after is None,
{
    DatabaseError::new(
        DatabaseErrorType::ConnectionFailed,
        to_owned_string("Failed to connect to database"),
        to_owned_string("database_connection"),
    ).with_details(to_owned_string(details))
}

/// A failed initialization, with `details`.
pub fn initialization_error(details: &str) -> (e: DatabaseError)
    ensures
        e.error_type == DatabaseErrorType::InitializationFailed,
        e.message@ == "Database initialization failed"@,
        e.operation@ == "database_initialization"@,
        e.details matches Some(d) && d@ == details@,
        e.code is None,
        !e.recoverable,
        e.retry_after is None,
{
    DatabaseError::new(
        DatabaseErrorType::InitializationFailed,
        to_owned_string("Database initialization failed"),
        to_owned_string("database_initialization"),
    ).with_details(to_owned_string(details))
}

/// A refused access, with `details`.
pub fn permission_error(details: &str) -> (e: DatabaseError)
    ensures
        e.error_type == DatabaseErrorType::PermissionDenied,
        e.message@ == "Database permission denied"@,
        e.operation@ == "database_access"@,
        e.details matches Some(d) && d@ == details@,
        e.code is None,
        !e.recoverable,
        e.retry_after is None,
{
    DatabaseError::new(
        DatabaseErrorType::PermissionDenied,
        to_owned_string("Database permission denied"),
        to_owned_string("database_access"),
    ).with_details(to_owned_string(details))
}

/// A lock that was not obtained in time; to be retried after one second.
pub fn lock_timeout_error() -> (e: DatabaseError)
    ensures
        e.error_type == DatabaseErrorType::LockTimeout,
        e.message@ == "Database lock timeout"@,
        e.operation@ == "database_lock"@,
        e.details is None,
        e.code is None,
        e.recoverable,
        e.retry_after == Some(1u64),
{
    DatabaseError::new(
        DatabaseErrorType::LockTimeout,
        to_owned_string("Database lock timeout"),
        to_owned_string("database_lock"),
    ).retry_after(1)
}

} // verus!
