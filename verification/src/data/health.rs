//! Database health: the schema, the tables and indexes it must have, and the
//! assessment of what the checks of the database file found.
//!
//! The caller runs the checks on the file and the connection (in the order of
//! `HealthProbes`, stopping where a check makes the later ones impossible) and
//! hands the outcomes here.

use vstd::prelude::*;
use crate::chunking::string_views;
use crate::text::{join, lowercase, push_str, str_eq, to_lowercase, to_owned_string};

verus! {

/// What a health check found.
#[derive(Debug)]
pub struct DatabaseHealth {
    pub is_healthy: bool,
    pub can_connect: bool,
    pub can_read: bool,
    pub can_write: bool,
    pub foreign_keys_enabled: bool,
    pub wal_mode: bool,
    pub tables_exist: bool,
    pub indexes_exist: bool,
    pub path_accessible: bool,
    pub directory_writable: bool,
    /// Seconds since the Unix epoch when the check ended.
    pub last_check: i64,
    pub check_duration_ms: u64,
    pub errors: Vec<String>,
    pub warnings: Vec<String>,
}

/// The connection counts a pool reports.
#[derive(Debug, Clone, Copy)]
pub struct DatabaseConnectionPool {
    pub max_connections: usize,
    pub active_connections: usize,
    pub total_created: usize,
    pub total_closed: usize,
    pub connection_errors: usize,
}

/// What the check of the database's directory found.
#[derive(Debug)]
pub enum DirectoryProbe {
    /// The directory was missing and has been created.
    Created,
    /// The directory was missing and could not be created.
    CreateFailed(String),
    /// A test file could be written in the directory.
    Writable,
    /// No test file could be written in the directory.
    NotWritable(String),
    /// The database path has no parent directory.
    NoParent,
}

/// What the lookup of a table or an index found.
#[derive(Debug)]
pub enum LookupOutcome {
    Found,
    Missing,
    /// The lookup itself failed.
    Failed(String),
}

/// The outcomes of the checks made over an open connection.
#[derive(Debug)]
pub struct ConnectionProbes {
    /// `SELECT 1`.
    pub read: Result<(), String>,
    /// Creating and dropping a temporary table.
    pub write: Result<(), String>,
    /// `PRAGMA foreign_keys`.
    pub foreign_keys: Result<i32, String>,
    /// `PRAGMA journal_mode`.
    pub journal_mode: Result<String, String>,
    /// Each required table with what its lookup found.
    pub tables: Vec<(String, LookupOutcome)>,
    /// Each required index with what its lookup found.
    pub indexes: Vec<(String, LookupOutcome)>,
}

/// The outcomes of the checks made once the database's path is known.
#[derive(Debug)]
pub struct PathProbes {
    pub path_accessible: bool,
    pub directory: DirectoryProbe,
    /// The checks over the connection, or why it could not be opened.
    pub connection: Result<ConnectionProbes, String>,
}

/// The outcomes of a health check.
#[derive(Debug)]
pub struct HealthProbes {
    /// The checks made at the database's path, or why the path is unknown.
    pub located: Result<PathProbes, String>,
    pub last_check: i64,
    pub check_duration_ms: u64,
}

// ---------------------------------------------------------------------------
// Model
// ---------------------------------------------------------------------------

/// `[prefix + e]` for a failed check, nothing for a passed one.
pub open spec fn failure_note(r: Result<(), String>, prefix: Seq<char>) -> Seq<Seq<char>> {
    match r {
        Ok(_) => Seq::empty(),
        Err(e) => seq![prefix + e@],
    }
}

/// Whether the directory check shows a writable directory.
pub open spec fn directory_ok(d: DirectoryProbe) -> bool {
    d is Created || d is Writable
}

/// The error the directory check reports, if any.
pub open spec fn directory_errors(d: DirectoryProbe) -> Seq<Seq<char>> {
    match d {
        DirectoryProbe::CreateFailed(e) => seq!["Cannot create database directory: "@ + e@],
        DirectoryProbe::NotWritable(e) => seq!["Directory not writable: "@ + e@],
        DirectoryProbe::NoParent => seq!["Invalid database path - no parent directory"@],
        _ => Seq::empty(),
    }
}

/// The names whose lookup found nothing.
pub open spec fn missing_names(ls: Seq<(String, LookupOutcome)>) -> Seq<Seq<char>>
    decreases ls.len(),
{
    if ls.len() == 0 {
        Seq::empty()
    } else {
        let prev = missing_names(ls.drop_last());
        if ls.last().1 is Missing {
            prev.push(ls.last().0@)
        } else {
            prev
        }
    }
}

/// `prefix + name + ": " + e` for each lookup that failed.
pub open spec fn lookup_failures(ls: Seq<(String, LookupOutcome)>, prefix: Seq<char>) -> Seq<
    Seq<char>,
>
    decreases ls.len(),
{
    if ls.len() == 0 {
        Seq::empty()
    } else {
        let prev = lookup_failures(ls.drop_last(), prefix);
        match ls.last().1 {
            LookupOutcome::Failed(e) => prev.push(prefix + ls.last().0@ + ": "@ + e@),
            _ => prev,
        }
    }
}

/// `[prefix + the names joined by ", "]` where some are missing, else nothing.
pub open spec fn missing_note(names: Seq<Seq<char>>, prefix: Seq<char>) -> Seq<Seq<char>> {
    if names.len() == 0 {
        Seq::empty()
    } else {
        seq![prefix + join(names, ", "@)]
    }
}

/// Whether foreign keys are on.
pub open spec fn foreign_keys_on(r: Result<i32, String>) -> bool {
    r matches Ok(v) && v == 1
}

/// Whether the journal is in WAL mode.
pub open spec fn wal_on(r: Result<String, String>) -> bool {
    r matches Ok(m) && lowercase(m@) == "wal"@
}

/// The warnings of the checks over a connection, in the order they arise.
pub open spec fn connection_warnings(c: ConnectionProbes) -> Seq<Seq<char>> {
    (match c.foreign_keys {
        Ok(_) => Seq::empty(),
        Err(e) => seq!["Cannot check foreign_keys setting: "@ + e@],
    }) + (match c.journal_mode {
        Ok(_) => Seq::empty(),
        Err(e) => seq!["Cannot check journal mode: "@ + e@],
    }) + missing_note(missing_names(c.tables@), "Missing tables: "@) + lookup_failures(
        c.indexes@,
        "Error checking index "@,
    ) + missing_note(missing_names(c.indexes@), "Missing indexes: "@) + (if foreign_keys_on(
        c.foreign_keys,
    ) {
        Seq::empty()
    } else {
        seq!["Foreign keys are not enabled"@]
    }) + (if wal_on(c.journal_mode) {
        Seq::empty()
    } else {
        seq!["Database is not using WAL mode"@]
    })
}

/// The errors of the checks over a connection, in the order they arise.
pub open spec fn connection_errors(c: ConnectionProbes) -> Seq<Seq<char>> {
    failure_note(c.read, "Cannot read from database: "@) + failure_note(
        c.write,
        "Cannot write to database: "@,
    ) + lookup_failures(c.tables@, "Error checking table "@)
}

/// The errors a health check reports.
pub open spec fn health_errors(p: HealthProbes) -> Seq<Seq<char>> {
    match p.located {
        Err(e) => seq!["Failed to get database path: "@ + e@],
        Ok(loc) => directory_errors(loc.directory) + match loc.connection {
            Err(e) => seq!["Cannot connect to database: "@ + e@],
            Ok(c) => connection_errors(c),
        },
    }
}

/// The warnings a health check reports.
pub open spec fn health_warnings(p: HealthProbes) -> Seq<Seq<char>> {
    match p.located {
        Err(_) => Seq::empty(),
        Ok(loc) => (if loc.path_accessible {
            Seq::empty()
        } else {
            seq!["Database file does not exist"@]
        }) + match loc.connection {
            Err(_) => Seq::empty(),
            Ok(c) => connection_warnings(c),
        },
    }
}

/// Whether a report is what a health check with outcomes `p` gives.
pub open spec fn assessed(p: HealthProbes, h: DatabaseHealth) -> bool {
    &&& string_views(h.errors@) == health_errors(p)
    &&& string_views(h.warnings@) == health_warnings(p)
    &&& h.last_check == p.last_check
    &&& h.check_duration_ms == p.check_duration_ms
    &&& match p.located {
        Err(_) => !h.is_healthy && !h.can_connect && !h.can_read && !h.can_write
            && !h.foreign_keys_enabled && !h.wal_mode && !h.tables_exist && !h.indexes_exist
            && !h.path_accessible && !h.directory_writable,
        Ok(loc) => {
            &&& h.path_accessible == loc.path_accessible
            &&& h.directory_writable == directory_ok(loc.directory)
            &&& match loc.connection {
                Err(_) => !h.is_healthy && !h.can_connect && !h.can_read && !h.can_write
                    && !h.foreign_keys_enabled && !h.wal_mode && !h.tables_exist
                    && !h.indexes_exist,
                Ok(c) => {
                    &&& h.can_connect
                    &&& h.can_read == c.read is Ok
                    &&& h.can_write == c.write is Ok
                    &&& h.foreign_keys_enabled == foreign_keys_on(c.foreign_keys)
                    &&& h.wal_mode == wal_on(c.journal_mode)
                    &&& h.tables_exist == (missing_names(c.tables@).len() == 0)
                    &&& h.indexes_exist == (missing_names(c.indexes@).len() == 0)
                    &&& h.is_healthy == (health_errors(p).len() == 0 && c.read is Ok
                        && c.write is Ok && missing_names(c.tables@).len() == 0 && directory_ok(
                        loc.directory,
                    ) && loc.path_accessible)
                },
            }
        },
    }
}

// ---------------------------------------------------------------------------
// Assessment
// ---------------------------------------------------------------------------

fn push_note(out: &mut Vec<String>, prefix: &str, e: &str)
    ensures
        string_views(final(out)@) == string_views(old(out)@).push(prefix@ + e@),
{
    let mut m = to_owned_string(prefix);
    push_str(&mut m, e);
    let ghost before = out@;
    out.push(m);
    assert(string_views(out@) =~= string_views(before).push(prefix@ + e@));
}

fn push_text(out: &mut Vec<String>, text: &str)
    ensures
        string_views(final(out)@) == string_views(old(out)@).push(text@),
{
    let m = to_owned_string(text);
    let ghost before = out@;
    out.push(m);
    assert(string_views(out@) =~= string_views(before).push(text@));
}

/// The strings of `ws` with `sep` between consecutive ones.
fn join_strings(ws: &Vec<String>, sep: &str) -> (r: String)
    ensures
        r@ == join(string_views(ws@), sep@),
{
    let mut r = String::new();
    let mut i: usize = 0;
    while i < ws.len()
        invariant
            i <= ws.len(),
            r@ == join(string_views(ws@.take(i as int)), sep@),
        decreases ws.len() - i,
    {
        let ghost prev = string_views(ws@.take(i as int));
        assert(string_views(ws@.take(i + 1)) =~= prev.push(ws@[i as int]@));
        assert(string_views(ws@.take(i + 1)).drop_last() =~= prev);
        if i > 0 {
            push_str(&mut r, sep);
        } else {
            assert(r@ =~= Seq::<char>::empty());
        }
        push_str(&mut r, ws[i].as_str());
        i = i + 1;
    }
    assert(ws@.take(i as int) =~= ws@);
    r
}

/// Goes through lookups: returns the names found missing and adds a note for
/// each failed lookup to `failures`.
fn scan_lookups(ls: &Vec<(String, LookupOutcome)>, prefix: &str, failures: &mut Vec<String>) -> (missing:
    Vec<String>)
    ensures
        string_views(missing@) == missing_names(ls@),
        string_views(final(failures)@) == string_views(old(failures)@) + lookup_failures(
            ls@,
            prefix@,
        ),
{
    let ghost start = string_views(failures@);
    let mut missing: Vec<String> = Vec::new();
    let mut i: usize = 0;
    while i < ls.len()
        invariant
            i <= ls.len(),
            string_views(missing@) == missing_names(ls@.take(i as int)),
            string_views(failures@) == start + lookup_failures(ls@.take(i as int), prefix@),
        decreases ls.len() - i,
    {
        assert(ls@.take(i + 1).drop_last() =~= ls@.take(i as int));
        assert(ls@.take(i + 1).last() == ls@[i as int]);
        let name = &ls[i].0;
        match &ls[i].1 {
            LookupOutcome::Found => {},
            LookupOutcome::Missing => {
                let ghost before = missing@;
                missing.push(to_owned_string(name.as_str()));
                assert(string_views(missing@) =~= string_views(before).push(name@));
            },
            LookupOutcome::Failed(e) => {
                let mut m = to_owned_string(prefix);
                push_str(&mut m, name.as_str());
                push_str(&mut m, ": ");
                push_str(&mut m, e.as_str());
                let ghost before = failures@;
                failures.push(m);
                assert(string_views(failures@) =~= string_views(before).push(m@));
                assert(start + lookup_failures(ls@.take(i + 1), prefix@) =~= (start
                    + lookup_failures(ls@.take(i as int), prefix@)).push(m@));
            },
        }
        i = i + 1;
    }
    assert(ls@.take(i as int) =~= ls@);
    missing
}

fn unhealthy(
    errors: Vec<String>,
    warnings: Vec<String>,
    path_accessible: bool,
    directory_writable: bool,
    last_check: i64,
    check_duration_ms: u64,
) -> (h: DatabaseHealth)
    ensures
        h.errors@ == errors@,
        h.warnings@ == warnings@,
        h.path_accessible == path_accessible,
        h.directory_writable == directory_writable,
        h.last_check == last_check,
        h.check_duration_ms == check_duration_ms,
        !h.is_healthy && !h.can_connect && !h.can_read && !h.can_write && !h.foreign_keys_enabled
            && !h.wal_mode && !h.tables_exist && !h.indexes_exist,
{
    DatabaseHealth {
        is_healthy: false,
        can_connect: false,
        can_read: false,
        can_write: false,
        foreign_keys_enabled: false,
        wal_mode: false,
        tables_exist: false,
        indexes_exist: false,
        path_accessible,
        directory_writable,
        last_check,
        check_duration_ms,
        errors,
        warnings,
    }
}

/// What the checks over a connection come to.
struct ConnectionReport {
    errors: Vec<String>,
    warnings: Vec<String>,
    can_read: bool,
    can_write: bool,
    foreign_keys_enabled: bool,
    wal_mode: bool,
    tables_exist: bool,
    indexes_exist: bool,
}

fn note_on_failure(out: &mut Vec<String>, r: &Result<(), String>, prefix: &str) -> (ok: bool)
    ensures
        ok == r is Ok,
        string_views(final(out)@) == string_views(old(out)@) + failure_note(*r, prefix@),
{
    match r {
        Ok(_) => {
            assert(string_views(out@) =~= string_views(out@) + failure_note(*r, prefix@));
            true
        },
        Err(e) => {
            push_note(out, prefix, e.as_str());
            false
        },
    }
}

fn missing_note_into(out: &mut Vec<String>, missing: &Vec<String>, prefix: &str)
    ensures
        string_views(final(out)@) == string_views(old(out)@) + missing_note(
            string_views(missing@),
            prefix@,
        ),
{
    if missing.len() > 0 {
        let joined = join_strings(missing, ", ");
        push_note(out, prefix, joined.as_str());
    } else {
        assert(string_views(out@) =~= string_views(out@) + missing_note(
            string_views(missing@),
            prefix@,
        ));
    }
}

#[verifier::rlimit(30)]
fn connection_report(c: &ConnectionProbes) -> (r: ConnectionReport)
    ensures
        string_views(r.errors@) == connection_errors(*c),
        string_views(r.warnings@) == connection_warnings(*c),
        r.can_read == c.read is Ok,
        r.can_write == c.write is Ok,
        r.foreign_keys_enabled == foreign_keys_on(c.foreign_keys),
        r.wal_mode == wal_on(c.journal_mode),
        r.tables_exist == (missing_names(c.tables@).len() == 0),
        r.indexes_exist == (missing_names(c.indexes@).len() == 0),
{
    let mut errors: Vec<String> = Vec::new();
    let mut warnings: Vec<String> = Vec::new();
    let can_read = note_on_failure(&mut errors, &c.read, "Cannot read from database: ");
    let can_write = note_on_failure(&mut errors, &c.write, "Cannot write to database: ");
    let foreign_keys_enabled = match &c.foreign_keys {
        Ok(v) => *v == 1,
        Err(e) => {
            push_note(&mut warnings, "Cannot check foreign_keys setting: ", e.as_str());
            false
        },
    };
    let wal_mode = match &c.journal_mode {
        Ok(m) => {
            let low = to_lowercase(m.as_str());
            str_eq(low.as_str(), "wal")
        },
        Err(e) => {
            push_note(&mut warnings, "Cannot check journal mode: ", e.as_str());
            false
        },
    };
    let ghost w0 = string_views(warnings@);
    let missing_tables = scan_lookups(&c.tables, "Error checking table ", &mut errors);
    missing_note_into(&mut warnings, &missing_tables, "Missing tables: ");
    let missing_indexes = scan_lookups(&c.indexes, "Error checking index ", &mut warnings);
    missing_note_into(&mut warnings, &missing_indexes, "Missing indexes: ");
    let ghost w1 = string_views(warnings@);
    if !foreign_keys_enabled {
        push_text(&mut warnings, "Foreign keys are not enabled");
    }
    if !wal_mode {
        push_text(&mut warnings, "Database is not using WAL mode");
    }
    proof {
        assert(string_views(errors@) =~= connection_errors(*c));
        assert(string_views(warnings@) =~= connection_warnings(*c));
    }
    ConnectionReport {
        errors,
        warnings,
        can_read,
        can_write,
        foreign_keys_enabled,
        wal_mode,
        tables_exist: missing_tables.len() == 0,
        indexes_exist: missing_indexes.len() == 0,
    }
}

fn append_views(a: &mut Vec<String>, b: Vec<String>)
    ensures
        string_views(final(a)@) == string_views(old(a)@) + string_views(b@),
{
    let mut b = b;
    let ghost before = a@;
    let ghost bv = b@;
    a.append(&mut b);
    assert(string_views(a@) =~= string_views(before) + string_views(bv));
}

/// The health report for the outcomes of a health check.
pub fn assess_health(p: HealthProbes) -> (h: DatabaseHealth)
    ensures
        assessed(p, h),
{
    let mut errors: Vec<String> = Vec::new();
    let mut warnings: Vec<String> = Vec::new();
    let loc = match &p.located {
        Err(e) => {
            push_note(&mut errors, "Failed to get database path: ", e.as_str());
            assert(string_views(errors@) =~= health_errors(p));
            assert(string_views(warnings@) =~= health_warnings(p));
            return unhealthy(errors, warnings, false, false, p.last_check, p.check_duration_ms);
        },
        Ok(loc) => loc,
    };
    if !loc.path_accessible {
        push_text(&mut warnings, "Database file does not exist");
    }
    let directory_writable = match &loc.directory {
        DirectoryProbe::Created => true,
        DirectoryProbe::Writable => true,
        DirectoryProbe::CreateFailed(e) => {
            push_note(&mut errors, "Cannot create database directory: ", e.as_str());
            false
        },
        DirectoryProbe::NotWritable(e) => {
            push_note(&mut errors, "Directory not writable: ", e.as_str());
            false
        },
        DirectoryProbe::NoParent => {
            push_text(&mut errors, "Invalid database path - no parent directory");
            false
        },
    };
    assert(string_views(errors@) =~= directory_errors(loc.directory));
    let c = match &loc.connection {
        Err(e) => {
            push_note(&mut errors, "Cannot connect to database: ", e.as_str());
            assert(string_views(errors@) =~= health_errors(p));
            assert(string_views(warnings@) =~= health_warnings(p));
            return unhealthy(
                errors,
                warnings,
                loc.path_accessible,
                directory_writable,
                p.last_check,
                p.check_duration_ms,
            );
        },
        Ok(c) => c,
    };
    let rep = connection_report(c);
    append_views(&mut errors, rep.errors);
    append_views(&mut warnings, rep.warnings);
    assert(string_views(errors@) =~= health_errors(p));
    assert(string_views(warnings@) =~= health_warnings(p));
    let is_healthy = errors.len() == 0 && rep.can_read && rep.can_write && rep.tables_exist
        && directory_writable && loc.path_accessible;
    DatabaseHealth {
        is_healthy,
        can_connect: true,
        can_read: rep.can_read,
        can_write: rep.can_write,
        foreign_keys_enabled: rep.foreign_keys_enabled,
        wal_mode: rep.wal_mode,
        tables_exist: rep.tables_exist,
        indexes_exist: rep.indexes_exist,
        path_accessible: loc.path_accessible,
        directory_writable,
        last_check: p.last_check,
        check_duration_ms: p.check_duration_ms,
        errors,
        warnings,
    }
}

// ---------------------------------------------------------------------------
// Schema
// ---------------------------------------------------------------------------

/// The statements that create every table and index of the database.
pub const DATABASE_SCHEMA: &'static str = "\n    -- Chat sessions table\n    CREATE TABLE IF NOT EXISTS chat_sessions (\n        id TEXT PRIMARY KEY,\n        title TEXT NOT NULL,\n        created_at TEXT NOT NULL,\n        updated_at TEXT NOT NULL,\n        model_id TEXT\n    );\n\n    -- Chat messages table\n    CREATE TABLE IF NOT EXISTS chat_messages (\n        id INTEGER PRIMARY KEY,\n        session_id TEXT NOT NULL,\n        text TEXT NOT NULL,\n        sender TEXT NOT NULL CHECK(sender IN ('user', 'assistant', 'transcription', 'system')),\n        timestamp TEXT NOT NULL,\n        is_interim INTEGER CHECK(is_interim IN (0, 1)),\n        confidence REAL,\n        source TEXT,\n        message_type TEXT,\n        FOREIGN KEY (session_id) REFERENCES chat_sessions(id) ON DELETE CASCADE\n    );\n\n    -- Message attachments table\n    CREATE TABLE IF NOT EXISTS message_attachments (\n        id TEXT PRIMARY KEY,\n        message_id INTEGER NOT NULL,\n        type TEXT NOT NULL,\n        name TEXT NOT NULL,\n        size INTEGER NOT NULL,\n        mime_type TEXT NOT NULL,\n        url TEXT,\n        base64_data TEXT,\n        thumbnail TEXT,\n        extracted_text TEXT,\n        width INTEGER,\n        height INTEGER,\n        upload_progress INTEGER,\n        upload_status TEXT,\n        error TEXT,\n        FOREIGN KEY (message_id) REFERENCES chat_messages(id) ON DELETE CASCADE\n    );\n\n    -- Thinking processes table\n    CREATE TABLE IF NOT EXISTS thinking_processes (\n        id INTEGER PRIMARY KEY,\n        message_id INTEGER NOT NULL,\n        is_visible INTEGER NOT NULL CHECK(is_visible IN (0, 1)),\n        content TEXT NOT NULL,\n        is_streaming INTEGER NOT NULL CHECK(is_streaming IN (0, 1)),\n        FOREIGN KEY (message_id) REFERENCES chat_messages(id) ON DELETE CASCADE\n    );\n\n    -- Thinking steps table\n    CREATE TABLE IF NOT EXISTS thinking_steps (\n        id TEXT PRIMARY KEY,\n        thinking_id INTEGER NOT NULL,\n        title TEXT NOT NULL,\n        content TEXT NOT NULL,\n        timestamp TEXT NOT NULL,\n        status TEXT NOT NULL,\n        FOREIGN KEY (thinking_id) REFERENCES thinking_processes(id) ON DELETE CASCADE\n    );\n\n    -- Message metadata table\n    CREATE TABLE IF NOT EXISTS message_metadata (\n        id INTEGER PRIMARY KEY,\n        message_id INTEGER NOT NULL,\n        agent_type TEXT,\n        model TEXT,\n        tokens INTEGER,\n        processing_time REAL,\n        analysis_types TEXT, -- JSON array stored as text\n        search_queries TEXT, -- JSON array stored as text\n        sources TEXT, -- JSON array stored as text\n        FOREIGN KEY (message_id) REFERENCES chat_messages(id) ON DELETE CASCADE\n    );\n\n    -- Conversation sessions table\n    CREATE TABLE IF NOT EXISTS conversation_sessions (\n        id TEXT PRIMARY KEY,\n        name TEXT NOT NULL,\n        start_time INTEGER NOT NULL,\n        end_time INTEGER,\n        is_active INTEGER NOT NULL CHECK(is_active IN (0, 1))\n    );\n\n    -- Conversation messages table\n    CREATE TABLE IF NOT EXISTS conversation_messages (\n        id TEXT PRIMARY KEY,\n        session_id TEXT NOT NULL,\n        type TEXT NOT NULL CHECK(type IN ('user', 'system')),\n        source TEXT NOT NULL CHECK(source IN ('microphone', 'loopback')),\n        content TEXT NOT NULL,\n        timestamp INTEGER NOT NULL,\n        confidence REAL,\n        FOREIGN KEY (session_id) REFERENCES conversation_sessions(id) ON DELETE CASCADE\n    );\n\n    -- Conversation insights table\n    CREATE TABLE IF NOT EXISTS conversation_insights (\n        id TEXT PRIMARY KEY,\n        session_id TEXT NOT NULL,\n        text TEXT NOT NULL,\n        timestamp INTEGER NOT NULL,\n        context_length INTEGER NOT NULL,\n        insight_type TEXT NOT NULL CHECK(insight_type IN ('insight', 'welcome', 'question', 'answer')),\n        FOREIGN KEY (session_id) REFERENCES conversation_sessions(id) ON DELETE CASCADE\n    );\n\n    -- Performance indexes for chat system\n    CREATE INDEX IF NOT EXISTS idx_chat_sessions_updated_desc ON chat_sessions(updated_at DESC);\n    CREATE INDEX IF NOT EXISTS idx_chat_messages_session_timestamp ON chat_messages(session_id, timestamp);\n    CREATE INDEX IF NOT EXISTS idx_message_attachments_message ON message_attachments(message_id);\n    CREATE INDEX IF NOT EXISTS idx_thinking_processes_message ON thinking_processes(message_id);\n    CREATE INDEX IF NOT EXISTS idx_thinking_steps_thinking ON thinking_steps(thinking_id);\n    CREATE INDEX IF NOT EXISTS idx_message_metadata_message ON message_metadata(message_id);\n\n    -- Performance indexes for conversation system\n    CREATE INDEX IF NOT EXISTS idx_conversation_sessions_active_start ON conversation_sessions(is_active, start_time DESC);\n    CREATE INDEX IF NOT EXISTS idx_conversation_messages_session_timestamp ON conversation_messages(session_id, timestamp);\n    CREATE INDEX IF NOT EXISTS idx_conversation_messages_type ON conversation_messages(type);\n    CREATE INDEX IF NOT EXISTS idx_conversation_messages_source ON conversation_messages(source);\n    CREATE INDEX IF NOT EXISTS idx_conversation_insights_session_timestamp ON conversation_insights(session_id, timestamp);\n    CREATE INDEX IF NOT EXISTS idx_conversation_insights_type ON conversation_insights(insight_type);\n    ";

/// The schema, as one batch of SQL statements.
pub fn get_database_schema() -> (s: String)
    ensures
        s@ == DATABASE_SCHEMA@,
{
    to_owned_string(DATABASE_SCHEMA)
}

/// The tables a healthy database has.
pub open spec fn required_table_names() -> Seq<Seq<char>> {
    seq![
        "chat_sessions"@,
        "chat_messages"@,
        "message_attachments"@,
        "thinking_processes"@,
        "thinking_steps"@,
        "message_metadata"@,
        "conversation_sessions"@,
        "conversation_messages"@,
        "conversation_insights"@,
    ]
}

/// The indexes a healthy database has.
pub open spec fn required_index_names() -> Seq<Seq<char>> {
    seq![
        "idx_chat_sessions_updated_desc"@,
        "idx_chat_messages_session_timestamp"@,
        "idx_conversation_sessions_active_start"@,
        "idx_conversation_messages_session_timestamp"@,
    ]
}

/// The names of the tables that a health check looks up, in order.
pub fn required_tables() -> (v: Vec<String>)
    ensures
        string_views(v@) == required_table_names(),
{
    let mut v: Vec<String> = Vec::new();
    push_text(&mut v, "chat_sessions");
    push_text(&mut v, "chat_messages");
    push_text(&mut v, "message_attachments");
    push_text(&mut v, "thinking_processes");
    push_text(&mut v, "thinking_steps");
    push_text(&mut v, "message_metadata");
    push_text(&mut v, "conversation_sessions");
    push_text(&mut v, "conversation_messages");
    push_text(&mut v, "conversation_insights");
    assert(string_views(v@) =~= required_table_names());
    v
}

/// The names of the indexes that a health check looks up, in order.
pub fn required_indexes() -> (v: Vec<String>)
    ensures
        string_views(v@) == required_index_names(),
{
    let mut v: Vec<String> = Vec::new();
    push_text(&mut v, "idx_chat_sessions_updated_desc");
    push_text(&mut v, "idx_chat_messages_session_timestamp");
    push_text(&mut v, "idx_conversation_sessions_active_start");
    push_text(&mut v, "idx_conversation_messages_session_timestamp");
    assert(string_views(v@) =~= required_index_names());
    v
}

/// A report is healthy only when it lists no error and the database can be
/// reached, read and written, has its tables, and sits in a writable directory.
pub proof fn law_healthy_report(p: HealthProbes, h: DatabaseHealth)
    requires
        assessed(p, h),
        h.is_healthy,
    ensures
        h.errors@.len() == 0,
        h.can_connect && h.can_read && h.can_write,
        h.tables_exist && h.directory_writable && h.path_accessible,
{
    assert(string_views(h.errors@).len() == h.errors@.len());
}

// ---------------------------------------------------------------------------
// Startup
// ---------------------------------------------------------------------------

/// Where the database startup stands: a first health check, an
/// initialization because that check failed, a second check after it, or done.
#[derive(Debug, Clone, Copy, PartialEq, Eq, Structural)]
pub enum StartupPhase {
    FirstCheck,
    Initializing,
    Rechecking,
    Finished,
}

/// How the database startup ended.
#[derive(Debug, Clone, Copy, PartialEq, Eq, Structural)]
pub enum StartupReport {
    /// The first check found the database healthy.
    AlreadyHealthy,
    /// The database was initialized and is healthy now.
    Repaired,
    /// The database was initialized and is still unhealthy.
    StillUnhealthy,
    /// Initializing the database failed.
    InitializationFailed,
}

/// What the startup does next.
#[derive(Debug, Clone, Copy, PartialEq, Eq, Structural)]
pub enum StartupAction {
    CheckHealth,
    InitializeDatabase,
    Stop(StartupReport),
}

/// What the last action came to: a health check found the database healthy
/// or not; an initialization succeeded or not.
#[derive(Debug, Clone, Copy, PartialEq, Eq, Structural)]
pub enum StartupEvent {
    Health(bool),
    Initialized(bool),
}

/// The next phase and action of the database startup. A healthy first check
/// ends it; an unhealthy one leads to one initialization, and a successful
/// initialization to one more check. An event that does not answer the
/// phase's action repeats that action; a finished startup stays finished.
pub open spec fn startup_next(phase: StartupPhase, event: StartupEvent) -> (StartupPhase, Option<StartupAction>) {
    match (phase, event) {
        (StartupPhase::FirstCheck, StartupEvent::Health(true)) => (
            StartupPhase::Finished,
            Some(StartupAction::Stop(StartupReport::AlreadyHealthy)),
        ),
        (StartupPhase::FirstCheck, StartupEvent::Health(false)) => (
            StartupPhase::Initializing,
            Some(StartupAction::InitializeDatabase),
        ),
        (StartupPhase::FirstCheck, StartupEvent::Initialized(_)) => (
            StartupPhase::FirstCheck,
            Some(StartupAction::CheckHealth),
        ),
        (StartupPhase::Initializing, StartupEvent::Initialized(true)) => (
            StartupPhase::Rechecking,
            Some(StartupAction::CheckHealth),
        ),
        (StartupPhase::Initializing, StartupEvent::Initialized(false)) => (
            StartupPhase::Finished,
            Some(StartupAction::Stop(StartupReport::InitializationFailed)),
        ),
        (StartupPhase::Initializing, StartupEvent::Health(_)) => (
            StartupPhase::Initializing,
            Some(StartupAction::InitializeDatabase),
        ),
        (StartupPhase::Rechecking, StartupEvent::Health(h)) => (
            StartupPhase::Finished,
            Some(StartupAction::Stop(
                if h {
                    StartupReport::Repaired
                } else {
                    StartupReport::StillUnhealthy
                },
            )),
        ),
        (StartupPhase::Rechecking, StartupEvent::Initialized(_)) => (
            StartupPhase::Rechecking,
            Some(StartupAction::CheckHealth),
        ),
        (StartupPhase::Finished, _) => (StartupPhase::Finished, None),
    }
}

/// The startup begins with a health check.
pub fn startup_begin() -> (r: (StartupPhase, StartupAction))
    ensures
        r == (StartupPhase::FirstCheck, StartupAction::CheckHealth),
{
    (StartupPhase::FirstCheck, StartupAction::CheckHealth)
}

/// The next phase and action of the database startup, given what the last
/// action came to; `None` once the startup has finished.
pub fn startup_step(phase: StartupPhase, event: StartupEvent) -> (r: (StartupPhase, Option<StartupAction>))
    ensures
        r == startup_next(phase, event),
{
    match (phase, event) {
        (StartupPhase::FirstCheck, StartupEvent::Health(true)) => (
            StartupPhase::Finished,
            Some(StartupAction::Stop(StartupReport::AlreadyHealthy)),
        ),
        (StartupPhase::FirstCheck, StartupEvent::Health(false)) => (
            StartupPhase::Initializing,
            Some(StartupAction::InitializeDatabase),
        ),
        (StartupPhase::FirstCheck, StartupEvent::Initialized(_)) => (
            StartupPhase::FirstCheck,
            Some(StartupAction::CheckHealth),
        ),
        (StartupPhase::Initializing, StartupEvent::Initialized(true)) => (
            StartupPhase::Rechecking,
            Some(StartupAction::CheckHealth),
        ),
        (StartupPhase::Initializing, StartupEvent::Initialized(false)) => (
            StartupPhase::Finished,
            Some(StartupAction::Stop(StartupReport::InitializationFailed)),
        ),
        (StartupPhase::Initializing, StartupEvent::Health(_)) => (
            StartupPhase::Initializing,
            Some(StartupAction::InitializeDatabase),
        ),
        (StartupPhase::Rechecking, StartupEvent::Health(h)) => {
            let report = if h {
                StartupReport::Repaired
            } else {
                StartupReport::StillUnhealthy
            };
            (StartupPhase::Finished, Some(StartupAction::Stop(report)))
        },
        (StartupPhase::Rechecking, StartupEvent::Initialized(_)) => (
            StartupPhase::Rechecking,
            Some(StartupAction::CheckHealth),
        ),
        (StartupPhase::Finished, _) => (StartupPhase::Finished, None),
    }
}

/// The database is initialized at most once in a startup: no phase after
/// `Initializing` asks for an initialization again.
pub proof fn law_startup_initializes_once(phase: StartupPhase, event: StartupEvent)
    requires
        phase == StartupPhase::Rechecking || phase == StartupPhase::Finished,
    ensures
        startup_next(phase, event).1 != Some(StartupAction::InitializeDatabase),
        startup_next(phase, event).0 == StartupPhase::Rechecking || startup_next(phase, event).0
            == StartupPhase::Finished,
{
}

/// A finished startup does nothing more.
pub proof fn law_startup_stays_finished(event: StartupEvent)
    ensures
        startup_next(StartupPhase::Finished, event) == (StartupPhase::Finished, None::<StartupAction>),
{
}

} // verus!
