//! A bounded in-memory log of database operations.

use vstd::prelude::*;
use crate::clock::unix_timestamp_millis_now;
use crate::text::{decimal, push_str, to_owned_string, u64_to_decimal};

verus! {

/// `serde_json::Value`, carried opaquely as structured details.
#[verifier::external_type_specification]
#[verifier::external_body]
pub struct ExJsonValue(serde_json::Value);

/// `std::time::Instant`, carried opaquely.
#[verifier::external_type_specification]
#[verifier::external_body]
pub struct ExInstant(std::time::Instant);

/// A copy of a JSON value (`Clone::clone`, which `serde_json` derives).
#[verifier::external_body]
fn clone_json(v: &serde_json::Value) -> (r: serde_json::Value)
    ensures
        r == *v,
{
    v.clone()
}

/// Milliseconds elapsed since `start` (`Instant::elapsed().as_millis()`, truncated to `u64`).
/// The value depends on the time of the call; nothing is promised of it.
#[verifier::external_body]
fn elapsed_millis(start: &std::time::Instant) -> u64 {
    start.elapsed().as_millis() as u64
}

/// The severity of a log entry, from least to most severe.
#[derive(Debug, Clone, Copy, PartialEq, Eq, Structural)]
pub enum LogLevel {
    Trace,
    Debug,
    Info,
    Warn,
    Error,
    Critical,
}

/// The rank of a level: `Trace` 0 up to `Critical` 5.
pub open spec fn level_priority(l: LogLevel) -> nat {
    match l {
        LogLevel::Trace => 0,
        LogLevel::Debug => 1,
        LogLevel::Info => 2,
        LogLevel::Warn => 3,
        LogLevel::Error => 4,
        LogLevel::Critical => 5,
    }
}

/// The rank of a level: `Trace` 0 up to `Critical` 5.
pub fn priority(l: LogLevel) -> (p: u8)
    ensures
        p == level_priority(l),
{
    match l {
        LogLevel::Trace => 0,
        LogLevel::Debug => 1,
        LogLevel::Info => 2,
        LogLevel::Warn => 3,
        LogLevel::Error => 4,
        LogLevel::Critical => 5,
    }
}

/// One logged event.
#[derive(Debug)]
pub struct LogEntry {
    pub level: LogLevel,
    /// Milliseconds since the Unix epoch.
    pub timestamp: i64,
    pub operation: String,
    pub message: String,
    pub details: Option<serde_json::Value>,
    pub duration_ms: Option<u64>,
    pub session_id: Option<String>,
    pub user_id: Option<String>,
    pub thread_id: Option<String>,
}

/// A copy of an optional string.
fn clone_opt_string(s: &Option<String>) -> (r: Option<String>)
    ensures
        r == *s,
{
    match s {
        Some(x) => Some(x.clone()),
        None => None,
    }
}

impl LogEntry {
    /// A new entry stamped with the current time, tagged with the calling thread.
    pub fn new(level: LogLevel, operation: String, message: String, thread_id: Option<String>) -> (e: Self)
        ensures
            e.level == level,
            e.operation == operation,
            e.message == message,
            e.details is None,
            e.duration_ms is None,
            e.session_id is None,
            e.user_id is None,
            e.thread_id == thread_id,
    {
        LogEntry {
            level,
            timestamp: unix_timestamp_millis_now(),
            operation,
            message,
            details: None,
            duration_ms: None,
            session_id: None,
            user_id: None,
            thread_id,
        }
    }

    /// The same entry with structured details.
    pub fn with_details(self, details: serde_json::Value) -> (e: Self)
        ensures
            e == (LogEntry { details: Some(details), ..self }),
    {
        let mut e = self;
        e.details = Some(details);
        e
    }

    /// The same entry with the time elapsed since `start_time` as its duration.
    pub fn with_duration(self, start_time: std::time::Instant) -> (e: Self)
        ensures
            e.duration_ms is Some,
            e == (LogEntry { duration_ms: e.duration_ms, ..self }),
    {
        let mut e = self;
        e.duration_ms = Some(elapsed_millis(&start_time));
        e
    }

    /// The same entry attributed to a session.
    pub fn with_session(self, session_id: String) -> (e: Self)
        ensures
            e == (LogEntry { session_id: Some(session_id), ..self }),
    {
        let mut e = self;
        e.session_id = Some(session_id);
        e
    }

    /// The same entry attributed to a user.
    pub fn with_user(self, user_id: String) -> (e: Self)
        ensures
            e == (LogEntry { user_id: Some(user_id), ..self }),
    {
        let mut e = self;
        e.user_id = Some(user_id);
        e
    }

    /// An identical copy of the entry.
    pub fn duplicate(&self) -> (e: Self)
        ensures
            e == *self,
    {
        LogEntry {
            level: self.level,
            timestamp: self.timestamp,
            operation: self.operation.clone(),
            message: self.message.clone(),
            details: match &self.details {
                Some(d) => Some(clone_json(d)),
                None => None,
            },
            duration_ms: self.duration_ms,
            session_id: clone_opt_string(&self.session_id),
            user_id: clone_opt_string(&self.user_id),
            thread_id: clone_opt_string(&self.thread_id),
        }
    }
}

/// The symbol that opens a console line for a level.
pub open spec fn level_symbol(l: LogLevel) -> Seq<char> {
    match l {
        LogLevel::Trace => "🔍"@,
        LogLevel::Debug => "🐛"@,
        LogLevel::Info => "ℹ️"@,
        LogLevel::Warn => "⚠️"@,
        LogLevel::Error => "❌"@,
        LogLevel::Critical => "🚨"@,
    }
}

/// The console line for an entry:
/// `<symbol> [<operation>][ [<session>]][ (<n>ms)]: <message>`.
pub open spec fn console_line_spec(e: LogEntry) -> Seq<char> {
    level_symbol(e.level) + " ["@ + e.operation@ + "]"@ + match e.session_id {
        Some(s) => " ["@ + s@ + "]"@,
        None => Seq::<char>::empty(),
    } + match e.duration_ms {
        Some(d) => " ("@ + decimal(d as nat) + "ms)"@,
        None => Seq::<char>::empty(),
    } + ": "@ + e.message@
}

/// The line printed to the console for an entry.
pub fn console_line(e: &LogEntry) -> (s: String)
    ensures
        s@ == console_line_spec(*e),
{
    let symbol: &str = match e.level {
        LogLevel::Trace => "🔍",
        LogLevel::Debug => "🐛",
        LogLevel::Info => "ℹ️",
        LogLevel::Warn => "⚠️",
        LogLevel::Error => "❌",
        LogLevel::Critical => "🚨",
    };
    let mut s = to_owned_string(symbol);
    push_str(&mut s, " [");
    push_str(&mut s, e.operation.as_str());
    push_str(&mut s, "]");
    let ghost after_op = s@;
    match &e.session_id {
        Some(sid) => {
            push_str(&mut s, " [");
            push_str(&mut s, sid.as_str());
            push_str(&mut s, "]");
        },
        None => {},
    }
    let ghost after_session = s@;
    match e.duration_ms {
        Some(d) => {
            push_str(&mut s, " (");
            let ds = u64_to_decimal(d);
            push_str(&mut s, ds.as_str());
            push_str(&mut s, "ms)");
        },
        None => {},
    }
    push_str(&mut s, ": ");
    push_str(&mut s, e.message.as_str());
    assert(s@ =~= console_line_spec(*e));
    s
}

/// Counts of logged entries per level, with the oldest and newest timestamps.
#[derive(Debug)]
pub struct LogStats {
    pub total_logs: usize,
    pub trace_count: usize,
    pub debug_count: usize,
    pub info_count: usize,
    pub warn_count: usize,
    pub error_count: usize,
    pub critical_count: usize,
    pub oldest_log_timestamp: Option<i64>,
    pub newest_log_timestamp: Option<i64>,
}

/// The last `n` elements of `s` (all of them when there are fewer).
pub open spec fn keep_last<A>(s: Seq<A>, n: nat) -> Seq<A> {
    if s.len() > n {
        s.skip(s.len() - n)
    } else {
        s
    }
}

/// How many entries of `s` have level `l`.
pub open spec fn count_level(s: Seq<LogEntry>, l: LogLevel) -> nat
    decreases s.len(),
{
    if s.len() == 0 {
        0
    } else {
        count_level(s.drop_last(), l) + if s.last().level == l { 1nat } else { 0nat }
    }
}

/// Whether `after` is `before` with a new entry of this level, operation,
/// message and thread appended and the oldest beyond `cap` dropped.
pub open spec fn message_logged(
    before: Seq<LogEntry>,
    after: Seq<LogEntry>,
    cap: nat,
    level: LogLevel,
    operation: String,
    message: String,
    thread_id: Option<String>,
) -> bool {
    exists|e: LogEntry|
        #![trigger before.push(e)]
        e.level == level && e.operation == operation && e.message == message && e.details is None
            && e.duration_ms is None && e.session_id is None && e.user_id is None && e.thread_id
            == thread_id && after == keep_last(before.push(e), cap)
}

/// A log that keeps the most recent `max_logs` entries at or above `min_level`.
#[derive(Debug)]
pub struct DatabaseLogger {
    logs: Vec<LogEntry>,
    max_logs: usize,
    min_level: LogLevel,
}

impl DatabaseLogger {
    /// The entries held, oldest first.
    pub closed spec fn entries(&self) -> Seq<LogEntry> {
        self.logs@
    }

    /// The number of entries kept.
    pub closed spec fn capacity(&self) -> nat {
        self.max_logs as nat
    }

    /// The least severe level that is recorded.
    pub closed spec fn threshold(&self) -> LogLevel {
        self.min_level
    }

    /// The log never holds more entries than its capacity.
    pub closed spec fn wf(&self) -> bool {
        self.logs@.len() <= self.max_logs
    }

    /// An empty log.
    pub fn new(max_logs: usize, min_level: LogLevel) -> (l: Self)
        ensures
            l.wf(),
            l.entries() == Seq::<LogEntry>::empty(),
            l.capacity() == max_logs,
            l.threshold() == min_level,
    {
        DatabaseLogger { logs: Vec::new(), max_logs, min_level }
    }

    /// Whether entries of `level` are recorded.
    pub fn should_log(&self, level: &LogLevel) -> (b: bool)
        ensures
            b == (level_priority(*level) >= level_priority(self.threshold())),
    {
        priority(*level) >= priority(self.min_level)
    }

    /// Records `entry` if its level is recorded, dropping the oldest entries beyond
    /// the capacity; tells whether it was recorded.
    pub fn log(&mut self, entry: LogEntry) -> (recorded: bool)
        requires
            old(self).wf(),
        ensures
            final(self).wf(),
            final(self).capacity() == old(self).capacity(),
            final(self).threshold() == old(self).threshold(),
            recorded == (level_priority(entry.level) >= level_priority(old(self).threshold())),
            recorded ==> final(self).entries() == keep_last(
                old(self).entries().push(entry),
                old(self).capacity(),
            ),
            !recorded ==> final(self).entries() == old(self).entries(),
    {
        if !self.should_log(&entry.level) {
            return false;
        }
        let ghost pushed = self.logs@.push(entry);
        self.logs.push(entry);
        let ghost mut dropped: nat = 0;
        while self.logs.len() > self.max_logs
            invariant
                self.max_logs == old(self).max_logs,
                self.min_level == old(self).min_level,
                self.logs@ == pushed.skip(dropped as int),
                dropped <= pushed.len(),
                pushed.len() <= self.max_logs + 1,
                dropped <= 1,
                dropped == 1 ==> pushed.len() > self.max_logs,
                self.logs@.len() > self.max_logs ==> dropped == 0,
            decreases self.logs.len(),
        {
            self.logs.remove(0);
            proof {
                dropped = dropped + 1;
            }
            assert(self.logs@ =~= pushed.skip(dropped as int));
        }
        assert(pushed.skip(0) == pushed);
        assert(self.logs@ =~= keep_last(pushed, self.max_logs as nat));
        true
    }

    /// The last `last_n` entries, or all of them, oldest first.
    pub fn get_logs(&self, last_n: Option<usize>) -> (r: Vec<LogEntry>)
        ensures
            r@ == match last_n {
                Some(n) => keep_last(self.entries(), n as nat),
                None => self.entries(),
            },
    {
        let start: usize = match last_n {
            Some(n) => if self.logs.len() > n { self.logs.len() - n } else { 0 },
            None => 0,
        };
        let mut r: Vec<LogEntry> = Vec::new();
        let mut i: usize = start;
        while i < self.logs.len()
            invariant
                start <= i <= self.logs.len(),
                r@ == self.logs@.subrange(start as int, i as int),
            decreases self.logs.len() - i,
        {
            r.push(self.logs[i].duplicate());
            assert(self.logs@.subrange(start as int, i + 1) == self.logs@.subrange(
                start as int,
                i as int,
            ).push(self.logs@[i as int]));
            i = i + 1;
        }
        assert(self.logs@.subrange(0, self.logs@.len() as int) == self.logs@);
        r
    }

    /// The entries of `operation`, oldest first.
    pub fn get_logs_by_operation(&self, operation: &str) -> (r: Vec<LogEntry>)
        ensures
            r@ == self.entries().filter(|e: LogEntry| e.operation@ == operation@),
    {
        let ghost f = |e: LogEntry| e.operation@ == operation@;
        let mut r: Vec<LogEntry> = Vec::new();
        let mut i: usize = 0;
        while i < self.logs.len()
            invariant
                i <= self.logs.len(),
                f == (|e: LogEntry| e.operation@ == operation@),
                r@ == self.logs@.take(i as int).filter(f),
            decreases self.logs.len() - i,
        {
            proof {
                reveal_with_fuel(Seq::filter, 1);
                assert(self.logs@.take(i + 1).drop_last() == self.logs@.take(i as int));
                assert(self.logs@.take(i + 1).last() == self.logs@[i as int]);
            }
            if crate::text::str_eq(self.logs[i].operation.as_str(), operation) {
                r.push(self.logs[i].duplicate());
                assert(f(self.logs@[i as int]));
            } else {
                assert(!f(self.logs@[i as int]));
            }
            assert(r@ == self.logs@.take(i + 1).filter(f));
            i = i + 1;
        }
        assert(self.logs@.take(self.logs@.len() as int) == self.logs@);
        r
    }

    /// The entries of level `level`, oldest first.
    pub fn get_logs_by_level(&self, level: LogLevel) -> (r: Vec<LogEntry>)
        ensures
            r@ == self.entries().filter(|e: LogEntry| e.level == level),
    {
        let ghost f = |e: LogEntry| e.level == level;
        let mut r: Vec<LogEntry> = Vec::new();
        let mut i: usize = 0;
        while i < self.logs.len()
            invariant
                i <= self.logs.len(),
                f == (|e: LogEntry| e.level == level),
                r@ == self.logs@.take(i as int).filter(f),
            decreases self.logs.len() - i,
        {
            proof {
                reveal_with_fuel(Seq::filter, 1);
                assert(self.logs@.take(i + 1).drop_last() == self.logs@.take(i as int));
                assert(self.logs@.take(i + 1).last() == self.logs@[i as int]);
            }
            if self.logs[i].level == level {
                r.push(self.logs[i].duplicate());
                assert(f(self.logs@[i as int]));
            } else {
                assert(!f(self.logs@[i as int]));
            }
            assert(r@ == self.logs@.take(i + 1).filter(f));
            i = i + 1;
        }
        assert(self.logs@.take(self.logs@.len() as int) == self.logs@);
        r
    }

    /// Records a new entry of `level` for an operation where that level is
    /// recorded; tells whether it was.
    pub fn log_message(&mut self, level: LogLevel, operation: String, message: String, thread_id: Option<String>) -> (recorded: bool)
        requires
            old(self).wf(),
        ensures
            final(self).wf(),
            final(self).capacity() == old(self).capacity(),
            final(self).threshold() == old(self).threshold(),
            recorded == (level_priority(level) >= level_priority(old(self).threshold())),
            recorded ==> message_logged(
                old(self).entries(),
                final(self).entries(),
                old(self).capacity(),
                level,
                operation,
                message,
                thread_id,
            ),
            !recorded ==> final(self).entries() == old(self).entries(),
    {
        let e = LogEntry::new(level, operation, message, thread_id);
        let ghost eg = e;
        let r = self.log(e);
        proof {
            if r {
                assert(old(self).entries().push(eg) == old(self).entries().push(eg));
            }
        }
        r
    }

    /// Records a `Trace` entry (see `log_message`).
    pub fn trace(&mut self, operation: String, message: String, thread_id: Option<String>) -> (recorded: bool)
        requires
            old(self).wf(),
        ensures
            final(self).wf(),
            final(self).capacity() == old(self).capacity(),
            final(self).threshold() == old(self).threshold(),
            recorded == (level_priority(LogLevel::Trace) >= level_priority(old(self).threshold())),
            recorded ==> message_logged(old(self).entries(), final(self).entries(), old(self).capacity(), LogLevel::Trace, operation, message, thread_id),
            !recorded ==> final(self).entries() == old(self).entries(),
    {
        self.log_message(LogLevel::Trace, operation, message, thread_id)
    }

    /// Records a `Debug` entry (see `log_message`).
    pub fn debug(&mut self, operation: String, message: String, thread_id: Option<String>) -> (recorded: bool)
        requires
            old(self).wf(),
        ensures
            final(self).wf(),
            final(self).capacity() == old(self).capacity(),
            final(self).threshold() == old(self).threshold(),
            recorded == (level_priority(LogLevel::Debug) >= level_priority(old(self).threshold())),
            recorded ==> message_logged(old(self).entries(), final(self).entries(), old(self).capacity(), LogLevel::Debug, operation, message, thread_id),
            !recorded ==> final(self).entries() == old(self).entries(),
    {
        self.log_message(LogLevel::Debug, operation, message, thread_id)
    }

    /// Records an `Info` entry (see `log_message`).
    pub fn info(&mut self, operation: String, message: String, thread_id: Option<String>) -> (recorded: bool)
        requires
            old(self).wf(),
        ensures
            final(self).wf(),
            final(self).capacity() == old(self).capacity(),
            final(self).threshold() == old(self).threshold(),
            recorded == (level_priority(LogLevel::Info) >= level_priority(old(self).threshold())),
            recorded ==> message_logged(old(self).entries(), final(self).entries(), old(self).capacity(), LogLevel::Info, operation, message, thread_id),
            !recorded ==> final(self).entries() == old(self).entries(),
    {
        self.log_message(LogLevel::Info, operation, message, thread_id)
    }

    /// Records a `Warn` entry (see `log_message`).
    pub fn warn(&mut self, operation: String, message: String, thread_id: Option<String>) -> (recorded: bool)
        requires
            old(self).wf(),
        ensures
            final(self).wf(),
            final(self).capacity() == old(self).capacity(),
            final(self).threshold() == old(self).threshold(),
            recorded == (level_priority(LogLevel::Warn) >= level_priority(old(self).threshold())),
            recorded ==> message_logged(old(self).entries(), final(self).entries(), old(self).capacity(), LogLevel::Warn, operation, message, thread_id),
            !recorded ==> final(self).entries() == old(self).entries(),
    {
        self.log_message(LogLevel::Warn, operation, message, thread_id)
    }

    /// Records an `Error` entry (see `log_message`).
    pub fn error(&mut self, operation: String, message: String, thread_id: Option<String>) -> (recorded: bool)
        requires
            old(self).wf(),
        ensures
            final(self).wf(),
            final(self).capacity() == old(self).capacity(),
            final(self).threshold() == old(self).threshold(),
            recorded == (level_priority(LogLevel::Error) >= level_priority(old(self).threshold())),
            recorded ==> message_logged(old(self).entries(), final(self).entries(), old(self).capacity(), LogLevel::Error, operation, message, thread_id),
            !recorded ==> final(self).entries() == old(self).entries(),
    {
        self.log_message(LogLevel::Error, operation, message, thread_id)
    }

    /// Records a `Critical` entry (see `log_message`).
    pub fn critical(&mut self, operation: String, message: String, thread_id: Option<String>) -> (recorded: bool)
        requires
            old(self).wf(),
        ensures
            final(self).wf(),
            final(self).capacity() == old(self).capacity(),
            final(self).threshold() == old(self).threshold(),
            recorded == (level_priority(LogLevel::Critical) >= level_priority(old(self).threshold())),
            recorded ==> message_logged(old(self).entries(), final(self).entries(), old(self).capacity(), LogLevel::Critical, operation, message, thread_id),
            !recorded ==> final(self).entries() == old(self).entries(),
    {
        self.log_message(LogLevel::Critical, operation, message, thread_id)
    }

    /// Forgets every entry.
    pub fn clear_logs(&mut self)
        requires
            old(self).wf(),
        ensures
            final(self).wf(),
            final(self).entries() == Seq::<LogEntry>::empty(),
            final(self).capacity() == old(self).capacity(),
            final(self).threshold() == old(self).threshold(),
    {
        self.logs.clear();
    }

    /// Counts per level and the oldest and newest timestamps.
    pub fn get_stats(&self) -> (st: LogStats)
        ensures
            st.total_logs == self.entries().len(),
            st.trace_count == count_level(self.entries(), LogLevel::Trace),
            st.debug_count == count_level(self.entries(), LogLevel::Debug),
            st.info_count == count_level(self.entries(), LogLevel::Info),
            st.warn_count == count_level(self.entries(), LogLevel::Warn),
            st.error_count == count_level(self.entries(), LogLevel::Error),
            st.critical_count == count_level(self.entries(), LogLevel::Critical),
            st.oldest_log_timestamp == if self.entries().len() > 0 {
                Some(self.entries()[0].timestamp)
            } else {
                None
            },
            st.newest_log_timestamp == if self.entries().len() > 0 {
                Some(self.entries().last().timestamp)
            } else {
                None
            },
    {
        let mut counts: [usize; 6] = [0, 0, 0, 0, 0, 0];
        let mut i: usize = 0;
        while i < self.logs.len()
            invariant
                i <= self.logs.len(),
                counts@.len() == 6,
                counts@[0] == count_level(self.logs@.take(i as int), LogLevel::Trace),
                counts@[1] == count_level(self.logs@.take(i as int), LogLevel::Debug),
                counts@[2] == count_level(self.logs@.take(i as int), LogLevel::Info),
                counts@[3] == count_level(self.logs@.take(i as int), LogLevel::Warn),
                counts@[4] == count_level(self.logs@.take(i as int), LogLevel::Error),
                counts@[5] == count_level(self.logs@.take(i as int), LogLevel::Critical),
                forall|k: int| 0 <= k < 6 ==> counts@[k] <= i,
            decreases self.logs.len() - i,
        {
            assert(self.logs@.take(i + 1).drop_last() == self.logs@.take(i as int));
            let idx: usize = match self.logs[i].level {
                LogLevel::Trace => 0,
                LogLevel::Debug => 1,
                LogLevel::Info => 2,
                LogLevel::Warn => 3,
                LogLevel::Error => 4,
                LogLevel::Critical => 5,
            };
            let c: usize = counts[idx];
            counts[idx] = c + 1;
            i = i + 1;
        }
        assert(self.logs@.take(self.logs@.len() as int) == self.logs@);
        let n: usize = self.logs.len();
        LogStats {
            total_logs: n,
            trace_count: counts[0],
            debug_count: counts[1],
            info_count: counts[2],
            warn_count: counts[3],
            error_count: counts[4],
            critical_count: counts[5],
            oldest_log_timestamp: if n > 0 { Some(self.logs[0].timestamp) } else { None },
            newest_log_timestamp: if n > 0 { Some(self.logs[n - 1].timestamp) } else { None },
        }
    }
}

/// A log never keeps more entries than its capacity; after an entry is
/// recorded it is the newest one kept (for a positive capacity), and the
/// entries kept are the newest of those recorded, in order.
pub proof fn law_log_keeps_newest(s: Seq<LogEntry>, e: LogEntry, cap: nat)
    ensures
        keep_last(s.push(e), cap).len() <= cap,
        cap > 0 ==> keep_last(s.push(e), cap).last() == e,
        keep_last(s.push(e), cap) == s.push(e).skip(s.push(e).len() - keep_last(s.push(e), cap).len()),
{
    let p = s.push(e);
    if p.len() > cap {
        assert(p.skip(p.len() - cap).len() == cap);
    } else {
        assert(p.skip(0) =~= p);
    }
}

} // verus!
