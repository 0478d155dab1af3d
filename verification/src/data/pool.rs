//! The bookkeeping of a pool of database connections: which idle connections
//! may be lent again, when connections are closed, and the counters kept.
//!
//! The pool holds connections of any type `C` and never talks to the database
//! itself: the caller opens connections, tests them and closes them, and tells
//! the pool what happened. Times are milliseconds on a monotonic clock.

use vstd::prelude::*;
use crate::data::errors::{DatabaseError, DatabaseErrorType};
use crate::text::{push_str, to_owned_string};

verus! {

/// The limits of a pool.
#[derive(Debug, Clone, Copy)]
pub struct ConnectionPoolConfig {
    pub max_connections: usize,
    pub max_connection_age_ms: u64,
    pub idle_timeout_ms: u64,
    pub connection_timeout_ms: u64,
    pub cleanup_interval_ms: u64,
}

impl Default for ConnectionPoolConfig {
    /// Ten connections, each closed after an hour or five idle minutes; a
    /// thirty-second connection timeout; a cleanup each minute.
    fn default() -> (c: Self)
        ensures
            c.max_connections == 10,
            c.max_connection_age_ms == 3_600_000,
            c.idle_timeout_ms == 300_000,
            c.connection_timeout_ms == 30_000,
            c.cleanup_interval_ms == 60_000,
    {
        ConnectionPoolConfig {
            max_connections: 10,
            max_connection_age_ms: 3_600_000,
            idle_timeout_ms: 300_000,
            connection_timeout_ms: 30_000,
            cleanup_interval_ms: 60_000,
        }
    }
}

/// The counters of a pool.
#[derive(Debug, Clone, Copy, PartialEq, Eq, Structural)]
pub struct ConnectionPoolStats {
    pub active_connections: usize,
    pub total_created: u64,
    pub total_closed: u64,
    pub total_borrowed: u64,
    pub total_returned: u64,
    pub connection_errors: u64,
    pub cleanup_runs: u64,
}

impl Default for ConnectionPoolStats {
    /// All counters at zero.
    fn default() -> (s: Self)
        ensures
            s == (ConnectionPoolStats {
                active_connections: 0,
                total_created: 0,
                total_closed: 0,
                total_borrowed: 0,
                total_returned: 0,
                connection_errors: 0,
                cleanup_runs: 0,
            }),
    {
        ConnectionPoolStats {
            active_connections: 0,
            total_created: 0,
            total_closed: 0,
            total_borrowed: 0,
            total_returned: 0,
            connection_errors: 0,
            cleanup_runs: 0,
        }
    }
}

/// A connection with the times it was opened and last lent.
#[derive(Debug)]
pub struct PooledConnection<C> {
    pub connection: C,
    pub created_at_ms: u64,
    pub last_used_ms: u64,
    pub use_count: u64,
}

/// `now - then`, or zero where `then` is later.
pub open spec fn since(now: u64, then: u64) -> int {
    if now >= then {
        now - then
    } else {
        0
    }
}

/// Whether a connection opened at `created` is older than `max_age` at `now`.
pub open spec fn expired(created: u64, now: u64, max_age: u64) -> bool {
    since(now, created) > max_age
}

/// Whether a connection last lent at `last_used` has been idle longer than `timeout`.
pub open spec fn idle_too_long(last_used: u64, now: u64, timeout: u64) -> bool {
    since(now, last_used) > timeout
}

/// Whether an idle connection may be lent again at `now`.
pub open spec fn fresh<C>(c: PooledConnection<C>, now: u64, cfg: ConnectionPoolConfig) -> bool {
    !expired(c.created_at_ms, now, cfg.max_connection_age_ms) && !idle_too_long(
        c.last_used_ms,
        now,
        cfg.idle_timeout_ms,
    )
}

impl<C> PooledConnection<C> {
    /// A connection opened at `now_ms`, not lent yet.
    pub fn new(connection: C, now_ms: u64) -> (p: Self)
        ensures
            p.connection == connection,
            p.created_at_ms == now_ms,
            p.last_used_ms == now_ms,
            p.use_count == 0,
    {
        PooledConnection { connection, created_at_ms: now_ms, last_used_ms: now_ms, use_count: 0 }
    }

    /// Notes that the connection is lent at `now_ms`.
    pub fn mark_used(&mut self, now_ms: u64)
        requires
            old(self).use_count < u64::MAX,
        ensures
            final(self).connection == old(self).connection,
            final(self).created_at_ms == old(self).created_at_ms,
            final(self).last_used_ms == now_ms,
            final(self).use_count == old(self).use_count + 1,
    {
        self.last_used_ms = now_ms;
        self.use_count = self.use_count + 1;
    }

    /// Whether the connection is older than `max_age_ms` at `now_ms`.
    pub fn is_expired(&self, now_ms: u64, max_age_ms: u64) -> (b: bool)
        ensures
            b == expired(self.created_at_ms, now_ms, max_age_ms),
    {
        now_ms.saturating_sub(self.created_at_ms) > max_age_ms
    }

    /// Whether the connection has been idle longer than `timeout_ms` at `now_ms`.
    pub fn is_idle(&self, now_ms: u64, timeout_ms: u64) -> (b: bool)
        ensures
            b == idle_too_long(self.last_used_ms, now_ms, timeout_ms),
    {
        now_ms.saturating_sub(self.last_used_ms) > timeout_ms
    }
}

/// A pool of idle connections with its counters.
pub struct ConnectionPool<C> {
    idle: Vec<PooledConnection<C>>,
    config: ConnectionPoolConfig,
    stats: ConnectionPoolStats,
    last_cleanup_ms: u64,
}

/// `n - 1`, or zero.
pub open spec fn dec(n: usize) -> usize {
    if n > 0 {
        (n - 1) as usize
    } else {
        0
    }
}

/// `n - k`, or zero.
pub open spec fn dec_by(n: usize, k: nat) -> usize {
    if n >= k {
        (n - k) as usize
    } else {
        0
    }
}

/// The idle connections that may be lent again at `now`, in order.
pub open spec fn fresh_only<C>(v: Seq<PooledConnection<C>>, now: u64, cfg: ConnectionPoolConfig) -> Seq<
    PooledConnection<C>,
> {
    v.filter(|c: PooledConnection<C>| fresh(c, now, cfg))
}

/// The idle connections that may not be lent again at `now`.
pub open spec fn stale_count<C>(v: Seq<PooledConnection<C>>, now: u64, cfg: ConnectionPoolConfig) -> nat
    decreases v.len(),
{
    if v.len() == 0 {
        0
    } else {
        stale_count(v.drop_last(), now, cfg) + if fresh(v.last(), now, cfg) {
            0nat
        } else {
            1nat
        }
    }
}

/// The default limits.
pub open spec fn default_pool_config() -> ConnectionPoolConfig {
    ConnectionPoolConfig {
        max_connections: 10,
        max_connection_age_ms: 3_600_000,
        idle_timeout_ms: 300_000,
        connection_timeout_ms: 30_000,
        cleanup_interval_ms: 60_000,
    }
}

/// All counters at zero.
pub open spec fn zero_stats() -> ConnectionPoolStats {
    ConnectionPoolStats {
        active_connections: 0,
        total_created: 0,
        total_closed: 0,
        total_borrowed: 0,
        total_returned: 0,
        connection_errors: 0,
        cleanup_runs: 0,
    }
}

/// What taking a candidate did: the `k` connections at the front were stale
/// and were closed and counted; then either the next one, which may be lent,
/// was taken, or the pool ran empty.
pub open spec fn candidate_taken<C>(
    before: ConnectionPool<C>,
    after: ConnectionPool<C>,
    r: Option<PooledConnection<C>>,
    now: u64,
) -> bool {
    let k = before.idle().len() - after.idle().len() - if r is Some {
        1int
    } else {
        0int
    };
    let s = before.stats();
    &&& 0 <= k
    &&& after.stats() == (ConnectionPoolStats {
        total_closed: (s.total_closed + k) as u64,
        active_connections: dec_by(s.active_connections, k as nat),
        ..s
    })
    &&& forall|q: int| 0 <= q < k ==> !fresh(#[trigger] before.idle()[q], now, before.config())
    &&& match r {
        Some(c) => {
            &&& c == before.idle()[k]
            &&& fresh(c, now, before.config())
            &&& after.idle() == before.idle().skip(k + 1)
        },
        None => after.idle().len() == 0,
    }
}

impl<C> ConnectionPool<C> {
    /// The idle connections, oldest return first.
    pub closed spec fn idle(&self) -> Seq<PooledConnection<C>> {
        self.idle@
    }

    /// The limits.
    pub closed spec fn config(&self) -> ConnectionPoolConfig {
        self.config
    }

    /// The counters.
    pub closed spec fn stats(&self) -> ConnectionPoolStats {
        self.stats
    }

    /// When the pool was last cleaned up.
    pub closed spec fn last_cleanup(&self) -> u64 {
        self.last_cleanup_ms
    }

    /// The pool never holds more idle connections than its limit.
    pub open spec fn wf(&self) -> bool {
        self.idle().len() <= self.config().max_connections
    }

    /// Whether no counter can overflow in one operation: each has room for the
    /// pool's idle connections and one more.
    pub open spec fn has_room(&self) -> bool {
        let s = self.stats();
        let n = self.idle().len();
        &&& s.total_created + 1 <= u64::MAX
        &&& s.total_closed + n + 1 <= u64::MAX
        &&& s.total_borrowed + 1 <= u64::MAX
        &&& s.total_returned + 1 <= u64::MAX
        &&& s.connection_errors + 1 <= u64::MAX
        &&& s.cleanup_runs + 1 <= u64::MAX
        &&& s.active_connections + 1 <= usize::MAX
    }

    /// An empty pool with the given limits (the default ones where `None`),
    /// last cleaned up at `now_ms`.
    pub fn new(config: Option<ConnectionPoolConfig>, now_ms: u64) -> (p: Self)
        ensures
            p.wf(),
            p.idle().len() == 0,
            p.config() == match config {
                Some(c) => c,
                None => default_pool_config(),
            },
            p.stats() == zero_stats(),
            p.last_cleanup() == now_ms,
    {
        let config = match config {
            Some(c) => c,
            None => ConnectionPoolConfig::default(),
        };
        ConnectionPool {
            idle: Vec::new(),
            config,
            stats: ConnectionPoolStats::default(),
            last_cleanup_ms: now_ms,
        }
    }

    /// Takes idle connections from the front until one may be lent again at
    /// `now_ms`, closing (and counting) each that may not; returns that one, or
    /// `None` once the pool is empty. The caller tests the connection and then
    /// calls `accept` or `reject`.
    pub fn take_candidate(&mut self, now_ms: u64) -> (r: Option<PooledConnection<C>>)
        requires
            old(self).wf(),
            old(self).has_room(),
        ensures
            final(self).wf(),
            final(self).has_room(),
            final(self).config() == old(self).config(),
            final(self).last_cleanup() == old(self).last_cleanup(),
            candidate_taken(*old(self), *final(self), r, now_ms),
    {
        let ghost orig = self.idle@;
        let ghost s0 = self.stats;
        let mut k: usize = 0;
        while self.idle.len() > 0
            invariant
                k <= orig.len(),
                self.idle@ == orig.skip(k as int),
                self.config == old(self).config,
                self.last_cleanup_ms == old(self).last_cleanup_ms,
                orig == old(self).idle@,
                s0 == old(self).stats,
                self.stats == (ConnectionPoolStats {
                    total_closed: (s0.total_closed + k) as u64,
                    active_connections: dec_by(s0.active_connections, k as nat),
                    ..s0
                }),
                s0.total_closed + orig.len() + 1 <= u64::MAX,
                old(self).has_room(),
                orig.len() <= self.config.max_connections,
                forall|q: int| 0 <= q < k ==> !fresh(#[trigger] orig[q], now_ms, self.config),
            decreases self.idle.len(),
        {
            let c = self.idle.remove(0);
            assert(c == orig[k as int]);
            assert(self.idle@ =~= orig.skip(k + 1));
            if !c.is_expired(now_ms, self.config.max_connection_age_ms) && !c.is_idle(
                now_ms,
                self.config.idle_timeout_ms,
            ) {
                return Some(c);
            }
            self.stats.total_closed = self.stats.total_closed + 1;
            self.stats.active_connections = self.stats.active_connections.saturating_sub(1);
            k = k + 1;
        }
        None
    }

    /// Lends a candidate that passed its test: marks it used at `now_ms`.
    pub fn accept(&mut self, conn: PooledConnection<C>, now_ms: u64) -> (r: PooledConnection<C>)
        requires
            old(self).has_room(),
            conn.use_count < u64::MAX,
        ensures
            final(self).idle() == old(self).idle(),
            final(self).config() == old(self).config(),
            final(self).last_cleanup() == old(self).last_cleanup(),
            final(self).stats() == (ConnectionPoolStats {
                total_borrowed: (old(self).stats().total_borrowed + 1) as u64,
                ..old(self).stats()
            }),
            r.connection == conn.connection,
            r.created_at_ms == conn.created_at_ms,
            r.last_used_ms == now_ms,
            r.use_count == conn.use_count + 1,
    {
        let mut conn = conn;
        conn.mark_used(now_ms);
        self.stats.total_borrowed = self.stats.total_borrowed + 1;
        conn
    }

    /// Closes a candidate that failed its test.
    pub fn reject(&mut self, conn: PooledConnection<C>)
        requires
            old(self).has_room(),
        ensures
            final(self).idle() == old(self).idle(),
            final(self).config() == old(self).config(),
            final(self).last_cleanup() == old(self).last_cleanup(),
            final(self).stats() == (ConnectionPoolStats {
                total_closed: (old(self).stats().total_closed + 1) as u64,
                active_connections: dec(old(self).stats().active_connections),
                ..old(self).stats()
            }),
    {
        self.stats.total_closed = self.stats.total_closed + 1;
        self.stats.active_connections = self.stats.active_connections.saturating_sub(1);
    }

    /// Whether a new connection may be opened: fewer are active than the limit.
    pub fn may_create(&self) -> (b: bool)
        ensures
            b == (self.stats().active_connections < self.config().max_connections),
    {
        self.stats.active_connections < self.config.max_connections
    }

    /// Lends a connection that was just opened at `now_ms`.
    pub fn created(&mut self, connection: C, now_ms: u64) -> (r: PooledConnection<C>)
        requires
            old(self).has_room(),
        ensures
            final(self).idle() == old(self).idle(),
            final(self).config() == old(self).config(),
            final(self).last_cleanup() == old(self).last_cleanup(),
            final(self).stats() == (ConnectionPoolStats {
                total_created: (old(self).stats().total_created + 1) as u64,
                total_borrowed: (old(self).stats().total_borrowed + 1) as u64,
                active_connections: (old(self).stats().active_connections + 1) as usize,
                ..old(self).stats()
            }),
            r.connection == connection,
            r.created_at_ms == now_ms,
            r.last_used_ms == now_ms,
            r.use_count == 1,
    {
        let mut conn = PooledConnection::new(connection, now_ms);
        conn.mark_used(now_ms);
        self.stats.total_created = self.stats.total_created + 1;
        self.stats.total_borrowed = self.stats.total_borrowed + 1;
        self.stats.active_connections = self.stats.active_connections + 1;
        conn
    }

    /// Counts a connection that could not be opened, and gives the error.
    pub fn creation_failed(&mut self, reason: &str) -> (e: DatabaseError)
        requires
            old(self).has_room(),
        ensures
            final(self).idle() == old(self).idle(),
            final(self).config() == old(self).config(),
            final(self).last_cleanup() == old(self).last_cleanup(),
            final(self).stats() == (ConnectionPoolStats {
                connection_errors: (old(self).stats().connection_errors + 1) as u64,
                ..old(self).stats()
            }),
            e.error_type == DatabaseErrorType::ConnectionFailed,
            e.message@ == "Failed to create new connection: "@ + reason@,
            e.operation@ == "create_connection"@,
            !e.recoverable,
            e.retry_after is None,
    {
        self.stats.connection_errors = self.stats.connection_errors + 1;
        let mut m = to_owned_string("Failed to create new connection: ");
        push_str(&mut m, reason);
        DatabaseError::new(
            DatabaseErrorType::ConnectionFailed,
            m,
            to_owned_string("create_connection"),
        )
    }

    /// Counts a request that found the pool at its limit, and gives the error,
    /// which asks to retry after a second.
    pub fn exhausted(&mut self) -> (e: DatabaseError)
        requires
            old(self).has_room(),
        ensures
            final(self).idle() == old(self).idle(),
            final(self).config() == old(self).config(),
            final(self).last_cleanup() == old(self).last_cleanup(),
            final(self).stats() == (ConnectionPoolStats {
                connection_errors: (old(self).stats().connection_errors + 1) as u64,
                ..old(self).stats()
            }),
            e.error_type == DatabaseErrorType::ConnectionFailed,
            e.message@ == "Connection pool exhausted"@,
            e.operation@ == "get_connection"@,
            e.recoverable,
            e.retry_after == Some(1u64),
    {
        self.stats.connection_errors = self.stats.connection_errors + 1;
        DatabaseError::new(
            DatabaseErrorType::ConnectionFailed,
            to_owned_string("Connection pool exhausted"),
            to_owned_string("get_connection"),
        ).retry_after(1)
    }

    /// Takes a connection back at `now_ms`: it joins the idle ones unless it is
    /// too old or the pool is full, in which case it is closed.
    pub fn return_connection(&mut self, conn: PooledConnection<C>, now_ms: u64)
        requires
            old(self).wf(),
            old(self).has_room(),
        ensures
            final(self).wf(),
            final(self).config() == old(self).config(),
            final(self).last_cleanup() == old(self).last_cleanup(),
            !expired(conn.created_at_ms, now_ms, old(self).config().max_connection_age_ms)
                && old(self).idle().len() < old(self).config().max_connections ==> {
                &&& final(self).idle() == old(self).idle().push(conn)
                &&& final(self).stats() == (ConnectionPoolStats {
                    total_returned: (old(self).stats().total_returned + 1) as u64,
                    ..old(self).stats()
                })
            },
            expired(conn.created_at_ms, now_ms, old(self).config().max_connection_age_ms)
                || old(self).idle().len() >= old(self).config().max_connections ==> {
                &&& final(self).idle() == old(self).idle()
                &&& final(self).stats() == (ConnectionPoolStats {
                    total_closed: (old(self).stats().total_closed + 1) as u64,
                    active_connections: dec(old(self).stats().active_connections),
                    ..old(self).stats()
                })
            },
    {
        if !conn.is_expired(now_ms, self.config.max_connection_age_ms) && self.idle.len()
            < self.config.max_connections {
            self.idle.push(conn);
            self.stats.total_returned = self.stats.total_returned + 1;
        } else {
            self.stats.total_closed = self.stats.total_closed + 1;
            self.stats.active_connections = self.stats.active_connections.saturating_sub(1);
        }
    }

    /// Closes every idle connection that may not be lent again at `now_ms`,
    /// keeping the others in order, and counts the run. Returns how many closed.
    pub fn cleanup(&mut self, now_ms: u64) -> (cleaned: usize)
        requires
            old(self).wf(),
            old(self).has_room(),
        ensures
            final(self).wf(),
            final(self).config() == old(self).config(),
            final(self).last_cleanup() == old(self).last_cleanup(),
            final(self).idle() == fresh_only(old(self).idle(), now_ms, old(self).config()),
            cleaned == stale_count(old(self).idle(), now_ms, old(self).config()),
            final(self).stats() == (ConnectionPoolStats {
                total_closed: (old(self).stats().total_closed + cleaned) as u64,
                active_connections: dec_by(old(self).stats().active_connections, cleaned as nat),
                cleanup_runs: (old(self).stats().cleanup_runs + 1) as u64,
                ..old(self).stats()
            }),
    {
        let ghost orig = self.idle@;
        let ghost s0 = self.stats;
        let ghost cfg = self.config;
        let ghost f = |c: PooledConnection<C>| fresh(c, now_ms, cfg);
        let mut rest: Vec<PooledConnection<C>> = Vec::new();
        std::mem::swap(&mut rest, &mut self.idle);
        let n: usize = rest.len();
        let mut cleaned: usize = 0;
        let mut k: usize = 0;
        while rest.len() > 0
            invariant
                k <= orig.len() == n,
                n <= cfg.max_connections,
                cfg == self.config,
                self.config == old(self).config,
                self.last_cleanup_ms == old(self).last_cleanup_ms,
                f == (|c: PooledConnection<C>| fresh(c, now_ms, cfg)),
                rest@ == orig.skip(k as int),
                self.idle@ == orig.take(k as int).filter(f),
                cleaned == stale_count(orig.take(k as int), now_ms, cfg),
                cleaned <= k,
                s0.total_closed + n + 1 <= u64::MAX,
                self.stats == (ConnectionPoolStats {
                    total_closed: (s0.total_closed + cleaned) as u64,
                    active_connections: dec_by(s0.active_connections, cleaned as nat),
                    ..s0
                }),
            decreases rest.len(),
        {
            let c = rest.remove(0);
            proof {
                reveal_with_fuel(Seq::filter, 1);
                assert(orig.take(k + 1).drop_last() =~= orig.take(k as int));
                assert(orig.take(k + 1).last() == c);
                orig.take(k as int).lemma_filter_len(f);
            }
            if c.is_expired(now_ms, self.config.max_connection_age_ms) || c.is_idle(
                now_ms,
                self.config.idle_timeout_ms,
            ) {
                cleaned = cleaned + 1;
                self.stats.total_closed = self.stats.total_closed + 1;
                self.stats.active_connections = self.stats.active_connections.saturating_sub(1);
                assert(!f(c));
            } else {
                let ghost prev = self.idle@;
                self.idle.push(c);
                assert(f(c));
                assert(self.idle@ =~= prev.push(c));
            }
            assert(self.idle@ == orig.take(k + 1).filter(f));
            assert(rest@ =~= orig.skip(k + 1));
            k = k + 1;
        }
        assert(orig.take(k as int) =~= orig);
        proof {
            orig.lemma_filter_len(f);
        }
        self.stats.cleanup_runs = self.stats.cleanup_runs + 1;
        cleaned
    }

    /// Whether a cleanup is due at `now_ms`.
    pub fn cleanup_due(&self, now_ms: u64) -> (b: bool)
        ensures
            b == (since(now_ms, self.last_cleanup()) >= self.config().cleanup_interval_ms),
    {
        now_ms.saturating_sub(self.last_cleanup_ms) >= self.config.cleanup_interval_ms
    }

    /// Runs a cleanup at `now_ms` where one is due, and notes its time.
    /// Returns how many connections closed.
    pub fn maybe_cleanup(&mut self, now_ms: u64) -> (cleaned: usize)
        requires
            old(self).wf(),
            old(self).has_room(),
        ensures
            final(self).wf(),
            final(self).config() == old(self).config(),
            since(now_ms, old(self).last_cleanup()) < old(self).config().cleanup_interval_ms ==> {
                &&& cleaned == 0
                &&& final(self).idle() == old(self).idle()
                &&& final(self).stats() == old(self).stats()
                &&& final(self).last_cleanup() == old(self).last_cleanup()
            },
            since(now_ms, old(self).last_cleanup()) >= old(self).config().cleanup_interval_ms ==> {
                &&& final(self).last_cleanup() == now_ms
                &&& final(self).idle() == fresh_only(old(self).idle(), now_ms, old(self).config())
                &&& cleaned == stale_count(old(self).idle(), now_ms, old(self).config())
                &&& final(self).stats() == (ConnectionPoolStats {
                    total_closed: (old(self).stats().total_closed + cleaned) as u64,
                    active_connections: dec_by(old(self).stats().active_connections, cleaned as nat),
                    cleanup_runs: (old(self).stats().cleanup_runs + 1) as u64,
                    ..old(self).stats()
                })
            },
    {
        if self.cleanup_due(now_ms) {
            self.last_cleanup_ms = now_ms;
            self.cleanup(now_ms)
        } else {
            0
        }
    }

    /// The counters, with the number of idle connections as the active count.
    pub fn get_stats(&self) -> (s: ConnectionPoolStats)
        ensures
            s == (ConnectionPoolStats { active_connections: self.idle().len() as usize, ..self.stats() }),
    {
        ConnectionPoolStats { active_connections: self.idle.len(), ..self.stats }
    }

    /// Closes every idle connection and sets the active count to zero.
    /// Returns how many closed.
    pub fn close_all(&mut self) -> (closed: usize)
        requires
            old(self).has_room(),
        ensures
            final(self).wf(),
            closed == old(self).idle().len(),
            final(self).idle().len() == 0,
            final(self).config() == old(self).config(),
            final(self).last_cleanup() == old(self).last_cleanup(),
            final(self).stats() == (ConnectionPoolStats {
                total_closed: (old(self).stats().total_closed + closed) as u64,
                active_connections: 0,
                ..old(self).stats()
            }),
    {
        let closed = self.idle.len();
        self.idle.clear();
        self.stats.total_closed = self.stats.total_closed + closed as u64;
        self.stats.active_connections = 0;
        closed
    }
}

/// A cleanup keeps only connections that may be lent, and every connection it
/// does not keep is counted as closed: kept and closed add up to what was idle.
pub proof fn law_cleanup_accounts_for_every_connection<C>(
    v: Seq<PooledConnection<C>>,
    now: u64,
    cfg: ConnectionPoolConfig,
)
    ensures
        forall|i: int|
            0 <= i < fresh_only(v, now, cfg).len() ==> fresh(
                #[trigger] fresh_only(v, now, cfg)[i],
                now,
                cfg,
            ),
        fresh_only(v, now, cfg).len() + stale_count(v, now, cfg)
            == v.len(),
    decreases v.len(),
{
    let f = |c: PooledConnection<C>| fresh(c, now, cfg);
    assert forall|i: int| 0 <= i < v.filter(f).len() implies fresh(#[trigger] v.filter(f)[i], now, cfg) by {
        v.lemma_filter_pred(f, i);
    }
    if v.len() > 0 {
        law_cleanup_accounts_for_every_connection(v.drop_last(), now, cfg);
        reveal_with_fuel(Seq::filter, 1);
        assert(v.filter(f).len() == v.drop_last().filter(f).len() + if f(v.last()) {
            1int
        } else {
            0int
        });
    }
}

} // verus!
