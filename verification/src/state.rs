//! The state of one served namespace that is plain data: who may call, which
//! limits hold, and the backpressure on writes.

use std::time::Duration;
use vstd::prelude::*;

use crate::auth::{granted, AuthConfig, AuthModel, AuthToken, Role};
use crate::maintenance::CompactionScheduler;
use crate::memory::{GovernorModel, MemoryGovernor, DEFAULT_MEMORY_MAX_BYTES};
use crate::metrics::{Metrics, MetricsModel, WriterLockKind};
use crate::pdp::OpaAuthz;
use crate::recovery::{HealthModel, WriterHealth};
use crate::span::{is_zero, limit, nanos, option_nanos};

verus! {

/// The policy that is consulted before a query or a schema command.
#[derive(Debug)]
pub enum Policy {
    /// None: everything is allowed.
    AllowAll,
    /// An endpoint decides.
    Endpoint(OpaAuthz),
}

/// The delay of a write that is stalled by the size of the memtable where no
/// delay is configured, in milliseconds.
pub const FALLBACK_STALL_MILLIS: u64 = 20;

/// The limits on the reads and writes of a namespace. A zero switches a limit
/// off.
#[derive(Debug, Clone, Copy)]
pub struct Limits {
    pub query_timeout: Duration,
    pub write_timeout: Duration,
    /// The most rows that an operator of a read may produce.
    pub query_row_cap: usize,
    /// How many level-0 tables in one bucket stall a write.
    pub write_stall_l0: usize,
    pub write_stall_delay: Duration,
    /// The memtable size that wakes the flush task.
    pub memtable_flush_bytes: usize,
    /// The memtable size that stalls a write.
    pub memtable_stall_bytes: usize,
    /// How long a foreground write may wait for the writer.
    pub writer_lock_timeout: Duration,
}

/// The state of one served namespace.
pub struct AppState {
    pub auth: AuthConfig,
    pub namespace: String,
    pub limits: Limits,
    pub memory: MemoryGovernor,
    pub metrics: Metrics,
    pub writer_health: WriterHealth,
    pub compaction_scheduler: CompactionScheduler,
    /// The last memtable size that was seen.
    pub memtable_bytes_gauge: usize,
    pub policy: Policy,
}

/// Whether every limit is off.
pub open spec fn is_unlimited(l: Limits) -> bool {
    &&& nanos(l.query_timeout) == 0
    &&& nanos(l.write_timeout) == 0
    &&& l.query_row_cap == 0
    &&& l.write_stall_l0 == 0
    &&& nanos(l.write_stall_delay) == 0
    &&& l.memtable_flush_bytes == 0
    &&& l.memtable_stall_bytes == 0
    &&& nanos(l.writer_lock_timeout) == 0
}

/// Whether a single token is what is accepted: read-write, or nothing at all is
/// asked where the token is absent or empty.
pub open spec fn single_token(auth: AuthModel, token: Option<Seq<char>>) -> bool {
    match token {
        Some(secret) if secret.len() > 0 => {
            &&& auth.jwt is None
            &&& auth.tokens.len() == 1
            &&& auth.tokens[0].secret@ == secret
            &&& auth.tokens[0].role == Role::ReadWrite
            &&& auth.tokens[0].namespaces is None
        },
        _ => auth.is_open(),
    }
}

/// A single token lets its holder write in every namespace, and nobody else in at
/// all.
pub proof fn law_single_token_decides(
    auth: AuthModel,
    secret: Seq<char>,
    presented: Seq<char>,
    namespace: Seq<char>,
)
    requires
        single_token(auth, Some(secret)),
        secret.len() > 0,
    ensures
        auth.jwt is None,
        presented == secret ==> (granted(auth.tokens, presented, namespace) matches Some(p)
            && p.role is ReadWrite),
        presented != secret ==> granted(auth.tokens, presented, namespace) is None,
{
    assert(auth.tokens.drop_last() =~= Seq::<AuthToken>::empty());
    assert(auth.tokens.last() == auth.tokens[0]);
    assert(granted(Seq::<AuthToken>::empty(), presented, namespace) is None);
}

/// The view of an optional borrowed text.
pub open spec fn option_token(s: Option<&str>) -> Option<Seq<char>> {
    match s {
        Some(t) => Some(t@),
        None => None,
    }
}

impl Limits {
    /// How long a write is stalled, given the fullest bucket of level 0 and the
    /// size of the memtable. The configured delay holds for level 0; the size of
    /// the memtable stalls even where no delay is configured.
    pub open spec fn stall(self, max_l0: usize, memtable_bytes: usize) -> Option<nat> {
        let delay = nanos(self.write_stall_delay);
        if self.write_stall_l0 > 0 && max_l0 >= self.write_stall_l0 && delay > 0 {
            Some(delay)
        } else if self.memtable_stall_bytes > 0 && memtable_bytes >= self.memtable_stall_bytes {
            Some(
                if delay > 0 {
                    delay
                } else {
                    20_000_000
                },
            )
        } else {
            None
        }
    }

    /// No limits.
    pub fn none() -> (r: Limits)
        ensures
            is_unlimited(r),
    {
        let zero = Duration::from_millis(0);
        Limits {
            query_timeout: zero,
            write_timeout: zero,
            query_row_cap: 0,
            write_stall_l0: 0,
            write_stall_delay: zero,
            memtable_flush_bytes: 0,
            memtable_stall_bytes: 0,
            writer_lock_timeout: zero,
        }
    }
}

impl AppState {
    /// The state of a namespace with a single token, or open without one or with
    /// an empty one, and with every limit off.
    pub fn new(version: &'static str, auth_token: Option<&str>, namespace: String) -> (r: AppState)
        ensures
            single_token(r.auth@, option_token(auth_token)),
            r.namespace == namespace,
            is_unlimited(r.limits),
            r.memory@ == GovernorModel::fresh(DEFAULT_MEMORY_MAX_BYTES),
            r.metrics@ == MetricsModel::empty(version@, 0),
            r.writer_health@ == (HealthModel { degraded: None, persistence: None }),
            r.compaction_scheduler == CompactionScheduler::idle(),
            r.memtable_bytes_gauge == 0,
            r.policy is AllowAll,
    {
        let auth = match auth_token {
            Some(secret) => {
                if secret.is_empty() {
                    AuthConfig::open()
                } else {
                    AuthConfig::single_read_write(secret)
                }
            },
            None => AuthConfig::open(),
        };
        AppState {
            auth,
            namespace,
            limits: Limits::none(),
            memory: MemoryGovernor::new(DEFAULT_MEMORY_MAX_BYTES),
            metrics: Metrics::new(version, Duration::from_millis(0)),
            writer_health: WriterHealth::new(),
            compaction_scheduler: CompactionScheduler::new(),
            memtable_bytes_gauge: 0,
            policy: Policy::AllowAll,
        }
    }

    /// With another policy.
    pub fn with_authz(self, policy: Policy) -> (r: AppState)
        ensures
            r == (AppState { policy, ..self }),
    {
        let mut r = self;
        r.policy = policy;
        r
    }

    /// With a threshold for slow queries. The metrics start anew.
    pub fn with_slow_query_threshold(self, version: &'static str, threshold: Duration) -> (r:
        AppState)
        ensures
            r.metrics@ == MetricsModel::empty(version@, nanos(threshold)),
            r == (AppState { metrics: r.metrics, ..self }),
    {
        let mut r = self;
        r.metrics = Metrics::new(version, threshold);
        r
    }

    /// With a stall of writes by the size of level 0.
    pub fn with_write_stall(self, l0_threshold: usize, delay: Duration) -> (r: AppState)
        ensures
            r == (AppState {
                limits: Limits {
                    write_stall_l0: l0_threshold,
                    write_stall_delay: delay,
                    ..self.limits
                },
                ..self
            }),
    {
        let mut r = self;
        r.limits.write_stall_l0 = l0_threshold;
        r.limits.write_stall_delay = delay;
        r
    }

    /// With thresholds on the size of the memtable.
    pub fn with_memtable_thresholds(self, flush_bytes: usize, stall_bytes: usize) -> (r: AppState)
        ensures
            r == (AppState {
                limits: Limits {
                    memtable_flush_bytes: flush_bytes,
                    memtable_stall_bytes: stall_bytes,
                    ..self.limits
                },
                ..self
            }),
    {
        let mut r = self;
        r.limits.memtable_flush_bytes = flush_bytes;
        r.limits.memtable_stall_bytes = stall_bytes;
        r
    }

    /// With the governor of the process's memory.
    pub fn with_memory_governor(self, memory: MemoryGovernor) -> (r: AppState)
        ensures
            r == (AppState { memory, ..self }),
    {
        let mut r = self;
        r.memory = memory;
        r
    }

    /// With a bound on the foreground wait for the writer.
    pub fn with_writer_lock_timeout(self, timeout: Duration) -> (r: AppState)
        ensures
            r == (AppState {
                limits: Limits { writer_lock_timeout: timeout, ..self.limits },
                ..self
            }),
    {
        let mut r = self;
        r.limits.writer_lock_timeout = timeout;
        r
    }

    /// With a budget for reads.
    pub fn with_query_timeout(self, timeout: Duration) -> (r: AppState)
        ensures
            r == (AppState { limits: Limits { query_timeout: timeout, ..self.limits }, ..self }),
    {
        let mut r = self;
        r.limits.query_timeout = timeout;
        r
    }

    /// With a budget for writes.
    pub fn with_write_timeout(self, timeout: Duration) -> (r: AppState)
        ensures
            r == (AppState { limits: Limits { write_timeout: timeout, ..self.limits }, ..self }),
    {
        let mut r = self;
        r.limits.write_timeout = timeout;
        r
    }

    /// With other tokens.
    pub fn with_auth(self, auth: AuthConfig) -> (r: AppState)
        ensures
            r == (AppState { auth, ..self }),
    {
        let mut r = self;
        r.auth = auth;
        r
    }

    /// With a cap on the rows of a read.
    pub fn with_query_row_cap(self, row_cap: usize) -> (r: AppState)
        ensures
            r == (AppState { limits: Limits { query_row_cap: row_cap, ..self.limits }, ..self }),
    {
        let mut r = self;
        r.limits.query_row_cap = row_cap;
        r
    }

    /// How long a foreground write may wait for the writer, where that is
    /// bounded.
    pub fn writer_lock_timeout(&self) -> (r: Option<Duration>)
        ensures
            option_nanos(r) == if nanos(self.limits.writer_lock_timeout) == 0 {
                None
            } else {
                Some(nanos(self.limits.writer_lock_timeout))
            },
    {
        limit(self.limits.writer_lock_timeout)
    }

    /// Records one foreground wait for the writer.
    pub fn observe_writer_wait(&mut self, kind: WriterLockKind, waited: Duration, acquired: bool)
        ensures
            final(self).metrics@ == old(self).metrics@.lock_observed(kind, nanos(waited), acquired),
            *final(self) == (AppState { metrics: final(self).metrics, ..*old(self) }),
    {
        self.metrics.observe_writer_lock(kind, waited, acquired);
    }

    /// How long a write is stalled.
    pub fn write_stall_for(&self, max_l0: usize, memtable_bytes: usize) -> (r: Option<Duration>)
        ensures
            option_nanos(r) == self.limits.stall(max_l0, memtable_bytes),
    {
        let delayed = !is_zero(self.limits.write_stall_delay);
        if self.limits.write_stall_l0 > 0 && max_l0 >= self.limits.write_stall_l0 && delayed {
            return Some(self.limits.write_stall_delay);
        }
        if self.limits.memtable_stall_bytes > 0 && memtable_bytes
            >= self.limits.memtable_stall_bytes {
            return Some(
                if delayed {
                    self.limits.write_stall_delay
                } else {
                    Duration::from_millis(FALLBACK_STALL_MILLIS)
                },
            );
        }
        None
    }

    /// What follows a commit, sampled while the writer lock is held: the size of
    /// the memtable is noted, the flush task is woken where it is due, and the
    /// delay is told that the write waits out once the lock is given back.
    pub fn after_commit_backpressure(&mut self, max_l0: usize, memtable_bytes: usize) -> (r: (
        bool,
        Option<Duration>,
    ))
        ensures
            r.0 == (old(self).limits.memtable_flush_bytes > 0 && memtable_bytes >= old(self).limits.memtable_flush_bytes),
            option_nanos(r.1) == old(self).limits.stall(max_l0, memtable_bytes),
            *final(self) == (AppState { memtable_bytes_gauge: memtable_bytes, ..*old(self) }),
    {
        self.memtable_bytes_gauge = memtable_bytes;
        let wake = self.limits.memtable_flush_bytes > 0 && memtable_bytes
            >= self.limits.memtable_flush_bytes;
        (wake, self.write_stall_for(max_l0, memtable_bytes))
    }

    /// How long a read that starts now may run, where that is bounded.
    pub fn query_deadline(&self) -> (r: Option<Duration>)
        ensures
            option_nanos(r) == if nanos(self.limits.query_timeout) == 0 {
                None
            } else {
                Some(nanos(self.limits.query_timeout))
            },
    {
        limit(self.limits.query_timeout)
    }

    /// How long a write that starts now may run, where that is bounded.
    pub fn write_deadline(&self) -> (r: Option<Duration>)
        ensures
            option_nanos(r) == if nanos(self.limits.write_timeout) == 0 {
                None
            } else {
                Some(nanos(self.limits.write_timeout))
            },
    {
        limit(self.limits.write_timeout)
    }

    /// The most rows that an operator of a read may produce, where that is
    /// bounded.
    pub fn query_row_cap(&self) -> (r: Option<usize>)
        ensures
            r == if self.limits.query_row_cap > 0 {
                Some(self.limits.query_row_cap)
            } else {
                None
            },
    {
        if self.limits.query_row_cap > 0 {
            Some(self.limits.query_row_cap)
        } else {
            None
        }
    }
}

/// A fuller level 0 or a larger memtable never lets a write through that a lesser
/// one stalled.
pub proof fn law_backpressure_is_monotone(
    l: Limits,
    l0: usize,
    more_l0: usize,
    bytes: usize,
    more_bytes: usize,
)
    requires
        l0 <= more_l0,
        bytes <= more_bytes,
    ensures
        l.stall(l0, bytes) is Some ==> l.stall(more_l0, more_bytes) is Some,
        is_unlimited(l) ==> l.stall(more_l0, more_bytes) is None,
        l.stall(l0, bytes) matches Some(n) ==> n > 0,
{
}

/// A write is stalled from the very number of tables or the very size on that is
/// set, and not before: by level 0 only where a delay is set, by the memtable in
/// any case; and it waits the delay that is set, or twenty milliseconds where none
/// is.
pub proof fn law_stall_begins_at_its_limit(l: Limits, l0: usize, bytes: usize)
    ensures
        ({
            let delay = nanos(l.write_stall_delay);
            let deep = l.write_stall_l0 != 0 && l.write_stall_l0 <= l0;
            let large = l.memtable_stall_bytes != 0 && l.memtable_stall_bytes <= bytes;
            &&& l.stall(l0, bytes) is Some <==> large || (deep && delay > 0)
            &&& l.stall(l0, bytes) is Some && delay > 0 ==> l.stall(l0, bytes) == Some(delay)
            &&& l.stall(l0, bytes) is Some && delay == 0 ==> l.stall(l0, bytes) == Some(
                20 * 1_000_000nat,
            )
        }),
{
}

// ---------------------------------------------------------------------------
// Optimizer statistics
// ---------------------------------------------------------------------------

/// What was last built for a version of the manifest. Every commit moves the
/// version on, so that a match is never stale.
pub struct CatalogCache<C> {
    slot: Option<(u64, C)>,
}

impl<C> CatalogCache<C> {
    /// The version and the catalog that are kept.
    pub closed spec fn kept(self) -> Option<(u64, C)> {
        self.slot
    }

    /// Nothing is kept.
    pub fn new() -> (r: CatalogCache<C>)
        ensures
            r.kept() is None,
    {
        CatalogCache { slot: None }
    }

    /// The catalog for a version, if it is kept.
    pub fn catalog_for(&self, version: u64) -> (r: Option<&C>)
        ensures
            match r {
                Some(c) => self.kept() == Some((version, *c)),
                None => self.kept() matches Some((v, _)) ==> v != version,
            },
    {
        match &self.slot {
            Some((v, c)) => {
                if *v == version {
                    Some(c)
                } else {
                    None
                }
            },
            None => None,
        }
    }

    /// Keeps the catalog of a version in place of any other.
    pub fn keep(&mut self, version: u64, catalog: C)
        ensures
            final(self).kept() == Some((version, catalog)),
    {
        self.slot = Some((version, catalog));
    }
}

} // verus!
