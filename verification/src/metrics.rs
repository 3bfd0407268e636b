//! Process-level query metrics and the slow-query record.
//!
//! A registry of counters, gauges and fixed-bucket latency histograms, rendered
//! on demand in the Prometheus text exposition format. Both serving paths feed
//! the same registry, each once per query. Query parameters are never recorded.

use std::time::Duration;
use vstd::prelude::*;

use crate::memory::{GovernorModel, MemoryGovernor};
use crate::page::{family_head, label, label_text, labels2, labels2_text, page_text, plain_sample, sample, scalar, Page};
use crate::span::nanos;
use crate::text::{chars_of, collapse_whitespace, collapsed, decimal, decimal_of, scaled_decimal, seconds_of_micros, signed_decimal, signed_decimal_of, string_of};

verus! {

/// Which serving path a query arrived on.
#[derive(Debug, Clone, Copy, PartialEq, Eq, Structural)]
pub enum Protocol {
    Http,
    Bolt,
}

impl Protocol {
    /// The value of the `protocol` label.
    pub open spec fn label(self) -> Seq<char> {
        match self {
            Protocol::Http => "http"@,
            Protocol::Bolt => "bolt"@,
        }
    }

    /// The value of the `protocol` label.
    pub fn as_str(self) -> (r: &'static str)
        ensures
            r@ == self.label(),
    {
        match self {
            Protocol::Http => "http",
            Protocol::Bolt => "bolt",
        }
    }
}

/// Read or write. A query that failed before planning has no kind: it counts
/// toward the error total and stays out of the latency histograms.
#[derive(Debug, Clone, Copy, PartialEq, Eq, Structural)]
pub enum QueryKind {
    Read,
    Write,
}

impl QueryKind {
    /// The value of the `kind` label.
    pub open spec fn label(self) -> Seq<char> {
        match self {
            QueryKind::Read => "read"@,
            QueryKind::Write => "write"@,
        }
    }

    /// The value of the `kind` label.
    pub fn as_str(self) -> (r: &'static str)
        ensures
            r@ == self.label(),
    {
        match self {
            QueryKind::Read => "read",
            QueryKind::Write => "write",
        }
    }
}

/// Why a task is waiting for the namespace's single-writer lock.
#[derive(Debug, Clone, Copy, PartialEq, Eq, Structural)]
pub enum WriterLockKind {
    Http,
    Bolt,
    BoltTransaction,
    Flush,
    CompactionBasis,
    CompactionInstall,
}

impl WriterLockKind {
    /// The value of the `purpose` label.
    pub open spec fn label(self) -> Seq<char> {
        match self {
            WriterLockKind::Http => "http"@,
            WriterLockKind::Bolt => "bolt"@,
            WriterLockKind::BoltTransaction => "bolt_transaction"@,
            WriterLockKind::Flush => "flush"@,
            WriterLockKind::CompactionBasis => "compaction_basis"@,
            WriterLockKind::CompactionInstall => "compaction_install"@,
        }
    }

    /// The value of the `purpose` label.
    pub fn as_str(self) -> (r: &'static str)
        ensures
            r@ == self.label(),
    {
        match self {
            WriterLockKind::Http => "http",
            WriterLockKind::Bolt => "bolt",
            WriterLockKind::BoltTransaction => "bolt_transaction",
            WriterLockKind::Flush => "flush",
            WriterLockKind::CompactionBasis => "compaction_basis",
            WriterLockKind::CompactionInstall => "compaction_install",
        }
    }

    /// The place of the variant in the registry.
    pub open spec fn slot(self) -> int {
        match self {
            WriterLockKind::Http => 0,
            WriterLockKind::Bolt => 1,
            WriterLockKind::BoltTransaction => 2,
            WriterLockKind::Flush => 3,
            WriterLockKind::CompactionBasis => 4,
            WriterLockKind::CompactionInstall => 5,
        }
    }

    /// The place of the variant in the registry.
    fn index(self) -> (r: usize)
        ensures
            r == self.slot(),
            r < 6,
    {
        match self {
            WriterLockKind::Http => 0,
            WriterLockKind::Bolt => 1,
            WriterLockKind::BoltTransaction => 2,
            WriterLockKind::Flush => 3,
            WriterLockKind::CompactionBasis => 4,
            WriterLockKind::CompactionInstall => 5,
        }
    }
}

/// What scheduled a compaction attempt.
#[derive(Debug, Clone, Copy, PartialEq, Eq, Structural)]
pub enum CompactionTrigger {
    Periodic,
    Reactive,
    Ddl,
}

impl CompactionTrigger {
    /// The value of the `trigger` label.
    pub open spec fn label(self) -> Seq<char> {
        match self {
            CompactionTrigger::Periodic => "periodic"@,
            CompactionTrigger::Reactive => "reactive"@,
            CompactionTrigger::Ddl => "ddl"@,
        }
    }

    /// The value of the `trigger` label.
    pub fn as_str(self) -> (r: &'static str)
        ensures
            r@ == self.label(),
    {
        match self {
            CompactionTrigger::Periodic => "periodic",
            CompactionTrigger::Reactive => "reactive",
            CompactionTrigger::Ddl => "ddl",
        }
    }

    /// The place of the variant in the registry.
    pub open spec fn slot(self) -> int {
        match self {
            CompactionTrigger::Periodic => 0,
            CompactionTrigger::Reactive => 1,
            CompactionTrigger::Ddl => 2,
        }
    }

    /// The place of the variant in the registry.
    fn index(self) -> (r: usize)
        ensures
            r == self.slot(),
            r < 3,
    {
        match self {
            CompactionTrigger::Periodic => 0,
            CompactionTrigger::Reactive => 1,
            CompactionTrigger::Ddl => 2,
        }
    }
}

/// Individually timed compaction phases: the off-lock work, the wait for the
/// writer, and the critical section under it.
#[derive(Debug, Clone, Copy, PartialEq, Eq, Structural)]
pub enum CompactionPhase {
    Prepare,
    InstallWait,
    InstallHold,
}

impl CompactionPhase {
    /// The value of the `phase` label.
    pub open spec fn label(self) -> Seq<char> {
        match self {
            CompactionPhase::Prepare => "prepare"@,
            CompactionPhase::InstallWait => "install_wait"@,
            CompactionPhase::InstallHold => "install_hold"@,
        }
    }

    /// The value of the `phase` label.
    pub fn as_str(self) -> (r: &'static str)
        ensures
            r@ == self.label(),
    {
        match self {
            CompactionPhase::Prepare => "prepare",
            CompactionPhase::InstallWait => "install_wait",
            CompactionPhase::InstallHold => "install_hold",
        }
    }

    /// The place of the variant in the registry.
    pub open spec fn slot(self) -> int {
        match self {
            CompactionPhase::Prepare => 0,
            CompactionPhase::InstallWait => 1,
            CompactionPhase::InstallHold => 2,
        }
    }

    /// The place of the variant in the registry.
    fn index(self) -> (r: usize)
        ensures
            r == self.slot(),
            r < 3,
    {
        match self {
            CompactionPhase::Prepare => 0,
            CompactionPhase::InstallWait => 1,
            CompactionPhase::InstallHold => 2,
        }
    }
}

/// Terminal classification of one compaction attempt.
#[derive(Debug, Clone, Copy, PartialEq, Eq, Structural)]
pub enum CompactionStatus {
    Applied,
    Noop,
    Stale,
    Coalesced,
    PrepareError,
    InstallError,
    Cancelled,
}

impl CompactionStatus {
    /// The value of the `status` label.
    pub open spec fn label(self) -> Seq<char> {
        match self {
            CompactionStatus::Applied => "applied"@,
            CompactionStatus::Noop => "noop"@,
            CompactionStatus::Stale => "stale"@,
            CompactionStatus::Coalesced => "coalesced"@,
            CompactionStatus::PrepareError => "prepare_error"@,
            CompactionStatus::InstallError => "install_error"@,
            CompactionStatus::Cancelled => "cancelled"@,
        }
    }

    /// The value of the `status` label.
    pub fn as_str(self) -> (r: &'static str)
        ensures
            r@ == self.label(),
    {
        match self {
            CompactionStatus::Applied => "applied",
            CompactionStatus::Noop => "noop",
            CompactionStatus::Stale => "stale",
            CompactionStatus::Coalesced => "coalesced",
            CompactionStatus::PrepareError => "prepare_error",
            CompactionStatus::InstallError => "install_error",
            CompactionStatus::Cancelled => "cancelled",
        }
    }

    /// The place of the variant in the registry.
    pub open spec fn slot(self) -> int {
        match self {
            CompactionStatus::Applied => 0,
            CompactionStatus::Noop => 1,
            CompactionStatus::Stale => 2,
            CompactionStatus::Coalesced => 3,
            CompactionStatus::PrepareError => 4,
            CompactionStatus::InstallError => 5,
            CompactionStatus::Cancelled => 6,
        }
    }

    /// The place of the variant in the registry.
    fn index(self) -> (r: usize)
        ensures
            r == self.slot(),
            r < 7,
    {
        match self {
            CompactionStatus::Applied => 0,
            CompactionStatus::Noop => 1,
            CompactionStatus::Stale => 2,
            CompactionStatus::Coalesced => 3,
            CompactionStatus::PrepareError => 4,
            CompactionStatus::InstallError => 5,
            CompactionStatus::Cancelled => 6,
        }
    }
}

// ---------------------------------------------------------------------------
// Histograms
// ---------------------------------------------------------------------------

/// The number of bounded buckets; one more holds what is slower than them all.
pub const BOUNDED_BUCKETS: usize = 14;

/// The upper bound of bounded bucket `i`, in nanoseconds: from half a
/// millisecond to five minutes.
pub open spec fn bound_nanos(i: int) -> nat {
    if i == 0 {
        500_000
    } else if i == 1 {
        1_000_000
    } else if i == 2 {
        5_000_000
    } else if i == 3 {
        10_000_000
    } else if i == 4 {
        50_000_000
    } else if i == 5 {
        100_000_000
    } else if i == 6 {
        500_000_000
    } else if i == 7 {
        1_000_000_000
    } else if i == 8 {
        5_000_000_000
    } else if i == 9 {
        10_000_000_000
    } else if i == 10 {
        30_000_000_000
    } else if i == 11 {
        60_000_000_000
    } else if i == 12 {
        120_000_000_000
    } else {
        300_000_000_000
    }
}

/// The upper bound of bounded bucket `i`, as the `le` label writes it in
/// seconds.
pub open spec fn bound_label(i: int) -> Seq<char> {
    if i == 0 {
        "0.0005"@
    } else if i == 1 {
        "0.001"@
    } else if i == 2 {
        "0.005"@
    } else if i == 3 {
        "0.01"@
    } else if i == 4 {
        "0.05"@
    } else if i == 5 {
        "0.1"@
    } else if i == 6 {
        "0.5"@
    } else if i == 7 {
        "1.0"@
    } else if i == 8 {
        "5.0"@
    } else if i == 9 {
        "10.0"@
    } else if i == 10 {
        "30.0"@
    } else if i == 11 {
        "60.0"@
    } else if i == 12 {
        "120.0"@
    } else {
        "300.0"@
    }
}

/// The upper bound of bounded bucket `i`, in nanoseconds.
fn bound_nanos_of(i: usize) -> (r: u128)
    requires
        i < BOUNDED_BUCKETS,
    ensures
        r == bound_nanos(i as int),
{
    if i == 0 {
        500_000
    } else if i == 1 {
        1_000_000
    } else if i == 2 {
        5_000_000
    } else if i == 3 {
        10_000_000
    } else if i == 4 {
        50_000_000
    } else if i == 5 {
        100_000_000
    } else if i == 6 {
        500_000_000
    } else if i == 7 {
        1_000_000_000
    } else if i == 8 {
        5_000_000_000
    } else if i == 9 {
        10_000_000_000
    } else if i == 10 {
        30_000_000_000
    } else if i == 11 {
        60_000_000_000
    } else if i == 12 {
        120_000_000_000
    } else {
        300_000_000_000
    }
}

/// The upper bound of bounded bucket `i`, as the `le` label writes it.
fn bound_label_of(i: usize) -> (r: &'static str)
    requires
        i < BOUNDED_BUCKETS,
    ensures
        r@ == bound_label(i as int),
{
    if i == 0 {
        "0.0005"
    } else if i == 1 {
        "0.001"
    } else if i == 2 {
        "0.005"
    } else if i == 3 {
        "0.01"
    } else if i == 4 {
        "0.05"
    } else if i == 5 {
        "0.1"
    } else if i == 6 {
        "0.5"
    } else if i == 7 {
        "1.0"
    } else if i == 8 {
        "5.0"
    } else if i == 9 {
        "10.0"
    } else if i == 10 {
        "30.0"
    } else if i == 11 {
        "60.0"
    } else if i == 12 {
        "120.0"
    } else {
        "300.0"
    }
}

/// The first bucket from `i` on whose bound is not below `n` nanoseconds; the
/// overflow bucket when there is none.
pub open spec fn bucket_from(n: nat, i: int) -> int
    decreases BOUNDED_BUCKETS - i,
{
    if i >= BOUNDED_BUCKETS || n <= bound_nanos(i) {
        i
    } else {
        bucket_from(n, i + 1)
    }
}

/// The bucket that an observation of `n` nanoseconds falls in.
pub open spec fn bucket(n: nat) -> int {
    bucket_from(n, 0)
}

/// `n` as an unsigned 64-bit counter holds it.
pub open spec fn wrap(n: int) -> u64 {
    (n % 0x1_0000_0000_0000_0000) as u64
}

/// What a histogram holds.
#[verifier::ext_equal]
pub struct HistogramModel {
    /// Observations per bucket, not cumulative.
    pub counts: Seq<u64>,
    pub sum_micros: u64,
    pub count: u64,
}

/// The sum of the first `n` numbers.
pub open spec fn prefix_sum(counts: Seq<u64>, n: int) -> nat
    decreases n,
{
    if n <= 0 {
        0
    } else {
        prefix_sum(counts, n - 1) + counts[n - 1] as nat
    }
}

impl HistogramModel {
    /// A histogram that has seen nothing.
    pub open spec fn empty() -> HistogramModel {
        HistogramModel { counts: Seq::new(15, |i: int| 0u64), sum_micros: 0, count: 0 }
    }

    /// Whether every bucket has its counter.
    pub open spec fn wf(self) -> bool {
        self.counts.len() == BOUNDED_BUCKETS + 1
    }

    /// One more observation, of `n` nanoseconds.
    pub open spec fn observed(self, n: nat) -> HistogramModel {
        HistogramModel {
            counts: self.counts.update(bucket(n), wrap(self.counts[bucket(n)] + 1)),
            sum_micros: wrap(self.sum_micros + n / 1000),
            count: wrap(self.count + 1),
        }
    }

    /// What the bounded bucket `i` shows: the observations up to its bound,
    /// never more than the observations in all.
    pub open spec fn shown(self, i: int) -> u64 {
        let cumulative = wrap(prefix_sum(self.counts, i + 1) as int);
        if cumulative <= self.count {
            cumulative
        } else {
            self.count
        }
    }

    /// The line of the bounded bucket `i`.
    pub open spec fn bucket_line(self, name: Seq<char>, labels: Seq<char>, i: int) -> Seq<char> {
        sample(
            name + "_bucket"@,
            labels + ",le=\""@ + bound_label(i) + "\""@,
            decimal(self.shown(i) as nat),
        )
    }

    /// The lines of one label set: the bounded buckets, the overflow bucket,
    /// the sum in seconds and the count.
    pub open spec fn lines(self, name: Seq<char>, labels: Seq<char>) -> Seq<Seq<char>> {
        Seq::new(BOUNDED_BUCKETS as nat, |i: int| self.bucket_line(name, labels, i)) + seq![
            sample(
                name + "_bucket"@,
                labels + ",le=\"+Inf\""@,
                decimal(self.count as nat),
            ),
            sample(
                name + "_sum"@,
                labels,
                scaled_decimal(self.sum_micros as nat, 1_000_000),
            ),
            sample(name + "_count"@, labels, decimal(self.count as nat)),
        ]
    }
}

/// A latency histogram: a count per bucket, the running sum and the number of
/// observations.
#[derive(Debug)]
pub struct Histogram {
    counts: [u64; 15],
    sum_micros: u64,
    count: u64,
}

impl View for Histogram {
    type V = HistogramModel;

    closed spec fn view(&self) -> HistogramModel {
        HistogramModel { counts: self.counts@, sum_micros: self.sum_micros, count: self.count }
    }
}

impl Histogram {
    /// A histogram that has seen nothing.
    pub fn new() -> (r: Histogram)
        ensures
            r@ == HistogramModel::empty(),
    {
        let r = Histogram { counts: [0;15], sum_micros: 0, count: 0 };
        assert(r@ =~= HistogramModel::empty());
        r
    }

    /// Records one observation in its bucket, in the sum and in the count.
    pub fn observe(&mut self, elapsed: Duration)
        ensures
            final(self)@ == old(self)@.observed(nanos(elapsed)),
    {
        let n: u128 = elapsed.as_nanos();
        let mut i: usize = 0;
        while i < BOUNDED_BUCKETS && n > bound_nanos_of(i)
            invariant
                i <= BOUNDED_BUCKETS,
                bucket(n as nat) == bucket_from(n as nat, i as int),
            decreases BOUNDED_BUCKETS - i,
        {
            i = i + 1;
        }
        let micros: u64 = ((n / 1000) % 0x1_0000_0000_0000_0000) as u64;
        self.counts[i] = self.counts[i].wrapping_add(1);
        self.sum_micros = self.sum_micros.wrapping_add(micros);
        self.count = self.count.wrapping_add(1);
        assert(final(self)@ =~= old(self)@.observed(n as nat));
    }

    /// Adds the lines of one label set to a page. `labels` is the inner label
    /// list without the braces.
    pub fn render_onto(&self, page: Page, name: &str, labels: &str) -> (out: Page)
        ensures
            out@ == page@ + self@.lines(name@, labels@),
    {
        let ghost before = page@;
        let bucket_name = concat2(name, "_bucket");
        let mut page = page;
        let mut cumulative: u64 = 0;
        let mut i: usize = 0;
        assert(page@ =~= before + Seq::new(
            0,
            |j: int| self@.bucket_line(name@, labels@, j),
        ));
        while i < BOUNDED_BUCKETS
            invariant
                i <= BOUNDED_BUCKETS,
                cumulative == wrap(prefix_sum(self@.counts, i as int) as int),
                bucket_name@ == name@ + "_bucket"@,
                page@ == before + Seq::new(
                    i as nat,
                    |j: int| self@.bucket_line(name@, labels@, j),
                ),
            decreases BOUNDED_BUCKETS - i,
        {
            cumulative = cumulative.wrapping_add(self.counts[i]);
            let shown: u64 = if cumulative <= self.count {
                cumulative
            } else {
                self.count
            };
            let with_le = concat2(labels, ",le=\"");
            let with_bound = concat2(with_le.as_str(), bound_label_of(i));
            let all_labels = concat2(with_bound.as_str(), "\"");
            page = page.labelled_number(bucket_name.as_str(), all_labels.as_str(), shown);
            proof {
                assert(self@.counts[i as int] == self.counts@[i as int]);
                assert(shown == self@.shown(i as int));
                assert(before + Seq::new(
                    (i + 1) as nat,
                    |j: int| self@.bucket_line(name@, labels@, j),
                ) =~= (before + Seq::new(
                    i as nat,
                    |j: int| self@.bucket_line(name@, labels@, j),
                )).push(self@.bucket_line(name@, labels@, i as int)));
            }
            i = i + 1;
        }
        let overflow = concat2(labels, ",le=\"+Inf\"");
        let page = page.labelled_number(bucket_name.as_str(), overflow.as_str(), self.count);
        let sum_name = concat2(name, "_sum");
        let sum = seconds_of_micros(self.sum_micros);
        let page = page.labelled(sum_name.as_str(), labels, sum.as_str());
        let count_name = concat2(name, "_count");
        let page = page.labelled_number(count_name.as_str(), labels, self.count);
        assert(page@ =~= before + self@.lines(name@, labels@));
        page
    }

    /// Appends the `_bucket`, `_sum` and `_count` lines of one label set.
    pub fn render_into(&self, out: &mut String, name: &str, labels: &str)
        ensures
            final(out)@ == old(out)@ + page_text(self@.lines(name@, labels@)),
    {
        let page = self.render_onto(Page::new(), name, labels);
        assert(page@ =~= self@.lines(name@, labels@));
        let text = page.finish();
        out.append(text.as_str());
    }
}

/// `a` followed by `b`.
fn concat2(a: &str, b: &str) -> (out: String)
    ensures
        out@ == a@ + b@,
{
    let mut out = a.to_owned();
    out.append(b);
    out
}

/// The buckets of a rendered histogram never decrease and never pass the count,
/// as long as the observations fit the counter.
pub proof fn law_buckets_are_cumulative(h: HistogramModel, i: int, j: int)
    requires
        h.counts.len() == 15,
        prefix_sum(h.counts, 15) <= u64::MAX,
        0 <= i <= j < BOUNDED_BUCKETS,
    ensures
        h.shown(i) <= h.shown(j) <= h.count,
{
    lemma_prefix_sum_grows(h.counts, i + 1, j + 1);
    lemma_prefix_sum_grows(h.counts, j + 1, 15);
}

/// A longer prefix has no smaller sum.
proof fn lemma_prefix_sum_grows(counts: Seq<u64>, m: int, n: int)
    requires
        m <= n,
    ensures
        prefix_sum(counts, m) <= prefix_sum(counts, n),
    decreases n - m,
{
    if m < n {
        lemma_prefix_sum_grows(counts, m, n - 1);
    }
}

/// Updating one number moves the sum by the difference.
proof fn lemma_prefix_sum_update(counts: Seq<u64>, at: int, value: u64, n: int)
    requires
        0 <= at < counts.len(),
        n <= counts.len(),
    ensures
        prefix_sum(counts.update(at, value), n) == if at < n {
            prefix_sum(counts, n) - counts[at] + value
        } else {
            prefix_sum(counts, n) as int
        },
    decreases n,
{
    if n > 0 {
        lemma_prefix_sum_update(counts, at, value, n - 1);
    }
}

/// The bucket of an observation is the first whose bound is not below it.
proof fn lemma_bucket(n: nat, i: int)
    requires
        0 <= i <= BOUNDED_BUCKETS,
    ensures
        i <= bucket_from(n, i) <= BOUNDED_BUCKETS,
        bucket_from(n, i) < BOUNDED_BUCKETS ==> n <= bound_nanos(bucket_from(n, i)),
        forall|k: int| i <= k < bucket_from(n, i) ==> n > #[trigger] bound_nanos(k),
    decreases BOUNDED_BUCKETS - i,
{
    if i < BOUNDED_BUCKETS && n > bound_nanos(i) {
        lemma_bucket(n, i + 1);
    }
}

/// Every observation is in exactly one bucket: while the count has room, the
/// buckets keep summing up to it.
pub proof fn law_observation_is_counted_once(h: HistogramModel, n: nat)
    requires
        h.counts.len() == 15,
        prefix_sum(h.counts, 15) == h.count,
        h.count < u64::MAX,
    ensures
        prefix_sum(h.observed(n).counts, 15) == h.observed(n).count,
        h.observed(n).count == h.count + 1,
        bucket(n) < BOUNDED_BUCKETS ==> n <= bound_nanos(bucket(n)),
        forall|k: int| 0 <= k < bucket(n) ==> n > #[trigger] bound_nanos(k),
{
    lemma_bucket(n, 0);
    lemma_prefix_sum_update(h.counts, bucket(n), wrap(h.counts[bucket(n)] + 1), 15);
    lemma_prefix_sum_grows(h.counts, bucket(n) + 1, 15);
}

// ---------------------------------------------------------------------------
// The slow-query record
// ---------------------------------------------------------------------------

/// The most bytes of a statement that a slow-query record keeps.
pub const SANITIZED_MAX: usize = 300;

/// The number of bytes that UTF-8 takes for `c`.
pub open spec fn char_width(c: char) -> nat {
    let n = c as u32;
    if n < 0x80 {
        1
    } else if n < 0x800 {
        2
    } else if n < 0x10000 {
        3
    } else {
        4
    }
}

/// The number of bytes that UTF-8 takes for `s`.
pub open spec fn text_width(s: Seq<char>) -> nat
    decreases s.len(),
{
    if s.len() == 0 {
        0
    } else {
        text_width(s.drop_last()) + char_width(s.last())
    }
}

/// The longest prefix of `s` of at most `max` bytes.
pub open spec fn fitting(s: Seq<char>, max: nat) -> Seq<char>
    decreases s.len(),
{
    if text_width(s) <= max {
        s
    } else {
        fitting(s.drop_last(), max)
    }
}

/// A statement as the slow-query record keeps it: whitespace collapsed, and cut
/// at a character boundary when it is longer than the limit.
pub open spec fn sanitized(query: Seq<char>) -> Seq<char> {
    let text = collapsed(query);
    if text_width(text) <= SANITIZED_MAX {
        text
    } else {
        fitting(text, SANITIZED_MAX as nat) + "..."@
    }
}

/// The number of bytes that UTF-8 takes for `c`.
fn char_width_of(c: char) -> (r: usize)
    ensures
        r == char_width(c),
{
    let n: u32 = c as u32;
    if n < 0x80 {
        1
    } else if n < 0x800 {
        2
    } else if n < 0x10000 {
        3
    } else {
        4
    }
}

/// Cutting the end off never makes a text wider.
proof fn lemma_width_prefix(s: Seq<char>, n: int)
    requires
        0 <= n <= s.len(),
    ensures
        text_width(s.take(n)) <= text_width(s),
    decreases s.len(),
{
    if n == s.len() {
        assert(s.take(n) =~= s);
    } else {
        lemma_width_prefix(s.drop_last(), n);
        assert(s.drop_last().take(n) =~= s.take(n));
    }
}

/// The first prefix that is followed by one too wide is the longest fitting one.
proof fn lemma_fitting(s: Seq<char>, n: int, max: nat)
    requires
        0 <= n < s.len(),
        text_width(s.take(n)) <= max,
        text_width(s.take(n + 1)) > max,
    ensures
        fitting(s, max) == s.take(n),
    decreases s.len(),
{
    lemma_width_prefix(s, n + 1);
    if s.len() == n + 1 {
        assert(s.drop_last() =~= s.take(n));
        assert(fitting(s.drop_last(), max) == s.drop_last());
    } else {
        assert(s.drop_last().take(n) =~= s.take(n));
        assert(s.drop_last().take(n + 1) =~= s.take(n + 1));
        lemma_fitting(s.drop_last(), n, max);
    }
}

/// A statement as the slow-query record keeps it.
pub fn sanitize_query(query: &str) -> (out: String)
    ensures
        out@ == sanitized(query@),
{
    let text = collapse_whitespace(query);
    let chars = chars_of(text.as_str());
    let mut width: usize = 0;
    let mut i: usize = 0;
    assert(text@.take(0) =~= Seq::<char>::empty());
    while i < chars.len()
        invariant
            i <= chars@.len(),
            chars@ == text@,
            text@ == collapsed(query@),
            width == text_width(text@.take(i as int)),
            width <= SANITIZED_MAX,
        decreases chars.len() - i,
    {
        let w: usize = char_width_of(chars[i]);
        assert(text@.take(i + 1).drop_last() =~= text@.take(i as int));
        if width + w > SANITIZED_MAX {
            let mut cut = string_of(&chars, 0, i);
            proof {
                lemma_fitting(text@, i as int, SANITIZED_MAX as nat);
                lemma_width_prefix(text@, i + 1);
                assert(cut@ =~= text@.take(i as int));
            }
            cut.append("...");
            return cut;
        }
        width = width + w;
        i = i + 1;
    }
    assert(text@.take(i as int) =~= text@);
    text
}

/// What the slow-query log says of one query.
#[derive(Debug)]
pub struct SlowQuery {
    pub protocol: &'static str,
    pub kind: &'static str,
    pub status: &'static str,
    pub elapsed_ms: u64,
    pub query: String,
}

impl SlowQuery {
    /// Whether the record says this of a query: its text is collapsed and cut.
    pub open spec fn tells(
        self,
        protocol: Protocol,
        kind: Option<QueryKind>,
        ok: bool,
        elapsed: nat,
        query: Seq<char>,
    ) -> bool {
        &&& self.protocol@ == protocol.label()
        &&& self.kind@ == (match kind {
            Some(k) => k.label(),
            None => "unknown"@,
        })
        &&& self.status@ == (if ok {
            "ok"@
        } else {
            "error"@
        })
        &&& self.elapsed_ms == wrap((elapsed / 1_000_000) as int)
        &&& self.query@ == sanitized(query)
    }
}

// ---------------------------------------------------------------------------
// The registry
// ---------------------------------------------------------------------------

/// Counters and latencies of one serving path.
#[verifier::ext_equal]
pub struct ProtoModel {
    pub ok: u64,
    pub err: u64,
    pub read: HistogramModel,
    pub write: HistogramModel,
}

impl ProtoModel {
    pub open spec fn empty() -> ProtoModel {
        ProtoModel {
            ok: 0,
            err: 0,
            read: HistogramModel::empty(),
            write: HistogramModel::empty(),
        }
    }

    /// One more completed query.
    pub open spec fn observed(self, kind: Option<QueryKind>, ok: bool, n: nat) -> ProtoModel {
        ProtoModel {
            ok: if ok { wrap(self.ok + 1) } else { self.ok },
            err: if ok { self.err } else { wrap(self.err + 1) },
            read: if kind == Some(QueryKind::Read) { self.read.observed(n) } else { self.read },
            write: if kind == Some(QueryKind::Write) { self.write.observed(n) } else { self.write },
        }
    }

    /// The `namidb_queries_total` samples of one path.
    pub open spec fn total_lines(self, proto: Seq<char>) -> Seq<Seq<char>> {
        seq![
            sample(
                "namidb_queries_total"@,
                labels2("protocol"@, proto, "status"@, "ok"@),
                decimal(self.ok as nat),
            ),
            sample(
                "namidb_queries_total"@,
                labels2("protocol"@, proto, "status"@, "error"@),
                decimal(self.err as nat),
            ),
        ]
    }

    /// The `namidb_query_duration_seconds` samples of one path.
    pub open spec fn duration_lines(self, proto: Seq<char>) -> Seq<Seq<char>> {
        self.read.lines(
            "namidb_query_duration_seconds"@,
            labels2("protocol"@, proto, "kind"@, "read"@),
        ) + self.write.lines(
            "namidb_query_duration_seconds"@,
            labels2("protocol"@, proto, "kind"@, "write"@),
        )
    }
}

#[derive(Debug)]
struct ProtoMetrics {
    ok: u64,
    err: u64,
    read: Histogram,
    write: Histogram,
}

impl View for ProtoMetrics {
    type V = ProtoModel;

    closed spec fn view(&self) -> ProtoModel {
        ProtoModel { ok: self.ok, err: self.err, read: self.read@, write: self.write@ }
    }
}

impl ProtoMetrics {
    fn new() -> (r: ProtoMetrics)
        ensures
            r@ == ProtoModel::empty(),
    {
        ProtoMetrics { ok: 0, err: 0, read: Histogram::new(), write: Histogram::new() }
    }

    fn observe(&mut self, kind: Option<QueryKind>, ok: bool, elapsed: Duration)
        ensures
            final(self)@ == old(self)@.observed(kind, ok, nanos(elapsed)),
    {
        if ok {
            self.ok = self.ok.wrapping_add(1);
        } else {
            self.err = self.err.wrapping_add(1);
        }
        match kind {
            Some(QueryKind::Read) => self.read.observe(elapsed),
            Some(QueryKind::Write) => self.write.observe(elapsed),
            None => {},
        }
    }

    fn totals_onto(&self, page: Page, proto: &str) -> (out: Page)
        ensures
            out@ == page@ + self@.total_lines(proto@),
    {
        let ghost before = page@;
        let ok = labels2_text("protocol", proto, "status", "ok");
        let err = labels2_text("protocol", proto, "status", "error");
        let page = page.labelled_number("namidb_queries_total", ok.as_str(), self.ok).labelled_number(
            "namidb_queries_total",
            err.as_str(),
            self.err,
        );
        assert(page@ =~= before + self@.total_lines(proto@));
        page
    }

    fn durations_onto(&self, page: Page, proto: &str) -> (out: Page)
        ensures
            out@ == page@ + self@.duration_lines(proto@),
    {
        let ghost before = page@;
        let read = labels2_text("protocol", proto, "kind", "read");
        let write = labels2_text("protocol", proto, "kind", "write");
        let page = self.read.render_onto(page, "namidb_query_duration_seconds", read.as_str());
        let page = self.write.render_onto(page, "namidb_query_duration_seconds", write.as_str());
        assert(page@ =~= before + self@.duration_lines(proto@));
        page
    }
}

/// Waits for the writer lock with one purpose.
#[verifier::ext_equal]
pub struct LockModel {
    pub wait: HistogramModel,
    pub timeouts: u64,
}

impl LockModel {
    pub open spec fn empty() -> LockModel {
        LockModel { wait: HistogramModel::empty(), timeouts: 0 }
    }

    /// One more wait; a wait that ran out of time is counted as such.
    pub open spec fn observed(self, n: nat, acquired: bool) -> LockModel {
        LockModel {
            wait: self.wait.observed(n),
            timeouts: if acquired { self.timeouts } else { wrap(self.timeouts + 1) },
        }
    }

    pub open spec fn wait_lines(self, kind: WriterLockKind) -> Seq<Seq<char>> {
        self.wait.lines("namidb_writer_lock_wait_seconds"@, label("purpose"@, kind.label()))
    }

    pub open spec fn timeout_line(self, kind: WriterLockKind) -> Seq<char> {
        sample(
            "namidb_writer_lock_timeouts_total"@,
            label("purpose"@, kind.label()),
            decimal(self.timeouts as nat),
        )
    }
}

#[derive(Debug)]
struct WriterLockMetrics {
    wait: Histogram,
    timeouts: u64,
}

impl View for WriterLockMetrics {
    type V = LockModel;

    closed spec fn view(&self) -> LockModel {
        LockModel { wait: self.wait@, timeouts: self.timeouts }
    }
}

impl WriterLockMetrics {
    fn new() -> (r: WriterLockMetrics)
        ensures
            r@ == LockModel::empty(),
    {
        WriterLockMetrics { wait: Histogram::new(), timeouts: 0 }
    }

    fn observe(&mut self, wait: Duration, acquired: bool)
        ensures
            final(self)@ == old(self)@.observed(nanos(wait), acquired),
    {
        self.wait.observe(wait);
        if !acquired {
            self.timeouts = self.timeouts.wrapping_add(1);
        }
    }

    fn wait_onto(&self, page: Page, kind: WriterLockKind) -> (out: Page)
        ensures
            out@ == page@ + self@.wait_lines(kind),
    {
        let labels = label_text("purpose", kind.as_str());
        self.wait.render_onto(page, "namidb_writer_lock_wait_seconds", labels.as_str())
    }

    fn timeout_onto(&self, page: Page, kind: WriterLockKind) -> (out: Page)
        ensures
            out@ == page@.push(self@.timeout_line(kind)),
    {
        let labels = label_text("purpose", kind.as_str());
        page.labelled_number("namidb_writer_lock_timeouts_total", labels.as_str(), self.timeouts)
    }
}

/// Compaction attempts of one trigger.
#[verifier::ext_equal]
pub struct CompactionModel {
    /// One histogram per phase.
    pub phases: Seq<HistogramModel>,
    /// One counter per terminal status.
    pub statuses: Seq<u64>,
    /// The deepest L0 bucket at the last boundary that was really sampled.
    pub l0_before: u64,
    pub l0_after: u64,
    pub removed_ssts: u64,
    pub written_ssts: u64,
}

impl CompactionModel {
    pub open spec fn empty() -> CompactionModel {
        CompactionModel {
            phases: Seq::new(3, |i: int| HistogramModel::empty()),
            statuses: Seq::new(7, |i: int| 0u64),
            l0_before: 0,
            l0_after: 0,
            removed_ssts: 0,
            written_ssts: 0,
        }
    }

    /// Whether every phase and every status has its entry.
    pub open spec fn wf(self) -> bool {
        &&& self.phases.len() == 3
        &&& forall|i: int| 0 <= i < 3 ==> (#[trigger] self.phases[i]).wf()
        &&& self.statuses.len() == 7
    }

    pub open spec fn phase_observed(self, phase: CompactionPhase, n: nat) -> CompactionModel {
        CompactionModel {
            phases: self.phases.update(phase.slot(), self.phases[phase.slot()].observed(n)),
            ..self
        }
    }

    /// One more attempt. A coalesced or cancelled attempt sampled no boundary
    /// of its own, so it leaves the last one standing.
    pub open spec fn result_observed(
        self,
        status: CompactionStatus,
        l0_before: usize,
        l0_after: usize,
        removed: usize,
        written: usize,
    ) -> CompactionModel {
        let sampled = !(status is Coalesced || status is Cancelled);
        CompactionModel {
            phases: self.phases,
            statuses: self.statuses.update(
                status.slot(),
                wrap(self.statuses[status.slot()] + 1),
            ),
            l0_before: if sampled { l0_before as u64 } else { self.l0_before },
            l0_after: if sampled { l0_after as u64 } else { self.l0_after },
            removed_ssts: wrap(self.removed_ssts + removed),
            written_ssts: wrap(self.written_ssts + written),
        }
    }

    pub open spec fn phase_lines(
        self,
        trigger: CompactionTrigger,
        phase: CompactionPhase,
    ) -> Seq<Seq<char>> {
        self.phases[phase.slot()].lines(
            "namidb_compaction_phase_duration_seconds"@,
            labels2("trigger"@, trigger.label(), "phase"@, phase.label()),
        )
    }

    pub open spec fn all_phase_lines(self, trigger: CompactionTrigger) -> Seq<Seq<char>> {
        self.phase_lines(trigger, CompactionPhase::Prepare) + self.phase_lines(
            trigger,
            CompactionPhase::InstallWait,
        ) + self.phase_lines(trigger, CompactionPhase::InstallHold)
    }

    pub open spec fn status_line(
        self,
        trigger: CompactionTrigger,
        status: CompactionStatus,
    ) -> Seq<char> {
        sample(
            "namidb_compactions_total"@,
            labels2("trigger"@, trigger.label(), "status"@, status.label()),
            decimal(self.statuses[status.slot()] as nat),
        )
    }

    pub open spec fn status_lines(self, trigger: CompactionTrigger) -> Seq<Seq<char>> {
        seq![
            self.status_line(trigger, CompactionStatus::Applied),
            self.status_line(trigger, CompactionStatus::Noop),
            self.status_line(trigger, CompactionStatus::Stale),
            self.status_line(trigger, CompactionStatus::Coalesced),
            self.status_line(trigger, CompactionStatus::PrepareError),
            self.status_line(trigger, CompactionStatus::InstallError),
            self.status_line(trigger, CompactionStatus::Cancelled),
        ]
    }

    pub open spec fn backlog_lines(self, trigger: CompactionTrigger) -> Seq<Seq<char>> {
        seq![
            sample(
                "namidb_compaction_l0_backlog_ssts"@,
                labels2("trigger"@, trigger.label(), "stage"@, "before"@),
                decimal(self.l0_before as nat),
            ),
            sample(
                "namidb_compaction_l0_backlog_ssts"@,
                labels2("trigger"@, trigger.label(), "stage"@, "after"@),
                decimal(self.l0_after as nat),
            ),
        ]
    }

    pub open spec fn sst_lines(self, trigger: CompactionTrigger) -> Seq<Seq<char>> {
        seq![
            sample(
                "namidb_compaction_ssts_total"@,
                labels2("trigger"@, trigger.label(), "action"@, "removed"@),
                decimal(self.removed_ssts as nat),
            ),
            sample(
                "namidb_compaction_ssts_total"@,
                labels2("trigger"@, trigger.label(), "action"@, "written"@),
                decimal(self.written_ssts as nat),
            ),
        ]
    }
}

#[derive(Debug)]
struct CompactionMetrics {
    phases: [Histogram; 3],
    statuses: [u64; 7],
    l0_before: u64,
    l0_after: u64,
    removed_ssts: u64,
    written_ssts: u64,
}

impl View for CompactionMetrics {
    type V = CompactionModel;

    closed spec fn view(&self) -> CompactionModel {
        CompactionModel {
            phases: self.phases@.map_values(|h: Histogram| h@),
            statuses: self.statuses@,
            l0_before: self.l0_before,
            l0_after: self.l0_after,
            removed_ssts: self.removed_ssts,
            written_ssts: self.written_ssts,
        }
    }
}

impl CompactionMetrics {
    fn new() -> (r: CompactionMetrics)
        ensures
            r@ == CompactionModel::empty(),
    {
        let r = CompactionMetrics {
            phases: [Histogram::new(), Histogram::new(), Histogram::new()],
            statuses: [0;7],
            l0_before: 0,
            l0_after: 0,
            removed_ssts: 0,
            written_ssts: 0,
        };
        assert(r@ =~= CompactionModel::empty());
        r
    }

    fn observe_phase(&mut self, phase: CompactionPhase, elapsed: Duration)
        ensures
            final(self)@ == old(self)@.phase_observed(phase, nanos(elapsed)),
    {
        let i: usize = phase.index();
        self.phases[i].observe(elapsed);
        assert(final(self)@ =~= old(self)@.phase_observed(phase, nanos(elapsed)));
    }

    fn observe_result(
        &mut self,
        status: CompactionStatus,
        l0_before: usize,
        l0_after: usize,
        removed: usize,
        written: usize,
    )
        ensures
            final(self)@ == old(self)@.result_observed(
                status,
                l0_before,
                l0_after,
                removed,
                written,
            ),
    {
        let i: usize = status.index();
        self.statuses[i] = self.statuses[i].wrapping_add(1);
        match status {
            CompactionStatus::Coalesced | CompactionStatus::Cancelled => {},
            _ => {
                self.l0_before = l0_before as u64;
                self.l0_after = l0_after as u64;
            },
        }
        self.removed_ssts = self.removed_ssts.wrapping_add(removed as u64);
        self.written_ssts = self.written_ssts.wrapping_add(written as u64);
        assert(final(self)@ =~= old(self)@.result_observed(
            status,
            l0_before,
            l0_after,
            removed,
            written,
        ));
    }

    fn phase_onto(
        &self,
        page: Page,
        trigger: CompactionTrigger,
        phase: CompactionPhase,
    ) -> (out: Page)
        ensures
            out@ == page@ + self@.phase_lines(trigger, phase),
    {
        let labels = labels2_text("trigger", trigger.as_str(), "phase", phase.as_str());
        let i: usize = phase.index();
        self.phases[i].render_onto(
            page,
            "namidb_compaction_phase_duration_seconds",
            labels.as_str(),
        )
    }

    fn phases_onto(&self, page: Page, trigger: CompactionTrigger) -> (out: Page)
        ensures
            out@ == page@ + self@.all_phase_lines(trigger),
    {
        let ghost before = page@;
        let page = self.phase_onto(page, trigger, CompactionPhase::Prepare);
        let page = self.phase_onto(page, trigger, CompactionPhase::InstallWait);
        let page = self.phase_onto(page, trigger, CompactionPhase::InstallHold);
        assert(page@ =~= before + self@.all_phase_lines(trigger));
        page
    }

    fn status_onto(
        &self,
        page: Page,
        trigger: CompactionTrigger,
        status: CompactionStatus,
    ) -> (out: Page)
        ensures
            out@ == page@.push(self@.status_line(trigger, status)),
    {
        let labels = labels2_text("trigger", trigger.as_str(), "status", status.as_str());
        let i: usize = status.index();
        page.labelled_number("namidb_compactions_total", labels.as_str(), self.statuses[i])
    }

    fn statuses_onto(&self, page: Page, trigger: CompactionTrigger) -> (out: Page)
        ensures
            out@ == page@ + self@.status_lines(trigger),
    {
        let ghost before = page@;
        let page = self.status_onto(page, trigger, CompactionStatus::Applied);
        let page = self.status_onto(page, trigger, CompactionStatus::Noop);
        let page = self.status_onto(page, trigger, CompactionStatus::Stale);
        let page = self.status_onto(page, trigger, CompactionStatus::Coalesced);
        let page = self.status_onto(page, trigger, CompactionStatus::PrepareError);
        let page = self.status_onto(page, trigger, CompactionStatus::InstallError);
        let page = self.status_onto(page, trigger, CompactionStatus::Cancelled);
        assert(page@ =~= before + self@.status_lines(trigger));
        page
    }

    fn backlog_onto(&self, page: Page, trigger: CompactionTrigger) -> (out: Page)
        ensures
            out@ == page@ + self@.backlog_lines(trigger),
    {
        let ghost start = page@;
        let before = labels2_text("trigger", trigger.as_str(), "stage", "before");
        let after = labels2_text("trigger", trigger.as_str(), "stage", "after");
        let page = page.labelled_number(
            "namidb_compaction_l0_backlog_ssts",
            before.as_str(),
            self.l0_before,
        ).labelled_number("namidb_compaction_l0_backlog_ssts", after.as_str(), self.l0_after);
        assert(page@ =~= start + self@.backlog_lines(trigger));
        page
    }

    fn ssts_onto(&self, page: Page, trigger: CompactionTrigger) -> (out: Page)
        ensures
            out@ == page@ + self@.sst_lines(trigger),
    {
        let ghost start = page@;
        let removed = labels2_text("trigger", trigger.as_str(), "action", "removed");
        let written = labels2_text("trigger", trigger.as_str(), "action", "written");
        let page = page.labelled_number(
            "namidb_compaction_ssts_total",
            removed.as_str(),
            self.removed_ssts,
        ).labelled_number("namidb_compaction_ssts_total", written.as_str(), self.written_ssts);
        assert(page@ =~= start + self@.sst_lines(trigger));
        page
    }
}

/// What a scrape reads from the storage engine.
#[derive(Debug, Clone, Copy)]
pub struct StorageGauges {
    pub cache_max_bytes: u64,
    pub cache_capacity_bytes: u64,
    pub cache_resident_bytes: u64,
    pub search_index_capacity_bytes: u64,
    /// Present when the engine serves vector indexes.
    pub vector_index: Option<VectorIndexGauges>,
    /// Present when the engine serves full-text indexes: the indexes that were
    /// rejected for their size.
    pub text_index_rejections: Option<u64>,
    pub search_routes: SearchRoutes,
}

/// How searches were served: by an index made for them, or by the fallback that
/// finds the same without one.
#[derive(Debug, Clone, Copy)]
pub struct SearchRoutes {
    pub text_native: u64,
    pub text_fallback: u64,
    pub vector_native: u64,
    pub vector_fallback: u64,
}

impl SearchRoutes {
    /// The sample of one kind and route.
    pub open spec fn line(kind: Seq<char>, route: Seq<char>, count: u64) -> Seq<char> {
        sample(
            "namidb_search_route_total"@,
            labels2("kind"@, kind, "route"@, route),
            decimal(count as nat),
        )
    }

    /// The searches by kind and route.
    pub open spec fn lines(self) -> Seq<Seq<char>> {
        family_head(
            "namidb_search_route_total"@,
            "Searches by index kind and the route that served them."@,
            "counter"@,
        ) + seq![
            SearchRoutes::line("text"@, "native"@, self.text_native),
            SearchRoutes::line("text"@, "fallback"@, self.text_fallback),
            SearchRoutes::line("vector"@, "native"@, self.vector_native),
            SearchRoutes::line("vector"@, "fallback"@, self.vector_fallback),
        ]
    }

    /// Adds the sample of one kind and route to a page.
    fn line_onto(page: Page, kind: &str, route: &str, count: u64) -> (out: Page)
        ensures
            out@ == page@.push(SearchRoutes::line(kind@, route@, count)),
    {
        let labels = labels2_text("kind", kind, "route", route);
        page.labelled_number("namidb_search_route_total", labels.as_str(), count)
    }

    /// Adds the searches by kind and route to a page.
    fn render_onto(&self, page: Page) -> (out: Page)
        ensures
            out@ == page@ + self.lines(),
    {
        let ghost before = page@;
        let page = page.head(
            "namidb_search_route_total",
            "Searches by index kind and the route that served them.",
            "counter",
        );
        let page = SearchRoutes::line_onto(page, "text", "native", self.text_native);
        let page = SearchRoutes::line_onto(page, "text", "fallback", self.text_fallback);
        let page = SearchRoutes::line_onto(page, "vector", "native", self.vector_native);
        let page = SearchRoutes::line_onto(page, "vector", "fallback", self.vector_fallback);
        assert(page@ =~= before + self.lines());
        page
    }
}

/// What a scrape reads of vector indexes.
#[derive(Debug, Clone, Copy)]
pub struct VectorIndexGauges {
    /// Indexes that were rejected for their size.
    pub rejections: u64,
    /// Searches that applied an embedded metadata posting.
    pub filter_bitmap_searches: u64,
}

/// What the registry holds.
#[verifier::ext_equal]
pub struct MetricsModel {
    pub version: Seq<char>,
    /// In nanoseconds; zero switches the slow-query record off.
    pub slow_threshold: nat,
    pub in_flight: i64,
    pub slow_queries: u64,
    pub http: ProtoModel,
    pub bolt: ProtoModel,
    /// One entry per purpose.
    pub locks: Seq<LockModel>,
    /// One entry per trigger.
    pub compactions: Seq<CompactionModel>,
}

impl MetricsModel {
    /// A registry that has seen nothing.
    pub open spec fn empty(version: Seq<char>, slow_threshold: nat) -> MetricsModel {
        MetricsModel {
            version,
            slow_threshold,
            in_flight: 0,
            slow_queries: 0,
            http: ProtoModel::empty(),
            bolt: ProtoModel::empty(),
            locks: Seq::new(6, |i: int| LockModel::empty()),
            compactions: Seq::new(3, |i: int| CompactionModel::empty()),
        }
    }

    /// With one query more in flight. The gauge wraps around.
    pub open spec fn entered(self) -> MetricsModel {
        MetricsModel {
            in_flight: if self.in_flight == i64::MAX {
                i64::MIN
            } else {
                (self.in_flight + 1) as i64
            },
            ..self
        }
    }

    /// With one query less in flight.
    pub open spec fn left(self) -> MetricsModel {
        MetricsModel {
            in_flight: if self.in_flight == i64::MIN {
                i64::MAX
            } else {
                (self.in_flight - 1) as i64
            },
            ..self
        }
    }

    /// Whether a query of `n` nanoseconds is a slow one.
    pub open spec fn is_slow(self, n: nat) -> bool {
        self.slow_threshold > 0 && n >= self.slow_threshold
    }

    /// One more completed query.
    pub open spec fn query_observed(
        self,
        protocol: Protocol,
        kind: Option<QueryKind>,
        ok: bool,
        n: nat,
    ) -> MetricsModel {
        MetricsModel {
            http: if protocol is Http { self.http.observed(kind, ok, n) } else { self.http },
            bolt: if protocol is Bolt { self.bolt.observed(kind, ok, n) } else { self.bolt },
            slow_queries: if self.is_slow(n) {
                wrap(self.slow_queries + 1)
            } else {
                self.slow_queries
            },
            ..self
        }
    }

    /// One more wait for the writer lock.
    pub open spec fn lock_observed(
        self,
        kind: WriterLockKind,
        n: nat,
        acquired: bool,
    ) -> MetricsModel {
        MetricsModel {
            locks: self.locks.update(
                kind.slot(),
                self.locks[kind.slot()].observed(n, acquired),
            ),
            ..self
        }
    }

    pub open spec fn phase_observed(
        self,
        trigger: CompactionTrigger,
        phase: CompactionPhase,
        n: nat,
    ) -> MetricsModel {
        MetricsModel {
            compactions: self.compactions.update(
                trigger.slot(),
                self.compactions[trigger.slot()].phase_observed(phase, n),
            ),
            ..self
        }
    }

    pub open spec fn result_observed(
        self,
        trigger: CompactionTrigger,
        status: CompactionStatus,
        l0_before: usize,
        l0_after: usize,
        removed: usize,
        written: usize,
    ) -> MetricsModel {
        MetricsModel {
            compactions: self.compactions.update(
                trigger.slot(),
                self.compactions[trigger.slot()].result_observed(
                    status,
                    l0_before,
                    l0_after,
                    removed,
                    written,
                ),
            ),
            ..self
        }
    }

    /// Whether every purpose and every trigger has its entry.
    pub open spec fn wf(self) -> bool {
        &&& self.http.read.wf() && self.http.write.wf()
        &&& self.bolt.read.wf() && self.bolt.write.wf()
        &&& self.locks.len() == 6
        &&& forall|i: int| 0 <= i < 6 ==> (#[trigger] self.locks[i]).wait.wf()
        &&& self.compactions.len() == 3
        &&& forall|i: int| 0 <= i < 3 ==> (#[trigger] self.compactions[i]).wf()
    }

    /// The process gauges.
    pub open spec fn process_lines(self, uptime: Seq<char>) -> Seq<Seq<char>> {
        family_head("namidb_build_info"@, "Build information."@, "gauge"@).push(
            sample("namidb_build_info"@, label("version"@, self.version), "1"@),
        ) + scalar(
            "namidb_uptime_seconds"@,
            "Seconds since the server started."@,
            "gauge"@,
            uptime,
        ) + scalar(
            "namidb_queries_in_flight"@,
            "Cypher queries currently executing."@,
            "gauge"@,
            signed_decimal(self.in_flight as int),
        )
    }

    /// The query counters and latencies.
    pub open spec fn query_lines(self) -> Seq<Seq<char>> {
        family_head(
            "namidb_queries_total"@,
            "Cypher queries executed, by protocol and status."@,
            "counter"@,
        ) + self.http.total_lines("http"@) + self.bolt.total_lines("bolt"@) + scalar(
            "namidb_slow_queries_total"@,
            "Queries that crossed the slow-query threshold."@,
            "counter"@,
            decimal(self.slow_queries as nat),
        ) + family_head(
            "namidb_query_duration_seconds"@,
            "Query execution wall-clock, by protocol and kind."@,
            "histogram"@,
        ) + self.http.duration_lines("http"@) + self.bolt.duration_lines("bolt"@)
    }

    /// The waits for the writer lock.
    pub open spec fn lock_lines(self) -> Seq<Seq<char>> {
        family_head(
            "namidb_writer_lock_wait_seconds"@,
            "Time spent waiting for the namespace writer mutex."@,
            "histogram"@,
        ) + self.locks[0].wait_lines(WriterLockKind::Http) + self.locks[1].wait_lines(WriterLockKind::Bolt) + self.locks[2].wait_lines(WriterLockKind::BoltTransaction) + self.locks[3].wait_lines(WriterLockKind::Flush) + self.locks[4].wait_lines(WriterLockKind::CompactionBasis) + self.locks[5].wait_lines(WriterLockKind::CompactionInstall) + family_head(
            "namidb_writer_lock_timeouts_total"@,
            "Writer-mutex acquisitions that hit their configured bound."@,
            "counter"@,
        ) + seq![
            self.locks[0].timeout_line(WriterLockKind::Http),
            self.locks[1].timeout_line(WriterLockKind::Bolt),
            self.locks[2].timeout_line(WriterLockKind::BoltTransaction),
            self.locks[3].timeout_line(WriterLockKind::Flush),
            self.locks[4].timeout_line(WriterLockKind::CompactionBasis),
            self.locks[5].timeout_line(WriterLockKind::CompactionInstall),
        ]
    }

    /// The durations of the compaction phases.
    pub open spec fn phase_family(self) -> Seq<Seq<char>> {
        family_head("namidb_compaction_phase_duration_seconds"@, "Compaction wall-clock split into off-lock prepare, install wait, and install hold."@, "histogram"@) + self.compactions[0].all_phase_lines(CompactionTrigger::Periodic) + self.compactions[1].all_phase_lines(CompactionTrigger::Reactive) + self.compactions[2].all_phase_lines(CompactionTrigger::Ddl)
    }

    /// The compaction attempts by status.
    pub open spec fn status_family(self) -> Seq<Seq<char>> {
        family_head("namidb_compactions_total"@, "Compaction attempts by trigger and terminal status."@, "counter"@) + self.compactions[0].status_lines(CompactionTrigger::Periodic) + self.compactions[1].status_lines(CompactionTrigger::Reactive) + self.compactions[2].status_lines(CompactionTrigger::Ddl)
    }

    /// The L0 backlog at the last boundaries.
    pub open spec fn backlog_family(self) -> Seq<Seq<char>> {
        family_head("namidb_compaction_l0_backlog_ssts"@, "Most recently observed maximum L0 bucket depth at a compaction boundary."@, "gauge"@) + self.compactions[0].backlog_lines(CompactionTrigger::Periodic) + self.compactions[1].backlog_lines(CompactionTrigger::Reactive) + self.compactions[2].backlog_lines(CompactionTrigger::Ddl)
    }

    /// The SSTs removed and written.
    pub open spec fn sst_family(self) -> Seq<Seq<char>> {
        family_head("namidb_compaction_ssts_total"@, "SST descriptors removed or written by compaction."@, "counter"@) + self.compactions[0].sst_lines(CompactionTrigger::Periodic) + self.compactions[1].sst_lines(CompactionTrigger::Reactive) + self.compactions[2].sst_lines(CompactionTrigger::Ddl)
    }

    /// The whole registry, one entry per line.
    pub open spec fn exposition(self, uptime: Seq<char>, storage: StorageGauges) -> Seq<Seq<char>> {
        self.process_lines(uptime) + storage.lines() + self.query_lines() + self.lock_lines()
            + self.phase_family() + self.status_family() + self.backlog_family()
            + self.sst_family()
    }
}

impl StorageGauges {
    /// The samples of the search-index pool.
    pub open spec fn rejection_lines(self) -> Seq<Seq<char>> {
        let name = "namidb_search_index_cache_admission_rejections_total"@;
        let vector = match self.vector_index {
            Some(v) => seq![
                sample(name, label("kind"@, "vector"@), decimal(v.rejections as nat)),
            ],
            None => Seq::empty(),
        };
        let text = match self.text_index_rejections {
            Some(n) => seq![sample(name, label("kind"@, "text"@), decimal(n as nat))],
            None => Seq::empty(),
        };
        vector + text
    }

    /// The search-index pool, on an engine that serves search indexes.
    pub open spec fn search_lines(self) -> Seq<Seq<char>> {
        if self.vector_index is None && self.text_index_rejections is None {
            Seq::empty()
        } else {
            scalar(
                "namidb_search_index_cache_capacity_bytes"@,
                "Assigned byte ceiling for the shared decoded vector/full-text index pool."@,
                "gauge"@,
                decimal(self.search_index_capacity_bytes as nat),
            ) + family_head(
                "namidb_search_index_cache_admission_rejections_total"@,
                "Valid search indexes rejected because their estimated decoded footprint exceeds the configured pool."@,
                "counter"@,
            ) + self.rejection_lines()
        }
    }

    /// The vector searches, on an engine that serves vector indexes.
    pub open spec fn bitmap_lines(self) -> Seq<Seq<char>> {
        match self.vector_index {
            Some(v) => scalar(
                "namidb_vector_filter_bitmap_searches_total"@,
                "Vector searches that applied at least one embedded .vg metadata posting."@,
                "counter"@,
                decimal(v.filter_bitmap_searches as nat),
            ),
            None => Seq::empty(),
        }
    }

    /// The storage gauges.
    pub open spec fn lines(self) -> Seq<Seq<char>> {
        scalar(
            "namidb_cache_max_bytes"@,
            "Configured aggregate byte ceiling for process-wide storage caches."@,
            "gauge"@,
            decimal(self.cache_max_bytes as nat),
        ) + scalar(
            "namidb_cache_capacity_bytes"@,
            "Aggregate capacity assigned to enabled storage-cache tiers."@,
            "gauge"@,
            decimal(self.cache_capacity_bytes as nat),
        ) + scalar(
            "namidb_cache_resident_bytes"@,
            "Cache-accounted bytes currently resident across storage tiers."@,
            "gauge"@,
            decimal(self.cache_resident_bytes as nat),
        ) + self.search_lines() + self.bitmap_lines() + self.search_routes.lines()
    }

    /// Adds the storage gauges to a page.
    fn render_onto(&self, page: Page) -> (out: Page)
        ensures
            out@ == page@ + self.lines(),
    {
        let ghost before = page@;
        let page = page.scalar_number(
            "namidb_cache_max_bytes",
            "Configured aggregate byte ceiling for process-wide storage caches.",
            "gauge",
            self.cache_max_bytes,
        ).scalar_number(
            "namidb_cache_capacity_bytes",
            "Aggregate capacity assigned to enabled storage-cache tiers.",
            "gauge",
            self.cache_capacity_bytes,
        ).scalar_number(
            "namidb_cache_resident_bytes",
            "Cache-accounted bytes currently resident across storage tiers.",
            "gauge",
            self.cache_resident_bytes,
        );
        let page = self.search_onto(page);
        let page = match self.vector_index {
            Some(v) => page.scalar_number(
                "namidb_vector_filter_bitmap_searches_total",
                "Vector searches that applied at least one embedded .vg metadata posting.",
                "counter",
                v.filter_bitmap_searches,
            ),
            None => page,
        };
        let page = self.search_routes.render_onto(page);
        assert(page@ =~= before + self.lines());
        page
    }

    /// Adds the search-index pool to a page.
    fn search_onto(&self, page: Page) -> (out: Page)
        ensures
            out@ == page@ + self.search_lines(),
    {
        let ghost before = page@;
        if self.vector_index.is_none() && self.text_index_rejections.is_none() {
            assert(page@ =~= before + self.search_lines());
            return page;
        }
        let page = page.scalar_number(
            "namidb_search_index_cache_capacity_bytes",
            "Assigned byte ceiling for the shared decoded vector/full-text index pool.",
            "gauge",
            self.search_index_capacity_bytes,
        ).head(
            "namidb_search_index_cache_admission_rejections_total",
            "Valid search indexes rejected because their estimated decoded footprint exceeds the configured pool.",
            "counter",
        );
        let ghost mid = page@;
        let page = match self.vector_index {
            Some(v) => {
                let labels = label_text("kind", "vector");
                page.labelled_number(
                    "namidb_search_index_cache_admission_rejections_total",
                    labels.as_str(),
                    v.rejections,
                )
            },
            None => page,
        };
        let page = match self.text_index_rejections {
            Some(n) => {
                let labels = label_text("kind", "text");
                page.labelled_number(
                    "namidb_search_index_cache_admission_rejections_total",
                    labels.as_str(),
                    n,
                )
            },
            None => page,
        };
        assert(page@ =~= mid + self.rejection_lines());
        assert(page@ =~= before + self.search_lines());
        page
    }
}

/// Permission to take one query off the in-flight gauge. The registry hands it
/// out when the query starts and takes it back when the query ends.
#[derive(Debug)]
pub struct InFlightGuard {
    _issued: (),
}

/// The process-wide query metrics registry.
#[derive(Debug)]
pub struct Metrics {
    version: &'static str,
    slow_threshold: Duration,
    in_flight: i64,
    slow_queries: u64,
    http: ProtoMetrics,
    bolt: ProtoMetrics,
    writer_locks: [WriterLockMetrics; 6],
    compactions: [CompactionMetrics; 3],
}

impl View for Metrics {
    type V = MetricsModel;

    closed spec fn view(&self) -> MetricsModel {
        MetricsModel {
            version: self.version@,
            slow_threshold: nanos(self.slow_threshold),
            in_flight: self.in_flight,
            slow_queries: self.slow_queries,
            http: self.http@,
            bolt: self.bolt@,
            locks: self.writer_locks@.map_values(|l: WriterLockMetrics| l@),
            compactions: self.compactions@.map_values(|c: CompactionMetrics| c@),
        }
    }
}

/// A histogram has a counter for every bounded bucket and one for the overflow.
pub proof fn law_histogram_has_its_buckets(h: Histogram)
    ensures
        h@.wf(),
{
    assert(h.counts@.len() == 15);
}

/// Every registry has its six purposes of the writer lock and its three triggers
/// with their three phases and seven statuses, whoever made it and whatever it
/// has seen.
pub proof fn law_registry_is_complete(m: Metrics)
    ensures
        m@.wf(),
{
    law_histogram_has_its_buckets(m.http.read);
    law_histogram_has_its_buckets(m.http.write);
    law_histogram_has_its_buckets(m.bolt.read);
    law_histogram_has_its_buckets(m.bolt.write);
    assert(m.writer_locks@.len() == 6);
    assert(m.compactions@.len() == 3);
    assert forall|i: int| 0 <= i < 6 implies (#[trigger] m@.locks[i]).wait.wf() by {
        law_histogram_has_its_buckets(m.writer_locks@[i].wait);
    }
    assert forall|i: int| 0 <= i < 3 implies (#[trigger] m@.compactions[i]).wf() by {
        let c = m.compactions@[i];
        assert(c.phases@.len() == 3);
        assert(c.statuses@.len() == 7);
        assert forall|j: int| 0 <= j < 3 implies (#[trigger] c@.phases[j]).wf() by {
            law_histogram_has_its_buckets(c.phases@[j]);
        }
    }
}

impl Metrics {
    /// Builds a registry. `version` labels `namidb_build_info`; a zero
    /// `slow_threshold` turns the slow-query record off.
    pub fn new(version: &'static str, slow_threshold: Duration) -> (r: Metrics)
        ensures
            r@ == MetricsModel::empty(version@, nanos(slow_threshold)),
    {
        let r = Metrics {
            version,
            slow_threshold,
            in_flight: 0,
            slow_queries: 0,
            http: ProtoMetrics::new(),
            bolt: ProtoMetrics::new(),
            writer_locks: [
                WriterLockMetrics::new(),
                WriterLockMetrics::new(),
                WriterLockMetrics::new(),
                WriterLockMetrics::new(),
                WriterLockMetrics::new(),
                WriterLockMetrics::new(),
            ],
            compactions: [
                CompactionMetrics::new(),
                CompactionMetrics::new(),
                CompactionMetrics::new(),
            ],
        };
        assert(r@ =~= MetricsModel::empty(version@, nanos(slow_threshold)));
        r
    }

    /// Puts one query on the in-flight gauge.
    pub fn track_in_flight(&mut self) -> (guard: InFlightGuard)
        ensures
            final(self)@ == old(self)@.entered(),
    {
        self.in_flight = self.in_flight.wrapping_add(1);
        InFlightGuard { _issued: () }
    }

    /// Takes one query off the in-flight gauge, against the guard it was put on
    /// with.
    pub fn release_in_flight(&mut self, guard: InFlightGuard)
        ensures
            final(self)@ == old(self)@.left(),
    {
        self.in_flight = self.in_flight.wrapping_sub(1);
    }

    /// Records one completed query, called exactly once per query from each
    /// serving path. `kind` is `None` for a query that failed before planning.
    /// A query at or above the threshold is counted, and what the slow-query
    /// log says of it is handed back: its text collapsed and cut, never its
    /// parameters.
    pub fn observe_query(
        &mut self,
        protocol: Protocol,
        kind: Option<QueryKind>,
        ok: bool,
        elapsed: Duration,
        query: &str,
    ) -> (slow: Option<SlowQuery>)
        ensures
            final(self)@ == old(self)@.query_observed(protocol, kind, ok, nanos(elapsed)),
            slow is Some <==> old(self)@.is_slow(nanos(elapsed)),
            slow matches Some(record) ==> record.tells(protocol, kind, ok, nanos(elapsed), query@),
    {
        let n: u128 = elapsed.as_nanos();
        match protocol {
            Protocol::Http => self.http.observe(kind, ok, elapsed),
            Protocol::Bolt => self.bolt.observe(kind, ok, elapsed),
        }
        let threshold: u128 = self.slow_threshold.as_nanos();
        if threshold > 0 && n >= threshold {
            self.slow_queries = self.slow_queries.wrapping_add(1);
            Some(
                SlowQuery {
                    protocol: protocol.as_str(),
                    kind: match kind {
                        Some(k) => k.as_str(),
                        None => "unknown",
                    },
                    status: if ok {
                        "ok"
                    } else {
                        "error"
                    },
                    elapsed_ms: ((n / 1_000_000) % 0x1_0000_0000_0000_0000) as u64,
                    query: sanitize_query(query),
                },
            )
        } else {
            None
        }
    }

    /// Records one attempt to acquire the namespace writer lock, right after it
    /// was acquired or ran out of time. The histogram holds both; the timeouts
    /// are counted apart.
    pub fn observe_writer_lock(&mut self, kind: WriterLockKind, wait: Duration, acquired: bool)
        ensures
            final(self)@ == old(self)@.lock_observed(kind, nanos(wait), acquired),
    {
        let i: usize = kind.index();
        self.writer_locks[i].observe(wait, acquired);
        assert(final(self)@ =~= old(self)@.lock_observed(kind, nanos(wait), acquired));
    }

    /// Records the duration of one compaction phase.
    pub fn observe_compaction_phase(
        &mut self,
        trigger: CompactionTrigger,
        phase: CompactionPhase,
        elapsed: Duration,
    )
        ensures
            final(self)@ == old(self)@.phase_observed(trigger, phase, nanos(elapsed)),
    {
        let i: usize = trigger.index();
        self.compactions[i].observe_phase(phase, elapsed);
        assert(final(self)@ =~= old(self)@.phase_observed(trigger, phase, nanos(elapsed)));
    }

    /// Records the terminal result and the deltas of one compaction attempt.
    pub fn observe_compaction_result(
        &mut self,
        trigger: CompactionTrigger,
        status: CompactionStatus,
        l0_before: usize,
        l0_after: usize,
        removed: usize,
        written: usize,
    )
        ensures
            final(self)@ == old(self)@.result_observed(
                trigger,
                status,
                l0_before,
                l0_after,
                removed,
                written,
            ),
    {
        let i: usize = trigger.index();
        self.compactions[i].observe_result(status, l0_before, l0_after, removed, written);
        assert(final(self)@ =~= old(self)@.result_observed(
            trigger,
            status,
            l0_before,
            l0_after,
            removed,
            written,
        ));
    }

    fn process_onto(&self, page: Page, uptime: &str) -> (out: Page)
        ensures
            out@ == page@ + self@.process_lines(uptime@),
    {
        let ghost before = page@;
        let version = label_text("version", self.version);
        let in_flight = signed_decimal_of(self.in_flight);
        let page = page.head("namidb_build_info", "Build information.", "gauge").labelled(
            "namidb_build_info",
            version.as_str(),
            "1",
        ).scalar(
            "namidb_uptime_seconds",
            "Seconds since the server started.",
            "gauge",
            uptime,
        ).scalar(
            "namidb_queries_in_flight",
            "Cypher queries currently executing.",
            "gauge",
            in_flight.as_str(),
        );
        assert(page@ =~= before + self@.process_lines(uptime@));
        page
    }

    fn queries_onto(&self, page: Page) -> (out: Page)
        ensures
            out@ == page@ + self@.query_lines(),
    {
        let ghost before = page@;
        let page = page.head(
            "namidb_queries_total",
            "Cypher queries executed, by protocol and status.",
            "counter",
        );
        let page = self.http.totals_onto(page, "http");
        let page = self.bolt.totals_onto(page, "bolt");
        let page = page.scalar_number(
            "namidb_slow_queries_total",
            "Queries that crossed the slow-query threshold.",
            "counter",
            self.slow_queries,
        ).head(
            "namidb_query_duration_seconds",
            "Query execution wall-clock, by protocol and kind.",
            "histogram",
        );
        let page = self.http.durations_onto(page, "http");
        let page = self.bolt.durations_onto(page, "bolt");
        assert(page@ =~= before + self@.query_lines());
        page
    }

    fn locks_onto(&self, page: Page) -> (out: Page)
        ensures
            out@ == page@ + self@.lock_lines(),
    {
        let ghost before = page@;
        let page = page.head(
            "namidb_writer_lock_wait_seconds",
            "Time spent waiting for the namespace writer mutex.",
            "histogram",
        );
        let page = self.writer_locks[0].wait_onto(page, WriterLockKind::Http);
        let page = self.writer_locks[1].wait_onto(page, WriterLockKind::Bolt);
        let page = self.writer_locks[2].wait_onto(page, WriterLockKind::BoltTransaction);
        let page = self.writer_locks[3].wait_onto(page, WriterLockKind::Flush);
        let page = self.writer_locks[4].wait_onto(page, WriterLockKind::CompactionBasis);
        let page = self.writer_locks[5].wait_onto(page, WriterLockKind::CompactionInstall);
        let page = page.head(
            "namidb_writer_lock_timeouts_total",
            "Writer-mutex acquisitions that hit their configured bound.",
            "counter",
        );
        let page = self.writer_locks[0].timeout_onto(page, WriterLockKind::Http);
        let page = self.writer_locks[1].timeout_onto(page, WriterLockKind::Bolt);
        let page = self.writer_locks[2].timeout_onto(page, WriterLockKind::BoltTransaction);
        let page = self.writer_locks[3].timeout_onto(page, WriterLockKind::Flush);
        let page = self.writer_locks[4].timeout_onto(page, WriterLockKind::CompactionBasis);
        let page = self.writer_locks[5].timeout_onto(page, WriterLockKind::CompactionInstall);
        assert(page@ =~= before + self@.lock_lines());
        page
    }

    #[verifier::rlimit(40)]
    fn phase_family_onto(&self, page: Page) -> (out: Page)
        ensures
            out@ == page@ + self@.phase_family(),
    {
        let ghost before = page@;
        let page = page.head("namidb_compaction_phase_duration_seconds", "Compaction wall-clock split into off-lock prepare, install wait, and install hold.", "histogram");
        let page = self.compactions[0].phases_onto(page, CompactionTrigger::Periodic);
        let page = self.compactions[1].phases_onto(page, CompactionTrigger::Reactive);
        let page = self.compactions[2].phases_onto(page, CompactionTrigger::Ddl);
        assert(page@ =~= before + self@.phase_family());
        page
    }

    fn status_family_onto(&self, page: Page) -> (out: Page)
        ensures
            out@ == page@ + self@.status_family(),
    {
        let ghost before = page@;
        let page = page.head("namidb_compactions_total", "Compaction attempts by trigger and terminal status.", "counter");
        let page = self.compactions[0].statuses_onto(page, CompactionTrigger::Periodic);
        let page = self.compactions[1].statuses_onto(page, CompactionTrigger::Reactive);
        let page = self.compactions[2].statuses_onto(page, CompactionTrigger::Ddl);
        assert(page@ =~= before + self@.status_family());
        page
    }

    fn backlog_family_onto(&self, page: Page) -> (out: Page)
        ensures
            out@ == page@ + self@.backlog_family(),
    {
        let ghost before = page@;
        let page = page.head("namidb_compaction_l0_backlog_ssts", "Most recently observed maximum L0 bucket depth at a compaction boundary.", "gauge");
        let page = self.compactions[0].backlog_onto(page, CompactionTrigger::Periodic);
        let page = self.compactions[1].backlog_onto(page, CompactionTrigger::Reactive);
        let page = self.compactions[2].backlog_onto(page, CompactionTrigger::Ddl);
        assert(page@ =~= before + self@.backlog_family());
        page
    }

    fn sst_family_onto(&self, page: Page) -> (out: Page)
        ensures
            out@ == page@ + self@.sst_family(),
    {
        let ghost before = page@;
        let page = page.head("namidb_compaction_ssts_total", "SST descriptors removed or written by compaction.", "counter");
        let page = self.compactions[0].ssts_onto(page, CompactionTrigger::Periodic);
        let page = self.compactions[1].ssts_onto(page, CompactionTrigger::Reactive);
        let page = self.compactions[2].ssts_onto(page, CompactionTrigger::Ddl);
        assert(page@ =~= before + self@.sst_family());
        page
    }

    /// The whole registry as a page.
    fn render_page(&self, uptime: &str, storage: &StorageGauges) -> (page: Page)
        ensures
            page@ == self@.exposition(uptime@, *storage),
    {
        let page = self.process_onto(Page::new(), uptime);
        assert(page@ =~= self@.process_lines(uptime@));
        let page = storage.render_onto(page);
        let page = self.queries_onto(page);
        let page = self.locks_onto(page);
        let page = self.phase_family_onto(page);
        let page = self.status_family_onto(page);
        let page = self.backlog_family_onto(page);
        self.sst_family_onto(page)
    }

    /// Renders the whole registry in the Prometheus text exposition format.
    /// `uptime` is the text of the seconds since the server started.
    pub fn render(&self, uptime: &str, storage: &StorageGauges) -> (out: String)
        ensures
            out@ == page_text(self@.exposition(uptime@, *storage)),
    {
        self.render_page(uptime, storage).finish()
    }
}

// ---------------------------------------------------------------------------
// Memory, range cache and search workspace
// ---------------------------------------------------------------------------

/// What a scrape reads of the immutable object-range cache.
#[derive(Debug, Clone, Copy)]
pub struct RangeCacheGauges {
    pub ram_budget_bytes: u64,
    pub memory_capacity_bytes: u64,
    pub memory_usage_bytes: u64,
    pub write_buffer_reservation_bytes: u64,
    pub disk_index_estimate_bytes: u64,
    pub disk_capacity_bytes: u64,
    pub memory_hits: u64,
    pub disk_hits: u64,
    pub misses: u64,
    pub outer_fetches: u64,
    pub inserts: u64,
    pub admission_rejections: u64,
    pub corrupt_entries: u64,
    pub disk_read_bytes: u64,
    pub disk_write_bytes: u64,
}

impl RangeCacheGauges {
    /// The figures of one that has not been set up.
    pub open spec fn zero() -> RangeCacheGauges {
        RangeCacheGauges { ram_budget_bytes: 0, memory_capacity_bytes: 0, memory_usage_bytes: 0, write_buffer_reservation_bytes: 0, disk_index_estimate_bytes: 0, disk_capacity_bytes: 0, memory_hits: 0, disk_hits: 0, misses: 0, outer_fetches: 0, inserts: 0, admission_rejections: 0, corrupt_entries: 0, disk_read_bytes: 0, disk_write_bytes: 0 }
    }

    /// The figures of one that has not been set up.
    fn none() -> (r: RangeCacheGauges)
        ensures
            r == RangeCacheGauges::zero(),
    {
        RangeCacheGauges { ram_budget_bytes: 0, memory_capacity_bytes: 0, memory_usage_bytes: 0, write_buffer_reservation_bytes: 0, disk_index_estimate_bytes: 0, disk_capacity_bytes: 0, memory_hits: 0, disk_hits: 0, misses: 0, outer_fetches: 0, inserts: 0, admission_rejections: 0, corrupt_entries: 0, disk_read_bytes: 0, disk_write_bytes: 0 }
    }

    /// All the memory that the cache accounts for, or the largest number when
    /// that is more.
    pub open spec fn accounted_bytes(self) -> nat {
        let sum = self.memory_capacity_bytes + self.write_buffer_reservation_bytes
            + self.disk_index_estimate_bytes;
        if sum <= u64::MAX {
            sum as nat
        } else {
            u64::MAX as nat
        }
    }

    pub open spec fn range_cache_bytes_lines(self) -> Seq<Seq<char>> {
        family_head("namidb_range_cache_bytes"@, "Range-cache byte gauges by tier and kind."@, "gauge"@) + seq![
            sample("namidb_range_cache_bytes"@, labels2("tier"@, "ram"@, "kind"@, "budget"@), decimal(self.ram_budget_bytes as nat)),
            sample("namidb_range_cache_bytes"@, labels2("tier"@, "ram"@, "kind"@, "capacity"@), decimal(self.memory_capacity_bytes as nat)),
            sample("namidb_range_cache_bytes"@, labels2("tier"@, "ram"@, "kind"@, "usage"@), decimal(self.memory_usage_bytes as nat)),
            sample("namidb_range_cache_bytes"@, labels2("tier"@, "ram"@, "kind"@, "write_buffers"@), decimal(self.write_buffer_reservation_bytes as nat)),
            sample("namidb_range_cache_bytes"@, labels2("tier"@, "ram"@, "kind"@, "persistent_index_estimate"@), decimal(self.disk_index_estimate_bytes as nat)),
            sample("namidb_range_cache_bytes"@, labels2("tier"@, "ram"@, "kind"@, "accounted_total"@), decimal(self.accounted_bytes())),
            sample("namidb_range_cache_bytes"@, labels2("tier"@, "nvme"@, "kind"@, "capacity"@), decimal(self.disk_capacity_bytes as nat)),
        ]
    }

    fn range_cache_bytes_lines_onto(&self, page: Page) -> (out: Page)
        ensures
            out@ == page@ + self.range_cache_bytes_lines(),
    {
        let ghost before = page@;
        let accounted: u64 = self.memory_capacity_bytes.saturating_add(
            self.write_buffer_reservation_bytes,
        ).saturating_add(self.disk_index_estimate_bytes);
        let page = page.head("namidb_range_cache_bytes", "Range-cache byte gauges by tier and kind.", "gauge");
        let labels = labels2_text("tier", "ram", "kind", "budget");
        let page = page.labelled_number("namidb_range_cache_bytes", labels.as_str(), self.ram_budget_bytes);
        let labels = labels2_text("tier", "ram", "kind", "capacity");
        let page = page.labelled_number("namidb_range_cache_bytes", labels.as_str(), self.memory_capacity_bytes);
        let labels = labels2_text("tier", "ram", "kind", "usage");
        let page = page.labelled_number("namidb_range_cache_bytes", labels.as_str(), self.memory_usage_bytes);
        let labels = labels2_text("tier", "ram", "kind", "write_buffers");
        let page = page.labelled_number("namidb_range_cache_bytes", labels.as_str(), self.write_buffer_reservation_bytes);
        let labels = labels2_text("tier", "ram", "kind", "persistent_index_estimate");
        let page = page.labelled_number("namidb_range_cache_bytes", labels.as_str(), self.disk_index_estimate_bytes);
        let labels = labels2_text("tier", "ram", "kind", "accounted_total");
        let page = page.labelled_number("namidb_range_cache_bytes", labels.as_str(), accounted);
        let labels = labels2_text("tier", "nvme", "kind", "capacity");
        let page = page.labelled_number("namidb_range_cache_bytes", labels.as_str(), self.disk_capacity_bytes);
        assert(page@ =~= before + self.range_cache_bytes_lines());
        page
    }

    pub open spec fn range_cache_lookups_total_lines(self) -> Seq<Seq<char>> {
        family_head("namidb_range_cache_lookups_total"@, "Immutable range-cache lookup outcomes."@, "counter"@) + seq![
            sample("namidb_range_cache_lookups_total"@, label("outcome"@, "memory_hit"@), decimal(self.memory_hits as nat)),
            sample("namidb_range_cache_lookups_total"@, label("outcome"@, "disk_hit"@), decimal(self.disk_hits as nat)),
            sample("namidb_range_cache_lookups_total"@, label("outcome"@, "miss"@), decimal(self.misses as nat)),
        ]
    }

    fn range_cache_lookups_total_lines_onto(&self, page: Page) -> (out: Page)
        ensures
            out@ == page@ + self.range_cache_lookups_total_lines(),
    {
        let ghost before = page@;
        let page = page.head("namidb_range_cache_lookups_total", "Immutable range-cache lookup outcomes.", "counter");
        let labels = label_text("outcome", "memory_hit");
        let page = page.labelled_number("namidb_range_cache_lookups_total", labels.as_str(), self.memory_hits);
        let labels = label_text("outcome", "disk_hit");
        let page = page.labelled_number("namidb_range_cache_lookups_total", labels.as_str(), self.disk_hits);
        let labels = label_text("outcome", "miss");
        let page = page.labelled_number("namidb_range_cache_lookups_total", labels.as_str(), self.misses);
        assert(page@ =~= before + self.range_cache_lookups_total_lines());
        page
    }

    pub open spec fn range_cache_remote_fetches_total_lines(self) -> Seq<Seq<char>> {
        family_head("namidb_range_cache_remote_fetches_total"@, "Object-store fetches issued after range-cache misses."@, "counter"@) + seq![
            plain_sample("namidb_range_cache_remote_fetches_total"@, decimal(self.outer_fetches as nat)),
        ]
    }

    fn range_cache_remote_fetches_total_lines_onto(&self, page: Page) -> (out: Page)
        ensures
            out@ == page@ + self.range_cache_remote_fetches_total_lines(),
    {
        let ghost before = page@;
        let page = page.head("namidb_range_cache_remote_fetches_total", "Object-store fetches issued after range-cache misses.", "counter");
        let value = decimal_of(self.outer_fetches);
        let page = page.plain("namidb_range_cache_remote_fetches_total", value.as_str());
        assert(page@ =~= before + self.range_cache_remote_fetches_total_lines());
        page
    }

    pub open spec fn range_cache_events_total_lines(self) -> Seq<Seq<char>> {
        family_head("namidb_range_cache_events_total"@, "Range-cache insert, rejection, and corruption events."@, "counter"@) + seq![
            sample("namidb_range_cache_events_total"@, label("event"@, "insert"@), decimal(self.inserts as nat)),
            sample("namidb_range_cache_events_total"@, label("event"@, "admission_rejection"@), decimal(self.admission_rejections as nat)),
            sample("namidb_range_cache_events_total"@, label("event"@, "corrupt_entry"@), decimal(self.corrupt_entries as nat)),
        ]
    }

    fn range_cache_events_total_lines_onto(&self, page: Page) -> (out: Page)
        ensures
            out@ == page@ + self.range_cache_events_total_lines(),
    {
        let ghost before = page@;
        let page = page.head("namidb_range_cache_events_total", "Range-cache insert, rejection, and corruption events.", "counter");
        let labels = label_text("event", "insert");
        let page = page.labelled_number("namidb_range_cache_events_total", labels.as_str(), self.inserts);
        let labels = label_text("event", "admission_rejection");
        let page = page.labelled_number("namidb_range_cache_events_total", labels.as_str(), self.admission_rejections);
        let labels = label_text("event", "corrupt_entry");
        let page = page.labelled_number("namidb_range_cache_events_total", labels.as_str(), self.corrupt_entries);
        assert(page@ =~= before + self.range_cache_events_total_lines());
        page
    }

    pub open spec fn range_cache_nvme_io_bytes_total_lines(self) -> Seq<Seq<char>> {
        family_head("namidb_range_cache_nvme_io_bytes_total"@, "Bytes read from or written to the persistent NVMe tier."@, "counter"@) + seq![
            sample("namidb_range_cache_nvme_io_bytes_total"@, label("operation"@, "read"@), decimal(self.disk_read_bytes as nat)),
            sample("namidb_range_cache_nvme_io_bytes_total"@, label("operation"@, "write"@), decimal(self.disk_write_bytes as nat)),
        ]
    }

    fn range_cache_nvme_io_bytes_total_lines_onto(&self, page: Page) -> (out: Page)
        ensures
            out@ == page@ + self.range_cache_nvme_io_bytes_total_lines(),
    {
        let ghost before = page@;
        let page = page.head("namidb_range_cache_nvme_io_bytes_total", "Bytes read from or written to the persistent NVMe tier.", "counter");
        let labels = label_text("operation", "read");
        let page = page.labelled_number("namidb_range_cache_nvme_io_bytes_total", labels.as_str(), self.disk_read_bytes);
        let labels = label_text("operation", "write");
        let page = page.labelled_number("namidb_range_cache_nvme_io_bytes_total", labels.as_str(), self.disk_write_bytes);
        assert(page@ =~= before + self.range_cache_nvme_io_bytes_total_lines());
        page
    }
}

/// What a scrape reads of the object-native search workspace.
#[derive(Debug, Clone, Copy)]
pub struct SearchWorkspaceGauges {
    pub capacity_bytes: u64,
    pub reserved_bytes: u64,
    pub peak_reserved_bytes: u64,
    pub successful_reservations: u64,
    pub contended_reservations: u64,
    pub rejected_reservations: u64,
}

impl SearchWorkspaceGauges {
    /// The figures of one that has not been set up.
    pub open spec fn zero() -> SearchWorkspaceGauges {
        SearchWorkspaceGauges { capacity_bytes: 0, reserved_bytes: 0, peak_reserved_bytes: 0, successful_reservations: 0, contended_reservations: 0, rejected_reservations: 0 }
    }

    /// The figures of one that has not been set up.
    fn none() -> (r: SearchWorkspaceGauges)
        ensures
            r == SearchWorkspaceGauges::zero(),
    {
        SearchWorkspaceGauges { capacity_bytes: 0, reserved_bytes: 0, peak_reserved_bytes: 0, successful_reservations: 0, contended_reservations: 0, rejected_reservations: 0 }
    }

    pub open spec fn search_workspace_bytes_lines(self) -> Seq<Seq<char>> {
        family_head("namidb_search_workspace_bytes"@, "Search-workspace byte gauges by kind."@, "gauge"@) + seq![
            sample("namidb_search_workspace_bytes"@, label("kind"@, "capacity"@), decimal(self.capacity_bytes as nat)),
            sample("namidb_search_workspace_bytes"@, label("kind"@, "reserved"@), decimal(self.reserved_bytes as nat)),
            sample("namidb_search_workspace_bytes"@, label("kind"@, "peak_reserved"@), decimal(self.peak_reserved_bytes as nat)),
        ]
    }

    fn search_workspace_bytes_lines_onto(&self, page: Page) -> (out: Page)
        ensures
            out@ == page@ + self.search_workspace_bytes_lines(),
    {
        let ghost before = page@;
        let page = page.head("namidb_search_workspace_bytes", "Search-workspace byte gauges by kind.", "gauge");
        let labels = label_text("kind", "capacity");
        let page = page.labelled_number("namidb_search_workspace_bytes", labels.as_str(), self.capacity_bytes);
        let labels = label_text("kind", "reserved");
        let page = page.labelled_number("namidb_search_workspace_bytes", labels.as_str(), self.reserved_bytes);
        let labels = label_text("kind", "peak_reserved");
        let page = page.labelled_number("namidb_search_workspace_bytes", labels.as_str(), self.peak_reserved_bytes);
        assert(page@ =~= before + self.search_workspace_bytes_lines());
        page
    }

    pub open spec fn search_workspace_reservations_total_lines(self) -> Seq<Seq<char>> {
        family_head("namidb_search_workspace_reservations_total"@, "Search-workspace reservation outcomes."@, "counter"@) + seq![
            sample("namidb_search_workspace_reservations_total"@, label("outcome"@, "successful"@), decimal(self.successful_reservations as nat)),
            sample("namidb_search_workspace_reservations_total"@, label("outcome"@, "contended"@), decimal(self.contended_reservations as nat)),
            sample("namidb_search_workspace_reservations_total"@, label("outcome"@, "rejected"@), decimal(self.rejected_reservations as nat)),
        ]
    }

    fn search_workspace_reservations_total_lines_onto(&self, page: Page) -> (out: Page)
        ensures
            out@ == page@ + self.search_workspace_reservations_total_lines(),
    {
        let ghost before = page@;
        let page = page.head("namidb_search_workspace_reservations_total", "Search-workspace reservation outcomes.", "counter");
        let labels = label_text("outcome", "successful");
        let page = page.labelled_number("namidb_search_workspace_reservations_total", labels.as_str(), self.successful_reservations);
        let labels = label_text("outcome", "contended");
        let page = page.labelled_number("namidb_search_workspace_reservations_total", labels.as_str(), self.contended_reservations);
        let labels = label_text("outcome", "rejected");
        let page = page.labelled_number("namidb_search_workspace_reservations_total", labels.as_str(), self.rejected_reservations);
        assert(page@ =~= before + self.search_workspace_reservations_total_lines());
        page
    }
}

/// `1` for something that is set up, `0` for something that is not.
pub open spec fn switch_text(on: bool) -> Seq<char> {
    decimal(if on { 1 } else { 0 })
}

/// The lines of the memory governor.
pub open spec fn memory_lines(memory: GovernorModel) -> Seq<Seq<char>> {
    scalar("namidb_memory_max_bytes"@, "Configured process RSS/working-set admission ceiling; zero disables it."@, "gauge"@, decimal(memory.max_bytes as nat)) + scalar("namidb_memory_resident_bytes"@, "Most recently sampled process RSS/working-set bytes."@, "gauge"@, decimal(memory.resident_bytes as nat)) + scalar("namidb_memory_reclaims_total"@, "Shared-cache pressure-relief passes triggered near the process memory ceiling."@, "counter"@, decimal(memory.reclaim_events as nat)) + scalar("namidb_memory_rejected_queries_total"@, "New Cypher queries rejected at the process memory ceiling."@, "counter"@, decimal(memory.rejected_queries as nat))
}

/// The lines of the range cache. A scrape never sets the cache up: until it is,
/// its figures are zero.
pub open spec fn range_cache_lines(cache: Option<RangeCacheGauges>) -> Seq<Seq<char>> {
    let figures = match cache {
        Some(c) => c,
        None => RangeCacheGauges::zero(),
    };
    scalar(
        "namidb_range_cache_enabled"@,
        "Whether the immutable object-range cache has been initialized and enabled."@,
        "gauge"@,
        switch_text(cache is Some),
    ) + figures.range_cache_bytes_lines() + figures.range_cache_lookups_total_lines() + figures.range_cache_remote_fetches_total_lines() + figures.range_cache_events_total_lines() + figures.range_cache_nvme_io_bytes_total_lines()
}

/// The lines of the search workspace. A scrape never sets the workspace up:
/// until it is, its figures are zero.
pub open spec fn workspace_lines(workspace: Option<SearchWorkspaceGauges>) -> Seq<Seq<char>> {
    let figures = match workspace {
        Some(w) => w,
        None => SearchWorkspaceGauges::zero(),
    };
    scalar(
        "namidb_search_workspace_enabled"@,
        "Whether the process-wide object-native search workspace has been initialized."@,
        "gauge"@,
        switch_text(workspace is Some),
    ) + figures.search_workspace_bytes_lines() + figures.search_workspace_reservations_total_lines()
}

/// Adds the lines of the memory governor to a page.
fn memory_onto(page: Page, memory: &MemoryGovernor) -> (out: Page)
    ensures
        out@ == page@ + memory_lines(memory@),
{
    let ghost before = page@;
    let page = page.scalar_number("namidb_memory_max_bytes", "Configured process RSS/working-set admission ceiling; zero disables it.", "gauge", memory.max_bytes() as u64).scalar_number("namidb_memory_resident_bytes", "Most recently sampled process RSS/working-set bytes.", "gauge", memory.resident_bytes() as u64).scalar_number("namidb_memory_reclaims_total", "Shared-cache pressure-relief passes triggered near the process memory ceiling.", "counter", memory.reclaim_events()).scalar_number("namidb_memory_rejected_queries_total", "New Cypher queries rejected at the process memory ceiling.", "counter", memory.rejected_queries());
    assert(page@ =~= before + memory_lines(memory@));
    page
}

/// Adds the lines of the range cache to a page.
fn range_cache_onto(page: Page, cache: Option<RangeCacheGauges>) -> (out: Page)
    ensures
        out@ == page@ + range_cache_lines(cache),
{
    let ghost before = page@;
    let (enabled, figures) = match cache {
        Some(c) => (1u64, c),
        None => (0u64, RangeCacheGauges::none()),
    };
    let page = page.scalar_number(
        "namidb_range_cache_enabled",
        "Whether the immutable object-range cache has been initialized and enabled.",
        "gauge",
        enabled,
    );
    let page = figures.range_cache_bytes_lines_onto(page);
    let page = figures.range_cache_lookups_total_lines_onto(page);
    let page = figures.range_cache_remote_fetches_total_lines_onto(page);
    let page = figures.range_cache_events_total_lines_onto(page);
    let page = figures.range_cache_nvme_io_bytes_total_lines_onto(page);
    assert(page@ =~= before + range_cache_lines(cache));
    page
}

/// Adds the lines of the search workspace to a page.
fn workspace_onto(page: Page, workspace: Option<SearchWorkspaceGauges>) -> (out: Page)
    ensures
        out@ == page@ + workspace_lines(workspace),
{
    let ghost before = page@;
    let (enabled, figures) = match workspace {
        Some(w) => (1u64, w),
        None => (0u64, SearchWorkspaceGauges::none()),
    };
    let page = page.scalar_number(
        "namidb_search_workspace_enabled",
        "Whether the process-wide object-native search workspace has been initialized.",
        "gauge",
        enabled,
    );
    let page = figures.search_workspace_bytes_lines_onto(page);
    let page = figures.search_workspace_reservations_total_lines_onto(page);
    assert(page@ =~= before + workspace_lines(workspace));
    page
}

impl MetricsModel {
    /// The whole registry, the memory governor and the storage tiers, one entry
    /// per line.
    pub open spec fn full_exposition(
        self,
        uptime: Seq<char>,
        storage: StorageGauges,
        memory: GovernorModel,
        cache: Option<RangeCacheGauges>,
        workspace: Option<SearchWorkspaceGauges>,
    ) -> Seq<Seq<char>> {
        self.exposition(uptime, storage) + memory_lines(memory) + range_cache_lines(cache)
            + workspace_lines(workspace)
    }
}

impl Metrics {
    /// Renders the registry together with the memory governor and the storage
    /// tiers.
    pub fn render_with_memory(
        &self,
        uptime: &str,
        storage: &StorageGauges,
        memory: &MemoryGovernor,
        cache: Option<RangeCacheGauges>,
        workspace: Option<SearchWorkspaceGauges>,
    ) -> (out: String)
        ensures
            out@ == page_text(
                self@.full_exposition(uptime@, *storage, memory@, cache, workspace),
            ),
    {
        let page = self.render_page(uptime, storage);
        let page = memory_onto(page, memory);
        let page = range_cache_onto(page, cache);
        workspace_onto(page, workspace).finish()
    }
}

/// What one of two parts shows, both together show.
proof fn lemma_shown(a: Seq<Seq<char>>, b: Seq<Seq<char>>, line: Seq<char>)
    requires
        a.contains(line) || b.contains(line),
    ensures
        (a + b).contains(line),
{
    if a.contains(line) {
        let i = choose|i: int| 0 <= i < a.len() && a[i] == line;
        assert((a + b)[i] == line);
    } else {
        let i = choose|i: int| 0 <= i < b.len() && b[i] == line;
        assert((a + b)[a.len() + i] == line);
    }
}

/// Whether a page shows every line of a part.
pub open spec fn within(part: Seq<Seq<char>>, page: Seq<Seq<char>>) -> bool {
    forall|line: Seq<char>| #[trigger] part.contains(line) ==> page.contains(line)
}

/// Two parts are within the two together, and so is what is within the first.
proof fn lemma_within_both(x: Seq<Seq<char>>, a: Seq<Seq<char>>, b: Seq<Seq<char>>)
    ensures
        within(a, a + b),
        within(b, a + b),
        within(x, a) ==> within(x, a + b),
{
    assert forall|line: Seq<char>| #[trigger] a.contains(line) implies (a + b).contains(line) by {
        lemma_shown(a, b, line);
    }
    assert forall|line: Seq<char>| #[trigger] b.contains(line) implies (a + b).contains(line) by {
        lemma_shown(a, b, line);
    }
}

/// What a part of the registry shows, its page shows.
#[verifier::rlimit(40)]
proof fn lemma_page_shows(
    m: MetricsModel,
    uptime: Seq<char>,
    storage: StorageGauges,
    line: Seq<char>,
)
    requires
        m.process_lines(uptime).contains(line) || storage.lines().contains(line)
            || m.query_lines().contains(line) || m.lock_lines().contains(line)
            || m.phase_family().contains(line) || m.status_family().contains(line)
            || m.backlog_family().contains(line) || m.sst_family().contains(line),
    ensures
        m.exposition(uptime, storage).contains(line),
{
    let p1 = m.process_lines(uptime);
    let p2 = p1 + storage.lines();
    let p3 = p2 + m.query_lines();
    let p4 = p3 + m.lock_lines();
    let p5 = p4 + m.phase_family();
    let p6 = p5 + m.status_family();
    let p7 = p6 + m.backlog_family();
    if p1.contains(line) || storage.lines().contains(line) {
        lemma_shown(p1, storage.lines(), line);
    }
    if p2.contains(line) || m.query_lines().contains(line) {
        lemma_shown(p2, m.query_lines(), line);
    }
    if p3.contains(line) || m.lock_lines().contains(line) {
        lemma_shown(p3, m.lock_lines(), line);
    }
    if p4.contains(line) || m.phase_family().contains(line) {
        lemma_shown(p4, m.phase_family(), line);
    }
    if p5.contains(line) || m.status_family().contains(line) {
        lemma_shown(p5, m.status_family(), line);
    }
    if p6.contains(line) || m.backlog_family().contains(line) {
        lemma_shown(p6, m.backlog_family(), line);
    }
    lemma_shown(p7, m.sst_family(), line);
}

/// The page shows, by path and status, how many queries there were, how many of
/// them were slow and how many are under way, the version, and the uptime as it is
/// given.
pub proof fn law_page_tells_queries(m: MetricsModel, uptime: Seq<char>, storage: StorageGauges)
    ensures
        ({
            let page = m.exposition(uptime, storage);
            let total = |proto: Seq<char>, status: Seq<char>, n: u64|
                sample(
                    "namidb_queries_total"@,
                    labels2("protocol"@, proto, "status"@, status),
                    decimal(n as nat),
                );
            &&& page.contains(total("http"@, "ok"@, m.http.ok))
            &&& page.contains(total("http"@, "error"@, m.http.err))
            &&& page.contains(total("bolt"@, "ok"@, m.bolt.ok))
            &&& page.contains(total("bolt"@, "error"@, m.bolt.err))
            &&& page.contains(
                plain_sample("namidb_slow_queries_total"@, decimal(m.slow_queries as nat)),
            )
            &&& page.contains(
                plain_sample("namidb_queries_in_flight"@, signed_decimal(m.in_flight as int)),
            )
            &&& page.contains(plain_sample("namidb_uptime_seconds"@, uptime))
            &&& page.contains(
                sample("namidb_build_info"@, label("version"@, m.version), "1"@),
            )
        }),
{
    let q = m.query_lines();
    let p = m.process_lines(uptime);
    assert(q[2] == m.http.total_lines("http"@)[0]);
    assert(q[3] == m.http.total_lines("http"@)[1]);
    assert(q[4] == m.bolt.total_lines("bolt"@)[0]);
    assert(q[5] == m.bolt.total_lines("bolt"@)[1]);
    assert(q[8] == plain_sample("namidb_slow_queries_total"@, decimal(m.slow_queries as nat)));
    assert(p[2] == sample("namidb_build_info"@, label("version"@, m.version), "1"@));
    assert(p[5] == plain_sample("namidb_uptime_seconds"@, uptime));
    assert(p[8] == plain_sample(
        "namidb_queries_in_flight"@,
        signed_decimal(m.in_flight as int),
    ));
    lemma_page_shows(m, uptime, storage, q[2]);
    lemma_page_shows(m, uptime, storage, q[3]);
    lemma_page_shows(m, uptime, storage, q[4]);
    lemma_page_shows(m, uptime, storage, q[5]);
    lemma_page_shows(m, uptime, storage, q[8]);
    lemma_page_shows(m, uptime, storage, p[2]);
    lemma_page_shows(m, uptime, storage, p[5]);
    lemma_page_shows(m, uptime, storage, p[8]);
}

/// Whether a page shows a histogram under a name and labels: every bounded bucket
/// with what it has seen up to its bound, and how many observations there were.
pub open spec fn shows_histogram(
    page: Seq<Seq<char>>,
    h: HistogramModel,
    name: Seq<char>,
    labels: Seq<char>,
    i: int,
) -> bool {
    &&& 0 <= i < 14 ==> page.contains(
        sample(
            name + "_bucket"@,
            labels + ",le=\""@ + bound_label(i) + "\""@,
            decimal(h.shown(i) as nat),
        ),
    )
    &&& page.contains(
        sample(name + "_bucket"@, labels + ",le=\"+Inf\""@, decimal(h.count as nat)),
    )
    &&& page.contains(sample(name + "_count"@, labels, decimal(h.count as nat)))
    &&& page.contains(
        sample(name + "_sum"@, labels, scaled_decimal(h.sum_micros as nat, 1_000_000)),
    )
}

/// A page that shows the lines of a histogram shows the histogram.
proof fn lemma_histogram_shown(
    page: Seq<Seq<char>>,
    h: HistogramModel,
    name: Seq<char>,
    labels: Seq<char>,
    i: int,
)
    requires
        within(h.lines(name, labels), page),
    ensures
        shows_histogram(page, h, name, labels, i),
{
    let lines = h.lines(name, labels);
    if 0 <= i < 14 {
        assert(lines[i] == h.bucket_line(name, labels, i));
        assert(lines.contains(lines[i]));
    }
    assert(lines.contains(lines[14]));
    assert(lines.contains(lines[15]));
    assert(lines.contains(lines[16]));
}

/// A part of the registry is within its page.
proof fn lemma_page_has(
    m: MetricsModel,
    uptime: Seq<char>,
    storage: StorageGauges,
    x: Seq<Seq<char>>,
)
    requires
        within(x, storage.lines()) || within(x, m.query_lines()) || within(x, m.lock_lines())
            || within(x, m.phase_family()) || within(x, m.status_family()) || within(
            x,
            m.backlog_family(),
        ) || within(x, m.sst_family()),
    ensures
        within(x, m.exposition(uptime, storage)),
{
    assert forall|line: Seq<char>| #[trigger] x.contains(line) implies m.exposition(
        uptime,
        storage,
    ).contains(line) by {
        lemma_page_shows(m, uptime, storage, line);
    }
}

/// The lines of each path's latencies are within the query lines.
proof fn lemma_durations_within(m: MetricsModel)
    ensures
        within(m.http.duration_lines("http"@), m.query_lines()),
        within(m.bolt.duration_lines("bolt"@), m.query_lines()),
{
    let a = family_head(
        "namidb_queries_total"@,
        "Cypher queries executed, by protocol and status."@,
        "counter"@,
    ) + m.http.total_lines("http"@) + m.bolt.total_lines("bolt"@) + scalar(
        "namidb_slow_queries_total"@,
        "Queries that crossed the slow-query threshold."@,
        "counter"@,
        decimal(m.slow_queries as nat),
    ) + family_head(
        "namidb_query_duration_seconds"@,
        "Query execution wall-clock, by protocol and kind."@,
        "histogram"@,
    );
    let http = m.http.duration_lines("http"@);
    let bolt = m.bolt.duration_lines("bolt"@);
    lemma_within_both(http, a, http);
    lemma_within_both(http, a + http, bolt);
}

/// The lines of one path's latencies show both histograms.
proof fn lemma_path_within(p: ProtoModel, proto: Seq<char>, page: Seq<Seq<char>>)
    requires
        within(p.duration_lines(proto), page),
    ensures
        within(
            p.read.lines(
                "namidb_query_duration_seconds"@,
                labels2("protocol"@, proto, "kind"@, "read"@),
            ),
            page,
        ),
        within(
            p.write.lines(
                "namidb_query_duration_seconds"@,
                labels2("protocol"@, proto, "kind"@, "write"@),
            ),
            page,
        ),
{
    let name = "namidb_query_duration_seconds"@;
    let read = p.read.lines(name, labels2("protocol"@, proto, "kind"@, "read"@));
    let write = p.write.lines(name, labels2("protocol"@, proto, "kind"@, "write"@));
    lemma_within_both(read, read, write);
}

/// The page shows the latencies of reads and of writes of each path under its own
/// labels.
pub proof fn law_page_tells_durations(
    m: MetricsModel,
    uptime: Seq<char>,
    storage: StorageGauges,
    i: int,
)
    ensures
        ({
            let page = m.exposition(uptime, storage);
            let name = "namidb_query_duration_seconds"@;
            let of = |proto: Seq<char>, kind: Seq<char>|
                labels2("protocol"@, proto, "kind"@, kind);
            &&& shows_histogram(page, m.http.read, name, of("http"@, "read"@), i)
            &&& shows_histogram(page, m.http.write, name, of("http"@, "write"@), i)
            &&& shows_histogram(page, m.bolt.read, name, of("bolt"@, "read"@), i)
            &&& shows_histogram(page, m.bolt.write, name, of("bolt"@, "write"@), i)
        }),
{
    let page = m.exposition(uptime, storage);
    let name = "namidb_query_duration_seconds"@;
    lemma_durations_within(m);
    lemma_page_has(m, uptime, storage, m.http.duration_lines("http"@));
    lemma_page_has(m, uptime, storage, m.bolt.duration_lines("bolt"@));
    lemma_path_within(m.http, "http"@, page);
    lemma_path_within(m.bolt, "bolt"@, page);
    lemma_histogram_shown(
        page,
        m.http.read,
        name,
        labels2("protocol"@, "http"@, "kind"@, "read"@),
        i,
    );
    lemma_histogram_shown(
        page,
        m.http.write,
        name,
        labels2("protocol"@, "http"@, "kind"@, "write"@),
        i,
    );
    lemma_histogram_shown(
        page,
        m.bolt.read,
        name,
        labels2("protocol"@, "bolt"@, "kind"@, "read"@),
        i,
    );
    lemma_histogram_shown(
        page,
        m.bolt.write,
        name,
        labels2("protocol"@, "bolt"@, "kind"@, "write"@),
        i,
    );
}

/// The word for what a writer lock was waited for.
pub open spec fn purpose(kind: WriterLockKind) -> Seq<char> {
    match kind {
        WriterLockKind::Http => "http"@,
        WriterLockKind::Bolt => "bolt"@,
        WriterLockKind::BoltTransaction => "bolt_transaction"@,
        WriterLockKind::Flush => "flush"@,
        WriterLockKind::CompactionBasis => "compaction_basis"@,
        WriterLockKind::CompactionInstall => "compaction_install"@,
    }
}

/// The lines of each purpose are within the lock lines.
proof fn lemma_locks_within(m: MetricsModel, kind: WriterLockKind)
    ensures
        within(m.locks[kind.slot()].wait_lines(kind), m.lock_lines()),
        m.lock_lines().contains(m.locks[kind.slot()].timeout_line(kind)),
{
    let x = m.locks[kind.slot()].wait_lines(kind);
    let a0 = family_head(
        "namidb_writer_lock_wait_seconds"@,
        "Time spent waiting for the namespace writer mutex."@,
        "histogram"@,
    );
    let b0 = m.locks[0].wait_lines(WriterLockKind::Http);
    let a1 = a0 + b0;
    lemma_within_both(x, a0, b0);
    let b1 = m.locks[1].wait_lines(WriterLockKind::Bolt);
    let a2 = a1 + b1;
    lemma_within_both(x, a1, b1);
    let b2 = m.locks[2].wait_lines(WriterLockKind::BoltTransaction);
    let a3 = a2 + b2;
    lemma_within_both(x, a2, b2);
    let b3 = m.locks[3].wait_lines(WriterLockKind::Flush);
    let a4 = a3 + b3;
    lemma_within_both(x, a3, b3);
    let b4 = m.locks[4].wait_lines(WriterLockKind::CompactionBasis);
    let a5 = a4 + b4;
    lemma_within_both(x, a4, b4);
    let b5 = m.locks[5].wait_lines(WriterLockKind::CompactionInstall);
    let a6 = a5 + b5;
    lemma_within_both(x, a5, b5);
    let b6 = family_head(
        "namidb_writer_lock_timeouts_total"@,
        "Writer-mutex acquisitions that hit their configured bound."@,
        "counter"@,
    );
    let a7 = a6 + b6;
    lemma_within_both(x, a6, b6);
    let b7 = seq![
        m.locks[0].timeout_line(WriterLockKind::Http),
        m.locks[1].timeout_line(WriterLockKind::Bolt),
        m.locks[2].timeout_line(WriterLockKind::BoltTransaction),
        m.locks[3].timeout_line(WriterLockKind::Flush),
        m.locks[4].timeout_line(WriterLockKind::CompactionBasis),
        m.locks[5].timeout_line(WriterLockKind::CompactionInstall),
    ];
    lemma_within_both(x, a7, b7);
    assert(b7[kind.slot()] == m.locks[kind.slot()].timeout_line(kind));
    assert(b7.contains(m.locks[kind.slot()].timeout_line(kind)));
}

/// The page shows, for each purpose that the writer lock is waited for, the waits
/// and how many of them ran out of time, under the word for that purpose.
pub proof fn law_page_tells_locks(
    m: MetricsModel,
    uptime: Seq<char>,
    storage: StorageGauges,
    kind: WriterLockKind,
    i: int,
)
    ensures
        ({
            let page = m.exposition(uptime, storage);
            let lock = m.locks[kind.slot()];
            let labels = label("purpose"@, purpose(kind));
            &&& shows_histogram(page, lock.wait, "namidb_writer_lock_wait_seconds"@, labels, i)
            &&& page.contains(
                sample(
                    "namidb_writer_lock_timeouts_total"@,
                    labels,
                    decimal(lock.timeouts as nat),
                ),
            )
        }),
{
    let page = m.exposition(uptime, storage);
    let lock = m.locks[kind.slot()];
    lemma_locks_within(m, kind);
    lemma_page_has(m, uptime, storage, lock.wait_lines(kind));
    lemma_histogram_shown(
        page,
        lock.wait,
        "namidb_writer_lock_wait_seconds"@,
        label("purpose"@, purpose(kind)),
        i,
    );
    lemma_page_shows(m, uptime, storage, lock.timeout_line(kind));
}

/// The lines of each trigger are within their family.
proof fn lemma_phase_family_within(m: MetricsModel, trigger: CompactionTrigger)
    ensures
        within(m.compactions[trigger.slot()].all_phase_lines(trigger), m.phase_family()),
{
    let x = m.compactions[trigger.slot()].all_phase_lines(trigger);
    let a0 = family_head("namidb_compaction_phase_duration_seconds"@, "Compaction wall-clock split into off-lock prepare, install wait, and install hold."@, "histogram"@);
    let b0 = m.compactions[0].all_phase_lines(CompactionTrigger::Periodic);
    let a1 = a0 + b0;
    lemma_within_both(x, a0, b0);
    let b1 = m.compactions[1].all_phase_lines(CompactionTrigger::Reactive);
    let a2 = a1 + b1;
    lemma_within_both(x, a1, b1);
    let b2 = m.compactions[2].all_phase_lines(CompactionTrigger::Ddl);
    let a3 = a2 + b2;
    lemma_within_both(x, a2, b2);
}

/// The lines of each trigger are within their family.
proof fn lemma_status_family_within(m: MetricsModel, trigger: CompactionTrigger)
    ensures
        within(m.compactions[trigger.slot()].status_lines(trigger), m.status_family()),
{
    let x = m.compactions[trigger.slot()].status_lines(trigger);
    let a0 = family_head("namidb_compactions_total"@, "Compaction attempts by trigger and terminal status."@, "counter"@);
    let b0 = m.compactions[0].status_lines(CompactionTrigger::Periodic);
    let a1 = a0 + b0;
    lemma_within_both(x, a0, b0);
    let b1 = m.compactions[1].status_lines(CompactionTrigger::Reactive);
    let a2 = a1 + b1;
    lemma_within_both(x, a1, b1);
    let b2 = m.compactions[2].status_lines(CompactionTrigger::Ddl);
    let a3 = a2 + b2;
    lemma_within_both(x, a2, b2);
}

/// The lines of each trigger are within their family.
proof fn lemma_backlog_family_within(m: MetricsModel, trigger: CompactionTrigger)
    ensures
        within(m.compactions[trigger.slot()].backlog_lines(trigger), m.backlog_family()),
{
    let x = m.compactions[trigger.slot()].backlog_lines(trigger);
    let a0 = family_head("namidb_compaction_l0_backlog_ssts"@, "Most recently observed maximum L0 bucket depth at a compaction boundary."@, "gauge"@);
    let b0 = m.compactions[0].backlog_lines(CompactionTrigger::Periodic);
    let a1 = a0 + b0;
    lemma_within_both(x, a0, b0);
    let b1 = m.compactions[1].backlog_lines(CompactionTrigger::Reactive);
    let a2 = a1 + b1;
    lemma_within_both(x, a1, b1);
    let b2 = m.compactions[2].backlog_lines(CompactionTrigger::Ddl);
    let a3 = a2 + b2;
    lemma_within_both(x, a2, b2);
}

/// The lines of each trigger are within their family.
proof fn lemma_sst_family_within(m: MetricsModel, trigger: CompactionTrigger)
    ensures
        within(m.compactions[trigger.slot()].sst_lines(trigger), m.sst_family()),
{
    let x = m.compactions[trigger.slot()].sst_lines(trigger);
    let a0 = family_head("namidb_compaction_ssts_total"@, "SST descriptors removed or written by compaction."@, "counter"@);
    let b0 = m.compactions[0].sst_lines(CompactionTrigger::Periodic);
    let a1 = a0 + b0;
    lemma_within_both(x, a0, b0);
    let b1 = m.compactions[1].sst_lines(CompactionTrigger::Reactive);
    let a2 = a1 + b1;
    lemma_within_both(x, a1, b1);
    let b2 = m.compactions[2].sst_lines(CompactionTrigger::Ddl);
    let a3 = a2 + b2;
    lemma_within_both(x, a2, b2);
}

/// The lines of each phase are within those of its trigger.
proof fn lemma_phases_within(
    c: CompactionModel,
    trigger: CompactionTrigger,
    phase: CompactionPhase,
)
    ensures
        within(c.phase_lines(trigger, phase), c.all_phase_lines(trigger)),
{
    let x = c.phase_lines(trigger, phase);
    let a = c.phase_lines(trigger, CompactionPhase::Prepare);
    let b = c.phase_lines(trigger, CompactionPhase::InstallWait);
    let d = c.phase_lines(trigger, CompactionPhase::InstallHold);
    lemma_within_both(x, a, b);
    lemma_within_both(x, a + b, d);
}

/// The page shows, for each trigger of a compaction, how often its passes came to
/// each end.
pub proof fn law_page_tells_passes(
    m: MetricsModel,
    uptime: Seq<char>,
    storage: StorageGauges,
    trigger: CompactionTrigger,
    status: CompactionStatus,
)
    ensures
        m.exposition(uptime, storage).contains(
            sample(
                "namidb_compactions_total"@,
                labels2("trigger"@, trigger_word(trigger), "status"@, status_word(status)),
                decimal(m.compactions[trigger.slot()].statuses[status.slot()] as nat),
            ),
        ),
{
    let c = m.compactions[trigger.slot()];
    let lines = c.status_lines(trigger);
    assert(lines[status.slot()] == c.status_line(trigger, status));
    assert(lines.contains(c.status_line(trigger, status)));
    lemma_status_family_within(m, trigger);
    lemma_page_shows(m, uptime, storage, c.status_line(trigger, status));
}

/// The page shows, for each trigger of a compaction, how long each phase of its
/// passes took.
pub proof fn law_page_tells_phases(
    m: MetricsModel,
    uptime: Seq<char>,
    storage: StorageGauges,
    trigger: CompactionTrigger,
    phase: CompactionPhase,
    i: int,
)
    ensures
        shows_histogram(
            m.exposition(uptime, storage),
            m.compactions[trigger.slot()].phases[phase.slot()],
            "namidb_compaction_phase_duration_seconds"@,
            labels2("trigger"@, trigger_word(trigger), "phase"@, phase_word(phase)),
            i,
        ),
{
    let c = m.compactions[trigger.slot()];
    lemma_phase_family_within(m, trigger);
    lemma_phases_within(c, trigger, phase);
    lemma_page_has(m, uptime, storage, c.phase_lines(trigger, phase));
    lemma_histogram_shown(
        m.exposition(uptime, storage),
        c.phases[phase.slot()],
        "namidb_compaction_phase_duration_seconds"@,
        labels2("trigger"@, trigger_word(trigger), "phase"@, phase_word(phase)),
        i,
    );
}

/// The page shows, for each trigger of a compaction, what its passes found at
/// level 0 before and after, and how many tables they removed and wrote.
pub proof fn law_page_tells_tables(
    m: MetricsModel,
    uptime: Seq<char>,
    storage: StorageGauges,
    trigger: CompactionTrigger,
)
    ensures
        ({
            let page = m.exposition(uptime, storage);
            let c = m.compactions[trigger.slot()];
            let told = |name: Seq<char>, key: Seq<char>, value: Seq<char>, n: u64|
                sample(
                    name,
                    labels2("trigger"@, trigger_word(trigger), key, value),
                    decimal(n as nat),
                );
            let backlog = "namidb_compaction_l0_backlog_ssts"@;
            let tables = "namidb_compaction_ssts_total"@;
            &&& page.contains(told(backlog, "stage"@, "before"@, c.l0_before))
            &&& page.contains(told(backlog, "stage"@, "after"@, c.l0_after))
            &&& page.contains(told(tables, "action"@, "removed"@, c.removed_ssts))
            &&& page.contains(told(tables, "action"@, "written"@, c.written_ssts))
        }),
{
    let c = m.compactions[trigger.slot()];
    let backlog = c.backlog_lines(trigger);
    let tables = c.sst_lines(trigger);
    lemma_backlog_family_within(m, trigger);
    lemma_sst_family_within(m, trigger);
    assert(backlog.contains(backlog[0]) && backlog.contains(backlog[1]));
    assert(tables.contains(tables[0]) && tables.contains(tables[1]));
    lemma_page_shows(m, uptime, storage, backlog[0]);
    lemma_page_shows(m, uptime, storage, backlog[1]);
    lemma_page_shows(m, uptime, storage, tables[0]);
    lemma_page_shows(m, uptime, storage, tables[1]);
}

/// The word for what triggered a compaction.
pub open spec fn trigger_word(trigger: CompactionTrigger) -> Seq<char> {
    match trigger {
        CompactionTrigger::Periodic => "periodic"@,
        CompactionTrigger::Reactive => "reactive"@,
        CompactionTrigger::Ddl => "ddl"@,
    }
}

/// The word for how a compaction ended.
pub open spec fn status_word(status: CompactionStatus) -> Seq<char> {
    match status {
        CompactionStatus::Applied => "applied"@,
        CompactionStatus::Noop => "noop"@,
        CompactionStatus::Stale => "stale"@,
        CompactionStatus::Coalesced => "coalesced"@,
        CompactionStatus::PrepareError => "prepare_error"@,
        CompactionStatus::InstallError => "install_error"@,
        CompactionStatus::Cancelled => "cancelled"@,
    }
}

/// The word for a phase of a compaction.
pub open spec fn phase_word(phase: CompactionPhase) -> Seq<char> {
    match phase {
        CompactionPhase::Prepare => "prepare"@,
        CompactionPhase::InstallWait => "install_wait"@,
        CompactionPhase::InstallHold => "install_hold"@,
    }
}

/// The parts of the storage lines are within them.
proof fn lemma_storage_within(storage: StorageGauges)
    ensures
        storage.lines().contains(
            plain_sample("namidb_cache_max_bytes"@, decimal(storage.cache_max_bytes as nat)),
        ),
        storage.lines().contains(
            plain_sample(
                "namidb_cache_capacity_bytes"@,
                decimal(storage.cache_capacity_bytes as nat),
            ),
        ),
        storage.lines().contains(
            plain_sample(
                "namidb_cache_resident_bytes"@,
                decimal(storage.cache_resident_bytes as nat),
            ),
        ),
        within(storage.search_lines(), storage.lines()),
        within(storage.bitmap_lines(), storage.lines()),
        within(storage.search_routes.lines(), storage.lines()),
{
    let a1 = scalar(
        "namidb_cache_max_bytes"@,
        "Configured aggregate byte ceiling for process-wide storage caches."@,
        "gauge"@,
        decimal(storage.cache_max_bytes as nat),
    );
    let b1 = scalar(
        "namidb_cache_capacity_bytes"@,
        "Aggregate capacity assigned to enabled storage-cache tiers."@,
        "gauge"@,
        decimal(storage.cache_capacity_bytes as nat),
    );
    let b2 = scalar(
        "namidb_cache_resident_bytes"@,
        "Cache-accounted bytes currently resident across storage tiers."@,
        "gauge"@,
        decimal(storage.cache_resident_bytes as nat),
    );
    let b3 = storage.search_lines();
    let b4 = storage.bitmap_lines();
    let b5 = storage.search_routes.lines();
    let a2 = a1 + b1;
    let a3 = a2 + b2;
    let a4 = a3 + b3;
    let a5 = a4 + b4;
    assert(a3[2] == a1[2] && a3[5] == b1[2] && a3[8] == b2[2]);
    assert(a3.contains(a1[2]) && a3.contains(b1[2]) && a3.contains(b2[2]));
    lemma_within_both(a3, a3, b3);
    lemma_within_both(a3, a4, b4);
    lemma_within_both(b3, a4, b4);
    lemma_within_both(a3, a5, b5);
    lemma_within_both(b3, a5, b5);
    lemma_within_both(b4, a5, b5);
}

/// The page shows what was read of the storage caches, each figure under its name.
pub proof fn law_page_tells_caches(
    m: MetricsModel,
    uptime: Seq<char>,
    storage: StorageGauges,
)
    ensures
        ({
            let page = m.exposition(uptime, storage);
            let of = |name: Seq<char>, n: u64| plain_sample(name, decimal(n as nat));
            &&& page.contains(of("namidb_cache_max_bytes"@, storage.cache_max_bytes))
            &&& page.contains(of("namidb_cache_capacity_bytes"@, storage.cache_capacity_bytes))
            &&& page.contains(of("namidb_cache_resident_bytes"@, storage.cache_resident_bytes))
        }),
{
    lemma_storage_within(storage);
    lemma_page_shows(
        m,
        uptime,
        storage,
        plain_sample("namidb_cache_max_bytes"@, decimal(storage.cache_max_bytes as nat)),
    );
    lemma_page_shows(
        m,
        uptime,
        storage,
        plain_sample("namidb_cache_capacity_bytes"@, decimal(storage.cache_capacity_bytes as nat)),
    );
    lemma_page_shows(
        m,
        uptime,
        storage,
        plain_sample("namidb_cache_resident_bytes"@, decimal(storage.cache_resident_bytes as nat)),
    );
}

/// The page shows how searches were served, by kind and route.
#[verifier::rlimit(40)]
pub proof fn law_page_tells_routes(
    m: MetricsModel,
    uptime: Seq<char>,
    storage: StorageGauges,
)
    ensures
        ({
            let page = m.exposition(uptime, storage);
            let r = storage.search_routes;
            let route = |kind: Seq<char>, route: Seq<char>, n: u64|
                sample(
                    "namidb_search_route_total"@,
                    labels2("kind"@, kind, "route"@, route),
                    decimal(n as nat),
                );
            &&& page.contains(route("text"@, "native"@, r.text_native))
            &&& page.contains(route("text"@, "fallback"@, r.text_fallback))
            &&& page.contains(route("vector"@, "native"@, r.vector_native))
            &&& page.contains(route("vector"@, "fallback"@, r.vector_fallback))
        }),
{
    let lines = storage.search_routes.lines();
    lemma_storage_within(storage);
    assert(lines.contains(lines[2]) && lines.contains(lines[3]));
    assert(lines.contains(lines[4]) && lines.contains(lines[5]));
    lemma_page_shows(m, uptime, storage, lines[2]);
    lemma_page_shows(m, uptime, storage, lines[3]);
    lemma_page_shows(m, uptime, storage, lines[4]);
    lemma_page_shows(m, uptime, storage, lines[5]);
}

/// The page shows what was read of search indexes, where the engine serves such
/// indexes: the pool, the indexes that were rejected, by kind, and the searches
/// that applied a posting.
#[verifier::rlimit(40)]
pub proof fn law_page_tells_search_indexes(
    m: MetricsModel,
    uptime: Seq<char>,
    storage: StorageGauges,
)
    ensures
        ({
            let page = m.exposition(uptime, storage);
            let rejected = |kind: Seq<char>, n: u64|
                sample(
                    "namidb_search_index_cache_admission_rejections_total"@,
                    label("kind"@, kind),
                    decimal(n as nat),
                );
            &&& storage.vector_index matches Some(v) ==> page.contains(
                rejected("vector"@, v.rejections),
            ) && page.contains(
                plain_sample(
                    "namidb_vector_filter_bitmap_searches_total"@,
                    decimal(v.filter_bitmap_searches as nat),
                ),
            )
            &&& storage.text_index_rejections matches Some(n) ==> page.contains(
                rejected("text"@, n),
            )
            &&& storage.vector_index is Some || storage.text_index_rejections is Some
                ==> page.contains(
                plain_sample(
                    "namidb_search_index_cache_capacity_bytes"@,
                    decimal(storage.search_index_capacity_bytes as nat),
                ),
            )
        }),
{
    let search = storage.search_lines();
    let bitmap = storage.bitmap_lines();
    lemma_storage_within(storage);
    if storage.vector_index is Some {
        assert(bitmap.contains(bitmap[2]));
        lemma_page_shows(m, uptime, storage, bitmap[2]);
    }
    if storage.vector_index is Some || storage.text_index_rejections is Some {
        let rejections = storage.rejection_lines();
        assert(search[2] == plain_sample(
            "namidb_search_index_cache_capacity_bytes"@,
            decimal(storage.search_index_capacity_bytes as nat),
        ));
        assert(search.contains(search[2]));
        lemma_page_shows(m, uptime, storage, search[2]);
        assert(search[5] == rejections[0]);
        assert(search.contains(search[5]));
        lemma_page_shows(m, uptime, storage, search[5]);
        if storage.vector_index is Some && storage.text_index_rejections is Some {
            assert(search[6] == rejections[1]);
            assert(search.contains(search[6]));
            lemma_page_shows(m, uptime, storage, search[6]);
        }
    }
}

/// What a part of the whole page shows, the whole page shows.
#[verifier::rlimit(40)]
proof fn lemma_full_page_shows(
    m: MetricsModel,
    uptime: Seq<char>,
    storage: StorageGauges,
    memory: GovernorModel,
    cache: Option<RangeCacheGauges>,
    workspace: Option<SearchWorkspaceGauges>,
    line: Seq<char>,
)
    requires
        m.exposition(uptime, storage).contains(line) || memory_lines(memory).contains(line)
            || range_cache_lines(cache).contains(line) || workspace_lines(workspace).contains(
            line,
        ),
    ensures
        m.full_exposition(uptime, storage, memory, cache, workspace).contains(line),
{
    let p1 = m.exposition(uptime, storage);
    let p2 = p1 + memory_lines(memory);
    let p3 = p2 + range_cache_lines(cache);
    if p1.contains(line) || memory_lines(memory).contains(line) {
        lemma_shown(p1, memory_lines(memory), line);
    }
    if p2.contains(line) || range_cache_lines(cache).contains(line) {
        lemma_shown(p2, range_cache_lines(cache), line);
    }
    lemma_shown(p3, workspace_lines(workspace), line);
}

/// The whole page shows everything that the registry's own page shows.
pub proof fn law_full_page_has_the_registry(
    m: MetricsModel,
    uptime: Seq<char>,
    storage: StorageGauges,
    memory: GovernorModel,
    cache: Option<RangeCacheGauges>,
    workspace: Option<SearchWorkspaceGauges>,
    line: Seq<char>,
)
    requires
        m.exposition(uptime, storage).contains(line),
    ensures
        m.full_exposition(uptime, storage, memory, cache, workspace).contains(line),
{
    lemma_full_page_shows(m, uptime, storage, memory, cache, workspace, line);
}

/// The whole page shows what the memory governor holds: its ceiling, the last
/// sample, the relief passes and the refusals, each under its name.
#[verifier::rlimit(40)]
pub proof fn law_page_tells_memory(
    m: MetricsModel,
    uptime: Seq<char>,
    storage: StorageGauges,
    memory: GovernorModel,
    cache: Option<RangeCacheGauges>,
    workspace: Option<SearchWorkspaceGauges>,
)
    ensures
        ({
            let page = m.full_exposition(uptime, storage, memory, cache, workspace);
            &&& page.contains(
                plain_sample("namidb_memory_max_bytes"@, decimal(memory.max_bytes as nat)),
            )
            &&& page.contains(
                plain_sample(
                    "namidb_memory_resident_bytes"@,
                    decimal(memory.resident_bytes as nat),
                ),
            )
            &&& page.contains(
                plain_sample(
                    "namidb_memory_reclaims_total"@,
                    decimal(memory.reclaim_events as nat),
                ),
            )
            &&& page.contains(
                plain_sample(
                    "namidb_memory_rejected_queries_total"@,
                    decimal(memory.rejected_queries as nat),
                ),
            )
        }),
{
    let lines = memory_lines(memory);
    assert(lines[2] == plain_sample("namidb_memory_max_bytes"@, decimal(memory.max_bytes as nat)));
    assert(lines[5] == plain_sample(
        "namidb_memory_resident_bytes"@,
        decimal(memory.resident_bytes as nat),
    ));
    assert(lines[8] == plain_sample(
        "namidb_memory_reclaims_total"@,
        decimal(memory.reclaim_events as nat),
    ));
    assert(lines[11] == plain_sample(
        "namidb_memory_rejected_queries_total"@,
        decimal(memory.rejected_queries as nat),
    ));
    lemma_full_page_shows(m, uptime, storage, memory, cache, workspace, lines[2]);
    lemma_full_page_shows(m, uptime, storage, memory, cache, workspace, lines[5]);
    lemma_full_page_shows(m, uptime, storage, memory, cache, workspace, lines[8]);
    lemma_full_page_shows(m, uptime, storage, memory, cache, workspace, lines[11]);
}

/// The whole page shows what the range cache reports, each figure under its name,
/// tier and kind, once the cache is set up.
#[verifier::rlimit(60)]
#[verifier::spinoff_prover]
pub proof fn law_page_tells_range_cache(
    m: MetricsModel,
    uptime: Seq<char>,
    storage: StorageGauges,
    memory: GovernorModel,
    c: RangeCacheGauges,
    workspace: Option<SearchWorkspaceGauges>,
)
    ensures
        ({
            let page = m.full_exposition(uptime, storage, memory, Some(c), workspace);
            &&& page.contains(
                sample("namidb_range_cache_bytes"@, labels2("tier"@, "ram"@, "kind"@, "budget"@), decimal(c.ram_budget_bytes as nat)),
            )
            &&& page.contains(
                sample("namidb_range_cache_bytes"@, labels2("tier"@, "ram"@, "kind"@, "capacity"@), decimal(c.memory_capacity_bytes as nat)),
            )
            &&& page.contains(
                sample("namidb_range_cache_bytes"@, labels2("tier"@, "ram"@, "kind"@, "usage"@), decimal(c.memory_usage_bytes as nat)),
            )
            &&& page.contains(
                sample("namidb_range_cache_bytes"@, labels2("tier"@, "ram"@, "kind"@, "write_buffers"@), decimal(c.write_buffer_reservation_bytes as nat)),
            )
            &&& page.contains(
                sample("namidb_range_cache_bytes"@, labels2("tier"@, "ram"@, "kind"@, "persistent_index_estimate"@), decimal(c.disk_index_estimate_bytes as nat)),
            )
            &&& page.contains(
                sample("namidb_range_cache_bytes"@, labels2("tier"@, "nvme"@, "kind"@, "capacity"@), decimal(c.disk_capacity_bytes as nat)),
            )
            &&& page.contains(
                sample("namidb_range_cache_lookups_total"@, label("outcome"@, "memory_hit"@), decimal(c.memory_hits as nat)),
            )
            &&& page.contains(
                sample("namidb_range_cache_lookups_total"@, label("outcome"@, "disk_hit"@), decimal(c.disk_hits as nat)),
            )
            &&& page.contains(
                sample("namidb_range_cache_lookups_total"@, label("outcome"@, "miss"@), decimal(c.misses as nat)),
            )
            &&& page.contains(
                plain_sample("namidb_range_cache_remote_fetches_total"@, decimal(c.outer_fetches as nat)),
            )
            &&& page.contains(
                sample("namidb_range_cache_events_total"@, label("event"@, "insert"@), decimal(c.inserts as nat)),
            )
            &&& page.contains(
                sample("namidb_range_cache_events_total"@, label("event"@, "admission_rejection"@), decimal(c.admission_rejections as nat)),
            )
            &&& page.contains(
                sample("namidb_range_cache_events_total"@, label("event"@, "corrupt_entry"@), decimal(c.corrupt_entries as nat)),
            )
            &&& page.contains(
                sample("namidb_range_cache_nvme_io_bytes_total"@, label("operation"@, "read"@), decimal(c.disk_read_bytes as nat)),
            )
            &&& page.contains(
                sample("namidb_range_cache_nvme_io_bytes_total"@, label("operation"@, "write"@), decimal(c.disk_write_bytes as nat)),
            )
            &&& page.contains(plain_sample("namidb_range_cache_enabled"@, decimal(1)))
        }),
{
    let lines = range_cache_lines(Some(c));
    assert(lines[5] == sample("namidb_range_cache_bytes"@, labels2("tier"@, "ram"@, "kind"@, "budget"@), decimal(c.ram_budget_bytes as nat)));
    lemma_full_page_shows(m, uptime, storage, memory, Some(c), workspace, lines[5]);
    assert(lines[6] == sample("namidb_range_cache_bytes"@, labels2("tier"@, "ram"@, "kind"@, "capacity"@), decimal(c.memory_capacity_bytes as nat)));
    lemma_full_page_shows(m, uptime, storage, memory, Some(c), workspace, lines[6]);
    assert(lines[7] == sample("namidb_range_cache_bytes"@, labels2("tier"@, "ram"@, "kind"@, "usage"@), decimal(c.memory_usage_bytes as nat)));
    lemma_full_page_shows(m, uptime, storage, memory, Some(c), workspace, lines[7]);
    assert(lines[8] == sample("namidb_range_cache_bytes"@, labels2("tier"@, "ram"@, "kind"@, "write_buffers"@), decimal(c.write_buffer_reservation_bytes as nat)));
    lemma_full_page_shows(m, uptime, storage, memory, Some(c), workspace, lines[8]);
    assert(lines[9] == sample("namidb_range_cache_bytes"@, labels2("tier"@, "ram"@, "kind"@, "persistent_index_estimate"@), decimal(c.disk_index_estimate_bytes as nat)));
    lemma_full_page_shows(m, uptime, storage, memory, Some(c), workspace, lines[9]);
    assert(lines[11] == sample("namidb_range_cache_bytes"@, labels2("tier"@, "nvme"@, "kind"@, "capacity"@), decimal(c.disk_capacity_bytes as nat)));
    lemma_full_page_shows(m, uptime, storage, memory, Some(c), workspace, lines[11]);
    assert(lines[14] == sample("namidb_range_cache_lookups_total"@, label("outcome"@, "memory_hit"@), decimal(c.memory_hits as nat)));
    lemma_full_page_shows(m, uptime, storage, memory, Some(c), workspace, lines[14]);
    assert(lines[15] == sample("namidb_range_cache_lookups_total"@, label("outcome"@, "disk_hit"@), decimal(c.disk_hits as nat)));
    lemma_full_page_shows(m, uptime, storage, memory, Some(c), workspace, lines[15]);
    assert(lines[16] == sample("namidb_range_cache_lookups_total"@, label("outcome"@, "miss"@), decimal(c.misses as nat)));
    lemma_full_page_shows(m, uptime, storage, memory, Some(c), workspace, lines[16]);
    assert(lines[19] == plain_sample("namidb_range_cache_remote_fetches_total"@, decimal(c.outer_fetches as nat)));
    lemma_full_page_shows(m, uptime, storage, memory, Some(c), workspace, lines[19]);
    assert(lines[22] == sample("namidb_range_cache_events_total"@, label("event"@, "insert"@), decimal(c.inserts as nat)));
    lemma_full_page_shows(m, uptime, storage, memory, Some(c), workspace, lines[22]);
    assert(lines[23] == sample("namidb_range_cache_events_total"@, label("event"@, "admission_rejection"@), decimal(c.admission_rejections as nat)));
    lemma_full_page_shows(m, uptime, storage, memory, Some(c), workspace, lines[23]);
    assert(lines[24] == sample("namidb_range_cache_events_total"@, label("event"@, "corrupt_entry"@), decimal(c.corrupt_entries as nat)));
    lemma_full_page_shows(m, uptime, storage, memory, Some(c), workspace, lines[24]);
    assert(lines[27] == sample("namidb_range_cache_nvme_io_bytes_total"@, label("operation"@, "read"@), decimal(c.disk_read_bytes as nat)));
    lemma_full_page_shows(m, uptime, storage, memory, Some(c), workspace, lines[27]);
    assert(lines[28] == sample("namidb_range_cache_nvme_io_bytes_total"@, label("operation"@, "write"@), decimal(c.disk_write_bytes as nat)));
    lemma_full_page_shows(m, uptime, storage, memory, Some(c), workspace, lines[28]);
    assert(lines[2] == plain_sample("namidb_range_cache_enabled"@, decimal(1)));
    lemma_full_page_shows(m, uptime, storage, memory, Some(c), workspace, lines[2]);
}

/// The whole page shows what the search workspace reports, each figure under its
/// name, once the workspace is set up.
#[verifier::rlimit(40)]
pub proof fn law_page_tells_workspace(
    m: MetricsModel,
    uptime: Seq<char>,
    storage: StorageGauges,
    memory: GovernorModel,
    cache: Option<RangeCacheGauges>,
    w: SearchWorkspaceGauges,
)
    ensures
        ({
            let page = m.full_exposition(uptime, storage, memory, cache, Some(w));
            &&& page.contains(
                sample("namidb_search_workspace_bytes"@, label("kind"@, "capacity"@), decimal(w.capacity_bytes as nat)),
            )
            &&& page.contains(
                sample("namidb_search_workspace_bytes"@, label("kind"@, "reserved"@), decimal(w.reserved_bytes as nat)),
            )
            &&& page.contains(
                sample("namidb_search_workspace_bytes"@, label("kind"@, "peak_reserved"@), decimal(w.peak_reserved_bytes as nat)),
            )
            &&& page.contains(
                sample("namidb_search_workspace_reservations_total"@, label("outcome"@, "successful"@), decimal(w.successful_reservations as nat)),
            )
            &&& page.contains(
                sample("namidb_search_workspace_reservations_total"@, label("outcome"@, "contended"@), decimal(w.contended_reservations as nat)),
            )
            &&& page.contains(
                sample("namidb_search_workspace_reservations_total"@, label("outcome"@, "rejected"@), decimal(w.rejected_reservations as nat)),
            )
            &&& page.contains(plain_sample("namidb_search_workspace_enabled"@, decimal(1)))
        }),
{
    let lines = workspace_lines(Some(w));
    assert(lines[5] == sample("namidb_search_workspace_bytes"@, label("kind"@, "capacity"@), decimal(w.capacity_bytes as nat)));
    lemma_full_page_shows(m, uptime, storage, memory, cache, Some(w), lines[5]);
    assert(lines[6] == sample("namidb_search_workspace_bytes"@, label("kind"@, "reserved"@), decimal(w.reserved_bytes as nat)));
    lemma_full_page_shows(m, uptime, storage, memory, cache, Some(w), lines[6]);
    assert(lines[7] == sample("namidb_search_workspace_bytes"@, label("kind"@, "peak_reserved"@), decimal(w.peak_reserved_bytes as nat)));
    lemma_full_page_shows(m, uptime, storage, memory, cache, Some(w), lines[7]);
    assert(lines[10] == sample("namidb_search_workspace_reservations_total"@, label("outcome"@, "successful"@), decimal(w.successful_reservations as nat)));
    lemma_full_page_shows(m, uptime, storage, memory, cache, Some(w), lines[10]);
    assert(lines[11] == sample("namidb_search_workspace_reservations_total"@, label("outcome"@, "contended"@), decimal(w.contended_reservations as nat)));
    lemma_full_page_shows(m, uptime, storage, memory, cache, Some(w), lines[11]);
    assert(lines[12] == sample("namidb_search_workspace_reservations_total"@, label("outcome"@, "rejected"@), decimal(w.rejected_reservations as nat)));
    lemma_full_page_shows(m, uptime, storage, memory, cache, Some(w), lines[12]);
    assert(lines[2] == plain_sample("namidb_search_workspace_enabled"@, decimal(1)));
    lemma_full_page_shows(m, uptime, storage, memory, cache, Some(w), lines[2]);
}

/// A query moves the counter of its outcome by one and the other not at all, and
/// the latencies of its kind by one observation; and it is slow exactly if there
/// is a threshold and it took at least as long.
pub proof fn law_query_moves_its_counters(
    m: MetricsModel,
    protocol: Protocol,
    kind: Option<QueryKind>,
    ok: bool,
    n: nat,
)
    ensures
        ({
            let after = m.query_observed(protocol, kind, ok, n);
            let (before, path) = if protocol == Protocol::Http {
                (m.http, after.http)
            } else {
                (m.bolt, after.bolt)
            };
            &&& ok ==> path.ok == wrap(before.ok + 1) && path.err == before.err
            &&& !ok ==> path.err == wrap(before.err + 1) && path.ok == before.ok
            &&& kind == Some(QueryKind::Read) ==> path.read == before.read.observed(n)
            &&& kind == Some(QueryKind::Write) ==> path.write == before.write.observed(n)
            &&& m.slow_threshold > 0 && n >= m.slow_threshold ==> after.slow_queries == wrap(
                m.slow_queries + 1,
            )
            &&& m.slow_threshold == 0 || n < m.slow_threshold ==> after.slow_queries
                == m.slow_queries
            &&& after.locks == m.locks
            &&& after.compactions == m.compactions
            &&& after.in_flight == m.in_flight
        }),
{
}

/// What the range cache accounts for is the memory of its tiers, its write
/// buffers and its disk index together, as far as that can be counted.
pub proof fn law_accounted_total(c: RangeCacheGauges)
    ensures
        c.accounted_bytes() <= u64::MAX,
        c.accounted_bytes() < u64::MAX ==> c.accounted_bytes() - c.memory_capacity_bytes
            - c.write_buffer_reservation_bytes == c.disk_index_estimate_bytes,
        c.accounted_bytes() == u64::MAX ==> c.memory_capacity_bytes
            + c.write_buffer_reservation_bytes + c.disk_index_estimate_bytes >= u64::MAX,
{
}

/// A wait for the writer lock is recorded under its purpose and no other, and
/// counts as timed out exactly if the lock was not got.
pub proof fn law_wait_moves_its_counters(
    m: MetricsModel,
    kind: WriterLockKind,
    other: WriterLockKind,
    n: nat,
    acquired: bool,
)
    requires
        m.wf(),
    ensures
        ({
            let after = m.lock_observed(kind, n, acquired);
            let was = m.locks[kind.slot()];
            let is = after.locks[kind.slot()];
            &&& is.wait == was.wait.observed(n)
            &&& acquired ==> is.timeouts == was.timeouts
            &&& !acquired ==> is.timeouts == wrap(was.timeouts + 1)
            &&& other != kind ==> after.locks[other.slot()] == m.locks[other.slot()]
            &&& after.http == m.http && after.bolt == m.bolt && after.compactions == m.compactions
        }),
{
}

/// An observation shows in every bucket whose bound it does not pass, and in no
/// other; it adds its microseconds to the sum and one to the count.
pub proof fn law_observation_shows_in_its_buckets(h: HistogramModel, n: nat, i: int)
    requires
        h.counts.len() == 15,
        prefix_sum(h.counts, 15) == h.count,
        h.count < u64::MAX,
        0 <= i < 14,
    ensures
        n <= bound_nanos(i) ==> h.observed(n).shown(i) == h.shown(i) + 1,
        n > bound_nanos(i) ==> h.observed(n).shown(i) == h.shown(i),
        h.observed(n).sum_micros == wrap(h.sum_micros + n / 1000),
{
    lemma_bucket(n, 0);
    law_observation_is_counted_once(h, n);
    let value = wrap(h.counts[bucket(n)] + 1);
    lemma_prefix_sum_grows(h.counts, bucket(n) + 1, 15);
    lemma_prefix_sum_grows(h.counts, 0, bucket(n));
    assert(value == h.counts[bucket(n)] + 1);
    lemma_prefix_sum_update(h.counts, bucket(n), value, i + 1);
    lemma_prefix_sum_update(h.counts, bucket(n), value, 15);
    lemma_prefix_sum_grows(h.counts, i + 1, 15);
    lemma_prefix_sum_grows(h.observed(n).counts, i + 1, 15);
    if n <= bound_nanos(i) {
        assert(bucket(n) <= i);
    } else {
        assert(bucket(n) > i) by {
            if bucket(n) <= i {
                law_bounds_grow(bucket(n), i);
            }
        }
    }
}

/// The bounds of the buckets grow.
pub proof fn law_bounds_grow(i: int, j: int)
    requires
        0 <= i <= j < 14,
    ensures
        bound_nanos(i) <= bound_nanos(j),
        i < j ==> bound_nanos(i) < bound_nanos(j),
{
}

/// A query that is put on the gauge and taken off again leaves it as it was,
/// whatever was recorded of queries in between.
pub proof fn law_in_flight_is_balanced(
    m: MetricsModel,
    protocol: Protocol,
    kind: Option<QueryKind>,
    ok: bool,
    n: nat,
)
    ensures
        m.entered().left() == m,
        m.entered().query_observed(protocol, kind, ok, n).left() == m.query_observed(
            protocol,
            kind,
            ok,
            n,
        ),
{
}

/// A query counts once in its path's totals and in at most one latency
/// histogram, and the other path does not move.
pub proof fn law_query_is_counted_once(
    m: MetricsModel,
    protocol: Protocol,
    kind: Option<QueryKind>,
    ok: bool,
    n: nat,
)
    ensures
        ({
            let after = m.query_observed(protocol, kind, ok, n);
            let (old_path, new_path, old_other, new_other) = if protocol is Http {
                (m.http, after.http, m.bolt, after.bolt)
            } else {
                (m.bolt, after.bolt, m.http, after.http)
            };
            &&& new_other == old_other
            &&& wrap(new_path.ok + new_path.err) == wrap(old_path.ok + old_path.err + 1)
            &&& kind is None ==> new_path.read == old_path.read && new_path.write == old_path.write
            &&& kind == Some(QueryKind::Read) ==> new_path.write == old_path.write
            &&& kind == Some(QueryKind::Write) ==> new_path.read == old_path.read
        }),
{
}

} // verus!
