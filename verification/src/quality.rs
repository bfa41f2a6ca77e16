//! Judging a connection: batches of concurrent range requests of growing width, and the
//! verdict that their outcomes lead to.
use vstd::prelude::*;

use crate::jito::{calculate_jitter, ThrottlePattern};
use crate::numbers::sum_all;
use crate::ratio::Ratio;

verus! {

/// How many batches are sent at most: four widths in the first round, three in each of the
/// two rounds that follow.
pub const BATCHES: usize = 10;

/// How many bytes each request of the first round asks for; every round doubles it.
pub const FIRST_PROBE_SIZE: u64 = 20_480;

/// How many batches may fall short before the server counts as limiting connections.
pub const TOLERATED_SHORTFALLS: u32 = 2;

/// A speed below this share of the one it is compared with counts as degraded.
pub const DEGRADED_PERCENT: u32 = 55;

/// The nanoseconds of a second.
pub const NANOS_PER_SEC: u64 = 1_000_000_000;

/// The nanoseconds of a millisecond.
pub const NANOS_PER_MS: u64 = 1_000_000;

/// A batch of `count` concurrent requests for `probe_size` bytes each.
#[derive(Debug, Clone, Copy, PartialEq, Eq, Structural)]
pub struct Batch {
    pub count: usize,
    pub probe_size: u64,
}

/// How a batch went.
#[derive(Debug, Clone, Copy, PartialEq, Eq, Structural)]
pub struct BatchReport {
    /// How many of the requests were answered with success.
    pub success: usize,
    /// The latencies of the successful requests, added up.
    pub total_latency_ms: u64,
    /// How long the whole batch took; zero if no time was measured.
    pub elapsed_ns: u64,
}

/// The values that are there, in order.
pub open spec fn present(values: Seq<Option<u64>>) -> Seq<u64>
    decreases values.len(),
{
    if values.len() == 0 {
        seq![]
    } else {
        match values.last() {
            Some(v) => present(values.drop_last()).push(v),
            None => present(values.drop_last()),
        }
    }
}

/// Reports on a batch that took `elapsed_ns` nanoseconds; `latencies_ns` holds for each request
/// its latency in nanoseconds, if it was answered with success. Latencies are added up before
/// the sum is rounded down to milliseconds.
pub fn batch_report(latencies_ns: &Vec<Option<u64>>, elapsed_ns: u64) -> (r: BatchReport)
    requires
        crate::numbers::sum_of(present(latencies_ns@)) / NANOS_PER_MS as nat <= u64::MAX,
    ensures
        r.success == present(latencies_ns@).len(),
        r.success <= latencies_ns@.len(),
        r.total_latency_ms == crate::numbers::sum_of(present(latencies_ns@)) / NANOS_PER_MS as nat,
        r.elapsed_ns == elapsed_ns,
{
    let mut answered: Vec<u64> = Vec::new();
    let mut i: usize = 0;
    while i < latencies_ns.len()
        invariant
            i <= latencies_ns@.len(),
            answered@ == present(latencies_ns@.take(i as int)),
            answered@.len() <= i,
        decreases latencies_ns@.len() - i,
    {
        proof {
            assert(latencies_ns@.take(i + 1).drop_last() =~= latencies_ns@.take(i as int));
        }
        if let Some(latency) = latencies_ns[i] {
            answered.push(latency);
        }
        i = i + 1;
    }
    proof {
        assert(latencies_ns@.take(i as int) =~= latencies_ns@);
    }
    BatchReport {
        success: answered.len(),
        total_latency_ms: (sum_all(&answered) / NANOS_PER_MS as u128) as u64,
        elapsed_ns,
    }
}

/// The verdict on a connection.
#[derive(Debug, Clone, Copy, PartialEq, Eq, Structural)]
pub struct Quality {
    pub max_threads: usize,
    pub throttle: ThrottlePattern,
    pub speed: u64,
    pub latency_ms: u64,
    pub packet_loss: Ratio,
    pub jitter_ms: u64,
}

/// The round that the batch at place `k` belongs to.
pub open spec fn batch_round(k: int) -> int {
    if k < 4 {
        0
    } else if k < 7 {
        1
    } else {
        2
    }
}

/// The width of the batch at place `k`: 2, 4, 8, 16 in the first round, 2, 4, 8 afterwards.
pub open spec fn batch_count(k: int) -> nat {
    if k == 0 || k == 4 || k == 7 {
        2
    } else if k == 1 || k == 5 || k == 8 {
        4
    } else if k == 3 {
        16
    } else {
        8
    }
}

/// The bytes that each request of the batch at place `k` asks for.
pub open spec fn batch_probe_size(k: int) -> nat {
    if batch_round(k) == 0 {
        FIRST_PROBE_SIZE as nat
    } else if batch_round(k) == 1 {
        (2 * FIRST_PROBE_SIZE) as nat
    } else {
        (4 * FIRST_PROBE_SIZE) as nat
    }
}

/// Reports that a run of batches can have given: no more successes than requests.
pub open spec fn reports_valid(h: Seq<BatchReport>) -> bool {
    &&& h.len() <= BATCHES
    &&& forall|i: int| 0 <= i < h.len() ==> (#[trigger] h[i]).success <= batch_count(i)
}

/// How many batches had requests that failed.
pub open spec fn shortfalls(h: Seq<BatchReport>) -> nat
    decreases h.len(),
{
    if h.len() == 0 {
        0
    } else {
        shortfalls(h.drop_last()) + (if h.last().success < batch_count(h.len() - 1) {
            1nat
        } else {
            0nat
        })
    }
}

/// The share of requests that failed, per batch and added up, in sixteenths.
pub open spec fn lost_sixteenths(h: Seq<BatchReport>) -> int
    decreases h.len(),
{
    if h.len() == 0 {
        0
    } else {
        let count = batch_count(h.len() - 1) as int;
        lost_sixteenths(h.drop_last()) + (count - h.last().success) * (16int / count)
    }
}

/// The mean over the batches of the share of requests that failed.
pub open spec fn mean_loss(h: Seq<BatchReport>) -> Ratio {
    Ratio { num: lost_sixteenths(h) as u64, den: (16 * h.len()) as u64 }
}

/// The mean latency of the successful requests of a batch.
pub open spec fn batch_latency(b: BatchReport) -> int {
    b.total_latency_ms as int / crate::numbers::greatest(b.success as int, 1)
}

/// Whether a batch took measurable time.
pub open spec fn is_timed(b: BatchReport) -> bool {
    b.elapsed_ns > 0
}

/// The mean latencies of the batches that were timed, in order.
pub open spec fn timed_latencies(h: Seq<BatchReport>) -> Seq<u64>
    decreases h.len(),
{
    if h.len() == 0 {
        seq![]
    } else if is_timed(h.last()) {
        timed_latencies(h.drop_last()).push(batch_latency(h.last()) as u64)
    } else {
        timed_latencies(h.drop_last())
    }
}

/// The bytes that the successful requests of the batch at place `i` asked for.
pub open spec fn batch_bytes(h: Seq<BatchReport>, i: int) -> int {
    h[i].success * batch_probe_size(i)
}

/// The speed of the batch at place `i` in bytes per second, rounded down.
pub open spec fn batch_speed(h: Seq<BatchReport>, i: int) -> u64 {
    (batch_bytes(h, i) * NANOS_PER_SEC / h[i].elapsed_ns as int) as u64
}

/// Whether the batch at place `i` was slower than `percent` % of the batch at place `j`.
pub open spec fn speed_below(h: Seq<BatchReport>, i: int, j: int, percent: int) -> bool {
    batch_bytes(h, i) * h[j].elapsed_ns * 100 < percent * (batch_bytes(h, j) * h[i].elapsed_ns)
}

/// Whether each connection of the batch at place `i` was slower than `percent` % of each
/// connection of the batch at place `j`: both speeds are divided by the batch's width.
pub open spec fn connection_speed_below(
    h: Seq<BatchReport>,
    i: int,
    j: int,
    percent: int,
) -> bool {
    batch_bytes(h, i) * h[j].elapsed_ns * (100 * batch_count(j)) < (percent * batch_count(i)) * (
    batch_bytes(h, j) * h[i].elapsed_ns)
}

/// The place of the baseline, the latest batch of width two that was timed; -1 before there is
/// one.
pub open spec fn baseline_place(h: Seq<BatchReport>) -> int
    decreases h.len(),
{
    if h.len() == 0 {
        -1
    } else if batch_count(h.len() - 1) == 2 && is_timed(h.last()) {
        h.len() - 1
    } else {
        baseline_place(h.drop_last())
    }
}

/// The speed of the baseline; zero before there is one.
pub open spec fn baseline_speed(h: Seq<BatchReport>) -> u64 {
    if baseline_place(h) < 0 {
        0
    } else {
        batch_speed(h, baseline_place(h))
    }
}

/// The speed of the latest batch that was timed; zero before there is one.
pub open spec fn latest_speed(h: Seq<BatchReport>) -> u64
    decreases h.len(),
{
    if h.len() == 0 {
        0
    } else if is_timed(h.last()) {
        batch_speed(h, h.len() - 1)
    } else {
        latest_speed(h.drop_last())
    }
}

/// The mean of the latencies, rounded down; 50 if nothing was timed.
pub open spec fn mean_latency(latencies: Seq<u64>) -> nat {
    if latencies.len() == 0 {
        50
    } else {
        crate::numbers::sum_of(latencies) / latencies.len()
    }
}

/// Whether the latest batch was the one shortfall too many.
pub open spec fn hits_hard_limit(h: Seq<BatchReport>) -> bool {
    h.last().success < batch_count(h.len() - 1) && shortfalls(h) > TOLERATED_SHORTFALLS
}

/// Whether each connection of the latest batch was slower than 55 % of each connection of the
/// baseline: adding connections has degraded them.
pub open spec fn scales_badly(h: Seq<BatchReport>) -> bool {
    &&& is_timed(h.last())
    &&& batch_count(h.len() - 1) > 2
    &&& baseline_place(h) >= 0
    &&& connection_speed_below(h, h.len() - 1, baseline_place(h), DEGRADED_PERCENT as int)
}

/// Whether the server slows down as time passes: the narrowest batches of the three rounds were
/// timed, and each was slower than 55 % of the one before.
pub open spec fn slows_over_time(h: Seq<BatchReport>) -> bool {
    &&& h.len() == BATCHES
    &&& is_timed(h[0]) && is_timed(h[4]) && is_timed(h[7])
    &&& speed_below(h, 4, 0, DEGRADED_PERCENT as int)
    &&& speed_below(h, 7, 4, DEGRADED_PERCENT as int)
}

/// Half the width of the batch that showed a limit, but at least four.
pub open spec fn threads_below(count: nat) -> usize {
    crate::numbers::greatest(4, count as int / 2) as usize
}

/// The verdict on a server that turns connections away.
pub open spec fn hard_limit_verdict(h: Seq<BatchReport>) -> Quality {
    Quality {
        max_threads: threads_below(batch_count(h.len() - 1)),
        throttle: ThrottlePattern::HardLimit(h.last().success),
        speed: baseline_speed(h.drop_last()),
        latency_ms: 100,
        packet_loss: mean_loss(h),
        jitter_ms: 50,
    }
}

/// The verdict on a server whose bandwidth does not grow with the connections.
pub open spec fn bandwidth_verdict(h: Seq<BatchReport>) -> Quality {
    let speed = batch_speed(h, h.len() - 1);
    Quality {
        max_threads: threads_below(batch_count(h.len() - 1)),
        throttle: ThrottlePattern::BandwidthCap(speed),
        speed,
        latency_ms: batch_latency(h.last()) as u64,
        packet_loss: mean_loss(h),
        jitter_ms: crate::jito::jitter_of(timed_latencies(h.drop_last())) as u64,
    }
}

/// The threads that loss and jitter allow.
pub open spec fn recommended_threads(loss: Ratio, jitter: int) -> usize {
    if crate::jito::loss_is_negligible(loss) && jitter < 30 {
        32
    } else if crate::jito::loss_is_moderate(loss) {
        16
    } else {
        8
    }
}

/// The verdict after all batches.
pub open spec fn full_verdict(h: Seq<BatchReport>) -> Quality {
    let loss = mean_loss(h);
    let jitter = crate::jito::jitter_of(timed_latencies(h));
    Quality {
        max_threads: recommended_threads(loss, jitter as int),
        throttle: if slows_over_time(h) {
            ThrottlePattern::TimeBasedThrottle
        } else if crate::jito::loss_is_negligible(loss) {
            ThrottlePattern::Unthrottled
        } else {
            ThrottlePattern::AdaptiveThrottle
        },
        speed: latest_speed(h),
        latency_ms: mean_latency(timed_latencies(h)) as u64,
        packet_loss: loss,
        jitter_ms: jitter as u64,
    }
}

/// The verdict that stands after the reports `h`, if the latest of them settles it.
pub open spec fn verdict(h: Seq<BatchReport>) -> Option<Quality> {
    if hits_hard_limit(h) {
        Some(hard_limit_verdict(h))
    } else if scales_badly(h) {
        Some(bandwidth_verdict(h))
    } else if h.len() == BATCHES {
        Some(full_verdict(h))
    } else {
        None
    }
}

proof fn lemma_weight(count: int)
    requires
        count == 2 || count == 4 || count == 8 || count == 16,
    ensures
        count == 2 && 16int / count == 8 || count == 4 && 16int / count == 4 || count == 8 && 16int
            / count == 2 || count == 16 && 16int / count == 1,
{
    assert(16int / 2 == 8 && 16int / 4 == 4 && 16int / 8 == 2 && 16int / 16 == 1);
}

proof fn lemma_loss_bounds(h: Seq<BatchReport>)
    requires
        reports_valid(h),
    ensures
        0 <= lost_sixteenths(h) <= 16 * h.len(),
    decreases h.len(),
{
    if h.len() > 0 {
        let prev = h.drop_last();
        assert forall|i: int| 0 <= i < prev.len() implies (#[trigger] prev[i]).success
            <= batch_count(i) by {
            assert(prev[i] == h[i]);
        }
        lemma_loss_bounds(prev);
        assert(h.last() == h[h.len() - 1]);
        let count = batch_count(h.len() - 1) as int;
        let missing = count - h.last().success;
        let weight = 16int / count;
        lemma_weight(count);
        assert(0 <= missing * weight <= 16) by (nonlinear_arith)
            requires
                0 <= missing <= count,
                count == 2 && weight == 8 || count == 4 && weight == 4 || count == 8 && weight == 2
                    || count == 16 && weight == 1,
        ;
    }
}

/// The mean of the latencies, rounded down; 50 if nothing was timed.
fn average_latency(latencies: &Vec<u64>) -> (r: u64)
    ensures
        r == mean_latency(latencies@),
{
    let n: usize = latencies.len();
    if n == 0 {
        return 50;
    }
    let sum: u128 = sum_all(latencies);
    proof {
        crate::numbers::lemma_sum_bound(latencies@);
        vstd::arithmetic::div_mod::lemma_div_is_ordered(sum as int, n * u64::MAX, n as int);
        vstd::arithmetic::div_mod::lemma_div_multiples_vanish(u64::MAX as int, n as int);
    }
    (sum / n as u128) as u64
}

/// The width of the batch at place `k`.
fn count_at(k: usize) -> (r: usize)
    ensures
        r == batch_count(k as int),
{
    if k == 0 || k == 4 || k == 7 {
        2
    } else if k == 1 || k == 5 || k == 8 {
        4
    } else if k == 3 {
        16
    } else {
        8
    }
}

/// The bytes that each request of the batch at place `k` asks for.
fn probe_size_at(k: usize) -> (r: u64)
    ensures
        r == batch_probe_size(k as int),
{
    if k < 4 {
        FIRST_PROBE_SIZE
    } else if k < 7 {
        2 * FIRST_PROBE_SIZE
    } else {
        4 * FIRST_PROBE_SIZE
    }
}

/// No batch asks for more bytes than this.
const MOST_BYTES: u64 = 655_360;

proof fn lemma_batch_bytes(h: Seq<BatchReport>, i: int)
    requires
        reports_valid(h),
        0 <= i < h.len(),
    ensures
        0 <= batch_bytes(h, i) <= MOST_BYTES,
{
    let success = h[i].success as int;
    let size = batch_probe_size(i) as int;
    let count = batch_count(i) as int;
    assert(0 <= success * size <= count * size) by (nonlinear_arith)
        requires
            0 <= success <= count,
            size >= 0,
    ;
}

/// The bytes that the successful requests of the batch at place `i` asked for.
fn bytes_at(reports: &Vec<BatchReport>, i: usize) -> (r: u64)
    requires
        reports_valid(reports@),
        i < reports@.len(),
    ensures
        r == batch_bytes(reports@, i as int),
        r <= MOST_BYTES,
{
    proof {
        lemma_batch_bytes(reports@, i as int);
    }
    reports[i].success as u64 * probe_size_at(i)
}

/// The speed of the batch at place `i`.
fn speed_at(reports: &Vec<BatchReport>, i: usize) -> (r: u64)
    requires
        reports_valid(reports@),
        i < reports@.len(),
        is_timed(reports@[i as int]),
    ensures
        r == batch_speed(reports@, i as int),
{
    bytes_at(reports, i) * NANOS_PER_SEC / reports[i].elapsed_ns
}

/// Whether `bytes_i` in `ns_i` nanoseconds, times `factor_i`, is a lower speed than `bytes_j` in
/// `ns_j` nanoseconds, times `factor_j`.
fn is_slower(
    bytes_i: u64,
    ns_i: u64,
    factor_i: u32,
    bytes_j: u64,
    ns_j: u64,
    factor_j: u32,
) -> (r: bool)
    requires
        bytes_i <= MOST_BYTES,
        bytes_j <= MOST_BYTES,
    ensures
        r == (bytes_i * ns_j * factor_i < factor_j * (bytes_j * ns_i)),
{
    proof {
        lemma_speed_product(bytes_i, ns_j, factor_i);
        lemma_speed_product(bytes_j, ns_i, factor_j);
        assert(factor_j * (bytes_j * ns_i) == bytes_j * ns_i * factor_j) by (nonlinear_arith);
    }
    let left: u128 = bytes_i as u128 * ns_j as u128 * factor_i as u128;
    let right: u128 = factor_j as u128 * (bytes_j as u128 * ns_i as u128);
    left < right
}

proof fn lemma_speed_product(bytes: u64, ns: u64, factor: u32)
    requires
        bytes <= MOST_BYTES,
    ensures
        0 <= bytes * ns <= u128::MAX,
        0 <= bytes * ns * factor <= u128::MAX,
{
    let p = bytes * ns;
    assert(0 <= p <= 655_360 * 0xffff_ffff_ffff_ffff) by (nonlinear_arith)
        requires
            0 <= bytes <= 655_360,
            0 <= ns <= 0xffff_ffff_ffff_ffff,
            p == bytes * ns,
    ;
    assert(0 <= p * factor <= 655_360 * 0xffff_ffff_ffff_ffff * 0xffff_ffff) by (nonlinear_arith)
        requires
            0 <= p <= 655_360 * 0xffff_ffff_ffff_ffff,
            0 <= factor <= 0xffff_ffff,
    ;
}

/// Whether the server slows down as time passes.
fn slowed_over_time(reports: &Vec<BatchReport>) -> (r: bool)
    requires
        reports_valid(reports@),
        reports@.len() == BATCHES,
    ensures
        r == slows_over_time(reports@),
{
    let (first, second, third): (BatchReport, BatchReport, BatchReport) = (
        reports[0],
        reports[4],
        reports[7],
    );
    if first.elapsed_ns == 0 || second.elapsed_ns == 0 || third.elapsed_ns == 0 {
        return false;
    }
    is_slower(
        bytes_at(reports, 4),
        second.elapsed_ns,
        100,
        bytes_at(reports, 0),
        first.elapsed_ns,
        DEGRADED_PERCENT,
    ) && is_slower(
        bytes_at(reports, 7),
        third.elapsed_ns,
        100,
        bytes_at(reports, 4),
        second.elapsed_ns,
        DEGRADED_PERCENT,
    )
}

/// The probing of one server: the batches still to send, and what the sent ones have shown.
pub struct QualityProbe {
    reports: Vec<BatchReport>,
    errors: u32,
    lost: u64,
    baseline: Option<usize>,
    last_speed: u64,
    latencies: Vec<u64>,
}

impl View for QualityProbe {
    type V = Seq<BatchReport>;

    /// The reports received so far.
    closed spec fn view(&self) -> Seq<BatchReport> {
        self.reports@
    }
}

impl QualityProbe {
    /// The reports are valid, and what is kept of them is what they add up to.
    pub open spec fn wf(&self) -> bool {
        reports_valid(self@) && self.adds_up()
    }

    /// What is kept of the reports is what they add up to.
    pub closed spec fn adds_up(&self) -> bool {
        let h = self@;
        &&& self.errors == shortfalls(h)
        &&& self.errors <= h.len()
        &&& self.lost == lost_sixteenths(h)
        &&& match self.baseline {
            Some(j) => j == baseline_place(h) && j < h.len(),
            None => baseline_place(h) == -1,
        }
        &&& self.last_speed == latest_speed(h)
        &&& self.latencies@ == timed_latencies(h)
    }

    /// A probe that has sent nothing yet.
    pub fn new() -> (r: Self)
        ensures
            r.wf(),
            reports_valid(r@),
            r@ == Seq::<BatchReport>::empty(),
    {
        QualityProbe {
            reports: Vec::new(),
            errors: 0,
            lost: 0,
            baseline: None,
            last_speed: 0,
            latencies: Vec::new(),
        }
    }

    /// The batch to send next.
    pub fn next_batch(&self) -> (r: Batch)
        requires
            self.wf(),
            self@.len() < BATCHES,
        ensures
            r.count == batch_count(self@.len() as int),
            r.probe_size == batch_probe_size(self@.len() as int),
    {
        let k: usize = self.reports.len();
        Batch { count: count_at(k), probe_size: probe_size_at(k) }
    }

    /// The speed of the baseline; zero before there is one.
    fn base_speed(&self) -> (r: u64)
        requires
            self.wf(),
        ensures
            r == baseline_speed(self@),
    {
        match self.baseline {
            Some(j) => {
                proof {
                    lemma_baseline(self@);
                }
                speed_at(&self.reports, j)
            },
            None => 0,
        }
    }

    /// Takes the report on the batch that `next_batch` named, and gives the verdict if the
    /// report settles it.
    pub fn record(&mut self, report: BatchReport) -> (r: Option<Quality>)
        requires
            old(self).wf(),
            old(self)@.len() < BATCHES,
            report.success <= batch_count(old(self)@.len() as int),
        ensures
            final(self).wf(),
            reports_valid(final(self)@),
            final(self)@ == old(self)@.push(report),
            r == verdict(final(self)@),
            r is None ==> final(self)@.len() < BATCHES,
    {
        let k: usize = self.reports.len();
        let count: usize = count_at(k);
        let base_before: u64 = self.base_speed();
        let jitter_before: u64 = calculate_jitter(self.latencies.as_slice());
        let ghost h = self@;
        let ghost g = h.push(report);
        let weight: usize = 16 / count;
        proof {
            assert(g.drop_last() =~= h);
            assert(g.last() == report);
            assert forall|i: int| 0 <= i < g.len() implies (#[trigger] g[i]).success
                <= batch_count(i) by {
                if i < h.len() {
                    assert(g[i] == h[i]);
                }
            }
            lemma_loss_bounds(g);
            lemma_weight(count as int);
            assert(0 <= (count - report.success) * weight <= 16 * 8) by (nonlinear_arith)
                requires
                    0 <= count - report.success <= 16,
                    0 <= weight <= 8,
            ;
        }
        self.reports.push(report);
        self.lost = self.lost + ((count - report.success) * weight) as u64;
        let short: bool = report.success < count;
        if short {
            self.errors = self.errors + 1;
        }
        let divisor: u64 = if report.success > 1 {
            report.success as u64
        } else {
            1
        };
        let latency: u64 = report.total_latency_ms / divisor;
        let timed: bool = report.elapsed_ns > 0;
        if timed {
            if count == 2 {
                self.baseline = Some(k);
            }
            self.last_speed = speed_at(&self.reports, k);
            self.latencies.push(latency);
        }
        assert(self.wf());
        let packet_loss: Ratio = Ratio { num: self.lost, den: 16 * (k as u64 + 1) };
        let half: usize = count / 2;
        let max_threads: usize = if half > 4 {
            half
        } else {
            4
        };
        if short && self.errors > TOLERATED_SHORTFALLS {
            return Some(
                Quality {
                    max_threads,
                    throttle: ThrottlePattern::HardLimit(report.success),
                    speed: base_before,
                    latency_ms: 100,
                    packet_loss,
                    jitter_ms: 50,
                },
            );
        }
        if timed && count > 2 {
            if let Some(j) = self.baseline {
                proof {
                    lemma_baseline(g);
                }
                if is_slower(
                    bytes_at(&self.reports, k),
                    report.elapsed_ns,
                    200,
                    bytes_at(&self.reports, j),
                    self.reports[j].elapsed_ns,
                    DEGRADED_PERCENT * count as u32,
                ) {
                    return Some(
                        Quality {
                            max_threads,
                            throttle: ThrottlePattern::BandwidthCap(self.last_speed),
                            speed: self.last_speed,
                            latency_ms: latency,
                            packet_loss,
                            jitter_ms: jitter_before,
                        },
                    );
                }
            }
        }
        if k + 1 < BATCHES {
            return None;
        }
        let jitter_ms: u64 = calculate_jitter(self.latencies.as_slice());
        let negligible: bool = packet_loss.is_below(1, 100);
        let threads: usize = if negligible && jitter_ms < 30 {
            32
        } else if packet_loss.is_below(5, 100) {
            16
        } else {
            8
        };
        Some(
            Quality {
                max_threads: threads,
                throttle: if slowed_over_time(&self.reports) {
                    ThrottlePattern::TimeBasedThrottle
                } else if negligible {
                    ThrottlePattern::Unthrottled
                } else {
                    ThrottlePattern::AdaptiveThrottle
                },
                speed: self.last_speed,
                latency_ms: average_latency(&self.latencies),
                packet_loss,
                jitter_ms,
            },
        )
    }
}

proof fn lemma_baseline(h: Seq<BatchReport>)
    ensures
        baseline_place(h) >= 0 ==> baseline_place(h) < h.len() && is_timed(
            h[baseline_place(h)],
        ) && batch_count(baseline_place(h)) == 2,
    decreases h.len(),
{
    if h.len() > 0 {
        lemma_baseline(h.drop_last());
    }
}

/// The latencies of up to a million requests, however long, never add up to more milliseconds
/// than a report can hold.
pub proof fn law_latencies_fit(latencies_ns: Seq<Option<u64>>)
    requires
        latencies_ns.len() <= NANOS_PER_MS,
    ensures
        crate::numbers::sum_of(present(latencies_ns)) / NANOS_PER_MS as nat <= u64::MAX,
{
    let answered = present(latencies_ns);
    lemma_present(latencies_ns);
    crate::numbers::lemma_sum_bound(answered);
    assert(answered.len() * u64::MAX <= NANOS_PER_MS * u64::MAX) by (nonlinear_arith)
        requires
            answered.len() <= NANOS_PER_MS,
    ;
}

proof fn lemma_present(values: Seq<Option<u64>>)
    ensures
        present(values).len() <= values.len(),
    decreases values.len(),
{
    if values.len() > 0 {
        lemma_present(values.drop_last());
    }
}

/// Probing ends: the report on the last batch always settles the verdict.
pub proof fn law_probing_ends(h: Seq<BatchReport>)
    requires
        reports_valid(h),
        h.len() == BATCHES,
    ensures
        verdict(h) is Some,
{
}

/// Every verdict recommends between 4 and 32 threads, and its packet loss is a fraction
/// between zero and one.
pub proof fn law_verdict_bounds(h: Seq<BatchReport>)
    requires
        reports_valid(h),
        h.len() > 0,
        verdict(h) is Some,
    ensures
        4 <= verdict(h)->0.max_threads <= 32,
        verdict(h)->0.packet_loss.wf(),
        verdict(h)->0.packet_loss.num <= verdict(h)->0.packet_loss.den,
{
    lemma_loss_bounds(h);
}

/// A server whose connections slow down as they multiply, to less than 55 % of the baseline's,
/// is given no more threads than the batch that showed it had, half as many where that leaves
/// at least four, and its speed is recorded as a bandwidth cap.
pub proof fn law_degradation_recalibrates(h: Seq<BatchReport>)
    requires
        reports_valid(h),
        h.len() > 0,
        scales_badly(h),
        !hits_hard_limit(h),
    ensures
        verdict(h) is Some,
        verdict(h)->0.max_threads <= batch_count(h.len() - 1),
        batch_count(h.len() - 1) >= 8 ==> verdict(h)->0.max_threads * 2 == batch_count(
            h.len() - 1,
        ),
        verdict(h)->0.throttle == ThrottlePattern::BandwidthCap(batch_speed(h, h.len() - 1)),
{
}

/// A server whose speed grows at least in proportion to the connections is never taken for
/// capped: as long as the connections of the latest batch are no slower than the baseline's,
/// no verdict speaks of a bandwidth cap.
pub proof fn law_proportional_growth_is_not_capped(h: Seq<BatchReport>)
    requires
        reports_valid(h),
        h.len() > 0,
        baseline_place(h) >= 0 ==> !connection_speed_below(
            h,
            h.len() - 1,
            baseline_place(h),
            100,
        ),
    ensures
        verdict(h) is Some ==> !(verdict(h)->0.throttle is BandwidthCap),
{
    if scales_badly(h) {
        let k = h.len() - 1;
        let j = baseline_place(h);
        lemma_baseline(h);
        lemma_batch_bytes(h, j);
        let count = batch_count(k) as int;
        let other = batch_bytes(h, j) * h[k].elapsed_ns;
        assert(other >= 0) by (nonlinear_arith)
            requires
                batch_bytes(h, j) >= 0,
                h[k].elapsed_ns >= 0,
                other == batch_bytes(h, j) * h[k].elapsed_ns,
        ;
        assert((55 * count) * other <= (100 * count) * other) by (nonlinear_arith)
            requires
                other >= 0,
                count >= 0,
        ;
    }
}

/// A server that answers but gets slower from round to round, to less than 55 % each time, is
/// recognised as throttling by time, and only such a server is; the strategy for it is stealth.
pub proof fn law_time_based_throttling_is_detected(h: Seq<BatchReport>)
    requires
        reports_valid(h),
        h.len() > 0,
        !hits_hard_limit(h),
        !scales_badly(h),
    ensures
        slows_over_time(h) ==> verdict(h) is Some && verdict(h)->0.throttle
            == ThrottlePattern::TimeBasedThrottle && crate::jito::strategy_for(
            verdict(h)->0.throttle,
            verdict(h)->0.packet_loss,
        ) == crate::jito::DownloadStrategy::Stealth,
        verdict(h) is Some && verdict(h)->0.throttle == ThrottlePattern::TimeBasedThrottle
            ==> slows_over_time(h),
{
}

/// Up to two batches may fall short; a third one ends the probing with the number of
/// connections that the server still answered as its limit.
pub proof fn law_third_shortfall_is_a_limit(h: Seq<BatchReport>)
    requires
        reports_valid(h),
        h.len() > 0,
        h.last().success < batch_count(h.len() - 1),
    ensures
        shortfalls(h) == 3 ==> verdict(h) is Some && verdict(h)->0.throttle
            == ThrottlePattern::HardLimit(h.last().success),
        shortfalls(h) <= 2 ==> (verdict(h) is Some ==> !(verdict(h)->0.throttle is HardLimit)),
{
}

proof fn lemma_no_loss(h: Seq<BatchReport>)
    requires
        forall|i: int| 0 <= i < h.len() ==> (#[trigger] h[i]).success == batch_count(i),
    ensures
        shortfalls(h) == 0,
        lost_sixteenths(h) == 0,
    decreases h.len(),
{
    if h.len() > 0 {
        let prev = h.drop_last();
        assert forall|i: int| 0 <= i < prev.len() implies (#[trigger] prev[i]).success
            == batch_count(i) by {
            assert(prev[i] == h[i]);
        }
        lemma_no_loss(prev);
        assert(h.last() == h[h.len() - 1]);
    }
}

/// A server that answers every request, keeps its speed per connection and over time, and is
/// steady to within 30 ms is given all 32 threads and counts as not throttled.
pub proof fn law_clean_server_gets_all_threads(h: Seq<BatchReport>)
    requires
        h.len() == BATCHES,
        forall|i: int| 0 <= i < h.len() ==> (#[trigger] h[i]).success == batch_count(i),
        !scales_badly(h),
        !slows_over_time(h),
        crate::jito::jitter_of(timed_latencies(h)) < 30,
    ensures
        verdict(h) is Some,
        verdict(h)->0.max_threads == 32,
        verdict(h)->0.throttle == ThrottlePattern::Unthrottled,
        verdict(h)->0.packet_loss.num == 0,
{
    lemma_no_loss(h);
}

/// Batches are sent in three rounds, of 2, 4, 8 and 16 requests and twice of 2, 4 and 8, and each
/// request asks for 20480 bytes in the first round and for twice as many in each that follows.
pub proof fn law_rounds(probe: &QualityProbe, r: Batch)
    requires
        probe.wf(),
        probe@.len() < BATCHES,
        call_ensures(QualityProbe::next_batch, (probe,), r),
    ensures
        probe@.len() < 10,
        r.count == seq![2nat, 4, 8, 16, 2, 4, 8, 2, 4, 8][probe@.len() as int],
        probe@.len() < 4 ==> r.probe_size == 20_480,
        4 <= probe@.len() < 7 ==> r.probe_size == 40_960,
        probe@.len() >= 7 ==> r.probe_size == 81_920,
{
    law_batches(probe@.len() as int);
}

/// The widths and sizes of the batches by their place.
pub proof fn law_batches(k: int)
    requires
        0 <= k < BATCHES,
    ensures
        k < 10,
        batch_count(k) == seq![2nat, 4, 8, 16, 2, 4, 8, 2, 4, 8][k],
        k < 4 ==> batch_probe_size(k) == 20_480,
        4 <= k < 7 ==> batch_probe_size(k) == 40_960,
        k >= 7 ==> batch_probe_size(k) == 81_920,
{
}

/// A report counts the requests that were answered and adds up their latencies, before it rounds
/// them down to milliseconds: an answer more is one success more, a request without one changes
/// nothing.
pub proof fn law_reports_count_answers(
    before: &Vec<Option<u64>>,
    after: &Vec<Option<u64>>,
    more: Option<u64>,
    elapsed_ns: u64,
    x: BatchReport,
    y: BatchReport,
)
    requires
        after@ == before@.push(more),
        crate::numbers::sum_of(present(before@)) / NANOS_PER_MS as nat <= u64::MAX,
        crate::numbers::sum_of(present(after@)) / NANOS_PER_MS as nat <= u64::MAX,
        call_ensures(batch_report, (before, elapsed_ns), x),
        call_ensures(batch_report, (after, elapsed_ns), y),
    ensures
        before@.len() == 0 ==> x.success == 0 && x.total_latency_ms == 0,
        x.elapsed_ns == elapsed_ns,
        more is None ==> y == x,
        more is Some ==> y.success == x.success + 1,
        crate::numbers::sum_of(present(after@)) == crate::numbers::sum_of(present(before@)) + (
        match more {
            Some(latency) => latency as int,
            None => 0,
        }),
        x.total_latency_ms * 1_000_000 <= crate::numbers::sum_of(present(before@)) < (
        x.total_latency_ms + 1) * 1_000_000,
{
    assert(after@.drop_last() =~= before@);
    if more is Some {
        crate::numbers::law_sum_grows_by_each_number(present(before@), more->0);
    }
}

/// A batch counts as short exactly if it had fewer successes than requests.
pub proof fn law_short_batches_are_counted(h: Seq<BatchReport>, b: BatchReport)
    requires
        h.len() < BATCHES,
    ensures
        shortfalls(Seq::<BatchReport>::empty()) == 0,
        b.success < seq![2nat, 4, 8, 16, 2, 4, 8, 2, 4, 8][h.len() as int] ==> shortfalls(
            h.push(b),
        ) == shortfalls(h) + 1,
        b.success >= seq![2nat, 4, 8, 16, 2, 4, 8, 2, 4, 8][h.len() as int] ==> shortfalls(
            h.push(b),
        ) == shortfalls(h),
{
    law_batches(h.len() as int);
    assert(h.push(b).drop_last() =~= h);
}

/// The packet loss is the mean over the batches of the share of requests that failed: times the
/// number of batches, each batch adds its share to it.
pub proof fn law_loss_is_the_mean_share(h: Seq<BatchReport>, b: BatchReport)
    requires
        reports_valid(h.push(b)),
    ensures
        mean_loss(Seq::<BatchReport>::empty()).num == 0,
        mean_loss(h).den == 16 * h.len(),
        mean_loss(h.push(b)).den == 16 * (h.len() + 1),
        (mean_loss(h.push(b)).num - mean_loss(h).num) * seq![2int, 4, 8, 16, 2, 4, 8, 2, 4, 8][
            h.len() as int
        ] == 16 * (seq![2int, 4, 8, 16, 2, 4, 8, 2, 4, 8][h.len() as int] - b.success),
{
    let g = h.push(b);
    assert(g.drop_last() =~= h);
    assert forall|i: int| 0 <= i < h.len() implies (#[trigger] h[i]).success <= batch_count(i) by {
        assert(g[i] == h[i]);
    }
    lemma_loss_bounds(h);
    lemma_loss_bounds(g);
    law_batches(h.len() as int);
    let count = batch_count(h.len() as int) as int;
    lemma_weight(count);
    let weight = 16int / count;
    let missing = count - b.success;
    assert(count * weight == 16) by (nonlinear_arith)
        requires
            count == 2 && weight == 8 || count == 4 && weight == 4 || count == 8 && weight == 2
                || count == 16 && weight == 1,
    ;
    assert((missing * weight) * count == 16 * missing) by (nonlinear_arith)
        requires
            count * weight == 16,
    ;
}

/// Each batch that took time adds its mean latency, rounded down, to the history that the jitter
/// is taken of; one without a success counts its sum. A batch without time adds nothing.
pub proof fn law_latencies_are_means(h: Seq<BatchReport>, b: BatchReport)
    ensures
        timed_latencies(Seq::<BatchReport>::empty()).len() == 0,
        b.elapsed_ns == 0 ==> timed_latencies(h.push(b)) == timed_latencies(h),
        b.elapsed_ns > 0 ==> ({
            let mean = timed_latencies(h.push(b)).last();
            let n = if b.success > 1 {
                b.success as int
            } else {
                1
            };
            &&& timed_latencies(h.push(b)) == timed_latencies(h).push(mean)
            &&& mean * n <= b.total_latency_ms < (mean + 1) * n
        }),
{
    assert(h.push(b).drop_last() =~= h);
    if b.elapsed_ns > 0 {
        let n = if b.success > 1 {
            b.success as int
        } else {
            1
        };
        let total = b.total_latency_ms as int;
        vstd::arithmetic::div_mod::lemma_fundamental_div_mod(total, n);
        vstd::arithmetic::div_mod::lemma_div_is_ordered_by_denominator(total, 1, n);
        vstd::arithmetic::div_mod::lemma_div_pos_is_pos(total, n);
        let q = total / n;
        assert(n * q == q * n) by (nonlinear_arith);
        assert((q + 1) * n == q * n + n) by (nonlinear_arith);
    }
}

/// The speed of a batch times its time is what its successful requests asked for, up to rounding
/// down to whole bytes per second.
pub proof fn law_speed_is_bytes_over_time(h: Seq<BatchReport>, i: int)
    requires
        reports_valid(h),
        0 <= i < h.len(),
        h[i].elapsed_ns > 0,
    ensures
        ({
            let size = if i < 4 {
                20_480int
            } else if i < 7 {
                40_960
            } else {
                81_920
            };
            let bytes = h[i].success * size;
            batch_speed(h, i) * h[i].elapsed_ns <= bytes * 1_000_000_000 < (batch_speed(h, i) + 1)
                * h[i].elapsed_ns
        }),
{
    lemma_batch_bytes(h, i);
    law_batches(i);
    let work = batch_bytes(h, i) * NANOS_PER_SEC;
    let ns = h[i].elapsed_ns as int;
    vstd::arithmetic::div_mod::lemma_fundamental_div_mod(work, ns);
    vstd::arithmetic::div_mod::lemma_div_is_ordered_by_denominator(work, 1, ns);
    vstd::arithmetic::div_mod::lemma_div_pos_is_pos(work, ns);
    let q = work / ns;
    assert(ns * q == q * ns) by (nonlinear_arith);
    assert((q + 1) * ns == q * ns + ns) by (nonlinear_arith);
}

/// The baseline is the latest batch of two requests that took time: no later one is such a batch.
pub proof fn law_baseline_is_the_latest(h: Seq<BatchReport>, i: int)
    requires
        h.len() <= BATCHES,
        baseline_place(h) < i < h.len(),
    ensures
        -1 <= baseline_place(h),
        baseline_place(h) >= 0 ==> h[baseline_place(h)].elapsed_ns > 0 && (baseline_place(h) == 0
            || baseline_place(h) == 4 || baseline_place(h) == 7),
        !(h[i].elapsed_ns > 0 && (i == 0 || i == 4 || i == 7)),
    decreases h.len(),
{
    lemma_baseline(h);
    if i < h.len() - 1 {
        law_baseline_is_the_latest(h.drop_last(), i);
        assert(h.drop_last()[i] == h[i]);
    } else {
        lemma_baseline_from(h);
    }
}

proof fn lemma_baseline_from(h: Seq<BatchReport>)
    ensures
        -1 <= baseline_place(h) < h.len(),
    decreases h.len(),
{
    if h.len() > 0 {
        lemma_baseline_from(h.drop_last());
    }
}

/// The baseline's speed is that of the batch it stands for, the latest speed that of the latest
/// batch that took time; without such a batch they are zero.
pub proof fn law_speeds_that_are_kept(h: Seq<BatchReport>, b: BatchReport)
    requires
        h.len() < BATCHES,
    ensures
        latest_speed(Seq::<BatchReport>::empty()) == 0,
        baseline_speed(Seq::<BatchReport>::empty()) == 0,
        b.elapsed_ns > 0 ==> latest_speed(h.push(b)) == batch_speed(h.push(b), h.len() as int),
        b.elapsed_ns == 0 ==> latest_speed(h.push(b)) == latest_speed(h),
        b.elapsed_ns > 0 && (h.len() == 0 || h.len() == 4 || h.len() == 7) ==> baseline_place(
            h.push(b),
        ) == h.len() && baseline_speed(h.push(b)) == batch_speed(h.push(b), h.len() as int),
        b.elapsed_ns == 0 || !(h.len() == 0 || h.len() == 4 || h.len() == 7) ==> baseline_place(
            h.push(b),
        ) == baseline_place(h) && baseline_speed(h.push(b)) == baseline_speed(h),
{
    let g = h.push(b);
    assert(g.drop_last() =~= h);
    lemma_baseline_from(h);
    if baseline_place(h) >= 0 {
        assert(g[baseline_place(h)] == h[baseline_place(h)]);
    }
}

/// Whether the latest batch shows a hard limit: it is short, and the third that is, or a later
/// one.
pub open spec fn shows_hard_limit(h: Seq<BatchReport>) -> bool {
    let width = seq![2int, 4, 8, 16, 2, 4, 8, 2, 4, 8][h.len() - 1];
    h[h.len() - 1].success < width && shortfalls(h) >= 3
}

/// Whether the latest batch shows a cap: it is wider than two, and one of its connections moved
/// less in the same time than 55 hundredths of what one of the baseline's two moved.
pub open spec fn shows_cap(h: Seq<BatchReport>) -> bool {
    let k = h.len() - 1;
    let j = baseline_place(h);
    let width = seq![2int, 4, 8, 16, 2, 4, 8, 2, 4, 8][k];
    let (first, later) = (h[j], h[k]);
    let (a, b) = (
        first.success * (if j < 4 {
            20_480int
        } else if j < 7 {
            40_960
        } else {
            81_920
        }),
        later.success * (if k < 4 {
            20_480int
        } else if k < 7 {
            40_960
        } else {
            81_920
        }),
    );
    &&& j >= 0
    &&& width > 2
    &&& later.elapsed_ns > 0
    &&& b * first.elapsed_ns * 200 < (55 * width) * (a * later.elapsed_ns)
}

/// A verdict falls exactly when the latest batch shows a hard limit or a cap, or was the tenth.
pub proof fn law_when_a_verdict_falls(h: Seq<BatchReport>)
    requires
        reports_valid(h),
        h.len() > 0,
    ensures
        verdict(h) is Some <==> shows_hard_limit(h) || shows_cap(h) || h.len() == 10,
        verdict(h) is Some && shows_hard_limit(h) ==> verdict(h)->0.throttle is HardLimit,
        verdict(h) is Some && !shows_hard_limit(h) && shows_cap(h) ==> verdict(h)->0.throttle
            is BandwidthCap,
        verdict(h) is Some && !shows_hard_limit(h) && !shows_cap(h) ==> !(verdict(h)->0.throttle
            is HardLimit) && !(verdict(h)->0.throttle is BandwidthCap),
        verdict(h) matches Some(q) ==> q.packet_loss == mean_loss(h),
{
    law_batches(h.len() - 1);
    lemma_baseline(h);
    if baseline_place(h) >= 0 {
        law_batches(baseline_place(h));
    }
}

/// What a hard limit leads to: half the batch's threads, but four at least, the successes as the
/// limit, the baseline's speed before, and fixed guesses at latency and jitter.
pub proof fn law_hard_limit_verdict(h: Seq<BatchReport>)
    requires
        reports_valid(h),
        h.len() > 0,
        shows_hard_limit(h),
    ensures
        verdict(h) is Some,
        ({
            let q = verdict(h)->0;
            &&& q.max_threads == (if h.len() == 4 {
                8int
            } else {
                4
            })
            &&& q.throttle == ThrottlePattern::HardLimit(h[h.len() - 1].success)
            &&& q.speed == baseline_speed(h.drop_last())
            &&& q.latency_ms == 100
            &&& q.jitter_ms == 50
        }),
{
    law_batches(h.len() - 1);
}

/// What a cap leads to: half the batch's threads, but four at least, the batch's speed as the cap,
/// its mean latency, and the jitter of the batches before it.
pub proof fn law_cap_verdict(h: Seq<BatchReport>)
    requires
        reports_valid(h),
        h.len() > 0,
        !shows_hard_limit(h),
        shows_cap(h),
    ensures
        verdict(h) is Some,
        ({
            let q = verdict(h)->0;
            &&& q.max_threads == (if h.len() == 4 {
                8int
            } else {
                4
            })
            &&& q.throttle == ThrottlePattern::BandwidthCap(q.speed)
            &&& q.speed == batch_speed(h, h.len() - 1)
            &&& q.latency_ms == timed_latencies(h).last()
            &&& timed_latencies(h).len() > 0
            &&& q.jitter_ms == crate::jito::jitter_of(timed_latencies(h).drop_last()) as u64
        }),
{
    law_when_a_verdict_falls(h);
    law_batches(h.len() - 1);
    law_latencies_are_means(h.drop_last(), h.last());
    assert(h.drop_last().push(h.last()) =~= h);
    assert(timed_latencies(h).drop_last() =~= timed_latencies(h.drop_last()));
}

/// What all ten batches without a limit lead to. Threads: 32 where less than one part in a
/// hundred is lost and the jitter is under 30 ms, else 16 where less than five parts are lost,
/// else 8. Throttling by time where the narrow batches slow down from round to round, to less
/// than 55 hundredths each time; else none exactly where less than one part in a hundred is lost.
/// The speed is the latest, the latency the mean of all, 50 if none is known.
pub proof fn law_full_verdict(h: Seq<BatchReport>)
    requires
        reports_valid(h),
        h.len() == 10,
        !shows_hard_limit(h),
        !shows_cap(h),
    ensures
        verdict(h) is Some,
        ({
            let q = verdict(h)->0;
            let lost = q.packet_loss.num * 100;
            let l = timed_latencies(h);
            let (a, b, c) = (h[0], h[4], h[7]);
            let slows = a.elapsed_ns > 0 && b.elapsed_ns > 0 && c.elapsed_ns > 0 && (b.success
                * 40_960) * a.elapsed_ns * 100 < 55 * ((a.success * 20_480) * b.elapsed_ns) && (
            c.success * 81_920) * b.elapsed_ns * 100 < 55 * ((b.success * 40_960) * c.elapsed_ns);
            &&& q.max_threads == 32 <==> lost < q.packet_loss.den && q.jitter_ms < 30
            &&& q.max_threads == 16 <==> !(lost < q.packet_loss.den && q.jitter_ms < 30) && lost
                < 5 * q.packet_loss.den
            &&& q.max_threads == 8 <==> lost >= 5 * q.packet_loss.den
            &&& q.throttle is TimeBasedThrottle <==> slows
            &&& q.throttle is Unthrottled <==> !slows && lost < q.packet_loss.den
            &&& q.throttle is AdaptiveThrottle <==> !slows && lost >= q.packet_loss.den
            &&& q.speed == latest_speed(h)
            &&& q.jitter_ms == crate::jito::jitter_of(l)
            &&& l.len() == 0 ==> q.latency_ms == 50
            &&& l.len() > 0 ==> q.latency_ms * l.len() <= crate::numbers::sum_of(l) < (q.latency_ms
                + 1) * l.len()
        }),
{
    law_when_a_verdict_falls(h);
    lemma_loss_bounds(h);
    let l = timed_latencies(h);
    lemma_jitter_fits(l);
    if l.len() > 0 {
        let n = l.len() as int;
        let sum = crate::numbers::sum_of(l) as int;
        crate::numbers::lemma_sum_bound(l);
        vstd::arithmetic::div_mod::lemma_div_is_ordered(sum, n * u64::MAX, n);
        vstd::arithmetic::div_mod::lemma_div_multiples_vanish(u64::MAX as int, n);
        vstd::arithmetic::div_mod::lemma_fundamental_div_mod(sum, n);
        vstd::arithmetic::div_mod::lemma_div_pos_is_pos(sum, n);
        let q = sum / n;
        assert(n * q == q * n) by (nonlinear_arith);
        assert((q + 1) * n == q * n + n) by (nonlinear_arith);
    }
}

proof fn lemma_jitter_fits(l: Seq<u64>)
    ensures
        crate::jito::jitter_of(l) <= u64::MAX,
{
    crate::jito::law_jitter_is_within_spread(l, 0, u64::MAX as int);
}

/// A probe remembers every report in order, and gives the verdict that the reports call for.
pub proof fn law_reports_are_remembered(
    fresh: QualityProbe,
    probe: &mut QualityProbe,
    report: BatchReport,
    r: Option<Quality>,
)
    requires
        call_ensures(QualityProbe::new, (), fresh),
        old(probe).wf(),
        old(probe)@.len() < BATCHES,
        report.success <= batch_count(old(probe)@.len() as int),
        call_ensures(QualityProbe::record, (probe, report), r),
    ensures
        fresh@.len() == 0,
        final(probe)@.len() == old(probe)@.len() + 1,
        final(probe)@.last() == report,
        forall|i: int| 0 <= i < old(probe)@.len() ==> #[trigger] final(probe)@[i] == old(probe)@[i],
        r == verdict(final(probe)@),
{
}

} // verus!
