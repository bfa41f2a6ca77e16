//! The just-in-time optimizer: what is known of a server, and the transfer settings that
//! follow from it.
use vstd::prelude::*;
use vstd::string::*;

use crate::ratio::Ratio;
use crate::text::{chars_of, string_of};

verus! {

pub const CHUNK_TINY: u64 = 524_288;

pub const CHUNK_SMALL: u64 = 1_048_576;

pub const CHUNK_MEDIUM: u64 = 4_194_304;

pub const CHUNK_LARGE: u64 = 16_777_216;

pub const CHUNK_MEGA: u64 = 33_554_432;

pub const CONNECTION_POOL_SIZE: usize = 32;

/// How many idle connections are kept for a server that gains nothing from a full pool.
pub const SMALL_POOL_SIZE: usize = 8;

/// More writers than this do not help, whatever the number of threads.
pub const MAX_WRITERS: usize = 16;

/// For how many seconds a cached server profile is used: twelve hours.
pub const PROFILE_LIFETIME_SECS: u64 = 43_200;

/// Bytes per second above which a server counts as fast.
pub const FAST_SERVER: u64 = 100_000_000;

#[derive(Debug, Clone, Copy, PartialEq, Eq, Structural)]
pub enum ServerCapability {
    RangeSupport,
    MultiRange,
    Http2,
    Http3,
    KeepAlive,
    Gzip,
    Brotli,
    EarlyHints,
    ServerTiming,
}

#[derive(Debug, Clone, Copy, PartialEq, Eq, Structural)]
pub enum ThrottlePattern {
    /// No throttling was seen.
    Unthrottled,
    HardLimit(usize),
    BandwidthCap(u64),
    HighJitter,
    Unstable,
    TimeBasedThrottle,
    AdaptiveThrottle,
}

#[derive(Debug, Clone, Copy, PartialEq, Eq, Structural)]
pub enum DownloadStrategy {
    Aggressive,
    Stealth,
    Single,
    Adaptive,
    HybridStealth,
    ConnectionPooled,
    BBROptimized,
}

/// What is remembered of a server between runs.
#[derive(Debug, Clone)]
pub struct ServerProfile {
    pub domain: String,
    pub capabilities: Vec<ServerCapability>,
    pub throttle: ThrottlePattern,
    pub optimal_threads: usize,
    pub optimal_chunk: u64,
    pub avg_speed: u64,
    /// Seconds since the Unix epoch at which the profile was made.
    pub timestamp: u64,
    pub latency_avg: u64,
    pub packet_loss_rate: Ratio,
    pub connection_pool_benefit: Ratio,
}

/// What probing a server has shown.
#[derive(Debug, Clone)]
pub struct ProbeResult {
    pub caps: Vec<ServerCapability>,
    pub throttle: ThrottlePattern,
    pub chunk_size: u64,
    pub speed_est: u64,
    pub latency_ms: u64,
    pub packet_loss: Ratio,
    pub jitter_ms: u64,
    pub supports_pipelining: bool,
    pub optimal_concurrent_streams: usize,
}

/// The settings of a transfer.
#[derive(Debug, Clone)]
pub struct OptimizationConfig {
    pub strategy: DownloadStrategy,
    pub thread_count: usize,
    pub chunk_size: u64,
    pub concurrent_writes: usize,
    pub connection_pool_size: usize,
    pub adaptive_chunk_sizing: bool,
    pub enable_pipelining: bool,
    pub burst_mode: bool,
    pub prefetch_multiplier: Ratio,
}

/// Whether `cap` is among `caps`.
pub fn has_capability(caps: &Vec<ServerCapability>, cap: ServerCapability) -> (r: bool)
    ensures
        r == caps@.contains(cap),
{
    let mut i: usize = 0;
    while i < caps.len()
        invariant
            i <= caps@.len(),
            forall|j: int| 0 <= j < i ==> caps@[j] != cap,
        decreases caps@.len() - i,
    {
        if caps[i] == cap {
            return true;
        }
        i = i + 1;
    }
    false
}

/// Whether less than one part in a hundred is lost.
pub open spec fn loss_is_negligible(loss: Ratio) -> bool {
    loss.lt(1, 100)
}

/// Whether less than one part in twenty is lost.
pub open spec fn loss_is_moderate(loss: Ratio) -> bool {
    loss.lt(5, 100)
}

/// The sum of the distances between neighbouring latencies.
pub open spec fn total_variation(latencies: Seq<u64>) -> nat
    decreases latencies.len(),
{
    if latencies.len() < 2 {
        0
    } else {
        let last = latencies[latencies.len() - 1] as int;
        let before = latencies[latencies.len() - 2] as int;
        total_variation(latencies.drop_last()) + vstd::math::abs(last - before)
    }
}

/// The mean distance between neighbouring latencies, rounded down; zero for fewer than two.
pub open spec fn jitter_of(latencies: Seq<u64>) -> nat {
    if latencies.len() < 2 {
        0
    } else {
        total_variation(latencies) / (latencies.len() - 1) as nat
    }
}

/// The mean distance between neighbouring latencies, rounded down; zero for fewer than two.
pub fn calculate_jitter(latencies: &[u64]) -> (r: u64)
    ensures
        r == jitter_of(latencies@),
{
    let n: usize = latencies.len();
    if n < 2 {
        return 0;
    }
    let mut sum: u128 = 0;
    let mut i: usize = 1;
    proof {
        assert(latencies@.take(1).len() == 1);
    }
    while i < n
        invariant
            n == latencies@.len(),
            1 <= i <= n,
            sum == total_variation(latencies@.take(i as int)),
            sum <= (i - 1) * u64::MAX,
        decreases n - i,
    {
        let a: u64 = latencies[i];
        let b: u64 = latencies[i - 1];
        let diff: u64 = if a >= b {
            a - b
        } else {
            b - a
        };
        proof {
            assert(latencies@.take(i + 1).drop_last() =~= latencies@.take(i as int));
            assert((i - 1) * u64::MAX + diff <= i * u64::MAX) by (nonlinear_arith)
                requires
                    diff <= u64::MAX,
            ;
            assert(i * u64::MAX <= u64::MAX * u64::MAX) by (nonlinear_arith)
                requires
                    0 <= i <= u64::MAX,
            ;
        }
        sum = sum + diff as u128;
        i = i + 1;
    }
    proof {
        assert(latencies@.take(n as int) =~= latencies@);
        let k = (n - 1) as int;
        vstd::arithmetic::div_mod::lemma_div_is_ordered(sum as int, k * u64::MAX, k);
        vstd::arithmetic::div_mod::lemma_div_multiples_vanish(u64::MAX as int, k);
    }
    (sum / (n - 1) as u128) as u64
}

/// The range size that a latency suggests.
pub open spec fn base_chunk(latency: int) -> u64 {
    if latency < 20 {
        CHUNK_MEGA
    } else if latency < 50 {
        CHUNK_LARGE
    } else if latency < 100 {
        CHUNK_MEDIUM
    } else if latency < 200 {
        CHUNK_SMALL
    } else {
        CHUNK_TINY
    }
}

/// `n` times the factor for a packet loss, rounded down: one and a half where the loss is
/// negligible, one where it is moderate, three fifths otherwise.
pub open spec fn scaled_for_loss(n: int, loss: Ratio) -> int {
    if loss_is_negligible(loss) {
        3 * n / 2
    } else if loss_is_moderate(loss) {
        n
    } else {
        3 * n / 5
    }
}

/// The range size for a server: one thread's share of the speed, times a hundredth of the
/// latency plus 50, adjusted for loss, and kept between a quarter and twice of what the latency
/// suggests; 1 MiB if the speed is not known.
pub open spec fn chunk_size_for(speed: int, threads: int, latency: int, loss: Ratio) -> int {
    if speed == 0 {
        CHUNK_SMALL as int
    } else {
        let share = speed / crate::numbers::greatest(1, threads);
        let base = base_chunk(latency) as int;
        crate::numbers::clamped(
            scaled_for_loss(share * (latency + 50) / 100, loss),
            base / 4,
            base * 2,
        )
    }
}

/// The range size for a server.
pub fn calculate_chunk_size_advanced(
    speed: u64,
    threads: usize,
    latency: u64,
    packet_loss: Ratio,
) -> (r: u64)
    ensures
        r == chunk_size_for(speed as int, threads as int, latency as int, packet_loss),
{
    if speed == 0 {
        return CHUNK_SMALL;
    }
    let base: u64 = if latency < 20 {
        CHUNK_MEGA
    } else if latency < 50 {
        CHUNK_LARGE
    } else if latency < 100 {
        CHUNK_MEDIUM
    } else if latency < 200 {
        CHUNK_SMALL
    } else {
        CHUNK_TINY
    };
    let divisor: u64 = if threads > 1 {
        threads as u64
    } else {
        1
    };
    let share: u64 = speed / divisor;
    let low: u64 = base / 4;
    let high: u64 = base * 2;
    let adjusted: u128 = match (share as u128).checked_mul(latency as u128 + 50) {
        Some(product) => product / 100,
        None => {
            return high;
        },
    };
    let scaled: u128 = if packet_loss.is_below(1, 100) {
        3 * adjusted / 2
    } else if packet_loss.is_below(5, 100) {
        adjusted
    } else {
        3 * adjusted / 5
    };
    if scaled < low as u128 {
        low
    } else if scaled > high as u128 {
        high
    } else {
        scaled as u64
    }
}

/// How far to read ahead, in hundredths: twice, more for a latency of 30 ms and up, one and a
/// half times as much for a fast server, and at most five times.
pub open spec fn prefetch_hundredths(latency: int, speed: int) -> int {
    let latency_factor = if latency < 30 {
        100
    } else {
        100 + latency
    };
    let twice_speed_factor = if speed > FAST_SERVER {
        3int
    } else {
        2int
    };
    crate::numbers::least(latency_factor * twice_speed_factor, 500)
}

/// How far to read ahead.
pub fn calculate_prefetch_ratio(latency: u64, speed: u64) -> (r: Ratio)
    ensures
        r.num == prefetch_hundredths(latency as int, speed as int),
        r.den == 100,
{
    let latency_factor: u128 = if latency < 30 {
        100
    } else {
        100 + latency as u128
    };
    let product: u128 = if speed > FAST_SERVER {
        latency_factor * 3
    } else {
        latency_factor * 2
    };
    let num: u64 = if product <= 500 {
        product as u64
    } else {
        500
    };
    Ratio { num, den: 100 }
}

/// The fraction that `calculate_prefetch_ratio` gives.
pub open spec fn prefetch_ratio(latency: u64, speed: u64) -> Ratio {
    Ratio { num: prefetch_hundredths(latency as int, speed as int) as u64, den: 100 }
}

/// The strategy that a probe suggests for a server that serves ranges.
pub open spec fn strategy_for(throttle: ThrottlePattern, loss: Ratio) -> DownloadStrategy {
    match throttle {
        ThrottlePattern::Unthrottled => if loss_is_negligible(loss) {
            DownloadStrategy::BBROptimized
        } else {
            DownloadStrategy::Aggressive
        },
        ThrottlePattern::HardLimit(_) => DownloadStrategy::HybridStealth,
        ThrottlePattern::TimeBasedThrottle => DownloadStrategy::Stealth,
        _ => DownloadStrategy::Adaptive,
    }
}

/// The settings for a server that does not serve ranges: everything over one connection.
pub open spec fn single_connection_config() -> OptimizationConfig {
    OptimizationConfig {
        strategy: DownloadStrategy::Single,
        thread_count: 1,
        chunk_size: CHUNK_LARGE,
        concurrent_writes: 1,
        connection_pool_size: 0,
        adaptive_chunk_sizing: false,
        enable_pipelining: false,
        burst_mode: false,
        prefetch_multiplier: Ratio { num: 1, den: 1 },
    }
}

/// Whether a full connection pool pays off: pipelining, kept-alive connections and a latency
/// under 100 ms.
pub open spec fn pool_pays_off(probe: ProbeResult) -> bool {
    probe.supports_pipelining && probe.caps@.contains(ServerCapability::KeepAlive)
        && probe.latency_ms < 100
}

/// Whether conditions are good enough for burst mode: no throttling, negligible loss and a
/// jitter under 30 ms.
pub open spec fn conditions_are_optimal(probe: ProbeResult) -> bool {
    probe.throttle == ThrottlePattern::Unthrottled && loss_is_negligible(probe.packet_loss)
        && probe.jitter_ms < 30
}

/// The settings that follow from a probe when `threads` threads are asked for.
pub open spec fn selected_config(probe: ProbeResult, threads: usize) -> OptimizationConfig {
    if !probe.caps@.contains(ServerCapability::RangeSupport) {
        single_connection_config()
    } else {
        let optimal = crate::numbers::least(
            probe.optimal_concurrent_streams as int,
            threads as int,
        ) as usize;
        OptimizationConfig {
            strategy: strategy_for(probe.throttle, probe.packet_loss),
            thread_count: optimal,
            chunk_size: probe.chunk_size,
            concurrent_writes: crate::numbers::least(optimal as int, MAX_WRITERS as int) as usize,
            connection_pool_size: if pool_pays_off(probe) {
                CONNECTION_POOL_SIZE
            } else {
                SMALL_POOL_SIZE
            },
            adaptive_chunk_sizing: true,
            enable_pipelining: probe.supports_pipelining,
            burst_mode: conditions_are_optimal(probe),
            prefetch_multiplier: prefetch_ratio(probe.latency_ms, probe.speed_est),
        }
    }
}

/// Chooses the settings of a transfer from what probing has shown.
pub fn select_strategy(probe: &ProbeResult, threads: usize) -> (r: OptimizationConfig)
    ensures
        r == selected_config(*probe, threads),
{
    if !has_capability(&probe.caps, ServerCapability::RangeSupport) {
        return OptimizationConfig {
            strategy: DownloadStrategy::Single,
            thread_count: 1,
            chunk_size: CHUNK_LARGE,
            concurrent_writes: 1,
            connection_pool_size: 0,
            adaptive_chunk_sizing: false,
            enable_pipelining: false,
            burst_mode: false,
            prefetch_multiplier: Ratio { num: 1, den: 1 },
        };
    }
    let optimal: usize = if probe.optimal_concurrent_streams <= threads {
        probe.optimal_concurrent_streams
    } else {
        threads
    };
    let negligible: bool = probe.packet_loss.is_below(1, 100);
    let strategy: DownloadStrategy = match probe.throttle {
        ThrottlePattern::Unthrottled => if negligible {
            DownloadStrategy::BBROptimized
        } else {
            DownloadStrategy::Aggressive
        },
        ThrottlePattern::HardLimit(_) => DownloadStrategy::HybridStealth,
        ThrottlePattern::TimeBasedThrottle => DownloadStrategy::Stealth,
        _ => DownloadStrategy::Adaptive,
    };
    let use_pool: bool = probe.supports_pipelining && has_capability(
        &probe.caps,
        ServerCapability::KeepAlive,
    ) && probe.latency_ms < 100;
    let burst_mode: bool = probe.throttle == ThrottlePattern::Unthrottled && negligible
        && probe.jitter_ms < 30;
    OptimizationConfig {
        strategy,
        thread_count: optimal,
        chunk_size: probe.chunk_size,
        concurrent_writes: if optimal <= MAX_WRITERS {
            optimal
        } else {
            MAX_WRITERS
        },
        connection_pool_size: if use_pool {
            CONNECTION_POOL_SIZE
        } else {
            SMALL_POOL_SIZE
        },
        adaptive_chunk_sizing: true,
        enable_pipelining: probe.supports_pipelining,
        burst_mode,
        prefetch_multiplier: calculate_prefetch_ratio(probe.latency_ms, probe.speed_est),
    }
}

impl ServerProfile {
    /// Whether the profile says that a connection pool speeds the server up by more than a
    /// fifth.
    pub open spec fn pool_helps(&self) -> bool {
        self.connection_pool_benefit.gt(12, 10)
    }

    /// The settings that follow from the profile.
    pub open spec fn optimized(&self) -> OptimizationConfig {
        OptimizationConfig {
            strategy: if self.pool_helps() {
                DownloadStrategy::ConnectionPooled
            } else {
                match self.throttle {
                    ThrottlePattern::Unthrottled => DownloadStrategy::BBROptimized,
                    ThrottlePattern::HardLimit(_) => DownloadStrategy::HybridStealth,
                    _ => DownloadStrategy::Adaptive,
                }
            },
            thread_count: self.optimal_threads,
            chunk_size: self.optimal_chunk,
            concurrent_writes: crate::numbers::least(
                self.optimal_threads as int,
                MAX_WRITERS as int,
            ) as usize,
            connection_pool_size: if self.pool_helps() {
                CONNECTION_POOL_SIZE
            } else {
                0
            },
            adaptive_chunk_sizing: true,
            enable_pipelining: self.capabilities@.contains(ServerCapability::KeepAlive),
            burst_mode: self.throttle == ThrottlePattern::Unthrottled,
            prefetch_multiplier: prefetch_ratio(self.latency_avg, self.avg_speed),
        }
    }

    /// Chooses the settings of a transfer from what is remembered of the server.
    pub fn to_optimization_config(&self) -> (r: OptimizationConfig)
        ensures
            r == self.optimized(),
    {
        let base_strategy: DownloadStrategy = match self.throttle {
            ThrottlePattern::Unthrottled => DownloadStrategy::BBROptimized,
            ThrottlePattern::HardLimit(_) => DownloadStrategy::HybridStealth,
            _ => DownloadStrategy::Adaptive,
        };
        let use_pool: bool = self.connection_pool_benefit.is_above(12, 10);
        OptimizationConfig {
            strategy: if use_pool {
                DownloadStrategy::ConnectionPooled
            } else {
                base_strategy
            },
            thread_count: self.optimal_threads,
            chunk_size: self.optimal_chunk,
            concurrent_writes: if self.optimal_threads <= MAX_WRITERS {
                self.optimal_threads
            } else {
                MAX_WRITERS
            },
            connection_pool_size: if use_pool {
                CONNECTION_POOL_SIZE
            } else {
                0
            },
            adaptive_chunk_sizing: true,
            enable_pipelining: has_capability(&self.capabilities, ServerCapability::KeepAlive),
            burst_mode: self.throttle == ThrottlePattern::Unthrottled,
            prefetch_multiplier: calculate_prefetch_ratio(self.latency_avg, self.avg_speed),
        }
    }

    /// Whether the profile records this probe and these settings, made at `timestamp`.
    pub open spec fn records(
        &self,
        domain: Seq<char>,
        probe: ProbeResult,
        config: OptimizationConfig,
        timestamp: u64,
    ) -> bool {
        &&& self.domain@ == domain
        &&& self.capabilities@ == probe.caps@
        &&& self.throttle == probe.throttle
        &&& self.optimal_threads == config.thread_count
        &&& self.optimal_chunk == config.chunk_size
        &&& self.avg_speed == probe.speed_est
        &&& self.timestamp == timestamp
        &&& self.latency_avg == probe.latency_ms
        &&& self.packet_loss_rate == probe.packet_loss
        &&& self.connection_pool_benefit == (if config.connection_pool_size > 0 {
            Ratio { num: 3, den: 2 }
        } else {
            Ratio { num: 1, den: 1 }
        })
    }
}

fn copy_capabilities(caps: &Vec<ServerCapability>) -> (r: Vec<ServerCapability>)
    ensures
        r@ == caps@,
{
    let mut out: Vec<ServerCapability> = Vec::new();
    let mut i: usize = 0;
    while i < caps.len()
        invariant
            i <= caps@.len(),
            out@ == caps@.take(i as int),
        decreases caps@.len() - i,
    {
        out.push(caps[i]);
        i = i + 1;
        proof {
            assert(caps@.take(i as int) =~= caps@.take(i - 1).push(caps@[i - 1]));
        }
    }
    proof {
        assert(caps@.take(i as int) =~= caps@);
    }
    out
}

/// Makes the profile that is remembered of a server; `timestamp` is the current time.
pub fn probe_result_to_server_profile(
    domain: String,
    probe: &ProbeResult,
    config: &OptimizationConfig,
    timestamp: u64,
) -> (r: ServerProfile)
    ensures
        r.records(domain@, *probe, *config, timestamp),
{
    ServerProfile {
        domain,
        capabilities: copy_capabilities(&probe.caps),
        throttle: probe.throttle,
        optimal_threads: config.thread_count,
        optimal_chunk: config.chunk_size,
        avg_speed: probe.speed_est,
        timestamp,
        latency_avg: probe.latency_ms,
        packet_loss_rate: probe.packet_loss,
        connection_pool_benefit: if config.connection_pool_size > 0 {
            Ratio { num: 3, den: 2 }
        } else {
            Ratio { num: 1, den: 1 }
        },
    }
}

/// Whether a profile made at `timestamp` is still used at `now`.
pub open spec fn is_fresh(timestamp: u64, now: u64) -> bool {
    now - timestamp < PROFILE_LIFETIME_SECS
}

/// Decides on a stored profile: it is used if it is younger than twelve hours.
pub fn load_cached_profile(stored: Option<ServerProfile>, now: u64) -> (r: Option<ServerProfile>)
    requires
        stored matches Some(p) ==> p.timestamp <= now,
    ensures
        r == (match stored {
            Some(p) => if is_fresh(p.timestamp, now) {
                stored
            } else {
                None
            },
            None => None,
        }),
{
    match stored {
        Some(p) => {
            let age: u64 = now - p.timestamp;
            if age < PROFILE_LIFETIME_SECS {
                Some(p)
            } else {
                None
            }
        },
        None => None,
    }
}

/// Whether `c` is kept of a domain in a file name.
pub open spec fn is_domain_char(c: char) -> bool {
    crate::text::char_alphanumeric(c) || c == '.' || c == '-'
}

/// What is kept of a domain in a file name.
pub open spec fn cleaned_domain(d: Seq<char>) -> Seq<char> {
    d.filter(|c: char| is_domain_char(c))
}

/// Whether `c` is an ASCII letter or digit, or one of `.` and `-`.
pub open spec fn is_plain_domain_char(c: char) -> bool {
    crate::text::ascii_alphanumeric(c) || c == '.' || c == '-'
}

/// Whether an ASCII character is harmless in a cache file's name.
pub open spec fn is_plain_domain_char_or_not_ascii(c: char) -> bool {
    (c as u32) < 128 ==> is_plain_domain_char(c)
}

/// What is kept of a domain of ASCII characters in a file name.
pub open spec fn plain_domain(d: Seq<char>) -> Seq<char> {
    d.filter(|c: char| is_plain_domain_char(c))
}

/// The ASCII characters of a text.
pub open spec fn ascii_part(s: Seq<char>) -> Seq<char> {
    s.filter(|c: char| (c as u32) < 128)
}

/// Drops from a domain all but letters, numbers, `.` and `-`. Of the ASCII characters, letters,
/// digits, `.` and `-` are kept, and no other is left.
pub fn clean_domain(d: &str) -> (r: String)
    ensures
        r@ == cleaned_domain(d@),
        forall|i: int| 0 <= i < r@.len() ==> is_plain_domain_char_or_not_ascii(#[trigger] r@[i]),
        ascii_part(r@) == plain_domain(d@),
        (forall|i: int| 0 <= i < d@.len() ==> (#[trigger] d@[i] as u32) < 128) ==> r@
            == plain_domain(d@),
        forall|i: int|
            0 <= i < d@.len() && is_plain_domain_char(d@[i]) ==> r@.contains(#[trigger] d@[i]),
{
    let s: Vec<char> = chars_of(d);
    let mut out: Vec<char> = Vec::new();
    let mut i: usize = 0;
    let ghost keep = |c: char| is_domain_char(c);
    let ghost plain = |c: char| is_plain_domain_char(c);
    let ghost ascii = |c: char| (c as u32) < 128;
    proof {
        reveal(Seq::filter);
    }
    while i < s.len()
        invariant
            s@ == d@,
            i <= s@.len(),
            keep == (|c: char| is_domain_char(c)),
            plain == (|c: char| is_plain_domain_char(c)),
            ascii == (|c: char| (c as u32) < 128),
            out@ == s@.take(i as int).filter(keep),
            out@.filter(ascii) == s@.take(i as int).filter(plain),
            forall|j: int|
                0 <= j < i && (s@[j] as u32) < 128 ==> is_domain_char(#[trigger] s@[j])
                    == is_plain_domain_char(s@[j]),
            forall|j: int|
                0 <= j < out@.len() ==> is_plain_domain_char_or_not_ascii(#[trigger] out@[j]),
        decreases s@.len() - i,
    {
        let c: char = s[i];
        proof {
            reveal(Seq::filter);
            assert(s@.take(i + 1).drop_last() =~= s@.take(i as int));
            assert(keep(c) == is_domain_char(c));
            assert(plain(c) == is_plain_domain_char(c));
            assert(ascii(c) == ((c as u32) < 128));
            assert(out@.push(c).drop_last() =~= out@);
        }
        if c.is_alphanumeric() || c == '.' || c == '-' {
            out.push(c);
        }
        i = i + 1;
    }
    proof {
        assert(s@.take(i as int) =~= d@);
        assert forall|j: int| 0 <= j < d@.len() && is_plain_domain_char(
            d@[j],
        ) implies out@.contains(#[trigger] d@[j]) by {
            assert(keep(s@[j]));
            d@.lemma_filter_contains(keep, j);
        }
        if forall|j: int| 0 <= j < d@.len() ==> (#[trigger] d@[j] as u32) < 128 {
            assert forall|j: int| 0 <= j < out@.len() implies ascii(#[trigger] out@[j]) by {
                assert(d@.filter(keep).contains(out@[j]));
                d@.lemma_filter_contains_rev(keep, out@[j]);
            }
            lemma_filter_keeps_all(out@, ascii);
        }
    }
    string_of(&out)
}

/// The name of the file that a server's profile is kept in.
pub fn cache_file_name(domain: &str) -> (r: String)
    ensures
        r@ == "jito_"@ + cleaned_domain(domain@) + ".json"@,
        (forall|i: int| 0 <= i < domain@.len() ==> (#[trigger] domain@[i] as u32) < 128) ==> r@
            == "jito_"@ + plain_domain(domain@) + ".json"@,
{
    let mut out: String = "jito_".to_owned();
    out.append(clean_domain(domain).as_str());
    out.append(".json");
    out
}

/// The range size for a server always lies between 128 KiB and 64 MiB.
pub proof fn law_probed_chunk_size_bounds(speed: int, threads: int, latency: int, loss: Ratio)
    ensures
        CHUNK_TINY / 4 <= chunk_size_for(speed, threads, latency, loss) <= 2 * CHUNK_MEGA,
{
}

proof fn lemma_less_loss(less: Ratio, more: Ratio, percent: int)
    requires
        less.wf(),
        more.wf(),
        less.num * more.den <= more.num * less.den,
        more.lt(percent, 100),
    ensures
        less.lt(percent, 100),
{
    let (a, b, c, d) = (less.num as int, less.den as int, more.num as int, more.den as int);
    assert(a * 100 < percent * b) by (nonlinear_arith)
        requires
            b > 0,
            d > 0,
            a * d <= c * b,
            c * 100 < percent * d,
    {
        assert((c * 100) * b < (percent * d) * b);
        assert((a * d) * 100 <= (c * b) * 100);
        assert((a * 100) * d < (percent * b) * d);
    }
}

/// Less speed, more threads or more loss never make the ranges larger at the same latency. The
/// speed must be known: a speed of zero stands for one that is not.
pub proof fn law_chunks_shrink(
    slow: int,
    fast: int,
    few: int,
    many: int,
    latency: int,
    less: Ratio,
    more: Ratio,
)
    requires
        0 < slow <= fast || 0 == slow == fast,
        0 <= few <= many,
        latency >= 0,
        less.wf(),
        more.wf(),
        less.num * more.den <= more.num * less.den,
    ensures
        chunk_size_for(slow, many, latency, more) <= chunk_size_for(fast, few, latency, less),
{
    let x = crate::numbers::greatest(1, few);
    let y = crate::numbers::greatest(1, many);
    vstd::arithmetic::div_mod::lemma_div_is_ordered_by_denominator(slow, x, y);
    vstd::arithmetic::div_mod::lemma_div_is_ordered(slow, fast, x);
    vstd::arithmetic::div_mod::lemma_div_pos_is_pos(slow, y);
    let (small, large) = (slow / y, fast / x);
    assert(0 <= small * (latency + 50) <= large * (latency + 50)) by (nonlinear_arith)
        requires
            0 <= small <= large,
            latency >= 0,
    ;
    if loss_is_negligible(more) {
        lemma_less_loss(less, more, 1);
    }
    if loss_is_moderate(more) {
        lemma_less_loss(less, more, 5);
    }
}

/// Whatever a probe shows, no more threads are used than were asked for (one if the server does
/// not serve ranges), and never more writers than threads or than sixteen.
pub proof fn law_selection_stays_within_request(probe: ProbeResult, threads: usize)
    requires
        threads > 0,
    ensures
        selected_config(probe, threads).thread_count <= threads,
        selected_config(probe, threads).concurrent_writes <= selected_config(
            probe,
            threads,
        ).thread_count,
        selected_config(probe, threads).concurrent_writes <= MAX_WRITERS,
{
}

/// Burst mode is chosen only for a server that serves ranges, is not throttled, loses next to
/// nothing and is steady.
pub proof fn law_burst_needs_optimal_conditions(probe: ProbeResult, threads: usize)
    requires
        selected_config(probe, threads).burst_mode,
    ensures
        probe.caps@.contains(ServerCapability::RangeSupport),
        probe.throttle == ThrottlePattern::Unthrottled,
        probe.packet_loss.lt(1, 100),
        probe.jitter_ms < 30,
{
}

/// A profile gives back the settings that it was made from: the threads, the range size, how
/// far to read ahead, and a connection pool exactly if there was one.
pub proof fn law_profile_keeps_settings(
    profile: ServerProfile,
    domain: Seq<char>,
    probe: ProbeResult,
    config: OptimizationConfig,
    timestamp: u64,
)
    requires
        profile.records(domain, probe, config, timestamp),
    ensures
        profile.optimized().thread_count == config.thread_count,
        profile.optimized().chunk_size == config.chunk_size,
        profile.optimized().connection_pool_size > 0 <==> config.connection_pool_size > 0,
        profile.optimized().prefetch_multiplier == prefetch_ratio(
            probe.latency_ms,
            probe.speed_est,
        ),
{
}

/// A profile made from the settings that were selected for a probe gives the writers back too,
/// and keeps burst mode on where it was on. For a server that serves ranges, the reading ahead
/// and the adapting of range sizes come back as well.
pub proof fn law_profile_keeps_selection(
    profile: ServerProfile,
    domain: Seq<char>,
    probe: ProbeResult,
    threads: usize,
    timestamp: u64,
)
    requires
        profile.records(domain, probe, selected_config(probe, threads), timestamp),
    ensures
        profile.optimized().concurrent_writes == selected_config(probe, threads).concurrent_writes,
        selected_config(probe, threads).burst_mode ==> profile.optimized().burst_mode,
        probe.caps@.contains(ServerCapability::RangeSupport) ==> {
            &&& profile.optimized().prefetch_multiplier == selected_config(
                probe,
                threads,
            ).prefetch_multiplier
            &&& profile.optimized().adaptive_chunk_sizing == selected_config(
                probe,
                threads,
            ).adaptive_chunk_sizing
        },
{
}

/// The reading ahead is at least twofold and at most fivefold, and grows with the latency.
pub proof fn law_prefetch_bounds(latency: int, longer: int, speed: int)
    requires
        0 <= latency <= longer,
    ensures
        200 <= prefetch_hundredths(latency, speed) <= 500,
        prefetch_hundredths(latency, speed) <= prefetch_hundredths(longer, speed),
{
}

proof fn lemma_filter_keeps_all(s: Seq<char>, keep: spec_fn(char) -> bool)
    requires
        forall|i: int| 0 <= i < s.len() ==> keep(#[trigger] s[i]),
    ensures
        s.filter(keep) == s,
    decreases s.len(),
{
    reveal(Seq::filter);
    if s.len() > 0 {
        lemma_filter_keeps_all(s.drop_last(), keep);
        assert(s.drop_last().push(s.last()) =~= s);
    }
}

/// Cleaning a domain twice changes nothing over doing it once.
pub proof fn law_cleaning_is_idempotent(d: Seq<char>)
    ensures
        cleaned_domain(cleaned_domain(d)) == cleaned_domain(d),
{
    let keep = |c: char| is_domain_char(c);
    let once = d.filter(keep);
    assert forall|i: int| 0 <= i < once.len() implies keep(#[trigger] once[i]) by {
        d.lemma_filter_pred(keep, i);
    }
    lemma_filter_keeps_all(once, keep);
}

proof fn lemma_total_variation(latencies: Seq<u64>, low: int, high: int)
    requires
        forall|i: int| 0 <= i < latencies.len() ==> low <= #[trigger] latencies[i] <= high,
        latencies.len() >= 1,
    ensures
        total_variation(latencies) <= (latencies.len() - 1) * (high - low),
    decreases latencies.len(),
{
    if latencies.len() == 1 {
        assert(low <= latencies[0] <= high);
        assert((latencies.len() - 1) * (high - low) == 0) by (nonlinear_arith)
            requires
                latencies.len() == 1,
        ;
    } else {
        let shorter = latencies.drop_last();
        let n = latencies.len() as int;
        assert forall|i: int| 0 <= i < shorter.len() implies low <= #[trigger] shorter[i]
            <= high by {
            assert(shorter[i] == latencies[i]);
        }
        lemma_total_variation(shorter, low, high);
        assert(low <= latencies[n - 1] <= high && low <= latencies[n - 2] <= high);
        assert((n - 1) * (high - low) == (n - 2) * (high - low) + (high - low)) by (
        nonlinear_arith);
    }
}

/// The jitter is never more than the spread of the latencies; a steady connection has none.
pub proof fn law_jitter_is_within_spread(latencies: Seq<u64>, low: int, high: int)
    requires
        low <= high,
        forall|i: int| 0 <= i < latencies.len() ==> low <= #[trigger] latencies[i] <= high,
    ensures
        jitter_of(latencies) <= high - low,
{
    if latencies.len() >= 2 {
        let k = latencies.len() - 1;
        let spread = high - low;
        lemma_total_variation(latencies, low, high);
        vstd::arithmetic::div_mod::lemma_div_is_ordered(
            total_variation(latencies) as int,
            k * spread,
            k,
        );
        vstd::arithmetic::div_mod::lemma_div_multiples_vanish(spread, k);
    }
}

/// How far two latencies lie apart.
pub open spec fn distance(a: u64, b: u64) -> int {
    if a >= b {
        a - b
    } else {
        b - a
    }
}

/// The distances of all neighbouring latencies, from the first pair to the last.
pub open spec fn neighbour_distances(s: Seq<u64>) -> Seq<int> {
    Seq::new((s.len() - 1) as nat, |i: int| distance(s[i + 1], s[i]))
}

/// Whether `total` is what the distances of all neighbouring latencies add up to.
pub open spec fn distances_add_up(s: Seq<u64>, total: int) -> bool {
    total == neighbour_distances(s).fold_left(0, |sum: int, d: int| sum + d)
}

proof fn lemma_distances(s: Seq<u64>)
    requires
        s.len() > 0,
    ensures
        distances_add_up(s, total_variation(s) as int),
    decreases s.len(),
{
    let d = neighbour_distances(s);
    if s.len() > 1 {
        lemma_distances(s.drop_last());
        assert(d.drop_last() =~= neighbour_distances(s.drop_last()));
        assert(d.last() == distance(s[s.len() - 1], s[s.len() - 2]));
    }
}

/// The jitter is the mean of all distances between neighbours: times their number it comes to
/// their sum, up to rounding down. Fewer than two latencies have none.
pub proof fn law_jitter_is_the_mean_distance(latencies: &[u64], r: u64, total: int)
    requires
        call_ensures(calculate_jitter, (latencies,), r),
        latencies@.len() >= 2 ==> distances_add_up(latencies@, total),
    ensures
        latencies@.len() < 2 ==> r == 0,
        latencies@.len() >= 2 ==> r * (latencies@.len() - 1) <= total < (r + 1) * (latencies@.len()
            - 1),
{
    if latencies@.len() >= 2 {
        let k = latencies@.len() - 1;
        let sum = total_variation(latencies@) as int;
        lemma_distances(latencies@);
        vstd::arithmetic::div_mod::lemma_fundamental_div_mod(sum, k);
        assert(k * (sum / k) == r * k) by (nonlinear_arith)
            requires
                r == sum / k,
        ;
        assert((r + 1) * k == r * k + k) by (nonlinear_arith);
    }
}

/// A latency that differs by `d` from the one before it adds exactly `d` to the distances, and
/// the jitter of a history is their sum over the number of pairs, rounded down.
pub proof fn law_each_latency_adds_its_distance(s: Seq<u64>, x: u64)
    requires
        s.len() > 0,
    ensures
        total_variation(seq![s[0]]) == 0,
        x >= s.last() ==> total_variation(s.push(x)) == total_variation(s) + (x - s.last()),
        x < s.last() ==> total_variation(s.push(x)) == total_variation(s) + (s.last() - x),
        jitter_of(s.push(x)) * s.len() <= total_variation(s.push(x)) < (jitter_of(s.push(x)) + 1)
            * s.len(),
{
    let t = s.push(x);
    assert(t.drop_last() =~= s);
    let sum = total_variation(t) as int;
    let k = s.len() as int;
    vstd::arithmetic::div_mod::lemma_fundamental_div_mod(sum, k);
    assert(k * (sum / k) == (sum / k) * k) by (nonlinear_arith);
    assert((sum / k + 1) * k == (sum / k) * k + k) by (nonlinear_arith);
}

/// The range size for a server. A thread's share of the speed, times the latency plus 50 over a
/// hundred, is taken by half as much again, as it is or by three fifths, as less than one, less
/// than five or more parts in a hundred are lost. The size is that, rounded down, unless it lies
/// outside the bounds that the latency sets; then it is the bound. Each quotient is given by what
/// it leaves over.
pub proof fn law_range_size(
    speed: u64,
    threads: usize,
    latency: u64,
    loss: Ratio,
    r: u64,
    share: int,
    adjusted: int,
    base: int,
)
    requires
        call_ensures(calculate_chunk_size_advanced, (speed, threads, latency, loss), r),
        threads == 0 ==> share == speed,
        threads > 0 ==> share * threads <= speed < share * threads + threads,
        100 * adjusted <= share * (latency + 50) < 100 * adjusted + 100,
        base == (if latency < 20 {
            33_554_432int
        } else if latency < 50 {
            16_777_216
        } else if latency < 100 {
            4_194_304
        } else if latency < 200 {
            1_048_576
        } else {
            524_288
        }),
    ensures
        speed == 0 ==> r == 1_048_576,
        speed > 0 ==> base <= 4 * r && r <= 2 * base,
        speed > 0 && 4 * r > base ==> {
            &&& loss.num * 100 < loss.den ==> 2 * r <= 3 * adjusted
            &&& loss.num * 100 >= loss.den && loss.num * 100 < 5 * loss.den ==> r <= adjusted
            &&& loss.num * 100 >= 5 * loss.den && loss.den > 0 ==> 5 * r <= 3 * adjusted
        },
        speed > 0 && r < 2 * base ==> {
            &&& loss.num * 100 < loss.den ==> 3 * adjusted < 2 * (r + 1)
            &&& loss.num * 100 >= loss.den && loss.num * 100 < 5 * loss.den ==> adjusted < r + 1
            &&& loss.num * 100 >= 5 * loss.den && loss.den > 0 ==> 3 * adjusted < 5 * (r + 1)
        },
{
    let t = crate::numbers::greatest(1, threads as int);
    let s = speed as int;
    vstd::arithmetic::div_mod::lemma_fundamental_div_mod(s, t);
    if threads <= 1 {
        assert(share * t == share) by (nonlinear_arith)
            requires
                t == 1,
        ;
        assert(share * threads == share || threads == 0) by (nonlinear_arith)
            requires
                threads <= 1,
        ;
    }
    assert(share == s / t) by (nonlinear_arith)
        requires
            t > 0,
            share * t <= s < share * t + t,
            s == t * (s / t) + s % t,
            0 <= s % t < t,
    ;
}

/// How far to read ahead, in hundredths: twice below 30 ms, from there on twice one plus a
/// hundredth of the latency; half as much again for a server of more than 100 MB/s; never above
/// five times.
pub proof fn law_reading_ahead(latency: u64, speed: u64, r: Ratio)
    requires
        call_ensures(calculate_prefetch_ratio, (latency, speed), r),
    ensures
        r.den == 100,
        r.num <= 500,
        latency < 30 && speed <= 100_000_000 ==> r.num == 200,
        latency < 30 && speed > 100_000_000 ==> r.num == 300,
        latency >= 30 && speed <= 100_000_000 && latency <= 150 ==> r.num == 200 + 2 * latency,
        latency >= 30 && speed > 100_000_000 && 3 * latency <= 200 ==> r.num == 300 + 3 * latency,
        latency > 150 ==> r.num == 500,
        speed > 100_000_000 && 3 * latency > 200 ==> r.num == 500,
{
}

/// A server that serves ranges gets as many threads as were asked for or as it bears, whichever
/// is less, and as many writers, up to sixteen, whatever the throttling.
pub proof fn law_threads_reach_the_bound(probe: &ProbeResult, threads: usize, r: OptimizationConfig)
    requires
        call_ensures(select_strategy, (probe, threads), r),
        exists|i: int|
            0 <= i < probe.caps@.len() && probe.caps@[i] == ServerCapability::RangeSupport,
    ensures
        r.thread_count <= threads,
        r.thread_count <= probe.optimal_concurrent_streams,
        r.thread_count == threads || r.thread_count == probe.optimal_concurrent_streams,
        r.concurrent_writes <= 16,
        r.concurrent_writes <= r.thread_count,
        r.concurrent_writes == 16 || r.concurrent_writes == r.thread_count,
{
}

/// For a server that serves ranges, the range size and pipelining are the probe's, reading ahead
/// goes by its latency and speed, and range sizes adapt. The pool is full exactly if pipelining,
/// kept-alive connections and a latency under 100 ms come together, and burst mode on exactly if
/// nothing throttles, less than one part in a hundred is lost and the jitter is under 30 ms.
pub proof fn law_selected_settings(
    probe: &ProbeResult,
    threads: usize,
    r: OptimizationConfig,
    ahead: Ratio,
)
    requires
        call_ensures(select_strategy, (probe, threads), r),
        call_ensures(calculate_prefetch_ratio, (probe.latency_ms, probe.speed_est), ahead),
        probe.caps@.contains(ServerCapability::RangeSupport),
    ensures
        r.chunk_size == probe.chunk_size,
        r.enable_pipelining == probe.supports_pipelining,
        r.adaptive_chunk_sizing,
        r.prefetch_multiplier == ahead,
        r.connection_pool_size == 32 || r.connection_pool_size == 8,
        r.connection_pool_size == 32 <==> probe.supports_pipelining && probe.caps@.contains(
            ServerCapability::KeepAlive,
        ) && probe.latency_ms < 100,
        r.burst_mode <==> probe.throttle is Unthrottled && probe.packet_loss.num * 100
            < probe.packet_loss.den && probe.jitter_ms < 30,
{
}

/// The strategy for a server that serves ranges goes by its throttling, and only without any by
/// its loss: hard limits call for hybrid stealth, throttling by time for stealth, every other
/// throttling for adapting.
pub proof fn law_selected_strategy(probe: &ProbeResult, threads: usize, r: OptimizationConfig)
    requires
        call_ensures(select_strategy, (probe, threads), r),
        probe.caps@.contains(ServerCapability::RangeSupport),
    ensures
        probe.throttle is Unthrottled ==> (r.strategy == DownloadStrategy::BBROptimized
            || r.strategy == DownloadStrategy::Aggressive),
        r.strategy == DownloadStrategy::BBROptimized <==> probe.throttle is Unthrottled
            && probe.packet_loss.num * 100 < probe.packet_loss.den,
        r.strategy == DownloadStrategy::HybridStealth <==> probe.throttle is HardLimit,
        r.strategy == DownloadStrategy::Stealth <==> probe.throttle is TimeBasedThrottle,
        r.strategy == DownloadStrategy::Adaptive <==> probe.throttle is BandwidthCap
            || probe.throttle is HighJitter || probe.throttle is Unstable
            || probe.throttle is AdaptiveThrottle,
{
}

/// A server that does not serve ranges gets the same single connection whatever else the probe
/// shows and however many threads are asked for.
pub proof fn law_single_connection(probe: &ProbeResult, threads: usize, r: OptimizationConfig)
    requires
        call_ensures(select_strategy, (probe, threads), r),
        forall|i: int|
            0 <= i < probe.caps@.len() ==> probe.caps@[i] != ServerCapability::RangeSupport,
    ensures
        r.strategy == DownloadStrategy::Single,
        r.thread_count == 1 && r.concurrent_writes == 1,
        r.chunk_size == 16_777_216,
        r.connection_pool_size == 0,
        !r.adaptive_chunk_sizing && !r.enable_pipelining && !r.burst_mode,
        r.prefetch_multiplier.num == r.prefetch_multiplier.den == 1,
{
}

/// The settings from a profile: threads and range size are taken over, writers up to sixteen,
/// and pipelining exactly for servers that keep connections alive. A pool is kept, and decides
/// the strategy, exactly if it speeds the server up by more than a fifth; else the throttling
/// decides it. Burst mode is on exactly where nothing throttles.
pub proof fn law_settings_from_a_profile(
    profile: &ServerProfile,
    r: OptimizationConfig,
    ahead: Ratio,
)
    requires
        call_ensures(ServerProfile::to_optimization_config, (profile,), r),
        call_ensures(calculate_prefetch_ratio, (profile.latency_avg, profile.avg_speed), ahead),
    ensures
        r.thread_count == profile.optimal_threads,
        r.chunk_size == profile.optimal_chunk,
        r.concurrent_writes <= 16 && r.concurrent_writes <= r.thread_count,
        r.concurrent_writes == 16 || r.concurrent_writes == r.thread_count,
        r.adaptive_chunk_sizing,
        r.prefetch_multiplier == ahead,
        r.enable_pipelining <==> exists|i: int|
            0 <= i < profile.capabilities@.len() && profile.capabilities@[i]
                == ServerCapability::KeepAlive,
        r.burst_mode <==> profile.throttle is Unthrottled,
        r.connection_pool_size == 32 || r.connection_pool_size == 0,
        r.connection_pool_size == 32 <==> profile.connection_pool_benefit.num * 10 > 12
            * profile.connection_pool_benefit.den,
        r.strategy == DownloadStrategy::ConnectionPooled <==> r.connection_pool_size == 32,
        r.connection_pool_size == 0 ==> {
            &&& r.strategy == DownloadStrategy::BBROptimized <==> profile.throttle is Unthrottled
            &&& r.strategy == DownloadStrategy::HybridStealth <==> profile.throttle is HardLimit
            &&& r.strategy == DownloadStrategy::Adaptive <==> !(profile.throttle is Unthrottled
                || profile.throttle is HardLimit)
        },
{
}

/// A profile holds what the probe and the settings hold, and the time it was made; a pool counts
/// as a gain of one half exactly if there was one.
pub proof fn law_profile_holds_the_probe(
    domain: String,
    probe: &ProbeResult,
    config: &OptimizationConfig,
    timestamp: u64,
    r: ServerProfile,
)
    requires
        call_ensures(probe_result_to_server_profile, (domain, probe, config, timestamp), r),
    ensures
        r.domain@ == domain@,
        r.capabilities@ == probe.caps@,
        r.throttle == probe.throttle,
        r.optimal_threads == config.thread_count,
        r.optimal_chunk == config.chunk_size,
        r.avg_speed == probe.speed_est,
        r.timestamp == timestamp,
        r.latency_avg == probe.latency_ms,
        r.packet_loss_rate == probe.packet_loss,
        config.connection_pool_size > 0 ==> 2 * r.connection_pool_benefit.num == 3
            * r.connection_pool_benefit.den && r.connection_pool_benefit.den > 0,
        config.connection_pool_size == 0 ==> r.connection_pool_benefit.num
            == r.connection_pool_benefit.den && r.connection_pool_benefit.den > 0,
{
}

/// A stored profile is used unchanged for twelve hours from when it was made, and not after.
pub proof fn law_profiles_expire(
    stored: Option<ServerProfile>,
    now: u64,
    r: Option<ServerProfile>,
)
    requires
        stored matches Some(p) ==> p.timestamp <= now,
        call_ensures(load_cached_profile, (stored, now), r),
    ensures
        stored is None ==> r is None,
        stored matches Some(p) ==> (r is Some <==> now < p.timestamp + 43_200),
        r is Some ==> r == stored,
{
}

/// A capability is found exactly if it stands somewhere in the list.
pub proof fn law_capability_is_found(
    caps: &Vec<ServerCapability>,
    cap: ServerCapability,
    r: bool,
)
    requires
        call_ensures(has_capability, (caps, cap), r),
    ensures
        r <==> exists|i: int| 0 <= i < caps@.len() && #[trigger] caps@[i] == cap,
{
}

/// Cleaning goes character by character: of two domains, one behind the other, what is left is
/// what is left of the one and then of the other; a single character is left or dropped, an ASCII
/// one left exactly if it is a letter, a digit, `.` or `-`.
pub proof fn law_cleaning_goes_by_character(
    a: &str,
    b: &str,
    both: &str,
    x: String,
    y: String,
    z: String,
)
    requires
        both@ == a@ + b@,
        call_ensures(clean_domain, (a,), x),
        call_ensures(clean_domain, (b,), y),
        call_ensures(clean_domain, (both,), z),
    ensures
        z@ == x@ + y@,
        a@.len() == 0 ==> x@.len() == 0,
        a@.len() == 1 && (a@[0] as u32) < 128 ==> x@ == (if 'a' <= a@[0] <= 'z' || 'A' <= a@[0] <= 'Z'
            || '0' <= a@[0] <= '9' || a@[0] == '.' || a@[0] == '-' {
            a@
        } else {
            seq![]
        }),
        a@.len() == 1 && (a@[0] as u32) >= 128 ==> x@ == (if crate::text::char_alphanumeric(a@[0]) {
            a@
        } else {
            seq![]
        }),
{
    let keep = |c: char| is_domain_char(c);
    let plain = |c: char| is_plain_domain_char(c);
    Seq::filter_distributes_over_add(a@, b@, keep);
    reveal(Seq::filter);
    if a@.len() == 1 {
        let c = a@[0];
        assert(a@.drop_last() =~= seq![]);
        assert(a@ =~= seq![c]);
        assert(a@.drop_last().filter(keep) =~= seq![]);
        assert(a@.drop_last().filter(plain) =~= seq![]);
        assert(a@.last() == c);
        assert(keep(c) == is_domain_char(c));
        assert(plain(c) == is_plain_domain_char(c));
        assert(Seq::<char>::empty().push(c) =~= a@);
        if (c as u32) < 128 {
            assert forall|i: int| 0 <= i < a@.len() implies (#[trigger] a@[i] as u32) < 128 by {
            }
            assert(x@ == plain_domain(a@));
        }
    }
}

/// The cache file of a domain is named by what is left of the domain.
pub proof fn law_cache_file_is_named_by_domain(domain: &str, cleaned: String, r: String)
    requires
        call_ensures(clean_domain, (domain,), cleaned),
        call_ensures(cache_file_name, (domain,), r),
    ensures
        r@ == "jito_"@ + cleaned@ + ".json"@,
{
}

} // verus!
