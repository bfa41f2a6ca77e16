//! A download from end to end: how the user's options and the optimizer's settings come
//! together.
use vstd::prelude::*;

use crate::jito::OptimizationConfig;
use crate::logic::{calculate_optimal_chunk_size, should_use_multi_stream};
use crate::net::{DownloadConfig, DownloadInfo};

verus! {

/// The settings of the HTTP client.
#[derive(Debug, Clone, Copy, PartialEq, Eq, Structural)]
pub struct ClientSettings {
    pub threads: usize,
    pub pool_size: usize,
    pub http2_optimizations: bool,
}

/// The settings of a transfer.
#[derive(Debug, Clone, Copy, PartialEq, Eq, Structural)]
pub struct TransferSettings {
    pub concurrent_writes: usize,
    pub chunk_size: u64,
    pub adaptive_chunk_sizing: bool,
    pub burst_mode: bool,
}

/// The client's settings: the optimizer's where it has been asked, with at least two pooled
/// connections per thread.
pub open spec fn client_for(
    threads: usize,
    optimized: Option<OptimizationConfig>,
) -> ClientSettings {
    match optimized {
        Some(c) => ClientSettings {
            threads: c.thread_count,
            pool_size: crate::numbers::greatest(
                c.connection_pool_size as int,
                threads * 2,
            ) as usize,
            http2_optimizations: c.enable_pipelining,
        },
        None => ClientSettings {
            threads,
            pool_size: (threads * 2) as usize,
            http2_optimizations: true,
        },
    }
}

/// Chooses the client's settings for `threads` requested threads.
pub fn client_settings(
    threads: usize,
    optimized: &Option<OptimizationConfig>,
) -> (r: ClientSettings)
    requires
        threads * 2 <= usize::MAX,
    ensures
        r == client_for(threads, *optimized),
{
    let twice: usize = threads * 2;
    match optimized {
        Some(c) => ClientSettings {
            threads: c.thread_count,
            pool_size: if c.connection_pool_size >= twice {
                c.connection_pool_size
            } else {
                twice
            },
            http2_optimizations: c.enable_pipelining,
        },
        None => ClientSettings { threads, pool_size: twice, http2_optimizations: true },
    }
}

/// The transfer's settings: the optimizer's where it has been asked, else the user's writers
/// and the default range size.
pub open spec fn transfer_for(
    concurrent_writes: usize,
    total_size: u64,
    threads: usize,
    optimized: Option<OptimizationConfig>,
) -> TransferSettings {
    match optimized {
        Some(c) => TransferSettings {
            concurrent_writes: c.concurrent_writes,
            chunk_size: c.chunk_size,
            adaptive_chunk_sizing: c.adaptive_chunk_sizing,
            burst_mode: c.burst_mode,
        },
        None => TransferSettings {
            concurrent_writes,
            chunk_size: crate::logic::optimal_chunk_size(
                total_size as int,
                threads as int,
            ) as u64,
            adaptive_chunk_sizing: false,
            burst_mode: false,
        },
    }
}

/// Chooses the transfer's settings for a file of `total_size` bytes over `threads` threads.
pub fn transfer_settings(
    concurrent_writes: usize,
    total_size: u64,
    threads: usize,
    optimized: &Option<OptimizationConfig>,
) -> (r: TransferSettings)
    requires
        optimized is None ==> 0 < threads && threads * crate::logic::CHUNKS_PER_THREAD
            <= usize::MAX,
    ensures
        r == transfer_for(concurrent_writes, total_size, threads, *optimized),
{
    match optimized {
        Some(c) => TransferSettings {
            concurrent_writes: c.concurrent_writes,
            chunk_size: c.chunk_size,
            adaptive_chunk_sizing: c.adaptive_chunk_sizing,
            burst_mode: c.burst_mode,
        },
        None => TransferSettings {
            concurrent_writes,
            chunk_size: calculate_optimal_chunk_size(total_size, threads),
            adaptive_chunk_sizing: false,
            burst_mode: false,
        },
    }
}

/// How a file is fetched.
#[derive(Debug, Clone, Copy, PartialEq, Eq, Structural)]
pub enum TransferMode {
    /// In ranges, over several connections.
    MultiStream,
    /// As a whole, with its size known.
    SingleStream,
    /// As a whole, with its size not known.
    UnknownSize,
}

/// Chooses how a file is fetched: in ranges if the server serves them and the file is worth it.
pub fn transfer_mode(info: &DownloadInfo, threads: usize) -> (r: TransferMode)
    ensures
        r == (if info.total_size > crate::logic::MULTI_STREAM_THRESHOLD && threads > 1
            && info.supports_ranges {
            TransferMode::MultiStream
        } else if info.total_size > 0 {
            TransferMode::SingleStream
        } else {
            TransferMode::UnknownSize
        }),
{
    if should_use_multi_stream(info.total_size, threads) && info.supports_ranges {
        TransferMode::MultiStream
    } else if info.total_size > 0 {
        TransferMode::SingleStream
    } else {
        TransferMode::UnknownSize
    }
}

/// Whether the user is told that the threads asked for cannot be used.
pub fn falls_back_to_single_stream(info: &DownloadInfo, threads: usize) -> (r: bool)
    ensures
        r == (!info.supports_ranges && threads > 1),
{
    !info.supports_ranges && threads > 1
}

/// The configuration of the transfer.
pub fn download_config(no_resume: bool, retries: u32, settings: &TransferSettings) -> (r:
    DownloadConfig)
    ensures
        r.allow_resume == !no_resume,
        r.max_concurrent_writes == settings.concurrent_writes,
        r.max_retries == retries,
        r.burst_mode == settings.burst_mode,
{
    DownloadConfig {
        allow_resume: !no_resume,
        max_concurrent_writes: settings.concurrent_writes,
        max_retries: retries,
        burst_mode: settings.burst_mode,
    }
}

/// With options that pass validation, a file can always be cut into ranges of the default size,
/// unless its size comes within 64 MiB of the largest 64-bit number.
pub proof fn law_default_ranges_are_feasible(
    concurrent_writes: usize,
    total_size: u64,
    threads: usize,
)
    requires
        1 <= threads <= crate::logic::MAX_THREADS,
        0 < total_size <= u64::MAX - crate::logic::MAX_CHUNK_SIZE,
    ensures
        ({
            let chunk_size = transfer_for(concurrent_writes, total_size, threads, None).chunk_size;
            &&& chunk_size > 0
            &&& ((total_size - 1) / chunk_size as int) * chunk_size + chunk_size <= u64::MAX
        }),
{
    let c = transfer_for(concurrent_writes, total_size, threads, None).chunk_size as int;
    let t = total_size - 1;
    vstd::arithmetic::div_mod::lemma_fundamental_div_mod(t, c);
    assert(c * (t / c) == (t / c) * c) by (nonlinear_arith);
}

/// The client keeps at least two idle connections for every thread asked for.
pub proof fn law_pool_covers_threads(threads: usize, optimized: Option<OptimizationConfig>)
    requires
        threads * 2 <= usize::MAX,
    ensures
        client_for(threads, optimized).pool_size >= threads * 2,
{
}

/// Without the optimizer the client has the threads asked for and two idle connections for each;
/// with it, the optimizer's threads, and as many idle connections as either of them calls for.
pub proof fn law_client_settings(
    threads: usize,
    optimized: &Option<OptimizationConfig>,
    r: ClientSettings,
)
    requires
        threads * 2 <= usize::MAX,
        call_ensures(client_settings, (threads, optimized), r),
    ensures
        r.pool_size >= 2 * threads,
        *optimized is None ==> r.threads == threads && r.pool_size == 2 * threads
            && r.http2_optimizations,
        *optimized matches Some(c) ==> {
            &&& r.threads == c.thread_count
            &&& r.pool_size >= c.connection_pool_size
            &&& r.pool_size == c.connection_pool_size || r.pool_size == 2 * threads
            &&& r.http2_optimizations == c.enable_pipelining
        },
{
}

/// The optimizer's writers, range size, adapting and burst mode are taken over unchanged.
pub proof fn law_optimizer_decides_the_transfer(
    concurrent_writes: usize,
    total_size: u64,
    threads: usize,
    optimized: &Option<OptimizationConfig>,
    r: TransferSettings,
)
    requires
        call_ensures(transfer_settings, (concurrent_writes, total_size, threads, optimized), r),
    ensures
        *optimized matches Some(c) ==> {
            &&& r.concurrent_writes == c.concurrent_writes
            &&& r.chunk_size == c.chunk_size
            &&& r.adaptive_chunk_sizing == c.adaptive_chunk_sizing
            &&& r.burst_mode == c.burst_mode
        },
{
}

/// Without the optimizer the user's writers are used, the range size is the default one for the
/// file and the threads, and neither adapting nor burst mode is on.
pub proof fn law_defaults_without_the_optimizer(
    concurrent_writes: usize,
    total_size: u64,
    threads: usize,
    optimized: &Option<OptimizationConfig>,
    r: TransferSettings,
    default_size: u64,
)
    requires
        *optimized is None,
        0 < threads && threads * crate::logic::CHUNKS_PER_THREAD <= usize::MAX,
        call_ensures(transfer_settings, (concurrent_writes, total_size, threads, optimized), r),
        call_ensures(calculate_optimal_chunk_size, (total_size, threads), default_size),
    ensures
        r.concurrent_writes == concurrent_writes,
        r.chunk_size == default_size,
        !r.adaptive_chunk_sizing,
        !r.burst_mode,
{
}

/// Several connections are used exactly for a file of more than 5 MiB from a server that serves
/// ranges, if more than one thread may be used; all else comes over one, as a file of known size
/// exactly if the size is not zero.
pub proof fn law_transfer_modes(info: &DownloadInfo, threads: usize, r: TransferMode)
    requires
        call_ensures(transfer_mode, (info, threads), r),
    ensures
        r is MultiStream <==> info.supports_ranges && threads >= 2 && info.total_size > 5_242_880,
        r is UnknownSize <==> info.total_size == 0,
{
}

/// The user is warned exactly if several threads were asked for and ranges are not served; such
/// a file is never fetched over several connections.
pub proof fn law_fallback_is_told(
    info: &DownloadInfo,
    threads: usize,
    told: bool,
    mode: TransferMode,
)
    requires
        call_ensures(falls_back_to_single_stream, (info, threads), told),
        call_ensures(transfer_mode, (info, threads), mode),
    ensures
        told <==> threads >= 2 && !info.supports_ranges,
        told ==> !(mode is MultiStream),
{
}

/// The configuration holds the user's retries and leave to resume, and the transfer's writers and
/// burst mode.
pub proof fn law_download_config(
    no_resume: bool,
    retries: u32,
    settings: &TransferSettings,
    r: DownloadConfig,
)
    requires
        call_ensures(download_config, (no_resume, retries, settings), r),
    ensures
        r.allow_resume <==> !no_resume,
        r.max_retries == retries,
        r.max_concurrent_writes == settings.concurrent_writes,
        r.burst_mode == settings.burst_mode,
{
}

} // verus!
