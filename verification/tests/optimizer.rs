use jito_downloader::jito::{
    cache_file_name, calculate_chunk_size_advanced, calculate_jitter, calculate_prefetch_ratio,
    clean_domain, has_capability, load_cached_profile, probe_result_to_server_profile,
    select_strategy, DownloadStrategy, OptimizationConfig, ProbeResult, ServerCapability,
    ServerProfile, ThrottlePattern,
};
use jito_downloader::net::{plan_chunks, DownloadInfo};
use jito_downloader::probe::{
    batch_range, check_multirange, check_pipelining_support, check_ranges, detect_capabilities,
    pipelining_range, probe_server, HeadFacts,
};
use jito_downloader::quality::{batch_report, BatchReport, Quality, QualityProbe};
use jito_downloader::ratio::Ratio;
use jito_downloader::session::{
    client_settings, download_config, falls_back_to_single_stream, transfer_mode,
    transfer_settings, TransferMode,
};

const NO_LOSS: Ratio = Ratio { num: 0, den: 1 };

fn good_probe() -> ProbeResult {
    ProbeResult {
        caps: vec![ServerCapability::KeepAlive, ServerCapability::RangeSupport],
        throttle: ThrottlePattern::Unthrottled,
        chunk_size: 4_000_000,
        speed_est: 20_000_000,
        latency_ms: 40,
        packet_loss: NO_LOSS,
        jitter_ms: 5,
        supports_pipelining: true,
        optimal_concurrent_streams: 32,
    }
}

fn quiet_head() -> HeadFacts {
    HeadFacts {
        http2: false,
        http3: false,
        connection: None,
        has_103_header: false,
        has_early_hints_header: false,
        has_server_timing_header: false,
    }
}

#[test]
fn jitter() {
    assert_eq!(calculate_jitter(&[]), 0);
    assert_eq!(calculate_jitter(&[7]), 0);
    assert_eq!(calculate_jitter(&[10, 20, 15]), 7);
    assert_eq!(calculate_jitter(&[5, 5, 5]), 0);
    assert_eq!(calculate_jitter(&[0, u64::MAX, 0]), u64::MAX);
}

/// The range size in floating point.
fn float_chunk_size(speed: u64, threads: usize, latency: u64, loss: f64) -> u64 {
    if speed == 0 {
        return 1_048_576;
    }
    let base: u64 = match latency {
        l if l < 20 => 33_554_432,
        l if l < 50 => 16_777_216,
        l if l < 100 => 4_194_304,
        l if l < 200 => 1_048_576,
        _ => 524_288,
    };
    let factor = match loss {
        p if p < 0.01 => 1.5,
        p if p < 0.05 => 1.0,
        _ => 0.6,
    };
    let split = speed / std::cmp::max(1, threads) as u64;
    let adjusted = (split * (latency + 50) / 100) as f64;
    ((adjusted * factor) as u64).clamp(base / 4, base * 2)
}

#[test]
fn chunk_size_for_a_server() {
    assert_eq!(calculate_chunk_size_advanced(0, 8, 10, NO_LOSS), 1_048_576);
    assert_eq!(calculate_chunk_size_advanced(10_000_000, 16, 30, NO_LOSS), 4_194_304);
    assert_eq!(calculate_chunk_size_advanced(100_000_000, 4, 60, NO_LOSS), 8_388_608);
    assert_eq!(calculate_chunk_size_advanced(16_000_000, 4, 60, Ratio { num: 1, den: 16 }), 2_640_000);
    assert_eq!(calculate_chunk_size_advanced(u64::MAX, 0, u64::MAX, NO_LOSS), 1_048_576);
}

#[test]
fn chunk_size_agrees_with_floating_point() {
    let mut x: u64 = 12345;
    let mut next = || {
        x = x.wrapping_mul(6364136223846793005).wrapping_add(1442695040888963407);
        x >> 20
    };
    for _ in 0..20_000 {
        let speed = next() % 400_000_000;
        let threads = (next() % 40) as usize;
        let latency = next() % 300;
        let den = 16 * (1 + next() % 10);
        let num = next() % (den / 4 + 1);
        let loss = Ratio { num, den };
        assert_eq!(
            calculate_chunk_size_advanced(speed, threads, latency, loss),
            float_chunk_size(speed, threads, latency, num as f64 / den as f64)
        );
    }
}

#[test]
fn ranges_shrink_with_less_speed_and_more_threads() {
    let size = |speed: u64, threads: usize| {
        calculate_chunk_size_advanced(speed, threads, 60, NO_LOSS)
    };
    assert_eq!((size(8_000_000, 4), size(10_000_000, 4)), (3_300_000, 4_125_000));
    assert_eq!((size(10_000_000, 8), size(10_000_000, 5)), (2_062_500, 3_300_000));
    // An unknown speed is no low speed.
    let slow = |speed: u64| calculate_chunk_size_advanced(speed, 1, 500, NO_LOSS);
    assert_eq!((slow(0), slow(1)), (1_048_576, 131_072));
}

#[test]
fn loss_shrinks_ranges() {
    let size = |num: u64| calculate_chunk_size_advanced(10_000_000, 4, 60, Ratio { num, den: 100 });
    assert_eq!((size(0), size(1), size(5)), (4_125_000, 2_750_000, 1_650_000));
    let least = calculate_chunk_size_advanced(1, 128, 500, Ratio { num: 1, den: 1 });
    let most = calculate_chunk_size_advanced(u64::MAX, 1, 0, NO_LOSS);
    assert_eq!((least, most), (131_072, 67_108_864));
}

#[test]
fn prefetch() {
    let ratio = |latency: u64, speed: u64| calculate_prefetch_ratio(latency, speed);
    assert_eq!(ratio(0, 0), Ratio { num: 200, den: 100 });
    assert_eq!(ratio(29, 100_000_000), Ratio { num: 200, den: 100 });
    assert_eq!(ratio(29, 100_000_001), Ratio { num: 300, den: 100 });
    assert_eq!(ratio(30, 0), Ratio { num: 260, den: 100 });
    assert_eq!(ratio(150, 0), Ratio { num: 500, den: 100 });
    assert_eq!(ratio(u64::MAX, u64::MAX), Ratio { num: 500, den: 100 });
    for latency in 0..400u64 {
        for speed in [0u64, 200_000_000] {
            let latency_factor = if latency < 30 { 1.0 } else { 1.0 + (latency as f64 / 100.0) };
            let speed_factor = if speed > 100_000_000 { 1.5 } else { 1.0 };
            let float = (2.0 * latency_factor * speed_factor as f64).min(5.0);
            let exact = ratio(latency, speed);
            assert!((exact.num as f64 / exact.den as f64 - float).abs() < 1e-12);
        }
    }
}

#[test]
fn ratios_compare_exactly() {
    assert!(!Ratio { num: 4, den: 80 }.is_below(5, 100));
    assert!(Ratio { num: 1, den: 160 }.is_below(1, 100));
    assert!(!Ratio { num: 2, den: 160 }.is_below(1, 100));
    assert!(Ratio { num: 3, den: 2 }.is_above(12, 10));
    assert!(!Ratio { num: 6, den: 5 }.is_above(12, 10));
    assert!(Ratio { num: u64::MAX, den: 1 }.is_above(u32::MAX, 1));
}

#[test]
fn strategy_without_ranges() {
    let mut probe = good_probe();
    probe.caps = vec![ServerCapability::KeepAlive];
    let c = select_strategy(&probe, 16);
    assert_eq!(c.strategy, DownloadStrategy::Single);
    assert_eq!((c.thread_count, c.chunk_size, c.concurrent_writes), (1, 16_777_216, 1));
    assert_eq!(c.connection_pool_size, 0);
    assert!(!c.adaptive_chunk_sizing && !c.enable_pipelining && !c.burst_mode);
    assert_eq!(c.prefetch_multiplier, Ratio { num: 1, den: 1 });
}

#[test]
fn strategy_for_a_good_server() {
    let c = select_strategy(&good_probe(), 24);
    assert_eq!(c.strategy, DownloadStrategy::BBROptimized);
    assert_eq!((c.thread_count, c.chunk_size, c.concurrent_writes), (24, 4_000_000, 16));
    assert_eq!(c.connection_pool_size, 32);
    assert!(c.adaptive_chunk_sizing && c.enable_pipelining && c.burst_mode);
    assert_eq!(c.prefetch_multiplier, Ratio { num: 280, den: 100 });
    assert_eq!(select_strategy(&good_probe(), 64).thread_count, 32);
}

#[test]
fn strategy_by_throttle() {
    let with = |throttle: ThrottlePattern, num: u64| {
        let mut p = good_probe();
        p.throttle = throttle;
        p.packet_loss = Ratio { num, den: 100 };
        select_strategy(&p, 8)
    };
    assert_eq!(with(ThrottlePattern::Unthrottled, 1).strategy, DownloadStrategy::Aggressive);
    assert!(!with(ThrottlePattern::Unthrottled, 1).burst_mode);
    assert_eq!(with(ThrottlePattern::HardLimit(3), 0).strategy, DownloadStrategy::HybridStealth);
    assert_eq!(with(ThrottlePattern::TimeBasedThrottle, 0).strategy, DownloadStrategy::Stealth);
    assert_eq!(with(ThrottlePattern::BandwidthCap(9), 0).strategy, DownloadStrategy::Adaptive);
    assert_eq!(with(ThrottlePattern::HighJitter, 0).strategy, DownloadStrategy::Adaptive);
    assert_eq!(with(ThrottlePattern::Unstable, 0).strategy, DownloadStrategy::Adaptive);
    assert_eq!(with(ThrottlePattern::AdaptiveThrottle, 0).strategy, DownloadStrategy::Adaptive);
}

#[test]
fn pool_and_burst_conditions() {
    let mut p = good_probe();
    p.latency_ms = 100;
    assert_eq!(select_strategy(&p, 8).connection_pool_size, 8);
    let mut p = good_probe();
    p.supports_pipelining = false;
    assert_eq!(select_strategy(&p, 8).connection_pool_size, 8);
    let mut p = good_probe();
    p.caps = vec![ServerCapability::RangeSupport];
    assert_eq!(select_strategy(&p, 8).connection_pool_size, 8);
    let mut p = good_probe();
    p.jitter_ms = 30;
    assert!(!select_strategy(&p, 8).burst_mode);
}

fn profile() -> ServerProfile {
    let probe = good_probe();
    let config = select_strategy(&probe, 24);
    probe_result_to_server_profile("example.com".to_string(), &probe, &config, 1_000)
}

#[test]
fn profile_records_a_probe() {
    let p = profile();
    assert_eq!(p.domain, "example.com");
    assert_eq!(p.capabilities, good_probe().caps);
    assert_eq!((p.optimal_threads, p.optimal_chunk, p.avg_speed), (24, 4_000_000, 20_000_000));
    assert_eq!((p.timestamp, p.latency_avg), (1_000, 40));
    assert_eq!(p.packet_loss_rate, NO_LOSS);
    assert_eq!(p.connection_pool_benefit, Ratio { num: 3, den: 2 });
}

#[test]
fn profile_gives_settings_back() {
    let c = profile().to_optimization_config();
    assert_eq!(c.strategy, DownloadStrategy::ConnectionPooled);
    assert_eq!((c.thread_count, c.chunk_size, c.concurrent_writes), (24, 4_000_000, 16));
    assert_eq!(c.connection_pool_size, 32);
    assert!(c.adaptive_chunk_sizing && c.enable_pipelining && c.burst_mode);
    assert_eq!(c.prefetch_multiplier, Ratio { num: 280, den: 100 });
}

#[test]
fn profile_keeps_what_was_selected() {
    for (threads, jitter_ms) in [(1usize, 5u64), (8, 29), (40, 30)] {
        let mut probe = good_probe();
        probe.jitter_ms = jitter_ms;
        let c = select_strategy(&probe, threads);
        let p = probe_result_to_server_profile("example.com".to_string(), &probe, &c, 1_000);
        let back = p.to_optimization_config();
        assert_eq!(back.thread_count, c.thread_count);
        assert_eq!(back.concurrent_writes, c.concurrent_writes);
        assert_eq!(back.prefetch_multiplier, c.prefetch_multiplier);
        assert!(back.burst_mode || !c.burst_mode);
    }
}

#[test]
fn profile_without_pool() {
    let with = |throttle: ThrottlePattern| {
        let mut p = profile();
        p.connection_pool_benefit = Ratio { num: 1, den: 1 };
        p.capabilities = vec![];
        p.throttle = throttle;
        p.to_optimization_config()
    };
    let c = with(ThrottlePattern::Unthrottled);
    assert_eq!(c.strategy, DownloadStrategy::BBROptimized);
    assert_eq!(c.connection_pool_size, 0);
    assert!(!c.enable_pipelining && c.burst_mode);
    assert_eq!(with(ThrottlePattern::HardLimit(2)).strategy, DownloadStrategy::HybridStealth);
    assert!(!with(ThrottlePattern::HardLimit(2)).burst_mode);
    assert_eq!(with(ThrottlePattern::TimeBasedThrottle).strategy, DownloadStrategy::Adaptive);
    assert_eq!(with(ThrottlePattern::Unstable).strategy, DownloadStrategy::Adaptive);
}

#[test]
fn profiles_expire_after_twelve_hours() {
    assert!(load_cached_profile(None, 5).is_none());
    assert!(load_cached_profile(Some(profile()), 1_000).is_some());
    assert!(load_cached_profile(Some(profile()), 1_000 + 43_199).is_some());
    assert!(load_cached_profile(Some(profile()), 1_000 + 43_200).is_none());
}

#[test]
fn cache_files() {
    assert_eq!(clean_domain("ex-ample.com:8080/../x_y"), "ex-ample.com8080..xy");
    assert_eq!(clean_domain("b\u{fc}cher.example"), "b\u{fc}cher.example");
    assert_eq!(cache_file_name("[2001:db8::1]"), "jito_2001db81.json");
    assert_eq!(cache_file_name("Example-1.COM"), "jito_Example-1.COM.json");
    assert_eq!(cache_file_name(""), "jito_.json");
    let once = clean_domain("a b/c");
    assert_eq!(clean_domain(&once), once);
}

#[test]
fn capabilities() {
    let head = HeadFacts {
        http2: true,
        http3: true,
        connection: Some("Close, Keep-Alive".to_string()),
        has_103_header: false,
        has_early_hints_header: true,
        has_server_timing_header: true,
    };
    assert_eq!(
        detect_capabilities(&head, true, true),
        vec![
            ServerCapability::Http2,
            ServerCapability::Http3,
            ServerCapability::KeepAlive,
            ServerCapability::EarlyHints,
            ServerCapability::ServerTiming,
            ServerCapability::RangeSupport,
            ServerCapability::MultiRange,
        ]
    );
    let mut head = quiet_head();
    head.connection = Some("close".to_string());
    head.has_103_header = true;
    let caps = detect_capabilities(&head, false, true);
    assert_eq!(caps, vec![ServerCapability::EarlyHints]);
    assert!(has_capability(&caps, ServerCapability::EarlyHints));
    assert!(!has_capability(&caps, ServerCapability::KeepAlive));
}

#[test]
fn range_checks() {
    assert!(check_ranges(Some(206)));
    assert!(!check_ranges(Some(200)));
    assert!(!check_ranges(None));
    assert!(check_multirange(&Some("multipart/byteranges; boundary=x".to_string())));
    assert!(!check_multirange(&Some("text/html".to_string())));
    assert!(!check_multirange(&None));
}

#[test]
fn pipelining() {
    assert!(check_pipelining_support(&vec![499_999_999, 500_000_000, 500_000_000]));
    assert!(!check_pipelining_support(&vec![500_000_000, 500_000_000, 500_000_000]));
    assert!(!check_pipelining_support(&vec![1, 1]));
    assert_eq!(pipelining_range(0), "bytes=0-1023");
    assert_eq!(pipelining_range(2), "bytes=2048-3071");
}

fn verdict(max_threads: usize) -> Quality {
    Quality {
        max_threads,
        throttle: ThrottlePattern::Unthrottled,
        speed: 16_000_000,
        latency_ms: 60,
        packet_loss: NO_LOSS,
        jitter_ms: 3,
    }
}

#[test]
fn probe_of_a_server_with_ranges() {
    let mut head = quiet_head();
    head.http2 = true;
    let p = probe_server(&head, Some(verdict(200)), true, true, 7);
    assert_eq!(
        p.caps,
        vec![ServerCapability::Http2, ServerCapability::RangeSupport, ServerCapability::MultiRange]
    );
    assert_eq!(p.optimal_concurrent_streams, 128);
    assert_eq!((p.speed_est, p.latency_ms, p.jitter_ms), (16_000_000, 60, 3));
    assert_eq!(p.chunk_size, 1_048_576);
    assert!(p.supports_pipelining);
    head.http2 = false;
    head.http3 = true;
    assert_eq!(probe_server(&head, Some(verdict(300)), true, true, 7).optimal_concurrent_streams, 256);
    head.http3 = false;
    assert_eq!(probe_server(&head, Some(verdict(300)), true, true, 7).optimal_concurrent_streams, 300);
}

#[test]
fn probe_of_a_server_without_ranges() {
    let p = probe_server(&quiet_head(), None, true, false, 77);
    assert_eq!(p.caps, vec![]);
    assert_eq!(p.throttle, ThrottlePattern::Unstable);
    assert_eq!((p.chunk_size, p.speed_est, p.latency_ms, p.jitter_ms), (1_048_576, 0, 77, 0));
    assert_eq!((p.packet_loss, p.optimal_concurrent_streams), (NO_LOSS, 1));
    assert_eq!(select_strategy(&p, 16).strategy, DownloadStrategy::Single);
}

fn report(success: usize, total_latency_ms: u64, elapsed_ns: u64) -> BatchReport {
    BatchReport { success, total_latency_ms, elapsed_ns }
}

/// The verdict on a server that answers every request and takes this long for the batches.
fn verdict_on(elapsed_ns: [u64; 10]) -> Quality {
    let mut probe = QualityProbe::new();
    for ns in elapsed_ns {
        let b = probe.next_batch();
        if let Some(q) = probe.record(report(b.count, 10 * b.count as u64, ns)) {
            return q;
        }
    }
    unreachable!()
}

#[test]
fn batches_are_reported() {
    assert_eq!(batch_report(&vec![], 5), report(0, 0, 5));
    assert_eq!(batch_report(&vec![None, None], 5), report(0, 0, 5));
    // Added up first, then rounded down.
    let latencies = vec![Some(1_600_000), None, Some(1_500_000), Some(899_999)];
    assert_eq!(batch_report(&latencies, 7_000_000), report(3, 3, 7_000_000));
    let longest = vec![Some(u64::MAX); 16];
    assert_eq!(batch_report(&longest, 0), report(16, 295_147_905_179_352, 0));
}

#[test]
fn batches_grow() {
    let mut probe = QualityProbe::new();
    let mut seen = vec![];
    loop {
        let b = probe.next_batch();
        seen.push((b.count, b.probe_size));
        if probe.record(report(b.count, 20, 1_000)).is_some() {
            break;
        }
    }
    assert_eq!(
        seen,
        vec![
            (2, 20480), (4, 20480), (8, 20480), (16, 20480), (2, 40960), (4, 40960), (8, 40960),
            (2, 81920), (4, 81920), (8, 81920),
        ]
    );
    let b = QualityProbe::new().next_batch();
    assert_eq!(batch_range(&b, 0), "bytes=0-20479");
    assert_eq!(batch_range(&b, 1), "bytes=20480-40959");
}

#[test]
fn clean_server() {
    let mut probe = QualityProbe::new();
    let mut last = None;
    for i in 0..10u64 {
        let b = probe.next_batch();
        last = probe.record(report(b.count, b.count as u64 * (40 + i), 1_000_000_000 + i));
        assert_eq!(last.is_some(), i == 9);
    }
    let q = last.unwrap();
    assert_eq!((q.max_threads, q.throttle), (32, ThrottlePattern::Unthrottled));
    assert_eq!((q.speed, q.latency_ms, q.jitter_ms), (655_359, 44, 1));
    assert_eq!(q.packet_loss, Ratio { num: 0, den: 160 });
}

#[test]
fn degradation_caps_the_threads() {
    let mut probe = QualityProbe::new();
    assert!(probe.record(report(2, 100, 1_100_000_000)).is_none());
    // Each connection at exactly 55 % of the baseline's, then a little above.
    assert!(probe.record(report(4, 240, 2_000_000_000)).is_none());
    assert!(probe.record(report(8, 100, 1_900_000_000)).is_none());
    let q = probe.record(report(16, 1600, 2_000_000_001)).unwrap();
    assert_eq!((q.max_threads, q.throttle), (8, ThrottlePattern::BandwidthCap(163_839)));
    assert_eq!((q.speed, q.latency_ms), (163_839, 100));
    // Latencies before the last batch: 50, 60, 12.
    assert_eq!(q.jitter_ms, (10 + 48) / 2);
}

#[test]
fn constant_bandwidth_is_a_cap() {
    // Four connections move no more than two did.
    let q = verdict_on([1_000, 2_000, 0, 0, 0, 0, 0, 0, 0, 0]);
    assert_eq!(q.max_threads, 4);
    assert_eq!(q.throttle, ThrottlePattern::BandwidthCap(40_960_000_000));
}

#[test]
fn proportional_growth_is_no_cap() {
    // In each round the batches take equally long, whatever their width.
    let q = verdict_on([7, 7, 7, 7, 14, 14, 14, 28, 28, 28]);
    assert_eq!((q.max_threads, q.throttle), (32, ThrottlePattern::Unthrottled));
    // Down to 55 % per connection is not held against the server.
    let q = verdict_on([11, 20, 20, 20, 11, 20, 20, 11, 20, 20]);
    assert_eq!((q.max_threads, q.throttle), (32, ThrottlePattern::Unthrottled));
    let q = verdict_on([11, 20, 21, 20, 11, 20, 20, 11, 20, 20]);
    assert!(matches!(q.throttle, ThrottlePattern::BandwidthCap(_)));
}

#[test]
fn slowing_down_over_time_is_noticed() {
    // A hundredth of the speed from round to round.
    let (a, b, c): (u64, u64, u64) = (1_000_000, 200_000_000, 40_000_000_000);
    let q = verdict_on([a, a, a, a, b, b, b, c, c, c]);
    assert_eq!(q.throttle, ThrottlePattern::TimeBasedThrottle);
    assert_eq!((q.max_threads, q.speed), (32, 16_384));
    let mut probe = good_probe();
    probe.throttle = q.throttle;
    assert_eq!(select_strategy(&probe, 16).strategy, DownloadStrategy::Stealth);
    let throttle = |b: u64, c: u64| verdict_on([11, 11, 11, 11, b, b, b, c, c, c]).throttle;
    assert_eq!(throttle(41, 150), ThrottlePattern::TimeBasedThrottle);
    assert_eq!(throttle(41, 149), ThrottlePattern::Unthrottled);
    // Exactly 55 % is not below.
    assert_eq!(throttle(40, 150), ThrottlePattern::Unthrottled);
    assert_eq!(throttle(0, 150), ThrottlePattern::Unthrottled);
}

#[test]
fn lost_requests_do_not_hide_slowing_down() {
    let mut probe = QualityProbe::new();
    let mut last = None;
    for i in 0..10u32 {
        let b = probe.next_batch();
        let success = if i == 1 { b.count - 1 } else { b.count };
        let ns = 1_000_000 * 10u64.pow(if i < 4 { 0 } else if i < 7 { 1 } else { 2 });
        last = probe.record(report(success, 10, ns));
    }
    let q = last.unwrap();
    assert_eq!(q.packet_loss, Ratio { num: 4, den: 160 });
    assert_eq!((q.max_threads, q.throttle), (16, ThrottlePattern::TimeBasedThrottle));
}

#[test]
fn degradation_needs_a_baseline_that_moved() {
    let mut probe = QualityProbe::new();
    assert!(probe.record(report(0, 0, 1_000)).is_none());
    assert!(probe.record(report(4, 40, u64::MAX)).is_none());
    let mut probe = QualityProbe::new();
    assert!(probe.record(report(2, 0, 0)).is_none());
    assert!(probe.record(report(4, 40, u64::MAX)).is_none());
    let mut probe = QualityProbe::new();
    assert!(probe.record(report(2, 0, 1)).is_none());
    assert!(probe.record(report(4, 40, u64::MAX)).is_some());
}

#[test]
fn third_shortfall_is_a_hard_limit() {
    let mut probe = QualityProbe::new();
    assert!(probe.record(report(2, 20, 3_000_000_000)).is_none());
    assert!(probe.record(report(3, 20, 3_000_000_000)).is_none());
    assert!(probe.record(report(6, 20, 3_000_000_000)).is_none());
    let q = probe.record(report(8, 20, 3_000_000_000)).unwrap();
    assert_eq!((q.max_threads, q.throttle), (8, ThrottlePattern::HardLimit(8)));
    assert_eq!((q.speed, q.latency_ms, q.jitter_ms), (13_653, 100, 50));
    // A quarter, a quarter and a half, over four batches.
    assert_eq!(q.packet_loss, Ratio { num: 16, den: 64 });
}

#[test]
fn lossy_and_unsteady_servers() {
    let run = |short: usize, wobble: u64| {
        let mut probe = QualityProbe::new();
        for i in 0..10u64 {
            let b = probe.next_batch();
            let success = if (i as usize) < short { b.count - 1 } else { b.count };
            let latency = if i % 2 == 0 { 100 } else { 100 + wobble };
            let done = probe.record(report(success, latency * success as u64, 1_000));
            if done.is_some() {
                return done.unwrap();
            }
        }
        unreachable!()
    };
    let q = run(0, 30);
    assert_eq!((q.max_threads, q.throttle, q.jitter_ms), (16, ThrottlePattern::Unthrottled, 30));
    // Half a batch lost out of ten: five parts in a hundred is not below five.
    let q = run(1, 0);
    assert_eq!(q.packet_loss, Ratio { num: 8, den: 160 });
    assert_eq!((q.max_threads, q.throttle), (8, ThrottlePattern::AdaptiveThrottle));
}

#[test]
fn untimed_batches_leave_defaults() {
    let mut probe = QualityProbe::new();
    let mut last = None;
    for _ in 0..10 {
        let b = probe.next_batch();
        last = probe.record(report(b.count, 9, 0));
    }
    let q = last.unwrap();
    assert_eq!((q.speed, q.latency_ms, q.jitter_ms, q.max_threads), (0, 50, 0, 32));
}

struct FloatVerdict {
    max_threads: usize,
    throttle: ThrottlePattern,
    speed: u64,
    latency_ms: u64,
    packet_loss: f64,
    jitter_ms: u64,
}

/// The judgement in floating point.
fn float_verdict(reports: &[BatchReport]) -> FloatVerdict {
    let mut speeds: Vec<f64> = vec![];
    let mut baselines: Vec<f64> = vec![];
    let mut latencies: Vec<u64> = vec![];
    let mut losses: Vec<f64> = vec![];
    let mut errors = 0;
    let mut base_speed = 0.0;
    let mut k = 0;
    let mean = |losses: &Vec<f64>| losses.iter().sum::<f64>() / losses.len() as f64;
    for round in 0..3 {
        for count in [2usize, 4, 8, 16] {
            if round > 0 && count > 8 {
                continue;
            }
            let b = reports[k];
            k += 1;
            let cut = std::cmp::max(4, count / 2);
            losses.push(1.0 - (b.success as f64 / count as f64));
            if b.success < count {
                errors += 1;
                if errors > 2 {
                    return FloatVerdict {
                        max_threads: cut,
                        throttle: ThrottlePattern::HardLimit(b.success),
                        speed: base_speed as u64,
                        latency_ms: 100,
                        packet_loss: mean(&losses),
                        jitter_ms: 50,
                    };
                }
            }
            if b.elapsed_ns > 0 {
                let probe_size = 20480u64 << round;
                let seconds = b.elapsed_ns as f64 / 1e9;
                let speed = (b.success as f64 * probe_size as f64) / seconds;
                let latency = b.total_latency_ms / std::cmp::max(b.success, 1) as u64;
                if count == 2 {
                    base_speed = speed;
                    baselines.push(speed);
                }
                if count > 2 && base_speed > 0.0 {
                    let scaling = (speed / count as f64) / (base_speed / 2.0);
                    if scaling < 0.55 {
                        return FloatVerdict {
                            max_threads: cut,
                            throttle: ThrottlePattern::BandwidthCap(speed as u64),
                            speed: speed as u64,
                            latency_ms: latency,
                            packet_loss: mean(&losses),
                            jitter_ms: calculate_jitter(&latencies),
                        };
                    }
                }
                speeds.push(speed);
                latencies.push(latency);
            }
        }
    }
    let packet_loss = mean(&losses);
    let jitter_ms = calculate_jitter(&latencies);
    let slows = baselines.len() == 3
        && baselines[1] < 0.55 * baselines[0]
        && baselines[2] < 0.55 * baselines[1];
    FloatVerdict {
        max_threads: if packet_loss < 0.01 && jitter_ms < 30 {
            32
        } else if packet_loss < 0.05 {
            16
        } else {
            8
        },
        throttle: if slows {
            ThrottlePattern::TimeBasedThrottle
        } else if packet_loss < 0.01 {
            ThrottlePattern::Unthrottled
        } else {
            ThrottlePattern::AdaptiveThrottle
        },
        speed: *speeds.last().unwrap_or(&0.0) as u64,
        latency_ms: if latencies.is_empty() {
            50
        } else {
            latencies.iter().sum::<u64>() / latencies.len() as u64
        },
        packet_loss,
        jitter_ms,
    }
}

#[test]
fn verdicts_agree_with_floating_point() {
    let mut x: u64 = 99;
    let mut next = |n: u64| {
        x = x.wrapping_mul(6364136223846793005).wrapping_add(1442695040888963407);
        (x >> 33) % n
    };
    let counts = [2usize, 4, 8, 16, 2, 4, 8, 2, 4, 8];
    let mut kinds = [0u32; 5];
    for _ in 0..20_000 {
        let odds = 1 + next(20);
        let spread = 1 + next(60);
        let slowdown = 1 + next(9);
        let noise = 1 + next(1_500_000);
        let reports: Vec<BatchReport> = counts
            .iter()
            .enumerate()
            .map(|(k, &count)| {
                let success =
                    if next(odds) == 0 { count - next(count as u64 + 1) as usize } else { count };
                let round = if k < 4 { 0 } else if k < 7 { 1 } else { 2 };
                let elapsed_ns = if next(30) == 0 {
                    0
                } else {
                    slowdown.pow(round) * (1_000_003 + next(noise))
                };
                report(success, success as u64 * (20 + next(spread)), elapsed_ns)
            })
            .collect();
        let expected = float_verdict(&reports);
        let mut probe = QualityProbe::new();
        let mut q = None;
        for r in &reports {
            q = probe.record(*r);
            if q.is_some() {
                break;
            }
        }
        let q = q.unwrap();
        // A speed in floating point can be off in the last unit.
        assert!(q.speed.abs_diff(expected.speed) <= 1);
        match (q.throttle, expected.throttle) {
            (ThrottlePattern::BandwidthCap(a), ThrottlePattern::BandwidthCap(b)) => {
                assert_eq!(a, q.speed);
                assert!(a.abs_diff(b) <= 1);
            }
            (a, b) => assert_eq!(a, b),
        }
        kinds[match q.throttle {
            ThrottlePattern::HardLimit(_) => 0,
            ThrottlePattern::BandwidthCap(_) => 1,
            ThrottlePattern::TimeBasedThrottle => 2,
            ThrottlePattern::AdaptiveThrottle => 3,
            _ => 4,
        }] += 1;
        assert_eq!(q.max_threads, expected.max_threads);
        assert_eq!((q.latency_ms, q.jitter_ms), (expected.latency_ms, expected.jitter_ms));
        assert_eq!(q.packet_loss.num as f64 / q.packet_loss.den as f64, expected.packet_loss);
        assert!(4 <= q.max_threads && q.max_threads <= 32);
        assert!(q.packet_loss.num <= q.packet_loss.den);
    }
    assert!(kinds.iter().all(|&n| n > 50));
}

fn optimized() -> Option<OptimizationConfig> {
    Some(select_strategy(&good_probe(), 24))
}

#[test]
fn client_for_a_session() {
    let c = client_settings(16, &None);
    assert_eq!((c.threads, c.pool_size, c.http2_optimizations), (16, 32, true));
    let c = client_settings(8, &optimized());
    assert_eq!((c.threads, c.pool_size, c.http2_optimizations), (24, 32, true));
    let c = client_settings(100, &optimized());
    assert_eq!((c.threads, c.pool_size), (24, 200));
}

#[test]
fn transfer_for_a_session() {
    let t = transfer_settings(4, 1_000_000_000, 16, &None);
    assert_eq!((t.concurrent_writes, t.chunk_size), (4, 15_625_000));
    assert!(!t.adaptive_chunk_sizing && !t.burst_mode);
    let t = transfer_settings(4, 1_000_000_000, 0, &optimized());
    assert_eq!((t.concurrent_writes, t.chunk_size), (16, 4_000_000));
    assert!(t.adaptive_chunk_sizing && t.burst_mode);
    let d = download_config(true, 7, &t);
    assert!(!d.allow_resume && d.burst_mode);
    assert_eq!((d.max_concurrent_writes, d.max_retries), (16, 7));
}

#[test]
fn default_ranges_fit() {
    let total = u64::MAX - 67_108_864;
    let t = transfer_settings(4, total, 128, &None);
    assert_eq!(t.chunk_size, 67_108_864);
    assert!(((total - 1) / t.chunk_size * t.chunk_size).checked_add(t.chunk_size).is_some());
    let small = transfer_settings(4, 6_000_000, 128, &None);
    assert_eq!(plan_chunks(6_000_000, small.chunk_size).len(), 6);
}

#[test]
fn modes_of_transfer() {
    let info = |total_size: u64, supports_ranges: bool| DownloadInfo { total_size, supports_ranges };
    assert_eq!(transfer_mode(&info(6_000_000, true), 4), TransferMode::MultiStream);
    assert_eq!(transfer_mode(&info(6_000_000, false), 4), TransferMode::SingleStream);
    assert_eq!(transfer_mode(&info(6_000_000, true), 1), TransferMode::SingleStream);
    assert_eq!(transfer_mode(&info(5_242_880, true), 4), TransferMode::SingleStream);
    assert_eq!(transfer_mode(&info(0, true), 4), TransferMode::UnknownSize);
    assert!(falls_back_to_single_stream(&info(9, false), 2));
    assert!(!falls_back_to_single_stream(&info(9, true), 2));
    assert!(!falls_back_to_single_stream(&info(9, false), 1));
}
