use jito_downloader::error::{TransferError, ValidationError};
use jito_downloader::link::ParsedUrl;
use jito_downloader::logic::{
    calculate_optimal_chunk_size, extract_filename_from_url, finalize_download, format_file_size,
    sanitize_filename, should_use_multi_stream, validate_concurrent_writes, validate_file_size,
    validate_parsed_url, validate_path, validate_retries, validate_thread_count, validate_timeout,
    validate_url, verify_file_size, FinalizeStep,
};
use jito_downloader::ratio::Ratio;

fn link(scheme: &str, host: Option<&str>) -> ParsedUrl {
    ParsedUrl { scheme: scheme.to_string(), host: host.map(|h| h.to_string()), segments: None }
}

fn filename(text: &str) -> String {
    extract_filename_from_url(&ParsedUrl::parse(text).unwrap())
}

#[test]
fn public_links_are_accepted() {
    assert_eq!(validate_url("https://example.com/file.iso"), Ok(()));
    assert_eq!(validate_url("HTTP://Example.COM"), Ok(()));
    assert_eq!(validate_url("http://172.15.0.1/"), Ok(()));
    assert_eq!(validate_url("http://172.32.0.1/"), Ok(()));
    assert_eq!(validate_url("http://8.8.8.8/"), Ok(()));
    assert_eq!(validate_url("http://[2001:db8::1]/"), Ok(()));
    assert_eq!(validate_url("http://[fc::1]/"), Ok(()));
    assert_eq!(validate_url("http://[fbff::1]/"), Ok(()));
    assert_eq!(validate_url("http://[fe7f::1]/"), Ok(()));
    assert_eq!(validate_url("http://[fec0::1]/"), Ok(()));
    assert_eq!(validate_url("http://[::2]/"), Ok(()));
    assert_eq!(validate_url("http://[::ffff:8.8.8.8]/"), Ok(()));
    assert_eq!(validate_url("http://[::ffff:172.32.0.1]/"), Ok(()));
    assert_eq!(validate_url("http://[::ffff:0.0.0.1]/"), Ok(()));
    // The unspecified address is neither a loopback address nor private.
    assert_eq!(validate_url("http://0.0.0.0/"), Ok(()));
    assert_eq!(validate_url("http://0/"), Ok(()));
    assert_eq!(validate_url("http://[::]/"), Ok(()));
    assert_eq!(validate_url("http://[::ffff:0.0.0.0]/"), Ok(()));
    assert_eq!(validate_url("http://0.0.0.1/"), Ok(()));
    assert_eq!(validate_url("http://0.pool.example.org/"), Ok(()));
}

#[test]
fn text_that_is_no_url_is_refused() {
    assert_eq!(validate_url("not a url"), Err(ValidationError::InvalidUrl));
    assert_eq!(validate_url(""), Err(ValidationError::InvalidUrl));
    assert_eq!(ParsedUrl::parse("//example.com").err(), Some(ValidationError::InvalidUrl));
}

#[test]
fn other_schemes_are_refused() {
    assert_eq!(validate_url("ftp://example.com/a"), Err(ValidationError::UnsupportedScheme));
    assert_eq!(validate_url("file:///etc/passwd"), Err(ValidationError::UnsupportedScheme));
    assert_eq!(validate_url("data:text/plain,hi"), Err(ValidationError::UnsupportedScheme));
    // The scheme is looked at before the host.
    assert_eq!(validate_url("ftp://localhost/a"), Err(ValidationError::UnsupportedScheme));
}

#[test]
fn loopback_is_refused() {
    assert_eq!(validate_url("http://localhost/"), Err(ValidationError::LoopbackHost));
    assert_eq!(validate_url("http://LOCALHOST:8080/"), Err(ValidationError::LoopbackHost));
    assert_eq!(validate_url("http://127.0.0.1/"), Err(ValidationError::LoopbackHost));
    assert_eq!(validate_url("http://127.9.8.7/"), Err(ValidationError::LoopbackHost));
    // One number is an IPv4 address too.
    assert_eq!(validate_url("http://2130706433/"), Err(ValidationError::LoopbackHost));
    assert_eq!(validate_url("http://[::1]/"), Err(ValidationError::LoopbackHost));
    assert_eq!(validate_parsed_url(&link("http", Some("::1"))), Err(ValidationError::LoopbackHost));
    for host in [
        "[0:0:0:0:0:0:0:1]",
        "[::ffff:127.0.0.1]",
        "[::FFFF:7F12:0]",
        "[0:0:0:0:0:ffff:127.255.0.9]",
    ] {
        let text = format!("http://{}/x", host);
        assert_eq!(validate_url(&text), Err(ValidationError::LoopbackHost), "{}", host);
    }
}

#[test]
fn private_networks_are_refused() {
    for host in ["192.168.1.1", "10.0.0.1", "169.254.1.1", "172.16.0.1", "172.31.255.255"] {
        let text = format!("https://[::ffff:{}]/x", host);
        assert_eq!(validate_url(&text), Err(ValidationError::PrivateHost), "{}", host);
        let text = format!("https://{}/x", host);
        assert_eq!(validate_url(&text), Err(ValidationError::PrivateHost), "{}", host);
    }
}

#[test]
fn private_ipv6_networks_are_refused() {
    for host in ["fc00::", "FD00::1", "fdff:1:2:3:4:5:6:7", "fe80::1", "febf::abcd"] {
        let text = format!("https://[{}]:8443/x", host);
        assert_eq!(validate_url(&text), Err(ValidationError::PrivateHost), "{}", host);
    }
    let verdict = |host: &str| validate_parsed_url(&link("http", Some(host)));
    assert_eq!(verdict("fd00::1"), Ok(()));
    assert_eq!(verdict("[fd00"), Ok(()));
    assert_eq!(verdict("[fd00g:1]"), Ok(()));
    assert_eq!(verdict("[::ffff:a00:1"), Ok(()));
    assert_eq!(verdict("[::ffff:a00]"), Ok(()));
    assert_eq!(verdict("["), Ok(()));
}

#[test]
fn mapped_addresses_are_judged_alike() {
    for a in [0u32, 1, 9, 10, 11, 126, 127, 128, 169, 172, 192, 255] {
        for b in [0u32, 15, 16, 31, 32, 168, 169, 253, 254, 255] {
            for rest in ["0.0", "0.1", "255.255"] {
                let dotted = format!("{}.{}.{}", a, b, rest);
                assert_eq!(
                    validate_url(&format!("http://{}/", dotted)),
                    validate_url(&format!("http://[::ffff:{}]/", dotted)),
                    "{}",
                    dotted
                );
            }
        }
    }
}

#[test]
fn second_label_decides_for_172() {
    let verdict = |host: &str| validate_parsed_url(&link("http", Some(host)));
    assert_eq!(verdict("172.16.x"), Err(ValidationError::PrivateHost));
    assert_eq!(verdict("172.+20.x"), Err(ValidationError::PrivateHost));
    assert_eq!(verdict("172.020"), Err(ValidationError::PrivateHost));
    assert_eq!(verdict("172.272.0.1"), Ok(()));
    assert_eq!(verdict("172..16"), Ok(()));
    assert_eq!(verdict("172."), Ok(()));
    assert_eq!(verdict("172"), Ok(()));
    assert_eq!(verdict("172.16x.0"), Ok(()));
    assert_eq!(verdict("192.168"), Ok(()));
}

#[test]
fn link_without_host_is_accepted() {
    assert_eq!(validate_parsed_url(&link("https", None)), Ok(()));
    assert_eq!(link("https", None).domain(), "unknown");
    assert_eq!(ParsedUrl::parse("https://Example.com/").unwrap().domain(), "example.com");
}

#[test]
fn paths_that_climb_are_refused() {
    assert_eq!(validate_path("../etc/passwd", false), Err(ValidationError::PathTraversal));
    assert_eq!(validate_path("a..b", false), Err(ValidationError::PathTraversal));
    assert_eq!(validate_path("dir/..", true), Err(ValidationError::PathTraversal));
    assert_eq!(validate_path("dir/file.bin", false), Ok(()));
    assert_eq!(validate_path(".", false), Ok(()));
    assert_eq!(validate_path("", true), Ok(()));
}

#[test]
fn characters_that_windows_forbids() {
    for c in ['<', '>', '"', '|', '?', '*', '\0'] {
        let path = format!("a{}b", c);
        assert_eq!(validate_path(&path, true), Err(ValidationError::InvalidPathCharacters));
        assert_eq!(validate_path(&path, false), Ok(()));
    }
    assert_eq!(validate_path("C:\\dir/file", true), Ok(()));
}

#[test]
fn option_bounds() {
    assert_eq!(validate_thread_count(0), Err(ValidationError::ThreadCountOutOfRange));
    assert_eq!(validate_thread_count(1), Ok(()));
    assert_eq!(validate_thread_count(128), Ok(()));
    assert_eq!(validate_thread_count(129), Err(ValidationError::ThreadCountOutOfRange));
    assert_eq!(validate_concurrent_writes(0), Err(ValidationError::ConcurrentWritesOutOfRange));
    assert_eq!(validate_concurrent_writes(64), Ok(()));
    assert_eq!(validate_concurrent_writes(65), Err(ValidationError::ConcurrentWritesOutOfRange));
    assert_eq!(validate_retries(0), Ok(()));
    assert_eq!(validate_retries(100), Ok(()));
    assert_eq!(validate_retries(101), Err(ValidationError::TooManyRetries));
    assert_eq!(validate_file_size(10, 10), Ok(()));
    assert_eq!(
        validate_file_size(11, 10),
        Err(ValidationError::FileTooLarge { size: 11, max_size: 10 })
    );
}

#[test]
fn timeout_bounds() {
    let seconds = |num: u64, den: u64| validate_timeout(Ratio { num, den });
    assert_eq!(seconds(0, 1), Err(ValidationError::TimeoutOutOfRange));
    assert_eq!(seconds(1, 1_000_000), Ok(()));
    assert_eq!(seconds(7200, 1), Ok(()));
    assert_eq!(seconds(14401, 2), Err(ValidationError::TimeoutOutOfRange));
    assert_eq!(seconds(u64::MAX, 1), Err(ValidationError::TimeoutOutOfRange));
}

#[test]
fn messages() {
    let pairs = [
        (ValidationError::InvalidUrl, "Invalid URL format"),
        (ValidationError::UnsupportedScheme, "Only HTTP and HTTPS protocols are allowed"),
        (ValidationError::LoopbackHost, "Localhost/Loopback addresses are restricted"),
        (ValidationError::PrivateHost, "Private network addresses are restricted"),
        (ValidationError::PathTraversal, "Path traversal detected"),
        (ValidationError::InvalidPathCharacters, "Path contains invalid characters"),
        (ValidationError::ThreadCountOutOfRange, "Thread count must be between 1 and 128"),
        (
            ValidationError::FileTooLarge { size: 10737418241, max_size: 10737418240 },
            "File size 10737418241 exceeds maximum allowed 10737418240",
        ),
        (ValidationError::TimeoutOutOfRange, "Timeout must be between 0 and 7200 seconds"),
        (ValidationError::ConcurrentWritesOutOfRange, "Concurrent writes must be between 1 and 64"),
        (ValidationError::TooManyRetries, "Retries cannot exceed 100"),
        (ValidationError::MetadataUnreadable, "Failed to read file metadata for verification"),
        (
            ValidationError::SizeMismatch { expected: u64::MAX, found: 0 },
            "Integrity Check Failed: Expected 18446744073709551615 bytes, found 0 bytes",
        ),
    ];
    for (error, text) in pairs {
        assert_eq!(error.message(), text);
    }
    assert_eq!(
        TransferError::RangeRetriesExhausted { start: 0, end: 1023 }.message(),
        "Max retries exceeded for chunk range 0-1023"
    );
    assert_eq!(
        TransferError::StreamRetriesExhausted { retries: 10 }.message(),
        "Failed single-stream download after 10 retries"
    );
}

#[test]
fn filename_is_the_last_segment() {
    assert_eq!(filename("https://example.com/a/b/archive-1.2_x.tar.gz"), "archive-1.2_x.tar.gz");
    assert_eq!(filename("https://example.com/a/b.zip?x=1#y"), "b.zip");
    assert_eq!(filename("https://example.com"), "download");
    assert_eq!(filename("https://example.com/dir/"), "download");
    assert_eq!(filename("data:text/plain,hi"), "download");
}

#[test]
fn filename_is_decoded_and_made_safe() {
    assert_eq!(filename("https://example.com/my%20file%281%29.txt"), "my_file_1_.txt");
    assert_eq!(filename("https://example.com/..%2F..%2Fetc"), ".._.._etc");
    assert_eq!(filename("https://example.com/vi%E1%BB%87t.txt"), "vi\u{1ec7}t.txt");
    // Bytes that are no UTF-8 are left as they were written.
    assert_eq!(filename("https://example.com/%FF%FE"), "_FF_FE");
    assert_eq!(filename("https://example.com/100%25"), "100_");
}

#[test]
fn filename_is_never_a_directory() {
    for path in [
        "..", "a/..", "a/../..", ".", "a/.", "%2e", "%2E", "%2e%2e", "%2E.", ".%2e", "a/%2E%2e",
        "C:/..", "a\\..", "a/.\t.",
    ] {
        let name = filename(&format!("https://example.com/{}", path));
        assert_eq!(name, "download", "{}", path);
    }
    assert_eq!(filename("http://example.com/a/../b"), "b");
    assert_eq!(filename("http://example.com/..."), "...");
    assert_eq!(filename("http://example.com/%252e"), "_2e");
    let mut url = link("https", None);
    url.segments = Some(vec!["%2e%2e".to_string()]);
    assert_eq!(extract_filename_from_url(&url), "..");
}

#[test]
fn names_without_segments() {
    let mut url = link("https", Some("example.com"));
    assert_eq!(extract_filename_from_url(&url), "download");
    url.segments = Some(vec![]);
    assert_eq!(extract_filename_from_url(&url), "download");
    url.segments = Some(vec!["a".to_string(), "".to_string()]);
    assert_eq!(extract_filename_from_url(&url), "download");
    url.segments = Some(vec!["a".to_string(), "b.c".to_string()]);
    assert_eq!(extract_filename_from_url(&url), "b.c");
}

#[test]
fn sanitizing() {
    assert_eq!(sanitize_filename(""), "download.bin");
    assert_eq!(sanitize_filename("a/b\\c:d*e"), "a_b_c_d_e");
    assert_eq!(sanitize_filename("\u{e9}\u{4e2d}\u{ff11}-x_.y"), "\u{e9}\u{4e2d}\u{ff11}-x_.y");
    let once = sanitize_filename("a b\tc/..");
    assert_eq!(sanitize_filename(&once), once);
    assert_eq!(validate_path(&once, true), Err(ValidationError::PathTraversal));
    assert_eq!(validate_path(&sanitize_filename("a<b>|?*.txt"), true), Ok(()));
}

#[test]
fn integrity_check() {
    assert_eq!(verify_file_size(Some(5), 5), Ok(()));
    assert_eq!(
        verify_file_size(Some(4), 5),
        Err(ValidationError::SizeMismatch { expected: 5, found: 4 })
    );
    assert_eq!(verify_file_size(None, 5), Err(ValidationError::MetadataUnreadable));
    assert_eq!(verify_file_size(None, 0), Ok(()));
    assert_eq!(verify_file_size(Some(7), 0), Ok(()));
}

#[test]
fn finalizing() {
    assert_eq!(finalize_download(false), vec![FinalizeStep::Rename]);
    assert_eq!(finalize_download(true), vec![FinalizeStep::RemoveExisting, FinalizeStep::Rename]);
}

#[test]
fn multi_stream_threshold() {
    assert!(!should_use_multi_stream(5_242_880, 16));
    assert!(should_use_multi_stream(5_242_881, 2));
    assert!(!should_use_multi_stream(5_242_881, 1));
}

#[test]
fn default_chunk_size() {
    assert_eq!(calculate_optimal_chunk_size(0, 16), 1_048_576);
    assert_eq!(calculate_optimal_chunk_size(1_000_000_000, 16), 15_625_000);
    assert_eq!(calculate_optimal_chunk_size(u64::MAX, 1), 67_108_864);
}

#[test]
fn sizes_as_text() {
    assert_eq!(format_file_size(0), "0 B");
    assert_eq!(format_file_size(1023), "1023 B");
    assert_eq!(format_file_size(1024), "1.00 KB");
    assert_eq!(format_file_size(1536), "1.50 KB");
    assert_eq!(format_file_size(1152), "1.12 KB");
    assert_eq!(format_file_size(1408), "1.38 KB");
    assert_eq!(format_file_size(1048575), "1024.00 KB");
    assert_eq!(format_file_size(1048576), "1.00 MB");
    assert_eq!(format_file_size(1073741824), "1.00 GB");
    assert_eq!(format_file_size(10737418240), "10.00 GB");
    assert_eq!(format_file_size((1 << 50) - 4), "1024.00 TB");
    assert_eq!(format_file_size((1 << 50) - 3), "1.00 PB");
    assert_eq!(format_file_size((1 << 50) - 1), "1.00 PB");
    assert_eq!(format_file_size((1 << 60) - 6209), "1024.00 PB");
    assert_eq!(format_file_size((1 << 60) - 6208), "1.00 EB");
    assert_eq!(format_file_size((1 << 60) - 1), "1.00 EB");
    assert_eq!(format_file_size(1 << 60), "1.00 EB");
    assert_eq!(format_file_size(u64::MAX), "16.00 EB");
}

/// The size in floating point.
fn float_size(bytes: u64) -> String {
    if bytes < 1024 {
        return format!("{} B", bytes);
    }
    let exp = (bytes as f64).ln() / 1024.0f64.ln();
    let pre = "KMGTPE".chars().nth(exp as usize - 1).unwrap_or('?');
    format!("{:.2} {}B", (bytes as f64) / 1024.0f64.powi(exp as i32), pre)
}

#[test]
fn sizes_agree_with_floating_point() {
    for bytes in 0..70_000u64 {
        assert_eq!(format_file_size(bytes), float_size(bytes));
    }
    let mut x: u64 = 0x9E37_79B9_7F4A_7C15;
    for i in 0..40_000u32 {
        x = x.wrapping_mul(6364136223846793005).wrapping_add(1442695040888963407);
        let bytes = x >> (i % 64);
        assert_eq!(format_file_size(bytes), float_size(bytes), "{}", bytes);
    }
    for shift in 10..64u32 {
        for eighth in 8..16u64 {
            for delta in [0u64, 1, 2, 64] {
                let bytes = ((eighth as u128) << shift >> 3) as u64 + delta;
                assert_eq!(format_file_size(bytes), float_size(bytes), "{}", bytes);
            }
        }
    }
    for shift in [20u32, 30, 40, 50, 60] {
        let near = (1..200u64).chain((0..40_000).step_by(37));
        for delta in near.chain([64, 65, 6143, 6144, 6145, 6207, 6208, 6209, 6272]) {
            let bytes = (1u64 << shift) - delta;
            assert_eq!(format_file_size(bytes), float_size(bytes), "{}", bytes);
        }
    }
}
