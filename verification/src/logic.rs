//! Validation: which links, paths and options are accepted, what a file is called and how its
//! size is checked and shown.
use vstd::prelude::*;
use vstd::string::*;

use crate::address::{loopback_ipv6, private_ipv6};
use crate::error::ValidationError;
use crate::link::{percent_decode, ParsedUrl};
use crate::ratio::Ratio;
use crate::text::{
    chars_of, has_prefix, has_text, parse_u64, part_of, position_from, push_decimal, same_text,
    string_of,
};

verus! {

pub const MAX_THREADS: usize = 128;

pub const MAX_CONCURRENT_WRITES: usize = 64;

pub const MAX_RETRIES: u32 = 100;

/// The longest timeout, in seconds: two hours.
pub const MAX_TIMEOUT_SECS: u32 = 7200;

/// Files up to this many bytes are fetched over one connection: 5 MiB.
pub const MULTI_STREAM_THRESHOLD: u64 = 5_242_880;

/// No range is smaller than this by default: 1 MiB.
pub const MIN_CHUNK_SIZE: u64 = 1_048_576;

/// No range is larger than this by default: 64 MiB.
pub const MAX_CHUNK_SIZE: u64 = 67_108_864;

/// How many ranges each thread is to work through by default.
pub const CHUNKS_PER_THREAD: usize = 4;

/// Whether a host spells a loopback address: `localhost`, a name or an address that begins with
/// `127.`, or a loopback address of IPv6; `::1` also without the brackets that it has in a URL.
pub open spec fn is_loopback_host(h: Seq<char>) -> bool {
    h == "localhost"@ || crate::text::begins_with(h, "127."@) || h == "::1"@
        || crate::address::is_loopback_ipv6(h)
}

/// The second of the dot-separated labels of a host.
pub open spec fn second_label(h: Seq<char>) -> Option<Seq<char>> {
    let dot = crate::text::find_from(h, '.', 0);
    if dot < h.len() {
        Some(h.subrange(dot + 1, crate::text::find_from(h, '.', dot + 1)))
    } else {
        None
    }
}

/// Whether a host is in 172.16.0.0/12.
pub open spec fn is_in_172_block(h: Seq<char>) -> bool {
    crate::text::begins_with(h, "172."@) && match second_label(h) {
        Some(label) => match crate::text::parse_up_to(label, 255) {
            Some(n) => 16 <= n <= 31,
            None => false,
        },
        None => false,
    }
}

/// Whether a host is in a private or link-local network of IPv4 or IPv6.
pub open spec fn is_private_host(h: Seq<char>) -> bool {
    crate::text::begins_with(h, "192.168."@) || crate::text::begins_with(h, "10."@)
        || crate::text::begins_with(h, "169.254."@) || is_in_172_block(h)
        || crate::address::is_private_ipv6(h)
}

/// The judgement on a link with this scheme and host.
pub open spec fn link_verdict(scheme: Seq<char>, host: Option<Seq<char>>) -> Result<
    (),
    ValidationError,
> {
    if scheme != "https"@ && scheme != "http"@ {
        Err(ValidationError::UnsupportedScheme)
    } else {
        match host {
            Some(h) => if is_loopback_host(h) {
                Err(ValidationError::LoopbackHost)
            } else if is_private_host(h) {
                Err(ValidationError::PrivateHost)
            } else {
                Ok(())
            },
            None => Ok(()),
        }
    }
}

fn in_172_block(h: &Vec<char>) -> (r: bool)
    ensures
        r == is_in_172_block(h@),
{
    if !has_prefix(h, "172.") {
        return false;
    }
    let dot: usize = position_from(h, '.', 0);
    if dot >= h.len() {
        return false;
    }
    let end: usize = position_from(h, '.', dot + 1);
    let label: Vec<char> = part_of(h, dot + 1, end);
    match parse_u64(&label) {
        Some(n) => 16 <= n && n <= 31,
        None => false,
    }
}

/// Judges a link that has been taken apart: its scheme must be HTTP or HTTPS, and its host
/// neither a loopback address nor in a private network.
pub fn validate_parsed_url(url: &ParsedUrl) -> (r: Result<(), ValidationError>)
    ensures
        r == link_verdict(url.scheme@, url.host_view()),
{
    let scheme: Vec<char> = chars_of(url.scheme.as_str());
    if !same_text(&scheme, "https") && !same_text(&scheme, "http") {
        return Err(ValidationError::UnsupportedScheme);
    }
    if let Some(host) = &url.host {
        let h: Vec<char> = chars_of(host.as_str());
        if same_text(&h, "localhost") || has_prefix(&h, "127.") || same_text(&h, "::1")
            || loopback_ipv6(&h) {
            return Err(ValidationError::LoopbackHost);
        }
        if has_prefix(&h, "192.168.") || has_prefix(&h, "10.") || has_prefix(&h, "169.254.")
            || in_172_block(&h) || private_ipv6(&h) {
            return Err(ValidationError::PrivateHost);
        }
    }
    Ok(())
}

/// Judges a link.
pub fn validate_url(url_string: &str) -> (r: Result<(), ValidationError>)
    ensures
        r == (if crate::link::url_parses(url_string@) {
            link_verdict(
                crate::link::url_scheme(url_string@),
                crate::link::url_host(url_string@),
            )
        } else {
            Err(ValidationError::InvalidUrl)
        }),
{
    match ParsedUrl::parse(url_string) {
        Ok(url) => validate_parsed_url(&url),
        Err(e) => Err(e),
    }
}

/// Whether Windows forbids `c` in a path. A colon may follow a drive letter and is let pass.
pub open spec fn is_forbidden_on_windows(c: char) -> bool {
    c == '<' || c == '>' || c == '"' || c == '|' || c == '?' || c == '*' || c == '\0'
}

/// The judgement on a path.
pub open spec fn path_verdict(path: Seq<char>, on_windows: bool) -> Result<(), ValidationError> {
    if crate::text::contains_text(path, ".."@) {
        Err(ValidationError::PathTraversal)
    } else if on_windows && exists|i: int|
        0 <= i < path.len() && is_forbidden_on_windows(#[trigger] path[i]) {
        Err(ValidationError::InvalidPathCharacters)
    } else {
        Ok(())
    }
}

/// Judges an output path: it must not climb with `..`, and on Windows it must not hold a
/// character that is forbidden there.
pub fn validate_path(path: &str, on_windows: bool) -> (r: Result<(), ValidationError>)
    ensures
        r == path_verdict(path@, on_windows),
{
    let p: Vec<char> = chars_of(path);
    if has_text(&p, "..") {
        return Err(ValidationError::PathTraversal);
    }
    if on_windows {
        let mut i: usize = 0;
        while i < p.len()
            invariant
                p@ == path@,
                i <= p@.len(),
                on_windows,
                !crate::text::contains_text(path@, ".."@),
                forall|j: int| 0 <= j < i ==> !is_forbidden_on_windows(#[trigger] path@[j]),
            decreases p@.len() - i,
        {
            let c: char = p[i];
            if c == '<' || c == '>' || c == '"' || c == '|' || c == '?' || c == '*' || c == '\0' {
                assert(is_forbidden_on_windows(path@[i as int]));
                return Err(ValidationError::InvalidPathCharacters);
            }
            i = i + 1;
        }
    }
    Ok(())
}

/// Judges a number of threads.
pub fn validate_thread_count(threads: usize) -> (r: Result<(), ValidationError>)
    ensures
        r == (if 1 <= threads <= MAX_THREADS {
            Ok(())
        } else {
            Err(ValidationError::ThreadCountOutOfRange)
        }),
{
    if threads == 0 || threads > MAX_THREADS {
        return Err(ValidationError::ThreadCountOutOfRange);
    }
    Ok(())
}

/// Judges a file's size against the largest size allowed.
pub fn validate_file_size(size: u64, max_size: u64) -> (r: Result<(), ValidationError>)
    ensures
        r == (if size <= max_size {
            Ok(())
        } else {
            Err(ValidationError::FileTooLarge { size, max_size })
        }),
{
    if size > max_size {
        return Err(ValidationError::FileTooLarge { size, max_size });
    }
    Ok(())
}

/// Judges a timeout, in seconds: it must be above zero and at most two hours.
pub fn validate_timeout(timeout: Ratio) -> (r: Result<(), ValidationError>)
    ensures
        r == (if timeout.num == 0 || timeout.gt(MAX_TIMEOUT_SECS as int, 1) {
            Err(ValidationError::TimeoutOutOfRange)
        } else {
            Ok(())
        }),
{
    if timeout.num == 0 || timeout.is_above(MAX_TIMEOUT_SECS, 1) {
        return Err(ValidationError::TimeoutOutOfRange);
    }
    Ok(())
}

/// Judges a number of concurrent writers.
pub fn validate_concurrent_writes(concurrent_writes: usize) -> (r: Result<(), ValidationError>)
    ensures
        r == (if 1 <= concurrent_writes <= MAX_CONCURRENT_WRITES {
            Ok(())
        } else {
            Err(ValidationError::ConcurrentWritesOutOfRange)
        }),
{
    if concurrent_writes == 0 || concurrent_writes > MAX_CONCURRENT_WRITES {
        return Err(ValidationError::ConcurrentWritesOutOfRange);
    }
    Ok(())
}

/// Judges a number of retries.
pub fn validate_retries(retries: u32) -> (r: Result<(), ValidationError>)
    ensures
        r == (if retries <= MAX_RETRIES {
            Ok(())
        } else {
            Err(ValidationError::TooManyRetries)
        }),
{
    if retries > MAX_RETRIES {
        return Err(ValidationError::TooManyRetries);
    }
    Ok(())
}

/// Whether `c` may stand in a file name: a letter, a number, or one of `.`, `-` and `_`.
pub open spec fn is_filename_char(c: char) -> bool {
    crate::text::char_alphanumeric(c) || c == '.' || c == '-' || c == '_'
}

/// `s` with every character that may not stand in a file name replaced by `_`.
pub open spec fn with_safe_chars(s: Seq<char>) -> Seq<char> {
    s.map_values(
        |c: char|
            if is_filename_char(c) {
                c
            } else {
                '_'
            },
    )
}

/// The file name made of `s`.
pub open spec fn filename_of(s: Seq<char>) -> Seq<char> {
    if s.len() == 0 {
        "download.bin"@
    } else {
        with_safe_chars(s)
    }
}

/// Whether `c` is an ASCII letter or digit, or one of `.`, `-` and `_`.
pub open spec fn is_plain(c: char) -> bool {
    crate::text::ascii_alphanumeric(c) || c == '.' || c == '-' || c == '_'
}

/// Whether an ASCII character is harmless in a file name.
pub open spec fn is_plain_or_not_ascii(c: char) -> bool {
    (c as u32) < 128 ==> is_plain(c)
}

/// Whether `kept` is what an ASCII character `c` becomes in a file name: itself if it is plain,
/// else `_`. Of other characters it says nothing.
pub open spec fn keeps_plain(c: char, kept: char) -> bool {
    (c as u32) < 128 ==> kept == (if is_plain(c) {
        c
    } else {
        '_'
    })
}

/// Makes a file name of a decoded path segment. Of the ASCII characters, letters, digits, `.`,
/// `-` and `_` are kept and no other is left in it, so it holds no separator.
pub fn sanitize_filename(decoded: &str) -> (r: String)
    ensures
        r@ == filename_of(decoded@),
        r@.len() > 0,
        decoded@.len() > 0 ==> r@.len() == decoded@.len(),
        forall|i: int| 0 <= i < r@.len() ==> is_plain_or_not_ascii(#[trigger] r@[i]),
        forall|i: int| 0 <= i < decoded@.len() ==> keeps_plain(#[trigger] decoded@[i], r@[i]),
        forall|i: int|
            0 <= i < decoded@.len() && crate::text::ascii_alphanumeric(decoded@[i])
                ==> #[trigger] r@[i] == decoded@[i],
{
    let s: Vec<char> = chars_of(decoded);
    if s.len() == 0 {
        proof {
            reveal_strlit("download.bin");
        }
        return "download.bin".to_owned();
    }
    let mut out: Vec<char> = Vec::new();
    let mut i: usize = 0;
    while i < s.len()
        invariant
            i <= s@.len(),
            out@ == with_safe_chars(s@).take(i as int),
            forall|j: int| 0 <= j < i ==> is_plain_or_not_ascii(#[trigger] out@[j]),
            forall|j: int| 0 <= j < i ==> keeps_plain(s@[j], #[trigger] out@[j]),
        decreases s@.len() - i,
    {
        let c: char = s[i];
        let kept: char = if c.is_alphanumeric() || c == '.' || c == '-' || c == '_' {
            c
        } else {
            '_'
        };
        out.push(kept);
        i = i + 1;
        proof {
            assert(with_safe_chars(s@).take(i as int) =~= with_safe_chars(s@).take(i - 1).push(
                kept,
            ));
        }
    }
    proof {
        assert(with_safe_chars(s@).take(i as int) =~= with_safe_chars(s@));
    }
    string_of(&out)
}

/// The last segment of a path; `download` if it is empty or there is none.
pub open spec fn last_segment(segments: Option<Seq<Seq<char>>>) -> Seq<char> {
    match segments {
        Some(s) => if s.len() > 0 && s.last().len() > 0 {
            s.last()
        } else {
            "download"@
        },
        None => "download"@,
    }
}

/// A segment, decoded where that gives text.
pub open spec fn decoded_segment(segment: Seq<char>) -> Seq<char> {
    match crate::link::percent_decoded(segment) {
        Some(d) => d,
        None => segment,
    }
}

/// The file name for a last segment: decoded where that gives text, then made safe.
pub open spec fn filename_for_segment(segment: Seq<char>) -> Seq<char> {
    filename_of(decoded_segment(segment))
}

proof fn lemma_dots(s: Seq<char>)
    ensures
        filename_of(s) == "."@ ==> s == "."@,
        filename_of(s) == ".."@ ==> s == ".."@,
{
    reveal_strlit(".");
    reveal_strlit("..");
    reveal_strlit("download.bin");
    let name = filename_of(s);
    if s.len() > 0 && (name == "."@ || name == ".."@) {
        assert(name.len() == s.len());
        assert forall|i: int| 0 <= i < name.len() implies s[i] == #[trigger] name[i] by {
            assert("."@[0] == '.' && ".."@[0] == '.' && ".."@[1] == '.');
            assert(name[i] == '.');
        }
        assert(s =~= name);
    }
}

/// The name under which the file behind a link is saved. It names neither the directory it
/// stands in nor the one above, as long as no segment of the path spells `.` or `..`; where a
/// link with the scheme `http` or `https` was taken apart, none does.
pub fn extract_filename_from_url(url: &ParsedUrl) -> (r: String)
    ensures
        r@ == filename_for_segment(last_segment(url.segments_view())),
        r@.len() > 0,
        forall|i: int| 0 <= i < r@.len() ==> is_plain_or_not_ascii(#[trigger] r@[i]),
        !last_segment(url.segments_view()).contains('%') ==> r@ == filename_of(
            last_segment(url.segments_view()),
        ) && forall|i: int|
            0 <= i < last_segment(url.segments_view()).len() ==> keeps_plain(
                #[trigger] last_segment(url.segments_view())[i],
                r@[i],
            ),
        ({
            let decoded = decoded_segment(last_segment(url.segments_view()));
            &&& forall|i: int|
                0 <= i < decoded.len() ==> keeps_plain(#[trigger] decoded[i], r@[i])
            &&& forall|i: int|
                0 <= i < decoded.len() && crate::text::ascii_alphanumeric(decoded[i])
                    ==> #[trigger] r@[i] == decoded[i]
        }),
        url.has_no_dot_segment() ==> r@ != "."@ && r@ != ".."@,
{
    let mut segment: String = "download".to_owned();
    if let Some(list) = &url.segments {
        let n: usize = list.len();
        if n > 0 {
            proof {
                assert(url.segments_view()->0.last() == list@[n - 1]@);
            }
            if !list[n - 1].as_str().is_empty() {
                segment = list[n - 1].clone();
            }
        }
    }
    assert(segment@ == last_segment(url.segments_view()));
    proof {
        lemma_dots(decoded_segment(segment@));
        crate::link::lemma_dots_are_dot_segments();
        if url.has_no_dot_segment() {
            assert(!crate::link::is_dot_segment(segment@)) by {
                if segment@ == "download"@ {
                    crate::link::lemma_download_is_no_dot_segment();
                }
            }
        }
    }
    match percent_decode(segment.as_str()) {
        Some(decoded) => sanitize_filename(decoded.as_str()),
        None => sanitize_filename(segment.as_str()),
    }
}

/// Checks a finished file: its size must be the expected one, unless none is known (zero).
/// `found` is absent if the file's metadata could not be read.
pub fn verify_file_size(found: Option<u64>, expected_size: u64) -> (r: Result<(), ValidationError>)
    ensures
        r == (if expected_size == 0 {
            Ok(())
        } else {
            match found {
                None => Err(ValidationError::MetadataUnreadable),
                Some(n) => if n == expected_size {
                    Ok(())
                } else {
                    Err(ValidationError::SizeMismatch { expected: expected_size, found: n })
                },
            }
        }),
{
    if expected_size == 0 {
        return Ok(());
    }
    match found {
        None => Err(ValidationError::MetadataUnreadable),
        Some(n) => if n != expected_size {
            Err(ValidationError::SizeMismatch { expected: expected_size, found: n })
        } else {
            Ok(())
        },
    }
}

/// Whether a file is worth more than one connection.
pub fn should_use_multi_stream(total_size: u64, threads: usize) -> (r: bool)
    ensures
        r == (total_size > MULTI_STREAM_THRESHOLD && threads > 1),
{
    total_size > MULTI_STREAM_THRESHOLD && threads > 1
}

/// The default size of a range: the file shared out so that each thread has four of them,
/// within the bounds.
pub open spec fn optimal_chunk_size(total_size: int, threads: int) -> int {
    crate::numbers::clamped(
        total_size / (threads * CHUNKS_PER_THREAD),
        MIN_CHUNK_SIZE as int,
        MAX_CHUNK_SIZE as int,
    )
}

/// The default size of a range.
pub fn calculate_optimal_chunk_size(total_size: u64, threads: usize) -> (r: u64)
    requires
        threads > 0,
        threads * CHUNKS_PER_THREAD <= usize::MAX,
    ensures
        r == optimal_chunk_size(total_size as int, threads as int),
{
    let ideal_count: usize = threads * CHUNKS_PER_THREAD;
    let size: u64 = total_size / ideal_count as u64;
    if size < MIN_CHUNK_SIZE {
        MIN_CHUNK_SIZE
    } else if size > MAX_CHUNK_SIZE {
        MAX_CHUNK_SIZE
    } else {
        size
    }
}

/// `n / d`, rounded to the nearest whole number, and to the even one of two that are as near.
pub open spec fn round_half_even(n: int, d: int) -> int {
    let q = n / d;
    let rest = n % d;
    if 2 * rest < d || (2 * rest == d && q % 2 == 0) {
        q
    } else {
        q + 1
    }
}

/// From this many bytes on a size is shown in petabytes: three below 1024^5, since there the
/// logarithm to the base 1024 is five with the precision of a double.
pub const FIRST_IN_PETABYTES: u64 = 0x3_FFFF_FFFF_FFFD;

/// From this many bytes on a size is shown in exabytes: 6144 below 1024^6, since there the
/// logarithm to the base 1024 is six with the precision of a double.
pub const FIRST_IN_EXABYTES: u64 = 0x0FFF_FFFF_FFFF_E800;

/// The unit of a size, a power of 1024, and its letter. The exponent is the whole part of the
/// size's logarithm to the base 1024 with the precision of a double, so it is the largest power
/// that is not above `bytes`, except right below 1024^5 and 1024^6.
pub open spec fn size_unit(bytes: int) -> (int, char) {
    if bytes < 0x10_0000 {
        (0x400, 'K')
    } else if bytes < 0x4000_0000 {
        (0x10_0000, 'M')
    } else if bytes < 0x100_0000_0000 {
        (0x4000_0000, 'G')
    } else if bytes < FIRST_IN_PETABYTES {
        (0x100_0000_0000, 'T')
    } else if bytes < FIRST_IN_EXABYTES {
        (0x4_0000_0000_0000, 'P')
    } else {
        (0x1000_0000_0000_0000, 'E')
    }
}

/// A number of hundredths with two digits behind the point.
pub open spec fn hundredths_text(h: nat) -> Seq<char> {
    crate::text::decimal(h / 100) + seq![
        '.',
        crate::text::digit_char(h / 10 % 10),
        crate::text::digit_char(h % 10),
    ]
}

/// How far apart the doubles around `n` lie: the power of two that leaves `n` at most 53
/// significant bits.
pub open spec fn double_spacing(n: nat) -> nat
    decreases n,
{
    if n < 0x20_0000_0000_0000 {
        1
    } else {
        2 * double_spacing(n / 2)
    }
}

/// `n` with the precision of a double: rounded to 53 significant bits, half to even.
pub open spec fn as_double(n: nat) -> nat {
    let spacing = double_spacing(n);
    (round_half_even(n as int, spacing as int) * spacing) as nat
}

/// How a size is shown: bytes below 1024, else, with the precision of a double, two digits
/// behind the point of the unit that `size_unit` gives.
pub open spec fn size_text(bytes: nat) -> Seq<char> {
    if bytes < 1024 {
        crate::text::decimal(bytes) + " B"@
    } else {
        let size = as_double(bytes) as int;
        let (unit, letter) = size_unit(size);
        hundredths_text(round_half_even(100 * size, unit) as nat) + seq![' ', letter, 'B']
    }
}

proof fn lemma_halved(n: int, unit: int)
    requires
        n >= 0,
        unit > 0,
    ensures
        n / (2 * unit) == n / unit / 2,
{
    vstd::arithmetic::div_mod::lemma_div_denominator(n, unit, 2);
    assert(unit * 2 == 2 * unit);
}

fn half_even(n: u128, d: u128) -> (r: u128)
    requires
        d > 0,
        d <= u64::MAX,
        n < u128::MAX,
    ensures
        r == round_half_even(n as int, d as int),
        r <= n as int / d as int + 1,
{
    let q: u128 = n / d;
    let rest: u128 = n % d;
    if 2 * rest < d || (2 * rest == d && q % 2 == 0) {
        q
    } else {
        proof {
            if d == 1 {
                assert(rest == 0);
            }
            assert(q <= n) by (nonlinear_arith)
                requires
                    q == n / d,
                    d >= 1,
                    n >= 0,
            ;
        }
        q + 1
    }
}

/// A size with the precision of a double.
fn double_of(bytes: u64) -> (r: u128)
    ensures
        r == as_double(bytes as nat),
        r <= 2 * bytes,
{
    let n: u128 = bytes as u128;
    let mut spacing: u128 = 1;
    while n / spacing >= 0x20_0000_0000_0000
        invariant
            n == bytes,
            1 <= spacing,
            double_spacing(bytes as nat) == spacing * double_spacing((n / spacing) as nat),
            spacing <= n || spacing == 1,
        decreases n / spacing,
    {
        proof {
            let count = n as int / spacing as int;
            lemma_halved(n as int, spacing as int);
            vstd::arithmetic::div_mod::lemma_fundamental_div_mod(n as int, spacing as int);
            let rest = double_spacing((count / 2) as nat) as int;
            assert(spacing * (2 * rest) == (2 * spacing) * rest) by (nonlinear_arith);
            assert(spacing * count >= spacing * 2) by (nonlinear_arith)
                requires
                    count >= 2,
                    spacing >= 1,
            ;
        }
        spacing = spacing * 2;
    }
    let rounded: u128 = half_even(n, spacing);
    proof {
        let count = n as int / spacing as int;
        let rest = double_spacing(count as nat) as int;
        assert(spacing * rest == spacing) by (nonlinear_arith)
            requires
                rest == 1,
        ;
        vstd::arithmetic::div_mod::lemma_fundamental_div_mod(n as int, spacing as int);
        assert(spacing * count == count * spacing) by (nonlinear_arith);
        if spacing == 1 {
            assert(count == n);
        } else {
            assert(rounded <= count + 1);
            assert(rounded * spacing <= (count + 1) * spacing) by (nonlinear_arith)
                requires
                    rounded <= count + 1,
                    spacing >= 1,
            ;
            assert((count + 1) * spacing == count * spacing + spacing) by (nonlinear_arith);
        }
        assert(rounded * spacing >= 0) by (nonlinear_arith)
            requires
                rounded >= 0,
                spacing >= 1,
        ;
    }
    rounded * spacing
}

/// Shows a size.
pub fn format_file_size(bytes: u64) -> (r: String)
    ensures
        r@ == size_text(bytes as nat),
{
    let mut out: String = String::new();
    if bytes < 1024 {
        push_decimal(&mut out, bytes);
        out.append(" B");
        assert(out@ =~= size_text(bytes as nat));
        return out;
    }
    let size: u128 = double_of(bytes);
    let (unit, letter): (u128, char) = if size < 0x10_0000 {
        (0x400, 'K')
    } else if size < 0x4000_0000 {
        (0x10_0000, 'M')
    } else if size < 0x100_0000_0000 {
        (0x4000_0000, 'G')
    } else if size < FIRST_IN_PETABYTES as u128 {
        (0x100_0000_0000, 'T')
    } else if size < FIRST_IN_EXABYTES as u128 {
        (0x4_0000_0000_0000, 'P')
    } else {
        (0x1000_0000_0000_0000, 'E')
    };
    let rounded: u128 = half_even(100 * size, unit);
    proof {
        let u = unit as int;
        vstd::arithmetic::div_mod::lemma_div_is_ordered(100 * size as int, 102_400 * u, u);
        vstd::arithmetic::div_mod::lemma_div_multiples_vanish(102_400, u);
        assert(u * 102_400 == 102_400 * u);
    }
    let h: u64 = rounded as u64;
    push_decimal(&mut out, h / 100);
    out.push('.');
    out.push((48 + (h / 10 % 10) as u8) as char);
    out.push((48 + (h % 10) as u8) as char);
    out.push(' ');
    out.push(letter);
    out.push('B');
    assert(out@ =~= size_text(bytes as nat));
    out
}

/// A step of putting a finished file into place.
#[derive(Debug, Clone, Copy, PartialEq, Eq, Structural)]
pub enum FinalizeStep {
    /// Remove the file that stands at the output path.
    RemoveExisting,
    /// Rename the partial file to the output path.
    Rename,
}

/// The steps that put a finished file into place; each is taken only if the one before it
/// succeeded.
pub fn finalize_download(output_exists: bool) -> (r: Vec<FinalizeStep>)
    ensures
        r@ == (if output_exists {
            seq![FinalizeStep::RemoveExisting, FinalizeStep::Rename]
        } else {
            seq![FinalizeStep::Rename]
        }),
{
    let mut steps: Vec<FinalizeStep> = Vec::new();
    if output_exists {
        steps.push(FinalizeStep::RemoveExisting);
    }
    steps.push(FinalizeStep::Rename);
    assert(steps@ =~= (if output_exists {
        seq![FinalizeStep::RemoveExisting, FinalizeStep::Rename]
    } else {
        seq![FinalizeStep::Rename]
    }));
    steps
}

/// An accepted link speaks HTTP or HTTPS and, where it names a host, one that is neither a
/// loopback address nor in a private network.
pub proof fn law_accepted_links_are_public(scheme: Seq<char>, host: Option<Seq<char>>)
    requires
        link_verdict(scheme, host) is Ok,
    ensures
        scheme == "http"@ || scheme == "https"@,
        host matches Some(h) ==> !is_loopback_host(h) && !is_private_host(h),
{
}

/// No host that starts with 127., 10., 192.168. or 169.254. is accepted, whatever the scheme.
pub proof fn law_reserved_prefixes_are_refused(
    scheme: Seq<char>,
    prefix: Seq<char>,
    rest: Seq<char>,
)
    requires
        prefix == "127."@ || prefix == "10."@ || prefix == "192.168."@ || prefix == "169.254."@,
    ensures
        link_verdict(scheme, Some(prefix + rest)) is Err,
{
    let host = prefix + rest;
    assert(host.take(prefix.len() as int) =~= prefix);
}

/// Of the addresses 172.n., exactly those with n from 16 to 31 are private; they are never
/// accepted.
pub proof fn law_172_block(scheme: Seq<char>, n: nat, rest: Seq<char>)
    requires
        n <= 255,
    ensures
        ({
            let host = "172."@ + crate::text::decimal(n) + "."@ + rest;
            &&& is_private_host(host) <==> 16 <= n <= 31
            &&& 16 <= n <= 31 ==> link_verdict(scheme, Some(host)) is Err
        }),
{
    let digits = crate::text::decimal(n);
    let host = "172."@ + digits + "."@ + rest;
    reveal_strlit("172.");
    reveal_strlit(".");
    reveal_strlit("192.168.");
    reveal_strlit("10.");
    reveal_strlit("169.254.");
    let k = digits.len() as int;
    assert(host[0] == '1' && host[1] == '7' && host[2] == '2' && host[3] == '.');
    assert(host.take(4) =~= "172."@);
    if host.len() >= 8 {
        assert(host.take(8)[1] == '7');
    }
    assert(host.take(3)[1] == '7');
    assert("192.168."@[1] == '9' && "10."@[1] == '0' && "169.254."@[1] == '6');
    crate::address::lemma_brackets(host);
    crate::text::lemma_find_from(host, '.', 0, 3);
    crate::text::lemma_numeral_has_no(n, '.');
    assert forall|i: int| 4 <= i < 4 + k implies #[trigger] host[i] != '.' by {
        assert(host[i] == digits[i - 4]);
    }
    assert(host[4 + k] == '.');
    crate::text::lemma_find_from(host, '.', 4, 4 + k);
    assert(host.subrange(4, 4 + k) =~= digits);
    crate::text::law_numerals_are_read_back(n);
}

/// An IPv4 address in its dotted spelling.
pub open spec fn dotted(a: nat, b: nat, c: nat, d: nat) -> Seq<char> {
    crate::text::decimal(a) + "."@ + (crate::text::decimal(b) + "."@ + (crate::text::decimal(c)
        + "."@ + crate::text::decimal(d)))
}

proof fn lemma_first_label(a: nat, rest: Seq<char>, p: nat, q: Seq<char>)
    ensures
        ({
            let host = crate::text::decimal(a) + "."@ + rest;
            let pattern = crate::text::decimal(p) + "."@ + q;
            crate::text::begins_with(host, pattern) <==> a == p && crate::text::begins_with(rest, q)
        }),
{
    let m = crate::text::decimal(a);
    let n = crate::text::decimal(p);
    let host = m + "."@ + rest;
    let pattern = n + "."@ + q;
    reveal_strlit(".");
    crate::text::lemma_numeral_has_no(a, '.');
    crate::text::lemma_numeral_has_no(p, '.');
    assert(host[m.len() as int] == '.');
    assert(pattern[n.len() as int] == '.');
    if crate::text::begins_with(host, pattern) {
        assert forall|i: int| 0 <= i < pattern.len() implies host[i] == pattern[i] by {
            assert(host.take(pattern.len() as int)[i] == pattern[i]);
        }
        if m.len() < n.len() {
            assert(pattern[m.len() as int] == n[m.len() as int]);
            assert(false);
        }
        if m.len() > n.len() {
            assert(host[n.len() as int] == m[n.len() as int]);
            assert(false);
        }
        assert forall|i: int| 0 <= i < m.len() implies m[i] == n[i] by {
            assert(host[i] == m[i] && pattern[i] == n[i]);
        }
        assert(m =~= n);
        crate::text::law_numerals_are_read_back(a);
        crate::text::law_numerals_are_read_back(p);
        assert forall|i: int| 0 <= i < q.len() implies rest[i] == q[i] by {
            assert(host[m.len() + 1 + i] == rest[i]);
            assert(pattern[m.len() + 1 + i] == q[i]);
        }
        assert(rest.take(q.len() as int) =~= q);
    }
    if a == p && crate::text::begins_with(rest, q) {
        assert forall|i: int| 0 <= i < q.len() implies rest[i] == q[i] by {
            assert(rest.take(q.len() as int)[i] == q[i]);
        }
        assert(host.take(pattern.len() as int) =~= pattern);
    }
}

proof fn lemma_range_labels()
    ensures
        "127."@ == crate::text::decimal(127) + "."@ + Seq::<char>::empty(),
        "10."@ == crate::text::decimal(10) + "."@ + Seq::<char>::empty(),
        "172."@ == crate::text::decimal(172) + "."@ + Seq::<char>::empty(),
        "192.168."@ == crate::text::decimal(192) + "."@ + (crate::text::decimal(168) + "."@
            + Seq::<char>::empty()),
        "169.254."@ == crate::text::decimal(169) + "."@ + (crate::text::decimal(254) + "."@
            + Seq::<char>::empty()),
{
    reveal_with_fuel(crate::text::decimal, 4);
    reveal_strlit(".");
    reveal_strlit("127.");
    reveal_strlit("10.");
    reveal_strlit("172.");
    reveal_strlit("192.168.");
    reveal_strlit("169.254.");
    let none = Seq::<char>::empty();
    assert("127."@ =~= crate::text::decimal(127) + "."@ + none);
    assert("10."@ =~= crate::text::decimal(10) + "."@ + none);
    assert("172."@ =~= crate::text::decimal(172) + "."@ + none);
    assert("192.168."@ =~= crate::text::decimal(192) + "."@ + (crate::text::decimal(168) + "."@
        + none));
    assert("169.254."@ =~= crate::text::decimal(169) + "."@ + (crate::text::decimal(254) + "."@
        + none));
}

/// Of the IPv4 addresses, exactly those in 127.0.0.0/8 count as loopback addresses, and exactly
/// those in 10.0.0.0/8, 172.16.0.0/12, 192.168.0.0/16 and 169.254.0.0/16 as private.
pub proof fn law_ipv4_ranges(a: nat, b: nat, c: nat, d: nat)
    requires
        a < 256,
        b < 256,
        c < 256,
        d < 256,
    ensures
        is_loopback_host(dotted(a, b, c, d)) <==> crate::address::is_loopback_ipv4(a * 256 + b),
        is_private_host(dotted(a, b, c, d)) <==> crate::address::is_private_ipv4(a * 256 + b),
{
    let none = Seq::<char>::empty();
    let last = crate::text::decimal(d);
    let third = crate::text::decimal(c) + "."@ + last;
    let second = crate::text::decimal(b) + "."@ + third;
    let host = dotted(a, b, c, d);
    lemma_range_labels();
    assert(second.take(0) =~= none && third.take(0) =~= none);
    lemma_first_label(a, second, 127, none);
    lemma_first_label(a, second, 10, none);
    lemma_first_label(a, second, 172, none);
    lemma_first_label(a, second, 192, crate::text::decimal(168) + "."@ + none);
    lemma_first_label(b, third, 168, none);
    lemma_first_label(a, second, 169, crate::text::decimal(254) + "."@ + none);
    lemma_first_label(b, third, 254, none);
    crate::text::lemma_numeral_has_no(a, '[');
    crate::text::lemma_numeral_has_no(a, ':');
    crate::text::lemma_numeral_has_no(a, 'l');
    crate::text::law_numerals_are_read_back(a);
    assert(host[0] == crate::text::decimal(a)[0]);
    crate::address::lemma_brackets(host);
    reveal_strlit("localhost");
    reveal_strlit("::1");
    assert("localhost"@[0] == 'l' && "::1"@[0] == ':');
    if a == 172 {
        law_172_block("http"@, b, third);
        assert(host =~= "172."@ + crate::text::decimal(b) + "."@ + third);
    }
}

/// A link to an IPv4 address that is mapped into IPv6 is judged as a link to the IPv4 address.
pub proof fn law_mapped_addresses_are_judged_alike(
    scheme: Seq<char>,
    a: nat,
    b: nat,
    c: nat,
    d: nat,
)
    requires
        a < 256,
        b < 256,
        c < 256,
        d < 256,
    ensures
        link_verdict(
            scheme,
            Some(
                "[::ffff:"@ + crate::address::hex_numeral(a * 256 + b) + ":"@
                    + crate::address::hex_numeral(c * 256 + d) + "]"@,
            ),
        ) == link_verdict(scheme, Some(dotted(a, b, c, d))),
{
    let host = "[::ffff:"@ + crate::address::hex_numeral(a * 256 + b) + ":"@
        + crate::address::hex_numeral(c * 256 + d) + "]"@;
    law_ipv4_ranges(a, b, c, d);
    crate::address::law_mapped_ipv4(a * 256 + b, c * 256 + d);
    lemma_bracketed_host(host);
}

proof fn lemma_bracketed_host(h: Seq<char>)
    requires
        h.len() > 0,
        h[0] == '[',
    ensures
        is_loopback_host(h) <==> crate::address::is_loopback_ipv6(h),
        is_private_host(h) <==> crate::address::is_private_ipv6(h),
{
    reveal_strlit("localhost");
    reveal_strlit("::1");
    reveal_strlit("127.");
    reveal_strlit("10.");
    reveal_strlit("172.");
    reveal_strlit("192.168.");
    reveal_strlit("169.254.");
    assert("localhost"@[0] == 'l' && "::1"@[0] == ':');
    assert("127."@[0] == '1' && "10."@[0] == '1' && "172."@[0] == '1');
    assert("192.168."@[0] == '1' && "169.254."@[0] == '1');
    assert forall|p: Seq<char>| p.len() > 0 && p[0] != '[' implies !(
    #[trigger] crate::text::begins_with(h, p)) by {
        if crate::text::begins_with(h, p) {
            assert(h.take(p.len() as int)[0] == h[0]);
        }
    }
}

/// A link to an IPv6 address in fc00::/7 or fe80::/10 is refused.
pub proof fn law_private_ipv6_networks_are_refused(
    scheme: Seq<char>,
    first: nat,
    rest: Seq<char>,
)
    requires
        first < 0x1_0000,
        crate::address::is_private_group(first),
    ensures
        link_verdict(
            scheme,
            Some("["@ + crate::address::hex_numeral(first) + ":"@ + rest),
        ) is Err,
{
    crate::address::law_ipv6_private_networks(first, rest);
}

/// On a host that is no IPv6 address in brackets, the judgement is that of its spelling:
/// `localhost`, `::1` and what begins with `127.` are loopback addresses, and private is what
/// begins with `192.168.`, `10.` or `169.254.`, or with `172.` and a number from 16 to 31.
pub proof fn law_hosts_without_brackets(h: Seq<char>)
    requires
        h.len() == 0 || h[0] != '[',
    ensures
        is_loopback_host(h) <==> h == "localhost"@ || h == "::1"@ || crate::text::begins_with(
            h,
            "127."@,
        ),
        is_private_host(h) <==> crate::text::begins_with(h, "192.168."@)
            || crate::text::begins_with(h, "10."@) || crate::text::begins_with(h, "169.254."@)
            || is_in_172_block(h),
{
    crate::address::lemma_brackets(h);
}

/// Making a file name safe twice changes nothing over doing it once.
pub proof fn law_sanitizing_is_idempotent(s: Seq<char>)
    ensures
        with_safe_chars(with_safe_chars(s)) == with_safe_chars(s),
{
    assert(with_safe_chars(with_safe_chars(s)) =~= with_safe_chars(s));
}

/// A name that holds only safe characters is kept as it is.
pub proof fn law_safe_names_are_kept(s: Seq<char>)
    requires
        s.len() > 0,
        forall|i: int| 0 <= i < s.len() ==> is_filename_char(#[trigger] s[i]),
    ensures
        filename_of(s) == s,
{
    assert(with_safe_chars(s) =~= s);
}

/// The default size of a range lies between 1 MiB and 64 MiB, and a larger file never has
/// smaller ranges.
pub proof fn law_chunk_size_bounds(small: int, large: int, threads: int)
    requires
        0 <= small <= large,
        threads > 0,
    ensures
        MIN_CHUNK_SIZE <= optimal_chunk_size(small, threads) <= MAX_CHUNK_SIZE,
        optimal_chunk_size(small, threads) <= optimal_chunk_size(large, threads),
{
    vstd::arithmetic::div_mod::lemma_div_is_ordered(small, large, threads * CHUNKS_PER_THREAD);
}

/// A name as `sanitize_filename` makes it holds no separator and nothing that Windows forbids;
/// as an output path it is refused only if it holds `..`.
pub proof fn law_safe_names_pass_as_paths(name: Seq<char>, on_windows: bool)
    requires
        forall|i: int| 0 <= i < name.len() ==> is_plain_or_not_ascii(#[trigger] name[i]),
    ensures
        !name.contains('/'),
        !name.contains('\\'),
        path_verdict(name, on_windows) is Ok <==> !crate::text::contains_text(name, ".."@),
{
    assert forall|i: int| 0 <= i < name.len() implies !is_forbidden_on_windows(
        #[trigger] name[i],
    ) && name[i] != '/' && name[i] != '\\' by {
        assert(is_plain_or_not_ascii(name[i]));
    }
}

proof fn lemma_172_block(h: Seq<char>)
    ensures
        is_in_172_block(h) <==> exists|label: Seq<char>, rest: Seq<char>| #[trigger]
            ("172."@ + label + rest) == h && !label.contains('.') && (rest.len() == 0 || rest[0]
                == '.') && (crate::text::parse_decimal(label) matches Some(n) && 16 <= n <= 31),
{
    reveal_strlit("172.");
    if crate::text::begins_with(h, "172."@) {
        assert forall|i: int| 0 <= i < 4 implies h[i] == "172."@[i] by {
            assert(h.take(4)[i] == "172."@[i]);
        }
        crate::text::lemma_find_from(h, '.', 0, 3);
        let end = crate::text::find_from(h, '.', 4);
        crate::text::law_first_place(h, '.', 4);
        let (label, rest) = (h.subrange(4, end), h.skip(end));
        assert("172."@ + label + rest =~= h);
        assert forall|i: int| 0 <= i < label.len() implies label[i] != '.' by {
            assert(label[i] == h[i + 4]);
        }
        assert(!label.contains('.'));
    }
    if exists|label: Seq<char>, rest: Seq<char>| #[trigger]
        ("172."@ + label + rest) == h && !label.contains('.') && (rest.len() == 0 || rest[0]
            == '.') && (crate::text::parse_decimal(label) matches Some(n) && 16 <= n <= 31) {
        let (label, rest) = choose|label: Seq<char>, rest: Seq<char>| #[trigger]
            ("172."@ + label + rest) == h && !label.contains('.') && (rest.len() == 0 || rest[0]
                == '.') && (crate::text::parse_decimal(label) matches Some(n) && 16 <= n <= 31);
        assert(h.take(4) =~= "172."@);
        let k = 4 + label.len();
        crate::text::law_first_place(h, '.', 4);
        assert forall|i: int| 4 <= i < k implies #[trigger] h[i] != '.' by {
            assert(h[i] == label[i - 4]);
            if label[i - 4] == '.' {
                assert(label.contains('.'));
            }
        }
        if rest.len() > 0 {
            assert(h[k as int] == '.');
        }
        assert(crate::text::find_from(h, '.', 4) == k);
        assert(h.subrange(4, k as int) =~= label);
    }
}

/// A link is judged by its scheme first: any but `http` and `https` is refused, and a link without
/// a host is then accepted.
pub proof fn law_scheme_is_judged_first(url: &ParsedUrl, r: Result<(), ValidationError>)
    requires
        call_ensures(validate_parsed_url, (url,), r),
    ensures
        r == Err::<(), ValidationError>(ValidationError::UnsupportedScheme) <==> url.scheme@
            != "http"@ && url.scheme@ != "https"@,
        url.host is None && (url.scheme@ == "http"@ || url.scheme@ == "https"@) ==> r is Ok,
{
}

/// A host that is no IPv6 address in brackets is judged by its spelling alone. A loopback address
/// is `localhost`, `::1`, or `127.` with anything behind it; of the others, private is what has
/// `192.168.`, `10.` or `169.254.` in front, or `172.` and then, up to the next dot or the end, a
/// number from 16 to 31. All else is accepted.
pub proof fn law_plain_hosts_are_judged_by_spelling(
    url: &ParsedUrl,
    host: String,
    r: Result<(), ValidationError>,
)
    requires
        url.scheme@ == "http"@ || url.scheme@ == "https"@,
        url.host == Some(host),
        host@.len() == 0 || host@[0] != '[',
        call_ensures(validate_parsed_url, (url,), r),
    ensures
        ({
            let loopback = host@ == "localhost"@ || host@ == "::1"@ || exists|t: Seq<char>|
                host@ == #[trigger] ("127."@ + t);
            let private = (exists|t: Seq<char>| host@ == #[trigger] ("192.168."@ + t)) || (exists|
                t: Seq<char>,
            |
                host@ == #[trigger] ("10."@ + t)) || (exists|t: Seq<char>|
                host@ == #[trigger] ("169.254."@ + t)) || (exists|
                label: Seq<char>,
                rest: Seq<char>,
            | #[trigger]
                ("172."@ + label + rest) == host@ && !label.contains('.') && (rest.len() == 0
                    || rest[0] == '.') && (crate::text::parse_decimal(label) matches Some(n) && 16
                    <= n <= 31));
            &&& loopback ==> r == Err::<(), ValidationError>(ValidationError::LoopbackHost)
            &&& !loopback && private ==> r == Err::<(), ValidationError>(
                ValidationError::PrivateHost,
            )
            &&& !loopback && !private ==> r is Ok
        }),
{
    law_hosts_without_brackets(host@);
    crate::text::law_beginning(host@, "127."@);
    crate::text::law_beginning(host@, "192.168."@);
    crate::text::law_beginning(host@, "10."@);
    crate::text::law_beginning(host@, "169.254."@);
    lemma_172_block(host@);
}

/// A host in brackets is judged as an IPv6 address.
pub proof fn law_bracketed_hosts_are_judged_as_ipv6(
    url: &ParsedUrl,
    host: String,
    r: Result<(), ValidationError>,
)
    requires
        url.scheme@ == "http"@ || url.scheme@ == "https"@,
        url.host == Some(host),
        host@.len() > 0 && host@[0] == '[',
        call_ensures(validate_parsed_url, (url,), r),
    ensures
        host@ == "[::1]"@ ==> r is Err,
        r == Err::<(), ValidationError>(ValidationError::LoopbackHost)
            <==> crate::address::is_loopback_ipv6(host@),
        r == Err::<(), ValidationError>(ValidationError::PrivateHost)
            <==> !crate::address::is_loopback_ipv6(host@) && crate::address::is_private_ipv6(host@),
        !crate::address::is_loopback_ipv6(host@) && !crate::address::is_private_ipv6(host@) ==> r
            is Ok,
{
    lemma_bracketed_host(host@);
}

/// Of the IPv4 addresses in their dotted spelling, loopback addresses begin with 127, and private
/// are 10, 172.16 to 172.31, 192.168 and 169.254, whatever follows.
pub proof fn law_dotted_addresses(a: nat, b: nat, c: nat, d: nat)
    requires
        a < 256,
        b < 256,
        c < 256,
        d < 256,
    ensures
        is_loopback_host(dotted(a, b, c, d)) <==> a == 127,
        is_private_host(dotted(a, b, c, d)) <==> a == 10 || (a == 172 && 16 <= b <= 31) || (a
            == 192 && b == 168) || (a == 169 && b == 254),
{
    law_ipv4_ranges(a, b, c, d);
    crate::address::law_reserved_numbers(a, b);
}

/// A link given as text is judged as the URL it spells, and refused as invalid exactly if it
/// spells none.
pub proof fn law_text_is_judged_as_its_url(
    text: &str,
    url: ParsedUrl,
    parsed: Result<ParsedUrl, ValidationError>,
    of_url: Result<(), ValidationError>,
    r: Result<(), ValidationError>,
)
    requires
        call_ensures(ParsedUrl::parse, (text,), parsed),
        parsed matches Ok(u) ==> u == url,
        call_ensures(validate_parsed_url, (&url,), of_url),
        call_ensures(validate_url, (text,), r),
    ensures
        parsed is Ok ==> r == of_url,
        r == Err::<(), ValidationError>(ValidationError::InvalidUrl) <==> parsed is Err,
{
}

/// A path is refused as climbing exactly if two dots stand next to each other in it; else, and
/// only on Windows, if it holds one of the characters forbidden there.
pub proof fn law_paths(path: &str, on_windows: bool, r: Result<(), ValidationError>)
    requires
        call_ensures(validate_path, (path, on_windows), r),
    ensures
        ({
            let climbs = exists|i: int|
                0 <= i < path@.len() - 1 && #[trigger] path@[i] == '.' && path@[i + 1] == '.';
            let forbidden = exists|i: int|
                0 <= i < path@.len() && (#[trigger] path@[i] == '<' || path@[i] == '>' || path@[i]
                    == '"' || path@[i] == '|' || path@[i] == '?' || path@[i] == '*' || path@[i]
                    == '\0');
            &&& climbs ==> r == Err::<(), ValidationError>(ValidationError::PathTraversal)
            &&& !climbs && on_windows && forbidden ==> r == Err::<(), ValidationError>(
                ValidationError::InvalidPathCharacters,
            )
            &&& !climbs && !(on_windows && forbidden) ==> r is Ok
        }),
{
    reveal_strlit("..");
    let p = path@;
    if crate::text::contains_text(p, ".."@) {
        let at = choose|at: int| crate::text::occurs_at(p, ".."@, at);
        assert(p.subrange(at, at + 2)[0] == '.' && p.subrange(at, at + 2)[1] == '.');
        assert(p[at] == '.' && p[at + 1] == '.');
    }
    if exists|i: int| 0 <= i < p.len() - 1 && #[trigger] p[i] == '.' && p[i + 1] == '.' {
        let i = choose|i: int| 0 <= i < p.len() - 1 && #[trigger] p[i] == '.' && p[i + 1] == '.';
        assert(p.subrange(i, i + 2) =~= ".."@);
        assert(crate::text::occurs_at(p, ".."@, i));
    }
    if exists|i: int| 0 <= i < p.len() && is_forbidden_on_windows(#[trigger] p[i]) {
        let i = choose|i: int| 0 <= i < p.len() && is_forbidden_on_windows(#[trigger] p[i]);
        assert(p[i] == p[i]);
    }
}

/// Options are accepted exactly within their bounds: 1 to 128 threads, 1 to 64 writers and up to
/// 100 retries. Each refusal names its option.
pub proof fn law_option_bounds(
    threads: usize,
    writes: usize,
    retries: u32,
    a: Result<(), ValidationError>,
    b: Result<(), ValidationError>,
    c: Result<(), ValidationError>,
)
    requires
        call_ensures(validate_thread_count, (threads,), a),
        call_ensures(validate_concurrent_writes, (writes,), b),
        call_ensures(validate_retries, (retries,), c),
    ensures
        a is Ok <==> 0 < threads < 129,
        a matches Err(e) ==> e == ValidationError::ThreadCountOutOfRange,
        b is Ok <==> 0 < writes < 65,
        b matches Err(e) ==> e == ValidationError::ConcurrentWritesOutOfRange,
        c is Ok <==> retries < 101,
        c matches Err(e) ==> e == ValidationError::TooManyRetries,
{
}

/// A timeout is accepted exactly if it is above zero and at most 7200 seconds.
pub proof fn law_timeouts(timeout: Ratio, r: Result<(), ValidationError>)
    requires
        call_ensures(validate_timeout, (timeout,), r),
    ensures
        r is Ok <==> 0 < timeout.num <= 7200 * timeout.den,
        r matches Err(e) ==> e == ValidationError::TimeoutOutOfRange,
{
}

/// A file is too large exactly if it has more bytes than allowed, and the refusal names both.
pub proof fn law_largest_files(size: u64, max_size: u64, r: Result<(), ValidationError>)
    requires
        call_ensures(validate_file_size, (size, max_size), r),
    ensures
        r is Err <==> size > max_size,
        r matches Err(e) ==> e == (ValidationError::FileTooLarge { size, max_size }),
{
}

/// A finished file is accepted exactly if its size is not known or is the one expected.
pub proof fn law_integrity(found: Option<u64>, expected: u64, r: Result<(), ValidationError>)
    requires
        call_ensures(verify_file_size, (found, expected), r),
    ensures
        r is Ok <==> expected == 0 || found == Some(expected),
        expected > 0 && found is None ==> r == Err::<(), ValidationError>(
            ValidationError::MetadataUnreadable,
        ),
        expected > 0 && found is Some && r is Err ==> r == Err::<(), ValidationError>(
            ValidationError::SizeMismatch { expected, found: found->0 },
        ),
{
}

/// A name is made safe character by character: of two texts, one behind the other, the name is
/// that of the one and then of the other. ASCII letters, digits, `.`, `-` and `_` stay, every
/// other ASCII character becomes `_`, and so does what is neither a letter nor a number among the
/// rest. An empty text becomes `download.bin`.
pub proof fn law_sanitizing_goes_by_character(
    a: &str,
    b: &str,
    both: &str,
    x: String,
    y: String,
    z: String,
)
    requires
        both@ == a@ + b@,
        call_ensures(sanitize_filename, (a,), x),
        call_ensures(sanitize_filename, (b,), y),
        call_ensures(sanitize_filename, (both,), z),
    ensures
        a@.len() == 0 ==> x@ == "download.bin"@,
        a@.len() > 0 && b@.len() > 0 ==> z@ == x@ + y@,
        a@.len() == 1 ==> {
            &&& x@.len() == 1
            &&& (a@[0] as u32) < 128 ==> x@[0] == (if 'a' <= a@[0] <= 'z' || 'A' <= a@[0] <= 'Z'
                || '0' <= a@[0] <= '9' || a@[0] == '.' || a@[0] == '-' || a@[0] == '_' {
                a@[0]
            } else {
                '_'
            })
            &&& (a@[0] as u32) >= 128 ==> x@[0] == (if crate::text::char_alphanumeric(a@[0]) {
                a@[0]
            } else {
                '_'
            })
        },
{
    assert(with_safe_chars(a@ + b@) =~= with_safe_chars(a@) + with_safe_chars(b@));
    if a@.len() == 1 {
        assert(keeps_plain(a@[0], x@[0]));
    }
}

/// A file is named after the final segment alone: a path that ends in it gives the same name
/// however many segments stand before.
pub proof fn law_only_the_final_segment_counts(
    long: &ParsedUrl,
    short: &ParsedUrl,
    x: String,
    y: String,
)
    requires
        long.segments is Some && long.segments->0@.len() > 0,
        short.segments is Some && short.segments->0@.len() == 1,
        long.segments->0@[long.segments->0@.len() - 1]@ == short.segments->0@[0]@,
        call_ensures(extract_filename_from_url, (long,), x),
        call_ensures(extract_filename_from_url, (short,), y),
    ensures
        x@ == y@,
{
    assert(long.segments_view()->0.last() == long.segments->0@[long.segments->0@.len() - 1]@);
    assert(short.segments_view()->0.last() == short.segments->0@[0]@);
}

/// A final segment of ASCII letters, digits, dots, hyphens and underscores is the name as it is,
/// whatever stands before it.
pub proof fn law_plain_final_segments_are_names(url: &ParsedUrl, name: Seq<char>, r: String)
    requires
        url.segments is Some && url.segments->0@.len() > 0,
        url.segments->0@[url.segments->0@.len() - 1]@ == name,
        name.len() > 0,
        forall|i: int|
            0 <= i < name.len() ==> 'a' <= #[trigger] name[i] <= 'z' || 'A' <= name[i] <= 'Z' || '0'
                <= name[i] <= '9' || name[i] == '.' || name[i] == '-' || name[i] == '_',
        call_ensures(extract_filename_from_url, (url,), r),
    ensures
        r@ == name,
{
    assert(url.segments_view()->0.last() == url.segments->0@[url.segments->0@.len() - 1]@);
    if name.contains('%') {
        let i = choose|i: int| 0 <= i < name.len() && name[i] == '%';
        assert('a' <= name[i] <= 'z' || 'A' <= name[i] <= 'Z' || '0' <= name[i] <= '9' || name[i]
            == '.' || name[i] == '-' || name[i] == '_');
    }
    assert(r@.len() == name.len());
    assert forall|i: int| 0 <= i < name.len() implies r@[i] == name[i] by {
        assert(keeps_plain(name[i], r@[i]));
    }
    assert(r@ =~= name);
}

/// Any final segment that is not empty gives the name that its decoded text gives, or it itself
/// where it cannot be decoded.
pub proof fn law_names_are_made_of_the_decoded_segment(
    url: &ParsedUrl,
    name: Seq<char>,
    text: &str,
    r: String,
    sanitized: String,
)
    requires
        url.segments is Some && url.segments->0@.len() > 0,
        url.segments->0@[url.segments->0@.len() - 1]@ == name,
        name.len() > 0,
        crate::link::percent_decoded(name) matches Some(d) ==> text@ == d,
        crate::link::percent_decoded(name) is None ==> text@ == name,
        call_ensures(sanitize_filename, (text,), sanitized),
        call_ensures(extract_filename_from_url, (url,), r),
    ensures
        r@ == sanitized@,
{
    assert(url.segments_view()->0.last() == url.segments->0@[url.segments->0@.len() - 1]@);
}

/// Without a final segment, or with an empty one, the name is `download`.
pub proof fn law_links_without_a_name(url: &ParsedUrl, r: String)
    requires
        url.segments matches Some(list) ==> list@.len() == 0 || list@[list@.len() - 1]@.len() == 0,
        call_ensures(extract_filename_from_url, (url,), r),
    ensures
        r@ == "download"@,
{
    reveal_strlit("download");
    let name = "download"@;
    if url.segments is Some && url.segments->0@.len() > 0 {
        assert(url.segments_view()->0.last() == url.segments->0@[url.segments->0@.len() - 1]@);
    }
    assert(last_segment(url.segments_view()) == name);
    assert(!name.contains('%'));
    assert forall|i: int| 0 <= i < name.len() implies r@[i] == name[i] by {
        assert(keeps_plain(name[i], r@[i]));
    }
    assert(r@ =~= name);
}

/// More than one connection pays off exactly for a file of more than 5 MiB and more than one
/// thread.
pub proof fn law_multi_stream_pays_off(total_size: u64, threads: usize, r: bool)
    requires
        call_ensures(should_use_multi_stream, (total_size, threads), r),
    ensures
        r <==> total_size >= 5_242_881 && threads >= 2,
{
}

/// The default size of a range lets each thread have four of them, rounded down: four times the
/// threads times it is the file, up to what division leaves over, unless a bound of 1 or 64 MiB
/// stands in the way.
pub proof fn law_default_range_size(total_size: u64, threads: usize, r: u64)
    requires
        threads > 0,
        threads * CHUNKS_PER_THREAD <= usize::MAX,
        call_ensures(calculate_optimal_chunk_size, (total_size, threads), r),
    ensures
        1_048_576 <= r <= 67_108_864,
        r > 1_048_576 ==> r * (4 * threads) <= total_size,
        r < 67_108_864 ==> total_size < (r + 1) * (4 * threads),
{
    let n = 4 * threads;
    let t = total_size as int;
    assert(threads * CHUNKS_PER_THREAD == n);
    vstd::arithmetic::div_mod::lemma_fundamental_div_mod(t, n);
    let q = t / n;
    assert(n * q == q * n) by (nonlinear_arith);
    assert((q + 1) * n == q * n + n) by (nonlinear_arith);
    assert(r <= q ==> r * n <= q * n) by (nonlinear_arith)
        requires
            n > 0,
    ;
    assert(q <= r ==> (q + 1) * n <= (r + 1) * n) by (nonlinear_arith)
        requires
            n > 0,
    ;
}

/// A finished file is put into place by one renaming, which comes last; what stood there is
/// removed before it, exactly if there was something.
pub proof fn law_finalizing(output_exists: bool, r: Vec<FinalizeStep>)
    requires
        call_ensures(finalize_download, (output_exists,), r),
    ensures
        r@.len() == (if output_exists {
            2int
        } else {
            1
        }),
        r@[r@.len() - 1] is Rename,
        output_exists ==> r@[0] is RemoveExisting,
{
}

proof fn lemma_nearest(n: int, d: int, h: int)
    requires
        d > 0,
        2 * n - d <= 2 * (h * d) <= 2 * n + d,
        2 * (h * d) == 2 * n - d || 2 * (h * d) == 2 * n + d ==> h % 2 == 0,
    ensures
        h == round_half_even(n, d),
{
    let q = n / d;
    let rest = n % d;
    vstd::arithmetic::div_mod::lemma_fundamental_div_mod(n, d);
    assert(d * q == q * d) by (nonlinear_arith);
    assert(q <= h <= q + 1) by (nonlinear_arith)
        requires
            d > 0,
            n == q * d + rest,
            0 <= rest < d,
            2 * n - d <= 2 * (h * d) <= 2 * n + d,
    ;
    assert((q + 1) * d == q * d + d) by (nonlinear_arith);
}

proof fn lemma_rounding(n: int, d: int)
    requires
        d > 0,
    ensures
        ({
            let h = round_half_even(n, d);
            &&& 2 * n - d <= 2 * (h * d) <= 2 * n + d
            &&& 2 * (h * d) == 2 * n - d || 2 * (h * d) == 2 * n + d ==> h % 2 == 0
        }),
{
    let q = n / d;
    vstd::arithmetic::div_mod::lemma_fundamental_div_mod(n, d);
    assert(d * q == q * d) by (nonlinear_arith);
    assert((q + 1) * d == q * d + d) by (nonlinear_arith);
}

#[verifier::spinoff_prover]
proof fn lemma_spacing(n: nat, k: nat)
    requires
        0x10_0000_0000_0000 * vstd::arithmetic::power2::pow2(k) <= n < 0x20_0000_0000_0000
            * vstd::arithmetic::power2::pow2(k),
    ensures
        double_spacing(n) == vstd::arithmetic::power2::pow2(k),
    decreases k,
{
    if k == 0 {
        vstd::arithmetic::power2::lemma2_to64();
    } else {
        vstd::arithmetic::power2::lemma_pow2_unfold(k);
        vstd::arithmetic::power2::lemma_pow2_pos((k - 1) as nat);
        let p = vstd::arithmetic::power2::pow2((k - 1) as nat) as int;
        lemma_spacing(n / 2, (k - 1) as nat);
    }
}

/// A double holds every whole number below 2^53. Of a number between 2^52 and 2^53 times a power
/// of two it holds the nearest multiple of that power, and the even one of two that are as near.
#[verifier::spinoff_prover]
pub proof fn law_double_precision(n: nat, k: nat)
    ensures
        n < 0x20_0000_0000_0000 ==> as_double(n) == n,
        ({
            let p = vstd::arithmetic::power2::pow2(k) as int;
            0x10_0000_0000_0000 * p <= n < 0x20_0000_0000_0000 * p ==> {
                let m = as_double(n) as int / p;
                &&& as_double(n) == m * p
                &&& 2 * n - p <= 2 * as_double(n) <= 2 * n + p
                &&& 2 * as_double(n) == 2 * n - p || 2 * as_double(n) == 2 * n + p ==> m % 2 == 0
            }
        }),
{
    let p = vstd::arithmetic::power2::pow2(k) as int;
    vstd::arithmetic::power2::lemma_pow2_pos(k);
    if n < 0x20_0000_0000_0000 {
        lemma_nearest(n as int, 1, n as int);
        assert(double_spacing(n) == 1);
        assert(round_half_even(n as int, 1) == n);
    }
    if 0x10_0000_0000_0000 * p <= n < 0x20_0000_0000_0000 * p {
        lemma_spacing(n, k);
        lemma_rounding(n as int, p);
        let h = round_half_even(n as int, p);
        vstd::arithmetic::div_mod::lemma_div_pos_is_pos(n as int, p);
        assert(h * p >= 0) by (nonlinear_arith)
            requires
                h >= 0,
                p > 0,
        ;
        assert(as_double(n) == h * p);
        vstd::arithmetic::div_mod::lemma_div_multiples_vanish(h, p);
        assert(p * h == h * p) by (nonlinear_arith);
        assert(as_double(n) as int / p == h);
    }
}

/// How a size is shown. Below 1024 it is the number of bytes. Else it is a number of hundredths of
/// a unit, the nearest to the size with the precision of a double, and the even one of two that
/// are as near; the unit is the power of 1024 that the size reaches, petabytes from three bytes
/// before it on and exabytes from 6144.
pub proof fn law_sizes_are_shown_in_units(
    bytes: u64,
    r: String,
    size: int,
    unit: int,
    letter: char,
    hundredths: nat,
)
    requires
        call_ensures(format_file_size, (bytes,), r),
        size == as_double(bytes as nat),
        unit == (if size < 0x10_0000 {
            0x400int
        } else if size < 0x4000_0000 {
            0x10_0000
        } else if size < 0x100_0000_0000 {
            0x4000_0000
        } else if size < 0x4_0000_0000_0000 - 3 {
            0x100_0000_0000
        } else if size < 0x1000_0000_0000_0000 - 6144 {
            0x4_0000_0000_0000
        } else {
            0x1000_0000_0000_0000
        }),
        letter == (if unit == 0x400 {
            'K'
        } else if unit == 0x10_0000 {
            'M'
        } else if unit == 0x4000_0000 {
            'G'
        } else if unit == 0x100_0000_0000 {
            'T'
        } else if unit == 0x4_0000_0000_0000 {
            'P'
        } else {
            'E'
        }),
        200 * size - unit <= 2 * (hundredths * unit) <= 200 * size + unit,
        2 * (hundredths * unit) == 200 * size - unit || 2 * (hundredths * unit) == 200 * size + unit
            ==> hundredths % 2 == 0,
    ensures
        bytes < 1024 ==> r@ == crate::text::decimal(bytes as nat) + " B"@,
        bytes >= 1024 ==> r@ == crate::text::decimal(hundredths / 100) + seq![
            '.',
            (48 + hundredths / 10 % 10) as char,
            (48 + hundredths % 10) as char,
            ' ',
            letter,
            'B',
        ],
{
    if bytes >= 1024 {
        lemma_nearest(100 * size, unit, hundredths as int);
        assert(r@ =~= crate::text::decimal(hundredths / 100) + seq![
            '.',
            (48 + hundredths / 10 % 10) as char,
            (48 + hundredths % 10) as char,
            ' ',
            letter,
            'B',
        ]);
    }
}

} // verus!
