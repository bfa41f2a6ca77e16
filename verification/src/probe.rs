//! Probing a server: what its answers to a handful of requests show of it.
use vstd::prelude::*;

use crate::jito::{calculate_chunk_size_advanced, ProbeResult, ServerCapability, ThrottlePattern};
use crate::net::range_header;
use crate::numbers::sum_all;
use crate::quality::{Batch, Quality};
use crate::ratio::Ratio;
use crate::text::{chars_of, has_text, lower_chars};

verus! {

/// For how many milliseconds the first request may stay without an answer; the checks for
/// ranges have half of that.
pub const PROBE_TIMEOUT: u64 = 6000;

/// The status that answers a request for a byte range.
pub const PARTIAL_CONTENT: u16 = 206;

/// How many requests the check for pipelining sends at once.
pub const PIPELINING_REQUESTS: usize = 3;

/// How many bytes each request of the check for pipelining asks for.
pub const PIPELINING_BYTES: u64 = 1024;

/// The mean time of the check for pipelining must stay below this, in nanoseconds.
pub const PIPELINING_LIMIT_NS: u64 = 500_000_000;

/// The most streams that are used over one HTTP/2 connection.
pub const HTTP2_STREAMS: usize = 128;

/// The most streams that are used over one HTTP/3 connection.
pub const HTTP3_STREAMS: usize = 256;

/// What the answer to a `HEAD` request shows.
#[derive(Debug, Clone)]
pub struct HeadFacts {
    pub http2: bool,
    pub http3: bool,
    /// The value of the `Connection` header, if it is there and readable as text.
    pub connection: Option<String>,
    pub has_103_header: bool,
    pub has_early_hints_header: bool,
    pub has_server_timing_header: bool,
}

impl HeadFacts {
    /// Whether the `Connection` header speaks of `keep-alive`, in capitals or not.
    pub open spec fn keeps_alive(&self) -> bool {
        match self.connection {
            Some(v) => crate::text::contains_text(crate::text::lower_text(v@), "keep-alive"@),
            None => false,
        }
    }

    fn says_keep_alive(&self) -> (r: bool)
        ensures
            r == self.keeps_alive(),
    {
        match &self.connection {
            Some(v) => has_text(&lower_chars(&chars_of(v.as_str())), "keep-alive"),
            None => false,
        }
    }
}

/// Whether the answer to a request for the first byte shows that ranges are served.
pub fn check_ranges(status: Option<u16>) -> (r: bool)
    ensures
        r == (status == Some(PARTIAL_CONTENT)),
{
    match status {
        Some(code) => code == PARTIAL_CONTENT,
        None => false,
    }
}

/// Whether the content type of an answer to a request for two ranges shows that several
/// ranges are served at once.
pub fn check_multirange(content_type: &Option<String>) -> (r: bool)
    ensures
        r == (match content_type {
            Some(v) => crate::text::contains_text(v@, "multipart/byteranges"@),
            None => false,
        }),
{
    match content_type {
        Some(v) => has_text(&chars_of(v.as_str()), "multipart/byteranges"),
        None => false,
    }
}

/// Whether requests sent at once were dealt with fast enough: at least three of them ended,
/// and they took less than half a second on average, in whole nanoseconds.
pub open spec fn pipelines_well(elapsed_ns: Seq<u64>) -> bool {
    elapsed_ns.len() >= PIPELINING_REQUESTS && crate::numbers::sum_of(elapsed_ns)
        / elapsed_ns.len() < PIPELINING_LIMIT_NS
}

/// Whether requests sent at once were dealt with fast enough; `elapsed_ns` holds the times of
/// those that ended.
pub fn check_pipelining_support(elapsed_ns: &Vec<u64>) -> (r: bool)
    ensures
        r == pipelines_well(elapsed_ns@),
{
    let n: usize = elapsed_ns.len();
    if n < PIPELINING_REQUESTS {
        return false;
    }
    let sum: u128 = sum_all(elapsed_ns);
    sum / (n as u128) < PIPELINING_LIMIT_NS as u128
}

/// The `Range` header of request `i` of the check for pipelining.
pub fn pipelining_range(i: u64) -> (r: String)
    requires
        i < PIPELINING_REQUESTS,
    ensures
        r@ == crate::net::range_text(
            (i * PIPELINING_BYTES) as nat,
            (i * PIPELINING_BYTES + PIPELINING_BYTES - 1) as nat,
        ),
{
    range_header(i * PIPELINING_BYTES, i * PIPELINING_BYTES + (PIPELINING_BYTES - 1))
}

/// The `Range` header of request `i` of a batch: the requests of a batch ask for neighbouring
/// stretches of the file.
pub fn batch_range(batch: &Batch, i: usize) -> (r: String)
    requires
        i < batch.count,
        0 < batch.probe_size,
        batch.count * batch.probe_size <= u64::MAX,
    ensures
        r@ == crate::net::range_text(
            (i * batch.probe_size) as nat,
            (i * batch.probe_size + batch.probe_size - 1) as nat,
        ),
{
    proof {
        assert(0 <= i * batch.probe_size && i * batch.probe_size + batch.probe_size <= batch.count
            * batch.probe_size) by (nonlinear_arith)
            requires
                0 <= i,
                i + 1 <= batch.count,
                0 < batch.probe_size,
        ;
    }
    let start: u64 = i as u64 * batch.probe_size;
    range_header(start, start + (batch.probe_size - 1))
}

/// `cap` alone if `there` holds, else nothing.
pub open spec fn only_if(there: bool, cap: ServerCapability) -> Seq<ServerCapability> {
    if there {
        seq![cap]
    } else {
        seq![]
    }
}

/// The capabilities that the probes have shown, in the order in which they are looked for.
pub open spec fn shown_capabilities(
    head: HeadFacts,
    ranges: bool,
    multirange: bool,
) -> Seq<ServerCapability> {
    only_if(head.http2, ServerCapability::Http2) + only_if(head.http3, ServerCapability::Http3)
        + only_if(head.keeps_alive(), ServerCapability::KeepAlive) + only_if(
        head.has_103_header || head.has_early_hints_header,
        ServerCapability::EarlyHints,
    ) + only_if(head.has_server_timing_header, ServerCapability::ServerTiming) + only_if(
        ranges,
        ServerCapability::RangeSupport,
    ) + only_if(ranges && multirange, ServerCapability::MultiRange)
}

fn push_if(caps: &mut Vec<ServerCapability>, there: bool, cap: ServerCapability)
    ensures
        final(caps)@ == old(caps)@ + only_if(there, cap),
{
    if there {
        caps.push(cap);
    }
    proof {
        assert(caps@ =~= old(caps)@ + only_if(there, cap));
    }
}

/// The capabilities that the probes have shown.
pub fn detect_capabilities(head: &HeadFacts, ranges: bool, multirange: bool) -> (r: Vec<
    ServerCapability,
>)
    ensures
        r@ == shown_capabilities(*head, ranges, multirange),
{
    let mut caps: Vec<ServerCapability> = Vec::new();
    push_if(&mut caps, head.http2, ServerCapability::Http2);
    push_if(&mut caps, head.http3, ServerCapability::Http3);
    push_if(&mut caps, head.says_keep_alive(), ServerCapability::KeepAlive);
    push_if(
        &mut caps,
        head.has_103_header || head.has_early_hints_header,
        ServerCapability::EarlyHints,
    );
    push_if(&mut caps, head.has_server_timing_header, ServerCapability::ServerTiming);
    push_if(&mut caps, ranges, ServerCapability::RangeSupport);
    push_if(&mut caps, ranges && multirange, ServerCapability::MultiRange);
    proof {
        assert(caps@ =~= shown_capabilities(*head, ranges, multirange));
    }
    caps
}

/// What is taken for the quality of the connection: the verdict on it if the server serves
/// ranges, else a single unstable connection with the latency of the first request.
pub open spec fn effective_quality(ranged: Option<Quality>, base_latency_ms: u64) -> Quality {
    match ranged {
        Some(q) => q,
        None => Quality {
            max_threads: 1,
            throttle: ThrottlePattern::Unstable,
            speed: 0,
            latency_ms: base_latency_ms,
            packet_loss: Ratio { num: 0, den: 1 },
            jitter_ms: 0,
        },
    }
}

/// How many streams are worth opening: the threads that the connection bears, within what
/// the protocol is used for.
pub open spec fn stream_limit(head: HeadFacts, max_threads: usize) -> usize {
    if head.http2 {
        crate::numbers::least(max_threads as int, HTTP2_STREAMS as int) as usize
    } else if head.http3 {
        crate::numbers::least(max_threads as int, HTTP3_STREAMS as int) as usize
    } else {
        max_threads
    }
}

/// Whether `p` is what the probes add up to.
pub open spec fn is_probe_result(
    p: ProbeResult,
    head: HeadFacts,
    ranged: Option<Quality>,
    multirange: bool,
    pipelining: bool,
    base_latency_ms: u64,
) -> bool {
    let q = effective_quality(ranged, base_latency_ms);
    &&& p.caps@ == shown_capabilities(head, ranged is Some, multirange)
    &&& p.throttle == q.throttle
    &&& p.chunk_size == crate::jito::chunk_size_for(
        q.speed as int,
        q.max_threads as int,
        q.latency_ms as int,
        q.packet_loss,
    )
    &&& p.speed_est == q.speed
    &&& p.latency_ms == q.latency_ms
    &&& p.packet_loss == q.packet_loss
    &&& p.jitter_ms == q.jitter_ms
    &&& p.supports_pipelining == pipelining
    &&& p.optimal_concurrent_streams == stream_limit(head, q.max_threads)
}

/// Adds up what the probes have shown. `ranged` is the verdict on the connection, and there
/// exactly if the server serves ranges; `base_latency_ms` is the latency of the first request.
pub fn probe_server(
    head: &HeadFacts,
    ranged: Option<Quality>,
    multirange: bool,
    pipelining: bool,
    base_latency_ms: u64,
) -> (r: ProbeResult)
    ensures
        is_probe_result(r, *head, ranged, multirange, pipelining, base_latency_ms),
{
    let caps: Vec<ServerCapability> = detect_capabilities(head, ranged.is_some(), multirange);
    let q: Quality = match ranged {
        Some(q) => q,
        None => Quality {
            max_threads: 1,
            throttle: ThrottlePattern::Unstable,
            speed: 0,
            latency_ms: base_latency_ms,
            packet_loss: Ratio { num: 0, den: 1 },
            jitter_ms: 0,
        },
    };
    let streams: usize = if head.http2 {
        if q.max_threads <= HTTP2_STREAMS {
            q.max_threads
        } else {
            HTTP2_STREAMS
        }
    } else if head.http3 {
        if q.max_threads <= HTTP3_STREAMS {
            q.max_threads
        } else {
            HTTP3_STREAMS
        }
    } else {
        q.max_threads
    };
    let chunk_size: u64 = calculate_chunk_size_advanced(
        q.speed,
        q.max_threads,
        q.latency_ms,
        q.packet_loss,
    );
    ProbeResult {
        caps,
        throttle: q.throttle,
        chunk_size,
        speed_est: q.speed,
        latency_ms: q.latency_ms,
        packet_loss: q.packet_loss,
        jitter_ms: q.jitter_ms,
        supports_pipelining: pipelining,
        optimal_concurrent_streams: streams,
    }
}

proof fn lemma_only_if(
    s: Seq<ServerCapability>,
    there: bool,
    cap: ServerCapability,
    x: ServerCapability,
)
    ensures
        (s + only_if(there, cap)).contains(x) <==> s.contains(x) || (there && cap == x),
{
    let t = s + only_if(there, cap);
    if s.contains(x) {
        let i = choose|i: int| 0 <= i < s.len() && s[i] == x;
        assert(t[i] == x);
    }
    if there && cap == x {
        assert(t[s.len() as int] == x);
    }
    if t.contains(x) {
        let i = choose|i: int| 0 <= i < t.len() && t[i] == x;
        if i < s.len() {
            assert(s[i] == x);
        }
    }
}

proof fn lemma_shown(head: HeadFacts, ranges: bool, multirange: bool, x: ServerCapability)
    requires
        x == ServerCapability::RangeSupport || x == ServerCapability::MultiRange || x
            == ServerCapability::KeepAlive,
    ensures
        shown_capabilities(head, ranges, multirange).contains(x) == (match x {
            ServerCapability::RangeSupport => ranges,
            ServerCapability::MultiRange => ranges && multirange,
            _ => head.keeps_alive(),
        }),
{
    let alive = head.keeps_alive();
    let hints = head.has_103_header || head.has_early_hints_header;
    let s1 = only_if(head.http2, ServerCapability::Http2);
    let s2 = s1 + only_if(head.http3, ServerCapability::Http3);
    let s3 = s2 + only_if(alive, ServerCapability::KeepAlive);
    let s4 = s3 + only_if(hints, ServerCapability::EarlyHints);
    let s5 = s4 + only_if(head.has_server_timing_header, ServerCapability::ServerTiming);
    let s6 = s5 + only_if(ranges, ServerCapability::RangeSupport);
    assert(!s1.contains(x));
    lemma_only_if(s1, head.http3, ServerCapability::Http3, x);
    lemma_only_if(s2, alive, ServerCapability::KeepAlive, x);
    lemma_only_if(s3, hints, ServerCapability::EarlyHints, x);
    lemma_only_if(s4, head.has_server_timing_header, ServerCapability::ServerTiming, x);
    lemma_only_if(s5, ranges, ServerCapability::RangeSupport, x);
    lemma_only_if(s6, ranges && multirange, ServerCapability::MultiRange, x);
}

/// Several ranges at once are never claimed of a server that does not serve ranges, and ranges
/// and kept-alive connections are claimed exactly of those that showed them.
pub proof fn law_capabilities_are_shown(head: HeadFacts, ranges: bool, multirange: bool)
    ensures
        ({
            let caps = shown_capabilities(head, ranges, multirange);
            &&& caps.contains(ServerCapability::RangeSupport) <==> ranges
            &&& caps.contains(ServerCapability::KeepAlive) <==> head.keeps_alive()
            &&& caps.contains(ServerCapability::MultiRange) ==> caps.contains(
                ServerCapability::RangeSupport,
            )
        }),
{
    lemma_shown(head, ranges, multirange, ServerCapability::RangeSupport);
    lemma_shown(head, ranges, multirange, ServerCapability::MultiRange);
    lemma_shown(head, ranges, multirange, ServerCapability::KeepAlive);
}

/// A server that does not serve ranges is downloaded from over a single connection, and one
/// that does over at least one and at most as many as were asked for and it was judged to bear.
pub proof fn law_probe_decides_connections(
    p: ProbeResult,
    head: HeadFacts,
    ranged: Option<Quality>,
    multirange: bool,
    pipelining: bool,
    base_latency_ms: u64,
    threads: usize,
)
    requires
        is_probe_result(p, head, ranged, multirange, pipelining, base_latency_ms),
        threads > 0,
        ranged matches Some(q) ==> q.max_threads > 0,
    ensures
        ranged is None ==> crate::jito::selected_config(p, threads)
            == crate::jito::single_connection_config(),
        ranged matches Some(q) ==> 1 <= crate::jito::selected_config(p, threads).thread_count
            <= threads && crate::jito::selected_config(p, threads).thread_count <= q.max_threads,
{
    lemma_shown(head, ranged is Some, multirange, ServerCapability::RangeSupport);
    lemma_shown(head, ranged is Some, multirange, ServerCapability::KeepAlive);
}

/// A full connection pool is kept exactly for servers that serve ranges, keep connections
/// alive, pipeline, and answer within 100 ms.
pub proof fn law_pool_needs_ranges_and_keep_alive(
    p: ProbeResult,
    head: HeadFacts,
    ranged: Option<Quality>,
    multirange: bool,
    pipelining: bool,
    base_latency_ms: u64,
    threads: usize,
)
    requires
        is_probe_result(p, head, ranged, multirange, pipelining, base_latency_ms),
    ensures
        crate::jito::selected_config(p, threads).connection_pool_size
            == crate::jito::CONNECTION_POOL_SIZE <==> (ranged is Some && head.keeps_alive()
            && pipelining && ranged->0.latency_ms < 100),
{
    lemma_shown(head, ranged is Some, multirange, ServerCapability::RangeSupport);
    lemma_shown(head, ranged is Some, multirange, ServerCapability::KeepAlive);
}

/// Ranges are served exactly if the first byte was answered with 206.
pub proof fn law_ranges_need_partial_content(status: Option<u16>, r: bool)
    requires
        call_ensures(check_ranges, (status,), r),
    ensures
        status is None ==> !r,
        status matches Some(code) ==> (r <==> code == 206),
{
}

/// Several ranges at once are served exactly if the content type has `multipart/byteranges`
/// somewhere in it.
pub proof fn law_multirange_needs_the_content_type(content_type: &Option<String>, r: bool)
    requires
        call_ensures(check_multirange, (content_type,), r),
    ensures
        *content_type is None ==> !r,
        *content_type matches Some(v) ==> (r <==> exists|a: Seq<char>, b: Seq<char>|
            v@ == #[trigger] (a + "multipart/byteranges"@ + b)),
{
    if *content_type is Some {
        crate::text::law_containing((*content_type)->0@, "multipart/byteranges"@);
    }
}

/// Requests are pipelined well exactly if at least three ended and together took less than half a
/// second each.
pub proof fn law_pipelining(elapsed_ns: &Vec<u64>, r: bool, total: u128)
    requires
        call_ensures(check_pipelining_support, (elapsed_ns,), r),
        call_ensures(sum_all, (elapsed_ns,), total),
    ensures
        r <==> elapsed_ns@.len() >= 3 && total < 500_000_000 * elapsed_ns@.len(),
{
    let n = elapsed_ns@.len() as int;
    if n >= 3 {
        let sum = total as int;
        vstd::arithmetic::div_mod::lemma_fundamental_div_mod(sum, n);
        let q = sum / n;
        assert(n * q == q * n) by (nonlinear_arith);
        assert((q < 500_000_000) == (sum < 500_000_000 * n)) by (nonlinear_arith)
            requires
                n > 0,
                q * n <= sum < q * n + n,
        ;
    }
}

/// The requests of the check for pipelining ask for neighbouring stretches of 1024 bytes, from
/// the first byte on.
pub proof fn law_pipelining_ranges(i: u64, r: String, start: u64, header: String)
    requires
        i < 3,
        start == 1024 * i,
        call_ensures(pipelining_range, (i,), r),
        call_ensures(range_header, (start, (start + 1023) as u64), header),
    ensures
        r@ == header@,
{
}

/// The requests of a batch ask for neighbouring stretches of its size, from the first byte on.
pub proof fn law_batch_ranges(batch: &Batch, i: usize, r: String, start: u64, header: String)
    requires
        i < batch.count,
        0 < batch.probe_size,
        batch.count * batch.probe_size <= u64::MAX,
        start == i * batch.probe_size,
        call_ensures(batch_range, (batch, i), r),
        call_ensures(range_header, (start, (start + batch.probe_size - 1) as u64), header),
    ensures
        r@ == header@,
{
    assert(i * batch.probe_size + batch.probe_size <= batch.count * batch.probe_size)
        by (nonlinear_arith)
        requires
            i + 1 <= batch.count,
            0 < batch.probe_size,
    ;
}

proof fn lemma_each_capability(
    head: HeadFacts,
    ranges: bool,
    multirange: bool,
    x: ServerCapability,
)
    ensures
        shown_capabilities(head, ranges, multirange).contains(x) <==> {
            ||| x is Http2 && head.http2
            ||| x is Http3 && head.http3
            ||| x is KeepAlive && head.keeps_alive()
            ||| x is EarlyHints && (head.has_103_header || head.has_early_hints_header)
            ||| x is ServerTiming && head.has_server_timing_header
            ||| x is RangeSupport && ranges
            ||| x is MultiRange && ranges && multirange
        },
{
    let alive = head.keeps_alive();
    let hints = head.has_103_header || head.has_early_hints_header;
    let s0 = Seq::<ServerCapability>::empty();
    let s1 = only_if(head.http2, ServerCapability::Http2);
    let s2 = s1 + only_if(head.http3, ServerCapability::Http3);
    let s3 = s2 + only_if(alive, ServerCapability::KeepAlive);
    let s4 = s3 + only_if(hints, ServerCapability::EarlyHints);
    let s5 = s4 + only_if(head.has_server_timing_header, ServerCapability::ServerTiming);
    let s6 = s5 + only_if(ranges, ServerCapability::RangeSupport);
    assert(s0 + s1 =~= s1);
    lemma_only_if(s0, head.http2, ServerCapability::Http2, x);
    lemma_only_if(s1, head.http3, ServerCapability::Http3, x);
    lemma_only_if(s2, alive, ServerCapability::KeepAlive, x);
    lemma_only_if(s3, hints, ServerCapability::EarlyHints, x);
    lemma_only_if(s4, head.has_server_timing_header, ServerCapability::ServerTiming, x);
    lemma_only_if(s5, ranges, ServerCapability::RangeSupport, x);
    lemma_only_if(s6, ranges && multirange, ServerCapability::MultiRange, x);
}

/// Each capability is listed exactly if it was shown, and compression never is.
pub proof fn law_capabilities_are_listed_if_shown(
    head: &HeadFacts,
    ranges: bool,
    multirange: bool,
    r: Vec<ServerCapability>,
)
    requires
        call_ensures(detect_capabilities, (head, ranges, multirange), r),
    ensures
        r@.contains(ServerCapability::Http2) <==> head.http2,
        r@.contains(ServerCapability::Http3) <==> head.http3,
        r@.contains(ServerCapability::KeepAlive) <==> head.keeps_alive(),
        r@.contains(ServerCapability::EarlyHints) <==> head.has_103_header
            || head.has_early_hints_header,
        r@.contains(ServerCapability::ServerTiming) <==> head.has_server_timing_header,
        r@.contains(ServerCapability::RangeSupport) <==> ranges,
        r@.contains(ServerCapability::MultiRange) <==> ranges && multirange,
        !r@.contains(ServerCapability::Gzip) && !r@.contains(ServerCapability::Brotli),
{
    lemma_each_capability(*head, ranges, multirange, ServerCapability::Http2);
    lemma_each_capability(*head, ranges, multirange, ServerCapability::Http3);
    lemma_each_capability(*head, ranges, multirange, ServerCapability::KeepAlive);
    lemma_each_capability(*head, ranges, multirange, ServerCapability::EarlyHints);
    lemma_each_capability(*head, ranges, multirange, ServerCapability::ServerTiming);
    lemma_each_capability(*head, ranges, multirange, ServerCapability::RangeSupport);
    lemma_each_capability(*head, ranges, multirange, ServerCapability::MultiRange);
    lemma_each_capability(*head, ranges, multirange, ServerCapability::Gzip);
    lemma_each_capability(*head, ranges, multirange, ServerCapability::Brotli);
}

/// Where a capability stands in the list: protocols before connections, ranges last.
pub open spec fn place_in_list(cap: ServerCapability) -> int {
    match cap {
        ServerCapability::Http2 => 0,
        ServerCapability::Http3 => 1,
        ServerCapability::KeepAlive => 2,
        ServerCapability::EarlyHints => 3,
        ServerCapability::ServerTiming => 4,
        ServerCapability::RangeSupport => 5,
        ServerCapability::MultiRange => 6,
        _ => 7,
    }
}

spec fn in_order_below(s: Seq<ServerCapability>, bound: int) -> bool {
    &&& forall|i: int, j: int|
        0 <= i < j < s.len() ==> place_in_list(#[trigger] s[i]) < place_in_list(#[trigger] s[j])
    &&& forall|i: int| 0 <= i < s.len() ==> place_in_list(#[trigger] s[i]) < bound
}

proof fn lemma_stays_in_order(s: Seq<ServerCapability>, there: bool, cap: ServerCapability)
    requires
        in_order_below(s, place_in_list(cap)),
    ensures
        in_order_below(s + only_if(there, cap), place_in_list(cap) + 1),
{
    let t = s + only_if(there, cap);
    assert forall|i: int| 0 <= i < t.len() implies place_in_list(#[trigger] t[i]) < place_in_list(
        cap,
    ) + 1 by {
        if i < s.len() {
            assert(t[i] == s[i]);
        }
    }
    assert forall|i: int, j: int| 0 <= i < j < t.len() implies place_in_list(#[trigger] t[i])
        < place_in_list(#[trigger] t[j]) by {
        assert(t[i] == s[i]);
        if j < s.len() {
            assert(t[j] == s[j]);
        }
    }
}

/// Capabilities are listed in a fixed order and none of them twice.
pub proof fn law_capabilities_are_listed_in_order(
    head: &HeadFacts,
    ranges: bool,
    multirange: bool,
    r: Vec<ServerCapability>,
    i: int,
    j: int,
)
    requires
        call_ensures(detect_capabilities, (head, ranges, multirange), r),
        0 <= i < j < r@.len(),
    ensures
        place_in_list(r@[i]) < place_in_list(r@[j]),
{
    let alive = head.keeps_alive();
    let hints = head.has_103_header || head.has_early_hints_header;
    let s0 = Seq::<ServerCapability>::empty();
    let s1 = only_if(head.http2, ServerCapability::Http2);
    let s2 = s1 + only_if(head.http3, ServerCapability::Http3);
    let s3 = s2 + only_if(alive, ServerCapability::KeepAlive);
    let s4 = s3 + only_if(hints, ServerCapability::EarlyHints);
    let s5 = s4 + only_if(head.has_server_timing_header, ServerCapability::ServerTiming);
    let s6 = s5 + only_if(ranges, ServerCapability::RangeSupport);
    assert(s0 + s1 =~= s1);
    lemma_stays_in_order(s0, head.http2, ServerCapability::Http2);
    lemma_stays_in_order(s1, head.http3, ServerCapability::Http3);
    lemma_stays_in_order(s2, alive, ServerCapability::KeepAlive);
    lemma_stays_in_order(s3, hints, ServerCapability::EarlyHints);
    lemma_stays_in_order(s4, head.has_server_timing_header, ServerCapability::ServerTiming);
    lemma_stays_in_order(s5, ranges, ServerCapability::RangeSupport);
    lemma_stays_in_order(s6, ranges && multirange, ServerCapability::MultiRange);
}

/// A connection is kept alive exactly if its header has `keep-alive` somewhere in it, in capital
/// letters or small ones.
pub proof fn law_keep_alive(head: HeadFacts)
    ensures
        head.connection is None ==> !head.keeps_alive(),
        head.connection matches Some(v) ==> (head.keeps_alive() <==> exists|
            a: Seq<char>,
            b: Seq<char>,
        |
            crate::text::lower_text(v@) == #[trigger] (a + "keep-alive"@ + b)),
{
    if head.connection is Some {
        crate::text::law_containing(crate::text::lower_text(head.connection->0@), "keep-alive"@);
    }
}

/// What probing a server with ranges adds up to: the verdict on the connection, with the range
/// size that follows from it, and as many streams as it bears threads, up to 128 over HTTP/2 and
/// 256 over HTTP/3.
pub proof fn law_probe_of_a_server_with_ranges(
    head: &HeadFacts,
    ranged: Option<Quality>,
    multirange: bool,
    pipelining: bool,
    base_latency_ms: u64,
    r: ProbeResult,
    q: Quality,
    caps: Vec<ServerCapability>,
    size: u64,
)
    requires
        ranged == Some(q),
        call_ensures(probe_server, (head, ranged, multirange, pipelining, base_latency_ms), r),
        call_ensures(detect_capabilities, (head, true, multirange), caps),
        call_ensures(
            calculate_chunk_size_advanced,
            (q.speed, q.max_threads, q.latency_ms, q.packet_loss),
            size,
        ),
    ensures
        r.caps@ == caps@,
        r.throttle == q.throttle,
        r.chunk_size == size,
        r.speed_est == q.speed,
        r.latency_ms == q.latency_ms,
        r.packet_loss == q.packet_loss,
        r.jitter_ms == q.jitter_ms,
        r.supports_pipelining == pipelining,
        r.optimal_concurrent_streams <= q.max_threads,
        r.optimal_concurrent_streams < q.max_threads ==> (head.http2
            && r.optimal_concurrent_streams == 128) || (!head.http2 && head.http3
            && r.optimal_concurrent_streams == 256),
        head.http2 ==> r.optimal_concurrent_streams <= 128,
        head.http3 ==> r.optimal_concurrent_streams <= 256,
{
}

/// A server without ranges counts as one unstable connection of unknown speed and with the
/// latency of the first answer, without loss or jitter.
pub proof fn law_probe_of_a_server_without_ranges(
    head: &HeadFacts,
    ranged: Option<Quality>,
    multirange: bool,
    pipelining: bool,
    base_latency_ms: u64,
    r: ProbeResult,
    caps: Vec<ServerCapability>,
)
    requires
        ranged is None,
        call_ensures(probe_server, (head, ranged, multirange, pipelining, base_latency_ms), r),
        call_ensures(detect_capabilities, (head, false, multirange), caps),
    ensures
        r.caps@ == caps@,
        r.throttle is Unstable,
        r.chunk_size == 1_048_576,
        r.speed_est == 0,
        r.latency_ms == base_latency_ms,
        r.packet_loss.num == 0 && r.packet_loss.den > 0,
        r.jitter_ms == 0,
        r.supports_pipelining == pipelining,
        r.optimal_concurrent_streams == 1,
{
}

/// What the requests of a probe wait for: six seconds for the first answer, and three requests at
/// once for the check of pipelining.
pub proof fn law_probe_limits()
    ensures
        PROBE_TIMEOUT == 6000,
        PIPELINING_REQUESTS == 3,
{
}

} // verus!
