//! What is asked of a server and learnt from its headers, and how a file is cut into byte
//! ranges.
use vstd::prelude::*;
use vstd::string::*;

use crate::text::{chars_of, parse_u64, push_decimal, same_text, tail_after_last};

verus! {

/// The pause in milliseconds after the first failed attempt.
pub const RETRY_BACKOFF_MIN_MS: u64 = 100;

/// No pause is longer than this, in milliseconds.
pub const RETRY_BACKOFF_MAX_MS: u64 = 5000;

/// For how many seconds a request for a byte range may stay without an answer.
pub const CHUNK_REQUEST_TIMEOUT_SECS: u64 = 30;

/// The bytes gathered before they are written to disk: 512 KiB.
pub const DISK_WRITE_BUFFER_SIZE: usize = 524_288;

/// The bytes gathered before they are written to disk in burst mode: 2 MiB.
pub const BURST_BUFFER_SIZE: usize = 2_097_152;

/// The pause in milliseconds after the first failed attempt in burst mode.
pub const BURST_RETRY_BACKOFF_MIN_MS: u64 = 50;

/// What a server says of a file.
#[derive(Debug, Clone)]
pub struct DownloadInfo {
    /// The size in bytes; zero if the server does not say.
    pub total_size: u64,
    pub supports_ranges: bool,
}

/// How a file is to be transferred.
#[derive(Debug, Clone)]
pub struct DownloadConfig {
    pub allow_resume: bool,
    pub max_concurrent_writes: usize,
    pub max_retries: u32,
    pub burst_mode: bool,
}

/// The buffer that bytes pass through on their way to disk.
pub fn write_buffer_size(burst_mode: bool) -> (r: usize)
    ensures
        r == (if burst_mode {
            BURST_BUFFER_SIZE
        } else {
            DISK_WRITE_BUFFER_SIZE
        }),
{
    if burst_mode {
        BURST_BUFFER_SIZE
    } else {
        DISK_WRITE_BUFFER_SIZE
    }
}

/// The pause after the first failed attempt.
pub open spec fn first_backoff(burst_mode: bool) -> u64 {
    if burst_mode {
        BURST_RETRY_BACKOFF_MIN_MS
    } else {
        RETRY_BACKOFF_MIN_MS
    }
}

/// The value of a `Range` header that asks for the bytes `start..=end`.
pub open spec fn range_text(start: nat, end: nat) -> Seq<char> {
    "bytes="@ + crate::text::decimal(start) + "-"@ + crate::text::decimal(end)
}

/// The value of a `Range` header that asks for all bytes from `start` on.
pub open spec fn open_range_text(start: nat) -> Seq<char> {
    "bytes="@ + crate::text::decimal(start) + "-"@
}

/// The value of a `Range` header that asks for the bytes `start..=end`.
pub fn range_header(start: u64, end: u64) -> (r: String)
    ensures
        r@ == range_text(start as nat, end as nat),
{
    let mut out: String = open_range_header(start);
    push_decimal(&mut out, end);
    out
}

/// The value of a `Range` header that asks for all bytes from `start` on.
pub fn open_range_header(start: u64) -> (r: String)
    ensures
        r@ == open_range_text(start as nat),
{
    let mut out: String = String::new();
    out.append("bytes=");
    push_decimal(&mut out, start);
    out.append("-");
    proof {
        assert(out@ =~= open_range_text(start as nat));
    }
    out
}

/// How a server answered the question for a file's size: the values of the headers that are
/// there and readable as text.
#[derive(Debug, Clone)]
pub enum InfoReply {
    /// The answer to a `HEAD` request.
    Head { content_length: Option<String>, accept_ranges: Option<String> },
    /// The answer to a request for the first byte, made because `HEAD` failed; `partial` says
    /// whether its status was 206.
    FirstByte { partial: bool, content_range: Option<String> },
    /// Neither request was answered.
    Unanswered,
}

/// The 64-bit number that `s` spells; zero if it spells none.
pub open spec fn number_or_zero(s: Seq<char>) -> nat {
    match crate::text::parse_up_to(s, u64::MAX as nat) {
        Some(v) => v,
        None => 0,
    }
}

/// The size and the range support that a reply states.
pub open spec fn stated_info(reply: InfoReply) -> (nat, bool) {
    match reply {
        InfoReply::Head { content_length, accept_ranges } => (
            match content_length {
                Some(s) => number_or_zero(s@),
                None => 0,
            },
            match accept_ranges {
                Some(s) => s@ == "bytes"@,
                None => false,
            },
        ),
        InfoReply::FirstByte { partial, content_range } => (
            match content_range {
                Some(s) => match crate::text::after_last(s@, '/') {
                    Some(t) => number_or_zero(t),
                    None => 0,
                },
                None => 0,
            },
            partial,
        ),
        InfoReply::Unanswered => (0, false),
    }
}

fn number_in(s: &Vec<char>) -> (r: u64)
    ensures
        r == number_or_zero(s@),
{
    match parse_u64(s) {
        Some(v) => v,
        None => 0,
    }
}

/// What a server's reply says of the file.
pub fn get_file_info(reply: &InfoReply) -> (r: DownloadInfo)
    ensures
        (r.total_size as nat, r.supports_ranges) == stated_info(*reply),
{
    match reply {
        InfoReply::Head { content_length, accept_ranges } => {
            let total_size: u64 = match content_length {
                Some(s) => number_in(&chars_of(s.as_str())),
                None => 0,
            };
            let supports_ranges: bool = match accept_ranges {
                Some(s) => same_text(&chars_of(s.as_str()), "bytes"),
                None => false,
            };
            DownloadInfo { total_size, supports_ranges }
        },
        InfoReply::FirstByte { partial, content_range } => {
            let total_size: u64 = match content_range {
                Some(s) => match tail_after_last(&chars_of(s.as_str()), '/') {
                    Some(t) => number_in(&t),
                    None => 0,
                },
                None => 0,
            };
            DownloadInfo { total_size, supports_ranges: *partial }
        },
        InfoReply::Unanswered => DownloadInfo { total_size: 0, supports_ranges: false },
    }
}

/// How many ranges of up to `chunk_size` bytes a file of `total_size` bytes takes.
pub open spec fn chunk_count(total_size: int, chunk_size: int) -> int {
    (total_size + chunk_size - 1) / chunk_size
}

/// The first byte of range `i`.
pub open spec fn chunk_start(i: int, chunk_size: int) -> int {
    i * chunk_size
}

/// The last byte of range `i`.
pub open spec fn chunk_end(i: int, total_size: int, chunk_size: int) -> int {
    crate::numbers::least((i + 1) * chunk_size, total_size) - 1
}

proof fn lemma_chunk_index(k: int, total: int, chunk: int)
    requires
        chunk > 0,
        0 <= k,
    ensures
        k * chunk < total <==> k < chunk_count(total, chunk),
{
    let n = chunk_count(total, chunk);
    vstd::arithmetic::div_mod::lemma_fundamental_div_mod(total + chunk - 1, chunk);
    let rem = (total + chunk - 1) % chunk;
    assert(0 <= rem < chunk);
    assert(chunk * n == total + chunk - 1 - rem);
    if k < n {
        assert(k * chunk <= chunk * n - chunk) by (nonlinear_arith)
            requires
                k <= n - 1,
                chunk > 0,
        ;
    } else {
        assert(k * chunk >= chunk * n) by (nonlinear_arith)
            requires
                k >= n,
                chunk > 0,
        ;
    }
}

/// Cuts a file of `total_size` bytes into consecutive ranges of `chunk_size` bytes; the last
/// one may be shorter. Each pair holds the first and the last byte of its range.
pub fn plan_chunks(total_size: u64, chunk_size: u64) -> (r: Vec<(u64, u64)>)
    requires
        total_size > 0 ==> chunk_size > 0,
        total_size > 0 ==> ((total_size - 1) / chunk_size as int) * chunk_size + chunk_size
            <= u64::MAX,
    ensures
        total_size == 0 ==> r@.len() == 0,
        total_size > 0 ==> r@.len() == chunk_count(total_size as int, chunk_size as int),
        forall|i: int|
            0 <= i < r@.len() ==> {
                &&& (#[trigger] r@[i]).0 == chunk_start(i, chunk_size as int)
                &&& r@[i].1 == chunk_end(i, total_size as int, chunk_size as int)
            },
{
    let mut chunks: Vec<(u64, u64)> = Vec::new();
    let mut start: u64 = 0;
    while start < total_size
        invariant
            total_size > 0 ==> chunk_size > 0,
            total_size > 0 ==> ((total_size - 1) / chunk_size as int) * chunk_size + chunk_size
                <= u64::MAX,
            total_size == 0 ==> chunks@.len() == 0,
            start == crate::numbers::least(chunks@.len() * chunk_size, total_size as int),
            total_size > 0 ==> chunks@.len() <= chunk_count(total_size as int, chunk_size as int),
            forall|i: int|
                0 <= i < chunks@.len() ==> (#[trigger] chunks@[i]).0 == chunk_start(
                    i,
                    chunk_size as int,
                ) && chunks@[i].1 == chunk_end(i, total_size as int, chunk_size as int),
        decreases total_size - start,
    {
        let ghost k = chunks@.len() as int;
        proof {
            let c = chunk_size as int;
            let t = total_size as int;
            lemma_chunk_index(k, t, c);
            assert((k + 1) * c == k * c + c) by (nonlinear_arith);
            vstd::arithmetic::div_mod::lemma_fundamental_div_mod(t - 1, c);
            let q = (t - 1) / c;
            assert(c * q == q * c) by (nonlinear_arith);
            assert(k <= q) by (nonlinear_arith)
                requires
                    k * c <= t - 1,
                    t - 1 < q * c + c,
                    c > 0,
            ;
            assert(k * c <= q * c) by (nonlinear_arith)
                requires
                    k <= q,
                    c > 0,
            ;
        }
        let full: u64 = start + chunk_size - 1;
        let end: u64 = if full <= total_size - 1 {
            full
        } else {
            total_size - 1
        };
        chunks.push((start, end));
        start = end + 1;
    }
    proof {
        if total_size > 0 {
            lemma_chunk_index(chunks@.len() as int, total_size as int, chunk_size as int);
        }
    }
    chunks
}

/// How a worker that transferred a range has ended.
#[derive(Debug, Clone, Copy, PartialEq, Eq, Structural)]
pub enum WorkerOutcome {
    Finished,
    Failed,
    Panicked,
}

/// The first worker that did not finish, if there is one: the download fails with its error.
pub fn first_failure(outcomes: &Vec<WorkerOutcome>) -> (r: Option<usize>)
    ensures
        match r {
            Some(i) => {
                &&& i < outcomes@.len()
                &&& outcomes@[i as int] != WorkerOutcome::Finished
                &&& forall|j: int| 0 <= j < i ==> outcomes@[j] == WorkerOutcome::Finished
            },
            None => forall|j: int|
                0 <= j < outcomes@.len() ==> outcomes@[j] == WorkerOutcome::Finished,
        },
{
    let mut i: usize = 0;
    while i < outcomes.len()
        invariant
            i <= outcomes@.len(),
            forall|j: int| 0 <= j < i ==> outcomes@[j] == WorkerOutcome::Finished,
        decreases outcomes@.len() - i,
    {
        if outcomes[i] != WorkerOutcome::Finished {
            return Some(i);
        }
        i = i + 1;
    }
    None
}

/// What the progress display does with a new count of bytes.
#[derive(Debug, Clone, Copy, PartialEq, Eq, Structural)]
pub struct ProgressStep {
    /// The position to show, if it has moved on.
    pub show: Option<u64>,
    /// Whether all bytes are there.
    pub finished: bool,
}

/// Decides what to show: the position moves on only, and the display ends with the last byte.
pub fn progress_step(last_shown: u64, current: u64, total_size: u64) -> (r: ProgressStep)
    ensures
        r.show == (if current > last_shown {
            Some(current)
        } else {
            None
        }),
        r.finished == (current >= total_size),
{
    ProgressStep {
        show: if current > last_shown {
            Some(current)
        } else {
            None
        },
        finished: current >= total_size,
    }
}

/// The ranges of a file follow one another without gap or overlap, start at its first byte,
/// end at its last, and hold at most `chunk_size` bytes each.
pub proof fn law_chunks_are_consecutive(total_size: int, chunk_size: int, i: int)
    requires
        total_size > 0,
        chunk_size > 0,
        0 <= i < chunk_count(total_size, chunk_size),
    ensures
        0 <= chunk_start(i, chunk_size) <= chunk_end(i, total_size, chunk_size) < total_size,
        chunk_end(i, total_size, chunk_size) - chunk_start(i, chunk_size) + 1 <= chunk_size,
        i == 0 ==> chunk_start(i, chunk_size) == 0,
        i + 1 < chunk_count(total_size, chunk_size) ==> chunk_start(i + 1, chunk_size)
            == chunk_end(i, total_size, chunk_size) + 1,
        i + 1 == chunk_count(total_size, chunk_size) ==> chunk_end(i, total_size, chunk_size)
            == total_size - 1,
{
    lemma_chunk_index(i, total_size, chunk_size);
    lemma_chunk_index(i + 1, total_size, chunk_size);
    assert(i == 0 ==> i * chunk_size == 0) by (nonlinear_arith);
    assert((i + 1) * chunk_size == i * chunk_size + chunk_size) by (nonlinear_arith);
    assert(0 <= i * chunk_size) by (nonlinear_arith)
        requires
            0 <= i,
            chunk_size > 0,
    ;
}

/// Every byte of a file lies in exactly one of its ranges.
pub proof fn law_every_byte_in_one_chunk(total_size: int, chunk_size: int, byte: int)
    requires
        chunk_size > 0,
        0 <= byte < total_size,
    ensures
        exists|i: int|
            0 <= i < chunk_count(total_size, chunk_size) && chunk_start(i, chunk_size) <= byte
                <= #[trigger] chunk_end(i, total_size, chunk_size),
        forall|i: int, j: int|
            0 <= i < chunk_count(total_size, chunk_size) && 0 <= j < chunk_count(
                total_size,
                chunk_size,
            ) && chunk_start(i, chunk_size) <= byte <= #[trigger] chunk_end(
                i,
                total_size,
                chunk_size,
            ) && chunk_start(j, chunk_size) <= byte <= #[trigger] chunk_end(
                j,
                total_size,
                chunk_size,
            ) ==> i == j,
{
    let q = byte / chunk_size;
    vstd::arithmetic::div_mod::lemma_fundamental_div_mod(byte, chunk_size);
    assert(chunk_size * q == q * chunk_size) by (nonlinear_arith);
    assert((q + 1) * chunk_size == q * chunk_size + chunk_size) by (nonlinear_arith);
    vstd::arithmetic::div_mod::lemma_div_pos_is_pos(byte, chunk_size);
    lemma_chunk_index(q, total_size, chunk_size);
    assert(chunk_start(q, chunk_size) <= byte <= chunk_end(q, total_size, chunk_size));
    assert forall|i: int, j: int|
        0 <= i < chunk_count(total_size, chunk_size) && 0 <= j < chunk_count(total_size, chunk_size)
            && chunk_start(i, chunk_size) <= byte <= #[trigger] chunk_end(i, total_size, chunk_size)
            && chunk_start(j, chunk_size) <= byte <= #[trigger] chunk_end(
            j,
            total_size,
            chunk_size,
        ) implies i == j by {
        lemma_containing_chunk(i, chunk_size, byte, q);
        lemma_containing_chunk(j, chunk_size, byte, q);
    }
}

proof fn lemma_containing_chunk(i: int, c: int, b: int, q: int)
    requires
        c > 0,
        i * c <= b < (i + 1) * c,
        q * c <= b < (q + 1) * c,
    ensures
        i == q,
{
    assert(i < q + 1) by (nonlinear_arith)
        requires
            i * c < (q + 1) * c,
            c > 0,
    ;
    assert(q < i + 1) by (nonlinear_arith)
        requires
            q * c < (i + 1) * c,
            c > 0,
    ;
}

/// How many bytes the first `n` ranges hold together.
pub open spec fn bytes_in_chunks(n: int, total_size: int, chunk_size: int) -> int
    decreases n,
{
    if n <= 0 {
        0
    } else {
        bytes_in_chunks(n - 1, total_size, chunk_size) + chunk_end(n - 1, total_size, chunk_size)
            - chunk_start(n - 1, chunk_size) + 1
    }
}

proof fn lemma_bytes_in_chunks(n: int, total_size: int, chunk_size: int)
    requires
        total_size > 0,
        chunk_size > 0,
        0 <= n <= chunk_count(total_size, chunk_size),
    ensures
        bytes_in_chunks(n, total_size, chunk_size) == crate::numbers::least(
            n * chunk_size,
            total_size,
        ),
    decreases n,
{
    if n > 0 {
        lemma_bytes_in_chunks(n - 1, total_size, chunk_size);
        lemma_chunk_index(n - 1, total_size, chunk_size);
    } else {
        assert(n * chunk_size == 0) by (nonlinear_arith)
            requires
                n == 0,
        ;
    }
}

/// The ranges of a file hold as many bytes together as the file.
pub proof fn law_chunks_add_up(total_size: int, chunk_size: int)
    requires
        total_size > 0,
        chunk_size > 0,
    ensures
        bytes_in_chunks(chunk_count(total_size, chunk_size), total_size, chunk_size) == total_size,
{
    let n = chunk_count(total_size, chunk_size);
    vstd::arithmetic::div_mod::lemma_div_pos_is_pos(total_size + chunk_size - 1, chunk_size);
    lemma_bytes_in_chunks(n, total_size, chunk_size);
    lemma_chunk_index(n, total_size, chunk_size);
}

/// A size that a server states is taken over exactly: in `Content-Length`, and behind the slash
/// of `Content-Range`.
pub proof fn law_stated_size_is_read(
    reply: InfoReply,
    length: String,
    range: String,
    before: Seq<char>,
    n: u64,
)
    requires
        length@ == crate::text::decimal(n as nat),
        range@ == before.push('/') + crate::text::decimal(n as nat),
        match reply {
            InfoReply::Head { content_length, .. } => content_length == Some(length),
            InfoReply::FirstByte { content_range, .. } => content_range == Some(range),
            InfoReply::Unanswered => false,
        },
    ensures
        stated_info(reply).0 == n,
{
    crate::text::law_numerals_are_read_back(n as nat);
    crate::text::law_numeral_after_last_slash(before, n as nat);
}

/// A `Range` header names its first and last byte as numerals, and one that is open at the end
/// is the same text up to the dash.
pub proof fn law_range_headers(start: u64, end: u64, open: String, closed: String)
    requires
        call_ensures(open_range_header, (start,), open),
        call_ensures(range_header, (start, end), closed),
    ensures
        open@ == "bytes="@ + crate::text::decimal(start as nat) + "-"@,
        closed@ == open@ + crate::text::decimal(end as nat),
{
    assert(closed@ =~= open@ + crate::text::decimal(end as nat));
}

/// Bytes are gathered in 512 KiB, in burst mode in 2 MiB, before they are written.
pub proof fn law_write_buffers(burst_mode: bool, r: usize)
    requires
        call_ensures(write_buffer_size, (burst_mode,), r),
    ensures
        burst_mode ==> r == 2_097_152,
        !burst_mode ==> r == 524_288,
{
}

/// From the answer to a `HEAD` request, range support is claimed exactly if `Accept-Ranges` is
/// there and spells `bytes`, whatever the length. The size is the number that `Content-Length`
/// spells, if it is there and that fits 64 bits, else zero, whatever `Accept-Ranges` says.
pub proof fn law_head_answers(
    content_length: Option<String>,
    accept_ranges: Option<String>,
    reply: &InfoReply,
    r: DownloadInfo,
)
    requires
        *reply == (InfoReply::Head { content_length, accept_ranges }),
        call_ensures(get_file_info, (reply,), r),
    ensures
        accept_ranges is None ==> !r.supports_ranges,
        accept_ranges matches Some(s) ==> (r.supports_ranges <==> s@ == "bytes"@),
        content_length is None ==> r.total_size == 0,
        content_length matches Some(s) ==> {
            &&& crate::text::parse_decimal(s@) is None ==> r.total_size == 0
            &&& crate::text::parse_decimal(s@) matches Some(v) ==> r.total_size == (if v
                <= u64::MAX {
                v
            } else {
                0
            })
        },
{
}

/// From the answer to a request for the first byte, range support is claimed exactly if its
/// status was 206. The size is the number behind the last slash of `Content-Range`, if there is
/// one that fits 64 bits, else zero.
pub proof fn law_first_byte_answers(
    partial: bool,
    content_range: Option<String>,
    before: Seq<char>,
    behind: Seq<char>,
    reply: &InfoReply,
    r: DownloadInfo,
)
    requires
        *reply == (InfoReply::FirstByte { partial, content_range }),
        call_ensures(get_file_info, (reply,), r),
    ensures
        r.supports_ranges == partial,
        content_range is None ==> r.total_size == 0,
        content_range matches Some(s) ==> {
            &&& !s@.contains('/') ==> r.total_size == 0
            &&& s@ == before.push('/') + behind && !behind.contains('/') ==> r.total_size == (
            match crate::text::parse_decimal(behind) {
                Some(v) => if v <= u64::MAX {
                    v
                } else {
                    0
                },
                None => 0,
            })
        },
{
    if content_range is Some {
        let s = content_range->0@;
        crate::text::law_text_behind_the_last(s, '/');
        if s == before.push('/') + behind && !behind.contains('/') {
            assert forall|i: int| 0 <= i < behind.len() implies #[trigger] behind[i] != '/' by {
                if behind[i] == '/' {
                    assert(behind.contains('/'));
                }
            }
            crate::text::lemma_find_last(before, '/', behind);
            assert(s.skip(before.len() as int + 1) =~= behind);
        }
    }
}

/// Without an answer nothing is claimed.
pub proof fn law_no_answer(reply: &InfoReply, r: DownloadInfo)
    requires
        *reply is Unanswered,
        call_ensures(get_file_info, (reply,), r),
    ensures
        r.total_size == 0,
        !r.supports_ranges,
{
}

/// A file is cut from its first byte to its last, each range starting right behind the one
/// before it, and each but the last of exactly the size asked for. An empty file has no range.
pub proof fn law_file_is_cut_into_ranges(
    total_size: u64,
    chunk_size: u64,
    r: Vec<(u64, u64)>,
    i: int,
)
    requires
        total_size > 0 ==> chunk_size > 0,
        total_size > 0 ==> ((total_size - 1) / chunk_size as int) * chunk_size + chunk_size
            <= u64::MAX,
        call_ensures(plan_chunks, (total_size, chunk_size), r),
    ensures
        r@.len() == 0 <==> total_size == 0,
        total_size > 0 ==> r@[0].0 == 0 && r@[r@.len() - 1].1 == total_size - 1,
        0 <= i < r@.len() ==> r@[i].0 <= r@[i].1 && r@[i].1 - r@[i].0 < chunk_size,
        0 <= i < r@.len() - 1 ==> r@[i].1 - r@[i].0 + 1 == chunk_size && r@[i + 1].0 == r@[i].1
            + 1,
{
    if total_size > 0 {
        let (t, c) = (total_size as int, chunk_size as int);
        let n = r@.len() as int;
        lemma_chunk_index(0, t, c);
        assert(0 * c == 0) by (nonlinear_arith);
        law_chunks_are_consecutive(t, c, 0);
        law_chunks_are_consecutive(t, c, n - 1);
        assert(r@[0].0 == chunk_start(0, c));
        assert(r@[n - 1].1 == chunk_end(n - 1, t, c));
        if 0 <= i < n {
            law_chunks_are_consecutive(t, c, i);
            assert(r@[i].0 == chunk_start(i, c) && r@[i].1 == chunk_end(i, t, c));
        }
        if 0 <= i < n - 1 {
            lemma_chunk_index(i + 1, t, c);
            assert(r@[i + 1].0 == chunk_start(i + 1, c));
            assert((i + 1) * c == i * c + c) by (nonlinear_arith);
        }
    }
}

/// A download fails exactly if some worker did not finish, and then by the first of these.
pub proof fn law_first_failure_decides(outcomes: &Vec<WorkerOutcome>, r: Option<usize>, i: int)
    requires
        call_ensures(first_failure, (outcomes,), r),
        0 <= i < outcomes@.len(),
        !(outcomes@[i] is Finished),
    ensures
        r is Some,
        r->0 <= i,
        !(outcomes@[r->0 as int] is Finished),
{
}

/// A download in which every worker finished has not failed.
pub proof fn law_all_finished_is_no_failure(outcomes: &Vec<WorkerOutcome>, r: Option<usize>)
    requires
        call_ensures(first_failure, (outcomes,), r),
        forall|i: int| 0 <= i < outcomes@.len() ==> #[trigger] outcomes@[i] is Finished,
    ensures
        r is None,
{
}

/// The display shows the count of bytes exactly when that has grown, and ends exactly when every
/// byte is there.
pub proof fn law_progress_display(last_shown: u64, current: u64, total: u64, r: ProgressStep)
    requires
        call_ensures(progress_step, (last_shown, current, total), r),
    ensures
        r.show is Some <==> current > last_shown,
        r.show matches Some(shown) ==> shown == current,
        r.finished <==> current >= total,
{
}

/// A request for a range waits half a minute for its answer.
pub proof fn law_range_request_timeout()
    ensures
        CHUNK_REQUEST_TIMEOUT_SECS == 30,
{
}

} // verus!
