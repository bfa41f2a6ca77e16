//! The transfer of one byte range over as many connections as it takes.
use vstd::prelude::*;

use crate::error::TransferError;
use crate::net::{BURST_RETRY_BACKOFF_MIN_MS, RETRY_BACKOFF_MAX_MS, RETRY_BACKOFF_MIN_MS};

verus! {

/// What to do next for a range.
#[derive(Debug, Clone, Copy, PartialEq, Eq, Structural)]
pub enum RangeStep {
    /// Every byte has arrived.
    Complete,
    /// Too many attempts in a row have failed.
    GiveUp(TransferError),
    /// Ask for the bytes `from..=to`.
    Request { from: u64, to: u64 },
}

/// The state of a range transfer.
pub struct RangeState {
    /// The first byte of the range.
    pub start: int,
    /// The last byte of the range.
    pub end: int,
    /// The byte that is to arrive next.
    pub position: int,
    /// The pause after the first failed attempt.
    pub first_backoff: int,
    /// The pause after the next failed attempt.
    pub backoff: int,
    /// How many attempts have failed since bytes last arrived.
    pub failures: int,
    /// How many bytes the current connection has brought.
    pub received: int,
}

/// A transfer of `start..=end` that has not begun.
pub open spec fn fresh(start: int, end: int, burst_mode: bool) -> RangeState {
    RangeState {
        start,
        end,
        position: start,
        first_backoff: crate::net::first_backoff(burst_mode) as int,
        backoff: crate::net::first_backoff(burst_mode) as int,
        failures: 0,
        received: 0,
    }
}

/// What to do next in state `s`.
pub open spec fn next_step(s: RangeState, max_retries: u32) -> RangeStep {
    if s.position > s.end {
        RangeStep::Complete
    } else if s.failures > max_retries {
        RangeStep::GiveUp(
            TransferError::RangeRetriesExhausted { start: s.start as u64, end: s.end as u64 },
        )
    } else {
        RangeStep::Request { from: s.position as u64, to: s.end as u64 }
    }
}

/// The state after a failed attempt: one failure more, and twice the pause up to the maximum.
pub open spec fn failed(s: RangeState) -> RangeState {
    RangeState {
        failures: s.failures + 1,
        backoff: crate::numbers::least(2 * s.backoff, RETRY_BACKOFF_MAX_MS as int),
        ..s
    }
}

/// The state after a connection has been opened.
pub open spec fn opened(s: RangeState) -> RangeState {
    RangeState { received: 0, ..s }
}

/// The state after `len` bytes have arrived and been written.
pub open spec fn advanced(s: RangeState, len: int) -> RangeState {
    RangeState { position: s.position + len, received: s.received + len, ..s }
}

/// The state after a connection has ended: one that brought bytes clears the failures, one
/// that brought none is a failed attempt.
pub open spec fn closed_connection(s: RangeState) -> RangeState {
    if s.received > 0 {
        RangeState { failures: 0, backoff: s.first_backoff, ..s }
    } else {
        failed(s)
    }
}

/// The transfer of one byte range.
pub struct RangeTransfer {
    start: u64,
    end: u64,
    position: u64,
    first_backoff: u64,
    backoff: u64,
    failures: u32,
    received: u64,
}

impl View for RangeTransfer {
    type V = RangeState;

    closed spec fn view(&self) -> RangeState {
        RangeState {
            start: self.start as int,
            end: self.end as int,
            position: self.position as int,
            first_backoff: self.first_backoff as int,
            backoff: self.backoff as int,
            failures: self.failures as int,
            received: self.received as int,
        }
    }
}

impl RangeTransfer {
    /// The position counts from the start, the current connection's bytes lie behind it, and
    /// the pause stays between its first value and the maximum.
    pub open spec fn wf(&self) -> bool {
        &&& 0 <= self@.start <= self@.position <= u64::MAX
        &&& 0 <= self@.end <= u64::MAX
        &&& 0 <= self@.received <= self@.position - self@.start
        &&& 0 <= self@.failures <= u32::MAX
        &&& self@.first_backoff == RETRY_BACKOFF_MIN_MS || self@.first_backoff
            == BURST_RETRY_BACKOFF_MIN_MS
        &&& self@.first_backoff <= self@.backoff <= RETRY_BACKOFF_MAX_MS
    }

    /// A transfer of the bytes `start..=end`; burst mode retries sooner.
    pub fn new(start: u64, end: u64, burst_mode: bool) -> (r: Self)
        ensures
            r.wf(),
            r@ == fresh(start as int, end as int, burst_mode),
    {
        let first_backoff: u64 = if burst_mode {
            BURST_RETRY_BACKOFF_MIN_MS
        } else {
            RETRY_BACKOFF_MIN_MS
        };
        RangeTransfer {
            start,
            end,
            position: start,
            first_backoff,
            backoff: first_backoff,
            failures: 0,
            received: 0,
        }
    }

    /// What to do next.
    pub fn next(&self, max_retries: u32) -> (r: RangeStep)
        requires
            self.wf(),
        ensures
            r == next_step(self@, max_retries),
    {
        if self.position > self.end {
            RangeStep::Complete
        } else if self.failures > max_retries {
            RangeStep::GiveUp(
                TransferError::RangeRetriesExhausted { start: self.start, end: self.end },
            )
        } else {
            RangeStep::Request { from: self.position, to: self.end }
        }
    }

    /// The byte that is to arrive next.
    pub fn position(&self) -> (r: u64)
        ensures
            r == self@.position,
    {
        self.position
    }

    /// Notes that a request brought no usable answer: an error, a timeout or a status other
    /// than success. Gives the milliseconds to wait before the next step.
    pub fn attempt_failed(&mut self) -> (r: u64)
        requires
            old(self).wf(),
            old(self)@.failures < u32::MAX,
        ensures
            final(self).wf(),
            final(self)@ == failed(old(self)@),
            r == old(self)@.backoff,
    {
        let pause: u64 = self.backoff;
        self.failures = self.failures + 1;
        self.backoff = if 2 * pause <= RETRY_BACKOFF_MAX_MS {
            2 * pause
        } else {
            RETRY_BACKOFF_MAX_MS
        };
        pause
    }

    /// Notes that a request was answered with success and bytes may follow.
    pub fn connection_opened(&mut self)
        requires
            old(self).wf(),
        ensures
            final(self).wf(),
            final(self)@ == opened(old(self)@),
    {
        self.received = 0;
    }

    /// Notes that `len` bytes have arrived and been written.
    pub fn bytes_written(&mut self, len: u64)
        requires
            old(self).wf(),
            old(self)@.position + len <= u64::MAX,
        ensures
            final(self).wf(),
            final(self)@ == advanced(old(self)@, len as int),
    {
        self.position = self.position + len;
        self.received = self.received + len;
    }

    /// Notes that the connection has ended, by itself or by an error. Gives the milliseconds
    /// to wait before the next step, if it brought nothing.
    pub fn connection_closed(&mut self) -> (r: Option<u64>)
        requires
            old(self).wf(),
            old(self)@.failures < u32::MAX,
        ensures
            final(self).wf(),
            final(self)@ == closed_connection(old(self)@),
            r == (if old(self)@.received > 0 {
                None
            } else {
                Some(old(self)@.backoff as u64)
            }),
    {
        if self.received > 0 {
            self.failures = 0;
            self.backoff = self.first_backoff;
            None
        } else {
            Some(self.attempt_failed())
        }
    }
}

/// An attempt at a range that brings no byte.
pub enum BarrenAttempt {
    /// The request brought no usable answer.
    NoAnswer,
    /// A connection was opened, and ended before a byte arrived.
    EmptyConnection,
}

/// The state after an attempt that brought no byte.
pub open spec fn after_barren_attempt(s: RangeState, attempt: BarrenAttempt) -> RangeState {
    match attempt {
        BarrenAttempt::NoAnswer => failed(s),
        BarrenAttempt::EmptyConnection => closed_connection(opened(s)),
    }
}

/// The state after a run of attempts that brought no byte.
pub open spec fn after_barren_attempts(s: RangeState, attempts: Seq<BarrenAttempt>) -> RangeState
    decreases attempts.len(),
{
    if attempts.len() == 0 {
        s
    } else {
        after_barren_attempt(after_barren_attempts(s, attempts.drop_last()), attempts.last())
    }
}

/// The pause doubles with every attempt in a row that brings no byte until it reaches five
/// seconds: after `n` of them it is the first pause times two to the power of `n`, or the
/// maximum if that is less. It starts from the first pause in a fresh transfer and whenever
/// bytes have arrived.
pub proof fn law_backoff_doubles(s: RangeState, attempts: Seq<BarrenAttempt>)
    requires
        s.backoff == s.first_backoff,
        0 <= s.first_backoff <= RETRY_BACKOFF_MAX_MS,
    ensures
        after_barren_attempts(s, attempts).backoff == crate::numbers::least(
            s.first_backoff * vstd::arithmetic::power2::pow2(attempts.len()),
            RETRY_BACKOFF_MAX_MS as int,
        ),
    decreases attempts.len(),
{
    let first = s.first_backoff;
    let n = attempts.len();
    if n == 0 {
        vstd::arithmetic::power2::lemma2_to64();
    } else {
        law_backoff_doubles(s, attempts.drop_last());
        let p = vstd::arithmetic::power2::pow2((n - 1) as nat) as int;
        vstd::arithmetic::power2::lemma_pow2_unfold(n);
        assert(first * (2 * p) == 2 * (first * p)) by (nonlinear_arith);
    }
}

/// A range is given up after exactly one more attempt in a row without a byte than there are
/// retries, whether the requests went unanswered or the connections stayed empty. Until then
/// it is asked for again from the same byte on.
pub proof fn law_gives_up_after_retries(
    s: RangeState,
    attempts: Seq<BarrenAttempt>,
    max_retries: u32,
)
    requires
        0 <= s.start <= s.position <= s.end <= u64::MAX,
        s.failures == 0,
    ensures
        attempts.len() > max_retries ==> next_step(after_barren_attempts(s, attempts), max_retries)
            == RangeStep::GiveUp(
            TransferError::RangeRetriesExhausted { start: s.start as u64, end: s.end as u64 },
        ),
        attempts.len() <= max_retries ==> next_step(
            after_barren_attempts(s, attempts),
            max_retries,
        ) == (RangeStep::Request { from: s.position as u64, to: s.end as u64 }),
{
    lemma_barren_attempts(s, attempts);
}

proof fn lemma_barren_attempts(s: RangeState, attempts: Seq<BarrenAttempt>)
    ensures
        after_barren_attempts(s, attempts).failures == s.failures + attempts.len(),
        after_barren_attempts(s, attempts).position == s.position,
        after_barren_attempts(s, attempts).start == s.start,
        after_barren_attempts(s, attempts).end == s.end,
    decreases attempts.len(),
{
    if attempts.len() > 0 {
        lemma_barren_attempts(s, attempts.drop_last());
    }
}

/// A connection that brings bytes wipes out the failures before it: the transfer goes on from
/// the byte after the last one that arrived, however many attempts had failed.
pub proof fn law_progress_resumes(s: RangeState, len: int, max_retries: u32)
    requires
        len > 0,
        0 <= s.start <= s.position,
        s.position + len <= s.end <= u64::MAX,
    ensures
        ({
            let t = closed_connection(advanced(opened(s), len));
            &&& t.failures == 0
            &&& t.backoff == s.first_backoff
            &&& next_step(t, max_retries) == (RangeStep::Request {
                from: (s.position + len) as u64,
                to: s.end as u64,
            })
        }),
{
}

/// Something that happens to a range transfer.
pub enum RangeEvent {
    AttemptFailed,
    ConnectionOpened,
    BytesWritten(nat),
    ConnectionClosed,
}

/// The state after one event.
pub open spec fn after_event(s: RangeState, e: RangeEvent) -> RangeState {
    match e {
        RangeEvent::AttemptFailed => failed(s),
        RangeEvent::ConnectionOpened => opened(s),
        RangeEvent::BytesWritten(len) => advanced(s, len as int),
        RangeEvent::ConnectionClosed => closed_connection(s),
    }
}

/// The state after a run of events.
pub open spec fn after_events(s: RangeState, events: Seq<RangeEvent>) -> RangeState
    decreases events.len(),
{
    if events.len() == 0 {
        s
    } else {
        after_event(after_events(s, events.drop_last()), events.last())
    }
}

/// The bytes that a run of events has written.
pub open spec fn bytes_of(events: Seq<RangeEvent>) -> nat
    decreases events.len(),
{
    if events.len() == 0 {
        0
    } else {
        bytes_of(events.drop_last()) + (match events.last() {
            RangeEvent::BytesWritten(len) => len,
            _ => 0,
        })
    }
}

proof fn lemma_position_counts(s: RangeState, events: Seq<RangeEvent>)
    ensures
        after_events(s, events).position == s.position + bytes_of(events),
        after_events(s, events).start == s.start,
        after_events(s, events).end == s.end,
    decreases events.len(),
{
    if events.len() > 0 {
        lemma_position_counts(s, events.drop_last());
    }
}

/// Whatever happens on the way, a transfer is complete exactly when its connections have
/// together written at least as many bytes as the range has.
pub proof fn law_complete_means_all_bytes(
    start: int,
    end: int,
    burst_mode: bool,
    events: Seq<RangeEvent>,
    max_retries: u32,
)
    ensures
        next_step(after_events(fresh(start, end, burst_mode), events), max_retries) is Complete
            <==> bytes_of(events) >= end - start + 1,
{
    lemma_position_counts(fresh(start, end, burst_mode), events);
}

/// Whatever happens on the way, a transfer asks for nothing outside its range, and always up to
/// the range's end.
pub proof fn law_requests_stay_in_range(
    start: int,
    end: int,
    burst_mode: bool,
    events: Seq<RangeEvent>,
    max_retries: u32,
)
    requires
        0 <= start <= end <= u64::MAX,
    ensures
        next_step(
            after_events(fresh(start, end, burst_mode), events),
            max_retries,
        ) matches RangeStep::Request { from, to } ==> start <= from <= to && to == end,
{
    lemma_position_counts(fresh(start, end, burst_mode), events);
}

/// Whatever happens on the way, no pause is shorter than the first one or longer than five
/// seconds.
pub proof fn law_pauses_are_bounded(
    start: int,
    end: int,
    burst_mode: bool,
    events: Seq<RangeEvent>,
)
    ensures
        after_events(fresh(start, end, burst_mode), events).first_backoff
            == crate::net::first_backoff(burst_mode),
        crate::net::first_backoff(burst_mode) <= after_events(
            fresh(start, end, burst_mode),
            events,
        ).backoff <= RETRY_BACKOFF_MAX_MS,
    decreases events.len(),
{
    if events.len() > 0 {
        law_pauses_are_bounded(start, end, burst_mode, events.drop_last());
    }
}

/// A fresh transfer stands at the first byte of its range, has failed at nothing, and would pause
/// a tenth of a second after a failure, in burst mode half of that.
pub proof fn law_fresh_transfer(start: u64, end: u64, burst_mode: bool, r: RangeTransfer)
    requires
        call_ensures(RangeTransfer::new, (start, end, burst_mode), r),
    ensures
        r@.start == start && r@.end == end && r@.position == start,
        r@.failures == 0 && r@.received == 0,
        r@.backoff == r@.first_backoff,
        burst_mode ==> r@.backoff == 50,
        !burst_mode ==> r@.backoff == 100,
{
}

/// A transfer is complete exactly when it has moved past the last byte; before that it is given
/// up exactly when more attempts in a row have failed than may be retried, and else asks for all
/// that is missing.
pub proof fn law_next_step(transfer: &RangeTransfer, max_retries: u32, r: RangeStep)
    requires
        transfer.wf(),
        call_ensures(RangeTransfer::next, (transfer, max_retries), r),
    ensures
        r is Complete <==> transfer@.position > transfer@.end,
        r is GiveUp <==> transfer@.position <= transfer@.end && transfer@.failures > max_retries,
        r matches RangeStep::GiveUp(e) ==> e == (TransferError::RangeRetriesExhausted {
            start: transfer@.start as u64,
            end: transfer@.end as u64,
        }),
        r matches RangeStep::Request { from, to } ==> from == transfer@.position && to
            == transfer@.end,
{
}

/// A failed attempt counts as one and doubles the pause up to five seconds; the place in the
/// range, what the connection has brought and the first pause stay.
pub proof fn law_failed_attempts(s: RangeState)
    requires
        0 <= s.backoff <= 5000,
    ensures
        failed(s).failures == s.failures + 1,
        failed(s).backoff <= 5000,
        failed(s).backoff == 5000 || failed(s).backoff == s.backoff + s.backoff,
        failed(s).backoff < 5000 ==> 2 * s.backoff < 5000,
        2 * s.backoff < 5000 ==> failed(s).backoff < 5000,
        failed(s).start == s.start && failed(s).end == s.end,
        failed(s).position == s.position && failed(s).received == s.received,
        failed(s).first_backoff == s.first_backoff,
{
}

/// A connection begins with nothing received; bytes move the place on by as many as arrived, in
/// however many pieces. Neither touches the failures or the pause.
pub proof fn law_bytes_move_the_place_on(s: RangeState, a: int, b: int)
    ensures
        opened(s).received == 0 && opened(s).position == s.position,
        opened(s).start == s.start && opened(s).end == s.end,
        opened(s).failures == s.failures && opened(s).backoff == s.backoff,
        opened(s).first_backoff == s.first_backoff,
        advanced(s, 0) == s,
        advanced(advanced(s, a), b) == advanced(s, a + b),
        advanced(s, 1).position == s.position + 1 && advanced(s, 1).received == s.received + 1,
        advanced(s, a).position - s.position == a && advanced(s, a).received - s.received == a,
        advanced(s, a).start == s.start && advanced(s, a).end == s.end,
        advanced(s, a).failures == s.failures && advanced(s, a).backoff == s.backoff,
        advanced(s, a).first_backoff == s.first_backoff,
{
}

/// A connection that brought bytes clears the failures and the pause when it ends; one that
/// brought none is a failed attempt like a request without an answer. Neither moves the place.
pub proof fn law_connections_that_end(s: RangeState)
    ensures
        closed_connection(s).position == s.position,
        closed_connection(s).start == s.start && closed_connection(s).end == s.end,
        closed_connection(s).first_backoff == s.first_backoff,
        s.received > 0 ==> closed_connection(s).failures == 0 && closed_connection(s).backoff
            == s.first_backoff && closed_connection(s).received == s.received,
        s.received == 0 ==> closed_connection(s) == failed(s),
{
}

/// What the steps of a transfer do to it and give back: a failed attempt pauses as long as is due
/// and counts, an opened connection starts from nothing, bytes that were written move the place
/// on, and the end of a connection pauses exactly if it brought nothing.
pub proof fn law_steps_of_a_transfer(
    failing: &mut RangeTransfer,
    opening: &mut RangeTransfer,
    writing: &mut RangeTransfer,
    closing: &mut RangeTransfer,
    len: u64,
    pause: u64,
    end: Option<u64>,
)
    requires
        old(failing).wf() && old(failing)@.failures < u32::MAX,
        old(opening).wf(),
        old(writing).wf() && old(writing)@.position + len <= u64::MAX,
        old(closing).wf() && old(closing)@.failures < u32::MAX,
        call_ensures(RangeTransfer::attempt_failed, (failing,), pause),
        call_ensures(RangeTransfer::connection_opened, (opening,), ()),
        call_ensures(RangeTransfer::bytes_written, (writing, len), ()),
        call_ensures(RangeTransfer::connection_closed, (closing,), end),
    ensures
        pause == old(failing)@.backoff,
        final(failing)@.failures == old(failing)@.failures + 1,
        final(failing)@.position == old(failing)@.position,
        final(failing)@.backoff == 5000 || final(failing)@.backoff == 2 * pause,
        final(failing)@.backoff <= 5000,
        final(opening)@.received == 0,
        final(opening)@.position == old(opening)@.position,
        final(opening)@.failures == old(opening)@.failures,
        final(writing)@.position == old(writing)@.position + len,
        final(writing)@.received == old(writing)@.received + len,
        final(writing)@.failures == old(writing)@.failures,
        end is None <==> old(closing)@.received > 0,
        end matches Some(ms) ==> ms == old(closing)@.backoff && final(closing)@.failures == old(
            closing,
        )@.failures + 1,
        end is None ==> final(closing)@.failures == 0 && final(closing)@.backoff == old(
            closing,
        )@.first_backoff,
        final(closing)@.position == old(closing)@.position,
{
}

/// The place that a transfer tells is the one from which it asks next.
pub proof fn law_position_is_told(transfer: &RangeTransfer, max_retries: u32, p: u64, r: RangeStep)
    requires
        transfer.wf(),
        call_ensures(RangeTransfer::position, (transfer,), p),
        call_ensures(RangeTransfer::next, (transfer, max_retries), r),
    ensures
        p == transfer@.position,
        r matches RangeStep::Request { from, .. } ==> from == p,
{
}

} // verus!
