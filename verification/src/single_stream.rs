//! The transfer of a whole file over one connection at a time.
use vstd::prelude::*;

use crate::error::TransferError;

verus! {

/// What to do next for the file.
#[derive(Debug, Clone, Copy, PartialEq, Eq, Structural)]
pub enum StreamStep {
    /// All attempts are used up.
    GiveUp(TransferError),
    /// Ask for the file, from byte `resume_from` on if that is not zero.
    Request { resume_from: u64 },
}

/// What to do with the answer to a request.
#[derive(Debug, Clone, Copy, PartialEq, Eq, Structural)]
pub enum ReplyStep {
    /// Wait this many milliseconds and try again.
    Retry { pause_ms: u64 },
    /// Write the body to the file, behind what is there if `append` is set, and count
    /// `already_there` bytes as progress.
    Receive { append: bool, already_there: u64 },
}

/// How the answer to a request looks.
#[derive(Debug, Clone, Copy, PartialEq, Eq, Structural)]
pub enum StreamReply {
    /// The request failed.
    NoAnswer,
    /// An answer came; `success` says whether its status is one of success, `partial` whether
    /// it is 206.
    Status { success: bool, partial: bool },
}

/// The byte from which a download goes on: the size of what is there, if it may be resumed.
pub open spec fn resume_point(allow_resume: bool, existing: Option<u64>) -> u64 {
    match existing {
        Some(size) => if allow_resume {
            size
        } else {
            0
        },
        None => 0,
    }
}

/// What to do next when `attempts` attempts have been made.
pub open spec fn stream_step(resume_from: u64, attempts: int, max_retries: u32) -> StreamStep {
    if attempts + 1 > max_retries {
        StreamStep::GiveUp(TransferError::StreamRetriesExhausted { retries: max_retries })
    } else {
        StreamStep::Request { resume_from }
    }
}

/// What to do with an answer.
pub open spec fn reply_step(resume_from: u64, reply: StreamReply) -> ReplyStep {
    match reply {
        StreamReply::Status { success, partial } if success || partial => ReplyStep::Receive {
            append: resume_from > 0,
            already_there: resume_from,
        },
        _ => ReplyStep::Retry { pause_ms: crate::net::RETRY_BACKOFF_MIN_MS },
    }
}

/// A download over one connection at a time.
pub struct SingleStream {
    resume_from: u64,
    attempts: u32,
}

impl SingleStream {
    /// The byte from which the download goes on.
    pub closed spec fn resume_from(&self) -> u64 {
        self.resume_from
    }

    /// How many attempts have been made.
    pub closed spec fn attempts(&self) -> int {
        self.attempts as int
    }

    /// A download to a file of which `existing` bytes are there, if the file exists.
    pub fn new(allow_resume: bool, existing: Option<u64>) -> (r: Self)
        ensures
            r.resume_from() == resume_point(allow_resume, existing),
            r.attempts() == 0,
    {
        let resume_from: u64 = match existing {
            Some(size) => if allow_resume {
                size
            } else {
                0
            },
            None => 0,
        };
        SingleStream { resume_from, attempts: 0 }
    }

    /// What to do next; counts an attempt.
    pub fn next(&mut self, max_retries: u32) -> (r: StreamStep)
        requires
            old(self).attempts() < u32::MAX,
        ensures
            r == stream_step(old(self).resume_from(), old(self).attempts(), max_retries),
            r is Request <==> old(self).attempts() < max_retries,
            r matches StreamStep::Request { resume_from } ==> resume_from == old(
                self,
            ).resume_from(),
            final(self).attempts() == old(self).attempts() + 1,
            final(self).resume_from() == old(self).resume_from(),
    {
        self.attempts = self.attempts + 1;
        if self.attempts > max_retries {
            StreamStep::GiveUp(TransferError::StreamRetriesExhausted { retries: max_retries })
        } else {
            StreamStep::Request { resume_from: self.resume_from }
        }
    }

    /// What to do with the answer to a request.
    pub fn on_reply(&self, reply: StreamReply) -> (r: ReplyStep)
        ensures
            r == reply_step(self.resume_from(), reply),
    {
        match reply {
            StreamReply::NoAnswer => ReplyStep::Retry {
                pause_ms: crate::net::RETRY_BACKOFF_MIN_MS,
            },
            StreamReply::Status { success, partial } => if success || partial {
                ReplyStep::Receive {
                    append: self.resume_from > 0,
                    already_there: self.resume_from,
                }
            } else {
                ReplyStep::Retry { pause_ms: crate::net::RETRY_BACKOFF_MIN_MS }
            },
        }
    }
}

/// Whether the end of a body ends the download: it does if anything arrived at all.
pub fn body_ends_download(chunks_received: u64) -> (r: bool)
    ensures
        r == (chunks_received > 0),
{
    chunks_received > 0
}

/// A download without resumption starts at the first byte and never appends.
pub proof fn law_no_resume_starts_over(existing: Option<u64>, reply: StreamReply)
    ensures
        resume_point(false, existing) == 0,
        reply_step(resume_point(false, existing), reply) matches ReplyStep::Receive {
            append,
            already_there,
        } ==> !append && already_there == 0,
{
}

/// Exactly `max_retries` attempts are made before a download is given up.
pub proof fn law_attempts_are_bounded(resume_from: u64, max_retries: u32, attempts: int)
    requires
        attempts >= 0,
    ensures
        stream_step(resume_from, attempts, max_retries) is GiveUp <==> attempts >= max_retries,
{
}

/// The byte from which a download goes on is the size of what is there, where there is something
/// that may be resumed, and else the first.
pub proof fn law_resume_point(allow_resume: bool, existing: Option<u64>)
    ensures
        allow_resume && existing is Some ==> resume_point(allow_resume, existing) == existing->0,
        !allow_resume || existing is None ==> resume_point(allow_resume, existing) == 0,
{
}

/// Every request of a download asks for the same byte, the one from which it goes on, whichever
/// attempt it is; and what arrives is written there: behind what is there exactly if that is not
/// the first byte.
pub proof fn law_every_attempt_asks_for_the_same_byte(
    allow_resume: bool,
    existing: Option<u64>,
    attempts: int,
    max_retries: u32,
    reply: StreamReply,
)
    requires
        0 <= attempts < max_retries,
    ensures
        ({
            let from = resume_point(allow_resume, existing);
            &&& stream_step(from, attempts, max_retries) is Request
            &&& stream_step(from, attempts, max_retries)->resume_from == from
            &&& allow_resume && existing is Some ==> stream_step(
                from,
                attempts,
                max_retries,
            )->resume_from == existing->0
            &&& !allow_resume || existing is None ==> stream_step(
                from,
                attempts,
                max_retries,
            )->resume_from == 0
            &&& reply_step(from, reply) matches ReplyStep::Receive { append, already_there }
                ==> already_there == stream_step(from, attempts, max_retries)->resume_from && (
            append <==> already_there > 0)
        }),
{
}

/// After `max_retries` attempts a download is given up, and the error says how many there were.
pub proof fn law_giving_up_names_the_attempts(resume_from: u64, attempts: int, max_retries: u32)
    requires
        attempts >= max_retries,
    ensures
        stream_step(resume_from, attempts, max_retries) == StreamStep::GiveUp(
            TransferError::StreamRetriesExhausted { retries: max_retries },
        ),
{
}

/// A body is received exactly if the status is one of success or 206; everything else is tried
/// again after a tenth of a second.
pub proof fn law_replies(stream: &SingleStream, reply: StreamReply, r: ReplyStep)
    requires
        call_ensures(SingleStream::on_reply, (stream, reply), r),
    ensures
        reply is NoAnswer ==> r == (ReplyStep::Retry { pause_ms: 100 }),
        reply matches StreamReply::Status { success, partial } ==> {
            &&& success || partial ==> r == (ReplyStep::Receive {
                append: stream.resume_from() > 0,
                already_there: stream.resume_from(),
            })
            &&& !success && !partial ==> r == (ReplyStep::Retry { pause_ms: 100 })
        },
{
}

/// A new download has made no attempt and goes on from the size of what may be resumed.
pub proof fn law_new_stream(allow_resume: bool, existing: Option<u64>, r: SingleStream)
    requires
        call_ensures(SingleStream::new, (allow_resume, existing), r),
    ensures
        r.attempts() == 0,
        allow_resume && existing is Some ==> r.resume_from() == existing->0,
        !allow_resume || existing is None ==> r.resume_from() == 0,
{
}

/// A body that brought nothing does not end a download; any other does.
pub proof fn law_empty_bodies_do_not_count(chunks_received: u64, r: bool)
    requires
        call_ensures(body_ends_download, (chunks_received,), r),
    ensures
        r <==> chunks_received != 0,
{
}

/// Two steps in a row: as long as attempts are left, both ask for the byte that the download goes
/// on from, and each counts as one attempt.
pub proof fn law_two_steps_ask_alike(
    stream: &mut SingleStream,
    later: &mut SingleStream,
    max_retries: u32,
    x: StreamStep,
    y: StreamStep,
)
    requires
        old(stream).attempts() + 1 < u32::MAX,
        *old(later) == *final(stream),
        call_ensures(SingleStream::next, (stream, max_retries), x),
        call_ensures(SingleStream::next, (later, max_retries), y),
    ensures
        final(stream).attempts() == old(stream).attempts() + 1,
        final(stream).resume_from() == old(stream).resume_from(),
        x is Request <==> old(stream).attempts() < max_retries,
        y is Request <==> old(stream).attempts() + 1 < max_retries,
        y is Request ==> x == y,
        x is Request ==> x->resume_from == old(stream).resume_from(),
{
}

} // verus!
