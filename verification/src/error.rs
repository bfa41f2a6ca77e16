//! What can go wrong, and how it is told to the user.
use vstd::prelude::*;
use vstd::string::*;

use crate::text::push_decimal;

verus! {

/// Why a request is refused, or a finished file is not accepted.
#[derive(Debug, Clone, Copy, PartialEq, Eq, Structural)]
pub enum ValidationError {
    InvalidUrl,
    UnsupportedScheme,
    LoopbackHost,
    PrivateHost,
    PathTraversal,
    InvalidPathCharacters,
    ThreadCountOutOfRange,
    FileTooLarge { size: u64, max_size: u64 },
    TimeoutOutOfRange,
    ConcurrentWritesOutOfRange,
    TooManyRetries,
    MetadataUnreadable,
    SizeMismatch { expected: u64, found: u64 },
}

impl ValidationError {
    /// The text shown to the user.
    pub open spec fn message_text(self) -> Seq<char> {
        match self {
            ValidationError::InvalidUrl => "Invalid URL format"@,
            ValidationError::UnsupportedScheme => "Only HTTP and HTTPS protocols are allowed"@,
            ValidationError::LoopbackHost => "Localhost/Loopback addresses are restricted"@,
            ValidationError::PrivateHost => "Private network addresses are restricted"@,
            ValidationError::PathTraversal => "Path traversal detected"@,
            ValidationError::InvalidPathCharacters => "Path contains invalid characters"@,
            ValidationError::ThreadCountOutOfRange => "Thread count must be between 1 and 128"@,
            ValidationError::FileTooLarge { size, max_size } => "File size "@
                + crate::text::decimal(size as nat) + " exceeds maximum allowed "@
                + crate::text::decimal(max_size as nat),
            ValidationError::TimeoutOutOfRange => "Timeout must be between 0 and 7200 seconds"@,
            ValidationError::ConcurrentWritesOutOfRange
                => "Concurrent writes must be between 1 and 64"@,
            ValidationError::TooManyRetries => "Retries cannot exceed 100"@,
            ValidationError::MetadataUnreadable
                => "Failed to read file metadata for verification"@,
            ValidationError::SizeMismatch { expected, found }
                => "Integrity Check Failed: Expected "@ + crate::text::decimal(expected as nat)
                + " bytes, found "@ + crate::text::decimal(found as nat) + " bytes"@,
        }
    }

    /// The text shown to the user.
    pub fn message(&self) -> (r: String)
        ensures
            r@ == self.message_text(),
    {
        let mut out: String = String::new();
        match self {
            ValidationError::InvalidUrl => out.append("Invalid URL format"),
            ValidationError::UnsupportedScheme => out.append(
                "Only HTTP and HTTPS protocols are allowed",
            ),
            ValidationError::LoopbackHost => out.append(
                "Localhost/Loopback addresses are restricted",
            ),
            ValidationError::PrivateHost => out.append("Private network addresses are restricted"),
            ValidationError::PathTraversal => out.append("Path traversal detected"),
            ValidationError::InvalidPathCharacters => out.append(
                "Path contains invalid characters",
            ),
            ValidationError::ThreadCountOutOfRange => out.append(
                "Thread count must be between 1 and 128",
            ),
            ValidationError::FileTooLarge { size, max_size } => {
                out.append("File size ");
                push_decimal(&mut out, *size);
                out.append(" exceeds maximum allowed ");
                push_decimal(&mut out, *max_size);
            },
            ValidationError::TimeoutOutOfRange => out.append(
                "Timeout must be between 0 and 7200 seconds",
            ),
            ValidationError::ConcurrentWritesOutOfRange => out.append(
                "Concurrent writes must be between 1 and 64",
            ),
            ValidationError::TooManyRetries => out.append("Retries cannot exceed 100"),
            ValidationError::MetadataUnreadable => out.append(
                "Failed to read file metadata for verification",
            ),
            ValidationError::SizeMismatch { expected, found } => {
                out.append("Integrity Check Failed: Expected ");
                push_decimal(&mut out, *expected);
                out.append(" bytes, found ");
                push_decimal(&mut out, *found);
                out.append(" bytes");
            },
        }
        proof {
            assert(out@ =~= self.message_text());
        }
        out
    }
}

/// Why a transfer is given up.
#[derive(Debug, Clone, Copy, PartialEq, Eq, Structural)]
pub enum TransferError {
    /// The byte range `start..=end` failed too often in a row.
    RangeRetriesExhausted { start: u64, end: u64 },
    /// The whole file was attempted `retries` times in vain.
    StreamRetriesExhausted { retries: u32 },
}

impl TransferError {
    /// The text shown to the user.
    pub open spec fn message_text(self) -> Seq<char> {
        match self {
            TransferError::RangeRetriesExhausted { start, end }
                => "Max retries exceeded for chunk range "@ + crate::text::decimal(start as nat)
                + "-"@ + crate::text::decimal(end as nat),
            TransferError::StreamRetriesExhausted { retries }
                => "Failed single-stream download after "@ + crate::text::decimal(retries as nat)
                + " retries"@,
        }
    }

    /// The text shown to the user.
    pub fn message(&self) -> (r: String)
        ensures
            r@ == self.message_text(),
    {
        let mut out: String = String::new();
        match self {
            TransferError::RangeRetriesExhausted { start, end } => {
                out.append("Max retries exceeded for chunk range ");
                push_decimal(&mut out, *start);
                out.append("-");
                push_decimal(&mut out, *end);
            },
            TransferError::StreamRetriesExhausted { retries } => {
                out.append("Failed single-stream download after ");
                push_decimal(&mut out, *retries as u64);
                out.append(" retries");
            },
        }
        proof {
            assert(out@ =~= self.message_text());
        }
        out
    }
}

/// A message about sizes names them, and in the order of the sentence.
pub proof fn law_messages_name_the_sizes(a: u64, b: u64, larger: String, other: String)
    requires
        call_ensures(
            ValidationError::message,
            (&ValidationError::FileTooLarge { size: a, max_size: b },),
            larger,
        ),
        call_ensures(
            ValidationError::message,
            (&ValidationError::SizeMismatch { expected: a, found: b },),
            other,
        ),
    ensures
        larger@ == "File size "@ + crate::text::decimal(a as nat) + " exceeds maximum allowed "@
            + crate::text::decimal(b as nat),
        other@ == "Integrity Check Failed: Expected "@ + crate::text::decimal(a as nat)
            + " bytes, found "@ + crate::text::decimal(b as nat) + " bytes"@,
{
}

/// A message about a transfer that was given up names its range, or how often it was tried.
pub proof fn law_messages_name_the_transfer(
    start: u64,
    end: u64,
    retries: u32,
    range: String,
    stream: String,
)
    requires
        call_ensures(
            TransferError::message,
            (&TransferError::RangeRetriesExhausted { start, end },),
            range,
        ),
        call_ensures(
            TransferError::message,
            (&TransferError::StreamRetriesExhausted { retries },),
            stream,
        ),
    ensures
        range@ == "Max retries exceeded for chunk range "@ + crate::text::decimal(start as nat)
            + "-"@ + crate::text::decimal(end as nat),
        stream@ == "Failed single-stream download after "@ + crate::text::decimal(retries as nat)
            + " retries"@,
{
}

} // verus!
