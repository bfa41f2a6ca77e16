use jito_downloader::error::TransferError;
use jito_downloader::net::{
    first_failure, get_file_info, open_range_header, plan_chunks, progress_step, range_header,
    write_buffer_size, DownloadInfo, InfoReply, WorkerOutcome,
};
use jito_downloader::range_transfer::{RangeStep, RangeTransfer};
use jito_downloader::single_stream::{
    body_ends_download, ReplyStep, SingleStream, StreamReply, StreamStep,
};
use jito_downloader::text::{chars_of, parse_u64, tail_after_last};

fn head(length: Option<&str>, ranges: Option<&str>) -> DownloadInfo {
    get_file_info(&InfoReply::Head {
        content_length: length.map(|s| s.to_string()),
        accept_ranges: ranges.map(|s| s.to_string()),
    })
}

fn first_byte(partial: bool, range: Option<&str>) -> DownloadInfo {
    get_file_info(&InfoReply::FirstByte { partial, content_range: range.map(|s| s.to_string()) })
}

#[test]
fn numbers_are_read_as_std_reads_them() {
    for s in [
        "", "+", "-1", "0", "007", "+42", "++1", " 1", "1 ", "12a", "18446744073709551615",
        "18446744073709551616", "00000000000000000000000001", "99999999999999999999999",
    ] {
        assert_eq!(parse_u64(&chars_of(s)), s.parse::<u64>().ok(), "{}", s);
    }
}

#[test]
fn numerals_are_read_back() {
    for n in [0u64, 9, 10, 99, 100, 4096, 10_000_000_000, u64::MAX] {
        let text = open_range_header(n);
        assert_eq!(text, format!("bytes={}-", n));
        let numeral: Vec<char> = text["bytes=".len()..text.len() - 1].chars().collect();
        assert_eq!(parse_u64(&numeral), Some(n));
    }
}

#[test]
fn tail_after_the_last_slash() {
    let tail = |s: &str| tail_after_last(&chars_of(s), '/').map(|t| t.into_iter().collect::<String>());
    assert_eq!(tail("bytes 0-0/1234"), Some("1234".to_string()));
    assert_eq!(tail("a/b/"), Some("".to_string()));
    assert_eq!(tail("none"), None);
}

#[test]
fn info_from_head() {
    let info = head(Some("1048576"), Some("bytes"));
    assert_eq!((info.total_size, info.supports_ranges), (1_048_576, true));
    let info = head(Some("many"), Some("none"));
    assert_eq!((info.total_size, info.supports_ranges), (0, false));
    let info = head(None, Some("Bytes"));
    assert_eq!((info.total_size, info.supports_ranges), (0, false));
    let info = head(Some("18446744073709551616"), None);
    assert_eq!((info.total_size, info.supports_ranges), (0, false));
}

#[test]
fn info_from_first_byte() {
    let info = first_byte(true, Some("bytes 0-0/5000"));
    assert_eq!((info.total_size, info.supports_ranges), (5000, true));
    let info = first_byte(false, Some("bytes 0-0/*"));
    assert_eq!((info.total_size, info.supports_ranges), (0, false));
    let info = first_byte(true, Some("bytes"));
    assert_eq!((info.total_size, info.supports_ranges), (0, true));
    let info = first_byte(true, None);
    assert_eq!((info.total_size, info.supports_ranges), (0, true));
    let info = get_file_info(&InfoReply::Unanswered);
    assert_eq!((info.total_size, info.supports_ranges), (0, false));
}

#[test]
fn range_headers() {
    assert_eq!(range_header(0, 0), "bytes=0-0");
    assert_eq!(range_header(1024, u64::MAX), "bytes=1024-18446744073709551615");
    assert_eq!(open_range_header(10), "bytes=10-");
}

#[test]
fn chunks_of_a_file() {
    assert_eq!(plan_chunks(0, 0), vec![]);
    assert_eq!(plan_chunks(10, 4), vec![(0, 3), (4, 7), (8, 9)]);
    assert_eq!(plan_chunks(8, 4), vec![(0, 3), (4, 7)]);
    assert_eq!(plan_chunks(1, 100), vec![(0, 0)]);
    assert_eq!(plan_chunks(3, 1), vec![(0, 0), (1, 1), (2, 2)]);
}

#[test]
fn chunks_cover_every_byte_once() {
    for total in 1..60u64 {
        for size in 1..20u64 {
            let chunks = plan_chunks(total, size);
            let mut next = 0;
            for (start, end) in &chunks {
                assert_eq!(*start, next);
                assert!(start <= end && end - start < size);
                next = end + 1;
            }
            assert_eq!(next, total);
            let bytes: u64 = chunks.iter().map(|(s, e)| e - s + 1).sum();
            assert_eq!(bytes, total);
        }
    }
}

#[test]
fn buffers() {
    assert_eq!(write_buffer_size(false), 512 * 1024);
    assert_eq!(write_buffer_size(true), 2 * 1024 * 1024);
}

#[test]
fn range_backs_off_and_gives_up() {
    let mut t = RangeTransfer::new(100, 199, false);
    let mut pauses = vec![];
    let request = RangeStep::Request { from: 100, to: 199 };
    for _ in 0..9 {
        assert_eq!(t.next(8), request);
        pauses.push(t.attempt_failed());
    }
    assert_eq!(pauses, vec![100, 200, 400, 800, 1600, 3200, 5000, 5000, 5000]);
    assert_eq!(
        t.next(8),
        RangeStep::GiveUp(TransferError::RangeRetriesExhausted { start: 100, end: 199 })
    );
}

#[test]
fn unanswered_requests_and_empty_connections_count_alike() {
    let mut t = RangeTransfer::new(0, 99, false);
    t.connection_opened();
    t.bytes_written(40);
    assert_eq!(t.connection_closed(), None);
    let mut pauses = vec![];
    for i in 0..4 {
        assert_eq!(t.next(3), RangeStep::Request { from: 40, to: 99 });
        if i % 2 == 0 {
            pauses.push(t.attempt_failed());
        } else {
            t.connection_opened();
            t.bytes_written(0);
            pauses.push(t.connection_closed().unwrap());
        }
    }
    assert_eq!(pauses, vec![100, 200, 400, 800]);
    assert_eq!(
        t.next(3),
        RangeStep::GiveUp(TransferError::RangeRetriesExhausted { start: 0, end: 99 })
    );
}

#[test]
fn burst_mode_starts_with_a_shorter_pause() {
    let mut t = RangeTransfer::new(0, 9, true);
    let pauses: Vec<u64> = (0..8).map(|_| t.attempt_failed()).collect();
    assert_eq!(pauses, vec![50, 100, 200, 400, 800, 1600, 3200, 5000]);
}

#[test]
fn range_resumes_after_progress() {
    let mut t = RangeTransfer::new(0, 99, false);
    t.attempt_failed();
    t.attempt_failed();
    t.connection_opened();
    t.bytes_written(30);
    t.bytes_written(10);
    assert_eq!(t.connection_closed(), None);
    assert_eq!(t.position(), 40);
    assert_eq!(t.next(0), RangeStep::Request { from: 40, to: 99 });
    // A connection that brings nothing is a failure, even if the one before it brought bytes.
    t.connection_opened();
    assert_eq!(t.connection_closed(), Some(100));
    assert_eq!(t.next(1), RangeStep::Request { from: 40, to: 99 });
    assert!(matches!(t.next(0), RangeStep::GiveUp(_)));
    t.connection_opened();
    t.bytes_written(60);
    assert_eq!(t.next(0), RangeStep::Complete);
    assert_eq!(t.connection_closed(), None);
    assert_eq!(t.next(0), RangeStep::Complete);
}

#[test]
fn single_stream_attempts() {
    let mut s = SingleStream::new(true, None);
    for _ in 0..3 {
        assert_eq!(s.next(3), StreamStep::Request { resume_from: 0 });
    }
    assert_eq!(
        s.next(3),
        StreamStep::GiveUp(TransferError::StreamRetriesExhausted { retries: 3 })
    );
    let mut none = SingleStream::new(true, None);
    assert!(matches!(none.next(0), StreamStep::GiveUp(_)));
}

#[test]
fn single_stream_resumes() {
    let mut s = SingleStream::new(true, Some(500));
    assert_eq!(s.next(1), StreamStep::Request { resume_from: 500 });
    let ok = StreamReply::Status { success: true, partial: true };
    assert_eq!(s.on_reply(ok), ReplyStep::Receive { append: true, already_there: 500 });
    let mut s = SingleStream::new(false, Some(500));
    assert_eq!(s.next(1), StreamStep::Request { resume_from: 0 });
    assert_eq!(s.on_reply(ok), ReplyStep::Receive { append: false, already_there: 0 });
}

#[test]
fn single_stream_replies() {
    let s = SingleStream::new(true, None);
    let again = ReplyStep::Retry { pause_ms: 100 };
    assert_eq!(s.on_reply(StreamReply::NoAnswer), again);
    assert_eq!(s.on_reply(StreamReply::Status { success: false, partial: false }), again);
    let receive = ReplyStep::Receive { append: false, already_there: 0 };
    assert_eq!(s.on_reply(StreamReply::Status { success: true, partial: false }), receive);
    assert_eq!(s.on_reply(StreamReply::Status { success: false, partial: true }), receive);
    assert!(!body_ends_download(0));
    assert!(body_ends_download(1));
}

#[test]
fn workers() {
    let (finished, failed, panicked) =
        (WorkerOutcome::Finished, WorkerOutcome::Failed, WorkerOutcome::Panicked);
    assert_eq!(first_failure(&vec![]), None);
    assert_eq!(first_failure(&vec![finished, finished]), None);
    assert_eq!(first_failure(&vec![finished, panicked, failed]), Some(1));
    assert_eq!(first_failure(&vec![failed]), Some(0));
}

#[test]
fn progress_display() {
    let step = progress_step(10, 20, 100);
    assert_eq!((step.show, step.finished), (Some(20), false));
    let step = progress_step(20, 20, 100);
    assert_eq!((step.show, step.finished), (None, false));
    let step = progress_step(20, 100, 100);
    assert_eq!((step.show, step.finished), (Some(100), true));
}
