use std::time::Duration;

use arkama::pacing::{SlowestTracker, SpeedLimiter};
use arkama::segment::Segment;
use arkama::transfer::{
    backoff_delay, Retry, SegmentTransfer, SingleRequest, SingleResponse, SingleTransfer, StreamOutcome,
    TransferFailure, STATE_SYNC_BATCH_BYTES,
};
use arkama::Elapsed;

fn as_duration(e: Elapsed) -> Duration {
    Duration::new(e.as_secs(), e.subsec_nanos())
}

#[test]
fn test_backoff_delay_caps_at_max() {
    let delay = backoff_delay(6);
    assert_eq!(as_duration(delay), Duration::from_millis(10_000));
}

#[test]
fn test_backoff_delay_first_attempt() {
    let delay = backoff_delay(1);
    assert_eq!(as_duration(delay), Duration::from_millis(1_000));
}

#[test]
fn backoff_doubles_until_capped() {
    let ms: Vec<u128> = (0..8).map(|a| backoff_delay(a).as_millis()).collect();
    assert_eq!(ms, vec![500, 1000, 2000, 4000, 8000, 10_000, 10_000, 10_000]);
}

#[test]
fn segment_transfer_resumes_and_syncs_in_batches() {
    assert!(SegmentTransfer::begin(Segment { id: 0, start: 0, end: 9, downloaded: 10 }).is_none());
    let mut t = SegmentTransfer::begin(Segment { id: 1, start: 100, end: 299_999, downloaded: 50 }).unwrap();
    assert_eq!(t.request_range(), (150, 299_999));
    assert_eq!(t.on_response(200), Err(TransferFailure::RangeUnsupported));
    assert_eq!(t.on_response(206), Ok(()));
    let (at, sync) = t.on_chunk(STATE_SYNC_BATCH_BYTES - 1);
    assert_eq!((at, sync), (150, false));
    let (at, sync) = t.on_chunk(1);
    assert_eq!((at, sync), (150 + STATE_SYNC_BATCH_BYTES - 1, true));
    assert!(!t.needs_sync());
    t.on_chunk(10);
    assert!(t.needs_sync());
    match t.on_stream_error() {
        Retry::After(d) => assert_eq!(d.as_millis(), 1000),
        other => panic!("unexpected {other:?}"),
    }
    assert_eq!(t.start, 100 + 50 + STATE_SYNC_BATCH_BYTES + 10);
    assert!(!t.needs_sync());
}

#[test]
fn segment_transfer_gives_up_after_five_retries() {
    let mut t = SegmentTransfer::begin(Segment { id: 0, start: 0, end: 99, downloaded: 0 }).unwrap();
    for attempt in 1..=5u32 {
        match t.on_request_failed() {
            Retry::After(d) => assert_eq!(d, backoff_delay(attempt)),
            other => panic!("unexpected {other:?}"),
        }
    }
    assert_eq!(t.on_request_failed(), Retry::GiveUp(TransferFailure::RequestFailed));
}

#[test]
fn segment_transfer_finishes_or_retries_at_stream_end() {
    let mut t = SegmentTransfer::begin(Segment { id: 0, start: 10, end: 19, downloaded: 0 }).unwrap();
    t.on_response(206).unwrap();
    t.on_chunk(4);
    match t.on_stream_end() {
        StreamOutcome::Again(Retry::After(_)) => {}
        other => panic!("unexpected {other:?}"),
    }
    assert_eq!(t.request_range(), (14, 19));
    t.on_response(206).unwrap();
    t.on_chunk(6);
    assert_eq!(t.on_stream_end(), StreamOutcome::Finished);
    let mut r = SegmentTransfer::begin(Segment { id: 0, start: 0, end: 9, downloaded: 2 }).unwrap();
    assert_eq!(r.on_recycle(), None);
    assert_eq!(r.attempts, 1);
    assert_eq!(r.start, 2);
}

#[test]
fn single_transfer_restarts_when_range_is_ignored() {
    let mut t = SingleTransfer::new(500, true, Some(1000));
    assert_eq!(t.begin_request(), SingleRequest::From(500));
    assert_eq!(t.on_response(200), SingleResponse::Restart);
    assert_eq!(t.offset, 0);
    assert!(!t.accept_ranges);
    assert_eq!(t.begin_request(), SingleRequest::Whole);
    assert_eq!(t.on_response(200), SingleResponse::Accept);
    assert_eq!(t.on_chunk(600), 0);
    match t.on_stream_end() {
        Some((Retry::After(_), true)) => assert_eq!(t.offset, 0),
        other => panic!("unexpected {other:?}"),
    }
    t.begin_request();
    t.on_chunk(1000);
    assert_eq!(t.on_stream_end(), None);
}

#[test]
fn single_transfer_keeps_offset_with_ranges() {
    let mut t = SingleTransfer::new(0, true, None);
    assert_eq!(t.begin_request(), SingleRequest::Whole);
    t.on_chunk(300);
    let (retry, reset) = t.on_stream_error();
    assert!(matches!(retry, Retry::After(_)));
    assert!(!reset);
    assert_eq!(t.begin_request(), SingleRequest::From(300));
    assert_eq!(t.on_response(206), SingleResponse::Accept);
    t.on_chunk(5);
    assert_eq!(t.on_stream_end(), None);
}

#[test]
fn speed_limiter_spaces_transfers() {
    let mut l = SpeedLimiter::new(1000, 0);
    assert_eq!(l.throttle(500, 0), 500_000_000);
    assert_eq!(l.throttle(500, 100_000_000), 900_000_000);
    assert_eq!(l.throttle(0, 0), 0);
    let mut fast = SpeedLimiter::new(u64::MAX, 10);
    assert_eq!(fast.throttle(1, 10), 1);
    let mut idle = SpeedLimiter::new(1000, 0);
    assert_eq!(idle.throttle(1000, 5_000_000_000), 1_000_000_000);
    let mut unlimited = SpeedLimiter::new(0, 0);
    assert_eq!(unlimited.throttle(1000, 0), 0);
}

#[test]
fn slowest_tracker_recycles_only_slower_transfers() {
    let mut t = SlowestTracker::new(2);
    assert!(!t.should_recycle(Elapsed::from_secs(100)));
    t.record(Elapsed::from_secs(3));
    assert!(!t.should_recycle(Elapsed::from_secs(100)));
    t.record(Elapsed::from_secs(5));
    assert!(t.should_recycle(Elapsed::from_secs(6)));
    assert!(!t.should_recycle(Elapsed::from_secs(5)));
    t.record(Elapsed::from_secs(4));
    assert!(t.should_recycle(Elapsed::new(4, 1)));
    t.record(Elapsed::from_secs(3));
    assert!(!t.should_recycle(Elapsed::from_secs(100)));
    let mut one = SlowestTracker::new(0);
    one.record(Elapsed::from_secs(1));
    assert!(one.should_recycle(Elapsed::from_secs(2)));
}

#[test]
fn limiter_keeps_pace_over_a_run() {
    let mut l = SpeedLimiter::new(1000, 0);
    let mut now = 0u128;
    for _ in 0..10 {
        let sleep = l.throttle(100, now);
        now += sleep;
    }
    // Ten transfers of 100 bytes at 1000 B/s take at least one second.
    assert!(l.next_at >= 1_000_000_000);
    assert_eq!(now, 1_000_000_000);
}

#[test]
fn unranged_break_restarts_and_delivers_exactly_the_file() {
    // The scenario of an interrupted stream from a server without ranges.
    let mut t = SingleTransfer::new(0, false, Some(1000));
    assert_eq!(t.begin_request(), SingleRequest::Whole);
    assert_eq!(t.on_response(200), SingleResponse::Accept);
    assert_eq!(t.on_chunk(400), 0);
    let (retry, reset) = t.on_stream_error();
    assert!(matches!(retry, Retry::After(_)));
    assert!(reset);
    assert_eq!(t.offset, 0);
    assert_eq!(t.total_size, Some(1000));
    assert_eq!(t.begin_request(), SingleRequest::Whole);
    assert_eq!(t.request_start, 0);
    assert_eq!(t.on_response(200), SingleResponse::Accept);
    assert_eq!(t.on_chunk(300), 0);
    assert_eq!(t.on_chunk(700), 300);
    assert_eq!(t.on_stream_end(), None);
    assert_eq!(t.offset, 1000);
}

#[test]
fn one_response_completes_a_segment() {
    let mut t = SegmentTransfer::begin(Segment { id: 2, start: 100, end: 199, downloaded: 40 }).unwrap();
    assert_eq!(t.on_response(206), Ok(()));
    assert_eq!(t.on_chunk(25).0, 140);
    assert_eq!(t.on_chunk(35).0, 165);
    assert_eq!(t.offset, 200);
    assert_eq!(t.segment.downloaded, 100);
    assert_eq!(t.on_stream_end(), StreamOutcome::Finished);
}
