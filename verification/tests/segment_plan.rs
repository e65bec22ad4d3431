use arkama::plan::{
    apply_segment_progress, complete_before_start, sum_downloaded, DownloadPlan, DownloadState,
    FailureAction, SegmentedFailure, StopSignal, Strategy, EXPERIMENTAL_SEGMENT_SIZE,
};
use arkama::http::HttpMeta;
use arkama::segment::{build_segments, build_segments_with_chunk_size, chunked_layout_fits, Segment};

#[test]
fn test_remaining_start_some() {
    let segment = Segment { id: 0, start: 5, end: 10, downloaded: 3 };
    assert_eq!(segment.remaining_start(), Some(8));
}

#[test]
fn test_remaining_start_none_when_complete() {
    let segment = Segment { id: 0, start: 0, end: 9, downloaded: 10 };
    assert_eq!(segment.remaining_start(), None);
}

#[test]
fn test_build_segments_zero_total() {
    let segments = build_segments(0, 4);
    assert!(segments.is_empty());
}

#[test]
fn test_build_segments_zero_connections_defaults_to_one() {
    let segments = build_segments(10, 0);
    assert_eq!(segments.len(), 1);
    assert_eq!(segments[0].start, 0);
    assert_eq!(segments[0].end, 9);
}

#[test]
fn test_build_segments_total_less_than_connections() {
    let segments = build_segments(1, 4);
    assert_eq!(segments.len(), 1);
    assert_eq!(segments[0].start, 0);
    assert_eq!(segments[0].end, 0);
}

#[test]
fn test_build_segments_even_split() {
    let segments = build_segments(10, 3);
    assert_eq!(segments.len(), 3);
    assert_eq!(segments[0].start, 0);
    assert_eq!(segments[0].end, 2);
    assert_eq!(segments[1].start, 3);
    assert_eq!(segments[1].end, 5);
    assert_eq!(segments[2].start, 6);
    assert_eq!(segments[2].end, 9);
}

fn assert_tiles(segments: &[Segment], total: u64) {
    let mut next = 0u64;
    for (i, s) in segments.iter().enumerate() {
        assert_eq!(s.id, i);
        assert_eq!(s.start, next);
        assert!(s.start <= s.end);
        assert_eq!(s.downloaded, 0);
        next = s.end + 1;
    }
    assert_eq!(next, total);
}

#[test]
fn segments_tile_the_whole_file() {
    for total in [1u64, 2, 7, 10, 1000, 1_048_576, 1_048_577] {
        for connections in [0usize, 1, 2, 3, 4, 8, 16] {
            let segments = build_segments(total, connections);
            let wanted = if connections == 0 { 1 } else { connections } as u64;
            assert_eq!(segments.len() as u64, wanted.min(total));
            assert_tiles(&segments, total);
        }
    }
}

#[test]
fn chunked_segments_tile_the_whole_file() {
    let segments = build_segments_with_chunk_size(10, 4);
    assert_eq!(segments.len(), 3);
    assert_eq!((segments[2].start, segments[2].end), (8, 9));
    assert_tiles(&segments, 10);
    let segments = build_segments_with_chunk_size(5, 0);
    assert_eq!(segments.len(), 5);
    assert_tiles(&segments, 5);
    assert!(build_segments_with_chunk_size(0, 4).is_empty());
    let big = 9 * EXPERIMENTAL_SEGMENT_SIZE + 1;
    let segments = build_segments_with_chunk_size(big, EXPERIMENTAL_SEGMENT_SIZE);
    assert_eq!(segments.len(), 10);
    assert_tiles(&segments, big);
}

fn meta(size: Option<u64>, accept_ranges: bool) -> HttpMeta {
    HttpMeta {
        size,
        accept_ranges,
        filename: None,
        etag: Some("\"v1\"".to_string()),
        last_modified: None,
        mime_type: None,
        final_url: "https://example.com/file.bin".to_string(),
    }
}

fn state(segments: Vec<Segment>) -> DownloadState {
    DownloadState {
        url: "https://example.com/file.bin".to_string(),
        output: "file.bin".to_string(),
        total_size: Some(100),
        etag: Some("\"v1\"".to_string()),
        last_modified: None,
        mime_type: None,
        final_url: Some("https://example.com/file.bin".to_string()),
        segments,
        segment_size: None,
        experimental_entropy: false,
    }
}

#[test]
fn plan_resumes_matching_state() {
    let saved = vec![Segment { id: 0, start: 0, end: 49, downloaded: 20 }, Segment { id: 1, start: 50, end: 99, downloaded: 5 }];
    let plan = DownloadPlan::new(
        "https://example.com/file.bin",
        "file.bin".to_string(),
        meta(Some(100), true),
        2,
        Some(state(saved)),
        false,
        true,
    );
    assert_eq!(plan.segments.len(), 2);
    assert_eq!(plan.already_downloaded(Some(100)), 25);
    assert_eq!(plan.strategy(), Strategy::Segmented);
    assert_eq!(plan.if_range, Some("\"v1\"".to_string()));
}

#[test]
fn plan_ignores_state_of_another_version() {
    let mut saved = state(vec![Segment { id: 0, start: 0, end: 99, downloaded: 20 }]);
    saved.etag = Some("\"v0\"".to_string());
    let plan = DownloadPlan::new(
        "https://example.com/file.bin",
        "file.bin".to_string(),
        meta(Some(100), true),
        2,
        Some(saved),
        false,
        true,
    );
    assert!(plan.segments.is_empty());
    assert_eq!(plan.strategy(), Strategy::Single);
    assert_eq!(plan.single_start(Some(40)), (40, false));
}

#[test]
fn plan_without_size_uses_single_stream() {
    let plan = DownloadPlan::new("https://example.com/file.bin", "file.bin".to_string(), meta(None, true), 4, None, false, false);
    assert!(!plan.accept_ranges);
    assert!(plan.segments.is_empty());
    assert_eq!(plan.strategy(), Strategy::Single);
    assert_eq!(plan.single_start(Some(40)), (0, true));
    assert_eq!(plan.already_downloaded(Some(40)), 0);
}

#[test]
fn plan_fresh_download_is_split() {
    let plan = DownloadPlan::new("https://example.com/file.bin", "file.bin".to_string(), meta(Some(100), true), 4, None, false, false);
    assert_eq!(plan.segments.len(), 4);
    assert_eq!(plan.already_downloaded(None), 0);
    let entropy = DownloadPlan::new(
        "https://example.com/file.bin",
        "file.bin".to_string(),
        meta(Some(3 * EXPERIMENTAL_SEGMENT_SIZE), true),
        4,
        None,
        true,
        false,
    );
    assert_eq!(entropy.segments.len(), 3);
    assert_eq!(entropy.segment_size, Some(EXPERIMENTAL_SEGMENT_SIZE));
    assert_eq!(entropy.strategy(), Strategy::SegmentedQueue);
}

#[test]
fn segmented_failures_lead_to_the_documented_actions() {
    let mut plan = DownloadPlan::new("https://example.com/file.bin", "file.bin".to_string(), meta(Some(100), true), 4, None, false, false);
    assert_eq!(plan.on_segmented_failure(SegmentedFailure::Stopped(StopSignal::Pause)), FailureAction::SaveStateAndStop);
    assert_eq!(plan.on_segmented_failure(SegmentedFailure::Stopped(StopSignal::Cancel)), FailureAction::DiscardAndStop);
    assert_eq!(plan.on_segmented_failure(SegmentedFailure::Other), FailureAction::Fail);
    assert!(plan.accept_ranges);
    assert_eq!(plan.on_segmented_failure(SegmentedFailure::RangeUnsupported), FailureAction::FallBackToSingle);
    assert!(!plan.accept_ranges);
    assert_eq!(plan.strategy(), Strategy::Single);
}

#[test]
fn segment_progress_is_recorded_by_id() {
    let mut segments = build_segments(100, 4);
    apply_segment_progress(&mut segments, &Segment { id: 2, start: 50, end: 74, downloaded: 7 });
    assert_eq!(segments[2].downloaded, 7);
    assert_eq!(sum_downloaded(&segments), 7);
    let mut shuffled = vec![Segment { id: 5, start: 0, end: 9, downloaded: 0 }, Segment { id: 0, start: 10, end: 19, downloaded: 0 }];
    apply_segment_progress(&mut shuffled, &Segment { id: 5, start: 0, end: 9, downloaded: 3 });
    assert_eq!(shuffled[0].downloaded, 3);
    apply_segment_progress(&mut shuffled, &Segment { id: 9, start: 0, end: 9, downloaded: 4 });
    assert_eq!(sum_downloaded(&shuffled), 3);
}

#[test]
fn complete_output_is_not_downloaded_again() {
    assert_eq!(complete_before_start(true, Some(10), 10), Some(10));
    assert_eq!(complete_before_start(false, Some(10), 10), None);
    assert_eq!(complete_before_start(true, None, 10), None);
    assert_eq!(complete_before_start(true, Some(10), 9), None);
}

#[test]
fn chunked_layout_fits_ordinary_sizes() {
    assert!(chunked_layout_fits(10 * 1024 * 1024, EXPERIMENTAL_SEGMENT_SIZE));
    assert!(chunked_layout_fits(0, 0));
    assert!(chunked_layout_fits(u64::MAX, 1));
}

#[test]
fn chunked_layout_does_not_fit_past_the_last_byte() {
    // The last chunk would end beyond u64::MAX.
    assert!(!chunked_layout_fits(u64::MAX, EXPERIMENTAL_SEGMENT_SIZE));
    assert!(!chunked_layout_fits(u64::MAX, 2));
    assert!(chunked_layout_fits(u64::MAX, 3));
}

#[test]
fn saved_state_round_trips_into_the_next_plan() {
    let plan = DownloadPlan::new("https://example.com/file.bin", "file.bin".to_string(), meta(Some(100), true), 2, None, false, false);
    let mut segments = plan.segments.clone();
    apply_segment_progress(&mut segments, &Segment { id: 1, start: 50, end: 99, downloaded: 30 });
    let saved = plan.resume_state(segments.clone());
    let later = DownloadPlan::new("https://example.com/file.bin", "file.bin".to_string(), meta(Some(100), true), 8, Some(saved), false, true);
    assert_eq!(later.segments, segments);
    assert_eq!(later.already_downloaded(None), 30);
}

#[test]
fn switching_entropy_mode_starts_afresh() {
    let plan = DownloadPlan::new("https://example.com/file.bin", "file.bin".to_string(), meta(Some(100), true), 2, None, false, false);
    let saved = plan.resume_state(plan.segments.clone());
    let later = DownloadPlan::new("https://example.com/file.bin", "file.bin".to_string(), meta(Some(100), true), 2, Some(saved.clone()), true, true);
    assert!(later.segments.is_empty());
    let fresh = DownloadPlan::new("https://example.com/file.bin", "file.bin".to_string(), meta(Some(100), true), 2, Some(saved), true, false);
    assert_eq!(fresh.segments.len(), 1);
    assert_tiles(&fresh.segments, 100);
}

#[test]
fn fresh_plan_splits_evenly_like_build_segments() {
    let plan = DownloadPlan::new("https://example.com/file.bin", "file.bin".to_string(), meta(Some(100), true), 3, None, false, false);
    assert_eq!(plan.segments, build_segments(100, 3));
    assert_eq!(plan.segments[1].start, 33);
    assert_eq!(plan.segments[2].end, 99);
}

#[test]
fn zero_connections_plan_like_one() {
    let zero = DownloadPlan::new("https://example.com/file.bin", "file.bin".to_string(), meta(Some(100), true), 0, None, false, false);
    let one = DownloadPlan::new("https://example.com/file.bin", "file.bin".to_string(), meta(Some(100), true), 1, None, false, false);
    assert_eq!(zero.connections, 1);
    assert_eq!(zero.segments, one.segments);
    assert_eq!(zero.segments.len(), 1);
    assert_eq!(zero.strategy(), one.strategy());
}
