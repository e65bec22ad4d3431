use arkama::events::{event_kind, EventOrder, EventKind, EventPhase};
use arkama::{DownloadEvent, DownloadSummary, Elapsed};

fn started() -> DownloadEvent {
    DownloadEvent::Started { output: "a.bin".to_string(), total_bytes: Some(10), resumed_bytes: 0 }
}

fn progress(n: u64) -> DownloadEvent {
    DownloadEvent::Progress { downloaded_bytes: n, total_bytes: Some(10) }
}

fn finished() -> DownloadEvent {
    DownloadEvent::Finished {
        summary: DownloadSummary::finished("a.bin".to_string(), 10, 0, Elapsed::from_secs(1)),
    }
}

fn failed() -> DownloadEvent {
    DownloadEvent::Failed { message: "interrupted".to_string() }
}

#[test]
fn events_are_reported_in_order() {
    let mut g = EventOrder::new();
    assert!(!g.let_through(&progress(1)));
    assert!(!g.let_through(&finished()));
    assert!(g.let_through(&started()));
    assert!(!g.let_through(&started()));
    assert!(g.let_through(&progress(5)));
    assert!(g.let_through(&progress(10)));
    assert!(g.let_through(&finished()));
    assert_eq!(g.phase, EventPhase::Closed);
    assert!(!g.let_through(&failed()));
    assert!(!g.let_through(&progress(10)));
}

#[test]
fn a_failure_closes_the_stream() {
    let mut g = EventOrder::new();
    assert!(g.let_through(&started()));
    assert!(g.let_through(&failed()));
    assert!(!g.let_through(&finished()));
    assert_eq!(event_kind(&failed()), EventKind::Failed);
}
