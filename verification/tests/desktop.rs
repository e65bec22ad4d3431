use arkama::desktop::{
    count_setting_input, is_pasteable_url, nonblank_input, resume_pending, running_count,
    status_line, window_failure, window_request, window_settings, PendingDownload, PendingQueue,
    SavedSettings, StopReason, WindowFailure,
};

fn nothing_saved() -> SavedSettings {
    SavedSettings {
        download_dir: None,
        max_concurrent: None,
        connections: None,
        speed_limit: None,
        user_agent: None,
        dark_mode: None,
        onboarding_complete: None,
    }
}

#[test]
fn window_settings_defaults() {
    let w = window_settings(nothing_saved(), "/home/me/Downloads".to_string());
    assert_eq!(w.download_dir, "/home/me/Downloads");
    assert_eq!(w.max_concurrent, 3);
    assert_eq!(w.connections, 4);
    assert_eq!(w.speed_limit, "");
    assert_eq!(w.user_agent, "");
    assert!(w.dark_mode);
    assert!(w.show_onboarding);
}

#[test]
fn window_settings_use_saved_values() {
    let saved = SavedSettings {
        download_dir: Some("/data".to_string()),
        max_concurrent: Some("5".to_string()),
        connections: Some("eight".to_string()),
        speed_limit: Some("2MB".to_string()),
        user_agent: Some("curl/8".to_string()),
        dark_mode: Some("false".to_string()),
        onboarding_complete: Some("true".to_string()),
    };
    let w = window_settings(saved, "/home/me/Downloads".to_string());
    assert_eq!(w.download_dir, "/data");
    assert_eq!(w.max_concurrent, 5);
    assert_eq!(w.connections, 4);
    assert_eq!(w.speed_limit, "2MB");
    assert_eq!(w.user_agent, "curl/8");
    assert!(!w.dark_mode);
    assert!(!w.show_onboarding);
}

#[test]
fn count_setting_input_raises_zero() {
    assert_eq!(count_setting_input("0"), Some(1));
    assert_eq!(count_setting_input("7"), Some(7));
    assert_eq!(count_setting_input("+2"), Some(2));
    assert_eq!(count_setting_input("-2"), None);
    assert_eq!(count_setting_input(""), None);
}

#[test]
fn nonblank_input_trims() {
    assert_eq!(nonblank_input("  https://x.test/a  "), Some("https://x.test/a".to_string()));
    assert_eq!(nonblank_input(" \t\n"), None);
    assert_eq!(nonblank_input(""), None);
}

#[test]
fn pasteable_urls() {
    assert!(is_pasteable_url("https://example.com/file"));
    assert!(is_pasteable_url("http://example.com"));
    assert!(!is_pasteable_url("ftp://example.com"));
    assert!(!is_pasteable_url(" https://example.com"));
}

#[test]
fn resume_pending_keeps_recorded_output() {
    let p = resume_pending("https://x.test/a".to_string(), "/d/a.bin".to_string());
    assert_eq!(p.url, "https://x.test/a");
    assert_eq!(p.output, Some("/d/a.bin".to_string()));
    let q = resume_pending("https://x.test/b".to_string(), String::new());
    assert_eq!(q.output, None);
}

fn pending(url: &str) -> PendingDownload {
    PendingDownload { url: url.to_string(), output: None }
}

#[test]
fn queue_starts_oldest_first_within_the_limit() {
    let mut q = PendingQueue::new();
    q.push(pending("a"));
    q.push(pending("b"));
    q.push(pending("c"));
    assert_eq!(q.len(), 3);
    assert!(q.next_to_start(2, 2).is_none());
    assert_eq!(q.len(), 3);
    assert_eq!(q.next_to_start(0, 2).map(|p| p.url), Some("a".to_string()));
    assert_eq!(q.next_to_start(1, 2).map(|p| p.url), Some("b".to_string()));
    assert_eq!(q.next_to_start(1, 2).map(|p| p.url), Some("c".to_string()));
    assert!(q.next_to_start(0, 2).is_none());
    assert_eq!(q.len(), 0);
}

#[test]
fn running_count_skips_stopped() {
    let stops = vec![None, Some(StopReason::Pause), None, Some(StopReason::Cancel)];
    assert_eq!(running_count(&stops), 2);
    assert_eq!(running_count(&Vec::new()), 0);
}

#[test]
fn window_request_from_fields() {
    let r = window_request(pending("https://x.test/f"), "/dl".to_string(), 6, "2MB", "");
    assert_eq!(r.url, "https://x.test/f");
    assert_eq!(r.output, None);
    assert_eq!(r.output_dir, Some("/dl".to_string()));
    assert_eq!(r.connections, 6);
    assert_eq!(r.limit, Some(2_000_000));
    assert_eq!(r.user_agent, None);
    assert!(!r.experimental_entropy);

    let r = window_request(pending("https://x.test/g"), "/dl".to_string(), 4, "lots", "ua/1");
    assert_eq!(r.limit, None);
    assert_eq!(r.user_agent, Some("ua/1".to_string()));

    let r = window_request(pending("https://x.test/h"), "/dl".to_string(), 4, "", "ua/1");
    assert_eq!(r.limit, None);
}

#[test]
fn window_failure_by_stop_reason() {
    assert_eq!(window_failure(Some(StopReason::Pause), "interrupted"), WindowFailure::KeepPaused);
    assert_eq!(window_failure(Some(StopReason::Cancel), "cancelled"), WindowFailure::RemoveOutput);
    assert_eq!(window_failure(None, "interrupted"), WindowFailure::Ignore);
    assert_eq!(window_failure(None, "http error: 404"), WindowFailure::MarkFailed);
}

#[test]
fn status_line_counts() {
    assert_eq!(status_line(2, 15), "Active: 2 | Queued: 15");
    assert_eq!(status_line(0, 0), "Active: 0 | Queued: 0");
}
