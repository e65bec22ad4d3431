use arkama::cli::{build_requests, parse_rate, read_links, resolve_connections, resolve_speed_limit, DownloadArgs, OutputMode, RequestError};
use arkama::daemon::{
    enqueue_result, failure_disposition, max_concurrent_setting, status_result, stop_result, ActiveProgress,
    DaemonResponse, FailureDisposition, Scheduler,
};
use arkama::cli::DaemonStatus;
use arkama::records::{daemon_addr_path, daemon_log_path, db_path, now_ts, queued_output_path, status_color, StatusColor};
use arkama::{DownloadRequest, Elapsed, Error, DEFAULT_CONNECTIONS};

#[test]
fn test_resolve_connections_uses_config_when_flag_missing() {
    let connections = resolve_connections(None, Some("8".to_string())).unwrap();
    assert_eq!(connections, 8);
}

#[test]
fn test_resolve_connections_prefers_flag_over_config() {
    let connections = resolve_connections(Some(6), Some("8".to_string())).unwrap();
    assert_eq!(connections, 6);
}

#[test]
fn test_resolve_speed_limit_uses_config_when_flag_missing() {
    let limit = resolve_speed_limit(None, Some("2MB".to_string())).unwrap();
    assert_eq!(limit, Some(2_000_000));
}

#[test]
fn test_resolve_speed_limit_prefers_flag_over_config() {
    let limit = resolve_speed_limit(Some(512_000), Some("2MB".to_string())).unwrap();
    assert_eq!(limit, Some(512_000));
}

#[test]
fn settings_errors_and_defaults() {
    assert_eq!(resolve_connections(None, None).unwrap(), 4);
    assert_eq!(resolve_connections(None, Some("x".to_string())).unwrap_err(), "invalid connections setting: x");
    assert_eq!(resolve_speed_limit(None, Some(String::new())).unwrap(), None);
    assert_eq!(resolve_speed_limit(None, None).unwrap(), None);
    assert_eq!(resolve_speed_limit(None, Some("500KB".to_string())).unwrap(), Some(500_000));
    assert_eq!(
        resolve_speed_limit(None, Some("fast".to_string())).unwrap_err(),
        "invalid speed_limit setting: fast: Parse Error. Invalid byte format."
    );
}

fn args() -> DownloadArgs {
    DownloadArgs {
        url: None,
        links_file: None,
        output: None,
        connections: None,
        user_agent: Some("ua".to_string()),
        limit: None,
        experimental_entropy: false,
        daemon: false,
        silent: false,
        json: false,
        yes: false,
    }
}

#[test]
fn output_modes() {
    let mut a = args();
    assert_eq!(OutputMode::from_args(&a), OutputMode::Default);
    a.silent = true;
    assert_eq!(OutputMode::from_args(&a), OutputMode::Silent);
    a.json = true;
    assert_eq!(OutputMode::from_args(&a), OutputMode::Json);
}

#[test]
fn requests_from_arguments() {
    assert_eq!(build_requests(args(), "/d".to_string(), 4, None, None).unwrap_err(), RequestError::MissingUrl);
    let mut one = args();
    one.url = Some("https://e.com/a".to_string());
    let r = build_requests(one, "/d".to_string(), 3, Some(9), None).unwrap();
    assert_eq!(r.len(), 1);
    assert_eq!(r[0].url, "https://e.com/a");
    assert_eq!(r[0].output_dir.as_deref(), Some("/d"));
    assert_eq!((r[0].connections, r[0].limit), (3, Some(9)));
    let mut listed = args();
    listed.links_file = Some("links.txt".to_string());
    let links = read_links("  https://e.com/1 \r\n\n\thttps://e.com/2\n   \n");
    assert_eq!(links, vec!["https://e.com/1".to_string(), "https://e.com/2".to_string()]);
    let r = build_requests(listed.clone(), "/d".to_string(), 2, None, Some(links)).unwrap();
    assert_eq!(r.len(), 2);
    assert_eq!(r[1].url, "https://e.com/2");
    assert_eq!(r[1].user_agent.as_deref(), Some("ua"));
    assert_eq!(build_requests(listed.clone(), "/d".to_string(), 2, None, Some(vec![])).unwrap_err(), RequestError::NoLinks);
    let mut both = listed;
    both.output = Some("x".to_string());
    assert_eq!(build_requests(both, "/d".to_string(), 2, None, None).unwrap_err(), RequestError::OutputWithLinksFile);
}

#[test]
fn daemon_rules() {
    assert_eq!(max_concurrent_setting(None), 3);
    assert_eq!(max_concurrent_setting(Some("0".to_string())), 1);
    assert_eq!(max_concurrent_setting(Some("7".to_string())), 7);
    assert_eq!(max_concurrent_setting(Some("many".to_string())), 3);
    let mut s = Scheduler::new(2);
    assert!(s.accepts_jobs());
    assert!(s.can_start_more(1));
    assert!(!s.can_start_more(2));
    assert!(!s.is_done(0));
    assert!(s.begin_shutdown());
    assert!(!s.begin_shutdown());
    assert!(!s.accepts_jobs());
    assert!(!s.can_start_more(0));
    assert!(s.is_done(0));
    assert!(!s.is_done(1));
    assert_eq!(failure_disposition(&Error::Paused.message()), FailureDisposition::Requeue);
    assert_eq!(failure_disposition(&Error::Cancelled.message()), FailureDisposition::MarkFailed);
    assert_eq!(failure_disposition("boom"), FailureDisposition::MarkFailed);
    let mut p = ActiveProgress::new();
    p.on_started(10);
    assert_eq!(p.downloaded_bytes, 10);
    assert!(!p.on_progress(100, Elapsed::from_millis(10)));
    assert!(p.on_progress(600 * 1024, Elapsed::from_millis(10)));
    assert_eq!(p.last_db_bytes, 600 * 1024);
    assert!(p.on_progress(600 * 1024 + 1, Elapsed::from_millis(700)));
}

#[test]
fn daemon_answers() {
    assert_eq!(enqueue_result(DaemonResponse::Enqueued { id: 4 }), Ok(4));
    assert_eq!(enqueue_result(DaemonResponse::Enqueued { id: -1 }), Err("daemon is stopping".to_string()));
    assert_eq!(enqueue_result(DaemonResponse::ShuttingDown), Err("daemon is shutting down".to_string()));
    assert_eq!(enqueue_result(DaemonResponse::Error { message: "m".to_string() }), Err("m".to_string()));
    let status = DaemonStatus { pid: 1, active: 2, queued: 3 };
    assert_eq!(status_result(DaemonResponse::Pong(status)), Ok(status));
    assert_eq!(status_result(DaemonResponse::Enqueued { id: 1 }), Err("unexpected daemon response".to_string()));
    assert_eq!(stop_result(DaemonResponse::ShuttingDown), Ok(()));
    assert_eq!(stop_result(DaemonResponse::Pong(status)), Err("unexpected daemon response".to_string()));
}

#[test]
fn records_and_paths() {
    let request = DownloadRequest::new("https://e.com/a".to_string());
    assert_eq!(queued_output_path(&request), "");
    let request = request.output("/tmp/a".to_string());
    assert_eq!(queued_output_path(&request), "/tmp/a");
    assert_eq!(now_ts(None), 0);
    assert_eq!(now_ts(Some(Elapsed::from_secs(1_700_000_000))), 1_700_000_000);
    assert_eq!(db_path("/data"), "/data/arkama.sqlite");
    assert_eq!(daemon_addr_path("/data/"), "/data/daemon.addr");
    assert_eq!(daemon_log_path("/data"), "/data/daemon.log");
    assert_eq!(status_color("failed: boom"), StatusColor::Red);
    assert_eq!(status_color("finished"), StatusColor::Green);
    assert_eq!(status_color("queued"), StatusColor::Cyan);
    assert_eq!(status_color("running"), StatusColor::Blue);
    assert_eq!(status_color("paused"), StatusColor::Yellow);
    assert_eq!(status_color("cancelled"), StatusColor::DarkYellow);
    assert_eq!(status_color("other"), StatusColor::White);
}

#[test]
fn requests_and_builder_agree() {
    let direct = DownloadRequest::new("https://e.com/f".to_string())
        .output("./f".to_string())
        .connections(8)
        .speed_limit(2_000_000)
        .user_agent("ua".to_string())
        .experimental_entropy(true);
    let built = DownloadRequest::builder("https://e.com/f".to_string())
        .output("./f".to_string())
        .connections(8)
        .speed_limit(2_000_000)
        .user_agent("ua".to_string())
        .experimental_entropy(true)
        .build();
    assert_eq!(format!("{direct:?}"), format!("{built:?}"));
    assert_eq!(built.connections, 8);
    assert_eq!(built.output_path(), Some("./f"));
    assert_eq!(built.output_directory(), None);
    assert_eq!(built.speed_limit_bytes_per_second(), Some(2_000_000));
    let defaults = DownloadRequest::new("u".to_string());
    assert_eq!(defaults.connections, DEFAULT_CONNECTIONS);
    assert_eq!(DEFAULT_CONNECTIONS, 4);
    assert_eq!(defaults.optional_speed_limit(Some(5)).limit, Some(5));
    assert!(Error::Paused.is_paused());
    assert!(!Error::Paused.is_cancelled());
    assert!(Error::Cancelled.is_cancelled());
    assert_eq!(Error::Paused.message(), "interrupted");
    assert_eq!(Error::download_failed("x".to_string()).message(), "x");
    assert!(matches!(Error::runtime_unavailable("r".to_string()), Error::RuntimeUnavailable { .. }));
}

#[test]
fn parse_rate_reads_decimal_units() {
    assert_eq!(parse_rate("2MB"), Ok(2_000_000));
    assert_eq!(parse_rate("500KB"), Ok(500_000));
}

#[test]
fn parse_rate_rejects_garbage() {
    assert_eq!(parse_rate("fast"), Err("invalid byte size".to_string()));
}

#[test]
fn byte_sizes_with_non_ascii_digits_are_rejected() {
    // Full-width digits: bytefmt's pattern would take them as digits.
    assert_eq!(parse_rate("\u{ff12}MB"), Err("invalid byte size".to_string()));
    assert_eq!(
        resolve_speed_limit(None, Some("\u{ff12}MB".to_string())),
        Err("invalid speed_limit setting: \u{ff12}MB: Parse Error. Invalid byte format.".to_string())
    );
}

#[test]
fn byte_sizes_without_foreign_digits_go_to_bytefmt() {
    // A non-breaking space is not a digit: bytefmt itself rejects the text.
    assert_eq!(parse_rate("2\u{a0}MB"), Err("invalid byte size".to_string()));
    // The Kelvin sign folds to `k` in bytefmt's case-insensitive pattern.
    assert!(parse_rate("1\u{212a}B").is_ok());
}
