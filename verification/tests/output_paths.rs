use arkama::http::HttpMeta;
use arkama::output::{determine_output, display_file_name, join_path, parse_url, progress_message, state_path};
use arkama::Error;

fn meta(filename: Option<&str>) -> HttpMeta {
    HttpMeta {
        size: None,
        accept_ranges: false,
        filename: filename.map(|s| s.to_string()),
        etag: None,
        last_modified: None,
        mime_type: None,
        final_url: String::new(),
    }
}

#[test]
fn test_determine_output_explicit_path() {
    let url = parse_url("https://example.com/file.bin").expect("url");
    let resolved = determine_output(&url, &meta(None), Some("output.bin".to_string()), None, false).expect("output");
    assert_eq!(resolved, "output.bin");
}

#[test]
fn test_determine_output_rejects_directory() {
    let url = parse_url("https://example.com/file.bin").expect("url");
    let result = determine_output(&url, &meta(None), Some("output-dir".to_string()), None, true);
    assert!(result.is_err());
}

#[test]
fn test_determine_output_uses_meta_filename() {
    let url = parse_url("https://example.com/file.bin").expect("url");
    let resolved = determine_output(&url, &meta(Some("meta.bin")), None, None, false).expect("output");
    assert_eq!(resolved, "meta.bin");
}

#[test]
fn test_determine_output_uses_url_path() {
    let url = parse_url("https://example.com/files/report.csv").expect("url");
    let resolved = determine_output(&url, &meta(None), None, None, false).expect("output");
    assert_eq!(resolved, "report.csv");
}

#[test]
fn test_determine_output_uses_output_dir() {
    let url = parse_url("https://example.com/files/report.csv").expect("url");
    let resolved = determine_output(&url, &meta(None), None, Some("/tmp".to_string()), false).expect("output");
    assert_eq!(resolved, "/tmp/report.csv");
}

#[test]
fn test_determine_output_falls_back_to_default() {
    let url = parse_url("https://example.com/files/").expect("url");
    let resolved = determine_output(&url, &meta(None), None, None, false).expect("output");
    assert_eq!(resolved, "download");
}

#[test]
fn urls_are_parsed_and_normalized() {
    let url = parse_url("HTTPS://Example.com/a/../b.bin").expect("url");
    assert_eq!(url.href, "https://example.com/b.bin");
    assert_eq!(url.path, "/b.bin");
    assert!(matches!(parse_url("not a url"), Err(Error::InvalidUrl { .. })));
}

#[test]
fn paths_join_like_pathbuf() {
    assert_eq!(join_path("/tmp", "a.bin"), "/tmp/a.bin");
    assert_eq!(join_path("/tmp/", "a.bin"), "/tmp/a.bin");
    assert_eq!(join_path("", "a.bin"), "a.bin");
    assert_eq!(join_path("/tmp", "/etc/x"), "/etc/x");
}

#[test]
fn resume_state_sits_next_to_output() {
    assert_eq!(state_path("dir/file.bin").unwrap(), "dir/file.bin.arkama.state");
    assert_eq!(state_path("file.bin").unwrap(), "file.bin.arkama.state");
    assert!(matches!(state_path("dir/.."), Err(Error::State { .. })));
    assert!(state_path("/").is_err());
}

#[test]
fn display_names() {
    assert_eq!(display_file_name("/tmp/x/report.csv"), "report.csv");
    assert_eq!(display_file_name("/"), "download");
    assert_eq!(progress_message("a/b.bin"), "file b.bin");
}
