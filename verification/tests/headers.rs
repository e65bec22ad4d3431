use arkama::http::{
    filename_from_headers, header_string, meta_from_head, merge_range_probe, needs_range_probe,
    range_header, total_from_content_range, ProbeResponse, ResponseHeaders,
};

fn disposition(value: &str) -> ResponseHeaders {
    ResponseHeaders { content_disposition: Some(value.to_string()), ..ResponseHeaders::default() }
}

fn content_range(value: &str) -> ResponseHeaders {
    ResponseHeaders { content_range: Some(value.to_string()), ..ResponseHeaders::default() }
}

#[test]
fn test_filename_from_headers_quoted() {
    let headers = disposition("attachment; filename=\"file.bin\"");
    assert_eq!(filename_from_headers(&headers), Some("file.bin".to_string()));
}

#[test]
fn test_filename_from_headers_unquoted() {
    let headers = disposition("inline; filename=report.pdf");
    assert_eq!(filename_from_headers(&headers), Some("report.pdf".to_string()));
}

#[test]
fn test_filename_from_headers_missing() {
    let headers = ResponseHeaders::default();
    assert_eq!(filename_from_headers(&headers), None);
}

#[test]
fn test_filename_from_headers_empty_filename() {
    let headers = disposition("attachment; filename=");
    assert_eq!(filename_from_headers(&headers), None);
}

#[test]
fn test_total_from_content_range_parses_total() {
    assert_eq!(total_from_content_range(&content_range("bytes 0-0/1234")), Some(1234));
}

#[test]
fn test_total_from_content_range_missing_total() {
    assert_eq!(total_from_content_range(&content_range("bytes */1234")), Some(1234));
}

#[test]
fn test_total_from_content_range_unknown_total() {
    assert_eq!(total_from_content_range(&content_range("bytes 0-0/*")), None);
}

#[test]
fn filename_parameter_details() {
    assert_eq!(filename_from_headers(&disposition("attachment; FileName=a.txt")), Some("FileName=a.txt".to_string()));
    assert_eq!(filename_from_headers(&disposition("attachment;  filename=  ; filename=b.txt")), Some("b.txt".to_string()));
    assert_eq!(filename_from_headers(&disposition("filename=filename=c.txt")), Some("c.txt".to_string()));
    assert_eq!(filename_from_headers(&disposition("attachment; filename=\"\"")), None);
    assert_eq!(filename_from_headers(&disposition("attachment; filename=\"")), Some("\"".to_string()));
}

#[test]
fn content_range_edge_cases() {
    assert_eq!(total_from_content_range(&content_range("1234")), Some(1234));
    assert_eq!(total_from_content_range(&content_range("bytes 0-0/+7")), Some(7));
    assert_eq!(total_from_content_range(&content_range("bytes 0-0/18446744073709551616")), None);
    assert_eq!(total_from_content_range(&content_range("bytes 0-0/18446744073709551615")), Some(u64::MAX));
    assert_eq!(total_from_content_range(&content_range("bytes 0-0/ 12")), None);
}

#[test]
fn header_values_are_trimmed() {
    assert_eq!(header_string(Some("  \"abc\"\t")), Some("\"abc\"".to_string()));
    assert_eq!(header_string(Some("   ")), None);
    assert_eq!(header_string(None), None);
}

fn response(status: u16, headers: ResponseHeaders) -> ProbeResponse {
    ProbeResponse { final_url: "https://cdn.example.com/file.bin".to_string(), status, headers }
}

#[test]
fn probing_combines_head_and_range_answers() {
    let head = response(
        200,
        ResponseHeaders {
            content_length: Some("1000".to_string()),
            accept_ranges: Some("Bytes".to_string()),
            etag: Some(" \"e1\" ".to_string()),
            content_type: Some("application/octet-stream".to_string()),
            ..ResponseHeaders::default()
        },
    );
    let meta = meta_from_head("https://example.com/file.bin", Some(&head));
    assert_eq!(meta.size, Some(1000));
    assert!(meta.accept_ranges);
    assert!(!needs_range_probe(&meta));
    assert_eq!(meta.etag, Some("\"e1\"".to_string()));
    assert_eq!(meta.final_url, "https://cdn.example.com/file.bin");

    let failed = meta_from_head("https://example.com/file.bin", None);
    assert!(needs_range_probe(&failed));
    assert_eq!(failed.final_url, "https://example.com/file.bin");
    let probe = response(
        206,
        ResponseHeaders {
            content_range: Some("bytes 0-0/4096".to_string()),
            content_length: Some("1".to_string()),
            content_disposition: Some("attachment; filename=x.iso".to_string()),
            ..ResponseHeaders::default()
        },
    );
    let merged = merge_range_probe(failed.clone(), Some(&probe));
    assert!(merged.accept_ranges);
    assert_eq!(merged.size, Some(4096));
    assert_eq!(merged.filename, Some("x.iso".to_string()));
    assert_eq!(merged.final_url, "https://cdn.example.com/file.bin");

    let no_range = merge_range_probe(failed.clone(), Some(&response(200, ResponseHeaders { content_length: Some("9".to_string()), ..ResponseHeaders::default() })));
    assert!(!no_range.accept_ranges);
    assert_eq!(no_range.size, Some(9));
    assert_eq!(merge_range_probe(failed.clone(), None), failed);
}

#[test]
fn range_header_values() {
    assert_eq!(range_header(0, Some(0)), "bytes=0-0");
    assert_eq!(range_header(100, Some(199)), "bytes=100-199");
    assert_eq!(range_header(512, None), "bytes=512-");
}
