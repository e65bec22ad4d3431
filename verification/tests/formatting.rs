use arkama::format::{
    active_label, average_speed, empty_as_unset, format_bytes, format_duration, format_speed,
    history_progress_text, progress_text, should_persist_progress, truncate_path, truncate_url,
};
use arkama::Elapsed;

#[test]
fn test_format_duration_uses_compact_human_units() {
    assert_eq!(format_duration(Elapsed::from_millis(850)), "850ms");
    assert_eq!(format_duration(Elapsed::from_secs(65)), "1m 5s");
    assert_eq!(format_duration(Elapsed::from_secs(7_381)), "2h 3m");
}

#[test]
fn test_format_speed_humanizes_bytes_per_second() {
    assert_eq!(format_speed(1_536), "1.5 KB/s");
}

#[test]
fn durations_show_two_largest_parts() {
    assert_eq!(format_duration(Elapsed::from_millis(0)), "0s");
    assert_eq!(format_duration(Elapsed::from_secs(86_400 + 5)), "1d 5s");
    assert_eq!(format_duration(Elapsed::from_secs(86_400 * 3 + 3_600 * 4 + 60)), "3d 4h");
    assert_eq!(format_duration(Elapsed::from_secs(59)), "59s");
    assert_eq!(format_duration(Elapsed::new(3, 999_999_999)), "3s");
}

fn float_reference(bytes: i64) -> String {
    let mut value = bytes as f64;
    let units = ["B", "KB", "MB", "GB", "TB"];
    let mut unit_index = 0usize;
    while value >= 1024.0 && unit_index + 1 < units.len() {
        value /= 1024.0;
        unit_index += 1;
    }
    format!("{value:.1} {}", units[unit_index])
}

#[test]
fn byte_counts_match_float_formatting() {
    let mut samples: Vec<i64> = vec![
        0, 1, 5, 1023, 1024, 1025, 1075, 1126, 1536, 1_048_575, 1_048_576, 10_485_760,
        1_099_511_627_776, 1_125_899_906_842_624, -1, -1024, -1536, i64::MAX, i64::MIN,
        (1i64 << 53) + 1, (1i64 << 53) + 3, (1i64 << 60) + 12345, 52_480, 53_504, 100_352,
    ];
    let mut x: u64 = 0x9E37_79B9_7F4A_7C15;
    for _ in 0..20_000 {
        x ^= x << 13;
        x ^= x >> 7;
        x ^= x << 17;
        let shift = (x % 64) as u32;
        samples.push((x >> shift) as i64);
        samples.push(((x >> 20) % 5_000_000) as i64 * 205);
    }
    for b in samples {
        assert_eq!(format_bytes(b), float_reference(b), "bytes = {b}");
    }
}

#[test]
fn progress_texts() {
    assert_eq!(progress_text(1_048_576, Some(4_194_304)), "1.0 MB/4.0 MB");
    assert_eq!(progress_text(512, None), "512.0 B");
    assert_eq!(history_progress_text(2048, Some(4096)), "2.0 KB/4.0 KB");
    assert_eq!(history_progress_text(-5, None), "-5.0 B");
}

#[test]
fn labels_and_truncation() {
    assert_eq!(active_label(""), "Downloading");
    assert_eq!(active_label("/tmp/a.bin"), "Downloading: /tmp/a.bin");
    assert_eq!(truncate_url("https://example.com/file", 10), "https://e…");
    assert_eq!(truncate_url("short", 10), "short");
    assert_eq!(truncate_path("/home/user/file.bin", 9), "…file.bin");
    assert_eq!(truncate_path("a.bin", 9), "a.bin");
    assert_eq!(empty_as_unset(""), "(not resolved yet)");
    assert_eq!(empty_as_unset("x"), "x");
}

#[test]
fn progress_is_persisted_by_time_or_volume() {
    assert!(should_persist_progress(Elapsed::from_millis(500), 0, 0));
    assert!(!should_persist_progress(Elapsed::from_millis(499), 0, 512 * 1024 - 1));
    assert!(should_persist_progress(Elapsed::from_millis(10), 0, 512 * 1024));
    assert!(!should_persist_progress(Elapsed::from_millis(10), 100, 50));
}

#[test]
fn average_speed_per_second() {
    assert_eq!(average_speed(1000, Elapsed::from_millis(500)), 2000);
    assert_eq!(average_speed(1000, Elapsed::new(0, 999_999)), 0);
    assert_eq!(average_speed(u64::MAX, Elapsed::from_millis(1000)), u64::MAX / 1000);
    assert_eq!(average_speed(3000, Elapsed::from_secs(3)), 1000);
}
