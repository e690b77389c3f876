use ytdl_utils::{format_duration, format_file_size, generate_download_id, greet};

#[test]
fn file_size_scenarios() {
    assert_eq!(format_file_size(1024), "1.00 KB");
    assert_eq!(format_file_size(500), "500 bytes");
    assert_eq!(format_file_size(1073741824), "1.00 GB");
}

#[test]
fn file_size_edges() {
    assert_eq!(format_file_size(0), "0 bytes");
    assert_eq!(format_file_size(1023), "1023 bytes");
    assert_eq!(format_file_size(1048576), "1.00 MB");
    assert_eq!(format_file_size(1048575), "1024.00 KB");
    assert_eq!(format_file_size(1536), "1.50 KB");
    assert_eq!(format_file_size(5 * 1048576 + 262144), "5.25 MB");
}

#[test]
fn file_size_rounds_like_float_formatting() {
    for bytes in [1025u64, 1029, 1100, 2047, 123456, 987654321, 3000000000, 1u64 << 40] {
        let expected = if bytes >= 1 << 30 {
            format!("{:.2} GB", bytes as f64 / (1u64 << 30) as f64)
        } else if bytes >= 1 << 20 {
            format!("{:.2} MB", bytes as f64 / (1u64 << 20) as f64)
        } else {
            format!("{:.2} KB", bytes as f64 / 1024.0)
        };
        assert_eq!(format_file_size(bytes), expected);
    }
}

#[test]
fn file_size_largest() {
    assert_eq!(format_file_size(u64::MAX), "17179869184.00 GB");
}

#[test]
fn duration_scenarios() {
    assert_eq!(format_duration(3661), "01:01:01");
    assert_eq!(format_duration(61), "01:01");
}

#[test]
fn duration_edges() {
    assert_eq!(format_duration(0), "00:00");
    assert_eq!(format_duration(3599), "59:59");
    assert_eq!(format_duration(3600), "01:00:00");
    assert_eq!(format_duration(360000), "100:00:00");
}

#[test]
fn greeting_text() {
    assert_eq!(greet("Ann"), "Hello, Ann! YouTube Downloader Ready!");
}

#[test]
fn download_id_text() {
    assert_eq!(generate_download_id(1700000000123), "dl_1700000000123");
    assert_eq!(generate_download_id(0), "dl_0");
}
