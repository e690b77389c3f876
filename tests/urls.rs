use ytdl_utils::{extract_video_id, mentions_video_host, validate_youtube_url};

#[test]
fn validate_accepts_upper_case_host() {
    assert!(validate_youtube_url("https://YOUTUBE.com/x"));
}

#[test]
fn validate_rejects_other_host() {
    assert!(!validate_youtube_url("https://vimeo.com/x"));
}

#[test]
fn validate_accepts_short_host() {
    assert!(validate_youtube_url("HTTPS://YOUTU.BE/abc"));
    assert!(validate_youtube_url("youtu.be"));
}

#[test]
fn validate_empty_is_false() {
    assert!(!validate_youtube_url(""));
}

#[test]
fn mentions_host_is_case_sensitive() {
    assert!(mentions_video_host("https://youtube.com/x"));
    assert!(!mentions_video_host("https://YOUTUBE.com/x"));
    assert!(!mentions_video_host("https://youtube.co/x"));
}

#[test]
fn extract_short_link() {
    assert_eq!(
        extract_video_id("https://youtu.be/dQw4w9WgXcQ"),
        Some("dQw4w9WgXcQ".to_string())
    );
}

#[test]
fn extract_short_link_stops_at_delimiter() {
    assert_eq!(
        extract_video_id("https://youtu.be/dQw4w9WgXcQ?t=42"),
        Some("dQw4w9WgXcQ".to_string())
    );
    assert_eq!(
        extract_video_id("https://youtu.be/dQw4w9WgXcQ#x"),
        Some("dQw4w9WgXcQ".to_string())
    );
}

#[test]
fn extract_watch_link_uses_its_offset() {
    // offset 16 lands on "h?v=", which ends at the '?' after one byte
    assert_eq!(extract_video_id("https://www.youtube.com/watch?v=dQw4w9WgXcQ"), None);
}

#[test]
fn extract_embed_link_uses_its_offset() {
    assert_eq!(
        extract_video_id("https://www.youtube.com/embed/dQw4w9WgXcQ"),
        Some("d/dQw4w9WgXcQ".to_string())
    );
}

#[test]
fn extract_shorts_link_uses_its_offset() {
    assert_eq!(
        extract_video_id("https://youtube.com/shorts/abcdefgh"),
        Some("ts/abcdefgh".to_string())
    );
}

#[test]
fn extract_v_link_uses_its_offset() {
    assert_eq!(
        extract_video_id("https://youtube.com/v/abcdefgh"),
        Some("/abcdefgh".to_string())
    );
}

#[test]
fn extract_rejects_short_and_long_ids() {
    assert_eq!(extract_video_id("https://youtu.be/abcdefg"), None);
    assert_eq!(extract_video_id("https://youtu.be/abcdefgh"), Some("abcdefgh".to_string()));
    assert_eq!(
        extract_video_id("https://youtu.be/abcdefghijklmnopqrst"),
        Some("abcdefghijklmnopqrst".to_string())
    );
    assert_eq!(extract_video_id("https://youtu.be/abcdefghijklmnopqrstu"), None);
}

#[test]
fn extract_counts_bytes_not_characters() {
    // seven two-byte characters make fourteen bytes
    assert_eq!(
        extract_video_id("https://youtu.be/ééééééé"),
        Some("ééééééé".to_string())
    );
    // eleven two-byte characters make twenty-two bytes
    assert_eq!(extract_video_id("https://youtu.be/ééééééééééé"), None);
}

#[test]
fn extract_without_pattern_is_none() {
    assert_eq!(extract_video_id("https://vimeo.com/123456789"), None);
    assert_eq!(extract_video_id(""), None);
}

#[test]
fn extract_falls_through_to_later_pattern() {
    assert_eq!(
        extract_video_id("https://youtube.com/watch?v=x https://youtu.be/abcdefghij"),
        Some("abcdefghij".to_string())
    );
}
