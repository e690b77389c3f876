use ytdl_utils::{
    get_quality_label, is_supported_quality, parse_quality, replace_reserved_chars,
    sanitize_filename, trim_white_space,
};

#[test]
fn sanitize_scenarios() {
    assert_eq!(sanitize_filename("a/b:c*d"), "a_b_c_d");
    assert_eq!(sanitize_filename("  x  "), "x");
}

#[test]
fn sanitize_every_reserved_character() {
    assert_eq!(sanitize_filename("/\\:*?\"<>|"), "_________");
    assert_eq!(sanitize_filename(""), "");
    assert_eq!(sanitize_filename(" \t\n "), "");
    assert_eq!(sanitize_filename(" a b "), "a b");
}

#[test]
fn sanitize_twice_equals_once() {
    for name in ["a/b:c*d", "  x  ", " <a> ", "\u{a0}y?\u{a0}", "plain"] {
        let once = sanitize_filename(name);
        assert_eq!(sanitize_filename(&once), once);
    }
}

#[test]
fn replace_keeps_white_space() {
    assert_eq!(replace_reserved_chars(" a|b "), " a_b ");
}

#[test]
fn trim_drops_unicode_white_space() {
    assert_eq!(trim_white_space("\u{3000} a \u{2003}"), "a");
    assert_eq!(trim_white_space("a"), "a");
}

#[test]
fn parse_quality_scenarios() {
    assert_eq!(parse_quality("1920x1080"), Some(1080));
    assert_eq!(parse_quality("720"), Some(720));
    assert_eq!(parse_quality("abc"), None);
}

#[test]
fn parse_quality_edges() {
    assert_eq!(parse_quality(""), None);
    assert_eq!(parse_quality("+480"), Some(480));
    assert_eq!(parse_quality("x"), None);
    assert_eq!(parse_quality("4294967295"), Some(4294967295));
    assert_eq!(parse_quality("4294967296"), None);
    assert_eq!(parse_quality("1920x"), None);
    assert_eq!(parse_quality("axb"), None);
    assert_eq!(parse_quality("2x3x4"), None);
    assert_eq!(parse_quality("-5"), None);
}

#[test]
fn quality_label_scenarios() {
    assert_eq!(get_quality_label(720), "720p HD");
    assert_eq!(get_quality_label(999), "999p");
}

#[test]
fn quality_label_table() {
    assert_eq!(get_quality_label(144), "144p");
    assert_eq!(get_quality_label(240), "240p");
    assert_eq!(get_quality_label(360), "360p");
    assert_eq!(get_quality_label(480), "480p SD");
    assert_eq!(get_quality_label(1080), "1080p Full HD");
    assert_eq!(get_quality_label(1440), "1440p QHD");
    assert_eq!(get_quality_label(2160), "2160p 4K UHD");
    assert_eq!(get_quality_label(4320), "4320p 8K UHD");
    assert_eq!(get_quality_label(0), "0p");
}

#[test]
fn supported_quality_is_a_prefix_test() {
    assert!(is_supported_quality("1920x1080"));
    assert!(is_supported_quality("1920x9999"));
    assert!(is_supported_quality("19"));
    assert!(is_supported_quality(""));
    assert!(!is_supported_quality("1921x1080"));
    assert!(!is_supported_quality("720"));
}
