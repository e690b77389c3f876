//! Text helpers for a video downloader front end: recognising video URLs and
//! their identifiers, rendering sizes and durations, cleaning file names, and
//! reading and labelling video qualities.

pub mod filename;
pub mod format;
pub mod quality;
pub mod search;
pub mod text;
pub mod url;

pub use filename::{replace_reserved_chars, sanitize_filename, trim_white_space};
pub use format::{format_duration, format_file_size, generate_download_id, greet};
pub use quality::{get_quality_label, is_supported_quality, parse_quality};
pub use url::{extract_video_id, mentions_video_host, validate_youtube_url};
