//! Quality selection, single-item detection and playlist expansion.

use download_core::download::{engine_args, resolve_format, DownloadManager};

#[test]
fn engine_args_wire_in_what_is_present() {
    let args = engine_args(
        "https://www.youtube.com/watch?v=abc",
        "720p",
        "/dl/%(title)s.%(ext)s",
        "/dl/.t1",
        Some("/tools/ffmpeg.exe".to_string()),
        true,
        "/data/cookies.txt",
        true,
    );
    let expected: Vec<String> = [
        "-f",
        "bestvideo[height<=720][ext=mp4]+bestaudio[ext=m4a]/best[height<=720]",
        "--newline",
        "--no-warnings",
        "--progress",
        "-o",
        "/dl/%(title)s.%(ext)s",
        "--write-info-json",
        "--output",
        "infojson:/dl/.t1",
        "--ffmpeg-location",
        "/tools/ffmpeg.exe",
        "--cookies",
        "/data/cookies.txt",
        "--no-playlist",
        "--downloader",
        "http,https:aria2c",
        "--downloader-args",
        "aria2c:-x 16 -s 16 --file-allocation=none --summary-interval=1",
        "https://www.youtube.com/watch?v=abc",
    ]
    .iter()
    .map(|s| s.to_string())
    .collect();
    assert_eq!(args, expected);
}

#[test]
fn engine_args_leave_out_what_is_absent() {
    let args = engine_args(
        "https://www.youtube.com/playlist?list=PL1",
        "audio",
        "/dl/%(title)s.%(ext)s",
        "/dl/.t2",
        None,
        false,
        "/data/cookies.txt",
        false,
    );
    let expected: Vec<String> = [
        "-f",
        "bestaudio[ext=m4a]/bestaudio",
        "--newline",
        "--no-warnings",
        "--progress",
        "-o",
        "/dl/%(title)s.%(ext)s",
        "--write-info-json",
        "--output",
        "infojson:/dl/.t2",
        "https://www.youtube.com/playlist?list=PL1",
    ]
    .iter()
    .map(|s| s.to_string())
    .collect();
    assert_eq!(args, expected);
}

#[test]
fn named_tiers_bound_the_height() {
    assert_eq!(
        resolve_format("720p"),
        "bestvideo[height<=720][ext=mp4]+bestaudio[ext=m4a]/best[height<=720]"
    );
    assert_eq!(
        resolve_format("2160p"),
        "bestvideo[height<=2160][ext=mp4]+bestaudio[ext=m4a]/best[height<=2160]"
    );
    assert_eq!(resolve_format("2160p"), resolve_format("4K"));
    assert_eq!(resolve_format("1440p"), resolve_format("2K"));
    assert_eq!(
        resolve_format("best"),
        "bestvideo[ext=mp4]+bestaudio[ext=m4a]/best[ext=mp4]/best"
    );
    assert_eq!(resolve_format("audio"), "bestaudio[ext=m4a]/bestaudio");
}

#[test]
fn unrecognized_selector_falls_back_to_1080p() {
    assert_eq!(resolve_format("garbage"), resolve_format("1080p"));
    assert_eq!(
        resolve_format("garbage"),
        "bestvideo[height<=1080][ext=mp4]+bestaudio[ext=m4a]/best[height<=1080]"
    );
}

#[test]
fn urls_with_an_item_marker_are_single_items() {
    assert!(DownloadManager::should_use_no_playlist(
        "https://www.youtube.com/watch?v=jNQXAC9IVRw"
    ));
    assert!(DownloadManager::should_use_no_playlist(
        "https://youtu.be/jNQXAC9IVRw"
    ));
}

#[test]
fn bare_playlist_urls_are_not_single_items() {
    assert!(!DownloadManager::should_use_no_playlist(
        "https://www.youtube.com/playlist?list=PL0123"
    ));
}

#[test]
fn expansion_keeps_good_records_in_order() {
    let output = "{\"id\":\"abc\"}\nthis line is not a record\n{\"url\":\"https://example.com/x\"}";
    let urls = DownloadManager::expand_playlist(output);
    assert_eq!(
        urls,
        vec![
            "https://www.youtube.com/watch?v=abc".to_string(),
            "https://example.com/x".to_string(),
        ]
    );
}

#[test]
fn expansion_prefers_the_item_id() {
    let output = "{\"id\":\"abc\",\"url\":\"https://example.com/other\"}";
    let urls = DownloadManager::expand_playlist(output);
    assert_eq!(urls, vec!["https://www.youtube.com/watch?v=abc".to_string()]);
}

#[test]
fn expansion_skips_fieldless_records() {
    let output = "{\"title\":\"no id or url\"}\n{\"id\":\"z9\"}";
    let urls = DownloadManager::expand_playlist(output);
    assert_eq!(urls, vec!["https://www.youtube.com/watch?v=z9".to_string()]);
}

#[test]
fn expansion_of_empty_output_is_empty() {
    let urls = DownloadManager::expand_playlist("");
    assert!(urls.is_empty());
}
