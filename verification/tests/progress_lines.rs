//! The progress-protocol parser on concrete engine output lines.

use download_core::progress::{line_eta, line_percent, line_signals_already, line_speed};

#[test]
fn percent_of_ordinary_progress_line() {
    let line = "[download]  45.2% of 100MiB at 5.23MiB/s ETA 00:10";
    assert_eq!(line_percent(line), Some(45));
}

#[test]
fn percent_of_completion_line() {
    let line = "[download] 100% of   31.76MiB in 00:00:01 at 19.91MiB/s";
    assert_eq!(line_percent(line), Some(100));
}

#[test]
fn percent_requires_the_download_tag() {
    assert_eq!(line_percent("progress 45.2% reached"), None);
}

#[test]
fn percent_requires_a_readable_number() {
    assert_eq!(line_percent("[download] 1.2.3% of x"), None);
    assert_eq!(line_percent("[download] .% of x"), None);
}

#[test]
fn percent_with_bare_fraction_floors_to_zero() {
    assert_eq!(line_percent("[download] .5% of x"), Some(0));
}

#[test]
fn percent_above_hundred_is_clamped() {
    assert_eq!(line_percent("[download] 250.0% of x"), Some(100));
}

#[test]
fn percent_skips_tag_without_figure() {
    // the first tag has no percentage; a later one does
    let line = "[download] Destination: x [download] 7% done";
    assert_eq!(line_percent(line), Some(7));
}

#[test]
fn speed_of_ordinary_progress_line() {
    let line = "[download]  45.2% of 100MiB at 5.23MiB/s ETA 00:10";
    assert_eq!(line_speed(line).as_deref(), Some("5.23MiB/s"));
}

#[test]
fn speed_with_unitless_rate() {
    assert_eq!(line_speed("at 12/s").as_deref(), Some("12/s"));
}

#[test]
fn speed_absent_without_rate() {
    assert_eq!(line_speed("no rate here"), None);
    assert_eq!(line_speed("at  something"), None);
}

#[test]
fn eta_of_ordinary_progress_line() {
    let line = "[download]  45.2% of 100MiB at 5.23MiB/s ETA 00:10";
    assert_eq!(line_eta(line).as_deref(), Some("00:10"));
}

#[test]
fn eta_absent_without_figure() {
    assert_eq!(line_eta("ETA"), None);
    assert_eq!(line_eta("ETA   "), None);
}

#[test]
fn already_downloaded_is_detected() {
    assert!(line_signals_already(
        "[download] /tmp/x.mp4 has already been downloaded"
    ));
    assert!(line_signals_already("file was already downloaded"));
    assert!(line_signals_already("this item has already been recorded"));
}

#[test]
fn already_detection_ignores_case_and_spacing() {
    assert!(line_signals_already("Already  Been  Downloaded"));
    assert!(line_signals_already("HAS ALREADY BEEN RECORDED"));
}

#[test]
fn already_requires_the_phrase() {
    assert!(!line_signals_already("already done"));
    assert!(!line_signals_already("downloaded already"));
    assert!(!line_signals_already("[download]  45.2% of 100MiB"));
}
