//! Presentation of the login state and verdicts on the stored cookies.

use download_core::auth::{cookie_validation_verdict, has_auth_cookie, overlay_login_status};
use download_core::models::LoginStatus;

fn logged_out() -> LoginStatus {
    LoginStatus {
        logged_in: false,
        login_time: None,
        cookies_valid: false,
        auth_method: "browser".to_string(),
        avatar_url: None,
    }
}

#[test]
fn auth_cookie_detection_needs_a_session_name() {
    let names = vec!["VISITOR_INFO".to_string(), "SAPISID".to_string()];
    assert!(has_auth_cookie(&names));
    let names = vec!["VISITOR_INFO".to_string(), "PREF".to_string()];
    assert!(!has_auth_cookie(&names));
    assert!(!has_auth_cookie(&Vec::new()));
}

#[test]
fn settings_avatar_overrides_the_stored_one() {
    let mut status = logged_out();
    status.logged_in = true;
    status.avatar_url = Some("local".to_string());
    let shown = overlay_login_status(status, Some("remote".to_string()), false);
    assert_eq!(shown.avatar_url.as_deref(), Some("remote"));
    assert!(shown.logged_in);
}

#[test]
fn remembered_avatar_with_cookies_revives_the_login() {
    let shown = overlay_login_status(logged_out(), Some("remote".to_string()), true);
    assert!(shown.logged_in);
    assert!(shown.cookies_valid);
    // without the cookie file the login stays off
    let shown = overlay_login_status(logged_out(), Some("remote".to_string()), false);
    assert!(!shown.logged_in);
    // without a remembered avatar nothing is revived
    let shown = overlay_login_status(logged_out(), None, true);
    assert!(!shown.logged_in);
}

#[test]
fn missing_cookie_file_is_reported_without_deletion() {
    let v = cookie_validation_verdict(false, None, None, false);
    assert_eq!(v.status, "missing");
    assert!(!v.deleted);
    assert_eq!(v.message, "No cookies file found. Downloading in anonymous mode.");
}

#[test]
fn incomplete_cookies_carry_the_reason() {
    let v = cookie_validation_verdict(
        true,
        Some("missing authentication cookies".to_string()),
        Some(true),
        true,
    );
    assert_eq!(v.status, "incomplete");
    assert!(v.deleted);
    assert_eq!(
        v.message,
        "Cookies invalid: missing authentication cookies. File deleted."
    );
}

#[test]
fn valid_cookies_are_kept() {
    let v = cookie_validation_verdict(true, None, Some(true), false);
    assert_eq!(v.status, "valid");
    assert!(!v.deleted);
    assert_eq!(v.message, "Using logged-in cookies for download.");
}

#[test]
fn expired_cookies_are_deleted() {
    let v = cookie_validation_verdict(true, None, Some(false), true);
    assert_eq!(v.status, "expired");
    assert!(v.deleted);
    assert_eq!(v.message, "Cookies expired. File deleted. Please log in again.");
}

#[test]
fn unreadable_cookies_are_an_error() {
    let v = cookie_validation_verdict(true, None, None, false);
    assert_eq!(v.status, "error");
    assert!(!v.deleted);
    assert_eq!(v.message, "Cookies file corrupted. File deleted.");
}
