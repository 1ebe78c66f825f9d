//! Tool status bookkeeping, login state, cookie rendering and the
//! string helpers they rest on.

use download_core::aria2::Aria2Manager;
use download_core::auth::{login_time_from_cookies, AuthManager};
use download_core::ffmpeg::FFmpegManager;
use download_core::models::AppSettings;
use download_core::settings::SettingsManager;
use download_core::strutil::{parse_u64, split_char, split_lines, trim_str, u64_to_string};
use download_core::version::version_from_output;
use download_core::ytdlp::YtDlpManager;

#[test]
fn banner_version_is_the_third_word() {
    assert_eq!(
        version_from_output("aria2 version 1.37.0\nmore text").as_deref(),
        Some("1.37.0")
    );
    assert_eq!(
        version_from_output("ffmpeg version 4.4.1-essentials_build Copyright").as_deref(),
        Some("4.4.1-essentials_build")
    );
    assert_eq!(version_from_output("something else").as_deref(), Some("Unknown"));
    assert_eq!(version_from_output(""), None);
}

#[test]
fn ytdlp_paths_live_under_tools() {
    let m = YtDlpManager::new("/data/app");
    assert_eq!(m.get_exe_path(), "/data/app/tools/yt-dlp.exe");
}

#[test]
fn ytdlp_refresh_takes_the_trimmed_version() {
    let mut m = YtDlpManager::new("/data/app");
    m.refresh_status(true, Some("2024.03.10\n".to_string()));
    let s = m.get_status();
    assert!(s.installed);
    assert!(m.is_installed());
    assert_eq!(s.version.as_deref(), Some("2024.03.10"));
    assert_eq!(s.path.as_deref(), Some("/data/app/tools/yt-dlp.exe"));
    m.refresh_status(false, None);
    let s = m.get_status();
    assert!(!s.installed);
    assert_eq!(s.version, None);
    assert_eq!(s.path, None);
}

#[test]
fn ytdlp_update_check_compares_versions() {
    let mut m = YtDlpManager::new("/d");
    m.refresh_status(true, Some("2024.01.01".to_string()));
    let s = m.apply_update_check(Some("2024.03.10".to_string()));
    assert!(s.update_available);
    assert_eq!(s.latest_version.as_deref(), Some("2024.03.10"));
    let s = m.apply_update_check(Some("2024.01.01".to_string()));
    assert!(!s.update_available);
    // with no known latest, availability means "not installed"
    let s = m.apply_update_check(None);
    assert!(!s.update_available);
}

#[test]
fn aria2_parses_its_banner_on_refresh() {
    let mut m = Aria2Manager::new("/data/app");
    assert_eq!(m.get_exe_path(), "/data/app/tools/aria2c.exe");
    m.refresh_status(true, Some("aria2 version 1.37.0\n(c) contributors".to_string()));
    let s = m.get_status();
    assert!(s.installed);
    assert_eq!(s.version.as_deref(), Some("1.37.0"));
    m.refresh_status(true, Some("strange banner".to_string()));
    assert_eq!(m.get_status().version.as_deref(), Some("Unknown"));
}

#[test]
fn ffmpeg_install_slot_is_exclusive() {
    let mut m = FFmpegManager::new("/data/app");
    assert_eq!(m.get_exe_path(), "/data/app/tools/ffmpeg.exe");
    assert!(m.begin_download());
    assert!(!m.begin_download());
    assert!(m.get_status().is_downloading);
    m.end_download();
    assert!(!m.get_status().is_downloading);
    assert!(m.begin_download());
}

#[test]
fn auth_initial_state_prefers_the_oauth_marker() {
    let a = AuthManager::new("/d".to_string(), true, Some(99), true, true, Some(5));
    let s = a.get_status();
    assert!(s.logged_in);
    assert_eq!(s.login_time, Some(99));
    assert!(!s.cookies_valid);
    assert_eq!(s.auth_method, "oauth");
}

#[test]
fn auth_initial_state_reads_the_cookie_file() {
    let a = AuthManager::new("/d".to_string(), false, None, true, true, Some(7));
    let s = a.get_status();
    assert!(s.logged_in);
    assert!(s.cookies_valid);
    assert_eq!(s.login_time, Some(7));
    assert_eq!(s.auth_method, "cookies");
    // a tiny cookie file does not count as a login
    let a = AuthManager::new("/d".to_string(), false, None, true, false, None);
    assert!(!a.is_logged_in());
    // no files at all
    let a = AuthManager::new("/d".to_string(), false, None, false, false, None);
    let s = a.get_status();
    assert!(!s.logged_in);
    assert_eq!(s.login_time, None);
}

#[test]
fn cookies_path_is_under_the_data_dir() {
    let a = AuthManager::new("/d".to_string(), false, None, false, false, None);
    assert_eq!(a.get_cookies_path(), "/d/youtube_cookies.txt");
}

#[test]
fn login_time_is_read_from_the_header() {
    let content = "# Netscape HTTP Cookie File\n# Login Time: 12345\n# another comment\n\n";
    assert_eq!(login_time_from_cookies(content), Some(12345));
    assert_eq!(login_time_from_cookies("no header at all"), None);
    // only the text up to the next colon counts
    assert_eq!(login_time_from_cookies("# Login Time: 12:30\n"), Some(12));
    // the header is only looked for among the first five lines
    assert_eq!(
        login_time_from_cookies("a\nb\nc\nd\ne\n# Login Time: 1\n"),
        None
    );
}

#[test]
fn saving_cookies_renders_the_netscape_file() {
    let mut a = AuthManager::new("/d".to_string(), false, None, false, false, None);
    let content = a.save_cookies("SID=abc; FOO=bar", 1000);
    let expected = "# Netscape HTTP Cookie File\n\
                    # Login Time: 1000\n\
                    # Generated by YouTube Downloader\n\
                    \n\
                    .youtube.com\tTRUE\t/\tTRUE\t31537000\tSID\tabc\n\
                    .google.com\tTRUE\t/\tTRUE\t31537000\tSID\tabc\n\
                    .youtube.com\tTRUE\t/\tTRUE\t31537000\tFOO\tbar\n\
                    .google.com\tTRUE\t/\tTRUE\t31537000\tFOO\tbar\n";
    assert_eq!(content, expected);
    let s = a.get_status();
    assert!(s.logged_in);
    assert!(s.cookies_valid);
    assert_eq!(s.login_time, Some(1000));
    assert_eq!(s.auth_method, "cookies");
}

#[test]
fn saved_cookie_file_reads_back_its_login_time() {
    let mut a = AuthManager::new("/d".to_string(), false, None, false, false, None);
    let content = a.save_cookies("SID=abc", 987654321);
    assert_eq!(login_time_from_cookies(&content), Some(987654321));
}

#[test]
fn saving_cookies_skips_malformed_pieces() {
    let mut a = AuthManager::new("/d".to_string(), false, None, false, false, None);
    let content = a.save_cookies("novalue; ; K=v", 0);
    let expected = "# Netscape HTTP Cookie File\n\
                    # Login Time: 0\n\
                    # Generated by YouTube Downloader\n\
                    \n\
                    .youtube.com\tTRUE\t/\tTRUE\t31536000\tK\tv\n\
                    .google.com\tTRUE\t/\tTRUE\t31536000\tK\tv\n";
    assert_eq!(content, expected);
}

#[test]
fn logout_clears_the_login_state() {
    let mut a = AuthManager::new("/d".to_string(), true, Some(1), false, false, None);
    a.set_avatar(Some("https://example.com/a.png".to_string()));
    a.logout();
    let s = a.get_status();
    assert!(!s.logged_in);
    assert_eq!(s.login_time, None);
    assert!(!s.cookies_valid);
    assert_eq!(s.auth_method, "cookies");
    // logout leaves the avatar; an explicit set_logged_in(false) clears it
    assert_eq!(s.avatar_url.as_deref(), Some("https://example.com/a.png"));
    a.set_logged_in(false);
    assert_eq!(a.get_status().avatar_url, None);
}

#[test]
fn set_logged_in_stamps_a_time() {
    let mut a = AuthManager::new("/d".to_string(), false, None, false, false, None);
    a.set_logged_in(true);
    let s = a.get_status();
    assert!(s.logged_in);
    assert!(s.cookies_valid);
    assert!(s.login_time.is_some());
}

#[test]
fn refresh_status_reflects_the_cookie_file() {
    let mut a = AuthManager::new("/d".to_string(), true, Some(1), false, false, None);
    a.refresh_status(true, true, Some(42));
    let s = a.get_status();
    assert!(s.logged_in);
    assert_eq!(s.login_time, Some(42));
    assert_eq!(s.auth_method, "browser");
    a.refresh_status(false, false, None);
    let s = a.get_status();
    assert!(!s.logged_in);
    assert_eq!(s.login_time, None);
}

#[test]
fn settings_fall_back_to_defaults() {
    let m = SettingsManager::new("/d".to_string(), None, "/home/u/Downloads".to_string());
    let s = m.get();
    assert_eq!(s.default_resolution, "1080p");
    assert_eq!(s.default_concurrent, 3);
    assert_eq!(s.download_dir, "/home/u/Downloads");
    assert!(!s.use_app_login);
    assert_eq!(s.auth_method, "browser");
    assert_eq!(s.cookies_browser, "chrome");
    assert_eq!(s.cookies_profile, "Default");
    assert_eq!(m.get_app_data_dir(), "/d");
    assert_eq!(m.get_config_path(), "/d/settings.json");
}

#[test]
fn settings_keep_what_was_loaded_and_saved() {
    let loaded = AppSettings {
        default_resolution: "720p".to_string(),
        default_concurrent: 5,
        download_dir: "/tmp/dl".to_string(),
        use_app_login: true,
        login_time: Some(3),
        auth_method: "cookies".to_string(),
        cookies_browser: "firefox".to_string(),
        cookies_profile: "Work".to_string(),
        avatar_url: None,
    };
    let mut m = SettingsManager::new("/d".to_string(), Some(loaded), "/unused".to_string());
    assert_eq!(m.get().default_resolution, "720p");
    assert_eq!(m.get().default_concurrent, 5);
    let mut changed = m.get();
    changed.default_concurrent = 2;
    m.save(changed);
    assert_eq!(m.get().default_concurrent, 2);
    assert_eq!(m.get().download_dir, "/tmp/dl");
}

#[test]
fn string_helpers_behave_like_their_specs() {
    assert_eq!(trim_str("  x y\t\n"), "x y");
    assert_eq!(trim_str("   "), "");
    assert_eq!(u64_to_string(0), "0");
    assert_eq!(u64_to_string(1234567890), "1234567890");
    assert_eq!(u64_to_string(u64::MAX), "18446744073709551615");
    assert_eq!(split_lines("a\r\nb\nc"), vec!["a", "b", "c"]);
    assert_eq!(split_lines("a\n"), vec!["a"]);
    assert_eq!(split_char("x;;y", ';'), vec!["x", "", "y"]);
    assert_eq!(split_char("plain", ';'), vec!["plain"]);
}

#[test]
fn number_parsing_matches_the_standard_reader() {
    let chars = |s: &str| s.chars().collect::<Vec<char>>();
    assert_eq!(parse_u64(&chars("42")), Some(42));
    assert_eq!(parse_u64(&chars("+42")), Some(42));
    assert_eq!(parse_u64(&chars("18446744073709551615")), Some(u64::MAX));
    assert_eq!(parse_u64(&chars("18446744073709551616")), None);
    assert_eq!(parse_u64(&chars("")), None);
    assert_eq!(parse_u64(&chars("+")), None);
    assert_eq!(parse_u64(&chars("4x2")), None);
    assert_eq!(parse_u64(&chars("-1")), None);
    // writer and reader are inverse
    let rendered = u64_to_string(9007199254740993);
    assert_eq!(parse_u64(&chars(&rendered)), Some(9007199254740993));
}
