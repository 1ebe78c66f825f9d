//! The download manager's task lifecycle: creation, worker steps,
//! control calls, removal and the terminal sweep.

use download_core::download::DownloadManager;
use download_core::models::DownloadStatus;

#[test]
fn created_task_is_pending_with_fresh_id() {
    let mut m = DownloadManager::new(3);
    let t = m.create_task("https://example.com/v".to_string(), "720p".to_string());
    assert_eq!(t.id.chars().count(), 36);
    assert_eq!(t.url, "https://example.com/v");
    assert_eq!(t.resolution, "720p");
    assert_eq!(t.status, DownloadStatus::Pending);
    assert_eq!(t.progress, 0);
    assert!(t.video_info.is_none());
    assert!(t.error.is_none());
    let stored = m.get_task(&t.id).expect("stored");
    assert_eq!(stored.status, DownloadStatus::Pending);
    assert_eq!(stored.url, t.url);
}

#[test]
fn starting_a_run_builds_the_invocation() {
    let mut m = DownloadManager::new(2);
    let t = m.create_task(
        "https://www.youtube.com/watch?v=abc".to_string(),
        "720p".to_string(),
    );
    assert!(m.try_acquire_worker());
    let args = m
        .start_download(&t.id, "/dl", None, false, "/data/cookies.txt", false)
        .expect("plan");
    let expected: Vec<String> = [
        "-f",
        "bestvideo[height<=720][ext=mp4]+bestaudio[ext=m4a]/best[height<=720]",
        "--newline",
        "--no-warnings",
        "--progress",
        "-o",
        "/dl/%(title)s.%(ext)s",
        "--write-info-json",
        "--output",
        &format!("infojson:/dl/.{}", t.id),
        "--no-playlist",
        "https://www.youtube.com/watch?v=abc",
    ]
    .iter()
    .map(|s| s.to_string())
    .collect();
    assert_eq!(args, expected);
    assert_eq!(
        m.get_task(&t.id).unwrap().status,
        DownloadStatus::Downloading
    );
    // an unknown id starts nothing
    assert!(m
        .start_download("no-such-task", "/dl", None, false, "/c", false)
        .is_none());
}

#[test]
fn gate_admits_at_most_the_limit() {
    let mut m = DownloadManager::new(2);
    assert!(m.try_acquire_worker());
    assert!(m.try_acquire_worker());
    assert!(!m.try_acquire_worker());
    m.release_worker();
    assert!(m.try_acquire_worker());
}

#[test]
fn lowering_the_limit_does_not_preempt() {
    let mut m = DownloadManager::new(2);
    assert!(m.try_acquire_worker());
    assert!(m.try_acquire_worker());
    m.set_max_concurrent(1);
    // both workers still run; only future grants are throttled
    assert!(!m.try_acquire_worker());
    m.release_worker();
    assert!(!m.try_acquire_worker());
    m.release_worker();
    assert!(m.try_acquire_worker());
}

#[test]
fn progress_line_updates_the_task() {
    let mut m = DownloadManager::new(3);
    let t = m.create_task("u".to_string(), "best".to_string());
    assert!(m.try_acquire_worker());
    m.mark_downloading(&t.id);
    let ev = m
        .apply_output_line(&t.id, "[download]  45.2% of 100MiB at 5.23MiB/s ETA 00:10")
        .expect("event");
    assert_eq!(ev.progress, 45);
    assert_eq!(ev.status, DownloadStatus::Downloading);
    assert_eq!(ev.speed.as_deref(), Some("5.23MiB/s"));
    assert_eq!(ev.eta.as_deref(), Some("00:10"));
    let s = m.get_task(&t.id).unwrap();
    assert_eq!(s.status, DownloadStatus::Downloading);
    assert_eq!(s.progress, 45);
    assert_eq!(s.speed.as_deref(), Some("5.23MiB/s"));
    assert_eq!(s.eta.as_deref(), Some("00:10"));
}

#[test]
fn unrecognized_line_changes_nothing() {
    let mut m = DownloadManager::new(3);
    let t = m.create_task("u".to_string(), "best".to_string());
    assert!(m.try_acquire_worker());
    m.mark_downloading(&t.id);
    assert!(m.apply_output_line(&t.id, "[youtube] extracting metadata").is_none());
    let s = m.get_task(&t.id).unwrap();
    assert_eq!(s.status, DownloadStatus::Downloading);
    assert_eq!(s.progress, 0);
}

#[test]
fn already_downloaded_forces_completed_at_hundred() {
    let mut m = DownloadManager::new(3);
    let t = m.create_task("u".to_string(), "best".to_string());
    assert!(m.try_acquire_worker());
    m.mark_downloading(&t.id);
    m.apply_output_line(&t.id, "[download]  45.2% of 100MiB at 5.23MiB/s ETA 00:10");
    let ev = m
        .apply_output_line(&t.id, "[download] x.mp4 has already been downloaded")
        .expect("event");
    assert_eq!(ev.progress, 100);
    assert_eq!(ev.status, DownloadStatus::Completed);
    assert_eq!(ev.eta.as_deref(), Some("Already downloaded"));
    let s = m.get_task(&t.id).unwrap();
    assert_eq!(s.status, DownloadStatus::Completed);
    assert_eq!(s.progress, 100);
}

#[test]
fn successful_exit_completes_the_task() {
    let mut m = DownloadManager::new(3);
    let t = m.create_task("u".to_string(), "best".to_string());
    assert!(m.try_acquire_worker());
    m.mark_downloading(&t.id);
    m.register_process(&t.id, 4242);
    let ev = m.finish_download(&t.id, true);
    assert_eq!(ev.status, DownloadStatus::Completed);
    assert_eq!(ev.progress, 100);
    let s = m.get_task(&t.id).unwrap();
    assert_eq!(s.status, DownloadStatus::Completed);
    assert_eq!(s.progress, 100);
    // the registry entry is gone; a later cancel finds no process
    assert_eq!(m.cancel_download(&t.id), None);
}

#[test]
fn failing_exit_marks_the_task_failed() {
    let mut m = DownloadManager::new(3);
    let t = m.create_task("u".to_string(), "best".to_string());
    assert!(m.try_acquire_worker());
    m.mark_downloading(&t.id);
    m.register_process(&t.id, 4242);
    let ev = m.finish_download(&t.id, false);
    assert_eq!(ev.status, DownloadStatus::Failed);
    assert_eq!(ev.progress, 0);
    let s = m.get_task(&t.id).unwrap();
    assert_eq!(s.status, DownloadStatus::Failed);
    assert_eq!(s.error.as_deref(), Some("Download failed"));
}

#[test]
fn concurrent_pause_wins_over_exit() {
    let mut m = DownloadManager::new(3);
    let t = m.create_task("u".to_string(), "best".to_string());
    assert!(m.try_acquire_worker());
    m.mark_downloading(&t.id);
    m.register_process(&t.id, 7);
    m.apply_output_line(&t.id, "[download] 80% of x at 1MiB/s ETA 00:05");
    // a control call pauses the task while the worker still runs
    assert_eq!(m.pause_download(&t.id), Some(7));
    // the worker's own resolution must not overwrite the pause
    let ev = m.finish_download(&t.id, true);
    assert_eq!(ev.status, DownloadStatus::Paused);
    assert_eq!(ev.progress, 80);
    let s = m.get_task(&t.id).unwrap();
    assert_eq!(s.status, DownloadStatus::Paused);
    assert_eq!(s.progress, 80);
}

#[test]
fn cancel_without_process_only_forces_status() {
    let mut m = DownloadManager::new(3);
    let t = m.create_task("u".to_string(), "best".to_string());
    let pid = m.cancel_download(&t.id);
    assert_eq!(pid, None);
    let s = m.get_task(&t.id).unwrap();
    assert_eq!(s.status, DownloadStatus::Cancelled);
    assert_eq!(s.progress, 0);
    assert_eq!(s.url, "u");
}

#[test]
fn resume_restarts_a_paused_task() {
    let mut m = DownloadManager::new(3);
    let t = m.create_task("u".to_string(), "best".to_string());
    assert!(m.try_acquire_worker());
    m.mark_downloading(&t.id);
    m.pause_download(&t.id);
    m.release_worker();
    assert_eq!(m.get_task(&t.id).unwrap().status, DownloadStatus::Paused);
    // resume is a fresh start call
    assert!(m.try_acquire_worker());
    m.mark_downloading(&t.id);
    assert_eq!(
        m.get_task(&t.id).unwrap().status,
        DownloadStatus::Downloading
    );
}

#[test]
fn removing_a_downloading_task_kills_and_erases() {
    let mut m = DownloadManager::new(3);
    let t = m.create_task("u".to_string(), "best".to_string());
    assert!(m.try_acquire_worker());
    m.mark_downloading(&t.id);
    m.register_process(&t.id, 555);
    let pid = m.remove_task(&t.id);
    assert_eq!(pid, Some(555));
    assert!(m.get_task(&t.id).is_none());
    // the registry entry went with the record: cancelling again finds nothing
    assert_eq!(m.cancel_download(&t.id), None);
    assert!(m.get_all_tasks().iter().all(|x| x.id != t.id));
}

#[test]
fn clear_completed_leaves_paused_and_downloading() {
    let mut m = DownloadManager::new(4);
    let a = m.create_task("a".to_string(), "best".to_string());
    let b = m.create_task("b".to_string(), "best".to_string());
    let c = m.create_task("c".to_string(), "best".to_string());
    let d = m.create_task("d".to_string(), "best".to_string());
    m.update_task_status(&a.id, DownloadStatus::Completed);
    m.update_task_error(&b.id, "boom".to_string());
    m.update_task_status(&c.id, DownloadStatus::Paused);
    m.update_task_status(&d.id, DownloadStatus::Downloading);
    m.clear_completed();
    let left = m.get_all_tasks();
    assert_eq!(left.len(), 2);
    assert_eq!(left[0].id, c.id);
    assert_eq!(left[0].status, DownloadStatus::Paused);
    assert_eq!(left[1].id, d.id);
    assert_eq!(left[1].status, DownloadStatus::Downloading);
}

#[test]
fn clear_completed_keeps_cancelled_tasks() {
    let mut m = DownloadManager::new(4);
    let a = m.create_task("a".to_string(), "best".to_string());
    let b = m.create_task("b".to_string(), "best".to_string());
    m.update_task_status(&a.id, DownloadStatus::Cancelled);
    m.update_task_status(&b.id, DownloadStatus::Failed);
    m.clear_completed();
    let left = m.get_all_tasks();
    assert_eq!(left.len(), 1);
    assert_eq!(left[0].id, a.id);
    assert_eq!(left[0].status, DownloadStatus::Cancelled);
}

#[test]
fn update_task_error_sets_failed() {
    let mut m = DownloadManager::new(1);
    let t = m.create_task("u".to_string(), "best".to_string());
    m.update_task_error(&t.id, "engine missing".to_string());
    let s = m.get_task(&t.id).unwrap();
    assert_eq!(s.status, DownloadStatus::Failed);
    assert_eq!(s.error.as_deref(), Some("engine missing"));
}

#[test]
fn metadata_can_be_attached_directly() {
    let mut m = DownloadManager::new(1);
    let t = m.create_task("u".to_string(), "best".to_string());
    let info = download_core::models::VideoInfo {
        id: "v9".to_string(),
        url: "https://example.com/v9".to_string(),
        title: "T".to_string(),
        duration: Some(10),
        duration_string: None,
        thumbnail: None,
        uploader: None,
        view_count: None,
        formats: Vec::new(),
        playlist_index: None,
        playlist_count: None,
    };
    m.update_task_video_info(&t.id, info);
    let got = m.get_task(&t.id).unwrap().video_info.expect("metadata");
    assert_eq!(got.id, "v9");
    assert_eq!(got.title, "T");
}

#[test]
fn deregistration_is_idempotent() {
    let mut m = DownloadManager::new(1);
    let t = m.create_task("u".to_string(), "best".to_string());
    assert!(m.try_acquire_worker());
    m.mark_downloading(&t.id);
    m.register_process(&t.id, 99);
    m.deregister_process(&t.id);
    m.deregister_process(&t.id);
    assert_eq!(m.cancel_download(&t.id), None);
    assert_eq!(m.registered_processes(), 0);
}

#[test]
fn hydration_merges_metadata_once() {
    let mut m = DownloadManager::new(1);
    let t = m.create_task("u".to_string(), "best".to_string());
    let loaded = m.hydrate_video_info(
        &t.id,
        "{\"id\":\"x1\",\"title\":\"A Title\",\"duration\":63,\"uploader\":\"someone\"}",
    );
    assert!(loaded);
    let info = m.get_task(&t.id).unwrap().video_info.expect("metadata");
    assert_eq!(info.id, "x1");
    assert_eq!(info.title, "A Title");
    assert_eq!(info.url, "");
    assert_eq!(info.duration, Some(63));
    assert_eq!(info.uploader.as_deref(), Some("someone"));
    assert!(info.formats.is_empty());
}

#[test]
fn hydration_rejects_malformed_side_file() {
    let mut m = DownloadManager::new(1);
    let t = m.create_task("u".to_string(), "best".to_string());
    assert!(!m.hydrate_video_info(&t.id, "not json at all"));
    assert!(m.get_task(&t.id).unwrap().video_info.is_none());
}

#[test]
fn hydration_falls_back_on_missing_fields() {
    let mut m = DownloadManager::new(1);
    let t = m.create_task("u".to_string(), "best".to_string());
    assert!(m.hydrate_video_info(&t.id, "{}"));
    let info = m.get_task(&t.id).unwrap().video_info.expect("metadata");
    assert_eq!(info.id, "unknown");
    assert_eq!(info.title, "Unknown Title");
    assert_eq!(info.url, "");
    assert_eq!(info.duration, None);
}
