//! The data model: task records, resolved video metadata, tool status
//! records, settings, and the progress events handed to the notification
//! sink.
//!
//! Progress is tracked as a whole percentage in `0..=100`. Types that a
//! caller receives as a copy implement `Clone` with a contract, so that a
//! copy provably carries the same data.

use vstd::prelude::*;

verus! {

/// The lifecycle states a download task can be in.
#[derive(Clone, Copy, Debug, PartialEq, Eq, Structural)]
pub enum DownloadStatus {
    Pending,
    Fetching,
    Downloading,
    Paused,
    Completed,
    Failed,
    Cancelled,
}

impl DownloadStatus {
    /// Completed and Failed are final: the bulk sweep removes such tasks
    /// and no operation leaves them.
    pub open spec fn is_terminal(self) -> bool {
        self == DownloadStatus::Completed || self == DownloadStatus::Failed
    }
}

/// The status-transition graph: an edge `from --> to` holds exactly when
/// some operation of the manager may move a task from `from` to `to`.
pub open spec fn transition_allowed(from: DownloadStatus, to: DownloadStatus) -> bool {
    ||| (from == DownloadStatus::Pending && to == DownloadStatus::Downloading)
    ||| (from == DownloadStatus::Downloading && to == DownloadStatus::Completed)
    ||| (from == DownloadStatus::Downloading && to == DownloadStatus::Failed)
    ||| (from == DownloadStatus::Downloading && to == DownloadStatus::Paused)
    ||| (from == DownloadStatus::Downloading && to == DownloadStatus::Cancelled)
    ||| (from == DownloadStatus::Paused && to == DownloadStatus::Downloading)
    ||| (from == DownloadStatus::Cancelled && to == DownloadStatus::Downloading)
}

/// Clones an optional string; the copy holds the same value.
pub fn clone_opt_string(o: &Option<String>) -> (r: Option<String>)
    ensures
        r == *o,
{
    match o {
        Some(s) => Some(s.clone()),
        None => None,
    }
}

/// One format offered for a video.
pub struct FormatInfo {
    pub format_id: String,
    pub format_note: Option<String>,
    pub ext: String,
    pub resolution: Option<String>,
    pub filesize: Option<u64>,
    pub filesize_approx: Option<u64>,
    pub vcodec: Option<String>,
    pub acodec: Option<String>,
}

impl Clone for FormatInfo {
    fn clone(&self) -> (r: Self)
        ensures
            r == *self,
    {
        FormatInfo {
            format_id: self.format_id.clone(),
            format_note: clone_opt_string(&self.format_note),
            ext: self.ext.clone(),
            resolution: clone_opt_string(&self.resolution),
            filesize: self.filesize,
            filesize_approx: self.filesize_approx,
            vcodec: clone_opt_string(&self.vcodec),
            acodec: clone_opt_string(&self.acodec),
        }
    }
}

/// The mathematical content of a [`VideoInfo`].
#[verifier::ext_equal]
pub ghost struct VideoInfoView {
    pub id: Seq<char>,
    pub url: Seq<char>,
    pub title: Seq<char>,
    pub duration: Option<u64>,
    pub duration_string: Option<Seq<char>>,
    pub thumbnail: Option<Seq<char>>,
    pub uploader: Option<Seq<char>>,
    pub view_count: Option<u64>,
    pub formats: Seq<FormatInfo>,
    pub playlist_index: Option<u32>,
    pub playlist_count: Option<u32>,
}

/// Resolved metadata for a video.
pub struct VideoInfo {
    pub id: String,
    pub url: String,
    pub title: String,
    pub duration: Option<u64>,
    pub duration_string: Option<String>,
    pub thumbnail: Option<String>,
    pub uploader: Option<String>,
    pub view_count: Option<u64>,
    pub formats: Vec<FormatInfo>,
    pub playlist_index: Option<u32>,
    pub playlist_count: Option<u32>,
}

impl View for VideoInfo {
    type V = VideoInfoView;

    open spec fn view(&self) -> VideoInfoView {
        VideoInfoView {
            id: self.id@,
            url: self.url@,
            title: self.title@,
            duration: self.duration,
            duration_string: self.duration_string.deep_view(),
            thumbnail: self.thumbnail.deep_view(),
            uploader: self.uploader.deep_view(),
            view_count: self.view_count,
            formats: self.formats@,
            playlist_index: self.playlist_index,
            playlist_count: self.playlist_count,
        }
    }
}

impl Clone for VideoInfo {
    fn clone(&self) -> (r: Self)
        ensures
            r@ == self@,
    {
        let r = VideoInfo {
            id: self.id.clone(),
            url: self.url.clone(),
            title: self.title.clone(),
            duration: self.duration,
            duration_string: clone_opt_string(&self.duration_string),
            thumbnail: clone_opt_string(&self.thumbnail),
            uploader: clone_opt_string(&self.uploader),
            view_count: self.view_count,
            formats: self.formats.clone(),
            playlist_index: self.playlist_index,
            playlist_count: self.playlist_count,
        };
        proof {
            assert(r.formats@ =~= self.formats@);
            assert(r@ =~= self@);
        }
        r
    }
}

/// The mathematical content of a [`DownloadTask`].
#[verifier::ext_equal]
pub ghost struct TaskView {
    pub id: Seq<char>,
    pub url: Seq<char>,
    pub video_info: Option<VideoInfoView>,
    pub status: DownloadStatus,
    pub progress: u32,
    pub speed: Option<Seq<char>>,
    pub eta: Option<Seq<char>>,
    pub error: Option<Seq<char>>,
    pub resolution: Seq<char>,
    pub output_path: Option<Seq<char>>,
}

impl TaskView {
    /// Progress is a percentage.
    pub open spec fn wf(self) -> bool {
        self.progress <= 100
    }
}

/// One requested download and its tracked lifecycle state.
pub struct DownloadTask {
    pub id: String,
    pub url: String,
    pub video_info: Option<VideoInfo>,
    pub status: DownloadStatus,
    pub progress: u32,
    pub speed: Option<String>,
    pub eta: Option<String>,
    pub error: Option<String>,
    pub resolution: String,
    pub output_path: Option<String>,
}

impl View for DownloadTask {
    type V = TaskView;

    open spec fn view(&self) -> TaskView {
        TaskView {
            id: self.id@,
            url: self.url@,
            video_info: match self.video_info {
                Some(v) => Some(v@),
                None => None,
            },
            status: self.status,
            progress: self.progress,
            speed: self.speed.deep_view(),
            eta: self.eta.deep_view(),
            error: self.error.deep_view(),
            resolution: self.resolution@,
            output_path: self.output_path.deep_view(),
        }
    }
}

impl Clone for DownloadTask {
    fn clone(&self) -> (r: Self)
        ensures
            r@ == self@,
    {
        let r = DownloadTask {
            id: self.id.clone(),
            url: self.url.clone(),
            video_info: match &self.video_info {
                Some(v) => Some(v.clone()),
                None => None,
            },
            status: self.status,
            progress: self.progress,
            speed: clone_opt_string(&self.speed),
            eta: clone_opt_string(&self.eta),
            error: clone_opt_string(&self.error),
            resolution: self.resolution.clone(),
            output_path: clone_opt_string(&self.output_path),
        };
        proof {
            assert(r@ =~= self@);
        }
        r
    }
}

/// Application settings.
pub struct AppSettings {
    /// Default resolution selector (for example `1080p` or `best`).
    pub default_resolution: String,
    /// Default number of concurrent downloads.
    pub default_concurrent: u32,
    /// Download directory.
    pub download_dir: String,
    /// Whether the in-app login state is used.
    pub use_app_login: bool,
    /// Last login time, as a Unix timestamp.
    pub login_time: Option<u64>,
    /// How credentials are obtained.
    pub auth_method: String,
    /// Browser the cookies are read from.
    pub cookies_browser: String,
    /// Browser profile folder name.
    pub cookies_profile: String,
    /// User avatar URL, kept across restarts.
    pub avatar_url: Option<String>,
}

impl Clone for AppSettings {
    fn clone(&self) -> (r: Self)
        ensures
            r == *self,
    {
        AppSettings {
            default_resolution: self.default_resolution.clone(),
            default_concurrent: self.default_concurrent,
            download_dir: self.download_dir.clone(),
            use_app_login: self.use_app_login,
            login_time: self.login_time,
            auth_method: self.auth_method.clone(),
            cookies_browser: self.cookies_browser.clone(),
            cookies_profile: self.cookies_profile.clone(),
            avatar_url: clone_opt_string(&self.avatar_url),
        }
    }
}

impl AppSettings {
    /// The settings used when none were stored: 1080p video, three
    /// concurrent downloads, browser cookies from Chrome's default
    /// profile, and the given download directory.
    pub fn defaults(download_dir: String) -> (r: Self)
        ensures
            r.default_resolution@ == "1080p"@,
            r.default_concurrent == 3,
            r.download_dir == download_dir,
            !r.use_app_login,
            r.login_time is None,
            r.auth_method@ == "browser"@,
            r.cookies_browser@ == "chrome"@,
            r.cookies_profile@ == "Default"@,
            r.avatar_url is None,
    {
        AppSettings {
            default_resolution: "1080p".to_owned(),
            default_concurrent: 3,
            download_dir,
            use_app_login: false,
            login_time: None,
            auth_method: "browser".to_owned(),
            cookies_browser: "chrome".to_owned(),
            cookies_profile: "Default".to_owned(),
            avatar_url: None,
        }
    }
}

/// Status of the download engine installation.
pub struct YtDlpStatus {
    pub installed: bool,
    pub version: Option<String>,
    pub path: Option<String>,
    pub latest_version: Option<String>,
    pub update_available: bool,
}

impl Clone for YtDlpStatus {
    fn clone(&self) -> (r: Self)
        ensures
            r == *self,
    {
        YtDlpStatus {
            installed: self.installed,
            version: clone_opt_string(&self.version),
            path: clone_opt_string(&self.path),
            latest_version: clone_opt_string(&self.latest_version),
            update_available: self.update_available,
        }
    }
}

/// One notification to the sink: a task id and a snapshot of its state.
pub struct DownloadProgressEvent {
    pub task_id: String,
    pub progress: u32,
    pub speed: Option<String>,
    pub eta: Option<String>,
    pub status: DownloadStatus,
    pub downloaded_bytes: Option<u64>,
    pub total_bytes: Option<u64>,
}

/// Login status.
pub struct LoginStatus {
    pub logged_in: bool,
    pub login_time: Option<u64>,
    pub cookies_valid: bool,
    pub auth_method: String,
    /// User avatar URL extracted from the account page.
    pub avatar_url: Option<String>,
}

impl Clone for LoginStatus {
    fn clone(&self) -> (r: Self)
        ensures
            r == *self,
    {
        LoginStatus {
            logged_in: self.logged_in,
            login_time: self.login_time,
            cookies_valid: self.cookies_valid,
            auth_method: self.auth_method.clone(),
            avatar_url: clone_opt_string(&self.avatar_url),
        }
    }
}

/// Outcome of checking a stored cookies file.
pub struct CookiesValidationResult {
    /// One of `valid`, `missing`, `expired`, `incomplete`, `error`.
    pub status: String,
    /// Whether an invalid cookies file was deleted.
    pub deleted: bool,
    /// A message for the user.
    pub message: String,
}

impl Clone for CookiesValidationResult {
    fn clone(&self) -> (r: Self)
        ensures
            r == *self,
    {
        CookiesValidationResult {
            status: self.status.clone(),
            deleted: self.deleted,
            message: self.message.clone(),
        }
    }
}

} // verus!
