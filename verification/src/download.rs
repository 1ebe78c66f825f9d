//! The download manager: the façade over the task store, the process
//! registry and the concurrency gate, together with the per-task worker
//! steps. A worker's run is driven from outside (spawning the engine
//! and reading its output are I/O); every decision it takes — quality
//! selection, single-item detection, progress interpretation, outcome
//! resolution — is made here, against the stored state.

use vstd::prelude::*;

use crate::gate::ConcurrencyGate;
use crate::models::{
    transition_allowed, DownloadProgressEvent, DownloadStatus, DownloadTask, TaskView, VideoInfo,
};
use crate::progress::{
    already_signal, eta_capture, line_eta, line_percent, line_signals_already, line_speed,
    percent_value, speed_capture,
};
use crate::registry::ProcessRegistry;
use crate::store::TaskStore;
use crate::strutil::{contains_seq, contains_str, split_lines, split_lines_spec, str_eq};

verus! {

/// Relies on `uuid::Uuid::new_v4` and its `Display` form: a random
/// version-4 UUID renders as 36 hyphenated hexadecimal characters.
/// The value is random, so nothing more is stated about it.
#[verifier::external_body]
fn fresh_task_id() -> (r: String)
    ensures
        r@.len() == 36,
{
    uuid::Uuid::new_v4().to_string()
}

/// What one listing line contributes to a playlist expansion: an item
/// id, a literal URL, or nothing.
pub enum ListingLine {
    Id(String),
    Url(String),
    Skip,
}

/// What the JSON reader extracts from one listing line: `(true, id)`
/// for a line whose object carries a string `id` field, `(false, url)`
/// for one carrying only a string `url` field, and nothing for a
/// malformed or fieldless line. The outcome depends on the line alone.
pub uninterp spec fn listing_item_of(line: Seq<char>) -> Option<(bool, Seq<char>)>;

/// Relies on `serde_json::from_str` and `Value::{get, as_str}`: parses
/// one listing line as JSON and takes its `id` field, or failing that
/// its `url` field. `listing_item_of` names the outcome.
#[verifier::external_body]
fn parse_listing_line(line: &str) -> (r: ListingLine)
    ensures
        match r {
            ListingLine::Id(s) => listing_item_of(line@) == Some((true, s@)),
            ListingLine::Url(s) => listing_item_of(line@) == Some((false, s@)),
            ListingLine::Skip => listing_item_of(line@) is None,
        },
{
    match serde_json::from_str::<serde_json::Value>(line) {
        Ok(v) => match v.get("id").and_then(|x| x.as_str()) {
            Some(id) => ListingLine::Id(id.to_string()),
            None => match v.get("url").and_then(|x| x.as_str()) {
                Some(u) => ListingLine::Url(u.to_string()),
                None => ListingLine::Skip,
            },
        },
        Err(_) => ListingLine::Skip,
    }
}

/// The scalar fields of the side-channel metadata file the engine
/// writes during a run.
pub struct InfoFields {
    pub id: Option<String>,
    pub url: Option<String>,
    pub title: Option<String>,
    pub duration: Option<u64>,
    pub duration_string: Option<String>,
    pub thumbnail: Option<String>,
    pub uploader: Option<String>,
    pub view_count: Option<u64>,
}

/// What the JSON reader extracts from the side file: nothing when the
/// text is not valid JSON, else the tuple of its optional `id`,
/// `webpage_url`, `title`, `duration`, `duration_string`, `thumbnail`,
/// `uploader` and `view_count` fields. The outcome depends on the text
/// alone.
pub uninterp spec fn info_fields_of(content: Seq<char>) -> Option<
    (
        Option<Seq<char>>,
        Option<Seq<char>>,
        Option<Seq<char>>,
        Option<u64>,
        Option<Seq<char>>,
        Option<Seq<char>>,
        Option<Seq<char>>,
        Option<u64>,
    ),
>;

/// Relies on `serde_json::from_str` and `Value::{get, as_str, as_u64}`:
/// parses the side file and takes its scalar metadata fields.
/// `info_fields_of` names the outcome.
#[verifier::external_body]
fn parse_info_fields(content: &str) -> (r: Option<InfoFields>)
    ensures
        match r {
            Some(f) => info_fields_of(content@) == Some(
                (
                    f.id.deep_view(),
                    f.url.deep_view(),
                    f.title.deep_view(),
                    f.duration,
                    f.duration_string.deep_view(),
                    f.thumbnail.deep_view(),
                    f.uploader.deep_view(),
                    f.view_count,
                ),
            ),
            None => info_fields_of(content@) is None,
        },
{
    let v: serde_json::Value = match serde_json::from_str(content) {
        Ok(v) => v,
        Err(_) => return None,
    };
    let text = |k| v.get(k).and_then(|x| x.as_str()).map(|s| s.to_string());
    Some(InfoFields {
        id: text("id"),
        url: text("webpage_url"),
        title: text("title"),
        duration: v.get("duration").and_then(|x| x.as_u64()),
        duration_string: text("duration_string"),
        thumbnail: text("thumbnail"),
        uploader: text("uploader"),
        view_count: v.get("view_count").and_then(|x| x.as_u64()),
    })
}

/// The video metadata a run is hydrated with: absent id and title fall
/// back to placeholders, an absent URL to the empty string; the format
/// list stays empty, since the side file is not read for formats.
pub fn video_info_from_fields(f: InfoFields) -> (r: VideoInfo)
    ensures
        r@.id == match f.id.deep_view() {
            Some(s) => s,
            None => "unknown"@,
        },
        r@.url == match f.url.deep_view() {
            Some(s) => s,
            None => Seq::<char>::empty(),
        },
        r@.title == match f.title.deep_view() {
            Some(s) => s,
            None => "Unknown Title"@,
        },
        r@.duration == f.duration,
        r@.duration_string == f.duration_string.deep_view(),
        r@.thumbnail == f.thumbnail.deep_view(),
        r@.uploader == f.uploader.deep_view(),
        r@.view_count == f.view_count,
        r@.formats == Seq::<crate::models::FormatInfo>::empty(),
        r@.playlist_index is None,
        r@.playlist_count is None,
{
    let r = VideoInfo {
        id: match f.id {
            Some(s) => s,
            None => "unknown".to_owned(),
        },
        url: match f.url {
            Some(s) => s,
            None => String::new(),
        },
        title: match f.title {
            Some(s) => s,
            None => "Unknown Title".to_owned(),
        },
        duration: f.duration,
        duration_string: f.duration_string,
        thumbnail: f.thumbnail,
        uploader: f.uploader,
        view_count: f.view_count,
        formats: Vec::new(),
        playlist_index: None,
        playlist_count: None,
    };
    proof {
        assert(r.formats@ =~= Seq::<crate::models::FormatInfo>::empty());
    }
    r
}

/// The fixed table from a quality selector to the engine's
/// format-selection expression: each named tier bounds the vertical
/// resolution and asks for an audio track; `audio` asks for audio
/// alone; anything unrecognized falls back to the 1080p expression.
pub open spec fn format_selector(resolution: Seq<char>) -> Seq<char> {
    if resolution == "best"@ {
        "bestvideo[ext=mp4]+bestaudio[ext=m4a]/best[ext=mp4]/best"@
    } else if resolution == "2160p"@ || resolution == "4K"@ {
        "bestvideo[height<=2160][ext=mp4]+bestaudio[ext=m4a]/best[height<=2160]"@
    } else if resolution == "1440p"@ || resolution == "2K"@ {
        "bestvideo[height<=1440][ext=mp4]+bestaudio[ext=m4a]/best[height<=1440]"@
    } else if resolution == "720p"@ {
        "bestvideo[height<=720][ext=mp4]+bestaudio[ext=m4a]/best[height<=720]"@
    } else if resolution == "480p"@ {
        "bestvideo[height<=480][ext=mp4]+bestaudio[ext=m4a]/best[height<=480]"@
    } else if resolution == "360p"@ {
        "bestvideo[height<=360][ext=mp4]+bestaudio[ext=m4a]/best[height<=360]"@
    } else if resolution == "audio"@ {
        "bestaudio[ext=m4a]/bestaudio"@
    } else {
        "bestvideo[height<=1080][ext=mp4]+bestaudio[ext=m4a]/best[height<=1080]"@
    }
}

/// Resolves a quality selector to the engine's format-selection
/// expression, by the fixed table in [`format_selector`].
pub fn resolve_format(resolution: &str) -> (r: String)
    ensures
        r@ == format_selector(resolution@),
{
    if str_eq(resolution, "best") {
        "bestvideo[ext=mp4]+bestaudio[ext=m4a]/best[ext=mp4]/best".to_owned()
    } else if str_eq(resolution, "2160p") || str_eq(resolution, "4K") {
        "bestvideo[height<=2160][ext=mp4]+bestaudio[ext=m4a]/best[height<=2160]".to_owned()
    } else if str_eq(resolution, "1440p") || str_eq(resolution, "2K") {
        "bestvideo[height<=1440][ext=mp4]+bestaudio[ext=m4a]/best[height<=1440]".to_owned()
    } else if str_eq(resolution, "720p") {
        "bestvideo[height<=720][ext=mp4]+bestaudio[ext=m4a]/best[height<=720]".to_owned()
    } else if str_eq(resolution, "480p") {
        "bestvideo[height<=480][ext=mp4]+bestaudio[ext=m4a]/best[height<=480]".to_owned()
    } else if str_eq(resolution, "360p") {
        "bestvideo[height<=360][ext=mp4]+bestaudio[ext=m4a]/best[height<=360]".to_owned()
    } else if str_eq(resolution, "audio") {
        "bestaudio[ext=m4a]/bestaudio".to_owned()
    } else {
        "bestvideo[height<=1080][ext=mp4]+bestaudio[ext=m4a]/best[height<=1080]".to_owned()
    }
}

/// A URL names a single item when it carries a video-id marker (`v=`)
/// or a short-link marker (`youtu.be/`).
pub open spec fn single_item_url(url: Seq<char>) -> bool {
    contains_seq(url, "v="@) || contains_seq(url, "youtu.be/"@)
}

/// The canonical watch URL prefix an item id is formatted into.
pub open spec fn watch_url_prefix() -> Seq<char> {
    "https://www.youtube.com/watch?v="@
}

/// The URL list a listing expands to: one entry per line that
/// contributes an item — the canonical watch URL of its id, or its
/// literal URL — in the order of the lines; other lines are skipped.
pub open spec fn expansion_of(lines: Seq<Seq<char>>) -> Seq<Seq<char>>
    decreases lines.len(),
{
    if lines.len() == 0 {
        Seq::empty()
    } else {
        expansion_of(lines.drop_last()) + match listing_item_of(lines.last()) {
            Some((true, id)) => seq![watch_url_prefix() + id],
            Some((false, url)) => seq![url],
            None => Seq::<Seq<char>>::empty(),
        }
    }
}

/// The argument list an engine run is started with: the resolved
/// format expression, line-buffered progress reporting, the output and
/// side-file templates; then, in this order and each only under its
/// condition, the converter location, the cookie file, single-item
/// mode, and the accelerator wiring — the accelerator only for plain
/// HTTP(S) transfers, never for adaptive-streaming manifests, whose
/// progress format it cannot speak; the source URL comes last.
pub open spec fn engine_args_spec(
    url: Seq<char>,
    resolution: Seq<char>,
    output_template: Seq<char>,
    info_json_template: Seq<char>,
    ffmpeg_path: Option<Seq<char>>,
    use_cookies: bool,
    cookies_path: Seq<char>,
    use_accelerator: bool,
) -> Seq<Seq<char>> {
    let base = seq![
        "-f"@,
        format_selector(resolution),
        "--newline"@,
        "--no-warnings"@,
        "--progress"@,
        "-o"@,
        output_template,
        "--write-info-json"@,
        "--output"@,
        "infojson:"@ + info_json_template,
    ];
    let with_ffmpeg = match ffmpeg_path {
        Some(p) => base + seq!["--ffmpeg-location"@, p],
        None => base,
    };
    let with_cookies = if use_cookies {
        with_ffmpeg + seq!["--cookies"@, cookies_path]
    } else {
        with_ffmpeg
    };
    let with_single = if single_item_url(url) {
        with_cookies + seq!["--no-playlist"@]
    } else {
        with_cookies
    };
    let with_accel = if use_accelerator {
        with_single + seq![
            "--downloader"@,
            "http,https:aria2c"@,
            "--downloader-args"@,
            "aria2c:-x 16 -s 16 --file-allocation=none --summary-interval=1"@,
        ]
    } else {
        with_single
    };
    with_accel.push(url)
}

/// Builds the engine's argument list, as [`engine_args_spec`] says:
/// the caller passes the converter path when its executable is present,
/// `use_cookies` when the cookie file exists at this moment, and
/// `use_accelerator` when the accelerator executable is present.
pub fn engine_args(
    url: &str,
    resolution: &str,
    output_template: &str,
    info_json_template: &str,
    ffmpeg_path: Option<String>,
    use_cookies: bool,
    cookies_path: &str,
    use_accelerator: bool,
) -> (r: Vec<String>)
    ensures
        r.deep_view() == engine_args_spec(
            url@,
            resolution@,
            output_template@,
            info_json_template@,
            ffmpeg_path.deep_view(),
            use_cookies,
            cookies_path@,
            use_accelerator,
        ),
{
    let mut args: Vec<String> = Vec::new();
    args.push("-f".to_owned());
    args.push(resolve_format(resolution));
    args.push("--newline".to_owned());
    args.push("--no-warnings".to_owned());
    args.push("--progress".to_owned());
    args.push("-o".to_owned());
    args.push(output_template.to_owned());
    args.push("--write-info-json".to_owned());
    args.push("--output".to_owned());
    args.push("infojson:".to_owned().concat(info_json_template));
    let ghost base = args.deep_view();
    proof {
        assert(base =~= seq![
            "-f"@,
            format_selector(resolution@),
            "--newline"@,
            "--no-warnings"@,
            "--progress"@,
            "-o"@,
            output_template@,
            "--write-info-json"@,
            "--output"@,
            "infojson:"@ + info_json_template@,
        ]);
    }
    match ffmpeg_path {
        Some(p) => {
            let ghost pv = p@;
            args.push("--ffmpeg-location".to_owned());
            args.push(p);
            proof {
                assert(args.deep_view() =~= base + seq!["--ffmpeg-location"@, pv]);
            }
        },
        None => {},
    }
    let ghost with_ffmpeg = args.deep_view();
    if use_cookies {
        args.push("--cookies".to_owned());
        args.push(cookies_path.to_owned());
        proof {
            assert(args.deep_view() =~= with_ffmpeg + seq!["--cookies"@, cookies_path@]);
        }
    }
    let ghost with_cookies = args.deep_view();
    if DownloadManager::should_use_no_playlist(url) {
        args.push("--no-playlist".to_owned());
        proof {
            assert(args.deep_view() =~= with_cookies + seq!["--no-playlist"@]);
        }
    }
    let ghost with_single = args.deep_view();
    if use_accelerator {
        args.push("--downloader".to_owned());
        args.push("http,https:aria2c".to_owned());
        args.push("--downloader-args".to_owned());
        args.push("aria2c:-x 16 -s 16 --file-allocation=none --summary-interval=1".to_owned());
        proof {
            assert(args.deep_view() =~= with_single + seq![
                "--downloader"@,
                "http,https:aria2c"@,
                "--downloader-args"@,
                "aria2c:-x 16 -s 16 --file-allocation=none --summary-interval=1"@,
            ]);
        }
    }
    let ghost with_accel = args.deep_view();
    args.push(url.to_owned());
    proof {
        assert(args.deep_view() =~= with_accel.push(url@));
    }
    args
}

pub struct DownloadManager {
    tasks: TaskStore,
    processes: ProcessRegistry,
    gate: ConcurrencyGate,
}

impl DownloadManager {
    /// The stored task records, keyed by id.
    pub closed spec fn tasks_view(&self) -> Map<Seq<char>, TaskView> {
        self.tasks@
    }

    /// The stored task ids, in insertion order.
    pub closed spec fn task_order(&self) -> Seq<Seq<char>> {
        self.tasks.key_order()
    }

    /// The registered processes, keyed by task id.
    pub closed spec fn processes_view(&self) -> Map<Seq<char>, u32> {
        self.processes@
    }

    pub closed spec fn gate_active(&self) -> u32 {
        self.gate.active()
    }

    pub closed spec fn gate_limit(&self) -> u32 {
        self.gate.limit()
    }

    /// The store is consistent and every registered process is covered
    /// by a held permit.
    pub closed spec fn wf(&self) -> bool {
        &&& self.tasks.wf()
        &&& self.processes_view().dom().finite()
        &&& self.processes_view().dom().len() <= self.gate_active()
    }

    pub fn new(max_concurrent: u32) -> (r: Self)
        ensures
            r.wf(),
            r.tasks_view() == Map::<Seq<char>, TaskView>::empty(),
            r.task_order() == Seq::<Seq<char>>::empty(),
            r.processes_view() == Map::<Seq<char>, u32>::empty(),
            r.gate_limit() == max_concurrent,
            r.gate_active() == 0,
    {
        let r = DownloadManager {
            tasks: TaskStore::new(),
            processes: ProcessRegistry::new(),
            gate: ConcurrencyGate::new(max_concurrent),
        };
        proof {
            assert(r.processes_view().dom() =~= Set::<Seq<char>>::empty());
        }
        r
    }

    /// Changes the concurrency limit; running workers are not preempted.
    pub fn set_max_concurrent(&mut self, max: u32)
        requires
            old(self).wf(),
        ensures
            final(self).wf(),
            final(self).gate_limit() == max,
            final(self).gate_active() == old(self).gate_active(),
            final(self).tasks_view() == old(self).tasks_view(),
            final(self).task_order() == old(self).task_order(),
            final(self).processes_view() == old(self).processes_view(),
    {
        self.gate.set_limit(max);
    }

    /// Whether the engine should be told to fetch a single item rather
    /// than expand a playlist.
    pub fn should_use_no_playlist(url: &str) -> (r: bool)
        ensures
            r == single_item_url(url@),
    {
        contains_str(url, "v=") || contains_str(url, "youtu.be/")
    }

    /// Expands the engine's listing output: each line is read on its
    /// own, malformed lines are skipped, and the item URLs come back in
    /// the order of the lines.
    pub fn expand_playlist(output: &str) -> (r: Vec<String>)
        ensures
            r.deep_view() == expansion_of(split_lines_spec(output@)),
    {
        let lines = split_lines(output);
        let ghost all = lines.deep_view();
        let mut urls: Vec<String> = Vec::new();
        let mut i: usize = 0;
        proof {
            assert(all.subrange(0, 0) =~= Seq::<Seq<char>>::empty());
            assert(urls.deep_view() =~= expansion_of(all.subrange(0, 0)));
        }
        while i < lines.len()
            invariant
                i <= lines@.len(),
                all == lines.deep_view(),
                urls.deep_view() == expansion_of(all.subrange(0, i as int)),
            decreases lines@.len() - i,
        {
            let ghost prefix = all.subrange(0, i as int);
            proof {
                assert(all.subrange(0, i + 1).drop_last() =~= prefix);
                assert(all.subrange(0, i + 1).last() == all[i as int]);
            }
            let ghost before = urls.deep_view();
            match parse_listing_line(lines[i].as_str()) {
                ListingLine::Id(id) => {
                    let url = "https://www.youtube.com/watch?v=".to_owned().concat(id.as_str());
                    urls.push(url);
                    proof {
                        assert(urls.deep_view() =~= before.push(
                            watch_url_prefix() + id@,
                        ));
                        assert(before.push(watch_url_prefix() + id@) =~= before + seq![
                            watch_url_prefix() + id@,
                        ]);
                    }
                },
                ListingLine::Url(u) => {
                    let ghost uv = u@;
                    urls.push(u);
                    proof {
                        assert(urls.deep_view() =~= before.push(uv));
                        assert(before.push(uv) =~= before + seq![uv]);
                    }
                },
                ListingLine::Skip => {
                    proof {
                        assert(before + Seq::<Seq<char>>::empty() =~= before);
                    }
                },
            }
            i = i + 1;
        }
        proof {
            assert(all.subrange(0, all.len() as int) =~= all);
        }
        urls
    }

    /// Creates a task: a fresh id, the given source URL and quality
    /// selector, status Pending, progress zero, everything else unset.
    /// The created record is stored and a copy of it returned.
    pub fn create_task(&mut self, url: String, resolution: String) -> (r: DownloadTask)
        requires
            old(self).wf(),
        ensures
            final(self).wf(),
            r@.id.len() == 36,
            r@.url == url@,
            r@.resolution == resolution@,
            r@.status == DownloadStatus::Pending,
            r@.progress == 0,
            r@.video_info is None,
            r@.speed is None,
            r@.eta is None,
            r@.error is None,
            r@.output_path is None,
            final(self).tasks_view() == old(self).tasks_view().insert(r@.id, r@),
            final(self).processes_view() == old(self).processes_view(),
            final(self).gate_active() == old(self).gate_active(),
            final(self).gate_limit() == old(self).gate_limit(),
    {
        let id = fresh_task_id();
        let task = DownloadTask {
            id,
            url,
            video_info: None,
            status: DownloadStatus::Pending,
            progress: 0,
            speed: None,
            eta: None,
            error: None,
            resolution,
            output_path: None,
        };
        let copy = task.clone();
        self.tasks.insert(task);
        copy
    }

    /// An independent copy of the record for `id`, if one is stored.
    pub fn get_task(&self, id: &str) -> (r: Option<DownloadTask>)
        ensures
            match r {
                Some(t) => self.tasks_view().contains_key(id@) && t@ == self.tasks_view()[id@],
                None => !self.tasks_view().contains_key(id@),
            },
    {
        self.tasks.get(id)
    }

    /// Independent copies of all records, in insertion order.
    pub fn get_all_tasks(&self) -> (r: Vec<DownloadTask>)
        requires
            self.wf(),
        ensures
            r@.len() == self.task_order().len(),
            forall|i: int|
                0 <= i < r@.len() ==> (#[trigger] r@[i])@ == self.tasks_view()[self.task_order()[i]],
    {
        self.tasks.get_all()
    }

    /// Sets the task's status; a missing id changes nothing.
    pub fn update_task_status(&mut self, id: &str, status: DownloadStatus)
        requires
            old(self).wf(),
        ensures
            final(self).wf(),
            old(self).tasks_view().contains_key(id@) ==> final(self).tasks_view() == old(
                self,
            ).tasks_view().insert(id@, TaskView { status, ..old(self).tasks_view()[id@] }),
            !old(self).tasks_view().contains_key(id@) ==> final(self).tasks_view() == old(
                self,
            ).tasks_view(),
            final(self).task_order() == old(self).task_order(),
            final(self).processes_view() == old(self).processes_view(),
            final(self).gate_active() == old(self).gate_active(),
            final(self).gate_limit() == old(self).gate_limit(),
    {
        self.tasks.set_status(id, status);
    }

    /// Marks the task failed with the given message; a missing id
    /// changes nothing.
    pub fn update_task_error(&mut self, id: &str, error: String)
        requires
            old(self).wf(),
        ensures
            final(self).wf(),
            old(self).tasks_view().contains_key(id@) ==> final(self).tasks_view() == old(
                self,
            ).tasks_view().insert(
                id@,
                TaskView {
                    status: DownloadStatus::Failed,
                    error: Some(error@),
                    ..old(self).tasks_view()[id@]
                },
            ),
            !old(self).tasks_view().contains_key(id@) ==> final(self).tasks_view() == old(
                self,
            ).tasks_view(),
            final(self).task_order() == old(self).task_order(),
            final(self).processes_view() == old(self).processes_view(),
            final(self).gate_active() == old(self).gate_active(),
            final(self).gate_limit() == old(self).gate_limit(),
    {
        self.tasks.set_error(id, error);
    }

    /// Attaches resolved metadata; a missing id changes nothing.
    pub fn update_task_video_info(&mut self, id: &str, info: VideoInfo)
        requires
            old(self).wf(),
        ensures
            final(self).wf(),
            old(self).tasks_view().contains_key(id@) ==> final(self).tasks_view() == old(
                self,
            ).tasks_view().insert(
                id@,
                TaskView { video_info: Some(info@), ..old(self).tasks_view()[id@] },
            ),
            !old(self).tasks_view().contains_key(id@) ==> final(self).tasks_view() == old(
                self,
            ).tasks_view(),
            final(self).task_order() == old(self).task_order(),
            final(self).processes_view() == old(self).processes_view(),
            final(self).gate_active() == old(self).gate_active(),
            final(self).gate_limit() == old(self).gate_limit(),
    {
        self.tasks.set_video_info(id, info);
    }

    /// Cancels a task: atomically removes and returns its registry
    /// entry — the caller must kill that process — and forces the
    /// status to Cancelled. With no registered process this is a no-op
    /// aside from forcing the status.
    pub fn cancel_download(&mut self, id: &str) -> (pid: Option<u32>)
        requires
            old(self).wf(),
        ensures
            final(self).wf(),
            pid == if old(self).processes_view().contains_key(id@) {
                Some(old(self).processes_view()[id@])
            } else {
                None::<u32>
            },
            final(self).processes_view() == old(self).processes_view().remove(id@),
            old(self).tasks_view().contains_key(id@) ==> final(self).tasks_view() == old(
                self,
            ).tasks_view().insert(
                id@,
                TaskView { status: DownloadStatus::Cancelled, ..old(self).tasks_view()[id@] },
            ),
            !old(self).tasks_view().contains_key(id@) ==> final(self).tasks_view() == old(
                self,
            ).tasks_view(),
            final(self).task_order() == old(self).task_order(),
            final(self).gate_active() == old(self).gate_active(),
            final(self).gate_limit() == old(self).gate_limit(),
    {
        let pid = self.processes.take(id);
        self.tasks.set_status(id, DownloadStatus::Cancelled);
        proof {
            lemma_registry_remove_bounded(old(self).processes_view(), id@, self.gate.active());
        }
        pid
    }

    /// Pauses a task: the same mechanism as cancelling, but the status
    /// is forced to Paused, so that a later start may resume it.
    pub fn pause_download(&mut self, id: &str) -> (pid: Option<u32>)
        requires
            old(self).wf(),
        ensures
            final(self).wf(),
            pid == if old(self).processes_view().contains_key(id@) {
                Some(old(self).processes_view()[id@])
            } else {
                None::<u32>
            },
            final(self).processes_view() == old(self).processes_view().remove(id@),
            old(self).tasks_view().contains_key(id@) ==> final(self).tasks_view() == old(
                self,
            ).tasks_view().insert(
                id@,
                TaskView { status: DownloadStatus::Paused, ..old(self).tasks_view()[id@] },
            ),
            !old(self).tasks_view().contains_key(id@) ==> final(self).tasks_view() == old(
                self,
            ).tasks_view(),
            final(self).task_order() == old(self).task_order(),
            final(self).gate_active() == old(self).gate_active(),
            final(self).gate_limit() == old(self).gate_limit(),
    {
        let pid = self.processes.take(id);
        self.tasks.set_status(id, DownloadStatus::Paused);
        proof {
            lemma_registry_remove_bounded(old(self).processes_view(), id@, self.gate.active());
        }
        pid
    }

    /// Removes a task: first cancels it — returning any process the
    /// caller must kill — then erases the record, so that no orphaned
    /// record remains.
    pub fn remove_task(&mut self, id: &str) -> (pid: Option<u32>)
        requires
            old(self).wf(),
        ensures
            final(self).wf(),
            pid == if old(self).processes_view().contains_key(id@) {
                Some(old(self).processes_view()[id@])
            } else {
                None::<u32>
            },
            final(self).processes_view() == old(self).processes_view().remove(id@),
            final(self).tasks_view() == old(self).tasks_view().remove(id@),
            !final(self).tasks_view().contains_key(id@),
            !final(self).processes_view().contains_key(id@),
            final(self).task_order() == old(self).task_order().remove_value(id@),
            final(self).gate_active() == old(self).gate_active(),
            final(self).gate_limit() == old(self).gate_limit(),
    {
        let pid = self.cancel_download(id);
        self.tasks.remove(id);
        proof {
            assert(final(self).tasks_view() =~= old(self).tasks_view().remove(id@));
        }
        pid
    }

    /// Removes every record whose status is final (Completed or
    /// Failed), leaving all others — Paused and Cancelled included —
    /// untouched, in their order.
    pub fn clear_completed(&mut self)
        requires
            old(self).wf(),
        ensures
            final(self).wf(),
            forall|k: Seq<char>|
                #[trigger] final(self).tasks_view().contains_key(k) <==> (old(
                    self,
                ).tasks_view().contains_key(k) && !old(self).tasks_view()[k].status.is_terminal()),
            forall|k: Seq<char>|
                #[trigger] final(self).tasks_view().contains_key(k) ==> final(self).tasks_view()[k]
                    == old(self).tasks_view()[k],
            final(self).task_order() == old(self).task_order().filter(
                |k: Seq<char>| !old(self).tasks_view()[k].status.is_terminal(),
            ),
            final(self).processes_view() == old(self).processes_view(),
            final(self).gate_active() == old(self).gate_active(),
            final(self).gate_limit() == old(self).gate_limit(),
    {
        self.tasks.clear_completed();
    }

    /// How many worker permits are out.
    pub fn active_workers(&self) -> (r: u32)
        ensures
            r == self.gate_active(),
    {
        self.gate.active_count()
    }

    /// How many processes are registered.
    pub fn registered_processes(&self) -> (r: usize)
        ensures
            r == self.processes_view().len(),
    {
        self.processes.count()
    }

    /// Asks for a worker permit; grants it exactly when fewer than the
    /// limit are out. A worker that must wait calls this again.
    pub fn try_acquire_worker(&mut self) -> (granted: bool)
        requires
            old(self).wf(),
        ensures
            final(self).wf(),
            final(self).gate_limit() == old(self).gate_limit(),
            (granted <==> old(self).gate_active() < old(self).gate_limit()),
            final(self).gate_active() == if granted {
                old(self).gate_active() + 1
            } else {
                old(self).gate_active() as int
            },
            final(self).tasks_view() == old(self).tasks_view(),
            final(self).task_order() == old(self).task_order(),
            final(self).processes_view() == old(self).processes_view(),
    {
        self.gate.try_acquire()
    }

    /// Gives a worker permit back, on every exit path of a run. The
    /// worker must have deregistered its process first.
    pub fn release_worker(&mut self)
        requires
            old(self).wf(),
            old(self).processes_view().dom().len() < old(self).gate_active(),
        ensures
            final(self).wf(),
            final(self).gate_limit() == old(self).gate_limit(),
            final(self).gate_active() == old(self).gate_active() - 1,
            final(self).tasks_view() == old(self).tasks_view(),
            final(self).task_order() == old(self).task_order(),
            final(self).processes_view() == old(self).processes_view(),
    {
        self.gate.release()
    }

    /// Moves the task into Downloading when a run starts. The task must
    /// currently be startable: Pending at first, or Paused or Cancelled
    /// for an explicit restart.
    pub fn mark_downloading(&mut self, id: &str)
        requires
            old(self).wf(),
            old(self).tasks_view().contains_key(id@) ==> {
                let st = old(self).tasks_view()[id@].status;
                st == DownloadStatus::Pending || st == DownloadStatus::Paused || st
                    == DownloadStatus::Cancelled
            },
        ensures
            final(self).wf(),
            old(self).tasks_view().contains_key(id@) ==> final(self).tasks_view() == old(
                self,
            ).tasks_view().insert(
                id@,
                TaskView {
                    status: DownloadStatus::Downloading,
                    ..old(self).tasks_view()[id@]
                },
            ),
            old(self).tasks_view().contains_key(id@) ==> transition_allowed(
                old(self).tasks_view()[id@].status,
                DownloadStatus::Downloading,
            ),
            !old(self).tasks_view().contains_key(id@) ==> final(self).tasks_view() == old(
                self,
            ).tasks_view(),
            final(self).task_order() == old(self).task_order(),
            final(self).processes_view() == old(self).processes_view(),
            final(self).gate_active() == old(self).gate_active(),
            final(self).gate_limit() == old(self).gate_limit(),
    {
        self.tasks.set_status(id, DownloadStatus::Downloading);
    }

    /// Starts a run for the task, once the worker holds a permit: moves
    /// the task into Downloading and returns the engine's argument list,
    /// built from the task's stored URL and quality selector, the output
    /// directory, and what the caller observed on disk at this moment
    /// (converter, cookie file, accelerator). A missing task id starts
    /// nothing.
    pub fn start_download(
        &mut self,
        task_id: &str,
        download_dir: &str,
        ffmpeg_path: Option<String>,
        use_cookies: bool,
        cookies_path: &str,
        use_accelerator: bool,
    ) -> (r: Option<Vec<String>>)
        requires
            old(self).wf(),
            old(self).tasks_view().contains_key(task_id@) ==> {
                let st = old(self).tasks_view()[task_id@].status;
                st == DownloadStatus::Pending || st == DownloadStatus::Paused || st
                    == DownloadStatus::Cancelled
            },
        ensures
            final(self).wf(),
            final(self).task_order() == old(self).task_order(),
            final(self).processes_view() == old(self).processes_view(),
            final(self).gate_active() == old(self).gate_active(),
            final(self).gate_limit() == old(self).gate_limit(),
            !old(self).tasks_view().contains_key(task_id@) ==> (r is None) && final(self).tasks_view() == old(self).tasks_view(),
            old(self).tasks_view().contains_key(task_id@) ==> final(self).tasks_view() == old(
                self,
            ).tasks_view().insert(
                task_id@,
                TaskView {
                    status: DownloadStatus::Downloading,
                    ..old(self).tasks_view()[task_id@]
                },
            ) && match r {
                Some(args) => args.deep_view() == engine_args_spec(
                    old(self).tasks_view()[task_id@].url,
                    old(self).tasks_view()[task_id@].resolution,
                    download_dir@ + "/"@ + "%(title)s.%(ext)s"@,
                    download_dir@ + "/"@ + "."@ + task_id@,
                    ffmpeg_path.deep_view(),
                    use_cookies,
                    cookies_path@,
                    use_accelerator,
                ),
                None => false,
            },
    {
        let task = match self.tasks.get(task_id) {
            Some(t) => t,
            None => {
                return None;
            },
        };
        self.tasks.set_status(task_id, DownloadStatus::Downloading);
        let output_template = crate::strutil::path_join(download_dir, "%(title)s.%(ext)s");
        let dotted = ".".to_owned().concat(task_id);
        let info_json_template = crate::strutil::path_join(download_dir, dotted.as_str());
        proof {
            assert(info_json_template@ =~= download_dir@ + "/"@ + "."@ + task_id@);
        }
        let args = engine_args(
            task.url.as_str(),
            task.resolution.as_str(),
            output_template.as_str(),
            info_json_template.as_str(),
            ffmpeg_path,
            use_cookies,
            cookies_path,
            use_accelerator,
        );
        Some(args)
    }

    /// Records the process spawned for a task, before any blocking read
    /// begins, so a concurrent cancel or pause can always find it. The
    /// worker holds a permit, so the registry stays within the permits
    /// out.
    pub fn register_process(&mut self, id: &str, pid: u32)
        requires
            old(self).wf(),
            old(self).processes_view().dom().len() < old(self).gate_active(),
        ensures
            final(self).wf(),
            final(self).processes_view() == old(self).processes_view().insert(id@, pid),
            final(self).tasks_view() == old(self).tasks_view(),
            final(self).task_order() == old(self).task_order(),
            final(self).gate_active() == old(self).gate_active(),
            final(self).gate_limit() == old(self).gate_limit(),
    {
        self.processes.register(id, pid);
        proof {
            lemma_registry_insert_bounded(
                old(self).processes_view(),
                id@,
                pid,
                self.gate.active(),
            );
        }
    }

    /// Drops the task's registry entry, if any; used on every exit path
    /// once the process has ended, and idempotent.
    pub fn deregister_process(&mut self, id: &str)
        requires
            old(self).wf(),
        ensures
            final(self).wf(),
            final(self).processes_view() == old(self).processes_view().remove(id@),
            final(self).tasks_view() == old(self).tasks_view(),
            final(self).task_order() == old(self).task_order(),
            final(self).gate_active() == old(self).gate_active(),
            final(self).gate_limit() == old(self).gate_limit(),
    {
        self.processes.deregister(id);
        proof {
            lemma_registry_remove_bounded(old(self).processes_view(), id@, self.gate.active());
        }
    }

    /// Interprets one line of engine output against the stored state.
    /// An already-downloaded signal forces progress to exactly 100 and
    /// status to Completed; a percentage updates progress together with
    /// what the line says about speed and remaining time; any other
    /// line changes nothing. The returned event, if any, is what the
    /// notification sink should receive.
    pub fn apply_output_line(&mut self, id: &str, line: &str) -> (ev: Option<
        DownloadProgressEvent,
    >)
        requires
            old(self).wf(),
        ensures
            final(self).wf(),
            final(self).task_order() == old(self).task_order(),
            final(self).processes_view() == old(self).processes_view(),
            final(self).gate_active() == old(self).gate_active(),
            final(self).gate_limit() == old(self).gate_limit(),
            already_signal(line@) ==> {
                &&& old(self).tasks_view().contains_key(id@) ==> final(self).tasks_view() == old(
                    self,
                ).tasks_view().insert(
                    id@,
                    TaskView {
                        status: DownloadStatus::Completed,
                        progress: 100,
                        ..old(self).tasks_view()[id@]
                    },
                )
                &&& !old(self).tasks_view().contains_key(id@) ==> final(self).tasks_view() == old(
                    self,
                ).tasks_view()
                &&& ev matches Some(e) && e.task_id@ == id@ && e.progress == 100 && e.status
                    == DownloadStatus::Completed && e.speed is None && e.eta.deep_view() == Some(
                    "Already downloaded"@,
                )
            },
            !already_signal(line@) && percent_value(line@) is Some ==> {
                let p = percent_value(line@)->Some_0;
                &&& old(self).tasks_view().contains_key(id@) ==> final(self).tasks_view() == old(
                    self,
                ).tasks_view().insert(
                    id@,
                    TaskView {
                        progress: p,
                        speed: speed_capture(line@),
                        eta: eta_capture(line@),
                        ..old(self).tasks_view()[id@]
                    },
                )
                &&& !old(self).tasks_view().contains_key(id@) ==> final(self).tasks_view() == old(
                    self,
                ).tasks_view()
                &&& ev matches Some(e) && e.task_id@ == id@ && e.progress == p && e.status
                    == DownloadStatus::Downloading && e.speed.deep_view() == speed_capture(line@)
                    && e.eta.deep_view() == eta_capture(line@)
            },
            !already_signal(line@) && percent_value(line@) is None ==> final(self).tasks_view()
                == old(self).tasks_view() && ev is None,
    {
        if line_signals_already(line) {
            self.tasks.set_status_progress(id, DownloadStatus::Completed, 100);
            Some(
                DownloadProgressEvent {
                    task_id: id.to_owned(),
                    progress: 100,
                    speed: None,
                    eta: Some("Already downloaded".to_owned()),
                    status: DownloadStatus::Completed,
                    downloaded_bytes: None,
                    total_bytes: None,
                },
            )
        } else {
            match line_percent(line) {
                Some(p) => {
                    let speed = line_speed(line);
                    let eta = line_eta(line);
                    let ghost sv = speed.deep_view();
                    let ghost ev_ = eta.deep_view();
                    let speed2 = crate::models::clone_opt_string(&speed);
                    let eta2 = crate::models::clone_opt_string(&eta);
                    proof {
                        crate::progress::lemma_percent_value_bounded(line@);
                    }
                    self.tasks.set_progress(id, p, speed, eta);
                    Some(
                        DownloadProgressEvent {
                            task_id: id.to_owned(),
                            progress: p,
                            speed: speed2,
                            eta: eta2,
                            status: DownloadStatus::Downloading,
                            downloaded_bytes: None,
                            total_bytes: None,
                        },
                    )
                },
                None => None,
            }
        }
    }

    /// Merges the side file's metadata into the task, once per run: the
    /// caller passes the file's text the first time it appears and
    /// stops once this returns true.
    pub fn hydrate_video_info(&mut self, id: &str, content: &str) -> (loaded: bool)
        requires
            old(self).wf(),
        ensures
            final(self).wf(),
            final(self).task_order() == old(self).task_order(),
            final(self).processes_view() == old(self).processes_view(),
            final(self).gate_active() == old(self).gate_active(),
            final(self).gate_limit() == old(self).gate_limit(),
            loaded <==> info_fields_of(content@) is Some,
            !loaded ==> final(self).tasks_view() == old(self).tasks_view(),
            loaded && old(self).tasks_view().contains_key(id@) ==> final(self).tasks_view() == old(
                self,
            ).tasks_view().insert(
                id@,
                TaskView {
                    video_info: Some(hydrated_info(info_fields_of(content@)->Some_0)),
                    ..old(self).tasks_view()[id@]
                },
            ),
            loaded && !old(self).tasks_view().contains_key(id@) ==> final(self).tasks_view()
                == old(self).tasks_view(),
    {
        match parse_info_fields(content) {
            Some(f) => {
                let info = video_info_from_fields(f);
                proof {
                    assert(info@ =~= hydrated_info(info_fields_of(content@)->Some_0));
                }
                self.tasks.set_video_info(id, info);
                true
            },
            None => false,
        }
    }

    /// Resolves a run whose process has exited, checking the stored
    /// status first: a concurrently set Paused or Cancelled is kept; a
    /// successful exit completes the task at progress 100; a failing
    /// one marks it Failed with a generic message. On every path the
    /// registry entry is dropped. The returned event is what the sink
    /// should receive.
    pub fn finish_download(&mut self, id: &str, exit_ok: bool) -> (ev: DownloadProgressEvent)
        requires
            old(self).wf(),
        ensures
            final(self).wf(),
            final(self).processes_view() == old(self).processes_view().remove(id@),
            final(self).task_order() == old(self).task_order(),
            final(self).gate_active() == old(self).gate_active(),
            final(self).gate_limit() == old(self).gate_limit(),
            ev.task_id@ == id@,
            ({
                let was = old(self).tasks_view();
                let kept = was.contains_key(id@) && (was[id@].status == DownloadStatus::Paused
                    || was[id@].status == DownloadStatus::Cancelled);
                &&& kept ==> final(self).tasks_view() == was && ev.status == was[id@].status
                    && ev.progress == was[id@].progress
                &&& !kept && exit_ok ==> (was.contains_key(id@) ==> final(self).tasks_view()
                    == was.insert(
                    id@,
                    TaskView {
                        status: DownloadStatus::Completed,
                        progress: 100,
                        ..was[id@]
                    },
                )) && (!was.contains_key(id@) ==> final(self).tasks_view() == was) && ev.status
                    == DownloadStatus::Completed && ev.progress == 100
                &&& !kept && !exit_ok ==> (was.contains_key(id@) ==> final(self).tasks_view()
                    == was.insert(
                    id@,
                    TaskView {
                        status: DownloadStatus::Failed,
                        error: Some("Download failed"@),
                        ..was[id@]
                    },
                )) && (!was.contains_key(id@) ==> final(self).tasks_view() == was) && ev.status
                    == DownloadStatus::Failed && ev.progress == 0
            }),
    {
        self.processes.deregister(id);
        proof {
            lemma_registry_remove_bounded(old(self).processes_view(), id@, self.gate.active());
        }
        let current = self.tasks.get(id);
        let kept: Option<(DownloadStatus, u32)> = match &current {
            Some(t) => {
                if t.status == DownloadStatus::Paused || t.status == DownloadStatus::Cancelled {
                    Some((t.status, t.progress))
                } else {
                    None
                }
            },
            None => None,
        };
        match kept {
            Some((st, prog)) => DownloadProgressEvent {
                task_id: id.to_owned(),
                progress: prog,
                speed: None,
                eta: None,
                status: st,
                downloaded_bytes: None,
                total_bytes: None,
            },
            None => {
                if exit_ok {
                    self.tasks.set_status_progress(id, DownloadStatus::Completed, 100);
                    DownloadProgressEvent {
                        task_id: id.to_owned(),
                        progress: 100,
                        speed: None,
                        eta: None,
                        status: DownloadStatus::Completed,
                        downloaded_bytes: None,
                        total_bytes: None,
                    }
                } else {
                    self.tasks.set_error(id, "Download failed".to_owned());
                    DownloadProgressEvent {
                        task_id: id.to_owned(),
                        progress: 0,
                        speed: None,
                        eta: None,
                        status: DownloadStatus::Failed,
                        downloaded_bytes: None,
                        total_bytes: None,
                    }
                }
            },
        }
    }

    /// Resolves a run whose process could not be awaited: the registry
    /// entry is dropped, a concurrently set Paused or Cancelled status
    /// is kept, and otherwise the task is marked Failed with the given
    /// message.
    pub fn abort_download(&mut self, id: &str, error: String)
        requires
            old(self).wf(),
        ensures
            final(self).wf(),
            final(self).processes_view() == old(self).processes_view().remove(id@),
            final(self).task_order() == old(self).task_order(),
            final(self).gate_active() == old(self).gate_active(),
            final(self).gate_limit() == old(self).gate_limit(),
            ({
                let was = old(self).tasks_view();
                let kept = was.contains_key(id@) && (was[id@].status == DownloadStatus::Paused
                    || was[id@].status == DownloadStatus::Cancelled);
                &&& kept ==> final(self).tasks_view() == was
                &&& !kept ==> (was.contains_key(id@) ==> final(self).tasks_view() == was.insert(
                    id@,
                    TaskView {
                        status: DownloadStatus::Failed,
                        error: Some(error@),
                        ..was[id@]
                    },
                )) && (!was.contains_key(id@) ==> final(self).tasks_view() == was)
            }),
    {
        self.processes.deregister(id);
        proof {
            lemma_registry_remove_bounded(old(self).processes_view(), id@, self.gate.active());
        }
        let keep = match self.tasks.get(id) {
            Some(t) => t.status == DownloadStatus::Paused || t.status == DownloadStatus::Cancelled,
            None => false,
        };
        if !keep {
            self.tasks.set_error(id, error);
        }
    }
}

/// The metadata view a side file hydrates a task with.
pub open spec fn hydrated_info(
    f: (
        Option<Seq<char>>,
        Option<Seq<char>>,
        Option<Seq<char>>,
        Option<u64>,
        Option<Seq<char>>,
        Option<Seq<char>>,
        Option<Seq<char>>,
        Option<u64>,
    ),
) -> crate::models::VideoInfoView {
    crate::models::VideoInfoView {
        id: match f.0 {
            Some(s) => s,
            None => "unknown"@,
        },
        url: match f.1 {
            Some(s) => s,
            None => Seq::<char>::empty(),
        },
        title: match f.2 {
            Some(s) => s,
            None => "Unknown Title"@,
        },
        duration: f.3,
        duration_string: f.4,
        thumbnail: f.5,
        uploader: f.6,
        view_count: f.7,
        formats: Seq::empty(),
        playlist_index: None,
        playlist_count: None,
    }
}

/// Removing a registry entry keeps the registered count within the
/// permits out.
proof fn lemma_registry_remove_bounded(m: Map<Seq<char>, u32>, k: Seq<char>, active: u32)
    requires
        m.dom().finite(),
        m.dom().len() <= active,
    ensures
        m.remove(k).dom().finite(),
        m.remove(k).dom().len() <= active,
{
    assert(m.remove(k).dom() =~= m.dom().remove(k));
    if m.dom().contains(k) {
        assert(m.dom().remove(k).len() == m.dom().len() - 1);
    } else {
        assert(m.dom().remove(k) =~= m.dom());
    }
}

/// Inserting a registry entry under a held permit keeps the registered
/// count within the permits out.
proof fn lemma_registry_insert_bounded(m: Map<Seq<char>, u32>, k: Seq<char>, pid: u32, active: u32)
    requires
        m.dom().finite(),
        m.dom().len() < active,
    ensures
        m.insert(k, pid).dom().finite(),
        m.insert(k, pid).dom().len() <= active,
{
    assert(m.insert(k, pid).dom() =~= m.dom().insert(k));
    if m.dom().contains(k) {
        assert(m.dom().insert(k) =~= m.dom());
    } else {
        assert(m.dom().insert(k).len() == m.dom().len() + 1);
    }
}

/// Every move the manager's lifecycle operations make on a task's
/// status is an edge of the transition graph: a start moves Pending,
/// Paused or Cancelled to Downloading; a resolved run moves Downloading
/// to Completed or Failed; a control call moves Downloading to Paused
/// or Cancelled; and the already-downloaded signal moves Downloading to
/// Completed.
pub proof fn lemma_transitions_follow_graph(from: DownloadStatus, to: DownloadStatus)
    requires
        ({
            ||| ((from == DownloadStatus::Pending || from == DownloadStatus::Paused || from
                == DownloadStatus::Cancelled) && to == DownloadStatus::Downloading)
            ||| (from == DownloadStatus::Downloading && (to == DownloadStatus::Completed || to
                == DownloadStatus::Failed || to == DownloadStatus::Paused || to
                == DownloadStatus::Cancelled))
        }),
    ensures
        transition_allowed(from, to),
{
}

/// Progress is always within the percent range: every stored task's
/// progress lies in 0..=100, at every state the manager can be in.
pub proof fn lemma_progress_in_range(m: &DownloadManager, k: Seq<char>)
    requires
        m.wf(),
        m.tasks_view().contains_key(k),
    ensures
        0 <= m.tasks_view()[k].progress <= 100,
{
}

/// With the concurrency limit respected by the permits out, no more
/// processes are registered than the limit allows: each registered
/// process is covered by a permit, and permits never exceed the limit
/// while it stands.
pub proof fn lemma_registered_within_limit(m: &DownloadManager)
    requires
        m.wf(),
        m.gate_active() <= m.gate_limit(),
    ensures
        m.processes_view().dom().len() <= m.gate_limit(),
{
}

} // verus!
