//! Bookkeeping for the download engine installation: where its
//! executable lives, whether it is installed and at which version, and
//! whether an update is available. Looking at the disk and talking to
//! the network happen outside; their observations come in as plain
//! values.

use vstd::prelude::*;

use crate::models::YtDlpStatus;
use crate::strutil::{path_join, trim_str, trimmed};

verus! {

pub struct YtDlpManager {
    tools_dir: String,
    status: YtDlpStatus,
}

impl YtDlpManager {
    pub closed spec fn tools_dir(&self) -> Seq<char> {
        self.tools_dir@
    }

    pub closed spec fn status(&self) -> YtDlpStatus {
        self.status
    }

    /// A manager for the tools directory under the application data
    /// directory, initially with nothing observed as installed.
    pub fn new(app_data_dir: &str) -> (r: Self)
        ensures
            r.tools_dir() == app_data_dir@ + "/"@ + "tools"@,
            !r.status().installed,
            r.status().version is None,
            r.status().path is None,
            r.status().latest_version is None,
            !r.status().update_available,
    {
        YtDlpManager {
            tools_dir: path_join(app_data_dir, "tools"),
            status: YtDlpStatus {
                installed: false,
                version: None,
                path: None,
                latest_version: None,
                update_available: false,
            },
        }
    }

    /// Where the engine executable is expected.
    pub fn get_exe_path(&self) -> (r: String)
        ensures
            r@ == self.tools_dir() + "/"@ + "yt-dlp.exe"@,
    {
        path_join(self.tools_dir.as_str(), "yt-dlp.exe")
    }

    /// Reconciles the status with what was observed on disk:
    /// whether the executable exists and, if it was run, what its
    /// `--version` call printed. The engine prints the bare version, so
    /// it is taken trimmed.
    pub fn refresh_status(&mut self, exe_exists: bool, version_output: Option<String>)
        ensures
            final(self).tools_dir() == old(self).tools_dir(),
            final(self).status().installed == exe_exists,
            final(self).status().version.deep_view() == (if exe_exists {
                match version_output.deep_view() {
                    Some(out) => Some(trimmed(out)),
                    None => None::<Seq<char>>,
                }
            } else {
                None::<Seq<char>>
            }),
            final(self).status().path.deep_view() == (if exe_exists {
                Some(old(self).tools_dir() + "/"@ + "yt-dlp.exe"@)
            } else {
                None::<Seq<char>>
            }),
            final(self).status().latest_version == old(self).status().latest_version,
            final(self).status().update_available == old(self).status().update_available,
    {
        let version: Option<String> = if exe_exists {
            match version_output {
                Some(out) => Some(trim_str(out.as_str())),
                None => None,
            }
        } else {
            None
        };
        let path: Option<String> = if exe_exists {
            Some(self.get_exe_path())
        } else {
            None
        };
        self.status.installed = exe_exists;
        self.status.version = version;
        self.status.path = path;
    }

    /// Reconciles the status with a release check: the latest published
    /// version, if it could be fetched. An update is available when an
    /// installed version differs from a known latest one; with either
    /// side unknown, exactly when the engine is not installed.
    pub fn apply_update_check(&mut self, latest_version: Option<String>) -> (r: YtDlpStatus)
        ensures
            final(self).tools_dir() == old(self).tools_dir(),
            final(self).status().installed == old(self).status().installed,
            final(self).status().version == old(self).status().version,
            final(self).status().path == old(self).status().path,
            final(self).status().latest_version == latest_version,
            final(self).status().update_available == (match (
                old(self).status().version.deep_view(),
                latest_version.deep_view(),
            ) {
                (Some(cur), Some(latest)) => cur != latest,
                _ => !old(self).status().installed,
            }),
            r == final(self).status(),
    {
        let available = match (&self.status.version, &latest_version) {
            (Some(cur), Some(latest)) => !crate::strutil::str_eq(cur.as_str(), latest.as_str()),
            _ => !self.status.installed,
        };
        self.status.latest_version = latest_version;
        self.status.update_available = available;
        self.status.clone()
    }

    pub fn get_status(&self) -> (r: YtDlpStatus)
        ensures
            r == self.status(),
    {
        self.status.clone()
    }

    pub fn is_installed(&self) -> (r: bool)
        ensures
            r == self.status().installed,
    {
        self.status.installed
    }
}

} // verus!
