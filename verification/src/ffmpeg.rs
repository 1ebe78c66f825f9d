//! Bookkeeping for the media converter installation: where its
//! executable lives, whether it is installed and at which version, and
//! whether an install is currently running. Disk and network work
//! happen outside; their observations come in as plain values.

use vstd::prelude::*;

use crate::models::clone_opt_string;
use crate::strutil::path_join;
use crate::version::{output_version_of, version_from_output};

verus! {

/// Status of the converter installation.
pub struct FFmpegStatus {
    pub installed: bool,
    pub path: Option<String>,
    pub version: Option<String>,
    pub is_downloading: bool,
}

impl Clone for FFmpegStatus {
    fn clone(&self) -> (r: Self)
        ensures
            r == *self,
    {
        FFmpegStatus {
            installed: self.installed,
            path: clone_opt_string(&self.path),
            version: clone_opt_string(&self.version),
            is_downloading: self.is_downloading,
        }
    }
}

pub struct FFmpegManager {
    tools_dir: String,
    status: FFmpegStatus,
}

impl FFmpegManager {
    pub closed spec fn tools_dir(&self) -> Seq<char> {
        self.tools_dir@
    }

    pub closed spec fn status(&self) -> FFmpegStatus {
        self.status
    }

    /// A manager for the tools directory under the application data
    /// directory, initially with nothing observed as installed.
    pub fn new(app_data_dir: &str) -> (r: Self)
        ensures
            r.tools_dir() == app_data_dir@ + "/"@ + "tools"@,
            !r.status().installed,
            r.status().path is None,
            r.status().version is None,
            !r.status().is_downloading,
    {
        FFmpegManager {
            tools_dir: path_join(app_data_dir, "tools"),
            status: FFmpegStatus {
                installed: false,
                path: None,
                version: None,
                is_downloading: false,
            },
        }
    }

    /// Where the converter executable is expected.
    pub fn get_exe_path(&self) -> (r: String)
        ensures
            r@ == self.tools_dir() + "/"@ + "ffmpeg.exe"@,
    {
        path_join(self.tools_dir.as_str(), "ffmpeg.exe")
    }

    /// Reconciles the status with what was observed on disk: whether
    /// the executable exists and, if it was run, what its version call
    /// printed. The version is read from the banner's first line.
    pub fn refresh_status(&mut self, exe_exists: bool, version_output: Option<String>)
        ensures
            final(self).tools_dir() == old(self).tools_dir(),
            final(self).status().installed == exe_exists,
            final(self).status().version.deep_view() == (if exe_exists {
                match version_output.deep_view() {
                    Some(out) => output_version_of(out),
                    None => None::<Seq<char>>,
                }
            } else {
                None::<Seq<char>>
            }),
            final(self).status().path.deep_view() == (if exe_exists {
                Some(old(self).tools_dir() + "/"@ + "ffmpeg.exe"@)
            } else {
                None::<Seq<char>>
            }),
            final(self).status().is_downloading == old(self).status().is_downloading,
    {
        let version: Option<String> = if exe_exists {
            match version_output {
                Some(out) => version_from_output(out.as_str()),
                None => None,
            }
        } else {
            None
        };
        let path: Option<String> = if exe_exists {
            Some(self.get_exe_path())
        } else {
            None
        };
        self.status.installed = exe_exists;
        self.status.version = version;
        self.status.path = path;
    }

    /// Claims the single install slot: succeeds exactly when no install
    /// is running, and marks one as running.
    pub fn begin_download(&mut self) -> (ok: bool)
        ensures
            (ok <==> !old(self).status().is_downloading),
            final(self).status().is_downloading,
            final(self).tools_dir() == old(self).tools_dir(),
            final(self).status().installed == old(self).status().installed,
            final(self).status().path == old(self).status().path,
            final(self).status().version == old(self).status().version,
    {
        if self.status.is_downloading {
            false
        } else {
            self.status.is_downloading = true;
            true
        }
    }

    /// Releases the install slot when the install ended, either way.
    pub fn end_download(&mut self)
        ensures
            !final(self).status().is_downloading,
            final(self).tools_dir() == old(self).tools_dir(),
            final(self).status().installed == old(self).status().installed,
            final(self).status().path == old(self).status().path,
            final(self).status().version == old(self).status().version,
    {
        self.status.is_downloading = false;
    }

    pub fn get_status(&self) -> (r: FFmpegStatus)
        ensures
            r == self.status(),
    {
        self.status.clone()
    }

    pub fn is_installed(&self) -> (r: bool)
        ensures
            r == self.status().installed,
    {
        self.status.installed
    }
}

} // verus!
