//! Settings bookkeeping: the in-memory copy of the application
//! settings and the paths they live under. Reading and writing the
//! settings file happens outside; the stored values come in and go out
//! as plain data.

use vstd::prelude::*;

use crate::models::AppSettings;
use crate::strutil::path_join;

verus! {

pub struct SettingsManager {
    settings: AppSettings,
    config_path: String,
    app_data_dir: String,
}

impl SettingsManager {
    pub closed spec fn settings(&self) -> AppSettings {
        self.settings
    }

    pub closed spec fn config_path(&self) -> Seq<char> {
        self.config_path@
    }

    pub closed spec fn data_dir(&self) -> Seq<char> {
        self.app_data_dir@
    }

    /// A manager over the application data directory, holding the
    /// settings loaded from the stored file, or the defaults — with the
    /// platform's download folder — when none were stored.
    pub fn new(
        app_data_dir: String,
        loaded: Option<AppSettings>,
        default_download_dir: String,
    ) -> (r: Self)
        ensures
            r.config_path() == app_data_dir@ + "/"@ + "settings.json"@,
            r.data_dir() == app_data_dir@,
            match loaded {
                Some(s) => r.settings() == s,
                None => {
                    &&& r.settings().default_resolution@ == "1080p"@
                    &&& r.settings().default_concurrent == 3
                    &&& r.settings().download_dir == default_download_dir
                    &&& !r.settings().use_app_login
                    &&& r.settings().login_time is None
                    &&& r.settings().auth_method@ == "browser"@
                    &&& r.settings().cookies_browser@ == "chrome"@
                    &&& r.settings().cookies_profile@ == "Default"@
                    &&& r.settings().avatar_url is None
                },
            },
    {
        let config_path = path_join(app_data_dir.as_str(), "settings.json");
        let settings = match loaded {
            Some(s) => s,
            None => AppSettings::defaults(default_download_dir),
        };
        SettingsManager { settings, config_path, app_data_dir }
    }

    /// An independent copy of the current settings.
    pub fn get(&self) -> (r: AppSettings)
        ensures
            r == self.settings(),
    {
        self.settings.clone()
    }

    pub fn get_app_data_dir(&self) -> (r: String)
        ensures
            r@ == self.data_dir(),
    {
        self.app_data_dir.clone()
    }

    /// Where the settings file lives.
    pub fn get_config_path(&self) -> (r: String)
        ensures
            r@ == self.config_path(),
    {
        self.config_path.clone()
    }

    /// Takes new settings as the current ones; the caller persists
    /// them to the settings file.
    pub fn save(&mut self, settings: AppSettings)
        ensures
            final(self).settings() == settings,
            final(self).config_path() == old(self).config_path(),
            final(self).data_dir() == old(self).data_dir(),
    {
        self.settings = settings;
    }
}

} // verus!
