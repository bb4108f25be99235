//! Setting the configuration up, and reading its parts.

use crate::config::data::{
    appid_default, BackupRecover, Config, ConfigView, Proxy, Reading, Sync, UI,
};
use vstd::prelude::*;

verus! {

/// The directories of an application.
#[derive(Debug, PartialEq, Eq)]
pub struct AppDirs {
    pub config_dir: String,
    pub data_dir: String,
}

/// A file or directory below a directory.
pub open spec fn below(dir: Seq<char>, name: Seq<char>) -> Seq<char> {
    dir + seq!['/'] + name
}

/// The path of a file or directory below a directory.
fn path_below(dir: &str, name: &str) -> (r: String)
    ensures
        r@ == below(dir@, name@),
{
    let mut r = dir.to_string();
    proof {
        reveal_strlit("/");
        assert("/"@ =~= seq!['/']);
    }
    r.append("/");
    r.append(name);
    r
}

impl AppDirs {
    /// The directories of the application of a given name, below
    /// `/data/data`. Without a name there are none.
    pub fn new(name: Option<&str>, _create: bool) -> (r: Option<AppDirs>)
        ensures
            match name {
                None => r is None,
                Some(n) => r is Some && r->0.config_dir@ == below(
                    below("/data/data"@, n@),
                    "config"@,
                ) && r->0.data_dir@ == below(below("/data/data"@, n@), "data"@),
            },
    {
        match name {
            None => None,
            Some(n) => {
                let root = path_below("/data/data", n);
                Some(
                    AppDirs {
                        config_dir: path_below(root.as_str(), "config"),
                        data_dir: path_below(root.as_str(), "data"),
                    },
                )
            },
        }
    }
}

/// The configuration as it is placed in the directories of the application:
/// the database, the settings file and the cache directory get their paths.
pub open spec fn placed(c: ConfigView, config_dir: Seq<char>, data_dir: Seq<char>) -> ConfigView {
    ConfigView {
        db_path: below(data_dir, "rssbox.db"@),
        config_path: below(config_dir, "rssbox.toml"@),
        cache_dir: below(data_dir, "cache"@),
        ..c
    }
}

/// The configuration with what a settings file holds, or marked as a first
/// run where there is no usable file.
pub open spec fn loaded(c: ConfigView, file: Option<ConfigView>) -> ConfigView {
    match file {
        Some(f) => ConfigView {
            appid: f.appid,
            ui: f.ui,
            reading: f.reading,
            proxy: f.proxy,
            sync: f.sync,
            backup_recover: f.backup_recover,
            ..c
        },
        None => ConfigView { is_first_run: true, ..c },
    }
}

/// The view of an optional configuration.
pub open spec fn file_view(file: Option<Config>) -> Option<ConfigView> {
    match file {
        Some(f) => Some(f@),
        None => None,
    }
}

impl Config {
    /// Places the configuration in the directories of the application, and
    /// gives an installation without identity a fresh one.
    pub fn init_config(&mut self, app_dirs: &AppDirs)
        ensures
            final(self)@ == (ConfigView {
                appid: final(self)@.appid,
                ..placed(old(self)@, app_dirs.config_dir@, app_dirs.data_dir@)
            }),
            old(self)@.appid.len() > 0 ==> final(self)@.appid == old(self)@.appid,
            final(self)@.appid.len() > 0,
    {
        self.db_path = path_below(app_dirs.data_dir.as_str(), "rssbox.db");
        self.config_path = path_below(app_dirs.config_dir.as_str(), "rssbox.toml");
        self.cache_dir = path_below(app_dirs.data_dir.as_str(), "cache");
        if self.appid.as_str().is_empty() {
            self.appid = appid_default();
        }
    }

    /// Takes over what the settings file holds. `file` is what was read
    /// from it, or `None` where there is no file or it cannot be read as
    /// settings: then this is a first run, and the result says that the
    /// settings have to be written.
    pub fn load(&mut self, file: Option<Config>) -> (write: bool)
        ensures
            final(self)@ == loaded(old(self)@, file_view(file)),
            write == (file is None),
    {
        match file {
            Some(c) => {
                self.appid = c.appid;
                self.ui = c.ui;
                self.reading = c.reading;
                self.proxy = c.proxy;
                self.sync = c.sync;
                self.backup_recover = c.backup_recover;
                false
            },
            None => {
                self.is_first_run = true;
                true
            },
        }
    }

    /// Sets the configuration up: places it in the directories of the
    /// application and takes over what the settings file holds. The
    /// result says whether the settings have to be written.
    pub fn init(&mut self, app_dirs: &AppDirs, file: Option<Config>) -> (write: bool)
        ensures
            write == (file is None),
            final(self)@ == (ConfigView {
                appid: final(self)@.appid,
                ..loaded(
                    placed(old(self)@, app_dirs.config_dir@, app_dirs.data_dir@),
                    file_view(file),
                )
            }),
            file is Some ==> final(self)@.appid == file->0@.appid,
            file is None ==> final(self)@.appid.len() > 0,
            file is None && old(self)@.appid.len() > 0 ==> final(self)@.appid == old(self)@.appid,
    {
        self.init_config(app_dirs);
        self.load(file)
    }

    /// What has to be written to the settings file: the configuration
    /// itself.
    pub fn save(&self) -> (r: Config)
        ensures
            r@ == self@,
    {
        self.clone()
    }
}

/// Sets the configuration up. See [`Config::init`].
pub fn init(config: &mut Config, app_dirs: &AppDirs, file: Option<Config>) -> (write: bool)
    ensures
        write == (file is None),
        final(config)@ == (ConfigView {
            appid: final(config)@.appid,
            ..loaded(
                placed(old(config)@, app_dirs.config_dir@, app_dirs.data_dir@),
                file_view(file),
            )
        }),
        file is Some ==> final(config)@.appid == file->0@.appid,
        file is None ==> final(config)@.appid.len() > 0,
        file is None && old(config)@.appid.len() > 0 ==> final(config)@.appid == old(config)@.appid,
{
    config.init(app_dirs, file)
}

/// The identity of the installation.
pub fn appid(config: &Config) -> (r: String)
    ensures
        r@ == config@.appid,
{
    config.appid.clone()
}

/// Whether this run found no usable settings file.
pub fn is_first_run(config: &Config) -> (r: bool)
    ensures
        r == config@.is_first_run,
{
    config.is_first_run
}

/// A copy of the whole configuration.
pub fn all(config: &Config) -> (r: Config)
    ensures
        r@ == config@,
{
    config.clone()
}

/// The configuration replaced by another, but for what belongs to the
/// running process: the three paths and the first-run mark stay.
pub open spec fn after_reset(c: ConfigView, conf: ConfigView) -> ConfigView {
    ConfigView {
        config_path: c.config_path,
        db_path: c.db_path,
        cache_dir: c.cache_dir,
        is_first_run: c.is_first_run,
        ..conf
    }
}

/// Replaces the configuration by another one, such as one recovered from a
/// backup. The paths and the first-run mark of the running process stay.
pub fn reset(config: &mut Config, conf: Config)
    ensures
        final(config)@ == after_reset(old(config)@, conf@),
{
    let mut conf = conf;
    conf.config_path = config.config_path.clone();
    conf.db_path = config.db_path.clone();
    conf.cache_dir = config.cache_dir.clone();
    conf.is_first_run = config.is_first_run;
    *config = conf;
}

/// How the application looks.
pub fn ui(config: &Config) -> (r: UI)
    ensures
        r@ == config@.ui,
{
    config.ui.clone()
}

/// How entries are read.
pub fn reading(config: &Config) -> (r: Reading)
    ensures
        r@ == config@.reading,
{
    config.reading.clone()
}

/// Where the proxies are.
pub fn proxy(config: &Config) -> (r: Proxy)
    ensures
        r@ == config@.proxy,
{
    config.proxy.clone()
}

/// When and how the subscriptions are synced.
pub fn sync(config: &Config) -> (r: Sync)
    ensures
        r == config@.sync,
{
    config.sync
}

/// What a backup holds.
pub fn backup_recover(config: &Config) -> (r: BackupRecover)
    ensures
        r@ == config@.backup_recover,
{
    config.backup_recover.clone()
}

/// Where the database lies.
pub fn db_path(config: &Config) -> (r: String)
    ensures
        r@ == config@.db_path,
{
    config.db_path.clone()
}

/// Where cached files lie.
pub fn cache_dir(config: &Config) -> (r: String)
    ensures
        r@ == config@.cache_dir,
{
    config.cache_dir.clone()
}

/// Replaces the whole configuration.
pub fn save(config: &mut Config, conf: Config)
    ensures
        final(config)@ == conf@,
{
    *config = conf;
}

} // verus!
