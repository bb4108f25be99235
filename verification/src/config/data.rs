//! The settings of the application.

use crate::util::id::new_uuid;
use vstd::prelude::*;

verus! {

/// How the application looks.
#[derive(Debug, PartialEq, Eq)]
pub struct UI {
    pub font_size: u32,
    pub font_family: String,
    pub language: String,
}

/// What the looks hold, as plain values.
pub struct UIView {
    pub font_size: u32,
    pub font_family: Seq<char>,
    pub language: Seq<char>,
}

impl View for UI {
    type V = UIView;

    open spec fn view(&self) -> UIView {
        UIView {
            font_size: self.font_size,
            font_family: self.font_family@,
            language: self.language@,
        }
    }
}

impl Clone for UI {
    fn clone(&self) -> (r: Self)
        ensures
            r@ == self@,
    {
        UI {
            font_size: self.font_size,
            font_family: self.font_family.clone(),
            language: self.language.clone(),
        }
    }
}

impl Default for UI {
    fn default() -> (r: Self)
        ensures
            r@ == (UIView {
                font_size: 16,
                font_family: "SourceHanSerifCN"@,
                language: "cn"@,
            }),
    {
        UI {
            font_size: 16,
            font_family: "SourceHanSerifCN".to_string(),
            language: "cn".to_string(),
        }
    }
}

/// Where the proxies are.
#[derive(Debug, PartialEq, Eq)]
pub struct Proxy {
    pub http_url: String,
    pub http_port: u16,
    pub socks5_url: String,
    pub socks5_port: u16,
}

/// Where the proxies are, as plain values.
pub struct ProxyView {
    pub http_url: Seq<char>,
    pub http_port: u16,
    pub socks5_url: Seq<char>,
    pub socks5_port: u16,
}

impl View for Proxy {
    type V = ProxyView;

    open spec fn view(&self) -> ProxyView {
        ProxyView {
            http_url: self.http_url@,
            http_port: self.http_port,
            socks5_url: self.socks5_url@,
            socks5_port: self.socks5_port,
        }
    }
}

impl Clone for Proxy {
    fn clone(&self) -> (r: Self)
        ensures
            r@ == self@,
    {
        Proxy {
            http_url: self.http_url.clone(),
            http_port: self.http_port,
            socks5_url: self.socks5_url.clone(),
            socks5_port: self.socks5_port,
        }
    }
}

impl Default for Proxy {
    fn default() -> (r: Self)
        ensures
            r@ == (ProxyView {
                http_url: "127.0.0.1"@,
                http_port: 3128,
                socks5_url: "127.0.0.1"@,
                socks5_port: 1080,
            }),
    {
        Proxy {
            http_url: "127.0.0.1".to_string(),
            http_port: 3128,
            socks5_url: "127.0.0.1".to_string(),
            socks5_port: 1080,
        }
    }
}

/// When and how the subscriptions are synced.
#[derive(Debug, PartialEq, Eq, Clone, Copy)]
pub struct Sync {
    /// Minutes between two syncs that the timer starts.
    pub sync_interval: i64,
    /// Seconds that a request may take.
    pub sync_timeout: i64,
    pub is_auto_sync: bool,
    pub is_start_sync: bool,
}

impl Default for Sync {
    fn default() -> (r: Self)
        ensures
            r == (Sync {
                sync_interval: 60,
                sync_timeout: 15,
                is_auto_sync: true,
                is_start_sync: true,
            }),
    {
        Sync { sync_interval: 60, sync_timeout: 15, is_auto_sync: true, is_start_sync: true }
    }
}

/// How entries are read.
#[derive(Debug, PartialEq, Eq)]
pub struct Reading {
    pub browser: String,
    pub is_delete_after_reading: bool,
}

/// How entries are read, as plain values.
pub struct ReadingView {
    pub browser: Seq<char>,
    pub is_delete_after_reading: bool,
}

impl View for Reading {
    type V = ReadingView;

    open spec fn view(&self) -> ReadingView {
        ReadingView {
            browser: self.browser@,
            is_delete_after_reading: self.is_delete_after_reading,
        }
    }
}

impl Clone for Reading {
    fn clone(&self) -> (r: Self)
        ensures
            r@ == self@,
    {
        Reading {
            browser: self.browser.clone(),
            is_delete_after_reading: self.is_delete_after_reading,
        }
    }
}

impl Default for Reading {
    fn default() -> (r: Self)
        ensures
            r@ == (ReadingView { browser: "Default"@, is_delete_after_reading: false }),
    {
        Reading { browser: "Default".to_string(), is_delete_after_reading: false }
    }
}

/// What a backup holds, and the token that it is sent with.
#[derive(Debug, PartialEq, Eq)]
pub struct BackupRecover {
    pub api_token: String,
    pub favorite: bool,
    pub rss: bool,
    pub setting: bool,
}

/// What a backup holds, as plain values.
pub struct BackupRecoverView {
    pub api_token: Seq<char>,
    pub favorite: bool,
    pub rss: bool,
    pub setting: bool,
}

impl View for BackupRecover {
    type V = BackupRecoverView;

    open spec fn view(&self) -> BackupRecoverView {
        BackupRecoverView {
            api_token: self.api_token@,
            favorite: self.favorite,
            rss: self.rss,
            setting: self.setting,
        }
    }
}

impl Clone for BackupRecover {
    fn clone(&self) -> (r: Self)
        ensures
            r@ == self@,
    {
        BackupRecover {
            api_token: self.api_token.clone(),
            favorite: self.favorite,
            rss: self.rss,
            setting: self.setting,
        }
    }
}

impl Default for BackupRecover {
    fn default() -> (r: Self)
        ensures
            r@ == (BackupRecoverView {
                api_token: Seq::empty(),
                favorite: false,
                rss: false,
                setting: false,
            }),
    {
        BackupRecover { api_token: String::new(), favorite: false, rss: false, setting: false }
    }
}

/// Everything that is configured. The three paths and the first-run mark
/// belong to the running process and are not written to the settings file.
#[derive(Debug, PartialEq, Eq)]
pub struct Config {
    pub config_path: String,
    pub db_path: String,
    pub cache_dir: String,
    pub appid: String,
    pub is_first_run: bool,
    pub ui: UI,
    pub reading: Reading,
    pub sync: Sync,
    pub proxy: Proxy,
    pub backup_recover: BackupRecover,
}

/// What is configured, as plain values.
pub struct ConfigView {
    pub config_path: Seq<char>,
    pub db_path: Seq<char>,
    pub cache_dir: Seq<char>,
    pub appid: Seq<char>,
    pub is_first_run: bool,
    pub ui: UIView,
    pub reading: ReadingView,
    pub sync: Sync,
    pub proxy: ProxyView,
    pub backup_recover: BackupRecoverView,
}

impl View for Config {
    type V = ConfigView;

    open spec fn view(&self) -> ConfigView {
        ConfigView {
            config_path: self.config_path@,
            db_path: self.db_path@,
            cache_dir: self.cache_dir@,
            appid: self.appid@,
            is_first_run: self.is_first_run,
            ui: self.ui@,
            reading: self.reading@,
            sync: self.sync,
            proxy: self.proxy@,
            backup_recover: self.backup_recover@,
        }
    }
}

impl Clone for Config {
    fn clone(&self) -> (r: Self)
        ensures
            r@ == self@,
    {
        Config {
            config_path: self.config_path.clone(),
            db_path: self.db_path.clone(),
            cache_dir: self.cache_dir.clone(),
            appid: self.appid.clone(),
            is_first_run: self.is_first_run,
            ui: self.ui.clone(),
            reading: self.reading.clone(),
            sync: self.sync,
            proxy: self.proxy.clone(),
            backup_recover: self.backup_recover.clone(),
        }
    }
}

/// The settings before anything was configured.
pub open spec fn default_config() -> ConfigView {
    ConfigView {
        config_path: Seq::empty(),
        db_path: Seq::empty(),
        cache_dir: Seq::empty(),
        appid: Seq::empty(),
        is_first_run: false,
        ui: UIView { font_size: 16, font_family: "SourceHanSerifCN"@, language: "cn"@ },
        reading: ReadingView { browser: "Default"@, is_delete_after_reading: false },
        sync: Sync { sync_interval: 60, sync_timeout: 15, is_auto_sync: true, is_start_sync: true },
        proxy: ProxyView {
            http_url: "127.0.0.1"@,
            http_port: 3128,
            socks5_url: "127.0.0.1"@,
            socks5_port: 1080,
        },
        backup_recover: BackupRecoverView {
            api_token: Seq::empty(),
            favorite: false,
            rss: false,
            setting: false,
        },
    }
}

impl Default for Config {
    fn default() -> (r: Self)
        ensures
            r@ == default_config(),
    {
        Config {
            config_path: String::new(),
            db_path: String::new(),
            cache_dir: String::new(),
            appid: String::new(),
            is_first_run: false,
            ui: UI::default(),
            reading: Reading::default(),
            sync: Sync::default(),
            proxy: Proxy::default(),
            backup_recover: BackupRecover::default(),
        }
    }
}

/// The identity of a fresh installation: drawn by chance, 36 characters
/// long.
pub fn appid_default() -> (r: String)
    ensures
        r@.len() == 36,
{
    new_uuid()
}

} // verus!
