use rssbox::config::data::{appid_default, BackupRecover, Proxy, Reading, Sync, UI};
use rssbox::config::{
    all, appid, backup_recover, cache_dir, db_path, init, is_first_run, proxy, reading, reset,
    save, sync, ui, AppDirs, Config,
};

#[test]
fn defaults() {
    let config = Config::default();
    assert_eq!(
        ui(&config),
        UI { font_size: 16, font_family: "SourceHanSerifCN".to_string(), language: "cn".to_string() }
    );
    assert_eq!(
        proxy(&config),
        Proxy {
            http_url: "127.0.0.1".to_string(),
            http_port: 3128,
            socks5_url: "127.0.0.1".to_string(),
            socks5_port: 1080
        }
    );
    assert_eq!(
        sync(&config),
        Sync { sync_interval: 60, sync_timeout: 15, is_auto_sync: true, is_start_sync: true }
    );
    assert_eq!(
        reading(&config),
        Reading { browser: "Default".to_string(), is_delete_after_reading: false }
    );
    assert_eq!(
        backup_recover(&config),
        BackupRecover { api_token: String::new(), favorite: false, rss: false, setting: false }
    );
    assert_eq!(appid(&config), "");
    assert!(!is_first_run(&config));
    assert_eq!(db_path(&config), "");
    assert_eq!(cache_dir(&config), "");
    assert_eq!(all(&config), config);
}

#[test]
fn app_dirs_lie_below_the_data_directory() {
    let dirs = AppDirs::new(Some("xyz.heng30.rssbox"), true).unwrap();
    assert_eq!(dirs.config_dir, "/data/data/xyz.heng30.rssbox/config");
    assert_eq!(dirs.data_dir, "/data/data/xyz.heng30.rssbox/data");
    assert_eq!(AppDirs::new(None, true), None);
}

#[test]
fn init_without_a_file_is_a_first_run() {
    let dirs = AppDirs { config_dir: "/c".to_string(), data_dir: "/d".to_string() };
    let mut config = Config::default();
    assert!(init(&mut config, &dirs, None));
    assert!(is_first_run(&config));
    assert_eq!(db_path(&config), "/d/rssbox.db");
    assert_eq!(config.config_path, "/c/rssbox.toml");
    assert_eq!(cache_dir(&config), "/d/cache");
    assert_eq!(appid(&config).len(), 36);
    assert_eq!(ui(&config), UI::default());
}

#[test]
fn init_with_a_file_takes_over_what_it_holds() {
    let dirs = AppDirs { config_dir: "/c".to_string(), data_dir: "/d".to_string() };
    let mut file = Config::default();
    file.appid = "app".to_string();
    file.ui.font_size = 20;
    file.sync.sync_interval = 5;
    file.proxy.http_port = 8080;
    file.reading.browser = "firefox".to_string();
    file.backup_recover.api_token = "token-1".to_string();
    file.db_path = "/elsewhere".to_string();
    file.is_first_run = true;
    let mut config = Config::default();
    assert!(!init(&mut config, &dirs, Some(file)));
    assert!(!is_first_run(&config));
    assert_eq!(appid(&config), "app");
    assert_eq!(ui(&config).font_size, 20);
    assert_eq!(sync(&config).sync_interval, 5);
    assert_eq!(proxy(&config).http_port, 8080);
    assert_eq!(reading(&config).browser, "firefox");
    assert_eq!(backup_recover(&config).api_token, "token-1");
    assert_eq!(db_path(&config), "/d/rssbox.db");
}

#[test]
fn an_installation_keeps_its_identity() {
    let dirs = AppDirs { config_dir: "/c".to_string(), data_dir: "/d".to_string() };
    let mut config = Config::default();
    config.appid = "mine".to_string();
    config.init_config(&dirs);
    assert_eq!(appid(&config), "mine");
    assert!(config.load(None));
    assert_eq!(appid(&config), "mine");
    assert_eq!(config.save(), config);
}

#[test]
fn reset_keeps_the_paths_of_the_process() {
    let dirs = AppDirs { config_dir: "/c".to_string(), data_dir: "/d".to_string() };
    let mut config = Config::default();
    init(&mut config, &dirs, None);
    let mut recovered = Config::default();
    recovered.appid = "other".to_string();
    recovered.ui.language = "en".to_string();
    recovered.db_path = "/x".to_string();
    reset(&mut config, recovered);
    assert_eq!(appid(&config), "other");
    assert_eq!(ui(&config).language, "en");
    assert_eq!(db_path(&config), "/d/rssbox.db");
    assert!(is_first_run(&config));
}

#[test]
fn save_replaces_everything() {
    let mut config = Config::default();
    let mut other = Config::default();
    other.db_path = "/x".to_string();
    other.sync.is_auto_sync = false;
    save(&mut config, other.clone());
    assert_eq!(config, other);
}

#[test]
fn appid_default_is_hyphenated_and_fresh() {
    let a = appid_default();
    let b = appid_default();
    assert_eq!(a.len(), 36);
    assert_eq!(a.matches('-').count(), 4);
    assert_ne!(a, b);
}
