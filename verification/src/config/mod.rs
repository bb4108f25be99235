pub mod conf;
pub mod data;

pub use conf::{
    all, appid, backup_recover, cache_dir, db_path, init, is_first_run, proxy, reading, reset,
    save, sync, ui, AppDirs,
};
pub use data::Config;
