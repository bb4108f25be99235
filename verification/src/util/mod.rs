pub mod crypto;
pub mod http;
pub mod id;
pub mod list;
pub mod number;
pub mod str;
pub mod time;
pub mod translator;
