//! Verified core of a PocketBook client for a calibre content server:
//! settings with their defaults and on-device editing, file-name cleaning,
//! the paged book list, cover decoding and the background worker's decisions.

pub mod text;
pub mod config;
pub mod settings;
pub mod pager;
pub mod cover;
pub mod worker;
pub mod net;
