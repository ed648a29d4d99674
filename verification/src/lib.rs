//! Verified core of a cross-device clipboard synchroniser: device registry,
//! configuration rules, message model, sync-protocol decisions and
//! payload encryption.

pub mod text;
pub mod utils;
pub mod device;
pub mod device_table;
pub mod device_manager;
pub mod config;
pub mod digest;
pub mod message;
pub mod encrypt;
pub mod sync;
pub mod webdav;
pub mod monitor;
pub mod errors;
pub mod response;
pub mod cli;
pub mod context;
pub mod clipboard;
