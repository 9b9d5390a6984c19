//! What each command decides, apart from the file system and the
//! terminal.

pub mod back;
pub mod cleanup;
pub mod create;
pub mod init;
pub mod jump;
pub mod list;
pub mod remove;
pub mod status;
pub mod sync_config;
