//! LazySSH: the verified core of an SSH/SFTP connection manager.

pub mod clock;
pub mod config;
pub mod sftp;
pub mod ssh;
pub mod text;
pub mod tui;
pub mod vault;
