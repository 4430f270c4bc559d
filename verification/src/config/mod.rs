//! Configuration: server model, configuration edits and `~/.ssh/config` import.

pub mod file;
pub mod models;
pub mod ssh_config;

pub use models::{AppConfig, Auth, Server, ServerBookmark};
