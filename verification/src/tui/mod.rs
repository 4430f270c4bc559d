//! Terminal user interface state: server list, forms, SFTP browser, terminal output.

pub mod ansi;
pub mod app;
pub mod binary64;
pub mod help;
pub mod history;
pub mod notifications;
pub mod sftp_browser;
pub mod handlers;
pub mod ssh_terminal;
pub mod theme;
pub mod view;
