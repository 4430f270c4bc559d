//! SSH: command lines for the `ssh` client and reading of its results, the key
//! file of public-key authentication, and the registry of sessions.

pub mod args;
pub mod auth;
pub mod exec;
pub mod service;
