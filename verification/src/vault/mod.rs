//! Credential vault: passwords kept in the system keyring, and their encryption
//! under a master password.

pub mod crypto;
pub mod keychain;

pub use keychain::{account_key, delete_password, get_password, is_available, store_password, Keyring, KeyringCall};
