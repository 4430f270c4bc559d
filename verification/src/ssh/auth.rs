//! What public-key authentication reads: the private key file and its passphrase.

use vstd::prelude::*;

use crate::config::models::{clone_opt_string, Auth};
use crate::ssh::args::expand_tilde;

verus! {

/// The private key file (with `~` expanded) and the passphrase that public-key
/// authentication loads; a server that authenticates by password has none, which
/// is an error that sends the caller to the password flow.
pub fn key_file(auth: &Auth) -> (r: Result<(String, Option<String>), String>)
    ensures
        match *auth {
            Auth::Key { path, passphrase } => r matches Ok((p, pp)) && crate::ssh::args::tilde_expansion_of(path@, p@)
                && pp == passphrase,
            Auth::Password { .. } => r matches Err(m) && m@ == "Use password auth flow"@,
        },
{
    match auth {
        Auth::Key { path, passphrase } => Ok((expand_tilde(path.as_str()), clone_opt_string(passphrase))),
        Auth::Password { .. } => Err("Use password auth flow".to_owned()),
    }
}

} // verus!
