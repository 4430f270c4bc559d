//! SFTP sessions. They are kept, looked up and handed back exactly as SSH
//! sessions are: by a unique random id, with the live SFTP channel of the type
//! `C` that the program driving the network chooses.

use vstd::prelude::*;

pub use crate::ssh::service::SessionStatus;

verus! {

/// A session of the SFTP service with one server.
pub type SftpServiceSession<C> = crate::ssh::service::SshSession<C>;

/// The SFTP sessions, by id.
pub type SftpService<C> = crate::ssh::service::SshService<C>;

} // verus!
