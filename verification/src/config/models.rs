//! Data model of the configuration: servers, their authentication and bookmarks.

use vstd::prelude::*;

verus! {

/// Main application configuration, persisted as TOML.
#[derive(Debug, Clone, PartialEq)]
pub struct AppConfig {
    /// The configured SSH servers, in display order.
    pub servers: Vec<Server>,
    /// Active sort mode ("name", "port", "last_connected", "frequency").
    pub sort_by: Option<String>,
}

/// A saved directory bookmark for the SFTP browser.
#[derive(Debug, Clone, PartialEq)]
pub struct ServerBookmark {
    /// Display name of the bookmark.
    pub name: String,
    /// Absolute remote path the bookmark points to.
    pub path: String,
}

/// Definition of one SSH server connection.
#[derive(Debug, Clone, PartialEq)]
pub struct Server {
    /// Friendly display name.
    pub name: String,
    /// Hostname or IP address.
    pub host: String,
    /// SSH port (22 by default).
    pub port: u16,
    /// Login user.
    pub user: String,
    /// Authentication method.
    pub auth: Auth,
    /// User-defined tags for filtering.
    pub tags: Vec<String>,
    /// Whether the server is pinned to the top of the list.
    pub pinned: bool,
    /// ISO timestamp of the last successful connection.
    pub last_connected: Option<String>,
    /// Number of times the server was connected to.
    pub connection_count: u32,
    /// Saved SFTP directory bookmarks.
    pub bookmarks: Vec<ServerBookmark>,
    /// Whether to forward the local SSH agent (`-A`).
    pub agent_forwarding: bool,
    /// ProxyJump host (`-J`).
    pub proxy_jump: Option<String>,
}

/// SSH authentication method of a server.
#[derive(Debug, Clone, PartialEq)]
pub enum Auth {
    /// Public key authentication.
    Key {
        /// Path to the private key file (`~` is expanded).
        path: String,
        /// Optional passphrase of an encrypted key.
        passphrase: Option<String>,
    },
    /// Password authentication (via `sshpass`).
    Password {
        /// The password; kept in the system keyring when possible.
        vault_key: String,
    },
}

/// A copy of an optional string.
pub fn clone_opt_string(s: &Option<String>) -> (r: Option<String>)
    ensures
        r == *s,
{
    match s {
        Some(v) => Some(v.clone()),
        None => None,
    }
}

/// A copy of a list of strings.
pub fn clone_strings(v: &Vec<String>) -> (r: Vec<String>)
    ensures
        r@ == v@,
{
    let mut r: Vec<String> = Vec::new();
    let mut i: usize = 0;
    while i < v.len()
        invariant
            i <= v@.len(),
            r@ == v@.take(i as int),
        decreases v@.len() - i,
    {
        r.push(v[i].clone());
        assert(v@.take(i + 1) == v@.take(i as int).push(v@[i as int]));
        i = i + 1;
    }
    assert(v@.take(v@.len() as int) == v@);
    r
}

impl ServerBookmark {
    /// A copy of this bookmark.
    pub fn duplicate(&self) -> (r: ServerBookmark)
        ensures
            r == *self,
    {
        ServerBookmark { name: self.name.clone(), path: self.path.clone() }
    }
}

/// A copy of a list of bookmarks.
pub fn clone_bookmarks(v: &Vec<ServerBookmark>) -> (r: Vec<ServerBookmark>)
    ensures
        r@ == v@,
{
    let mut r: Vec<ServerBookmark> = Vec::new();
    let mut i: usize = 0;
    while i < v.len()
        invariant
            i <= v@.len(),
            r@ == v@.take(i as int),
        decreases v@.len() - i,
    {
        r.push(v[i].duplicate());
        assert(v@.take(i + 1) == v@.take(i as int).push(v@[i as int]));
        i = i + 1;
    }
    assert(v@.take(v@.len() as int) == v@);
    r
}

impl Auth {
    /// A copy of this authentication method.
    pub fn duplicate(&self) -> (r: Auth)
        ensures
            r == *self,
    {
        match self {
            Auth::Key { path, passphrase } => Auth::Key {
                path: path.clone(),
                passphrase: clone_opt_string(passphrase),
            },
            Auth::Password { vault_key } => Auth::Password { vault_key: vault_key.clone() },
        }
    }

    /// Whether this is password authentication.
    pub open spec fn is_password(self) -> bool {
        self is Password
    }

    /// Whether this is password authentication.
    pub fn is_password_exec(&self) -> (b: bool)
        ensures
            b == self.is_password(),
    {
        match self {
            Auth::Password { .. } => true,
            Auth::Key { .. } => false,
        }
    }
}

impl Server {
    /// Two servers hold the same data (lists compared by their contents).
    pub open spec fn same_as(self, other: Server) -> bool {
        &&& self.name == other.name
        &&& self.host == other.host
        &&& self.port == other.port
        &&& self.user == other.user
        &&& self.auth == other.auth
        &&& self.tags@ == other.tags@
        &&& self.pinned == other.pinned
        &&& self.last_connected == other.last_connected
        &&& self.connection_count == other.connection_count
        &&& self.bookmarks@ == other.bookmarks@
        &&& self.agent_forwarding == other.agent_forwarding
        &&& self.proxy_jump == other.proxy_jump
    }

    /// A copy of this server.
    pub fn duplicate(&self) -> (r: Server)
        ensures
            r.same_as(*self),
    {
        Server {
            name: self.name.clone(),
            host: self.host.clone(),
            port: self.port,
            user: self.user.clone(),
            auth: self.auth.duplicate(),
            tags: clone_strings(&self.tags),
            pinned: self.pinned,
            last_connected: clone_opt_string(&self.last_connected),
            connection_count: self.connection_count,
            bookmarks: clone_bookmarks(&self.bookmarks),
            agent_forwarding: self.agent_forwarding,
            proxy_jump: clone_opt_string(&self.proxy_jump),
        }
    }
}

/// Two server lists hold the same servers in the same order.
pub open spec fn same_servers(a: Seq<Server>, b: Seq<Server>) -> bool {
    a.len() == b.len() && forall|i: int| 0 <= i < a.len() ==> #[trigger] a[i].same_as(b[i])
}

/// A copy of a list of servers.
pub fn clone_servers(v: &Vec<Server>) -> (r: Vec<Server>)
    ensures
        same_servers(r@, v@),
{
    let mut r: Vec<Server> = Vec::new();
    let mut i: usize = 0;
    while i < v.len()
        invariant
            i <= v@.len(),
            r@.len() == i,
            forall|k: int| 0 <= k < i ==> #[trigger] r@[k].same_as(v@[k]),
        decreases v@.len() - i,
    {
        r.push(v[i].duplicate());
        i = i + 1;
    }
    r
}

} // verus!
