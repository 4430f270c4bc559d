//! Application state: the server-list form and the state of the whole interface.

use vstd::prelude::*;

use crate::config::models::{clone_opt_string, clone_servers, AppConfig, Auth, Server};
use crate::sftp::FileInfo;
use crate::text;
use crate::tui::notifications::{NotificationQueue, NotificationType};
use crate::tui::sftp_browser::SftpState;

verus! {

/// The view shown by the interface.
#[derive(Debug, Clone, Copy, PartialEq, Eq, Structural)]
pub enum CurrentView {
    ServerList,
    SshTerminal,
    SftpBrowser,
}

/// Fields of the add/edit server form.
#[derive(Debug, Clone, Copy, PartialEq, Eq, Structural)]
pub enum FormField {
    Name,
    Host,
    Port,
    User,
    AuthType,
    KeyPath,
    Passphrase,
    Password,
    Tags,
}

/// Whether the form adds a server or edits the one at an index.
#[derive(Debug, Clone, Copy, PartialEq, Eq, Structural)]
pub enum FormMode {
    Insert,
    Edit { server_index: usize },
}

/// State of the add/edit server form: focused field, mode and field texts.
#[derive(Debug, Clone)]
pub struct FormState {
    pub field: FormField,
    pub mode: FormMode,
    pub name: String,
    pub host: String,
    pub port: String,
    pub user: String,
    pub auth_type: String,
    pub key_path: String,
    pub passphrase: String,
    pub password: String,
    pub tags: String,
}

/// The field after `f` in a form using key authentication (`key`) or a password.
pub open spec fn next_form_field(f: FormField, key: bool) -> FormField {
    if key {
        match f {
            FormField::Name => FormField::Host,
            FormField::Host => FormField::Port,
            FormField::Port => FormField::User,
            FormField::User => FormField::AuthType,
            FormField::AuthType => FormField::KeyPath,
            FormField::KeyPath => FormField::Passphrase,
            FormField::Passphrase => FormField::Tags,
            FormField::Tags => FormField::Name,
            FormField::Password => FormField::Name,
        }
    } else {
        match f {
            FormField::Name => FormField::Host,
            FormField::Host => FormField::Port,
            FormField::Port => FormField::User,
            FormField::User => FormField::AuthType,
            FormField::AuthType => FormField::Password,
            FormField::Password => FormField::Tags,
            FormField::Tags => FormField::Name,
            FormField::KeyPath => FormField::Name,
            FormField::Passphrase => FormField::Name,
        }
    }
}

/// The field before `f` in a form using key authentication (`key`) or a password.
pub open spec fn prev_form_field(f: FormField, key: bool) -> FormField {
    if key {
        match f {
            FormField::Name => FormField::Tags,
            FormField::Host => FormField::Name,
            FormField::Port => FormField::Host,
            FormField::User => FormField::Port,
            FormField::AuthType => FormField::User,
            FormField::KeyPath => FormField::AuthType,
            FormField::Passphrase => FormField::KeyPath,
            FormField::Tags => FormField::Passphrase,
            FormField::Password => FormField::Name,
        }
    } else {
        match f {
            FormField::Name => FormField::Tags,
            FormField::Host => FormField::Name,
            FormField::Port => FormField::Host,
            FormField::User => FormField::Port,
            FormField::AuthType => FormField::User,
            FormField::Password => FormField::AuthType,
            FormField::Tags => FormField::Password,
            FormField::KeyPath => FormField::Name,
            FormField::Passphrase => FormField::Name,
        }
    }
}

/// The text of a form field.
pub open spec fn field_text(fs: FormState, f: FormField) -> String {
    match f {
        FormField::Name => fs.name,
        FormField::Host => fs.host,
        FormField::Port => fs.port,
        FormField::User => fs.user,
        FormField::AuthType => fs.auth_type,
        FormField::KeyPath => fs.key_path,
        FormField::Passphrase => fs.passphrase,
        FormField::Password => fs.password,
        FormField::Tags => fs.tags,
    }
}

/// The form with the text of field `f` replaced by `v`.
pub open spec fn with_field_text(fs: FormState, f: FormField, v: String) -> FormState {
    match f {
        FormField::Name => FormState { name: v, ..fs },
        FormField::Host => FormState { host: v, ..fs },
        FormField::Port => FormState { port: v, ..fs },
        FormField::User => FormState { user: v, ..fs },
        FormField::AuthType => FormState { auth_type: v, ..fs },
        FormField::KeyPath => FormState { key_path: v, ..fs },
        FormField::Passphrase => FormState { passphrase: v, ..fs },
        FormField::Password => FormState { password: v, ..fs },
        FormField::Tags => FormState { tags: v, ..fs },
    }
}

/// The key path of a new server: `~/.ssh/id_rsa`.
pub open spec fn default_key_path() -> Seq<char> {
    "~/.ssh/id_rsa"@
}

/// A form is in key-authentication mode.
pub open spec fn form_uses_key(fs: FormState) -> bool {
    fs.auth_type@ == "key"@
}

/// `a` is the authentication the form `fs` describes.
pub open spec fn form_auth(fs: FormState, a: Auth) -> bool {
    &&& fs.auth_type@ == "password"@ ==> a == (Auth::Password { vault_key: fs.password })
    &&& fs.auth_type@ != "password"@ ==> (a matches Auth::Key { path, passphrase } && (if fs.key_path@.len()
        == 0 {
        path@ == default_key_path()
    } else {
        path == fs.key_path
    }) && passphrase == (if fs.passphrase@.len() == 0 {
        None
    } else {
        Some(fs.passphrase)
    }))
}

/// `fs` is the empty form for a new server.
pub open spec fn is_insert_form(fs: FormState) -> bool {
    &&& fs.field == FormField::Name
    &&& fs.mode == FormMode::Insert
    &&& fs.name@.len() == 0
    &&& fs.host@.len() == 0
    &&& fs.port@ == "22"@
    &&& fs.user@ == "root"@
    &&& fs.auth_type@ == "key"@
    &&& fs.key_path@ == default_key_path()
    &&& fs.passphrase@.len() == 0
    &&& fs.password@.len() == 0
    &&& fs.tags@.len() == 0
}

/// `fs` is the form editing `server`, found at `index`.
pub open spec fn is_edit_form(fs: FormState, server: Server, index: usize) -> bool {
    &&& fs.field == FormField::Name
    &&& fs.mode == (FormMode::Edit { server_index: index })
    &&& fs.name == server.name
    &&& fs.host == server.host
    &&& fs.port@ == text::decimal(server.port as nat)
    &&& fs.user == server.user
    &&& fs.password@.len() == 0
    &&& fs.tags@ == text::join_with(server.tags@.map_values(|t: String| t@), ", "@)
    &&& match server.auth {
        Auth::Key { path, passphrase } => fs.auth_type@ == "key"@ && fs.key_path == path
            && fs.passphrase@ == match passphrase {
            Some(p) => p@,
            None => Seq::<char>::empty(),
        },
        Auth::Password { .. } => fs.auth_type@ == "password"@ && fs.key_path@.len() == 0
            && fs.passphrase@.len() == 0,
    }
}

/// `after` is the form `before` with key and password authentication switched.
pub open spec fn auth_toggled(before: FormState, after: FormState) -> bool {
    &&& after == (FormState { auth_type: after.auth_type, ..before })
    &&& after.auth_type@ == (if before.auth_type@ == "key"@ {
        "password"@
    } else {
        "key"@
    })
}

impl FormState {
    /// An empty form for a new server (port 22, user `root`, key `~/.ssh/id_rsa`).
    pub fn new_insert() -> (fs: FormState)
        ensures
            is_insert_form(fs),
    {
        FormState {
            field: FormField::Name,
            mode: FormMode::Insert,
            name: String::new(),
            host: String::new(),
            port: "22".to_owned(),
            user: "root".to_owned(),
            auth_type: "key".to_owned(),
            key_path: "~/.ssh/id_rsa".to_owned(),
            passphrase: String::new(),
            password: String::new(),
            tags: String::new(),
        }
    }

    /// A form editing `server`, found at `index` in the server list.
    ///
    /// The password is never shown; tags are joined with `", "`.
    pub fn new_edit(server: &Server, index: usize) -> (fs: FormState)
        ensures
            is_edit_form(fs, *server, index),
    {
        let (auth_type, key_path, passphrase) = match &server.auth {
            Auth::Key { path, passphrase } => (
                "key".to_owned(),
                path.clone(),
                match passphrase {
                    Some(p) => p.clone(),
                    None => String::new(),
                },
            ),
            Auth::Password { .. } => ("password".to_owned(), String::new(), String::new()),
        };
        FormState {
            field: FormField::Name,
            mode: FormMode::Edit { server_index: index },
            name: server.name.clone(),
            host: server.host.clone(),
            port: text::u64_to_decimal(server.port as u64),
            user: server.user.clone(),
            auth_type,
            key_path,
            passphrase,
            password: String::new(),
            tags: text::join_strings(&server.tags, ", "),
        }
    }

    /// Index of the edited server, or `None` for a new one.
    pub fn server_index(&self) -> (r: Option<usize>)
        ensures
            r == match self.mode {
                FormMode::Edit { server_index } => Some(server_index),
                FormMode::Insert => None,
            },
    {
        match self.mode {
            FormMode::Edit { server_index } => Some(server_index),
            FormMode::Insert => None,
        }
    }

    /// Whether the form is in key-authentication mode.
    pub fn is_key_auth(&self) -> (b: bool)
        ensures
            b == form_uses_key(*self),
    {
        text::str_eq(self.auth_type.as_str(), "key")
    }

    /// Text of the focused field.
    pub fn current_value(&self) -> (r: &str)
        ensures
            r@ == field_text(*self, self.field)@,
    {
        match self.field {
            FormField::Name => self.name.as_str(),
            FormField::Host => self.host.as_str(),
            FormField::Port => self.port.as_str(),
            FormField::User => self.user.as_str(),
            FormField::AuthType => self.auth_type.as_str(),
            FormField::KeyPath => self.key_path.as_str(),
            FormField::Passphrase => self.passphrase.as_str(),
            FormField::Password => self.password.as_str(),
            FormField::Tags => self.tags.as_str(),
        }
    }

    /// Mutable access to the text of the focused field.
    pub fn current_value_mut(&mut self) -> (r: &mut String)
        ensures
            *r == field_text(*old(self), old(self).field),
            *final(self) == with_field_text(*old(self), old(self).field, *final(r)),
    {
        match self.field {
            FormField::Name => &mut self.name,
            FormField::Host => &mut self.host,
            FormField::Port => &mut self.port,
            FormField::User => &mut self.user,
            FormField::AuthType => &mut self.auth_type,
            FormField::KeyPath => &mut self.key_path,
            FormField::Passphrase => &mut self.passphrase,
            FormField::Password => &mut self.password,
            FormField::Tags => &mut self.tags,
        }
    }

    /// Moves the focus to the next field of the current authentication mode.
    pub fn next_field(&mut self)
        ensures
            *final(self) == (FormState {
                field: next_form_field(old(self).field, form_uses_key(*old(self))),
                ..*old(self)
            }),
    {
        let key = self.is_key_auth();
        self.field = match (key, self.field) {
            (true, FormField::Name) => FormField::Host,
            (true, FormField::Host) => FormField::Port,
            (true, FormField::Port) => FormField::User,
            (true, FormField::User) => FormField::AuthType,
            (true, FormField::AuthType) => FormField::KeyPath,
            (true, FormField::KeyPath) => FormField::Passphrase,
            (true, FormField::Passphrase) => FormField::Tags,
            (true, FormField::Tags) => FormField::Name,
            (true, FormField::Password) => FormField::Name,
            (false, FormField::Name) => FormField::Host,
            (false, FormField::Host) => FormField::Port,
            (false, FormField::Port) => FormField::User,
            (false, FormField::User) => FormField::AuthType,
            (false, FormField::AuthType) => FormField::Password,
            (false, FormField::Password) => FormField::Tags,
            (false, FormField::Tags) => FormField::Name,
            (false, FormField::KeyPath) => FormField::Name,
            (false, FormField::Passphrase) => FormField::Name,
        };
    }

    /// Moves the focus to the previous field of the current authentication mode.
    pub fn prev_field(&mut self)
        ensures
            *final(self) == (FormState {
                field: prev_form_field(old(self).field, form_uses_key(*old(self))),
                ..*old(self)
            }),
    {
        let key = self.is_key_auth();
        self.field = match (key, self.field) {
            (true, FormField::Name) => FormField::Tags,
            (true, FormField::Host) => FormField::Name,
            (true, FormField::Port) => FormField::Host,
            (true, FormField::User) => FormField::Port,
            (true, FormField::AuthType) => FormField::User,
            (true, FormField::KeyPath) => FormField::AuthType,
            (true, FormField::Passphrase) => FormField::KeyPath,
            (true, FormField::Tags) => FormField::Passphrase,
            (true, FormField::Password) => FormField::Name,
            (false, FormField::Name) => FormField::Tags,
            (false, FormField::Host) => FormField::Name,
            (false, FormField::Port) => FormField::Host,
            (false, FormField::User) => FormField::Port,
            (false, FormField::AuthType) => FormField::User,
            (false, FormField::Password) => FormField::AuthType,
            (false, FormField::Tags) => FormField::Password,
            (false, FormField::KeyPath) => FormField::Name,
            (false, FormField::Passphrase) => FormField::Name,
        };
    }

    /// The authentication the form describes.
    ///
    /// `password` mode gives the password; any other mode gives a key, `~/.ssh/id_rsa`
    /// when the key path is empty, with the passphrase when one is set.
    pub fn build_auth(&self) -> (a: Auth)
        ensures
            form_auth(*self, a),
    {
        if text::str_eq(self.auth_type.as_str(), "password") {
            Auth::Password { vault_key: self.password.clone() }
        } else {
            Auth::Key {
                path: if self.key_path.as_str().is_empty() {
                    "~/.ssh/id_rsa".to_owned()
                } else {
                    self.key_path.clone()
                },
                passphrase: if self.passphrase.as_str().is_empty() {
                    None
                } else {
                    Some(self.passphrase.clone())
                },
            }
        }
    }

    /// Switches between key and password authentication.
    pub fn toggle_auth_type(&mut self)
        ensures
            auth_toggled(*old(self), *final(self)),
    {
        if text::str_eq(self.auth_type.as_str(), "key") {
            self.auth_type = "password".to_owned();
        } else {
            self.auth_type = "key".to_owned();
        }
    }
}

} // verus!

verus! {

/// A confirmation the user is asked for.
#[derive(Debug, Clone)]
pub enum ConfirmAction {
    /// Deleting the server with this name.
    DeleteServer { name: String },
}

/// An open confirmation dialog.
#[derive(Debug, Clone)]
pub struct ConfirmState {
    pub action: ConfirmAction,
}

/// What keys typed in the server list do.
#[derive(Debug, Clone, Copy, PartialEq, Eq, Structural)]
pub enum InputMode {
    Normal,
    Search,
    Insert,
    Edit,
    Confirm,
}

/// A window drawn over the current view.
#[derive(Debug, Clone, Copy, PartialEq, Eq, Structural)]
pub enum Overlay {
    Help,
}

/// Result of an SFTP operation run in the background.
#[derive(Debug)]
pub enum SftpOpResult {
    ListDir(Vec<FileInfo>),
    Upload(String),
    Download(String),
    Mkdir,
    Unlink(String),
    Rmdir(String),
    Rename(String),
    SetPermissions,
    Error(String),
}

/// A fuzzy-match score of `pattern` in `choice` (`SkimMatcherV2::fuzzy_match` with the
/// default settings), `None` when it does not match.
pub uninterp spec fn skim_score(choice: Seq<char>, pattern: Seq<char>) -> Option<i64>;

/// Fuzzy-matches `pattern` against `choice` with the default skim matcher.
#[verifier::external_body]
fn fuzzy_match(choice: &str, pattern: &str) -> (r: Option<i64>)
    ensures
        r == skim_score(choice@, pattern@),
{
    fuzzy_matcher::FuzzyMatcher::fuzzy_match(
        &fuzzy_matcher::skim::SkimMatcherV2::default(),
        choice,
        pattern,
    )
}

/// A server matches a search query when its name, its host or one of its tags does.
pub open spec fn server_matches(s: Server, q: Seq<char>) -> bool {
    ||| skim_score(s.name@, q) is Some
    ||| skim_score(s.host@, q) is Some
    ||| exists|k: int| 0 <= k < s.tags@.len() && (#[trigger] skim_score(s.tags@[k]@, q)) is Some
}

/// Indices of the servers matching a query, in list order.
pub open spec fn matching_indices(servers: Seq<Server>, q: Seq<char>) -> Seq<usize>
    decreases servers.len(),
{
    if servers.len() == 0 {
        Seq::empty()
    } else {
        let rest = matching_indices(servers.drop_last(), q);
        if server_matches(servers.last(), q) {
            rest.push((servers.len() - 1) as usize)
        } else {
            rest
        }
    }
}

/// The indices shown for a query: all for an empty one, else the matching ones.
pub open spec fn shown_indices(servers: Seq<Server>, q: Seq<char>) -> Seq<usize> {
    if q.len() == 0 {
        crate::tui::sftp_browser::all_indices(servers.len())
    } else {
        matching_indices(servers, q)
    }
}

/// A search lists a server exactly when its name, its host or one of its tags
/// fuzzy-matches the query: each listed index is such a server, each such server is
/// listed, and the list keeps the servers' order.
pub proof fn lemma_matching_indices_exact(servers: Seq<Server>, q: Seq<char>)
    requires
        servers.len() <= usize::MAX,
    ensures
        q.len() > 0 ==> shown_indices(servers, q) == matching_indices(servers, q),
        forall|i: int|
            0 <= i < servers.len() ==> (matching_indices(servers, q).contains(i as usize) <==> (
            skim_score(servers[i].name@, q) is Some || skim_score(servers[i].host@, q) is Some
                || exists|k: int|
                0 <= k < servers[i].tags@.len() && (#[trigger] skim_score(servers[i].tags@[k]@, q)) is Some)),
        forall|m: int|
            0 <= m < matching_indices(servers, q).len() ==> #[trigger] matching_indices(servers, q)[m]
                < servers.len(),
        forall|m: int, n: int|
            0 <= m < n < matching_indices(servers, q).len() ==> #[trigger] matching_indices(servers, q)[m]
                < #[trigger] matching_indices(servers, q)[n],
    decreases servers.len(),
{
    if servers.len() > 0 {
        let pre = servers.drop_last();
        lemma_matching_indices_exact(pre, q);
        let rest = matching_indices(pre, q);
        let last = (servers.len() - 1) as usize;
        let full = matching_indices(servers, q);
        assert(full == rest || full == rest.push(last));
        assert forall|i: int| 0 <= i < servers.len() implies (full.contains(i as usize)
            <==> server_matches(servers[i], q)) by {
            if i < servers.len() - 1 {
                assert(servers[i] == pre[i]);
                if full.contains(i as usize) {
                    let m = choose|m: int| 0 <= m < full.len() && full[m] == i as usize;
                    if m < rest.len() {
                        assert(rest[m] == i as usize);
                    }
                }
                if rest.contains(i as usize) {
                    let m = choose|m: int| 0 <= m < rest.len() && rest[m] == i as usize;
                    assert(full[m] == i as usize);
                }
            } else {
                if server_matches(servers[i], q) {
                    assert(full[rest.len() as int] == last);
                } else if full.contains(i as usize) {
                    let m = choose|m: int| 0 <= m < full.len() && full[m] == i as usize;
                    assert(rest[m] < pre.len());
                }
            }
        }
    }
}

/// Whether a server matches a query.
fn server_matches_exec(s: &Server, q: &str) -> (b: bool)
    ensures
        b == server_matches(*s, q@),
{
    if fuzzy_match(s.name.as_str(), q).is_some() {
        return true;
    }
    if fuzzy_match(s.host.as_str(), q).is_some() {
        return true;
    }
    let mut k: usize = 0;
    while k < s.tags.len()
        invariant
            k <= s.tags@.len(),
            forall|j: int| 0 <= j < k ==> (#[trigger] skim_score(s.tags@[j]@, q@)) is None,
        decreases s.tags@.len() - k,
    {
        if fuzzy_match(s.tags[k].as_str(), q).is_some() {
            return true;
        }
        k = k + 1;
    }
    false
}

} // verus!

verus! {

/// How the server list is ordered, before pinned servers are moved to the top.
#[derive(Debug, Clone, Copy, PartialEq, Eq, Structural)]
pub enum SortKey {
    /// By name, A to Z.
    Name,
    /// By port, lowest first.
    Port,
    /// By last connection, most recent first.
    LastConnected,
    /// By number of connections, most first.
    Frequency,
    /// Configured order.
    Unsorted,
}

/// An optional string by its characters.
pub open spec fn opt_chars(o: Option<String>) -> Option<Seq<char>> {
    match o {
        Some(s) => Some(s@),
        None => None,
    }
}

/// The ordering named by a `sort_by` setting.
pub open spec fn sort_key_of(sort_by: Option<Seq<char>>) -> SortKey {
    match sort_by {
        Some(s) => if s == "name"@ {
            SortKey::Name
        } else if s == "port"@ {
            SortKey::Port
        } else if s == "last_connected"@ {
            SortKey::LastConnected
        } else if s == "frequency"@ {
            SortKey::Frequency
        } else {
            SortKey::Unsorted
        },
        None => SortKey::Unsorted,
    }
}

/// The `sort_by` setting that follows `cur` when the user cycles the ordering.
pub open spec fn next_sort_by(cur: Option<Seq<char>>) -> Option<Seq<char>> {
    match sort_key_of(cur) {
        SortKey::Unsorted => if cur is None {
            Some("name"@)
        } else {
            None
        },
        SortKey::Name => Some("port"@),
        SortKey::Port => Some("last_connected"@),
        SortKey::LastConnected => Some("frequency"@),
        SortKey::Frequency => None,
    }
}

/// The label shown for an ordering.
pub open spec fn sort_label(k: SortKey) -> Seq<char> {
    match k {
        SortKey::Name => "Nome"@,
        SortKey::Port => "Porta"@,
        SortKey::LastConnected => "Último acesso"@,
        SortKey::Frequency => "Frequência"@,
        SortKey::Unsorted => "Padrão"@,
    }
}

/// Order of optional strings: `None` first, then by the strings.
pub open spec fn opt_chars_lt(a: Option<Seq<char>>, b: Option<Seq<char>>) -> bool {
    match (a, b) {
        (None, Some(_)) => true,
        (Some(x), Some(y)) => text::chars_lt(x, y),
        _ => false,
    }
}

/// `a` comes strictly before `b` in the ordering `k`.
pub open spec fn key_before(k: SortKey, a: Server, b: Server) -> bool {
    match k {
        SortKey::Name => text::chars_lt(a.name@, b.name@),
        SortKey::Port => a.port < b.port,
        SortKey::LastConnected => opt_chars_lt(opt_chars(b.last_connected), opt_chars(a.last_connected)),
        SortKey::Frequency => b.connection_count < a.connection_count,
        SortKey::Unsorted => false,
    }
}

/// `a` comes strictly before `b` in the list: pinned servers first, then by `k`.
pub open spec fn sorts_before(k: SortKey, a: Server, b: Server) -> bool {
    ||| a.pinned && !b.pinned
    ||| a.pinned == b.pinned && key_before(k, a, b)
}

/// `x` inserted into `r` after every server it does not come before.
pub open spec fn insert_sorted(k: SortKey, r: Seq<Server>, x: Server) -> Seq<Server>
    decreases r.len(),
{
    if r.len() == 0 {
        seq![x]
    } else if sorts_before(k, x, r[0]) {
        seq![x] + r
    } else {
        seq![r[0]] + insert_sorted(k, r.drop_first(), x)
    }
}

/// The stable sort of `s` by `sorts_before`: each server is placed after the earlier
/// ones it does not come before.
pub open spec fn stable_sort(k: SortKey, s: Seq<Server>) -> Seq<Server>
    decreases s.len(),
{
    if s.len() == 0 {
        Seq::empty()
    } else {
        insert_sorted(k, stable_sort(k, s.drop_last()), s.last())
    }
}

/// `insert_sorted` places `x` at the first position whose server `x` comes before.
proof fn lemma_insert_at(k: SortKey, r: Seq<Server>, x: Server, p: int)
    requires
        0 <= p <= r.len(),
        forall|j: int| 0 <= j < p ==> !sorts_before(k, x, #[trigger] r[j]),
        p < r.len() ==> sorts_before(k, x, r[p]),
    ensures
        insert_sorted(k, r, x) == r.insert(p, x),
    decreases p,
{
    if p == 0 {
        assert(r.insert(0, x) =~= seq![x] + r);
    } else {
        let rest = r.drop_first();
        assert forall|j: int| 0 <= j < p - 1 implies !sorts_before(k, x, #[trigger] rest[j]) by {
            assert(rest[j] == r[j + 1]);
        }
        lemma_insert_at(k, rest, x, p - 1);
        assert(seq![r[0]] + rest.insert(p - 1, x) =~= r.insert(p, x));
    }
}

/// The servers of a list that are pinned all come before those that are not.
pub open spec fn pinned_first(r: Seq<Server>) -> bool {
    forall|i: int, j: int| 0 <= i < j < r.len() && (#[trigger] r[j]).pinned ==> (#[trigger] r[i]).pinned
}

proof fn lemma_insert_sorted_members(k: SortKey, r: Seq<Server>, x: Server)
    ensures
        insert_sorted(k, r, x).len() == r.len() + 1,
        forall|i: int|
            0 <= i < r.len() + 1 ==> (#[trigger] insert_sorted(k, r, x)[i] == x || r.contains(
                insert_sorted(k, r, x)[i],
            )),
    decreases r.len(),
{
    if r.len() > 0 && !sorts_before(k, x, r[0]) {
        let rest = r.drop_first();
        lemma_insert_sorted_members(k, rest, x);
        assert forall|i: int| 0 <= i < r.len() + 1 implies (#[trigger] insert_sorted(k, r, x)[i]
            == x || r.contains(insert_sorted(k, r, x)[i])) by {
            if i > 0 {
                let y = insert_sorted(k, rest, x)[i - 1];
                if y != x {
                    let m = choose|m: int| 0 <= m < rest.len() && rest[m] == y;
                    assert(r[m + 1] == y);
                }
            } else {
                assert(r[0] == r[0]);
            }
        }
    } else if r.len() > 0 {
        assert forall|i: int| 0 <= i < r.len() + 1 implies (#[trigger] insert_sorted(k, r, x)[i]
            == x || r.contains(insert_sorted(k, r, x)[i])) by {
            if i > 0 {
                assert(r[i - 1] == insert_sorted(k, r, x)[i]);
            }
        }
    }
}

proof fn lemma_insert_sorted_pinned_first(k: SortKey, r: Seq<Server>, x: Server)
    requires
        pinned_first(r),
    ensures
        pinned_first(insert_sorted(k, r, x)),
    decreases r.len(),
{
    let t = insert_sorted(k, r, x);
    if r.len() == 0 {
    } else if sorts_before(k, x, r[0]) {
        assert forall|i: int, j: int| 0 <= i < j < t.len() && (#[trigger] t[j]).pinned implies (
        #[trigger] t[i]).pinned by {
            if i == 0 {
                if !x.pinned {
                    assert(!r[0].pinned);
                    assert(t[j] == r[j - 1]);
                    assert(r[j - 1].pinned ==> r[0].pinned);
                }
            } else {
                assert(t[i] == r[i - 1] && t[j] == r[j - 1]);
            }
        }
    } else {
        let rest = r.drop_first();
        assert(pinned_first(rest)) by {
            assert forall|i: int, j: int| 0 <= i < j < rest.len() && (#[trigger] rest[j]).pinned implies (
            #[trigger] rest[i]).pinned by {
                assert(rest[i] == r[i + 1] && rest[j] == r[j + 1]);
            }
        }
        lemma_insert_sorted_pinned_first(k, rest, x);
        lemma_insert_sorted_members(k, rest, x);
        let u = insert_sorted(k, rest, x);
        assert(x.pinned ==> r[0].pinned);
        assert forall|i: int, j: int| 0 <= i < j < t.len() && (#[trigger] t[j]).pinned implies (
        #[trigger] t[i]).pinned by {
            if i == 0 {
                assert(t[j] == u[j - 1]);
                if u[j - 1] != x {
                    let m = choose|m: int| 0 <= m < rest.len() && rest[m] == u[j - 1];
                    assert(r[m + 1] == u[j - 1]);
                    assert(r[m + 1].pinned ==> r[0].pinned);
                }
            } else {
                assert(t[i] == u[i - 1] && t[j] == u[j - 1]);
            }
        }
    }
}

/// After sorting, every pinned server comes before every unpinned one.
pub proof fn lemma_stable_sort_pinned_first(k: SortKey, s: Seq<Server>)
    ensures
        pinned_first(stable_sort(k, s)),
    decreases s.len(),
{
    if s.len() > 0 {
        lemma_stable_sort_pinned_first(k, s.drop_last());
        lemma_insert_sorted_pinned_first(k, stable_sort(k, s.drop_last()), s.last());
    }
}

/// No server comes after one it sorts before: for `i < j`, `r[j]` does not sort before
/// `r[i]`.
pub open spec fn sorted_by(k: SortKey, r: Seq<Server>) -> bool {
    forall|i: int, j: int| 0 <= i < j < r.len() ==> !sorts_before(k, #[trigger] r[j], #[trigger] r[i])
}

/// `sorts_before` is a strict order: irreflexive and transitive.
proof fn lemma_sorts_before_order(k: SortKey, a: Server, b: Server, c: Server)
    ensures
        !sorts_before(k, a, a),
        sorts_before(k, a, b) && sorts_before(k, b, c) ==> sorts_before(k, a, c),
{
    text::lemma_chars_lt_irreflexive(a.name@);
    text::lemma_chars_lt_transitive(a.name@, b.name@, c.name@);
    if let (Some(x), Some(y), Some(z)) = (a.last_connected, b.last_connected, c.last_connected) {
        text::lemma_chars_lt_transitive(z@, y@, x@);
    }
    if let Some(x) = a.last_connected {
        text::lemma_chars_lt_irreflexive(x@);
    }
}

/// Inserting into a sorted list keeps it sorted.
proof fn lemma_insert_sorted_sorted(k: SortKey, r: Seq<Server>, x: Server)
    requires
        sorted_by(k, r),
    ensures
        sorted_by(k, insert_sorted(k, r, x)),
    decreases r.len(),
{
    let t = insert_sorted(k, r, x);
    if r.len() == 0 {
    } else if sorts_before(k, x, r[0]) {
        assert forall|i: int, j: int| 0 <= i < j < t.len() implies !sorts_before(k, #[trigger] t[j], #[trigger] t[i]) by {
            if i == 0 {
                assert(t[j] == r[j - 1]);
                lemma_sorts_before_order(k, r[j - 1], x, r[0]);
                lemma_sorts_before_order(k, r[0], r[0], r[0]);
            } else {
                assert(t[i] == r[i - 1] && t[j] == r[j - 1]);
            }
        }
    } else {
        let rest = r.drop_first();
        assert(sorted_by(k, rest)) by {
            assert forall|i: int, j: int| 0 <= i < j < rest.len() implies !sorts_before(k, #[trigger] rest[j], #[trigger] rest[i]) by {
                assert(rest[i] == r[i + 1] && rest[j] == r[j + 1]);
            }
        }
        lemma_insert_sorted_sorted(k, rest, x);
        lemma_insert_sorted_members(k, rest, x);
        let u = insert_sorted(k, rest, x);
        assert forall|i: int, j: int| 0 <= i < j < t.len() implies !sorts_before(k, #[trigger] t[j], #[trigger] t[i]) by {
            if i == 0 {
                assert(t[j] == u[j - 1]);
                if u[j - 1] != x {
                    let m = choose|m: int| 0 <= m < rest.len() && rest[m] == u[j - 1];
                    assert(r[m + 1] == u[j - 1]);
                }
            } else {
                assert(t[i] == u[i - 1] && t[j] == u[j - 1]);
            }
        }
    }
}

/// The sort leaves no server after one it sorts before.
pub proof fn lemma_stable_sort_sorted(k: SortKey, s: Seq<Server>)
    ensures
        sorted_by(k, stable_sort(k, s)),
    decreases s.len(),
{
    if s.len() > 0 {
        lemma_stable_sort_sorted(k, s.drop_last());
        lemma_insert_sorted_sorted(k, stable_sort(k, s.drop_last()), s.last());
    }
}

/// Sorted by last connection, the most recent comes first among servers pinned alike:
/// of two such servers, the later one never connected, or the earlier one connected at
/// a time not before it (timestamps compared as text).
pub proof fn lemma_last_connected_descending(s: Seq<Server>)
    ensures
        forall|i: int, j: int|
            0 <= i < j < stable_sort(SortKey::LastConnected, s).len() && (#[trigger] stable_sort(
                SortKey::LastConnected,
                s,
            )[i]).pinned == (#[trigger] stable_sort(SortKey::LastConnected, s)[j]).pinned ==> (
            stable_sort(SortKey::LastConnected, s)[j].last_connected is None || (stable_sort(
                SortKey::LastConnected,
                s,
            )[i].last_connected is Some && !text::chars_lt(
                stable_sort(SortKey::LastConnected, s)[i].last_connected->Some_0@,
                stable_sort(SortKey::LastConnected, s)[j].last_connected->Some_0@,
            ))),
{
    lemma_stable_sort_sorted(SortKey::LastConnected, s);
}

/// Among servers pinned alike, sorting by name puts them A to Z, by port in increasing
/// port order, and by frequency most used first.
pub proof fn lemma_sort_keys_order(s: Seq<Server>)
    ensures
        forall|i: int, j: int|
            0 <= i < j < stable_sort(SortKey::Name, s).len() && (#[trigger] stable_sort(SortKey::Name, s)[i]).pinned
                == (#[trigger] stable_sort(SortKey::Name, s)[j]).pinned ==> !text::chars_lt(
                stable_sort(SortKey::Name, s)[j].name@,
                stable_sort(SortKey::Name, s)[i].name@,
            ),
        forall|i: int, j: int|
            0 <= i < j < stable_sort(SortKey::Port, s).len() && (#[trigger] stable_sort(SortKey::Port, s)[i]).pinned
                == (#[trigger] stable_sort(SortKey::Port, s)[j]).pinned ==> stable_sort(SortKey::Port, s)[i].port
                <= stable_sort(SortKey::Port, s)[j].port,
        forall|i: int, j: int|
            0 <= i < j < stable_sort(SortKey::Frequency, s).len() && (#[trigger] stable_sort(
                SortKey::Frequency,
                s,
            )[i]).pinned == (#[trigger] stable_sort(SortKey::Frequency, s)[j]).pinned ==> stable_sort(
                SortKey::Frequency,
                s,
            )[i].connection_count >= stable_sort(SortKey::Frequency, s)[j].connection_count,
{
    lemma_stable_sort_sorted(SortKey::Name, s);
    lemma_stable_sort_sorted(SortKey::Port, s);
    lemma_stable_sort_sorted(SortKey::Frequency, s);
}

/// The ordering named by a `sort_by` setting.
pub fn sort_key(sort_by: &Option<String>) -> (k: SortKey)
    ensures
        k == sort_key_of(opt_chars(*sort_by)),
{
    match sort_by {
        Some(s) => if text::str_eq(s.as_str(), "name") {
            SortKey::Name
        } else if text::str_eq(s.as_str(), "port") {
            SortKey::Port
        } else if text::str_eq(s.as_str(), "last_connected") {
            SortKey::LastConnected
        } else if text::str_eq(s.as_str(), "frequency") {
            SortKey::Frequency
        } else {
            SortKey::Unsorted
        },
        None => SortKey::Unsorted,
    }
}

fn opt_str_lt(a: &Option<String>, b: &Option<String>) -> (r: bool)
    ensures
        r == opt_chars_lt(opt_chars(*a), opt_chars(*b)),
{
    match (a, b) {
        (None, Some(_)) => true,
        (Some(x), Some(y)) => text::str_lt(x.as_str(), y.as_str()),
        _ => false,
    }
}

fn sorts_before_exec(k: SortKey, a: &Server, b: &Server) -> (r: bool)
    ensures
        r == sorts_before(k, *a, *b),
{
    if a.pinned != b.pinned {
        return a.pinned;
    }
    match k {
        SortKey::Name => text::str_lt(a.name.as_str(), b.name.as_str()),
        SortKey::Port => a.port < b.port,
        SortKey::LastConnected => opt_str_lt(&b.last_connected, &a.last_connected),
        SortKey::Frequency => b.connection_count < a.connection_count,
        SortKey::Unsorted => false,
    }
}

/// Sorts servers stably: pinned ones first, then by `k`.
pub fn sort_server_list(k: SortKey, servers: Vec<Server>) -> (r: Vec<Server>)
    ensures
        r@ == stable_sort(k, servers@),
{
    let ghost orig = servers@;
    let total = servers.len();
    let mut src = servers;
    let mut out: Vec<Server> = Vec::new();
    let mut n: usize = 0;
    assert(orig.skip(0) == orig);
    while src.len() > 0
        invariant
            n <= orig.len(),
            orig.len() == total,
            src@.len() == orig.len() - n,
            src@ == orig.skip(n as int),
            out@ == stable_sort(k, orig.take(n as int)),
        decreases src@.len(),
    {
        let x = src.remove(0);
        let mut p: usize = 0;
        while p < out.len() && !sorts_before_exec(k, &x, &out[p])
            invariant
                p <= out@.len(),
                forall|j: int| 0 <= j < p ==> !sorts_before(k, x, #[trigger] out@[j]),
            decreases out@.len() - p,
        {
            p = p + 1;
        }
        proof {
            lemma_insert_at(k, out@, x, p as int);
            assert(orig.take(n + 1).drop_last() == orig.take(n as int));
            assert(orig.take(n + 1).last() == x);
            assert(orig.skip(n + 1) == orig.skip(n as int).drop_first());
        }
        out.insert(p, x);
        n = n + 1;
    }
    assert(orig.take(orig.len() as int) == orig);
    out
}

/// `user@host:port`-like key under which imported servers are compared:
/// `host:port:user`.
pub open spec fn server_key(s: Server) -> Seq<char> {
    s.host@ + seq![':'] + text::decimal(s.port as nat) + seq![':'] + s.user@
}

/// Some server of `list` has the key `key`.
pub open spec fn key_taken(list: Seq<Server>, key: Seq<char>) -> bool {
    exists|i: int| 0 <= i < list.len() && server_key(#[trigger] list[i]) == key
}

/// The servers after importing `imported` into `existing`, with the numbers of added and
/// skipped servers: in order, each imported server is added unless a server with its key
/// is already in the list.
pub open spec fn merge_servers(existing: Seq<Server>, imported: Seq<Server>) -> (Seq<Server>, nat, nat)
    decreases imported.len(),
{
    if imported.len() == 0 {
        (existing, 0, 0)
    } else {
        let (l, a, s) = merge_servers(existing, imported.drop_last());
        let x = imported.last();
        if key_taken(l, server_key(x)) {
            (l, a, s + 1)
        } else {
            (l.push(x), a + 1, s)
        }
    }
}

proof fn lemma_merge_counts(existing: Seq<Server>, imported: Seq<Server>)
    ensures
        merge_servers(existing, imported).1 + merge_servers(existing, imported).2 == imported.len(),
        merge_servers(existing, imported).0.len() == existing.len() + merge_servers(existing, imported).1,
    decreases imported.len(),
{
    if imported.len() > 0 {
        lemma_merge_counts(existing, imported.drop_last());
    }
}

/// The key of a server, as a string.
pub fn server_key_string(s: &Server) -> (r: String)
    ensures
        r@ == server_key(*s),
{
    let mut v = text::str_chars(s.host.as_str());
    v.push(':');
    text::push_decimal(&mut v, s.port as u64);
    v.push(':');
    let u = text::str_chars(s.user.as_str());
    text::append_chars(&mut v, u.as_slice());
    text::chars_to_string(v.as_slice())
}

} // verus!

verus! {

/// Why a remote directory is listed, which decides what the listing does to the state.
#[derive(Debug, Clone, Copy, PartialEq, Eq, Structural)]
pub enum ListPurpose {
    /// First listing after connecting: sets the status line, then announces the connection.
    Open,
    /// After moving in the remote pane: a failure is reported.
    Navigate,
    /// After `r`: a failure is reported, then `Atualizado!` is shown.
    Refresh,
    /// After a change on the server: a failure is ignored; `announce` shows
    /// `Operação concluída!` afterwards.
    AfterChange { announce: bool },
    /// Jump to a bookmark: on success the remote path becomes the listed one.
    Jump,
    /// After the background transfers ended: the transfer is then marked finished.
    TransferDone,
}

/// A change made on the SFTP server.
#[derive(Debug, Clone)]
pub enum RemoteOp {
    /// Create the directory at the path.
    Mkdir { path: String },
    /// Rename `from` to `to`.
    Rename { from: String, to: String },
    /// Set the permission bits of the path.
    SetPermissions { path: String, mode: u32 },
    /// Remove the directory at the path.
    RemoveDir { path: String },
    /// Remove the file at the path.
    RemoveFile { path: String },
}

/// What asked for a change on the server.
#[derive(Debug, Clone)]
pub enum OpOrigin {
    /// The SFTP input line (mkdir, rename, chmod).
    Input,
    /// Removal of the named entry (`x`).
    Removal { name: String },
}

/// One file of a background transfer: its name, source path and destination path.
#[derive(Debug, Clone)]
pub struct TransferJob {
    pub name: String,
    pub from: String,
    pub to: String,
}

/// Outside work the interface loop performs for the library, then reports with an
/// `Outcome`.
#[derive(Debug)]
pub enum Effect {
    /// Show a notification (no outside work).
    Notify { kind: NotificationType, message: String },
    /// Write the configuration file; then carry on with `then`.
    SaveConfig { config: AppConfig, then: Option<Box<Effect>> },
    /// Read and parse `~/.ssh/config` (outcome `Imported`).
    ReadSshConfig,
    /// Try a TCP connection to the server (outcome `Done`).
    TestConnection { name: String, host: String, port: u16 },
    /// Put the text on the clipboard (outcome `Copied`).
    CopyToClipboard { text: String },
    /// Open an SFTP session to the server (outcome `Session`).
    ConnectSftp { server: Server },
    /// Close the SFTP session.
    DisconnectSftp { session_id: String },
    /// List a remote directory (outcome `Listing`).
    ListRemote { session_id: String, path: String, purpose: ListPurpose },
    /// List the local directory of the browser (outcome `Listing`); then carry on with
    /// `then`.
    ListLocal { then: Option<Box<Effect>> },
    /// Enter the named directory of the browser's local directory (outcome `Moved`).
    EnterLocalDir { name: String },
    /// Change something on the server (outcome `Done`); `dir` is listed afterwards.
    ChangeRemote { session_id: String, op: RemoteOp, dir: String, origin: OpOrigin },
    /// Copy files in the background; each result arrives as an `SftpOpResult`.
    Transfer { server: Server, jobs: Vec<TransferJob>, upload: bool },
    /// Show the terminal cursor as a blinking bar.
    ShowCursor,
    /// Hide the terminal cursor.
    HideCursor,
}

/// What came of an `Effect`.
#[derive(Debug)]
pub enum Outcome {
    /// The effect has no result.
    Nothing,
    /// Success or the error's text.
    Done(Result<(), String>),
    /// Entries of a listed directory, or the error's text.
    Listing(Result<Vec<FileInfo>, String>),
    /// Id of the opened session, or the error's text.
    Session(Result<String, String>),
    /// The directory entered (its full path), or the error's text.
    Moved(Result<String, String>),
    /// Servers read from the SSH configuration.
    Imported(Vec<Server>),
    /// Whether the clipboard took the text.
    Copied(bool),
}

/// State of the whole interface.
pub struct App {
    /// Configured servers.
    pub servers: Vec<Server>,
    /// Indices (into `servers`) of the servers shown.
    pub filtered_indices: Vec<usize>,
    /// Cursor in the shown list.
    pub selected: usize,
    /// The view on screen.
    pub current_view: CurrentView,
    /// What keys typed in the server list do.
    pub input_mode: InputMode,
    /// Text of the search line.
    pub input: String,
    /// Set when the interface should end.
    pub should_quit: bool,
    /// The SFTP browser, while open.
    pub sftp_state: Option<SftpState>,
    /// The add/edit form, while open.
    pub form_state: Option<FormState>,
    /// Notifications shown.
    pub notifications: NotificationQueue,
    /// A window over the view.
    pub overlay: Option<Overlay>,
    /// An open confirmation.
    pub confirm_state: Option<ConfirmState>,
    /// Active ordering setting.
    pub sort_by: Option<String>,
}

/// The search query shown for an empty configuration.
pub open spec fn empty_list_message() -> Seq<char> {
    "Nenhum servidor configurado. Pressione 'a' para adicionar."@
}

/// The message shown when `n` servers were loaded.
pub open spec fn loaded_message(n: nat) -> Seq<char> {
    text::decimal(n) + " servidor(es) carregado(s)."@
}

/// The message shown after an import.
pub open spec fn imported_message(added: nat, skipped: nat) -> Seq<char> {
    "Importados "@ + text::decimal(added) + " servidor(es), "@ + text::decimal(skipped)
        + " ignorado(s)"@
}

/// The configuration written from a server list, with no ordering setting.
pub open spec fn config_of(servers: Seq<Server>, cfg: AppConfig) -> bool {
    crate::config::models::same_servers(cfg.servers@, servers) && cfg.sort_by is None
}

/// `a` with the cursor moved down, from the last server back to the first.
pub open spec fn moved_down(a: App) -> App {
    App {
        selected: if a.filtered_indices@.len() == 0 {
            a.selected
        } else {
            ((a.selected + 1) % (a.filtered_indices@.len() as int)) as usize
        },
        ..a
    }
}

/// `a` with the cursor moved up, from the first server to the last.
pub open spec fn moved_up(a: App) -> App {
    App {
        selected: if a.filtered_indices@.len() == 0 {
            a.selected
        } else if a.selected == 0 {
            (a.filtered_indices@.len() - 1) as usize
        } else {
            (a.selected - 1) as usize
        },
        ..a
    }
}

/// `b` is `a` after switching to the next ordering: servers sorted by it, those matching
/// the search line shown, cursor on the first, and the ordering told.
pub open spec fn sort_cycled(a: App, b: App) -> bool {
    let next = next_sort_by(opt_chars(a.sort_by));
    &&& opt_chars(b.sort_by) == next
    &&& b.servers@ == stable_sort(sort_key_of(next), a.servers@)
    &&& b.filtered_indices@ == shown_indices(b.servers@, a.input@)
    &&& crate::tui::notifications::notifies(
        a.notifications,
        b.notifications,
        NotificationType::Info,
        "Ordenado por: "@ + sort_label(sort_key_of(next)),
    )
    &&& b == (App {
        servers: b.servers,
        filtered_indices: b.filtered_indices,
        selected: 0,
        sort_by: b.sort_by,
        notifications: b.notifications,
        ..a
    })
}

impl App {
    /// The app keeps a well-formed notification queue.
    pub open spec fn wf(&self) -> bool {
        self.notifications.wf()
    }

    /// Index into `servers` of the server under the cursor, when there is one.
    pub open spec fn selection(&self) -> Option<int> {
        if self.selected < self.filtered_indices@.len()
            && self.filtered_indices@[self.selected as int] < self.servers@.len() {
            Some(self.filtered_indices@[self.selected as int] as int)
        } else {
            None
        }
    }

    /// The interface for `servers`: server list, all servers shown, cursor on the first,
    /// and a notification telling how many servers were loaded.
    pub fn new(servers: Vec<Server>) -> (app: App)
        ensures
            app.wf(),
            app.servers@ == servers@,
            app.filtered_indices@ == crate::tui::sftp_browser::all_indices(servers@.len()),
            app.selected == 0,
            app.current_view == CurrentView::ServerList,
            app.input_mode == InputMode::Normal,
            app.input@.len() == 0,
            !app.should_quit,
            app.sftp_state is None,
            app.form_state is None,
            app.overlay is None,
            app.confirm_state is None,
            app.sort_by is None,
            app.notifications.items().len() == 1,
            servers@.len() == 0 ==> app.notifications.items()[0].message@ == empty_list_message()
                && app.notifications.items()[0].notification_type == NotificationType::Info,
            servers@.len() > 0 ==> app.notifications.items()[0].message@ == loaded_message(
                servers@.len(),
            ) && app.notifications.items()[0].notification_type == NotificationType::Success,
    {
        let n = servers.len();
        let mut idx: Vec<usize> = Vec::new();
        let mut i: usize = 0;
        while i < n
            invariant
                i <= n,
                idx@ == crate::tui::sftp_browser::all_indices(i as nat),
            decreases n - i,
        {
            idx.push(i);
            assert(idx@ =~= crate::tui::sftp_browser::all_indices((i + 1) as nat));
            i = i + 1;
        }
        let mut notifications = NotificationQueue::new();
        let ghost q0 = notifications;
        if n == 0 {
            notifications.info("Nenhum servidor configurado. Pressione 'a' para adicionar.");
        } else {
            let count = text::u64_to_decimal(n as u64);
            let msg = text::concat_strs(count.as_str(), " servidor(es) carregado(s).");
            notifications.success(msg.as_str());
        }
        proof {
            if n == 0 {
                crate::tui::notifications::lemma_notifies_last(q0, notifications, NotificationType::Info, empty_list_message());
            } else {
                crate::tui::notifications::lemma_notifies_last(q0, notifications, NotificationType::Success, loaded_message(n as nat));
            }
        }
        App {
            servers,
            filtered_indices: idx,
            selected: 0,
            current_view: CurrentView::ServerList,
            input_mode: InputMode::Normal,
            input: String::new(),
            should_quit: false,
            sftp_state: None,
            form_state: None,
            notifications,
            overlay: None,
            confirm_state: None,
            sort_by: None,
        }
    }

    /// Moves the cursor down, from the last server back to the first.
    pub fn next(&mut self)
        ensures
            *final(self) == moved_down(*old(self)),
    {
        let len = self.filtered_indices.len();
        if len == 0 {
            return;
        }
        let r = self.selected % len;
        proof {
            vstd::arithmetic::div_mod::lemma_add_mod_noop(self.selected as int, 1, len as int);
            vstd::arithmetic::div_mod::lemma_mod_twice(self.selected as int, len as int);
            if len > 1 {
                vstd::arithmetic::div_mod::lemma_small_mod(1, len as nat);
            } else {
                assert(1int % 1 == 0);
                assert((r + 1) % 1 == 0) by (nonlinear_arith);
                assert((self.selected + 1) % 1 == 0) by (nonlinear_arith);
            }
        }
        self.selected = (r + 1) % len;
    }

    /// Moves the cursor up, from the first server to the last.
    pub fn previous(&mut self)
        ensures
            *final(self) == moved_up(*old(self)),
    {
        if self.filtered_indices.len() == 0 {
            return;
        }
        self.selected = if self.selected == 0 {
            self.filtered_indices.len() - 1
        } else {
            self.selected - 1
        };
    }

    /// Shows the servers matching `query` (all of them for an empty query); the cursor
    /// goes to the first.
    pub fn filter(&mut self, query: &str)
        ensures
            *final(self) == (App {
                filtered_indices: final(self).filtered_indices,
                selected: 0,
                ..*old(self)
            }),
            final(self).filtered_indices@ == shown_indices(old(self).servers@, query@),
    {
        let n = self.servers.len();
        let mut idx: Vec<usize> = Vec::new();
        let mut i: usize = 0;
        if query.is_empty() {
            while i < n
                invariant
                    i <= n,
                    idx@ == crate::tui::sftp_browser::all_indices(i as nat),
                decreases n - i,
            {
                idx.push(i);
                assert(idx@ =~= crate::tui::sftp_browser::all_indices((i + 1) as nat));
                i = i + 1;
            }
        } else {
            while i < n
                invariant
                    i <= n,
                    n == self.servers@.len(),
                    idx@ == matching_indices(self.servers@.take(i as int), query@),
                decreases n - i,
            {
                let m = server_matches_exec(&self.servers[i], query);
                assert(self.servers@.take(i + 1).drop_last() == self.servers@.take(i as int));
                assert(self.servers@.take(i + 1).last() == self.servers@[i as int]);
                if m {
                    idx.push(i);
                }
                i = i + 1;
            }
            assert(self.servers@.take(n as int) == self.servers@);
        }
        self.filtered_indices = idx;
        self.selected = 0;
    }

    /// Index into `servers` of the server under the cursor.
    pub fn selected_index(&self) -> (r: Option<usize>)
        ensures
            match self.selection() {
                Some(i) => r == Some(i as usize),
                None => r is None,
            },
    {
        if self.selected < self.filtered_indices.len() {
            let i = self.filtered_indices[self.selected];
            if i < self.servers.len() {
                return Some(i);
            }
        }
        None
    }

    /// The server under the cursor.
    pub fn selected_server(&self) -> (r: Option<&Server>)
        ensures
            match self.selection() {
                Some(i) => r == Some(&self.servers@[i]),
                None => r is None,
            },
    {
        match self.selected_index() {
            Some(i) => Some(&self.servers[i]),
            None => None,
        }
    }

    /// The server under the cursor, for changing it; the rest of the interface stays.
    pub fn selected_server_mut(&mut self) -> (r: Option<&mut Server>)
        ensures
            r is Some <==> old(self).selection() is Some,
            r matches Some(s) ==> *s == old(self).servers@[old(self).selection()->0],
            r matches Some(s) ==> final(self).servers@ == old(self).servers@.update(
                old(self).selection()->0,
                *final(s),
            ) && *final(self) == (App { servers: final(self).servers, ..*old(self) }),
            r is None ==> *final(self) == *old(self),
    {
        match self.selected_index() {
            Some(i) => Some(&mut self.servers[i]),
            None => None,
        }
    }

    /// Orders the servers by the active setting, pinned ones first, keeping the order of
    /// equal ones; then shows those matching the search line.
    pub fn sort_servers(&mut self)
        ensures
            final(self).servers@ == stable_sort(
                sort_key_of(opt_chars(old(self).sort_by)),
                old(self).servers@,
            ),
            final(self).filtered_indices@ == shown_indices(final(self).servers@, old(self).input@),
            pinned_first(final(self).servers@),
            *final(self) == (App {
                servers: final(self).servers,
                filtered_indices: final(self).filtered_indices,
                selected: 0,
                ..*old(self)
            }),
    {
        proof {
            lemma_stable_sort_pinned_first(sort_key_of(opt_chars(self.sort_by)), self.servers@);
        }
        let k = sort_key(&self.sort_by);
        let mut list: Vec<Server> = Vec::new();
        std::mem::swap(&mut list, &mut self.servers);
        self.servers = sort_server_list(k, list);
        let q = self.input.clone();
        self.filter(q.as_str());
    }

    /// Switches to the next ordering (none, name, port, last access, frequency), sorts,
    /// and tells which ordering is active.
    pub fn cycle_sort_by(&mut self)
        requires
            old(self).wf(),
        ensures
            sort_cycled(*old(self), *final(self)),
    {
        let k = sort_key(&self.sort_by);
        let next: Option<String> = match k {
            SortKey::Unsorted => if self.sort_by.is_none() {
                Some("name".to_owned())
            } else {
                None
            },
            SortKey::Name => Some("port".to_owned()),
            SortKey::Port => Some("last_connected".to_owned()),
            SortKey::LastConnected => Some("frequency".to_owned()),
            SortKey::Frequency => None,
        };
        self.sort_by = next;
        self.sort_servers();
        let label = match sort_key(&self.sort_by) {
            SortKey::Name => "Nome",
            SortKey::Port => "Porta",
            SortKey::LastConnected => "Último acesso",
            SortKey::Frequency => "Frequência",
            SortKey::Unsorted => "Padrão",
        };
        let msg = text::concat_strs("Ordenado por: ", label);
        self.notifications.info(msg.as_str());
    }
}


/// Whether the key of `s` is `key`.
fn has_key(s: &Server, key: &str) -> (b: bool)
    ensures
        b == (server_key(*s) == key@),
{
    let k = server_key_string(s);
    text::str_eq(k.as_str(), key)
}

/// A configuration holding a copy of `servers` and the given ordering setting.
pub fn config_from(servers: &Vec<Server>, sort_by: &Option<String>) -> (cfg: AppConfig)
    ensures
        crate::config::models::same_servers(cfg.servers@, servers@),
        cfg.sort_by == *sort_by,
{
    AppConfig { servers: clone_servers(servers), sort_by: clone_opt_string(sort_by) }
}

/// A browser just opened on `server` over the session `sid`.
pub open spec fn fresh_browser(st: SftpState, server: Server, sid: Seq<char>) -> bool {
    &&& st.remote_path@ == crate::tui::sftp_browser::home_of(server.user@)
    &&& st.focus_side == crate::tui::sftp_browser::Side::Local
    &&& st.status@ == "Conectando..."@
    &&& st.local_files@.len() == 0
    &&& st.remote_files@.len() == 0
    &&& st.local_selected == 0
    &&& st.remote_selected == 0
    &&& st.local_selected_files@.len() == 0
    &&& st.remote_selected_files@.len() == 0
    &&& st.transfer_progress is None
    &&& st.transfer_state is Idle
    &&& !st.is_transferring
    &&& opt_chars(st.session_id) == Some(sid)
    &&& st.input_mode == crate::tui::sftp_browser::SftpInputMode::Inactive
    &&& st.input_buffer@.len() == 0
    &&& st.input_cursor == 0
    &&& st.transfer_start is None
}

/// `b` and `eff` are what importing `imported` into `a` gives.
pub open spec fn imports_into(a: App, imported: Seq<Server>, b: App, eff: Option<Effect>) -> bool {
    if imported.len() == 0 {
        &&& eff is None
        &&& crate::tui::notifications::notifies(
            a.notifications,
            b.notifications,
            NotificationType::Warning,
            "Nenhum servidor encontrado em ~/.ssh/config"@,
        )
        &&& b == (App { notifications: b.notifications, ..a })
    } else {
        let (l, added, skipped) = merge_servers(a.servers@, imported);
        &&& b.servers@ == l
        &&& added > 0 ==> {
            &&& b.filtered_indices@ == crate::tui::sftp_browser::all_indices(l.len())
            &&& eff matches Some(e) && e matches Effect::SaveConfig { config, then } && then
                matches Some(t) && *t matches Effect::Notify { kind, message } && kind
                == NotificationType::Info && message@ == imported_message(added, skipped)
                && crate::config::models::same_servers(config.servers@, l) && config.sort_by is None
            &&& b == (App {
                servers: b.servers,
                filtered_indices: b.filtered_indices,
                selected: 0,
                ..a
            })
        }
        &&& added == 0 ==> eff is None && crate::tui::notifications::notifies(
            a.notifications,
            b.notifications,
            NotificationType::Info,
            imported_message(added, skipped),
        ) && b == (App { servers: b.servers, notifications: b.notifications, ..a })
    }
}

impl App {
    /// Adds the servers read from the SSH configuration whose `host:port:user` is not in
    /// the list yet. When some were added, all servers are shown, the cursor goes to the
    /// first, and the configuration is to be written before the counts are told.
    pub fn import_servers(&mut self, imported: Vec<Server>) -> (eff: Option<Effect>)
        requires
            old(self).wf(),
        ensures
            final(self).wf(),
            imports_into(*old(self), imported@, *final(self), eff),
    {
        if imported.len() == 0 {
            self.notifications.warning("Nenhum servidor encontrado em ~/.ssh/config");
            return None;
        }
        let ghost existing = self.servers@;
        let ghost orig = imported@;
        let total = imported.len();
        let mut src = imported;
        let mut added: usize = 0;
        let mut skipped: usize = 0;
        let mut n: usize = 0;
        assert(orig.skip(0) == orig);
        while src.len() > 0
            invariant
                n <= orig.len(),
                orig.len() == total,
                src@.len() == orig.len() - n,
                src@ == orig.skip(n as int),
                added + skipped == n,
                merge_servers(existing, orig.take(n as int)) == (self.servers@, added as nat, skipped as nat),
                *self == (App { servers: self.servers, ..*old(self) }),
                old(self).wf(),
            decreases src@.len(),
        {
            let x = src.remove(0);
            let key = server_key_string(&x);
            let m = self.servers.len();
            let mut j: usize = 0;
            while j < m && !has_key(&self.servers[j], key.as_str())
                invariant
                    j <= m,
                    m == self.servers@.len(),
                    forall|i: int| 0 <= i < j ==> server_key(#[trigger] self.servers@[i]) != key@,
                decreases m - j,
            {
                j = j + 1;
            }
            proof {
                assert(orig.take(n + 1).drop_last() == orig.take(n as int));
                assert(orig.take(n + 1).last() == x);
                assert(orig.skip(n + 1) == orig.skip(n as int).drop_first());
                if j < m {
                    assert(key_taken(self.servers@, server_key(x)));
                }
            }
            if j < m {
                skipped = skipped + 1;
            } else {
                self.servers.push(x);
                added = added + 1;
            }
            n = n + 1;
        }
        assert(orig.take(orig.len() as int) == orig);
        let a = text::u64_to_decimal(added as u64);
        let k = text::u64_to_decimal(skipped as u64);
        let m1 = text::concat_strs("Importados ", a.as_str());
        let m2 = text::concat_strs(m1.as_str(), " servidor(es), ");
        let m3 = text::concat_strs(m2.as_str(), k.as_str());
        let msg = text::concat_strs(m3.as_str(), " ignorado(s)");
        if added > 0 {
            let len = self.servers.len();
            let mut idx: Vec<usize> = Vec::new();
            let mut i: usize = 0;
            while i < len
                invariant
                    i <= len,
                    idx@ == crate::tui::sftp_browser::all_indices(i as nat),
                decreases len - i,
            {
                idx.push(i);
                assert(idx@ =~= crate::tui::sftp_browser::all_indices((i + 1) as nat));
                i = i + 1;
            }
            self.filtered_indices = idx;
            self.selected = 0;
            let config = config_from(&self.servers, &None);
            Some(
                Effect::SaveConfig {
                    config,
                    then: Some(Box::new(Effect::Notify { kind: NotificationType::Info, message: msg })),
                },
            )
        } else {
            self.notifications.info(msg.as_str());
            None
        }
    }
}


/// The browser with the listing shown, when it arrived.
pub open spec fn with_listing(st: SftpState, listing: Result<Vec<FileInfo>, String>) -> SftpState {
    match listing {
        Ok(files) => SftpState { remote_files: files, remote_selected: 0, ..st },
        Err(_) => st,
    }
}

/// `after` is `before` with the transfer ended: idle, no progress, no marks.
pub open spec fn transfer_ended(before: SftpState, after: SftpState) -> bool {
    &&& after.transfer_state is Idle
    &&& after.local_selected_files@.len() == 0
    &&& after.remote_selected_files@.len() == 0
    &&& after == (SftpState {
        transfer_state: after.transfer_state,
        transfer_progress: None,
        is_transferring: false,
        local_selected_files: after.local_selected_files,
        remote_selected_files: after.remote_selected_files,
        ..before
    })
}

/// `nst` is the browser `st` after a listing of `path` arrived for `purpose`.
pub open spec fn browser_after_listing(
    st: SftpState,
    nst: SftpState,
    path: String,
    purpose: ListPurpose,
    listing: Result<Vec<FileInfo>, String>,
) -> bool {
    let shown = with_listing(st, listing);
    match purpose {
        ListPurpose::Open => match listing {
            Ok(_) => nst == (SftpState { status: nst.status, ..shown }) && nst.status@ == "Conectado"@,
            Err(e) => nst == (SftpState { status: nst.status, ..st }) && nst.status@ == "Erro: "@ + e@,
        },
        ListPurpose::Jump => match listing {
            Ok(_) => nst == (SftpState { remote_path: path, ..shown }),
            Err(_) => nst == st,
        },
        ListPurpose::TransferDone => transfer_ended(shown, nst),
        _ => nst == shown,
    }
}

/// The notifications a listing for `purpose` adds.
pub open spec fn listing_notes(
    a: NotificationQueue,
    b: NotificationQueue,
    purpose: ListPurpose,
    listing: Result<Vec<FileInfo>, String>,
) -> bool {
    match purpose {
        ListPurpose::Open => crate::tui::notifications::notifies(a, b, NotificationType::Info, "SFTP conectado!"@),
        ListPurpose::Navigate => match listing {
            Ok(_) => b == a,
            Err(e) => crate::tui::notifications::notifies(a, b, NotificationType::Error, e@),
        },
        ListPurpose::Refresh => match listing {
            Ok(_) => crate::tui::notifications::notifies(a, b, NotificationType::Info, "Atualizado!"@),
            Err(e) => crate::tui::notifications::notifies_twice(
                a,
                b,
                NotificationType::Error,
                e@,
                NotificationType::Info,
                "Atualizado!"@,
            ),
        },
        ListPurpose::AfterChange { announce } => if announce {
            crate::tui::notifications::notifies(a, b, NotificationType::Success, "Operação concluída!"@)
        } else {
            b == a
        },
        _ => b == a,
    }
}

/// `b` and `eff` are what `a` becomes when the SFTP session with `server` opened
/// (`Ok` with its id) or failed to.
pub open spec fn sftp_opened(a: App, server: Server, session: Result<String, String>, b: App, eff: Option<Effect>) -> bool {
    match session {
        Ok(sid) => {
            &&& b.sftp_state matches Some(st) && fresh_browser(st, server, sid@) && (eff matches Some(
                Effect::ListLocal { then },
            ) && then matches Some(t) && (*t matches Effect::ListRemote { session_id, path, purpose }
                && session_id@ == sid@ && path == st.remote_path && purpose == ListPurpose::Open))
            &&& b == (App { current_view: CurrentView::SftpBrowser, sftp_state: b.sftp_state, ..a })
        },
        Err(e) => {
            &&& eff is None
            &&& crate::tui::notifications::notifies(
                a.notifications,
                b.notifications,
                NotificationType::Error,
                "Falha ao conectar SFTP: "@ + e@,
            )
            &&& b == (App { notifications: b.notifications, ..a })
        },
    }
}

impl App {
    /// Asks to open an SFTP session to the server under the cursor.
    pub fn open_sftp(&self) -> (eff: Option<Effect>)
        ensures
            match self.selection() {
                Some(i) => eff matches Some(Effect::ConnectSftp { server }) && server.same_as(
                    self.servers@[i],
                ),
                None => eff is None,
            },
    {
        match self.selected_index() {
            Some(i) => Some(Effect::ConnectSftp { server: self.servers[i].duplicate() }),
            None => None,
        }
    }

    /// Shows the SFTP browser over an opened session and asks for its first listing, or
    /// tells why the connection failed.
    pub fn sftp_connected(&mut self, server: Server, session: Result<String, String>) -> (eff: Option<
        Effect,
    >)
        requires
            old(self).wf(),
        ensures
            final(self).wf(),
            sftp_opened(*old(self), server, session, *final(self), eff),
    {
        match session {
            Ok(sid) => {
                let mut st = SftpState::new(server);
                st.session_id = Some(sid.clone());
                let path = st.remote_path.clone();
                self.current_view = CurrentView::SftpBrowser;
                self.sftp_state = Some(st);
                let list_remote = Effect::ListRemote {
                    session_id: sid,
                    path,
                    purpose: ListPurpose::Open,
                };
                Some(Effect::ListLocal { then: Some(Box::new(list_remote)) })
            },
            Err(e) => {
                let msg = text::concat_strs("Falha ao conectar SFTP: ", e.as_str());
                self.notifications.error(msg.as_str());
                None
            },
        }
    }

    /// Applies the listing of the remote directory `path`, asked for `purpose`.
    pub fn remote_listed(
        &mut self,
        path: String,
        purpose: ListPurpose,
        listing: Result<Vec<FileInfo>, String>,
    )
        requires
            old(self).wf(),
        ensures
            final(self).wf(),
            *final(self) == (App {
                sftp_state: final(self).sftp_state,
                notifications: final(self).notifications,
                ..*old(self)
            }),
            match old(self).sftp_state {
                Some(st) => final(self).sftp_state matches Some(nst) && browser_after_listing(
                    st,
                    nst,
                    path,
                    purpose,
                    listing,
                ),
                None => final(self).sftp_state is None,
            },
            listing_notes(old(self).notifications, final(self).notifications, purpose, listing),
    {
        let ghost l = listing;
        let ghost p = path;
        let failure: Option<String> = match listing {
            Ok(files) => {
                if let Some(st) = &mut self.sftp_state {
                    st.refresh_remote(files);
                    match purpose {
                        ListPurpose::Open => {
                            st.status = "Conectado".to_owned();
                        },
                        ListPurpose::Jump => {
                            st.remote_path = path;
                        },
                        _ => {},
                    }
                }
                None
            },
            Err(e) => {
                if let Some(st) = &mut self.sftp_state {
                    if purpose == ListPurpose::Open {
                        st.status = text::concat_strs("Erro: ", e.as_str());
                    }
                }
                Some(e)
            },
        };
        if purpose == ListPurpose::TransferDone {
            if let Some(st) = &mut self.sftp_state {
                st.finish_transfer();
            }
        }
        match purpose {
            ListPurpose::Open => {
                self.notifications.info("SFTP conectado!");
            },
            ListPurpose::Navigate => {
                if let Some(e) = failure {
                    self.notifications.error(e.as_str());
                }
            },
            ListPurpose::Refresh => {
                let ghost q0 = self.notifications;
                if let Some(e) = failure {
                    self.notifications.error(e.as_str());
                }
                let ghost q1 = self.notifications;
                self.notifications.info("Atualizado!");
                proof {
                    if let Err(e) = l {
                        assert(crate::tui::notifications::notifies(q0, q1, NotificationType::Error, e@));
                    }
                }
            },
            ListPurpose::AfterChange { announce } => {
                if announce {
                    self.notifications.success("Operação concluída!");
                }
            },
            _ => {},
        }
    }

    /// Leaves the SFTP browser for the server list; an open session is to be closed.
    pub fn close_sftp(&mut self) -> (eff: Option<Effect>)
        ensures
            *final(self) == (App {
                current_view: CurrentView::ServerList,
                sftp_state: None,
                ..*old(self)
            }),
            match old(self).sftp_state {
                Some(st) => match st.session_id {
                    Some(sid) => eff matches Some(Effect::DisconnectSftp { session_id })
                        && session_id@ == sid@,
                    None => eff is None,
                },
                None => eff is None,
            },
    {
        let mut eff: Option<Effect> = None;
        if let Some(st) = &self.sftp_state {
            if let Some(sid) = &st.session_id {
                eff = Some(Effect::DisconnectSftp { session_id: sid.clone() });
            }
        }
        self.current_view = CurrentView::ServerList;
        self.sftp_state = None;
        eff
    }

    /// Opens nothing: SSH sessions are handed to the terminal instead.
    pub fn connect_ssh(&mut self)
        ensures
            *final(self) == *old(self),
    {
    }

    /// Tells how an SSH session handed to the terminal ended: `Ok(true)` for a normal
    /// end, `Ok(false)` for a failure exit, `Err` when `ssh` could not be started.
    pub fn ssh_session_ended(&mut self, outcome: Result<bool, String>)
        requires
            old(self).wf(),
        ensures
            *final(self) == (App { notifications: final(self).notifications, ..*old(self) }),
            match outcome {
                Ok(true) => crate::tui::notifications::notifies(
                    old(self).notifications,
                    final(self).notifications,
                    NotificationType::Info,
                    "Conexão SSH encerrada."@,
                ),
                Ok(false) => crate::tui::notifications::notifies(
                    old(self).notifications,
                    final(self).notifications,
                    NotificationType::Info,
                    "SSH saiu sem término bem-sucedido."@,
                ),
                Err(e) => crate::tui::notifications::notifies(
                    old(self).notifications,
                    final(self).notifications,
                    NotificationType::Error,
                    "Falha ao abrir SSH: "@ + e@,
                ),
            },
    {
        match outcome {
            Ok(true) => self.notifications.info("Conexão SSH encerrada."),
            Ok(false) => self.notifications.info("SSH saiu sem término bem-sucedido."),
            Err(e) => {
                let msg = text::concat_strs("Falha ao abrir SSH: ", e.as_str());
                self.notifications.error(msg.as_str());
            },
        }
    }
}


impl App {
    /// Takes in one message of the background transfers: a copied file is told, an
    /// error is shown, and `true` is answered for the message that ends them
    /// (an `Error` reading `__done__`).
    pub fn transfer_message(&mut self, msg: SftpOpResult) -> (done: bool)
        requires
            old(self).wf(),
        ensures
            final(self).wf(),
            match msg {
                SftpOpResult::Upload(name) => !done && crate::tui::notifications::notifies(
                    old(self).notifications,
                    final(self).notifications,
                    NotificationType::Success,
                    "Enviado: "@ + name@,
                ) && *final(self) == (App { notifications: final(self).notifications, ..*old(self) }),
                SftpOpResult::Error(m) => if m@ == "__done__"@ {
                    done && *final(self) == *old(self)
                } else {
                    !done && crate::tui::notifications::notifies(
                        old(self).notifications,
                        final(self).notifications,
                        NotificationType::Error,
                        m@,
                    ) && *final(self) == (App { notifications: final(self).notifications, ..*old(self) })
                },
                _ => !done && *final(self) == *old(self),
            },
    {
        match msg {
            SftpOpResult::Upload(name) => {
                let m = text::concat_strs("Enviado: ", name.as_str());
                self.notifications.success(m.as_str());
                false
            },
            SftpOpResult::Error(m) => {
                if text::str_eq(m.as_str(), "__done__") {
                    true
                } else {
                    self.notifications.error(m.as_str());
                    false
                }
            },
            _ => false,
        }
    }

    /// The message of a file that a background transfer failed to copy: `SCP erro:`
    /// for an upload, `Erro:` for a download, then what went wrong.
    pub fn transfer_failure(upload: bool, detail: &str) -> (r: String)
        ensures
            r@ == (if upload { "SCP erro: "@ } else { "Erro: "@ }) + detail@,
    {
        text::concat_strs(if upload { "SCP erro: " } else { "Erro: " }, detail)
    }

    /// The background transfers are over: the remote pane is to be listed again, after
    /// which the transfer is marked finished (at once when there is no session).
    pub fn transfers_done(&mut self) -> (eff: Option<Effect>)
        ensures
            match old(self).sftp_state {
                Some(st) => match st.session_id {
                    Some(sid) => *final(self) == *old(self) && (eff matches Some(
                        Effect::ListRemote { session_id, path, purpose },
                    ) && session_id == sid && path == st.remote_path && purpose
                        == ListPurpose::TransferDone),
                    None => eff is None && *final(self) == (App { sftp_state: final(self).sftp_state, ..*old(self) })
                        && (final(self).sftp_state matches Some(nst) && transfer_ended(st, nst)),
                },
                None => eff is None && *final(self) == *old(self),
            },
    {
        if let Some(st) = &mut self.sftp_state {
            match &st.session_id {
                Some(sid) => {
                    return Some(
                        Effect::ListRemote {
                            session_id: sid.clone(),
                            path: st.remote_path.clone(),
                            purpose: ListPurpose::TransferDone,
                        },
                    );
                },
                None => {
                    st.finish_transfer();
                },
            }
        }
        None
    }
}


/// Arguments of the `scp` upload of `local` to `remote` on `server`, with key path `key`:
/// `-P PORT` for a port other than 22, `-i KEY` for key authentication, and for a set
/// password `sshpass -p PASSWORD scp` first; then the file and `user@host:remote`.
pub open spec fn scp_args(server: Server, key: Seq<char>, local: Seq<char>, remote: Seq<char>) -> Seq<
    Seq<char>,
> {
    let port = if server.port != 22 {
        seq!["-P"@, text::decimal(server.port as nat)]
    } else {
        Seq::empty()
    };
    let head = match server.auth {
        Auth::Key { .. } => port + seq!["-i"@, key],
        Auth::Password { vault_key } => if vault_key@.len() > 0 {
            seq!["sshpass"@, "-p"@, vault_key@, "scp"@] + port
        } else {
            port
        },
    };
    head + seq![local, server.user@ + seq!['@'] + server.host@ + seq![':'] + remote]
}

/// Program and arguments of the `scp` upload: `sshpass` with the arguments after the
/// first when the first argument is `sshpass`, `scp` with all of them otherwise.
pub open spec fn scp_invocation(server: Server, key: Seq<char>, local: Seq<char>, remote: Seq<char>) -> (
    Seq<char>,
    Seq<Seq<char>>,
) {
    let a = scp_args(server, key, local, remote);
    if a[0] == "sshpass"@ {
        ("sshpass"@, a.drop_first())
    } else {
        ("scp"@, a)
    }
}

impl App {
    /// The command line that uploads `local` to `remote` on `server` with `scp`.
    pub fn sftp_upload_with_scp(&self, server: &Server, local: &str, remote: &str) -> (r: (
        String,
        Vec<String>,
    ))
        ensures
            exists|k: Seq<char>|
                crate::ssh::args::tilde_expansion_of(crate::ssh::args::key_path(*server), k)
                    && #[trigger] scp_invocation(*server, k, local@, remote@) == (
                    r.0@,
                    crate::ssh::exec::strings_view(r.1@),
                ),
    {
        let mut args: Vec<String> = Vec::new();
        if server.port != 22 {
            crate::ssh::exec::push_str_arg(&mut args, "-P");
            crate::ssh::exec::push_string_arg(&mut args, text::u64_to_decimal(server.port as u64));
        }
        let key = match &server.auth {
            Auth::Key { path, .. } => crate::ssh::args::expand_tilde(path.as_str()),
            Auth::Password { .. } => String::new(),
        };
        proof {
            reveal_strlit("");
        }
        assert(crate::ssh::args::tilde_expansion_of(crate::ssh::args::key_path(*server), key@)) by {
            if server.auth is Password {
                assert(key@ =~= Seq::<char>::empty());
            }
        }
        let ghost port_part = crate::ssh::exec::strings_view(args@);
        assert(port_part =~= (if server.port != 22 {
            seq!["-P"@, text::decimal(server.port as nat)]
        } else {
            Seq::<Seq<char>>::empty()
        }));
        let mut full: Vec<String> = Vec::new();
        match &server.auth {
            Auth::Key { .. } => {
                full = args;
                crate::ssh::exec::push_str_arg(&mut full, "-i");
                crate::ssh::exec::push_string_arg(&mut full, key.clone());
                assert(crate::ssh::exec::strings_view(full@) =~= port_part + seq!["-i"@, key@]);
            },
            Auth::Password { vault_key } => {
                if !vault_key.as_str().is_empty() {
                    crate::ssh::exec::push_str_arg(&mut full, "sshpass");
                    crate::ssh::exec::push_str_arg(&mut full, "-p");
                    crate::ssh::exec::push_string_arg(&mut full, vault_key.clone());
                    crate::ssh::exec::push_str_arg(&mut full, "scp");
                    let mut i: usize = 0;
                    while i < args.len()
                        invariant
                            i <= args@.len(),
                            crate::ssh::exec::strings_view(full@) == seq![
                                "sshpass"@,
                                "-p"@,
                                vault_key@,
                                "scp"@,
                            ] + port_part.take(i as int),
                            port_part == crate::ssh::exec::strings_view(args@),
                        decreases args@.len() - i,
                    {
                        crate::ssh::exec::push_string_arg(&mut full, args[i].clone());
                        assert(port_part.take(i + 1) =~= port_part.take(i as int).push(args@[i as int]@));
                        i = i + 1;
                    }
                    assert(port_part.take(args@.len() as int) == port_part);
                } else {
                    full = args;
                    assert(crate::ssh::exec::strings_view(full@) == port_part);
                }
            },
        }
        let ghost head = crate::ssh::exec::strings_view(full@);
        assert(head == match server.auth {
            Auth::Key { .. } => port_part + seq!["-i"@, key@],
            Auth::Password { vault_key } => if vault_key@.len() > 0 {
                seq!["sshpass"@, "-p"@, vault_key@, "scp"@] + port_part
            } else {
                port_part
            },
        });
        crate::ssh::exec::push_str_arg(&mut full, local);
        let mut dest = text::str_chars(server.user.as_str());
        dest.push('@');
        let h = text::str_chars(server.host.as_str());
        text::append_chars(&mut dest, h.as_slice());
        dest.push(':');
        let rm = text::str_chars(remote);
        text::append_chars(&mut dest, rm.as_slice());
        assert(dest@ =~= server.user@ + seq!['@'] + server.host@ + seq![':'] + remote@);
        crate::ssh::exec::push_string_arg(&mut full, text::chars_to_string(dest.as_slice()));
        let ghost a = crate::ssh::exec::strings_view(full@);
        assert(a =~= scp_args(*server, key@, local@, remote@));
        if text::str_eq(full[0].as_str(), "sshpass") {
            full.remove(0);
            assert(crate::ssh::exec::strings_view(full@) =~= a.drop_first());
            let r = ("sshpass".to_owned(), full);
            assert(scp_invocation(*server, key@, local@, remote@) == (r.0@, crate::ssh::exec::strings_view(r.1@)));
            r
        } else {
            let r = ("scp".to_owned(), full);
            assert(scp_invocation(*server, key@, local@, remote@) == (r.0@, crate::ssh::exec::strings_view(r.1@)));
            r
        }
    }
}


proof fn lemma_insert_sorted_multiset(k: SortKey, r: Seq<Server>, x: Server)
    ensures
        insert_sorted(k, r, x).to_multiset() == r.to_multiset().insert(x),
    decreases r.len(),
{
    broadcast use vstd::seq_lib::group_to_multiset_ensures;

    if r.len() == 0 {
        assert(seq![x] =~= Seq::<Server>::empty().push(x));
    } else if sorts_before(k, x, r[0]) {
        vstd::seq_lib::lemma_multiset_commutative(seq![x], r);
        assert(seq![x] =~= Seq::<Server>::empty().push(x));
    } else {
        let rest = r.drop_first();
        lemma_insert_sorted_multiset(k, rest, x);
        vstd::seq_lib::lemma_multiset_commutative(seq![r[0]], insert_sorted(k, rest, x));
        vstd::seq_lib::lemma_multiset_commutative(seq![r[0]], rest);
        assert(seq![r[0]] + rest =~= r);
        assert(seq![r[0]] =~= Seq::<Server>::empty().push(r[0]));
    }
}

/// Sorting the server list keeps every server, each as many times as before.
pub proof fn lemma_stable_sort_permutation(k: SortKey, s: Seq<Server>)
    ensures
        stable_sort(k, s).to_multiset() == s.to_multiset(),
    decreases s.len(),
{
    broadcast use vstd::seq_lib::group_to_multiset_ensures;

    if s.len() > 0 {
        lemma_stable_sort_permutation(k, s.drop_last());
        lemma_insert_sorted_multiset(k, stable_sort(k, s.drop_last()), s.last());
        assert(s.drop_last().push(s.last()) =~= s);
    }
}

/// Moving the cursor down and then up brings it back, when it is on a shown server.
pub proof fn lemma_down_then_up(a: App)
    requires
        a.selected < a.filtered_indices@.len(),
        a.filtered_indices@.len() <= usize::MAX,
    ensures
        moved_up(moved_down(a)) == a,
{
    let n = a.filtered_indices@.len() as int;
    let b = moved_down(a);
    if a.selected + 1 < n {
        vstd::arithmetic::div_mod::lemma_small_mod((a.selected + 1) as nat, n as nat);
        assert(b.selected == a.selected + 1);
    } else {
        vstd::arithmetic::div_mod::lemma_mod_self_0(n);
        assert(b.selected == 0);
    }
    assert(moved_up(b).selected == a.selected);
}

/// Moving the cursor up and then down brings it back, when it is on a shown server.
pub proof fn lemma_up_then_down(a: App)
    requires
        a.selected < a.filtered_indices@.len(),
        a.filtered_indices@.len() <= usize::MAX,
    ensures
        moved_down(moved_up(a)) == a,
{
    let n = a.filtered_indices@.len() as int;
    let b = moved_up(a);
    if a.selected == 0 {
        assert(b.selected == n - 1);
        vstd::arithmetic::div_mod::lemma_mod_self_0(n);
        assert((n - 1 + 1) % n == 0);
    } else {
        assert(b.selected == a.selected - 1);
        vstd::arithmetic::div_mod::lemma_small_mod(a.selected as nat, n as nat);
    }
    assert(moved_down(b).selected == a.selected);
}

/// The fields a form in key (`key`) or password mode goes through.
pub open spec fn field_in_mode(f: FormField, key: bool) -> bool {
    if key {
        f != FormField::Password
    } else {
        f != FormField::KeyPath && f != FormField::Passphrase
    }
}

/// In either authentication mode, `prev_field` undoes `next_field` and the other way
/// round, for the fields of that mode.
pub proof fn lemma_form_fields_inverse(f: FormField, key: bool)
    requires
        field_in_mode(f, key),
    ensures
        prev_form_field(next_form_field(f, key), key) == f,
        next_form_field(prev_form_field(f, key), key) == f,
        field_in_mode(next_form_field(f, key), key),
        field_in_mode(prev_form_field(f, key), key),
{
}

/// Switching the authentication twice gives back a form in key or password mode.
pub proof fn lemma_toggle_auth_twice(a: FormState, b: FormState, c: FormState)
    requires
        auth_toggled(a, b),
        auth_toggled(b, c),
        a.auth_type@ == "key"@ || a.auth_type@ == "password"@,
    ensures
        c == (FormState { auth_type: c.auth_type, ..a }),
        c.auth_type@ == a.auth_type@,
{
    reveal_strlit("key");
    reveal_strlit("password");
}

/// Every key of `imported` is taken once it has been merged.
proof fn lemma_merge_takes_keys(existing: Seq<Server>, imported: Seq<Server>)
    ensures
        forall|j: int| 0 <= j < imported.len() ==> key_taken(merge_servers(existing, imported).0, server_key(
            #[trigger] imported[j],
        )),
        forall|i: int| 0 <= i < existing.len() ==> merge_servers(existing, imported).0[i] == existing[i],
        existing.len() <= merge_servers(existing, imported).0.len(),
    decreases imported.len(),
{
    if imported.len() > 0 {
        let pre = imported.drop_last();
        lemma_merge_takes_keys(existing, pre);
        let l = merge_servers(existing, pre).0;
        let x = imported.last();
        assert forall|j: int| 0 <= j < imported.len() implies key_taken(
            merge_servers(existing, imported).0,
            server_key(#[trigger] imported[j]),
        ) by {
            let m = merge_servers(existing, imported).0;
            if j < imported.len() - 1 {
                assert(imported[j] == pre[j]);
                let w = choose|w: int| 0 <= w < l.len() && server_key(#[trigger] l[w]) == server_key(pre[j]);
                if !key_taken(l, server_key(x)) {
                    assert(m[w] == l[w]);
                }
                assert(m[w] == l[w]);
            } else {
                if !key_taken(l, server_key(x)) {
                    assert(m[l.len() as int] == x);
                }
            }
        }
    }
}

/// Taking servers whose keys are all in the list changes nothing.
proof fn lemma_merge_taken(existing: Seq<Server>, imported: Seq<Server>)
    requires
        forall|j: int| 0 <= j < imported.len() ==> key_taken(existing, server_key(#[trigger] imported[j])),
    ensures
        merge_servers(existing, imported).0 == existing,
        merge_servers(existing, imported).1 == 0,
        merge_servers(existing, imported).2 == imported.len(),
    decreases imported.len(),
{
    if imported.len() > 0 {
        let pre = imported.drop_last();
        assert forall|j: int| 0 <= j < pre.len() implies key_taken(existing, server_key(#[trigger] pre[j])) by {
            assert(pre[j] == imported[j]);
        }
        lemma_merge_taken(existing, pre);
        assert(key_taken(existing, server_key(imported[imported.len() - 1])));
    }
}

/// Importing the same servers a second time adds none of them: all are skipped.
pub proof fn lemma_import_idempotent(existing: Seq<Server>, imported: Seq<Server>)
    ensures
        merge_servers(merge_servers(existing, imported).0, imported).0 == merge_servers(existing, imported).0,
        merge_servers(merge_servers(existing, imported).0, imported).1 == 0,
{
    lemma_merge_takes_keys(existing, imported);
    lemma_merge_taken(merge_servers(existing, imported).0, imported);
}

proof fn lemma_matching_indices(servers: Seq<Server>, q: Seq<char>)
    requires
        servers.len() <= usize::MAX,
    ensures
        forall|k: int| 0 <= k < matching_indices(servers, q).len() ==> {
            let i = #[trigger] matching_indices(servers, q)[k] as int;
            0 <= i < servers.len() && server_matches(servers[i], q)
        },
        forall|i: int| 0 <= i < servers.len() && server_matches(#[trigger] servers[i], q) ==> matching_indices(servers, q).contains(i as usize),
        forall|k1: int, k2: int|
            0 <= k1 < k2 < matching_indices(servers, q).len() ==> #[trigger] matching_indices(servers, q)[k1]
                < #[trigger] matching_indices(servers, q)[k2],
    decreases servers.len(),
{
    if servers.len() > 0 {
        let pre = servers.drop_last();
        lemma_matching_indices(pre, q);
        let r = matching_indices(pre, q);
        let n = servers.len() - 1;
        assert forall|k: int| 0 <= k < matching_indices(servers, q).len() implies {
            let i = #[trigger] matching_indices(servers, q)[k] as int;
            0 <= i < servers.len() && server_matches(servers[i], q)
        } by {
            if k < r.len() {
                let i = r[k] as int;
                assert(servers[i] == pre[i]);
            }
        }
        assert forall|i: int| 0 <= i < servers.len() && server_matches(#[trigger] servers[i], q) implies matching_indices(servers, q).contains(i as usize) by {
            if i < n {
                assert(servers[i] == pre[i]);
                assert(server_matches(pre[i], q));
                let k = choose|k: int| 0 <= k < r.len() && r[k] == i as usize;
                assert(matching_indices(servers, q)[k] == i as usize);
            } else {
                assert(matching_indices(servers, q).last() == i as usize);
            }
        }
    }
}

proof fn lemma_shown_contains(servers: Seq<Server>, q: Seq<char>, i: int)
    requires
        servers.len() <= usize::MAX,
        0 <= i < servers.len(),
        q.len() == 0 || server_matches(servers[i], q),
    ensures
        shown_indices(servers, q).contains(i as usize),
{
    if q.len() > 0 {
        lemma_matching_indices(servers, q);
        assert(server_matches(servers[i], q));
        assert(matching_indices(servers, q).contains(i as usize));
    } else {
        let s = shown_indices(servers, q);
        assert(s[i] == i as usize);
    }
}

/// The search shows exactly the servers that match the query, each once and in list
/// order (all of them for an empty query).
pub proof fn lemma_shown_indices_exact(servers: Seq<Server>, q: Seq<char>)
    requires
        servers.len() <= usize::MAX,
    ensures
        forall|k: int| 0 <= k < shown_indices(servers, q).len() ==> {
            let i = #[trigger] shown_indices(servers, q)[k] as int;
            0 <= i < servers.len() && (q.len() == 0 || server_matches(servers[i], q))
        },
        forall|i: int|
            0 <= i < servers.len() && (q.len() == 0 || server_matches(servers[i], q)) ==> #[trigger] shown_indices(servers, q).contains(i as usize),
        forall|k1: int, k2: int|
            0 <= k1 < k2 < shown_indices(servers, q).len() ==> #[trigger] shown_indices(servers, q)[k1]
                < #[trigger] shown_indices(servers, q)[k2],
{
    if q.len() > 0 {
        lemma_matching_indices(servers, q);
        assert(shown_indices(servers, q) == matching_indices(servers, q));
        assert forall|k: int| 0 <= k < shown_indices(servers, q).len() implies {
            let i = #[trigger] shown_indices(servers, q)[k] as int;
            0 <= i < servers.len() && (q.len() == 0 || server_matches(servers[i], q))
        } by {
            assert(shown_indices(servers, q)[k] == matching_indices(servers, q)[k]);
        }

    } else {
        assert forall|k: int| 0 <= k < shown_indices(servers, q).len() implies {
            let i = #[trigger] shown_indices(servers, q)[k] as int;
            0 <= i < servers.len() && (q.len() == 0 || server_matches(servers[i], q))
        } by {
            assert(shown_indices(servers, q)[k] == k as usize);
        }
    }
    assert forall|i: int|
        0 <= i < servers.len() && (q.len() == 0 || server_matches(servers[i], q)) implies #[trigger] shown_indices(servers, q).contains(i as usize) by {
        lemma_shown_contains(servers, q, i);
    }
}

} // verus!
