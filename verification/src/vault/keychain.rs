//! Passwords of servers kept in the system keyring (GNOME Keyring, KDE Wallet, macOS
//! Keychain), under the service `lazyssh` and the account `user@host:port`.

use vstd::prelude::*;

use crate::config::models::Server;
use crate::text;

verus! {

/// A keyring entry (`keyring::Entry`), carried through opaquely.
#[verifier::external_type_specification]
#[verifier::external_body]
pub struct ExEntry(::keyring::Entry);

/// A keyring error (`keyring::Error`), carried through opaquely.
#[verifier::external_type_specification]
#[verifier::external_body]
pub struct ExKeyringError(::keyring::Error);

/// A call made to the system keyring, with what it was given and what came back.
pub enum KeyringCall {
    /// `Entry::new(service, account)`, and whether the entry could be opened.
    Open { service: Seq<char>, account: Seq<char>, opened: bool },
    /// `set_password(password)` on the entry, and whether the keyring took it.
    Store { service: Seq<char>, account: Seq<char>, password: Seq<char>, stored: bool },
    /// `get_password()` on the entry, and the password it gave, if any.
    Read { service: Seq<char>, account: Seq<char>, found: Option<Seq<char>> },
    /// `delete_credential()` on the entry, and whether it succeeded.
    Delete { service: Seq<char>, account: Seq<char>, deleted: bool },
}

/// The system keyring as this library uses it; `calls` records, oldest first, every
/// call made to it through this value.
pub struct Keyring {
    pub calls: Ghost<Seq<KeyringCall>>,
}

impl Keyring {
    /// The keyring, with no call made yet.
    pub fn new() -> (k: Keyring)
        ensures
            k.calls@ == Seq::<KeyringCall>::empty(),
    {
        Keyring { calls: Ghost(Seq::empty()) }
    }
}

/// An open keyring entry, with the service and account it was opened for.
struct KeyringEntry {
    entry: ::keyring::Entry,
    service: Ghost<Seq<char>>,
    account: Ghost<Seq<char>>,
}

/// Opens the entry of `user` under `service` (`keyring::Entry::new`).
///
/// Whether it succeeds depends on the platform's keyring; the contract records the
/// call and its outcome and states nothing of when it succeeds.
#[verifier::external_body]
fn entry_new(keyring: &mut Keyring, service: &str, user: &str) -> (r: Result<KeyringEntry, ::keyring::Error>)
    ensures
        r matches Ok(e) ==> e.service@ == service@ && e.account@ == user@,
        final(keyring).calls@ == old(keyring).calls@.push(
            KeyringCall::Open { service: service@, account: user@, opened: r is Ok },
        ),
{
    match ::keyring::Entry::new(service, user) {
        Ok(entry) => Ok(KeyringEntry { entry, service: Ghost(service@), account: Ghost(user@) }),
        Err(e) => Err(e),
    }
}

/// Stores `password` in the entry (`keyring::Entry::set_password`).
///
/// The keyring is outside state; the contract records the call and whether it
/// succeeded, and states nothing of when it does.
#[verifier::external_body]
fn entry_set_password(keyring: &mut Keyring, entry: &KeyringEntry, password: &str) -> (r: Result<(), ::keyring::Error>)
    ensures
        final(keyring).calls@ == old(keyring).calls@.push(
            KeyringCall::Store {
                service: entry.service@,
                account: entry.account@,
                password: password@,
                stored: r is Ok,
            },
        ),
{
    entry.entry.set_password(password)
}

/// Reads the password of the entry (`keyring::Entry::get_password`).
///
/// The keyring is outside state; the contract records the call and the password it
/// gave, and states nothing of which password that is.
#[verifier::external_body]
fn entry_get_password(keyring: &mut Keyring, entry: &KeyringEntry) -> (r: Result<String, ::keyring::Error>)
    ensures
        final(keyring).calls@ == old(keyring).calls@.push(
            KeyringCall::Read {
                service: entry.service@,
                account: entry.account@,
                found: match r {
                    Ok(p) => Some(p@),
                    Err(_) => None,
                },
            },
        ),
{
    entry.entry.get_password()
}

/// Deletes the password of the entry (`keyring::Entry::delete_credential`).
///
/// The keyring is outside state; the contract records the call and whether it
/// succeeded, and states nothing of when it does.
#[verifier::external_body]
fn entry_delete(keyring: &mut Keyring, entry: &KeyringEntry) -> (r: Result<(), ::keyring::Error>)
    ensures
        final(keyring).calls@ == old(keyring).calls@.push(
            KeyringCall::Delete { service: entry.service@, account: entry.account@, deleted: r is Ok },
        ),
{
    entry.entry.delete_credential()
}

/// The text of a keyring error (its `Display`).
///
/// The text is the platform's; nothing is stated of it.
#[verifier::external_body]
fn keyring_error_text(e: &::keyring::Error) -> String {
    e.to_string()
}

/// The account of a server in the keyring: `user@host:port`.
pub open spec fn account_of(server: Server) -> Seq<char> {
    server.user@ + seq!['@'] + server.host@ + seq![':'] + text::decimal(server.port as nat)
}

/// The account of a server in the keyring: `user@host:port`.
pub fn account_key(server: &Server) -> (r: String)
    ensures
        r@ == account_of(*server),
{
    let mut v = text::str_chars(server.user.as_str());
    v.push('@');
    let h = text::str_chars(server.host.as_str());
    text::append_chars(&mut v, h.as_slice());
    v.push(':');
    text::push_decimal(&mut v, server.port as u64);
    text::chars_to_string(v.as_slice())
}

/// The keyring service under which the passwords of servers are kept.
pub open spec fn password_service() -> Seq<char> {
    "lazyssh"@
}

/// Opening the entry of server `s`, with outcome `opened`.
pub open spec fn open_entry(s: Server, opened: bool) -> KeyringCall {
    KeyringCall::Open { service: password_service(), account: account_of(s), opened }
}

/// The calls of a store of `password` for server `s`: the entry is opened, and, if it
/// opened, the password is handed over (`stored` is the outcome).
pub open spec fn store_calls(s: Server, password: Seq<char>, opened: bool, stored: bool) -> Seq<
    KeyringCall,
> {
    if opened {
        seq![
            open_entry(s, true),
            KeyringCall::Store {
                service: password_service(),
                account: account_of(s),
                password,
                stored,
            },
        ]
    } else {
        seq![open_entry(s, false)]
    }
}

/// The calls of a read for server `s`: the entry is opened, and, if it opened, its
/// password is read (`found` is the answer).
pub open spec fn read_calls(s: Server, opened: bool, found: Option<Seq<char>>) -> Seq<KeyringCall> {
    if opened {
        seq![
            open_entry(s, true),
            KeyringCall::Read { service: password_service(), account: account_of(s), found },
        ]
    } else {
        seq![open_entry(s, false)]
    }
}

/// The calls of a deletion for server `s`: the entry is opened, and, if it opened, its
/// password is deleted (`deleted` is the outcome).
pub open spec fn delete_calls(s: Server, opened: bool, deleted: bool) -> Seq<KeyringCall> {
    if opened {
        seq![
            open_entry(s, true),
            KeyringCall::Delete { service: password_service(), account: account_of(s), deleted },
        ]
    } else {
        seq![open_entry(s, false)]
    }
}

/// View of an optional string.
pub open spec fn opt_view(o: Option<String>) -> Option<Seq<char>> {
    match o {
        Some(p) => Some(p@),
        None => None,
    }
}

/// Stores a server's password in the keyring, in the entry of service `lazyssh` and
/// the server's account. `Ok` exactly when the entry opened and took the password; a
/// failure is told as `keyring entry: ...` (opening) or `keyring store: ...` (storing).
pub fn store_password(keyring: &mut Keyring, server: &Server, password: &str) -> (r: Result<(), String>)
    ensures
        r is Ok ==> final(keyring).calls@ == old(keyring).calls@ + store_calls(*server, password@, true, true),
        r matches Err(m) ==> (final(keyring).calls@ == old(keyring).calls@ + store_calls(
            *server,
            password@,
            false,
            false,
        ) && exists|d: Seq<char>| m@ == "keyring entry: "@ + d) || (final(keyring).calls@
            == old(keyring).calls@ + store_calls(*server, password@, true, false) && exists|d: Seq<char>|
            m@ == "keyring store: "@ + d),
{
    let ghost before = keyring.calls@;
    let account = account_key(server);
    match entry_new(keyring, "lazyssh", account.as_str()) {
        Ok(entry) => match entry_set_password(keyring, &entry, password) {
            Ok(()) => {
                assert(keyring.calls@ =~= before + store_calls(*server, password@, true, true));
                Ok(())
            },
            Err(e) => {
                assert(keyring.calls@ =~= before + store_calls(*server, password@, true, false));
                let d = keyring_error_text(&e);
                let m = text::concat_strs("keyring store: ", d.as_str());
                assert(m@ == "keyring store: "@ + d@);
                Err(m)
            },
        },
        Err(e) => {
            assert(keyring.calls@ =~= before + store_calls(*server, password@, false, false));
            let d = keyring_error_text(&e);
            let m = text::concat_strs("keyring entry: ", d.as_str());
            assert(m@ == "keyring entry: "@ + d@);
            Err(m)
        },
    }
}

/// The password of a server stored in the keyring (service `lazyssh`, the server's
/// account): what reading the entry gave, or `None` where the entry did not open.
pub fn get_password(keyring: &mut Keyring, server: &Server) -> (r: Option<String>)
    ensures
        final(keyring).calls@ == old(keyring).calls@ + read_calls(*server, false, None) && r is None
            || final(keyring).calls@ == old(keyring).calls@ + read_calls(*server, true, opt_view(r)),
{
    let ghost before = keyring.calls@;
    let account = account_key(server);
    match entry_new(keyring, "lazyssh", account.as_str()) {
        Ok(entry) => {
            let got = entry_get_password(keyring, &entry);
            let r = match got {
                Ok(p) => Some(p),
                Err(_) => None,
            };
            assert(keyring.calls@ =~= before + read_calls(*server, true, opt_view(r)));
            r
        },
        Err(_) => {
            assert(keyring.calls@ =~= before + read_calls(*server, false, None));
            None
        },
    }
}

/// Deletes the password of a server from the keyring (service `lazyssh`, the server's
/// account); nothing happens when there is none.
pub fn delete_password(keyring: &mut Keyring, server: &Server)
    ensures
        exists|opened: bool, deleted: bool|
            final(keyring).calls@ == old(keyring).calls@ + #[trigger] delete_calls(*server, opened, deleted),
{
    let ghost before = keyring.calls@;
    let account = account_key(server);
    if let Ok(entry) = entry_new(keyring, "lazyssh", account.as_str()) {
        let r = entry_delete(keyring, &entry);
        assert(keyring.calls@ =~= before + delete_calls(*server, true, r is Ok));
    } else {
        assert(keyring.calls@ =~= before + delete_calls(*server, false, false));
    }
}

/// Whether the system keyring can be used: whether the entry `availability-check` of
/// service `lazyssh-test` opens.
pub fn is_available(keyring: &mut Keyring) -> (r: bool)
    ensures
        final(keyring).calls@ == old(keyring).calls@.push(
            KeyringCall::Open { service: "lazyssh-test"@, account: "availability-check"@, opened: r },
        ),
{
    entry_new(keyring, "lazyssh-test", "availability-check").is_ok()
}

} // verus!
