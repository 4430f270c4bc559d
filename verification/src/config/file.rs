//! The configuration file's contents: loading, saving and editing the server list.
//!
//! Reading and writing the file is the caller's; passwords go to and come from the
//! system keyring here.

use vstd::prelude::*;

use super::models::{AppConfig, Auth, Server};
use crate::text;
use crate::vault::keychain;
use crate::vault::keychain::{Keyring, KeyringCall};

verus! {

/// The configuration with no server and no ordering setting.
pub fn empty_config() -> (c: AppConfig)
    ensures
        c.servers@.len() == 0,
        c.sort_by is None,
{
    AppConfig { servers: Vec::new(), sort_by: None }
}

/// The configuration to use: the one read from the file (`Some(Ok(..))`), or an empty
/// one when the file is missing (`None`) or could not be read or parsed (`Some(Err(..))`).
pub fn load_or_default(loaded: Option<Result<AppConfig, String>>) -> (c: AppConfig)
    ensures
        match loaded {
            Some(Ok(cfg)) => c == cfg,
            _ => c.servers@.len() == 0 && c.sort_by is None,
        },
{
    match loaded {
        Some(Ok(cfg)) => cfg,
        _ => empty_config(),
    }
}

/// The server uses password authentication with no password in the file.
pub open spec fn needs_keyring(s: Server) -> bool {
    s.auth matches Auth::Password { vault_key } && vault_key@.len() == 0
}

/// The server uses password authentication with a password in the file.
pub open spec fn has_password(s: Server) -> bool {
    s.auth matches Auth::Password { vault_key } && vault_key@.len() > 0
}

/// `s` with its password replaced by `p`.
pub open spec fn with_password(s: Server, p: String) -> Server {
    Server { auth: Auth::Password { vault_key: p }, ..s }
}

/// `s` with its password removed.
pub open spec fn password_cleared(s: Server, t: Server) -> bool {
    &&& t == (Server { auth: t.auth, ..s })
    &&& t.auth matches Auth::Password { vault_key } && vault_key@.len() == 0
}

/// Puts into the configuration the passwords found in the keyring: `found[i]` is the
/// answer for server `i`, used when that server has password authentication and no
/// password in the file.
pub fn restore_passwords_with(config: &mut AppConfig, found: &Vec<Option<String>>)
    requires
        found@.len() == old(config).servers@.len(),
    ensures
        final(config).sort_by == old(config).sort_by,
        final(config).servers@.len() == old(config).servers@.len(),
        forall|i: int|
            0 <= i < old(config).servers@.len() ==> #[trigger] final(config).servers@[i] == (if needs_keyring(
                old(config).servers@[i],
            ) && found@[i] is Some {
                with_password(old(config).servers@[i], found@[i]->Some_0)
            } else {
                old(config).servers@[i]
            }),
{
    let n = config.servers.len();
    let mut i: usize = 0;
    while i < n
        invariant
            i <= n,
            n == old(config).servers@.len(),
            found@.len() == n,
            config.sort_by == old(config).sort_by,
            config.servers@.len() == n,
            forall|j: int|
                i <= j < n ==> #[trigger] config.servers@[j] == old(config).servers@[j],
            forall|j: int|
                0 <= j < i ==> #[trigger] config.servers@[j] == (if needs_keyring(
                    old(config).servers@[j],
                ) && found@[j] is Some {
                    with_password(old(config).servers@[j], found@[j]->Some_0)
                } else {
                    old(config).servers@[j]
                }),
        decreases n - i,
    {
        let needs = match &config.servers[i].auth {
            Auth::Password { vault_key } => vault_key.as_str().is_empty(),
            Auth::Key { .. } => false,
        };
        if needs {
            if let Some(p) = &found[i] {
                let ghost before = config.servers@;
                let mut s = config.servers.remove(i);
                s.auth = Auth::Password { vault_key: p.clone() };
                config.servers.insert(i, s);
                assert forall|j: int| 0 <= j < n && j != i implies config.servers@[j] == before[j] by {
                    if j < i {
                        assert(config.servers@[j] == before.remove(i as int)[j]);
                    } else {
                        assert(config.servers@[j] == before.remove(i as int)[j - 1]);
                    }
                }
            }
        }
        i = i + 1;
    }
}

/// `calls` are the keyring reads for `servers`, whose answers are `found`, one per
/// server: a server that needs the keyring has its entry opened and, if it opened,
/// read; the others cause no call and get `None`.
pub open spec fn reads(calls: Seq<KeyringCall>, servers: Seq<Server>, found: Seq<Option<Seq<char>>>) -> bool
    decreases servers.len(),
{
    if servers.len() == 0 {
        calls.len() == 0 && found.len() == 0
    } else if found.len() == 0 {
        false
    } else {
        let s = servers.last();
        let f = found.last();
        let n = calls.len();
        if !needs_keyring(s) {
            f is None && reads(calls, servers.drop_last(), found.drop_last())
        } else {
            ||| n >= 1 && calls.last() == keychain::open_entry(s, false) && f is None && reads(
                calls.drop_last(),
                servers.drop_last(),
                found.drop_last(),
            )
            ||| n >= 2 && calls.skip(n - 2) == keychain::read_calls(s, true, f) && reads(
                calls.take(n - 2),
                servers.drop_last(),
                found.drop_last(),
            )
        }
    }
}

/// `t` is server `s` once the keyring's answer `f` is put in: the password found, for a
/// server that needs the keyring and got one; `s` itself otherwise.
pub open spec fn restored(s: Server, t: Server, f: Option<Seq<char>>) -> bool {
    if needs_keyring(s) && f is Some {
        &&& t.auth matches Auth::Password { vault_key } && vault_key@ == f->Some_0
        &&& t == (Server { auth: t.auth, ..s })
    } else {
        t == s
    }
}

/// Reading one more server keeps `reads`.
proof fn lemma_reads_push(
    calls: Seq<KeyringCall>,
    servers: Seq<Server>,
    found: Seq<Option<Seq<char>>>,
    s: Server,
    block: Seq<KeyringCall>,
    f: Option<Seq<char>>,
)
    requires
        reads(calls, servers, found),
        !needs_keyring(s) ==> block.len() == 0 && f is None,
        needs_keyring(s) ==> (block == keychain::read_calls(s, false, None) && f is None) || block
            == keychain::read_calls(s, true, f),
    ensures
        reads(calls + block, servers.push(s), found.push(f)),
{
    let c = calls + block;
    assert(servers.push(s).drop_last() =~= servers);
    assert(found.push(f).drop_last() =~= found);
    if !needs_keyring(s) {
        assert(c =~= calls);
    } else if block.len() == 1 {
        assert(c.drop_last() =~= calls);
    } else {
        assert(c.take(c.len() - 2) =~= calls);
        assert(c.skip(c.len() - 2) =~= block);
    }
}

/// Puts into the configuration the passwords the keyring holds for the servers with
/// password authentication and no password in the file: each such server's entry is
/// read, and the password found, if any, goes into the server.
pub fn restore_passwords(keyring: &mut Keyring, config: &mut AppConfig)
    ensures
        final(config).sort_by == old(config).sort_by,
        final(config).servers@.len() == old(config).servers@.len(),
        final(keyring).calls@.len() >= old(keyring).calls@.len(),
        final(keyring).calls@.take(old(keyring).calls@.len() as int) == old(keyring).calls@,
        exists|found: Seq<Option<Seq<char>>>|
            #[trigger] reads(
                final(keyring).calls@.skip(old(keyring).calls@.len() as int),
                old(config).servers@,
                found,
            ) && found.len() == old(config).servers@.len() && forall|i: int|
                0 <= i < old(config).servers@.len() ==> restored(
                    old(config).servers@[i],
                    #[trigger] final(config).servers@[i],
                    found[i],
                ),
{
    let ghost k0 = keyring.calls@.len() as int;
    let ghost log0 = keyring.calls@;
    let mut found: Vec<Option<String>> = Vec::new();
    let mut i: usize = 0;
    assert(config.servers@.take(0) =~= Seq::<Server>::empty());
    assert(keyring.calls@.skip(k0) =~= Seq::<KeyringCall>::empty());
    assert(found@.map_values(|o: Option<String>| keychain::opt_view(o)) =~= Seq::<Option<Seq<char>>>::empty());
    while i < config.servers.len()
        invariant
            i <= config.servers@.len(),
            found@.len() == i,
            *config == *old(config),
            k0 == log0.len(),
            keyring.calls@.len() >= k0,
            keyring.calls@.take(k0) == log0,
            reads(
                keyring.calls@.skip(k0),
                config.servers@.take(i as int),
                found@.map_values(|o: Option<String>| keychain::opt_view(o)),
            ),
        decreases config.servers@.len() - i,
    {
        let ghost prev = keyring.calls@;
        let ghost fv = found@.map_values(|o: Option<String>| keychain::opt_view(o));
        assert(config.servers@.take(i + 1) =~= config.servers@.take(i as int).push(config.servers@[i as int]));
        let needs = match &config.servers[i].auth {
            Auth::Password { vault_key } => vault_key.as_str().is_empty(),
            Auth::Key { .. } => false,
        };
        if needs {
            let answer = keychain::get_password(keyring, &config.servers[i]);
            proof {
                let srv = config.servers@[i as int];
                if keyring.calls@ == prev + keychain::read_calls(srv, false, None) && answer is None {
                    assert(keyring.calls@.skip(prev.len() as int) =~= keychain::read_calls(srv, false, None));
                } else {
                    assert(keyring.calls@.skip(prev.len() as int) =~= keychain::read_calls(
                        srv,
                        true,
                        keychain::opt_view(answer),
                    ));
                }
                lemma_reads_push(
                    prev.skip(k0),
                    config.servers@.take(i as int),
                    fv,
                    config.servers@[i as int],
                    keyring.calls@.skip(prev.len() as int),
                    keychain::opt_view(answer),
                );
                assert(keyring.calls@.skip(k0) =~= prev.skip(k0) + keyring.calls@.skip(prev.len() as int));
                assert(keyring.calls@.take(k0) =~= prev.take(k0));
            }
            found.push(answer);
        } else {
            proof {
                lemma_reads_push(
                    prev.skip(k0),
                    config.servers@.take(i as int),
                    fv,
                    config.servers@[i as int],
                    Seq::empty(),
                    None,
                );
                assert(prev.skip(k0) + Seq::<KeyringCall>::empty() =~= prev.skip(k0));
            }
            found.push(None);
        }
        assert(found@.map_values(|o: Option<String>| keychain::opt_view(o)) =~= fv.push(
            keychain::opt_view(found@[i as int]),
        ));
        i = i + 1;
    }
    let ghost before = *config;
    let ghost fv = found@.map_values(|o: Option<String>| keychain::opt_view(o));
    assert(config.servers@.take(config.servers@.len() as int) =~= config.servers@);
    restore_passwords_with(config, &found);
    assert forall|i: int| 0 <= i < before.servers@.len() implies restored(
        before.servers@[i],
        #[trigger] config.servers@[i],
        fv[i],
    ) by {
        assert(fv[i] == keychain::opt_view(found@[i]));
    }
    assert(reads(keyring.calls@.skip(k0), before.servers@, fv));
}

/// Removes from the configuration the passwords the keyring took: `stored[i]` tells
/// whether server `i`'s password was stored there; only servers with a password are
/// touched.
pub fn clear_stored_passwords(config: &mut AppConfig, stored: &Vec<bool>)
    requires
        stored@.len() == old(config).servers@.len(),
    ensures
        final(config).sort_by == old(config).sort_by,
        final(config).servers@.len() == old(config).servers@.len(),
        forall|i: int|
            0 <= i < old(config).servers@.len() ==> if has_password(old(config).servers@[i])
                && stored@[i] {
                password_cleared(old(config).servers@[i], #[trigger] final(config).servers@[i])
            } else {
                final(config).servers@[i] == old(config).servers@[i]
            },
{
    let n = config.servers.len();
    let mut i: usize = 0;
    while i < n
        invariant
            i <= n,
            n == old(config).servers@.len(),
            stored@.len() == n,
            config.sort_by == old(config).sort_by,
            config.servers@.len() == n,
            forall|j: int| i <= j < n ==> #[trigger] config.servers@[j] == old(config).servers@[j],
            forall|j: int|
                0 <= j < i ==> if has_password(old(config).servers@[j]) && stored@[j] {
                    password_cleared(old(config).servers@[j], #[trigger] config.servers@[j])
                } else {
                    config.servers@[j] == old(config).servers@[j]
                },
        decreases n - i,
    {
        let has = match &config.servers[i].auth {
            Auth::Password { vault_key } => !vault_key.as_str().is_empty(),
            Auth::Key { .. } => false,
        };
        if has && stored[i] {
            let ghost before = config.servers@;
            let mut s = config.servers.remove(i);
            s.auth = Auth::Password { vault_key: String::new() };
            config.servers.insert(i, s);
            assert forall|j: int| 0 <= j < n && j != i implies config.servers@[j] == before[j] by {
                if j < i {
                    assert(config.servers@[j] == before.remove(i as int)[j]);
                } else {
                    assert(config.servers@[j] == before.remove(i as int)[j - 1]);
                }
            }
        }
        i = i + 1;
    }
}

/// `calls` are the keyring stores for `servers`, `stored` telling of each server
/// whether the keyring took its password: a server with a password in the file has its
/// entry opened and, if it opened, the password handed over; the others cause no call
/// and are not stored.
pub open spec fn stores(calls: Seq<KeyringCall>, servers: Seq<Server>, stored: Seq<bool>) -> bool
    decreases servers.len(),
{
    if servers.len() == 0 {
        calls.len() == 0 && stored.len() == 0
    } else if stored.len() == 0 {
        false
    } else {
        let s = servers.last();
        let b = stored.last();
        let n = calls.len();
        if !has_password(s) {
            !b && stores(calls, servers.drop_last(), stored.drop_last())
        } else {
            ||| n >= 1 && calls.last() == keychain::open_entry(s, false) && !b && stores(
                calls.drop_last(),
                servers.drop_last(),
                stored.drop_last(),
            )
            ||| n >= 2 && calls.skip(n - 2) == keychain::store_calls(s, s.auth->vault_key@, true, b)
                && stores(calls.take(n - 2), servers.drop_last(), stored.drop_last())
        }
    }
}

/// Storing one more server keeps `stores`.
proof fn lemma_stores_push(
    calls: Seq<KeyringCall>,
    servers: Seq<Server>,
    stored: Seq<bool>,
    s: Server,
    block: Seq<KeyringCall>,
    b: bool,
)
    requires
        stores(calls, servers, stored),
        !has_password(s) ==> block.len() == 0 && !b,
        has_password(s) ==> (block == keychain::store_calls(s, s.auth->vault_key@, false, false) && !b)
            || block == keychain::store_calls(s, s.auth->vault_key@, true, b),
    ensures
        stores(calls + block, servers.push(s), stored.push(b)),
{
    let c = calls + block;
    assert(servers.push(s).drop_last() =~= servers);
    assert(stored.push(b).drop_last() =~= stored);
    if !has_password(s) {
        assert(c =~= calls);
    } else if block.len() == 1 {
        assert(c.drop_last() =~= calls);
    } else {
        assert(c.take(c.len() - 2) =~= calls);
        assert(c.skip(c.len() - 2) =~= block);
    }
}

/// Moves the passwords of the configuration to the keyring: each server's password is
/// handed to its entry, and each password the keyring takes is removed from the
/// configuration, which is then ready to be written.
pub fn move_passwords_to_keyring(keyring: &mut Keyring, config: &mut AppConfig)
    ensures
        final(config).sort_by == old(config).sort_by,
        final(config).servers@.len() == old(config).servers@.len(),
        final(keyring).calls@.len() >= old(keyring).calls@.len(),
        final(keyring).calls@.take(old(keyring).calls@.len() as int) == old(keyring).calls@,
        exists|stored: Seq<bool>|
            #[trigger] stores(
                final(keyring).calls@.skip(old(keyring).calls@.len() as int),
                old(config).servers@,
                stored,
            ) && stored.len() == old(config).servers@.len() && forall|i: int|
                0 <= i < old(config).servers@.len() ==> if has_password(old(config).servers@[i])
                    && stored[i] {
                    password_cleared(old(config).servers@[i], #[trigger] final(config).servers@[i])
                } else {
                    final(config).servers@[i] == old(config).servers@[i]
                },
{
    let ghost k0 = keyring.calls@.len() as int;
    let ghost log0 = keyring.calls@;
    let mut stored: Vec<bool> = Vec::new();
    let mut i: usize = 0;
    assert(config.servers@.take(0) =~= Seq::<Server>::empty());
    assert(keyring.calls@.skip(k0) =~= Seq::<KeyringCall>::empty());
    while i < config.servers.len()
        invariant
            i <= config.servers@.len(),
            stored@.len() == i,
            *config == *old(config),
            k0 == log0.len(),
            keyring.calls@.len() >= k0,
            keyring.calls@.take(k0) == log0,
            stores(keyring.calls@.skip(k0), config.servers@.take(i as int), stored@),
        decreases config.servers@.len() - i,
    {
        let ghost prev = keyring.calls@;
        let ghost srv = config.servers@[i as int];
        assert(config.servers@.take(i + 1) =~= config.servers@.take(i as int).push(srv));
        let ok = match &config.servers[i].auth {
            Auth::Password { vault_key } => if !vault_key.as_str().is_empty() {
                let r = keychain::store_password(keyring, &config.servers[i], vault_key.as_str());
                proof {
                    let pw = srv.auth->vault_key@;
                    if r is Ok {
                        assert(keyring.calls@.skip(prev.len() as int) =~= keychain::store_calls(srv, pw, true, true));
                    } else if keyring.calls@ == prev + keychain::store_calls(srv, pw, false, false) {
                        assert(keyring.calls@.skip(prev.len() as int) =~= keychain::store_calls(srv, pw, false, false));
                    } else {
                        assert(keyring.calls@.skip(prev.len() as int) =~= keychain::store_calls(srv, pw, true, false));
                    }
                }
                r.is_ok()
            } else {
                false
            },
            Auth::Key { .. } => false,
        };
        proof {
            let block = keyring.calls@.skip(prev.len() as int);
            if !has_password(srv) {
                assert(keyring.calls@ == prev);
                assert(block =~= Seq::<KeyringCall>::empty());
            }
            lemma_stores_push(prev.skip(k0), config.servers@.take(i as int), stored@, srv, block, ok);
            assert(keyring.calls@.skip(k0) =~= prev.skip(k0) + block);
            assert(keyring.calls@.take(k0) =~= prev.take(k0));
        }
        stored.push(ok);
        i = i + 1;
    }
    assert(config.servers@.take(config.servers@.len() as int) =~= config.servers@);
    let ghost before = *config;
    clear_stored_passwords(config, &stored);
    assert(stores(keyring.calls@.skip(k0), before.servers@, stored@));
}

/// Adds a server at the end of the configuration.
pub fn add_server(config: &mut AppConfig, server: Server)
    ensures
        final(config).servers@ == old(config).servers@.push(server),
        final(config).sort_by == old(config).sort_by,
{
    config.servers.push(server);
}

/// The servers of `servers` whose name is not `name`, in order.
pub open spec fn without_name(servers: Seq<Server>, name: Seq<char>) -> Seq<Server>
    decreases servers.len(),
{
    if servers.len() == 0 {
        Seq::empty()
    } else if servers.last().name@ == name {
        without_name(servers.drop_last(), name)
    } else {
        without_name(servers.drop_last(), name).push(servers.last())
    }
}

/// The servers of `servers` named `name`, in order.
pub open spec fn named(servers: Seq<Server>, name: Seq<char>) -> Seq<Server>
    decreases servers.len(),
{
    if servers.len() == 0 {
        Seq::empty()
    } else if servers.last().name@ == name {
        named(servers.drop_last(), name).push(servers.last())
    } else {
        named(servers.drop_last(), name)
    }
}

/// `calls` are keyring deletions for `servers`, one after the other, whatever their
/// outcomes.
pub open spec fn deletions(calls: Seq<KeyringCall>, servers: Seq<Server>) -> bool
    decreases servers.len(),
{
    if servers.len() == 0 {
        calls.len() == 0
    } else {
        let s = servers.last();
        let n = calls.len();
        ||| n >= 1 && calls.last() == keychain::open_entry(s, false) && deletions(
            calls.drop_last(),
            servers.drop_last(),
        )
        ||| n >= 2 && calls[n - 2] == keychain::open_entry(s, true) && (calls.last() matches KeyringCall::Delete { service, account, .. } && service
            == keychain::password_service() && account == keychain::account_of(s)) && deletions(
            calls.take(n - 2),
            servers.drop_last(),
        )
    }
}

/// Appending the deletion calls of one more server keeps `deletions`.
proof fn lemma_deletions_push(
    calls: Seq<KeyringCall>,
    servers: Seq<Server>,
    s: Server,
    opened: bool,
    deleted: bool,
)
    requires
        deletions(calls, servers),
    ensures
        deletions(calls + keychain::delete_calls(s, opened, deleted), servers.push(s)),
{
    let c = calls + keychain::delete_calls(s, opened, deleted);
    assert(servers.push(s).drop_last() =~= servers);
    if opened {
        assert(c.take(c.len() - 2) =~= calls);
        assert(c.last() == keychain::delete_calls(s, true, deleted)[1]);
    } else {
        assert(c.drop_last() =~= calls);
    }
}

/// Removes every server named `name` from the configuration; their keyring entries are
/// deleted first.
pub fn remove_server(keyring: &mut Keyring, config: &mut AppConfig, name: &str)
    ensures
        final(config).servers@ == without_name(old(config).servers@, name@),
        final(config).sort_by == old(config).sort_by,
        final(keyring).calls@.len() >= old(keyring).calls@.len(),
        final(keyring).calls@.take(old(keyring).calls@.len() as int) == old(keyring).calls@,
        deletions(
            final(keyring).calls@.skip(old(keyring).calls@.len() as int),
            named(old(config).servers@, name@),
        ),
{
    let ghost k0 = keyring.calls@.len() as int;
    let ghost log0 = keyring.calls@;
    let mut i: usize = 0;
    assert(config.servers@.take(0) =~= Seq::<Server>::empty());
    assert(keyring.calls@.skip(k0) =~= Seq::<KeyringCall>::empty());
    while i < config.servers.len()
        invariant
            i <= config.servers@.len(),
            *config == *old(config),
            keyring.calls@.len() >= k0,
            k0 == log0.len(),
            keyring.calls@.take(k0) == log0,
            deletions(keyring.calls@.skip(k0), named(config.servers@.take(i as int), name@)),
        decreases config.servers@.len() - i,
    {
        let ghost prev = keyring.calls@;
        assert(config.servers@.take(i + 1).drop_last() =~= config.servers@.take(i as int));
        assert(config.servers@.take(i + 1).last() == config.servers@[i as int]);
        if text::str_eq(config.servers[i].name.as_str(), name) {
            keychain::delete_password(keyring, &config.servers[i]);
            proof {
                let (o, d) = choose|o: bool, d: bool|
                    keyring.calls@ == prev + #[trigger] keychain::delete_calls(config.servers@[i as int], o, d);
                lemma_deletions_push(
                    prev.skip(k0),
                    named(config.servers@.take(i as int), name@),
                    config.servers@[i as int],
                    o,
                    d,
                );
                assert(keyring.calls@.skip(k0) =~= prev.skip(k0) + keychain::delete_calls(
                    config.servers@[i as int],
                    o,
                    d,
                ));
                assert(keyring.calls@.take(k0) =~= prev.take(k0));
            }
        }
        i = i + 1;
    }
    assert(config.servers@.take(config.servers@.len() as int) =~= config.servers@);
    let mut src: Vec<Server> = Vec::new();
    std::mem::swap(&mut src, &mut config.servers);
    let ghost orig = src@;
    let total = src.len();
    let mut kept: Vec<Server> = Vec::new();
    let mut n: usize = 0;
    assert(orig.skip(0) == orig);
    while src.len() > 0
        invariant
            n <= orig.len(),
            orig.len() == total,
            src@.len() == orig.len() - n,
            src@ == orig.skip(n as int),
            kept@ == without_name(orig.take(n as int), name@),
        decreases src@.len(),
    {
        let x = src.remove(0);
        proof {
            assert(orig.take(n + 1).drop_last() == orig.take(n as int));
            assert(orig.take(n + 1).last() == x);
            assert(orig.skip(n + 1) == orig.skip(n as int).drop_first());
        }
        if !text::str_eq(x.name.as_str(), name) {
            kept.push(x);
        }
        n = n + 1;
    }
    assert(orig.take(orig.len() as int) == orig);
    config.servers = kept;
}

/// Index of the first server named `name`.
pub open spec fn first_named(servers: Seq<Server>, name: Seq<char>) -> Option<int> {
    if exists|i: int| 0 <= i < servers.len() && (#[trigger] servers[i]).name@ == name {
        Some(
            choose|i: int|
                0 <= i < servers.len() && (#[trigger] servers[i]).name@ == name && forall|j: int|
                    0 <= j < i ==> servers[j].name@ != name,
        )
    } else {
        None
    }
}

/// Below any server named `name` there is a first one.
proof fn lemma_least_named(servers: Seq<Server>, name: Seq<char>, k: int)
    requires
        0 <= k < servers.len(),
        servers[k].name@ == name,
    ensures
        exists|i: int|
            0 <= i < servers.len() && (#[trigger] servers[i]).name@ == name && forall|j: int|
                0 <= j < i ==> servers[j].name@ != name,
    decreases k,
{
    if exists|j: int| 0 <= j < k && (#[trigger] servers[j]).name@ == name {
        let j = choose|j: int| 0 <= j < k && (#[trigger] servers[j]).name@ == name;
        lemma_least_named(servers, name, j);
    } else {
        assert(forall|j: int| 0 <= j < k ==> servers[j].name@ != name);
        assert(servers[k].name@ == name);
    }
}

/// `first_named` is the place of the first server named `name`, when there is one;
/// otherwise no server has that name.
pub proof fn lemma_first_named(servers: Seq<Server>, name: Seq<char>)
    ensures
        match first_named(servers, name) {
            Some(i) => 0 <= i < servers.len() && servers[i].name@ == name && forall|j: int|
                0 <= j < i ==> servers[j].name@ != name,
            None => forall|k: int| 0 <= k < servers.len() ==> servers[k].name@ != name,
        },
{
    if exists|i: int| 0 <= i < servers.len() && (#[trigger] servers[i]).name@ == name {
        let k = choose|i: int| 0 <= i < servers.len() && (#[trigger] servers[i]).name@ == name;
        lemma_least_named(servers, name, k);
    } else {
        assert forall|k: int| 0 <= k < servers.len() implies servers[k].name@ != name by {
            if servers[k].name@ == name {
                assert(0 <= k < servers.len() && servers[k].name@ == name);
            }
        }
    }
}

/// Replaces the first server named `name` by `updated`, deleting the keyring entry of
/// the old one when it used a password; `true` when such a server was found (the
/// configuration is then to be written).
pub fn update_server(keyring: &mut Keyring, config: &mut AppConfig, name: &str, updated: Server) -> (found: bool)
    ensures
        final(config).sort_by == old(config).sort_by,
        match first_named(old(config).servers@, name@) {
            Some(i) => found && final(config).servers@ == old(config).servers@.update(i, updated) && if old(
                config,
            ).servers@[i].auth.is_password() {
                exists|opened: bool, deleted: bool|
                    final(keyring).calls@ == old(keyring).calls@ + #[trigger] keychain::delete_calls(
                        old(config).servers@[i],
                        opened,
                        deleted,
                    )
            } else {
                final(keyring).calls@ == old(keyring).calls@
            },
            None => !found && final(config).servers@ == old(config).servers@ && final(keyring).calls@
                == old(keyring).calls@,
        },
{
    let n = config.servers.len();
    let mut i: usize = 0;
    while i < n && !text::str_eq(config.servers[i].name.as_str(), name)
        invariant
            i <= n,
            n == config.servers@.len(),
            forall|j: int| 0 <= j < i ==> (#[trigger] config.servers@[j]).name@ != name@,
        decreases n - i,
    {
        i = i + 1;
    }
    if i == n {
        return false;
    }
    proof {
        let s = config.servers@;
        assert(0 <= i < s.len() && s[i as int].name@ == name@);
        let c = choose|k: int|
            0 <= k < s.len() && (#[trigger] s[k]).name@ == name@ && forall|j: int|
                0 <= j < k ==> s[j].name@ != name@;
        assert(c == i as int) by {
            if c < i {
            } else if c > i {
            }
        }
    }
    if config.servers[i].auth.is_password_exec() {
        keychain::delete_password(keyring, &config.servers[i]);
    }
    config.servers.set(i, updated);
    true
}


/// After removing the servers named `name`, none is left with that name, and every
/// other server is still there, in order.
pub proof fn lemma_without_name(servers: Seq<Server>, name: Seq<char>)
    ensures
        forall|k: int| 0 <= k < without_name(servers, name).len() ==> (#[trigger] without_name(servers, name)[k]).name@ != name,
        forall|i: int| 0 <= i < servers.len() && (#[trigger] servers[i]).name@ != name ==> without_name(servers, name).contains(servers[i]),
        without_name(servers, name).len() <= servers.len(),
    decreases servers.len(),
{
    if servers.len() > 0 {
        let pre = servers.drop_last();
        lemma_without_name(pre, name);
        let w = without_name(pre, name);
        assert forall|i: int| 0 <= i < servers.len() && (#[trigger] servers[i]).name@ != name implies without_name(servers, name).contains(servers[i]) by {
            if i < servers.len() - 1 {
                assert(servers[i] == pre[i]);
                let k = choose|k: int| 0 <= k < w.len() && w[k] == pre[i];
                assert(without_name(servers, name)[k] == w[k]);
            } else {
                assert(without_name(servers, name).last() == servers[i]);
            }
        }
    }
}

/// Removing the same name twice removes nothing more.
pub proof fn lemma_without_name_twice(servers: Seq<Server>, name: Seq<char>)
    ensures
        without_name(without_name(servers, name), name) == without_name(servers, name),
    decreases servers.len(),
{
    if servers.len() > 0 {
        let pre = servers.drop_last();
        lemma_without_name_twice(pre, name);
        let w = without_name(pre, name);
        if servers.last().name@ != name {
            assert(w.push(servers.last()).drop_last() == w);
        }
    }
}

} // verus!
