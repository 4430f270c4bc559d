//! Command lines that open an interactive `ssh` session to a server.

use vstd::prelude::*;

use super::exec::{push_str_arg, push_string_arg, user_at_host_string};
use crate::config::models::{Auth, Server};
use crate::ssh::exec;
use crate::text;

verus! {

/// A path whose leading `~` `shellexpand::tilde` replaces: `~` alone or `~/...`.
pub open spec fn tilde_expandable(p: Seq<char>) -> bool {
    p.len() > 0 && p[0] == '~' && (p.len() == 1 || p[1] == '/')
}

/// `r` is what tilde expansion can make of `p`: `p` itself, or, for an expandable path,
/// some home directory followed by the rest of `p`.
pub open spec fn tilde_expansion_of(p: Seq<char>, r: Seq<char>) -> bool {
    r == p || (tilde_expandable(p) && exists|hd: Seq<char>| #[trigger] (hd + p.drop_first()) == r)
}

/// Expands a leading `~` to the user's home directory (`shellexpand::tilde`).
///
/// The home directory comes from the environment, so the contract only says that the
/// result is the input, or, for `~` or `~/...`, a directory followed by the rest of
/// the input.
#[verifier::external_body]
pub(crate) fn expand_tilde(path: &str) -> (r: String)
    ensures
        tilde_expansion_of(path@, r@),
{
    shellexpand::tilde(path).into_owned()
}

/// `-p`, `-A` and `-J` options of a server.
pub open spec fn connection_args(server: Server) -> Seq<Seq<char>> {
    exec::port_args(server.port) + (if server.agent_forwarding {
        seq!["-A"@]
    } else {
        Seq::empty()
    }) + match server.proxy_jump {
        Some(j) => if j@.len() > 0 {
            seq!["-J"@, j@]
        } else {
            Seq::empty()
        },
        None => Seq::empty(),
    }
}

/// The key path of a server using key authentication (empty otherwise).
pub open spec fn key_path(server: Server) -> Seq<char> {
    match server.auth {
        Auth::Key { path, .. } => path@,
        Auth::Password { .. } => Seq::empty(),
    }
}

/// Program, arguments and password of an `ssh` session, with key path `key`.
///
/// Key authentication runs `ssh ... -i KEY user@host`; password authentication runs
/// `sshpass -e ssh ... user@host` and hands the stored password over separately (for
/// the `SSHPASS` variable).
pub open spec fn ssh_invocation(server: Server, key: Seq<char>) -> (
    Seq<char>,
    Seq<Seq<char>>,
    Option<Seq<char>>,
) {
    match server.auth {
        Auth::Key { .. } => (
            "ssh"@,
            connection_args(server) + seq!["-i"@, key, exec::user_at_host(server)],
            None,
        ),
        Auth::Password { vault_key } => (
            "sshpass"@,
            seq!["-e"@, "ssh"@] + connection_args(server) + seq![exec::user_at_host(server)],
            Some(vault_key@),
        ),
    }
}

/// `args` holds `flag` immediately followed by `value`.
pub open spec fn has_option(args: Seq<Seq<char>>, flag: Seq<char>, value: Seq<char>) -> bool {
    exists|i: int| 0 <= i && i + 1 < args.len() && args[i] == flag && #[trigger] args[i + 1] == value
}

/// A server with a non-empty proxy jump `j` is reached through it, whatever its
/// authentication: its `ssh` arguments hold `-J j`, also in the interactive handoff.
pub proof fn lemma_proxy_jump_kept(server: Server, key: Seq<char>)
    requires
        server.proxy_jump is Some,
        server.proxy_jump->Some_0@.len() > 0,
    ensures
        has_option(ssh_invocation(server, key).1, "-J"@, server.proxy_jump->Some_0@),
        has_option(handoff_invocation(server, key).1, "-J"@, server.proxy_jump->Some_0@),
{
    let j = server.proxy_jump->Some_0@;
    let c = connection_args(server);
    let p = exec::port_args(server.port) + (if server.agent_forwarding {
        seq!["-A"@]
    } else {
        Seq::empty()
    });
    assert(c =~= p + seq!["-J"@, j]);
    let (prog, args, pw) = ssh_invocation(server, key);
    match server.auth {
        Auth::Key { .. } => {
            let i = p.len() as int;
            assert(args[i] == "-J"@ && args[i + 1] == j);
        },
        Auth::Password { .. } => {
            let i = p.len() as int + 2;
            assert(args[i] == "-J"@ && args[i + 1] == j);
            let h = handoff_invocation(server, key).1;
            assert(h == args.drop_first());
            assert(h[i - 1] == "-J"@ && h[i] == j);
        },
    }
}

/// Whatever its authentication, a server's `ssh` arguments hold `-p PORT` for a port
/// other than 22, `-A` when agent forwarding is on, and end with `user@host`; with key
/// authentication they hold `-i KEY`, and with a password they start `-e ssh` for
/// `sshpass` and hand the stored password over.
pub proof fn lemma_ssh_options(server: Server, key: Seq<char>)
    ensures
        server.port != 22 ==> has_option(ssh_invocation(server, key).1, "-p"@, text::decimal(server.port as nat)),
        server.agent_forwarding ==> ssh_invocation(server, key).1.contains("-A"@),
        ssh_invocation(server, key).1.last() == exec::user_at_host(server),
        server.auth is Key ==> has_option(ssh_invocation(server, key).1, "-i"@, key) && ssh_invocation(server, key).0 == "ssh"@,
        server.auth matches Auth::Password { vault_key } ==> ssh_invocation(server, key).0 == "sshpass"@
            && ssh_invocation(server, key).1.take(2) == seq!["-e"@, "ssh"@] && ssh_invocation(server, key).2 == Some(vault_key@),
{
    let args = ssh_invocation(server, key).1;
    let pa = exec::port_args(server.port);
    let off: int = if server.auth is Key { 0 } else { 2 };
    if server.port != 22 {
        assert(args[off] == "-p"@ && args[off + 1] == text::decimal(server.port as nat));
    }
    if server.agent_forwarding {
        assert(args[off + pa.len()] == "-A"@);
    }
    if server.auth is Key {
        let c = connection_args(server);
        assert(args[c.len() as int] == "-i"@ && args[c.len() as int + 1] == key);
    } else {
        assert(args.take(2) =~= seq!["-e"@, "ssh"@]);
    }
}

/// View of a program, its arguments and an optional password.
pub open spec fn invocation_view(r: (String, Vec<String>, Option<String>)) -> (
    Seq<char>,
    Seq<Seq<char>>,
    Option<Seq<char>>,
) {
    (
        r.0@,
        exec::strings_view(r.1@),
        match r.2 {
            Some(p) => Some(p@),
            None => None,
        },
    )
}

/// Builds the `ssh` command line for a server, given its expanded key path.
pub fn build_ssh_args_with_key(server: &Server, key: &str) -> (r: (String, Vec<String>, Option<String>))
    ensures
        invocation_view(r) == ssh_invocation(*server, key@),
{
    let mut args: Vec<String> = Vec::new();
    if server.port != 22 {
        push_str_arg(&mut args, "-p");
        push_string_arg(&mut args, text::u64_to_decimal(server.port as u64));
    }
    if server.agent_forwarding {
        push_str_arg(&mut args, "-A");
    }
    match &server.proxy_jump {
        Some(j) => {
            if !j.as_str().is_empty() {
                push_str_arg(&mut args, "-J");
                push_string_arg(&mut args, j.clone());
            }
        },
        None => {},
    }
    let ghost base = exec::strings_view(args@);
    assert(base =~= connection_args(*server));
    match &server.auth {
        Auth::Key { .. } => {
            push_str_arg(&mut args, "-i");
            push_str_arg(&mut args, key);
            push_string_arg(&mut args, user_at_host_string(server));
            assert(exec::strings_view(args@) =~= base + seq!["-i"@, key@, exec::user_at_host(*server)]);
            ("ssh".to_owned(), args, None)
        },
        Auth::Password { vault_key } => {
            push_string_arg(&mut args, user_at_host_string(server));
            let mut full: Vec<String> = Vec::new();
            push_str_arg(&mut full, "-e");
            push_str_arg(&mut full, "ssh");
            let mut i: usize = 0;
            while i < args.len()
                invariant
                    i <= args@.len(),
                    exec::strings_view(full@) == seq!["-e"@, "ssh"@] + exec::strings_view(
                        args@,
                    ).take(i as int),
                decreases args@.len() - i,
            {
                push_string_arg(&mut full, args[i].clone());
                assert(exec::strings_view(args@).take(i + 1) =~= exec::strings_view(args@).take(
                    i as int,
                ).push(args@[i as int]@));
                i = i + 1;
            }
            assert(exec::strings_view(args@).take(args@.len() as int) == exec::strings_view(
                args@,
            ));
            ("sshpass".to_owned(), full, Some(vault_key.clone()))
        },
    }
}

/// Builds the `ssh` command line for a server (`~` in its key path is expanded).
pub fn build_ssh_args(server: &Server) -> (r: (String, Vec<String>, Option<String>))
    ensures
        exists|k: Seq<char>|
            tilde_expansion_of(key_path(*server), k) && #[trigger] ssh_invocation(*server, k)
                == invocation_view(r),
{
    match &server.auth {
        Auth::Key { path, .. } => {
            let key = expand_tilde(path.as_str());
            let r = build_ssh_args_with_key(server, key.as_str());
            assert(tilde_expansion_of(key_path(*server), key@));
            r
        },
        Auth::Password { .. } => {
            let r = build_ssh_args_with_key(server, "");
            proof {
                reveal_strlit("");
                assert(""@ =~= Seq::<char>::empty());
            }
            assert(tilde_expansion_of(key_path(*server), ""@));
            r
        },
    }
}

} // verus!

verus! {

/// Program, arguments and password of the interactive shell handoff, with key path
/// `key`: as `ssh_invocation`, except that `sshpass` is given no option before `ssh`.
pub open spec fn handoff_invocation(server: Server, key: Seq<char>) -> (
    Seq<char>,
    Seq<Seq<char>>,
    Option<Seq<char>>,
) {
    let (prog, args, pw) = ssh_invocation(server, key);
    if pw is Some {
        (prog, args.drop_first(), pw)
    } else {
        (prog, args, pw)
    }
}

/// The command line of the interactive shell handoff for a server.
pub fn native_shell_command(server: &Server) -> (r: (String, Vec<String>, Option<String>))
    ensures
        exists|k: Seq<char>|
            tilde_expansion_of(key_path(*server), k) && #[trigger] handoff_invocation(*server, k)
                == invocation_view(r),
{
    let (prog, mut args, pw) = build_ssh_args(server);
    let ghost k = choose|k: Seq<char>|
        tilde_expansion_of(key_path(*server), k) && #[trigger] ssh_invocation(*server, k)
            == invocation_view((prog, args, pw));
    if pw.is_some() {
        let ghost before = args@;
        if args.len() > 0 {
            args.remove(0);
            assert(exec::strings_view(args@) =~= exec::strings_view(before).drop_first());
        }
    }
    assert(handoff_invocation(*server, k) == invocation_view((prog, args, pw)));
    (prog, args, pw)
}

} // verus!
