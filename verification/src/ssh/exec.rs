//! Running a single command on a server through the `ssh` client: what to run and how
//! its outcome is reported.

use vstd::prelude::*;

use crate::config::models::{Auth, Server};
use crate::text;

verus! {

/// Views of a list of strings.
pub open spec fn strings_view(v: Seq<String>) -> Seq<Seq<char>> {
    v.map_values(|s: String| s@)
}

/// `user@host` of a server.
pub open spec fn user_at_host(server: Server) -> Seq<char> {
    server.user@ + seq!['@'] + server.host@
}

/// `user@host` of a server.
pub fn user_at_host_string(server: &Server) -> (r: String)
    ensures
        r@ == user_at_host(*server),
{
    let mut v = text::str_chars(server.user.as_str());
    v.push('@');
    let h = text::str_chars(server.host.as_str());
    let mut i: usize = 0;
    while i < h.len()
        invariant
            i <= h@.len(),
            h@ == server.host@,
            v@ == server.user@ + seq!['@'] + h@.take(i as int),
        decreases h@.len() - i,
    {
        v.push(h[i]);
        assert(h@.take(i + 1) == h@.take(i as int).push(h@[i as int]));
        i = i + 1;
    }
    assert(h@.take(h@.len() as int) == h@);
    text::chars_to_string(v.as_slice())
}

/// `-p PORT` when the port is not the default one.
pub open spec fn port_args(port: u16) -> Seq<Seq<char>> {
    if port != 22 {
        seq!["-p"@, text::decimal(port as nat)]
    } else {
        Seq::empty()
    }
}

/// Arguments of `ssh` that run `command` on `server`.
pub open spec fn remote_command_args(server: Server, command: Seq<char>) -> Seq<Seq<char>> {
    seq!["-o"@, "StrictHostKeyChecking=no"@, "-o"@, "ConnectTimeout=5"@] + port_args(server.port)
        + match server.auth {
        Auth::Key { path, .. } => seq!["-i"@, path@],
        Auth::Password { .. } => Seq::empty(),
    } + seq![user_at_host(server), command]
}

/// Error reported when password authentication is asked for without `sshpass`.
pub open spec fn sshpass_missing_message() -> Seq<char> {
    "Autenticação por senha requer 'sshpass'. Instale com: sudo apt install sshpass (Debian/Ubuntu) ou sudo yum install sshpass (Fedora/RHEL)"@
}

/// Error reported when password authentication has no password.
pub open spec fn password_missing_message() -> Seq<char> {
    "Senha não configurada. Configure a senha no servidor."@
}

/// Program and arguments that run `command` on `server`, or why it cannot be run.
pub open spec fn remote_command_plan(server: Server, command: Seq<char>, has_sshpass: bool) -> Result<
    (Seq<char>, Seq<Seq<char>>),
    Seq<char>,
> {
    match server.auth {
        Auth::Password { vault_key } => if !has_sshpass {
            Err(sshpass_missing_message())
        } else if vault_key@.len() == 0 {
            Err(password_missing_message())
        } else {
            Ok(("sshpass"@, seq!["-p"@, vault_key@, "ssh"@] + remote_command_args(server, command)))
        },
        Auth::Key { .. } => Ok(("ssh"@, remote_command_args(server, command))),
    }
}

/// Appends `s` to a list of argument strings.
pub fn push_str_arg(v: &mut Vec<String>, s: &str)
    ensures
        strings_view(final(v)@) == strings_view(old(v)@).push(s@),
{
    let ghost before = v@;
    v.push(s.to_owned());
    assert(strings_view(v@) =~= strings_view(before).push(s@));
}

/// Appends a string to a list of argument strings.
pub fn push_string_arg(v: &mut Vec<String>, s: String)
    ensures
        strings_view(final(v)@) == strings_view(old(v)@).push(s@),
{
    let ghost before = v@;
    let ghost sv = s@;
    v.push(s);
    assert(strings_view(v@) =~= strings_view(before).push(sv));
}

/// Decides which program runs `command` on `server` and with which arguments.
///
/// `has_sshpass` tells whether the `sshpass` program is installed. Key authentication
/// runs `ssh`; password authentication runs `sshpass -p PASSWORD ssh ...`, and fails
/// when `sshpass` is missing or no password is set.
pub fn ssh_command_plan(server: &Server, command: &str, has_sshpass: bool) -> (r: Result<
    (String, Vec<String>),
    String,
>)
    ensures
        match r {
            Ok((prog, args)) => remote_command_plan(*server, command@, has_sshpass) == Ok::<
                (Seq<char>, Seq<Seq<char>>),
                Seq<char>,
            >((prog@, strings_view(args@))),
            Err(e) => remote_command_plan(*server, command@, has_sshpass) == Err::<
                (Seq<char>, Seq<Seq<char>>),
                Seq<char>,
            >(e@),
        },
{
    let mut args: Vec<String> = Vec::new();
    let is_password = match &server.auth {
        Auth::Password { vault_key } => {
            if !has_sshpass {
                return Err(
                    "Autenticação por senha requer 'sshpass'. Instale com: sudo apt install sshpass (Debian/Ubuntu) ou sudo yum install sshpass (Fedora/RHEL)".to_owned(),
                );
            }
            if vault_key.as_str().is_empty() {
                return Err("Senha não configurada. Configure a senha no servidor.".to_owned());
            }
            push_str_arg(&mut args, "-p");
            push_string_arg(&mut args, vault_key.clone());
            push_str_arg(&mut args, "ssh");
            assert(strings_view(args@) =~= seq!["-p"@, vault_key@, "ssh"@]);
            true
        },
        Auth::Key { .. } => {
            assert(strings_view(args@) =~= Seq::<Seq<char>>::empty());
            false
        },
    };
    let ghost prefix = strings_view(args@);
    assert(match server.auth {
        Auth::Password { vault_key } => is_password && has_sshpass && vault_key@.len() > 0
            && prefix == seq!["-p"@, vault_key@, "ssh"@],
        Auth::Key { .. } => !is_password && prefix.len() == 0,
    });
    push_str_arg(&mut args, "-o");
    push_str_arg(&mut args, "StrictHostKeyChecking=no");
    push_str_arg(&mut args, "-o");
    push_str_arg(&mut args, "ConnectTimeout=5");
    if server.port != 22 {
        push_str_arg(&mut args, "-p");
        push_string_arg(&mut args, text::u64_to_decimal(server.port as u64));
    }
    match &server.auth {
        Auth::Key { path, .. } => {
            push_str_arg(&mut args, "-i");
            push_string_arg(&mut args, path.clone());
        },
        Auth::Password { .. } => {},
    }
    push_string_arg(&mut args, user_at_host_string(server));
    push_str_arg(&mut args, command);
    assert(strings_view(args@) =~= prefix + remote_command_args(*server, command@));
    if is_password {
        Ok(("sshpass".to_owned(), args))
    } else {
        assert(prefix =~= Seq::<Seq<char>>::empty());
        Ok(("ssh".to_owned(), args))
    }
}

} // verus!

verus! {

/// `password:`, the prompt text filtered out of error output.
pub open spec fn prompt_lower() -> Seq<char> {
    seq!['p', 'a', 's', 's', 'w', 'o', 'r', 'd', ':']
}

/// `Password:`, the capitalised prompt text.
pub open spec fn prompt_upper() -> Seq<char> {
    seq!['P', 'a', 's', 's', 'w', 'o', 'r', 'd', ':']
}

/// An error-output line that is not a password prompt.
pub open spec fn is_reported_line(l: Seq<char>) -> bool {
    !text::contains_seq(l, prompt_lower()) && !text::contains_seq(l, prompt_upper())
}

/// The filter keeping reported lines.
pub open spec fn reported_pred() -> spec_fn(Seq<char>) -> bool {
    |l: Seq<char>| is_reported_line(l)
}

/// Error output without password prompts.
pub open spec fn reported_errors(stderr: Seq<char>) -> Seq<char> {
    text::join_lines(text::rust_lines(stderr).filter(reported_pred()))
}

/// Message for a failed command that printed nothing.
pub open spec fn no_output_message() -> Seq<char> {
    "Comando executado sem saída"@
}

/// What running a remote command reports, from its exit status and outputs.
pub open spec fn remote_command_outcome(success: bool, stdout: Seq<char>, stderr: Seq<char>) -> Result<
    Seq<char>,
    Seq<char>,
> {
    if success {
        Ok(stdout)
    } else {
        let errs = reported_errors(stderr);
        if text::trim(errs).len() == 0 {
            if text::trim(stdout).len() == 0 {
                Err(no_output_message())
            } else {
                Ok(stdout)
            }
        } else {
            Err(errs)
        }
    }
}

/// View of a string result.
pub open spec fn result_view(r: Result<String, String>) -> Result<Seq<char>, Seq<char>> {
    match r {
        Ok(s) => Ok(s@),
        Err(e) => Err(e@),
    }
}

/// Reports the outcome of a remote command from its exit status and outputs.
///
/// A successful run gives its standard output. A failed run gives its error output
/// without password-prompt lines; when nothing is left, it gives the standard output,
/// or an error when that is blank too.
pub fn ssh_command_outcome(success: bool, stdout: &str, stderr: &str) -> (r: Result<String, String>)
    ensures
        result_view(r) == remote_command_outcome(success, stdout@, stderr@),
{
    if success {
        return Ok(stdout.to_owned());
    }
    let err_chars = text::str_chars(stderr);
    let lines = text::lines_of(err_chars.as_slice());
    let ghost all = lines@.map_values(|v: Vec<char>| v@);
    let lower = ['p', 'a', 's', 's', 'w', 'o', 'r', 'd', ':'];
    let upper = ['P', 'a', 's', 's', 'w', 'o', 'r', 'd', ':'];
    let mut joined: Vec<char> = Vec::new();
    let mut count: usize = 0;
    let mut i: usize = 0;
    while i < lines.len()
        invariant
            i <= lines@.len(),
            all == lines@.map_values(|v: Vec<char>| v@),
            lower@ == prompt_lower(),
            upper@ == prompt_upper(),
            count == all.take(i as int).filter(reported_pred()).len(),
            joined@ == text::join_lines(all.take(i as int).filter(reported_pred())),
        decreases lines@.len() - i,
    {
        let line = &lines[i];
        assert(all.take(i + 1).drop_last() == all.take(i as int));
        assert(all.take(i + 1).last() == line@);
        let has_lower = text::contains_chars(line.as_slice(), lower.as_slice());
        let has_upper = text::contains_chars(line.as_slice(), upper.as_slice());
        assert(reported_pred()(line@) == (!has_lower && !has_upper));
        proof {
            assert(all.take(i + 1) =~= all.take(i as int).push(line@));
            all.take(i as int).lemma_filter_push(line@, reported_pred());
        }
        if !has_lower && !has_upper {
            let ghost before = all.take(i as int).filter(reported_pred());
            if count > 0 {
                joined.push('\n');
            }
            let mut k: usize = 0;
            let ghost base = joined@;
            while k < line.len()
                invariant
                    k <= line@.len(),
                    joined@ == base + line@.take(k as int),
                decreases line@.len() - k,
            {
                joined.push(line[k]);
                assert(line@.take(k + 1) == line@.take(k as int).push(line@[k as int]));
                k = k + 1;
            }
            assert(line@.take(line@.len() as int) == line@);
            assert(all.take(i + 1).filter(reported_pred()) == before.push(line@));
            assert(before.push(line@).drop_last() == before);
            if count == 0 {
                assert(before.len() == 0);
                assert(joined@ =~= text::join_lines(before.push(line@)));
            }
            count = count + 1;
        } else {
            assert(all.take(i + 1).filter(reported_pred()) == all.take(i as int).filter(reported_pred()));
        }
        i = i + 1;
    }
    assert(all.take(lines@.len() as int) == all);
    if text::is_blank(joined.as_slice()) {
        let out_chars = text::str_chars(stdout);
        if text::is_blank(out_chars.as_slice()) {
            Err("Comando executado sem saída".to_owned())
        } else {
            Ok(stdout.to_owned())
        }
    } else {
        Err(text::chars_to_string(joined.as_slice()))
    }
}

} // verus!
