//! Command lines that copy a file to or from a server through `ssh` and `cat`.

use vstd::prelude::*;

use crate::config::models::Server;
use crate::ssh::args;
use crate::ssh::args::build_ssh_args;
use crate::ssh::exec::push_string_arg;
use crate::text;

verus! {

/// The `ssh` session of a server with `command` run on the far side.
pub open spec fn ssh_with_command(server: Server, key: Seq<char>, command: Seq<char>) -> (
    Seq<char>,
    Seq<Seq<char>>,
    Option<Seq<char>>,
) {
    let (prog, args, pw) = args::ssh_invocation(server, key);
    (prog, args.push(command), pw)
}

/// The command line that writes standard input to `remote` on the server
/// (`ssh ... "cat > REMOTE"`).
pub fn upload_command(server: &Server, remote: &str) -> (r: (String, Vec<String>, Option<String>))
    ensures
        exists|k: Seq<char>|
            args::tilde_expansion_of(args::key_path(*server), k) && #[trigger] ssh_with_command(*server, k, "cat > "@ + remote@)
                == args::invocation_view(r),
{
    let (prog, mut args, pw) = build_ssh_args(server);
    let ghost k = choose|k: Seq<char>|
        args::tilde_expansion_of(args::key_path(*server), k) && #[trigger] args::ssh_invocation(*server, k)
            == args::invocation_view((prog, args, pw));
    push_string_arg(&mut args, text::concat_strs("cat > ", remote));
    assert(ssh_with_command(*server, k, "cat > "@ + remote@) == args::invocation_view((prog, args, pw)));
    (prog, args, pw)
}

/// The command line that prints `remote` from the server (`ssh ... "cat REMOTE"`).
pub fn download_command(server: &Server, remote: &str) -> (r: (String, Vec<String>, Option<String>))
    ensures
        exists|k: Seq<char>|
            args::tilde_expansion_of(args::key_path(*server), k) && #[trigger] ssh_with_command(*server, k, "cat "@ + remote@)
                == args::invocation_view(r),
{
    let (prog, mut args, pw) = build_ssh_args(server);
    let ghost k = choose|k: Seq<char>|
        args::tilde_expansion_of(args::key_path(*server), k) && #[trigger] args::ssh_invocation(*server, k)
            == args::invocation_view((prog, args, pw));
    push_string_arg(&mut args, text::concat_strs("cat ", remote));
    assert(ssh_with_command(*server, k, "cat "@ + remote@) == args::invocation_view((prog, args, pw)));
    (prog, args, pw)
}

} // verus!
