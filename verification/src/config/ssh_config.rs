//! Import of host blocks from an OpenSSH client configuration (`~/.ssh/config`).

use vstd::prelude::*;

use super::models::{Auth, Server};
use crate::text;

verus! {

/// One host block of an OpenSSH client configuration, as imported.
pub struct SshHostEntry {
    /// The `Host` alias.
    pub name: Seq<char>,
    /// The `HostName` (the alias when absent).
    pub host: Seq<char>,
    /// The `Port` (22 when absent).
    pub port: u16,
    /// The `User` (the default user when absent).
    pub user: Seq<char>,
    /// The `IdentityFile` (`~/.ssh/id_rsa` when absent).
    pub key_path: Seq<char>,
}

/// State of the line-by-line reading of a configuration.
pub struct SshConfigScan {
    /// Alias of the block being read, if it is importable.
    pub current_host: Option<Seq<char>>,
    /// `HostName` seen in the current block.
    pub host_name: Option<Seq<char>>,
    /// `Port` of the current block.
    pub port: u16,
    /// `User` of the current block.
    pub user: Seq<char>,
    /// `IdentityFile` of the current block, `~` expanded.
    pub identity: Option<Seq<char>>,
    /// Blocks finished so far.
    pub done: Seq<SshHostEntry>,
}

/// The key path used when a block names no `IdentityFile`.
pub open spec fn default_key_path() -> Seq<char> {
    seq!['~', '/', '.', 's', 's', 'h', '/', 'i', 'd', '_', 'r', 's', 'a']
}

/// Index of the first white-space character of `t` (`t.len()` when there is none).
pub open spec fn first_ws(t: Seq<char>) -> nat
    decreases t.len(),
{
    if t.len() == 0 {
        0
    } else if text::is_ws(t[0]) {
        0
    } else {
        1 + first_ws(t.drop_first())
    }
}

/// `first_ws` is the first position holding white space.
pub proof fn lemma_first_ws(t: Seq<char>, i: int)
    requires
        0 <= i <= t.len(),
        forall|k: int| 0 <= k < i ==> !text::is_ws(#[trigger] t[k]),
        i == t.len() || text::is_ws(t[i]),
    ensures
        first_ws(t) == i,
    decreases i,
{
    if i > 0 {
        assert forall|k: int| 0 <= k < i - 1 implies !text::is_ws(#[trigger] t.drop_first()[k]) by {
            assert(t.drop_first()[k] == t[k + 1]);
        }
        lemma_first_ws(t.drop_first(), i - 1);
    }
}

/// The reading state before the first line.
pub open spec fn scan_start(default_user: Seq<char>) -> SshConfigScan {
    SshConfigScan {
        current_host: None,
        host_name: None,
        port: 22,
        user: default_user,
        identity: None,
        done: Seq::empty(),
    }
}

/// The entry for the block being read.
pub open spec fn close_block(st: SshConfigScan, name: Seq<char>) -> SshHostEntry {
    SshHostEntry {
        name: name,
        host: match st.host_name {
            Some(h) => h,
            None => name,
        },
        port: st.port,
        user: st.user,
        key_path: match st.identity {
            Some(p) => p,
            None => default_key_path(),
        },
    }
}

/// `IdentityFile` value with a leading `~` replaced by the home directory.
pub open spec fn expand_home(value: Seq<char>, home: Seq<char>) -> Seq<char> {
    if value.len() > 0 && value[0] == '~' {
        home + value.drop_first()
    } else {
        value
    }
}

/// Effect of one `key value` directive (key already known to be a directive).
pub open spec fn apply_directive(
    st: SshConfigScan,
    key: Seq<char>,
    value: Seq<char>,
    default_user: Seq<char>,
    home: Seq<char>,
) -> SshConfigScan {
    if text::eq_ignore_case(key, seq!['h', 'o', 's', 't']) {
        SshConfigScan {
            current_host: if !value.contains('*') && !value.contains('?') {
                Some(value)
            } else {
                None
            },
            host_name: None,
            port: 22,
            user: default_user,
            identity: None,
            done: match st.current_host {
                Some(name) => st.done.push(close_block(st, name)),
                None => st.done,
            },
        }
    } else if text::eq_ignore_case(key, seq!['h', 'o', 's', 't', 'n', 'a', 'm', 'e']) {
        SshConfigScan { host_name: Some(value), ..st }
    } else if text::eq_ignore_case(key, seq!['p', 'o', 'r', 't']) {
        match text::parse_u16(value) {
            Some(p) => SshConfigScan { port: p, ..st },
            None => st,
        }
    } else if text::eq_ignore_case(key, seq!['u', 's', 'e', 'r']) {
        SshConfigScan { user: value, ..st }
    } else if text::eq_ignore_case(
        key,
        seq!['i', 'd', 'e', 'n', 't', 'i', 't', 'y', 'f', 'i', 'l', 'e'],
    ) {
        SshConfigScan { identity: Some(expand_home(value, home)), ..st }
    } else {
        st
    }
}

/// Effect of one configuration line.
pub open spec fn scan_line(
    st: SshConfigScan,
    line: Seq<char>,
    default_user: Seq<char>,
    home: Seq<char>,
) -> SshConfigScan {
    let t = text::trim(line);
    if t.len() == 0 || t[0] == '#' {
        st
    } else {
        let i = first_ws(t);
        if i == t.len() {
            st
        } else {
            apply_directive(st, t.take(i as int), text::trim(t.skip((i + 1) as int)), default_user, home)
        }
    }
}

/// Reading state after the given lines.
pub open spec fn scan_lines(
    lines: Seq<Seq<char>>,
    default_user: Seq<char>,
    home: Seq<char>,
) -> SshConfigScan
    decreases lines.len(),
{
    if lines.len() == 0 {
        scan_start(default_user)
    } else {
        scan_line(scan_lines(lines.drop_last(), default_user, home), lines.last(), default_user, home)
    }
}

/// The host blocks imported from configuration text `s`.
pub open spec fn ssh_config_hosts(
    s: Seq<char>,
    default_user: Seq<char>,
    home: Seq<char>,
) -> Seq<SshHostEntry> {
    let st = scan_lines(text::split_on(s, '\n'), default_user, home);
    match st.current_host {
        Some(name) => st.done.push(close_block(st, name)),
        None => st.done,
    }
}

/// The directive of a configuration line: its first word and the rest, both without
/// surrounding white space; `None` for a blank line, a comment or a lone word.
pub open spec fn line_directive(line: Seq<char>) -> Option<(Seq<char>, Seq<char>)> {
    let t = text::trim(line);
    if t.len() == 0 || t[0] == '#' || first_ws(t) == t.len() {
        None
    } else {
        Some((t.take(first_ws(t) as int), text::trim(t.skip((first_ws(t) + 1) as int))))
    }
}

/// The line is a `Host` directive: it starts a new block.
pub open spec fn opens_block(line: Seq<char>) -> bool {
    line_directive(line) matches Some((k, _)) && text::eq_ignore_case(k, seq!['h', 'o', 's', 't'])
}

/// The line is a `Host` directive naming a single host (no `*` or `?` pattern).
pub open spec fn names_host(line: Seq<char>) -> bool {
    &&& opens_block(line)
    &&& !line_directive(line)->Some_0.1.contains('*')
    &&& !line_directive(line)->Some_0.1.contains('?')
}

/// The line is a `Port` directive with a valid port number.
pub open spec fn sets_port(line: Seq<char>) -> bool {
    line_directive(line) matches Some((k, v)) && text::eq_ignore_case(k, seq!['p', 'o', 'r', 't'])
        && text::parse_u16(v) is Some
}

/// What the block being read has gathered: its alias, `HostName`, `Port`, `User` and
/// `IdentityFile`.
pub open spec fn block_fields(st: SshConfigScan) -> (
    Option<Seq<char>>,
    Option<Seq<char>>,
    u16,
    Seq<char>,
    Option<Seq<char>>,
) {
    (st.current_host, st.host_name, st.port, st.user, st.identity)
}

/// Reading one more line is applying it to the state so far.
proof fn lemma_scan_push(lines: Seq<Seq<char>>, line: Seq<char>, du: Seq<char>, home: Seq<char>)
    ensures
        scan_lines(lines.push(line), du, home) == scan_line(scan_lines(lines, du, home), line, du, home),
{
    assert(lines.push(line).drop_last() =~= lines);
}

/// A `Host` line starts its block afresh, whatever came before: no `HostName`, port 22,
/// the default user, no `IdentityFile`, and the alias it names if importable; the
/// block before it, if importable, is closed.
proof fn lemma_host_line(st: SshConfigScan, h: Seq<char>, du: Seq<char>, home: Seq<char>)
    requires
        opens_block(h),
    ensures
        block_fields(scan_line(st, h, du, home)) == (
            if names_host(h) {
                Some(line_directive(h)->Some_0.1)
            } else {
                None::<Seq<char>>
            },
            None::<Seq<char>>,
            22u16,
            du,
            None::<Seq<char>>,
        ),
        scan_line(st, h, du, home).done == match st.current_host {
            Some(name) => st.done.push(close_block(st, name)),
            None => st.done,
        },
{
}

/// A line that is not a `Host` directive keeps the finished blocks and changes the
/// fields of the current block as a function of those fields alone; one that sets no
/// valid port keeps the port.
proof fn lemma_block_line(st1: SshConfigScan, st2: SshConfigScan, l: Seq<char>, du: Seq<char>, home: Seq<char>)
    requires
        !opens_block(l),
        block_fields(st1) == block_fields(st2),
    ensures
        block_fields(scan_line(st1, l, du, home)) == block_fields(scan_line(st2, l, du, home)),
        scan_line(st1, l, du, home).done == st1.done,
        !sets_port(l) ==> scan_line(st1, l, du, home).port == st1.port,
        scan_line(st1, l, du, home).current_host == st1.current_host,
{
}

/// Within a block, what is gathered depends only on the block's own lines: two
/// readings that differ before its `Host` line agree on it; without a valid `Port`
/// line its port is 22; and no block is closed inside it.
proof fn lemma_block_lines(
    p1: Seq<Seq<char>>,
    p2: Seq<Seq<char>>,
    h: Seq<char>,
    block: Seq<Seq<char>>,
    du: Seq<char>,
    home: Seq<char>,
)
    requires
        opens_block(h),
        forall|k: int| 0 <= k < block.len() ==> !opens_block(#[trigger] block[k]),
    ensures
        block_fields(scan_lines(p1.push(h) + block, du, home)) == block_fields(
            scan_lines(p2.push(h) + block, du, home),
        ),
        scan_lines(p1.push(h) + block, du, home).done == scan_lines(p1.push(h), du, home).done,
        (forall|k: int| 0 <= k < block.len() ==> !sets_port(#[trigger] block[k])) ==> scan_lines(
            p1.push(h) + block,
            du,
            home,
        ).port == 22,
        scan_lines(p1.push(h) + block, du, home).current_host == block_fields(
            scan_line(scan_start(du), h, du, home),
        ).0,
    decreases block.len(),
{
    lemma_scan_push(p1, h, du, home);
    lemma_scan_push(p2, h, du, home);
    lemma_host_line(scan_lines(p1, du, home), h, du, home);
    lemma_host_line(scan_lines(p2, du, home), h, du, home);
    lemma_host_line(scan_start(du), h, du, home);
    if block.len() == 0 {
        assert(p1.push(h) + block =~= p1.push(h));
        assert(p2.push(h) + block =~= p2.push(h));
    } else {
        let pre = block.drop_last();
        let l = block.last();
        assert forall|k: int| 0 <= k < pre.len() implies !opens_block(#[trigger] pre[k]) by {
            assert(pre[k] == block[k]);
        }
        lemma_block_lines(p1, p2, h, pre, du, home);
        assert(p1.push(h) + block =~= (p1.push(h) + pre).push(l));
        assert(p2.push(h) + block =~= (p2.push(h) + pre).push(l));
        lemma_scan_push(p1.push(h) + pre, l, du, home);
        lemma_scan_push(p2.push(h) + pre, l, du, home);
        assert(!opens_block(block[block.len() - 1]));
        lemma_block_line(
            scan_lines(p1.push(h) + pre, du, home),
            scan_lines(p2.push(h) + pre, du, home),
            l,
            du,
            home,
        );
        if forall|k: int| 0 <= k < block.len() ==> !sets_port(#[trigger] block[k]) {
            assert forall|k: int| 0 <= k < pre.len() implies !sets_port(#[trigger] pre[k]) by {
                assert(pre[k] == block[k]);
            }
            assert(!sets_port(block[block.len() - 1]));
        }
    }
}

/// Lines read after others only add finished blocks.
proof fn lemma_done_grows(lines: Seq<Seq<char>>, more: Seq<Seq<char>>, du: Seq<char>, home: Seq<char>)
    ensures
        scan_lines(lines, du, home).done.len() <= scan_lines(lines + more, du, home).done.len(),
        scan_lines(lines + more, du, home).done.take(scan_lines(lines, du, home).done.len() as int)
            == scan_lines(lines, du, home).done,
    decreases more.len(),
{
    let d = scan_lines(lines, du, home).done;
    if more.len() == 0 {
        assert(lines + more =~= lines);
        assert(d.take(d.len() as int) =~= d);
    } else {
        let pre = more.drop_last();
        lemma_done_grows(lines, pre, du, home);
        assert(lines + more =~= (lines + pre).push(more.last()));
        lemma_scan_push(lines + pre, more.last(), du, home);
        let st = scan_lines(lines + pre, du, home);
        let st2 = scan_line(st, more.last(), du, home);
        assert(st2.done == st.done || st2.done == st.done.push(close_block(st, st.current_host->Some_0)));
        assert(st2.done.take(d.len() as int) =~= st.done.take(d.len() as int));
    }
}

/// Each imported block stands on its own: for a configuration whose lines are
/// `prefix`, a `Host h` line naming one host, the block's own lines, then either the
/// end or another `Host` line, the server imported for that block is named `h`, is
/// the one that the block read alone gives (nothing carries over from the blocks
/// before it), and, when none of the block's lines is a valid `Port`, has port 22.
pub proof fn lemma_imported_block_port(
    s: Seq<char>,
    prefix: Seq<Seq<char>>,
    h: Seq<char>,
    block: Seq<Seq<char>>,
    rest: Seq<Seq<char>>,
    du: Seq<char>,
    home: Seq<char>,
)
    requires
        text::split_on(s, '\n') == prefix.push(h) + block + rest,
        names_host(h),
        forall|k: int| 0 <= k < block.len() ==> !opens_block(#[trigger] block[k]),
        rest.len() > 0 ==> opens_block(rest[0]),
    ensures
        scan_lines(prefix.push(h), du, home).done.len() < ssh_config_hosts(s, du, home).len(),
        ssh_config_hosts(s, du, home)[scan_lines(prefix.push(h), du, home).done.len() as int].name
            == line_directive(h)->Some_0.1,
        ssh_config_hosts(s, du, home)[scan_lines(prefix.push(h), du, home).done.len() as int]
            == close_block(
            scan_lines(Seq::<Seq<char>>::empty().push(h) + block, du, home),
            line_directive(h)->Some_0.1,
        ),
        (forall|k: int| 0 <= k < block.len() ==> !sets_port(#[trigger] block[k])) ==> ssh_config_hosts(
            s,
            du,
            home,
        )[scan_lines(prefix.push(h), du, home).done.len() as int].port == 22,
{
    let a = prefix.push(h) + block;
    let st = scan_lines(a, du, home);
    let k = scan_lines(prefix.push(h), du, home).done.len();
    lemma_block_lines(prefix, Seq::<Seq<char>>::empty(), h, block, du, home);
    lemma_host_line(scan_start(du), h, du, home);
    let name = line_directive(h)->Some_0.1;
    assert(st.current_host == Some(name));
    assert(st.done.len() == k);
    let entry = close_block(st, name);
    if rest.len() == 0 {
        assert(text::split_on(s, '\n') =~= a);
        assert(ssh_config_hosts(s, du, home) == st.done.push(entry));
    } else {
        let b = a.push(rest[0]);
        lemma_scan_push(a, rest[0], du, home);
        lemma_host_line(st, rest[0], du, home);
        let stb = scan_lines(b, du, home);
        assert(stb.done == st.done.push(entry));
        let more = rest.drop_first();
        assert(text::split_on(s, '\n') =~= b + more);
        lemma_done_grows(b, more, du, home);
        let fin = scan_lines(b + more, du, home);
        assert(fin.done.take(stb.done.len() as int)[k as int] == entry);
        assert(ssh_config_hosts(s, du, home) == fin.done || ssh_config_hosts(s, du, home) == fin.done.push(
            close_block(fin, fin.current_host->Some_0),
        ));
        assert(ssh_config_hosts(s, du, home)[k as int] == fin.done[k as int]);
    }
}

/// A line on which the directive separator is a one-byte character.
///
/// Reading a directive whose first white space is a multi-byte character would slice
/// the line inside that character.
pub open spec fn separator_ok(line: Seq<char>) -> bool {
    let t = text::trim(line);
    t.len() == 0 || t[0] == '#' || first_ws(t) == t.len() || (t[first_ws(t) as int] as u32) < 0x80
}

/// Every line of `s` has a one-byte directive separator.
pub open spec fn ssh_config_readable(s: Seq<char>) -> bool {
    forall|k: int| 0 <= k < text::split_on(s, '\n').len() ==> separator_ok(#[trigger] text::split_on(s, '\n')[k])
}

/// The imported entry that a server stands for.
pub open spec fn entry_of(srv: Server) -> SshHostEntry {
    SshHostEntry {
        name: srv.name@,
        host: srv.host@,
        port: srv.port,
        user: srv.user@,
        key_path: match srv.auth {
            Auth::Key { path, .. } => path@,
            Auth::Password { vault_key } => vault_key@,
        },
    }
}

/// The fields that every imported server has in common.
pub open spec fn is_imported_server(srv: Server) -> bool {
    &&& srv.auth matches Auth::Key { passphrase, .. } && passphrase is None
    &&& srv.tags@.len() == 1
    &&& srv.tags@[0]@ == seq!['i', 'm', 'p', 'o', 'r', 't', 'e', 'd']
    &&& !srv.pinned
    &&& srv.last_connected is None
    &&& srv.connection_count == 0
    &&& srv.bookmarks@.len() == 0
    &&& !srv.agent_forwarding
    &&& srv.proxy_jump is None
}

/// Working state of the reader.
struct HostScan {
    current_host: Option<Vec<char>>,
    host_name: Option<Vec<char>>,
    port: u16,
    user: Vec<char>,
    identity: Option<Vec<char>>,
    servers: Vec<Server>,
}

/// View of an optional character vector.
pub open spec fn opt_chars(o: Option<Vec<char>>) -> Option<Seq<char>> {
    match o {
        Some(v) => Some(v@),
        None => None,
    }
}

impl HostScan {
    spec fn matches(&self, st: SshConfigScan) -> bool {
        &&& opt_chars(self.current_host) == st.current_host
        &&& opt_chars(self.host_name) == st.host_name
        &&& self.port == st.port
        &&& self.user@ == st.user
        &&& opt_chars(self.identity) == st.identity
        &&& self.servers@.map_values(|s: Server| entry_of(s)) == st.done
        &&& forall|k: int| 0 <= k < self.servers@.len() ==> is_imported_server(#[trigger] self.servers@[k])
    }

    /// Appends the server of the block named `name`.
    fn close(&mut self, name: &Vec<char>)
        ensures
            forall|st: SshConfigScan| old(self).matches(st) ==> final(self).matches(
                SshConfigScan { done: st.done.push(close_block(st, name@)), ..st },
            ),
            final(self).current_host == old(self).current_host,
            final(self).host_name == old(self).host_name,
            final(self).port == old(self).port,
            final(self).user == old(self).user,
            final(self).identity == old(self).identity,
    {
        let host = match &self.host_name {
            Some(h) => text::chars_to_string(h.as_slice()),
            None => text::chars_to_string(name.as_slice()),
        };
        let default_path = ['~', '/', '.', 's', 's', 'h', '/', 'i', 'd', '_', 'r', 's', 'a'];
        let path = match &self.identity {
            Some(p) => text::chars_to_string(p.as_slice()),
            None => text::chars_to_string(&default_path),
        };
        let imported = ['i', 'm', 'p', 'o', 'r', 't', 'e', 'd'];
        let mut tags: Vec<String> = Vec::new();
        tags.push(text::chars_to_string(&imported));
        let srv = Server {
            name: text::chars_to_string(name.as_slice()),
            host: host,
            port: self.port,
            user: text::chars_to_string(self.user.as_slice()),
            auth: Auth::Key { path: path, passphrase: None },
            tags: tags,
            pinned: false,
            last_connected: None,
            connection_count: 0,
            bookmarks: Vec::new(),
            agent_forwarding: false,
            proxy_jump: None,
        };
        let ghost old_servers = self.servers@;
        self.servers.push(srv);
        proof {
            assert forall|st: SshConfigScan| old(self).matches(st) implies self.matches(
                SshConfigScan { done: st.done.push(close_block(st, name@)), ..st },
            ) by {
                assert(self.servers@ == old_servers.push(srv));
                assert(self.servers@.map_values(|s: Server| entry_of(s)) =~= old_servers.map_values(
                    |s: Server| entry_of(s),
                ).push(entry_of(srv)));
                assert(entry_of(srv) == close_block(st, name@));
            }
        }
    }
}

} // verus!

verus! {

impl HostScan {
    /// Applies one configuration line, `cs[ls..le]`.
    fn process_line(
        &mut self,
        cs: &Vec<char>,
        ls: usize,
        le: usize,
        default_user: &Vec<char>,
        home: &Vec<char>,
        Ghost(st): Ghost<SshConfigScan>,
    )
        requires
            ls <= le <= cs@.len(),
            old(self).matches(st),
            separator_ok(cs@.subrange(ls as int, le as int)),
        ensures
            final(self).matches(
                scan_line(st, cs@.subrange(ls as int, le as int), default_user@, home@),
            ),
    {
        let ghost line = cs@.subrange(ls as int, le as int);
        let (a, b) = text::trim_bounds(cs.as_slice(), ls, le);
        let ghost t = cs@.subrange(a as int, b as int);
        assert(t == text::trim(line));
        if a == b || cs[a] == '#' {
            return;
        }
        let mut j = a;
        while j < b && !text::is_whitespace(cs[j])
            invariant
                a <= j <= b <= cs@.len(),
                t == cs@.subrange(a as int, b as int),
                forall|k: int| 0 <= k < j - a ==> !text::is_ws(#[trigger] t[k]),
            decreases b - j,
        {
            assert(t[j - a] == cs@[j as int]);
            j = j + 1;
        }
        if j == b {
            proof {
                lemma_first_ws(t, (b - a) as int);
            }
            return;
        }
        proof {
            assert(t[j - a] == cs@[j as int]);
            lemma_first_ws(t, (j - a) as int);
            assert(t.take((j - a) as int) == cs@.subrange(a as int, j as int));
            assert(t.skip((j - a + 1) as int) == cs@.subrange(j + 1, b as int));
        }
        let (va, vb) = text::trim_bounds(cs.as_slice(), j + 1, b);
        let ghost value = cs@.subrange(va as int, vb as int);
        let ghost key = cs@.subrange(a as int, j as int);
        if text::range_eq_ignore_case(cs.as_slice(), a, j, &['h', 'o', 's', 't']) {
            let wild = text::range_contains(cs.as_slice(), va, vb, '*')
                || text::range_contains(cs.as_slice(), va, vb, '?');
            match &self.current_host {
                Some(name) => {
                    let name_copy = text::sub_chars(name.as_slice(), 0, name.len());
                    assert(name@.subrange(0, name@.len() as int) == name@);
                    self.close(&name_copy);
                },
                None => {},
            }
            self.current_host = if !wild {
                Some(text::sub_chars(cs.as_slice(), va, vb))
            } else {
                None
            };
            self.host_name = None;
            self.port = 22;
            self.user = text::sub_chars(default_user.as_slice(), 0, default_user.len());
            assert(default_user@.subrange(0, default_user@.len() as int) == default_user@);
            self.identity = None;
        } else if text::range_eq_ignore_case(
            cs.as_slice(),
            a,
            j,
            &['h', 'o', 's', 't', 'n', 'a', 'm', 'e'],
        ) {
            self.host_name = Some(text::sub_chars(cs.as_slice(), va, vb));
        } else if text::range_eq_ignore_case(cs.as_slice(), a, j, &['p', 'o', 'r', 't']) {
            match text::parse_u16_range(cs.as_slice(), va, vb) {
                Some(p) => {
                    self.port = p;
                },
                None => {},
            }
        } else if text::range_eq_ignore_case(cs.as_slice(), a, j, &['u', 's', 'e', 'r']) {
            self.user = text::sub_chars(cs.as_slice(), va, vb);
        } else if text::range_eq_ignore_case(
            cs.as_slice(),
            a,
            j,
            &['i', 'd', 'e', 'n', 't', 'i', 't', 'y', 'f', 'i', 'l', 'e'],
        ) {
            let expanded = if va < vb && cs[va] == '~' {
                let mut e = text::sub_chars(home.as_slice(), 0, home.len());
                let rest = text::sub_chars(cs.as_slice(), va + 1, vb);
                let mut k: usize = 0;
                assert(home@.subrange(0, home@.len() as int) == home@);
                while k < rest.len()
                    invariant
                        k <= rest@.len(),
                        e@ == home@ + rest@.take(k as int),
                    decreases rest@.len() - k,
                {
                    e.push(rest[k]);
                    assert(rest@.take(k + 1) == rest@.take(k as int).push(rest@[k as int]));
                    k = k + 1;
                }
                assert(rest@.take(rest@.len() as int) == rest@);
                assert(rest@ == value.drop_first());
                e
            } else {
                text::sub_chars(cs.as_slice(), va, vb)
            };
            self.identity = Some(expanded);
        }
    }
}

/// Reads the host blocks of an OpenSSH client configuration.
///
/// Each `Host` block with a concrete alias (no `*` or `?`) becomes a server tagged
/// `imported`, using key authentication; `HostName`, `Port`, `User` and `IdentityFile`
/// fill its fields, `default_user` and `~/.ssh/id_rsa` stand for absent ones, and a
/// leading `~` of an identity file is replaced by `home`. Keys match without regard to
/// case; blank lines, comments, lines without a value and unknown keys are skipped.
pub fn parse_ssh_config(content: &str, default_user: &str, home: &str) -> (servers: Vec<Server>)
    requires
        ssh_config_readable(content@),
    ensures
        servers@.map_values(|s: Server| entry_of(s)) == ssh_config_hosts(
            content@,
            default_user@,
            home@,
        ),
        forall|k: int| 0 <= k < servers@.len() ==> is_imported_server(#[trigger] servers@[k]),
{
    let cs = text::str_chars(content);
    let du = text::str_chars(default_user);
    let hm = text::str_chars(home);
    let ghost s = cs@;
    let ghost n = cs@.len();
    let mut scan = HostScan {
        current_host: None,
        host_name: None,
        port: 22,
        user: text::sub_chars(du.as_slice(), 0, du.len()),
        identity: None,
        servers: Vec::new(),
    };
    assert(du@.subrange(0, du@.len() as int) == du@);
    assert(scan.servers@.map_values(|s: Server| entry_of(s)) =~= Seq::<SshHostEntry>::empty());
    let ghost mut lines: Seq<Seq<char>> = Seq::empty();
    let mut ls: usize = 0;
    let mut i: usize = 0;
    assert(s.take(0) =~= Seq::<char>::empty());
    assert(s.subrange(0, 0) =~= Seq::<char>::empty());
    while i < cs.len()
        invariant
            s == cs@,
            n == s.len(),
            ls <= i <= n,
            text::split_on(s.take(i as int), '\n') == lines.push(s.subrange(ls as int, i as int)),
            scan.matches(scan_lines(lines, du@, hm@)),
            ssh_config_readable(s),
        decreases n - i,
    {
        let ghost before = text::split_on(s.take(i as int), '\n');
        assert(s.take(i + 1).drop_last() == s.take(i as int));
        assert(s.take(i + 1).last() == cs@[i as int]);
        if cs[i] == '\n' {
            let ghost line = s.subrange(ls as int, i as int);
            proof {
                text::lemma_split_on_stable(s, '\n', i as int, n as int);
                assert(s.take(n as int) == s);
                assert(text::split_on(s, '\n')[lines.len() as int] == line);
            }
            scan.process_line(&cs, ls, i, &du, &hm, Ghost(scan_lines(lines, du@, hm@)));
            proof {
                let next = lines.push(line);
                assert(next.drop_last() == lines);
                lines = next;
                assert(s.subrange(i + 1, i + 1) =~= Seq::<char>::empty());
            }
            ls = i + 1;
        } else {
            assert(s.subrange(ls as int, i + 1) == s.subrange(ls as int, i as int).push(cs@[i as int]));
            assert(text::split_on(s.take(i + 1), '\n') =~= lines.push(s.subrange(ls as int, i + 1)));
        }
        i = i + 1;
    }
    let ghost last = s.subrange(ls as int, n as int);
    proof {
        assert(s.take(n as int) == s);
        assert(text::split_on(s, '\n')[lines.len() as int] == last);
    }
    scan.process_line(&cs, ls, n_len(&cs), &du, &hm, Ghost(scan_lines(lines, du@, hm@)));
    proof {
        let all = lines.push(last);
        assert(all.drop_last() == lines);
        assert(all == text::split_on(s, '\n'));
    }
    let ghost st = scan_lines(text::split_on(s, '\n'), du@, hm@);
    match &scan.current_host {
        Some(name) => {
            let name_copy = text::sub_chars(name.as_slice(), 0, name.len());
            assert(name@.subrange(0, name@.len() as int) == name@);
            scan.close(&name_copy);
        },
        None => {},
    }
    scan.servers
}

/// Whether the line `cs[ls..le]` has a one-byte directive separator.
fn line_separator_ok(cs: &Vec<char>, ls: usize, le: usize) -> (b: bool)
    requires
        ls <= le <= cs@.len(),
    ensures
        b == separator_ok(cs@.subrange(ls as int, le as int)),
{
    let (a, b) = text::trim_bounds(cs.as_slice(), ls, le);
    let ghost t = cs@.subrange(a as int, b as int);
    if a == b || cs[a] == '#' {
        return true;
    }
    let mut j = a;
    while j < b && !text::is_whitespace(cs[j])
        invariant
            a <= j <= b <= cs@.len(),
            t == cs@.subrange(a as int, b as int),
            forall|k: int| 0 <= k < j - a ==> !text::is_ws(#[trigger] t[k]),
        decreases b - j,
    {
        assert(t[j - a] == cs@[j as int]);
        j = j + 1;
    }
    if j == b {
        proof {
            lemma_first_ws(t, (b - a) as int);
        }
        return true;
    }
    proof {
        assert(t[j - a] == cs@[j as int]);
        lemma_first_ws(t, (j - a) as int);
    }
    (cs[j] as u32) < 0x80
}

/// Whether every line of `content` has a one-byte directive separator, so that
/// `parse_ssh_config` can read it.
pub fn ssh_config_is_readable(content: &str) -> (b: bool)
    ensures
        b == ssh_config_readable(content@),
{
    let cs = text::str_chars(content);
    let ghost s = cs@;
    let ghost n = cs@.len();
    let ghost mut lines: Seq<Seq<char>> = Seq::empty();
    let mut ls: usize = 0;
    let mut i: usize = 0;
    assert(s.take(0) =~= Seq::<char>::empty());
    assert(s.subrange(0, 0) =~= Seq::<char>::empty());
    while i < cs.len()
        invariant
            s == cs@,
            s == content@,
            n == s.len(),
            ls <= i <= n,
            text::split_on(s.take(i as int), '\n') == lines.push(s.subrange(ls as int, i as int)),
            forall|k: int| 0 <= k < lines.len() ==> separator_ok(#[trigger] lines[k]),
        decreases n - i,
    {
        assert(s.take(i + 1).drop_last() == s.take(i as int));
        assert(s.take(i + 1).last() == cs@[i as int]);
        if cs[i] == '\n' {
            let ghost line = s.subrange(ls as int, i as int);
            if !line_separator_ok(&cs, ls, i) {
                proof {
                    text::lemma_split_on_stable(s, '\n', i as int, n as int);
                    assert(s.take(n as int) == s);
                    assert(text::split_on(s, '\n')[lines.len() as int] == line);
                    assert(lines.len() < text::split_on(s, '\n').len());
                    assert(!separator_ok(text::split_on(s, '\n')[lines.len() as int]));
                    assert(s == content@);
                    assert(!ssh_config_readable(content@));
                }
                return false;
            }
            proof {
                let next = lines.push(line);
                assert(next.drop_last() == lines);
                lines = next;
                assert(s.subrange(i + 1, i + 1) =~= Seq::<char>::empty());
            }
            ls = i + 1;
        } else {
            assert(s.subrange(ls as int, i + 1) == s.subrange(ls as int, i as int).push(cs@[i as int]));
            assert(text::split_on(s.take(i + 1), '\n') =~= lines.push(s.subrange(ls as int, i + 1)));
        }
        i = i + 1;
    }
    proof {
        assert(s.take(n as int) == s);
    }
    let ok = line_separator_ok(&cs, ls, n_len(&cs));
    proof {
        let all = lines.push(s.subrange(ls as int, n as int));
        assert(all == text::split_on(s, '\n'));
        if ok {
            assert forall|k: int| 0 <= k < all.len() implies separator_ok(#[trigger] all[k]) by {
                if k < lines.len() {
                    assert(all[k] == lines[k]);
                }
            }
        } else {
            assert(!separator_ok(all[lines.len() as int]));
        }
    }
    ok
}

/// The length of a character vector.
fn n_len(v: &Vec<char>) -> (n: usize)
    ensures
        n == v@.len(),
{
    v.len()
}

} // verus!
