//! Remote directory navigation over plain `ssh` commands (`ls`, `cd`, `cat`).
//!
//! The commands run on the server through `execute_ssh_command`; here they are built,
//! and what they print is read back.

use vstd::prelude::*;

use super::FileInfo;
use crate::config::models::Server;
use crate::text;

verus! {

/// A position in a server's file system, reached over `ssh`.
#[derive(Debug)]
pub struct RemoteFs {
    /// The current remote directory.
    pub current_dir: String,
    /// The server, when one is connected.
    pub server: Option<Server>,
}

/// Name, directory flag and size of the entry a line of `ls -la` describes: a line of
/// at least nine words, the name being the words from the ninth on joined by spaces;
/// `.` and `..` are no entries.
pub open spec fn ls_entry(line: Seq<char>) -> Option<(Seq<char>, bool, u64)> {
    let ws = text::words(line);
    if ws.len() >= 9 {
        let name = text::join_with(ws.skip(8), " "@);
        if name == "."@ || name == ".."@ {
            None
        } else {
            Some(
                (
                    name,
                    ws[0][0] == 'd',
                    match text::parse_u64(ws[4]) {
                        Some(n) => n,
                        None => 0,
                    },
                ),
            )
        }
    } else {
        None
    }
}

/// The entries of the lines of an `ls -la` listing, skipping lines starting with
/// `total`.
pub open spec fn ls_entries(lines: Seq<Seq<char>>) -> Seq<(Seq<char>, bool, u64)>
    decreases lines.len(),
{
    if lines.len() == 0 {
        Seq::empty()
    } else {
        let rest = ls_entries(lines.drop_last());
        let l = lines.last();
        if text::has_prefix(l, "total"@) {
            rest
        } else {
            match ls_entry(l) {
                Some(e) => rest.push(e),
                None => rest,
            }
        }
    }
}

/// Name, directory flag and size of each entry.
pub open spec fn entries_view(fs: Seq<FileInfo>) -> Seq<(Seq<char>, bool, u64)> {
    fs.map_values(|f: FileInfo| (f.name@, f.is_dir, f.size))
}

/// `path` as seen from `dir`: itself when absolute, `dir/path` otherwise.
pub open spec fn full_remote(dir: Seq<char>, path: Seq<char>) -> Seq<char> {
    if path.len() > 0 && path[0] == '/' {
        path
    } else {
        dir + seq!['/'] + path
    }
}

/// The first step of a `cd`: ask for the parent of the current directory, or check the
/// target directory.
#[derive(Debug)]
pub enum CdStep {
    /// Run this command (`dirname "DIR"`); its output is the parent directory.
    Parent { command: String },
    /// Run this command (`cd "DIR" && pwd`); its output is the directory reached.
    Check { command: String },
}

/// `cd "DIR" && pwd`.
pub open spec fn check_command(dir: Seq<char>) -> Seq<char> {
    "cd \""@ + dir + "\" && pwd"@
}

/// The directory a `cd` to `path` from `dir` aims at, when no parent is asked for:
/// `path` itself when absolute or starting at `~`, else `dir/path`.
pub open spec fn cd_target(dir: Seq<char>, path: Seq<char>) -> Seq<char> {
    if (path.len() > 0 && path[0] == '/') || path == "~"@ || text::has_prefix(path, "~/"@) {
        path
    } else {
        dir + seq!['/'] + path
    }
}

/// `"` + `s` + `"` inside the text `before ... after`.
fn quoted_command(before: &str, s: &str, after: &str) -> (r: String)
    ensures
        r@ == before@ + s@ + after@,
{
    let a = text::concat_strs(before, s);
    text::concat_strs(a.as_str(), after)
}

/// The entry a line of `ls -la` describes.
fn parse_ls_line(line: &[char]) -> (r: Option<FileInfo>)
    ensures
        match ls_entry(line@) {
            Some(e) => r matches Some(f) && (f.name@, f.is_dir, f.size) == e && f.permissions is None,
            None => r is None,
        },
{
    let ws = text::split_words(line);
    let ghost wv = ws@.map_values(|w: Vec<char>| w@);
    if ws.len() < 9 {
        return None;
    }
    let mut name: Vec<char> = Vec::new();
    let mut k: usize = 8;
    assert(wv.subrange(8, 8) =~= Seq::<Seq<char>>::empty());
    while k < ws.len()
        invariant
            8 <= k <= ws@.len(),
            wv == ws@.map_values(|w: Vec<char>| w@),
            name@ == text::join_with(wv.subrange(8, k as int), " "@),
        decreases ws@.len() - k,
    {
        if k > 8 {
            name.push(' ');
        }
        text::append_chars(&mut name, ws[k].as_slice());
        proof {
            reveal_strlit(" ");
            let p = wv.subrange(8, k + 1);
            assert(p.drop_last() =~= wv.subrange(8, k as int));
            assert(p.last() == ws@[k as int]@);
            if k == 8 {
                assert(wv.subrange(8, 8) =~= Seq::<Seq<char>>::empty());
            }
        }
        k = k + 1;
    }
    assert(wv.subrange(8, ws@.len() as int) =~= wv.skip(8));
    let dot = name.len() == 1 && name[0] == '.';
    let dotdot = name.len() == 2 && name[0] == '.' && name[1] == '.';
    proof {
        reveal_strlit(".");
        reveal_strlit("..");
        assert(dot <==> name@ =~= "."@);
        assert(dotdot <==> name@ =~= ".."@);
    }
    if dot || dotdot {
        return None;
    }
    let is_dir = ws[0].len() > 0 && ws[0][0] == 'd';
    let size = match text::parse_u64_chars(ws[4].as_slice()) {
        Some(n) => n,
        None => 0,
    };
    proof {
        text::lemma_words_nonempty(line@, 0);
    }
    Some(FileInfo { name: text::chars_to_string(name.as_slice()), is_dir, size, permissions: None })
}

impl RemoteFs {
    /// No server, at `/`.
    pub fn new() -> (fs: RemoteFs)
        ensures
            fs.current_dir@ == "/"@,
            fs.server is None,
    {
        RemoteFs { current_dir: "/".to_owned(), server: None }
    }

    /// The given server, at its home directory `~`.
    pub fn with_server(server: Server) -> (fs: RemoteFs)
        ensures
            fs.current_dir@ == "~"@,
            fs.server == Some(server),
    {
        RemoteFs { current_dir: "~".to_owned(), server: Some(server) }
    }

    /// The current remote directory.
    pub fn current_dir(&self) -> (r: &str)
        ensures
            r@ == self.current_dir@,
    {
        self.current_dir.as_str()
    }

    /// The command listing the current directory (`ls -la "DIR"`), when a server is
    /// connected.
    pub fn list_command(&self) -> (r: Option<String>)
        ensures
            match self.server {
                Some(_) => r matches Some(c) && c@ == "ls -la \""@ + self.current_dir@ + "\""@,
                None => r is None,
            },
    {
        match &self.server {
            Some(_) => Some(quoted_command("ls -la \"", self.current_dir.as_str(), "\"")),
            None => None,
        }
    }

    /// The entries of the current directory, read from what `ls -la` printed; none when
    /// no server is connected or the command failed.
    pub fn list(&self, output: Result<String, String>) -> (r: Vec<FileInfo>)
        ensures
            forall|i: int| 0 <= i < r@.len() ==> (#[trigger] r@[i]).permissions is None,
            match (self.server, output) {
                (Some(_), Ok(o)) => entries_view(r@) == ls_entries(text::rust_lines(o@)),
                _ => r@.len() == 0,
            },
    {
        if self.server.is_none() {
            return Vec::new();
        }
        let o = match output {
            Ok(o) => o,
            Err(_) => {
                return Vec::new();
            },
        };
        let cs = text::str_chars(o.as_str());
        let lines = text::lines_of(cs.as_slice());
        let ghost lv = lines@.map_values(|v: Vec<char>| v@);
        let total = text::str_chars("total");
        let mut out: Vec<FileInfo> = Vec::new();
        let mut i: usize = 0;
        assert(lv.take(0) =~= Seq::<Seq<char>>::empty());
        while i < lines.len()
            invariant
                i <= lines@.len(),
                lv == lines@.map_values(|v: Vec<char>| v@),
                lv == text::rust_lines(o@),
                total@ == "total"@,
                entries_view(out@) == ls_entries(lv.take(i as int)),
                forall|j: int| 0 <= j < out@.len() ==> (#[trigger] out@[j]).permissions is None,
            decreases lines@.len() - i,
        {
            assert(lv.take(i + 1).drop_last() == lv.take(i as int));
            assert(lv.take(i + 1).last() == lines@[i as int]@);
            if !text::starts_with_chars(lines[i].as_slice(), total.as_slice()) {
                if let Some(f) = parse_ls_line(lines[i].as_slice()) {
                    let ghost before = out@;
                    out.push(f);
                    assert(entries_view(out@) =~= entries_view(before).push((f.name@, f.is_dir, f.size)));
                }
            }
            i = i + 1;
        }
        assert(lv.take(lines@.len() as int) == lv);
        out
    }

    /// The first step of a `cd` to `path`: no server is an error; `..` asks for the
    /// parent (`dirname "DIR"`); anything else is checked at once (`cd "TARGET" && pwd`).
    pub fn cd_step(&self, path: &str) -> (r: Result<CdStep, String>)
        ensures
            match self.server {
                None => r matches Err(e) && e@ == "No server connected"@,
                Some(_) => if path@ == ".."@ && !(path@.len() > 0 && path@[0] == '/') {
                    r matches Ok(CdStep::Parent { command }) && command@ == "dirname \""@
                        + self.current_dir@ + "\""@
                } else {
                    r matches Ok(CdStep::Check { command }) && command@ == check_command(
                        cd_target(self.current_dir@, path@),
                    )
                },
            },
    {
        if self.server.is_none() {
            return Err("No server connected".to_owned());
        }
        let pc = text::str_chars(path);
        let absolute = pc.len() > 0 && pc[0] == '/';
        let tilde_pc = text::str_chars("~/");
        let home = text::str_eq(path, "~") || text::starts_with_chars(pc.as_slice(), tilde_pc.as_slice());
        if !absolute && text::str_eq(path, "..") {
            return Ok(
                CdStep::Parent {
                    command: quoted_command("dirname \"", self.current_dir.as_str(), "\""),
                },
            );
        }
        let target = if absolute || home {
            path.to_owned()
        } else {
            let mut v = text::str_chars(self.current_dir.as_str());
            v.push('/');
            text::append_chars(&mut v, pc.as_slice());
            text::chars_to_string(v.as_slice())
        };
        Ok(CdStep::Check { command: quoted_command("cd \"", target.as_str(), "\" && pwd") })
    }

    /// The check command after `dirname` answered: the parent is its trimmed output.
    pub fn cd_parent_checked(&self, output: Result<String, String>) -> (r: Result<String, String>)
        ensures
            match output {
                Ok(o) => r matches Ok(c) && c@ == check_command(text::trim(o@)),
                Err(e) => r == Err::<String, String>(e),
            },
    {
        match output {
            Ok(o) => {
                let cs = text::str_chars(o.as_str());
                let (a, b) = text::trim_bounds(cs.as_slice(), 0, cs.len());
                assert(cs@.subrange(0, cs@.len() as int) == cs@);
                let t = text::sub_chars(cs.as_slice(), a, b);
                let ts = text::chars_to_string(t.as_slice());
                Ok(quoted_command("cd \"", ts.as_str(), "\" && pwd"))
            },
            Err(e) => Err(e),
        }
    }

    /// Finishes a `cd` to `path` with what the check command printed: the trimmed output
    /// becomes the current directory; an empty one means the directory was not found.
    pub fn cd(&mut self, path: &str, output: Result<String, String>) -> (r: Result<(), String>)
        ensures
            match output {
                Err(e) => r == Err::<(), String>(e) && *final(self) == *old(self),
                Ok(o) => if text::trim(o@).len() == 0 {
                    r matches Err(m) && m@ == "Directory not found: "@ + path@ && *final(self)
                        == *old(self)
                } else {
                    r is Ok && final(self).current_dir@ == text::trim(o@) && final(self).server
                        == old(self).server
                },
            },
    {
        match output {
            Err(e) => Err(e),
            Ok(o) => {
                let cs = text::str_chars(o.as_str());
                let (a, b) = text::trim_bounds(cs.as_slice(), 0, cs.len());
                assert(cs@.subrange(0, cs@.len() as int) == cs@);
                if a == b {
                    return Err(text::concat_strs("Directory not found: ", path));
                }
                let t = text::sub_chars(cs.as_slice(), a, b);
                self.current_dir = text::chars_to_string(t.as_slice());
                Ok(())
            },
        }
    }

    /// The command that copies `local_path` to `remote_path` (relative to the current
    /// directory) on the server: `cat "LOCAL" > "REMOTE"`.
    pub fn upload(&self, local_path: &str, remote_path: &str) -> (r: Result<String, String>)
        ensures
            match self.server {
                None => r matches Err(e) && e@ == "No server connected"@,
                Some(_) => r matches Ok(c) && c@ == "cat \""@ + local_path@ + "\" > \""@ + full_remote(
                    self.current_dir@,
                    remote_path@,
                ) + "\""@,
            },
    {
        if self.server.is_none() {
            return Err("No server connected".to_owned());
        }
        let full = self.full_path(remote_path);
        let a = quoted_command("cat \"", local_path, "\" > \"");
        Ok(text::concat_strs(text::concat_strs(a.as_str(), full.as_str()).as_str(), "\""))
    }

    /// The command that prints `remote_path` (relative to the current directory) from the
    /// server: `cat "REMOTE"`.
    pub fn get_file_content(&self, remote_path: &str) -> (r: Result<String, String>)
        ensures
            match self.server {
                None => r matches Err(e) && e@ == "No server connected"@,
                Some(_) => r matches Ok(c) && c@ == "cat \""@ + full_remote(
                    self.current_dir@,
                    remote_path@,
                ) + "\""@,
            },
    {
        if self.server.is_none() {
            return Err("No server connected".to_owned());
        }
        let full = self.full_path(remote_path);
        Ok(quoted_command("cat \"", full.as_str(), "\""))
    }

    fn full_path(&self, path: &str) -> (r: String)
        ensures
            r@ == full_remote(self.current_dir@, path@),
    {
        let pc = text::str_chars(path);
        if pc.len() > 0 && pc[0] == '/' {
            path.to_owned()
        } else {
            let mut v = text::str_chars(self.current_dir.as_str());
            v.push('/');
            text::append_chars(&mut v, pc.as_slice());
            text::chars_to_string(v.as_slice())
        }
    }
}

} // verus!
