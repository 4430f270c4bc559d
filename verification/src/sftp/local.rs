//! Position of the local pane of the SFTP browser in the local file system.

use vstd::prelude::*;

use super::FileInfo;
use crate::text;

verus! {

/// The user's home directory (`dirs::home_dir`), as a string.
///
/// The directory comes from the environment; nothing is stated of it.
#[verifier::external_body]
fn home_directory() -> Option<String> {
    match dirs::home_dir() {
        Some(p) => Some(p.to_string_lossy().into_owned()),
        None => None,
    }
}

/// `PathBuf::join` on Unix: an absolute `file` replaces `dir`; otherwise `file` is
/// appended, with a `/` unless `dir` is empty or already ends with one.
pub open spec fn path_join(dir: Seq<char>, file: Seq<char>) -> Seq<char> {
    if file.len() > 0 && file[0] == '/' {
        file
    } else if dir.len() == 0 || dir.last() == '/' {
        dir + file
    } else {
        dir + seq!['/'] + file
    }
}

/// Joins a file name to a directory path like `PathBuf::join`.
pub fn join_path(dir: &str, file: &str) -> (r: String)
    ensures
        r@ == path_join(dir@, file@),
{
    let d = text::str_chars(dir);
    let f = text::str_chars(file);
    if f.len() > 0 && f[0] == '/' {
        return file.to_owned();
    }
    let mut out = text::sub_chars(d.as_slice(), 0, d.len());
    assert(d@.subrange(0, d@.len() as int) == d@);
    if !(d.len() == 0 || d[d.len() - 1] == '/') {
        out.push('/');
    }
    text::append_chars(&mut out, f.as_slice());
    text::chars_to_string(out.as_slice())
}

/// The local file system position of the SFTP browser.
#[derive(Debug)]
pub struct LocalFs {
    /// The current local directory.
    pub current_dir: String,
}

impl LocalFs {
    /// Starts at the user's home directory, or at `/` when it is unknown.
    ///
    /// The home directory comes from the environment, so no clause states the result.
    pub fn new() -> LocalFs {
        match home_directory() {
            Some(h) => LocalFs { current_dir: h },
            None => LocalFs { current_dir: "/".to_owned() },
        }
    }

    /// The current local directory.
    pub fn current_dir(&self) -> (r: &str)
        ensures
            r@ == self.current_dir@,
    {
        self.current_dir.as_str()
    }

    /// Full path of `filename` in the current directory.
    pub fn get_full_path(&self, filename: &str) -> (r: String)
        ensures
            r@ == path_join(self.current_dir@, filename@),
    {
        join_path(self.current_dir.as_str(), filename)
    }
}


/// `f` inserted into `r` after every entry whose name does not sort after its own.
pub open spec fn insert_by_name(r: Seq<FileInfo>, f: FileInfo) -> Seq<FileInfo>
    decreases r.len(),
{
    if r.len() == 0 {
        seq![f]
    } else if text::chars_lt(f.name@, r[0].name@) {
        seq![f] + r
    } else {
        seq![r[0]] + insert_by_name(r.drop_first(), f)
    }
}

/// The stable sort of `s` by name.
pub open spec fn sorted_by_name(s: Seq<FileInfo>) -> Seq<FileInfo>
    decreases s.len(),
{
    if s.len() == 0 {
        Seq::empty()
    } else {
        insert_by_name(sorted_by_name(s.drop_last()), s.last())
    }
}

proof fn lemma_insert_by_name_at(r: Seq<FileInfo>, f: FileInfo, p: int)
    requires
        0 <= p <= r.len(),
        forall|j: int| 0 <= j < p ==> !text::chars_lt(f.name@, (#[trigger] r[j]).name@),
        p < r.len() ==> text::chars_lt(f.name@, r[p].name@),
    ensures
        insert_by_name(r, f) == r.insert(p, f),
    decreases p,
{
    if p == 0 {
        assert(r.insert(0, f) =~= seq![f] + r);
    } else {
        let rest = r.drop_first();
        assert forall|j: int| 0 <= j < p - 1 implies !text::chars_lt(f.name@, (#[trigger] rest[j]).name@) by {
            assert(rest[j] == r[j + 1]);
        }
        lemma_insert_by_name_at(rest, f, p - 1);
        assert(seq![r[0]] + rest.insert(p - 1, f) =~= r.insert(p, f));
    }
}

/// Sorts directory entries by name, keeping the order of equal names.
pub fn sort_files_by_name(files: Vec<FileInfo>) -> (r: Vec<FileInfo>)
    ensures
        r@ == sorted_by_name(files@),
{
    let ghost orig = files@;
    let total = files.len();
    let mut src = files;
    let mut out: Vec<FileInfo> = Vec::new();
    let mut n: usize = 0;
    assert(orig.skip(0) == orig);
    while src.len() > 0
        invariant
            n <= orig.len(),
            orig.len() == total,
            src@.len() == orig.len() - n,
            src@ == orig.skip(n as int),
            out@ == sorted_by_name(orig.take(n as int)),
        decreases src@.len(),
    {
        let f = src.remove(0);
        let mut p: usize = 0;
        while p < out.len() && !text::str_lt(f.name.as_str(), out[p].name.as_str())
            invariant
                p <= out@.len(),
                forall|j: int| 0 <= j < p ==> !text::chars_lt(f.name@, (#[trigger] out@[j]).name@),
            decreases out@.len() - p,
        {
            p = p + 1;
        }
        proof {
            lemma_insert_by_name_at(out@, f, p as int);
            assert(orig.take(n + 1).drop_last() == orig.take(n as int));
            assert(orig.take(n + 1).last() == f);
            assert(orig.skip(n + 1) == orig.skip(n as int).drop_first());
        }
        out.insert(p, f);
        n = n + 1;
    }
    assert(orig.take(orig.len() as int) == orig);
    out
}

} // verus!
