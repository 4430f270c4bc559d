//! State of the dual-pane SFTP browser and formatting of file sizes.

use vstd::prelude::*;

use crate::config::models::Server;
use crate::sftp::{FileInfo, LocalFs};
use crate::text;
use crate::tui::binary64;

verus! {

/// `2^k`.
pub open spec fn pow2(k: nat) -> nat {
    vstd::arithmetic::power2::pow2(k)
}

/// Number of binary digits of `n` (0 for 0).
pub open spec fn bit_len(n: nat) -> nat
    decreases n,
{
    if n == 0 {
        0
    } else {
        1 + bit_len(n / 2)
    }
}

/// `t / d` rounded to the nearest integer, ties to the even one.
pub open spec fn div_round_even(t: nat, d: nat) -> nat {
    let q = t / d;
    let r = t % d;
    if r * 2 > d || (r * 2 == d && q % 2 == 1) {
        q + 1
    } else {
        q
    }
}

/// The value of `n as f64`: `n` rounded to 53 significant bits, ties to even.
pub open spec fn u64_as_f64(n: nat) -> nat {
    if n < pow2(53) {
        n
    } else {
        let s = (bit_len(n) - 53) as nat;
        div_round_even(n, pow2(s)) * pow2(s)
    }
}

/// `x / d` written with one decimal (`{:.1}`), exactly rounded, ties to even.
pub open spec fn one_decimal(x: nat, d: nat) -> Seq<char> {
    let t = div_round_even(x * 10, d);
    text::decimal(t / 10) + seq!['.', text::digit_char(t % 10)]
}

/// Human-readable size: bytes below 1 KiB, then KiB, MiB and GiB with one decimal.
pub open spec fn size_text(size: nat) -> Seq<char> {
    if size < 1024 {
        text::decimal(size) + seq!['B']
    } else if size < 1024 * 1024 {
        one_decimal(size, 1024) + seq!['K']
    } else if size < 1024 * 1024 * 1024 {
        one_decimal(size, 1024 * 1024) + seq!['M']
    } else {
        one_decimal(u64_as_f64(size), 1024 * 1024 * 1024) + seq!['G']
    }
}

/// `2^k` for small `k`.
fn pow2_exec(k: u32) -> (p: u128)
    requires
        k <= 64,
    ensures
        p == pow2(k as nat),
        p >= 1,
{
    let mut p: u128 = 1;
    let mut i: u32 = 0;
    proof {
        vstd::arithmetic::power2::lemma2_to64();
        lemma_pow2_bound(0);
    }
    while i < k
        invariant
            i <= k <= 64,
            p == pow2(i as nat),
            1 <= p <= pow2(i as nat),
            pow2(i as nat) <= 0x1_0000_0000_0000_0000u128,
        decreases k - i,
    {
        proof {
            lemma_pow2_bound((i + 1) as nat);
            vstd::arithmetic::power2::lemma_pow2_unfold((i + 1) as nat);
        }
        p = p * 2;
        i = i + 1;
    }
    p
}

/// `2^k <= 2^64` for `k <= 64`.
proof fn lemma_pow2_bound(k: nat)
    requires
        k <= 64,
    ensures
        pow2(k) <= 0x1_0000_0000_0000_0000,
        pow2(k) >= 1,
    decreases k,
{
    vstd::arithmetic::power2::lemma2_to64();
    vstd::arithmetic::power2::lemma_pow2_pos(k);
    if k < 64 {
        vstd::arithmetic::power2::lemma_pow2_strictly_increases(k, 64);
    }
}

/// `2^i <= 2^j` for `i <= j`.
pub(crate) proof fn lemma_pow2_mono(i: nat, j: nat)
    requires
        i <= j,
    ensures
        pow2(i) <= pow2(j),
    decreases j,
{
    if i < j {
        vstd::arithmetic::power2::lemma_pow2_strictly_increases(i, j);
    }
}

/// Number of binary digits of `n`.
fn bit_len_exec(n: u64) -> (b: u32)
    ensures
        b == bit_len(n as nat),
        b <= 64,
{
    let mut m = n;
    let mut b: u32 = 0;
    proof {
        lemma_bit_len_u64(n as nat);
    }
    while m > 0
        invariant
            bit_len(n as nat) == b + bit_len(m as nat),
            b + bit_len(m as nat) <= 64,
        decreases m,
    {
        proof {
            lemma_bit_len_u64(m as nat);
        }
        m = m / 2;
        b = b + 1;
    }
    b
}

/// `bit_len` of a `u64` is at most 64.
proof fn lemma_bit_len_u64(n: nat)
    requires
        n < 0x1_0000_0000_0000_0000,
    ensures
        bit_len(n) <= 64,
{
    vstd::arithmetic::power2::lemma2_to64();
    lemma_bit_len_bound(n, 64);
}

/// `n < 2^k` gives `bit_len(n) <= k`.
pub(crate) proof fn lemma_bit_len_bound(n: nat, k: nat)
    requires
        n < pow2(k),
    ensures
        bit_len(n) <= k,
    decreases k,
{
    vstd::arithmetic::power2::lemma2_to64();
    if n > 0 {
        if k == 0 {
            assert(false);
        } else {
            vstd::arithmetic::power2::lemma_pow2_unfold(k);
            lemma_bit_len_bound(n / 2, (k - 1) as nat);
        }
    }
}

/// `t / d` rounded, ties to even.
fn div_round_even_exec(t: u128, d: u128) -> (r: u128)
    requires
        0 < d <= 0x1_0000_0000_0000_0000,
        t < 0x1_0000_0000_0000_0000_0000_0000,
    ensures
        r == div_round_even(t as nat, d as nat),
        r <= t / d + 1,
{
    let q = t / d;
    let rem = t % d;
    if rem * 2 > d || (rem * 2 == d && q % 2 == 1) {
        q + 1
    } else {
        q
    }
}

/// The value of `n as f64`.
fn u64_as_f64_exec(n: u64) -> (r: u128)
    ensures
        r == u64_as_f64(n as nat),
        r <= 0x1_0000_0000_0000_0800u128,
{
    let p53 = pow2_exec(53);
    proof {
        vstd::arithmetic::power2::lemma2_to64();
        vstd::arithmetic::power2::lemma2_to64_rest();
    }
    if (n as u128) < p53 {
        return n as u128;
    }
    let b = bit_len_exec(n);
    proof {
        lemma_bit_len_at_least(n as nat, 53);
    }
    let s = b - 53;
    let d = pow2_exec(s);
    proof {
        lemma_pow2_mono(s as nat, 11);
        vstd::arithmetic::power2::lemma2_to64();
    }
    let q = div_round_even_exec(n as u128, d);
    assert(q * d <= n as u128 + d) by (nonlinear_arith)
        requires
            q <= (n as u128) / d + 1,
            d > 0,
    {
    }
    q * d
}

/// `n >= 2^k` gives `bit_len(n) > k`.
pub(crate) proof fn lemma_bit_len_at_least(n: nat, k: nat)
    requires
        n >= pow2(k),
    ensures
        bit_len(n) >= k + 1,
    decreases k,
{
    vstd::arithmetic::power2::lemma2_to64();
    if k > 0 {
        vstd::arithmetic::power2::lemma_pow2_unfold(k);
        lemma_bit_len_at_least(n / 2, (k - 1) as nat);
    }
}

/// `x / d` with one decimal.
fn push_one_decimal(out: &mut Vec<char>, x: u128, d: u128)
    requires
        1024 <= d <= 0x4000_0000,
        x <= 0x1_0000_0000_0000_0800u128,
    ensures
        final(out)@ == old(out)@ + one_decimal(x as nat, d as nat),
{
    let t = div_round_even_exec(x * 10, d);
    let ghost xx = (x * 10) as nat;
    let ghost dd = d as nat;
    assert(xx / dd <= xx / 1024) by {
        vstd::arithmetic::div_mod::lemma_div_is_ordered_by_denominator(xx as int, 1024, dd as int);
    }
    assert(t <= 0x10_0000_0000_0000_0000u128);
    text::push_decimal(out, (t / 10) as u64);
    out.push('.');
    let digit = (t % 10) as u8;
    out.push((digit + 48) as char);
    proof {
        assert((((t % 10) as nat + '0' as nat) as u32) as char == ((digit + 48) as u8) as char);
    }
}

/// Human-readable file size: `512B`, `1.5K`, `2.0M`, `3.0G`.
pub fn format_size(size: u64) -> (r: String)
    ensures
        r@ == size_text(size as nat),
{
    let mut out: Vec<char> = Vec::new();
    if size < 1024 {
        text::push_decimal(&mut out, size);
        out.push('B');
    } else if size < 1024 * 1024 {
        push_one_decimal(&mut out, size as u128, 1024);
        out.push('K');
    } else if size < 1024 * 1024 * 1024 {
        push_one_decimal(&mut out, size as u128, 1024 * 1024);
        out.push('M');
    } else {
        let v = u64_as_f64_exec(size);
        push_one_decimal(&mut out, v, 1024 * 1024 * 1024);
        out.push('G');
    }
    text::chars_to_string(out.as_slice())
}

} // verus!

verus! {

/// A path piece that is a component of a Unix path: not empty, and not `.` unless it
/// starts the path.
pub open spec fn is_component(start: int, piece: Seq<char>) -> bool {
    piece.len() > 0 && (piece != seq!['.'] || start == 0)
}

/// Scan of a path for `Path::parent`: number of components, end of the last one, end
/// of the one before it, and start of the piece being read.
pub open spec fn component_scan(q: Seq<char>) -> (nat, int, int, int)
    decreases q.len(),
{
    if q.len() == 0 {
        (0, 0, 0, 0)
    } else {
        let (c, le, pe, cs) = component_scan(q.drop_last());
        let i = q.len() - 1;
        if q[i] == '/' {
            if is_component(cs, q.subrange(cs, i)) {
                (c + 1, i, le, i + 1)
            } else {
                (c, le, pe, i + 1)
            }
        } else {
            (c, le, pe, cs)
        }
    }
}

/// `Path::parent` on Unix: the path up to the end of its second-to-last component
/// (`/` when only the root precedes the last one, empty when nothing does), or `None`
/// for the root or an empty path.
pub open spec fn path_parent(q: Seq<char>) -> Option<Seq<char>> {
    let (c0, le0, pe0, cs) = component_scan(q);
    let (c, pe) = if is_component(cs, q.subrange(cs, q.len() as int)) {
        (c0 + 1, le0)
    } else {
        (c0, pe0)
    };
    if c == 0 {
        None
    } else if c == 1 {
        if q.len() > 0 && q[0] == '/' {
            Some(q.take(1))
        } else {
            Some(Seq::empty())
        }
    } else {
        Some(q.take(pe))
    }
}

/// `s` without trailing `/` characters.
pub open spec fn trim_trailing_slashes(s: Seq<char>) -> Seq<char>
    decreases s.len(),
{
    if s.len() > 0 && s.last() == '/' {
        trim_trailing_slashes(s.drop_last())
    } else {
        s
    }
}

/// The remote directory above `path`, as the browser computes it: trailing slashes
/// dropped (except for `/` itself), then `Path::parent`, with `/` for no or an empty
/// parent.
pub open spec fn remote_parent(path: Seq<char>) -> Seq<char> {
    let p = if path.len() > 1 && path.last() == '/' {
        trim_trailing_slashes(path)
    } else {
        path
    };
    match path_parent(p) {
        Some(x) => if x.len() == 0 {
            seq!['/']
        } else {
            x
        },
        None => seq!['/'],
    }
}

/// Whether `q[start..end]` is a path component.
fn component_at(q: &[char], start: usize, end: usize) -> (b: bool)
    requires
        start <= end <= q@.len(),
    ensures
        b == is_component(start as int, q@.subrange(start as int, end as int)),
{
    if start == end {
        return false;
    }
    if end - start == 1 && q[start] == '.' {
        assert(q@.subrange(start as int, end as int) =~= seq!['.']);
        return start == 0;
    }
    proof {
        if q@.subrange(start as int, end as int) == seq!['.'] {
            assert(q@.subrange(start as int, end as int).len() == 1);
            assert(q@.subrange(start as int, end as int)[0] == '.');
        }
    }
    true
}

/// The directory above a remote path (see `remote_parent`).
pub fn remote_parent_path(path: &str) -> (r: String)
    ensures
        r@ == remote_parent(path@),
{
    let cs = text::str_chars(path);
    let mut n = cs.len();
    proof {
        reveal_strlit("/");
        assert("/"@ =~= seq!['/']);
    }
    assert(cs@.take(n as int) == cs@);
    if n > 1 && cs[n - 1] == '/' {
        while n > 0 && cs[n - 1] == '/'
            invariant
                n <= cs@.len(),
                trim_trailing_slashes(cs@) == trim_trailing_slashes(cs@.take(n as int)),
            decreases n,
        {
            assert(cs@.take(n as int).drop_last() == cs@.take(n - 1));
            n = n - 1;
        }
        assert(trim_trailing_slashes(cs@.take(n as int)) == cs@.take(n as int));
    } else {
        assert(cs@.take(n as int) == cs@);
    }
    let ghost q = cs@.take(n as int);
    let mut c: usize = 0;
    let mut le: usize = 0;
    let mut pe: usize = 0;
    let mut st: usize = 0;
    let mut i: usize = 0;
    assert(q.take(0) =~= Seq::<char>::empty());
    while i < n
        invariant
            n <= cs@.len(),
            q == cs@.take(n as int),
            i <= n,
            st <= i,
            pe <= le <= i,
            c <= st,
            component_scan(q.take(i as int)) == (c as nat, le as int, pe as int, st as int),
        decreases n - i,
    {
        assert(q.take(i + 1).drop_last() == q.take(i as int));
        assert(q.take(i + 1).subrange(st as int, i as int) == cs@.subrange(st as int, i as int));
        if cs[i] == '/' {
            if component_at(cs.as_slice(), st, i) {
                c = c + 1;
                pe = le;
                le = i;
            }
            st = i + 1;
        }
        i = i + 1;
    }
    assert(q.take(n as int) == q);
    assert(q.subrange(st as int, n as int) == cs@.subrange(st as int, n as int));
    if component_at(cs.as_slice(), st, n) {
        c = c + 1;
        pe = le;
    }
    if c == 0 {
        "/".to_owned()
    } else if c == 1 {
        if n > 0 && cs[0] == '/' {
            assert(q.take(1) =~= seq!['/']);
            "/".to_owned()
        } else {
            "/".to_owned()
        }
    } else {
        let parent = text::sub_chars(cs.as_slice(), 0, pe);
        assert(parent@ == q.take(pe as int));
        if pe == 0 {
            assert(parent@.len() == 0);
            "/".to_owned()
        } else {
            text::chars_to_string(parent.as_slice())
        }
    }
}

} // verus!

verus! {

/// Progress of a file transfer.
#[derive(Debug, Clone)]
pub struct TransferProgress {
    /// Name of the file being transferred.
    pub file_name: String,
    /// Bytes transferred so far.
    pub bytes_done: u64,
    /// Total bytes of the file.
    pub bytes_total: u64,
    /// `true` for an upload, `false` for a download.
    pub is_upload: bool,
    /// When the transfer started.
    pub start_time: std::time::Instant,
}

/// Completion percentage as computed in doubles: `done / total * 100`, truncated and
/// at most 255; 0 for an empty total or nothing done.
pub open spec fn percent_of(done: nat, total: nat) -> nat {
    if total == 0 || done == 0 {
        0
    } else {
        let v = crate::tui::binary64::to_u64(
            crate::tui::binary64::product(
                crate::tui::binary64::quotient(
                    crate::tui::binary64::of_int(done),
                    crate::tui::binary64::of_int(total),
                ),
                crate::tui::binary64::of_int(100),
            ),
        );
        if v > 255 {
            255
        } else {
            v
        }
    }
}

/// The percentage is at most 100 while no more bytes are done than there are, and
/// it is 100 when all are done.
pub proof fn lemma_percentage_bounds(done: nat, total: nat)
    requires
        done <= total,
    ensures
        percent_of(done, total) <= 100,
        total > 0 && done == total ==> percent_of(done, total) == 100,
{
    if total > 0 && done > 0 {
        crate::tui::binary64::lemma_percent_at_most_hundred(done, total);
    }
}

/// Estimated seconds left `elapsed` nanoseconds in, computed as in doubles: nothing
/// before any progress or while under `0.1` seconds (`Duration::as_secs_f64`) have
/// passed; else the bytes left divided by the rate (bytes done per second), truncated
/// to whole seconds.
pub open spec fn eta_secs_at(done: nat, total: nat, elapsed: nat) -> Option<u64> {
    if done == 0 || total == 0 {
        None
    } else {
        match crate::tui::binary64::secs_f64(elapsed) {
            None => None,
            Some(secs) => if crate::tui::binary64::below(secs, crate::tui::binary64::one_tenth()) {
                None
            } else if total <= done {
                Some(0)
            } else {
                let rate = crate::tui::binary64::quotient(crate::tui::binary64::of_int(done), secs);
                let left = crate::tui::binary64::quotient(
                    crate::tui::binary64::of_int((total - done) as nat),
                    rate,
                );
                Some(crate::tui::binary64::to_u64(left) as u64)
            },
        }
    }
}

impl TransferProgress {
    /// Completion percentage (0 to 100 while `bytes_done <= bytes_total`).
    pub fn percentage(&self) -> (p: u8)
        ensures
            p == percent_of(self.bytes_done as nat, self.bytes_total as nat),
    {
        if self.bytes_total == 0 || self.bytes_done == 0 {
            return 0;
        }
        proof {
            vstd::arithmetic::power2::lemma2_to64();
            lemma_pow2_mono(64, 120);
        }
        let ratio = binary64::quotient_exec(
            binary64::of_int_exec(self.bytes_done as u128),
            binary64::of_int_exec(self.bytes_total as u128),
        );
        let v = binary64::to_u64_exec(binary64::product_exec(ratio, binary64::hundred_exec()));
        if v > 255 {
            255
        } else {
            v as u8
        }
    }

    /// Whether all bytes have been transferred.
    pub fn is_complete(&self) -> (b: bool)
        ensures
            b == (self.bytes_done >= self.bytes_total),
    {
        self.bytes_done >= self.bytes_total
    }

    /// Estimated seconds left once `elapsed` nanoseconds have passed since the start,
    /// or `None` before any progress or during the first tenth of a second.
    pub fn eta_secs_after(&self, elapsed: u128) -> (r: Option<u64>)
        requires
            self.bytes_done <= self.bytes_total,
            elapsed < 0x1_0000_0000_0000_0000,
        ensures
            r == eta_secs_at(self.bytes_done as nat, self.bytes_total as nat, elapsed as nat),
    {
        if self.bytes_done == 0 || self.bytes_total == 0 {
            return None;
        }
        let secs = match binary64::secs_f64_exec(elapsed) {
            Some(f) => f,
            None => return None,
        };
        if binary64::below_exec(secs, binary64::one_tenth_exec()) {
            return None;
        }
        if self.bytes_total <= self.bytes_done {
            return Some(0);
        }
        proof {
            vstd::arithmetic::power2::lemma2_to64();
            lemma_pow2_mono(64, 120);
        }
        let rate = binary64::quotient_exec(binary64::of_int_exec(self.bytes_done as u128), secs);
        let left = binary64::quotient_exec(
            binary64::of_int_exec((self.bytes_total - self.bytes_done) as u128),
            rate,
        );
        Some(binary64::to_u64_exec(left))
    }

    /// Estimated seconds left, at the rate so far, from the time since the start (a
    /// reading past `2^64` nanoseconds, some 584 years, counts as `2^64 - 1`).
    pub fn eta_secs(&self) -> (r: Option<u64>)
        requires
            self.bytes_done <= self.bytes_total,
        ensures
            self.bytes_done == 0 || self.bytes_total == 0 ==> r is None,
            exists|e: nat|
                e < 0x1_0000_0000_0000_0000 && r == #[trigger] eta_secs_at(
                    self.bytes_done as nat,
                    self.bytes_total as nat,
                    e,
                ),
    {
        let e = crate::clock::elapsed_nanos(&self.start_time);
        if e >= 0x1_0000_0000_0000_0000 {
            return self.eta_secs_after(0xffff_ffff_ffff_ffff);
        }
        self.eta_secs_after(e)
    }
}

/// What the SFTP input line is used for.
#[derive(Debug, Clone, Copy, PartialEq, Eq, Structural)]
pub enum SftpInputMode {
    /// No input active.
    Inactive,
    /// Creating a directory.
    Mkdir,
    /// Renaming a file or directory.
    Rename,
    /// Changing permissions.
    Chmod,
    /// Saving the current directory as a bookmark.
    Bookmark,
}

/// Whether a transfer is running.
#[derive(Debug, Clone)]
pub enum TransferState {
    /// No transfer.
    Idle,
    /// A transfer is running.
    Transferring {
        /// Name of the file being transferred.
        file_name: String,
        /// Total bytes.
        bytes_total: u64,
        /// Upload or download.
        is_upload: bool,
        /// When it started.
        start_time: std::time::Instant,
    },
}

/// Pane of the SFTP browser.
#[derive(Debug, Clone, Copy, PartialEq, Eq, Structural)]
pub enum Side {
    /// The local file system.
    Local,
    /// The remote server.
    Remote,
}

} // verus!

verus! {

/// State of the dual-pane SFTP browser (local and remote).
#[derive(Debug)]
pub struct SftpState {
    /// Position in the local file system.
    pub local: LocalFs,
    /// Entries of the current local directory.
    pub local_files: Vec<FileInfo>,
    /// Entries of the current remote directory.
    pub remote_files: Vec<FileInfo>,
    /// Path of the current remote directory.
    pub remote_path: String,
    /// Cursor in the local pane.
    pub local_selected: usize,
    /// Cursor in the remote pane.
    pub remote_selected: usize,
    /// Indices marked in the local pane.
    pub local_selected_files: Vec<usize>,
    /// Indices marked in the remote pane.
    pub remote_selected_files: Vec<usize>,
    /// Focused pane.
    pub focus_side: Side,
    /// Status line text.
    pub status: String,
    /// Progress of the running transfer.
    pub transfer_progress: Option<TransferProgress>,
    /// Whether a transfer is running.
    pub transfer_state: TransferState,
    /// Whether a transfer is running (mirrors `transfer_state`).
    pub is_transferring: bool,
    /// Remote SFTP session id.
    pub session_id: Option<String>,
    /// Active input mode.
    pub input_mode: SftpInputMode,
    /// Text of the input line.
    pub input_buffer: String,
    /// Cursor position in the input line.
    pub input_cursor: usize,
    /// When the running transfer started.
    pub transfer_start: Option<std::time::Instant>,
}

/// `dir` followed by `name`, with a `/` between them unless `dir` ends with one.
pub open spec fn child_path(dir: Seq<char>, name: Seq<char>) -> Seq<char> {
    if dir.len() > 0 && dir.last() == '/' {
        dir + name
    } else {
        dir + seq!['/'] + name
    }
}

/// The `/home/USER` directory of a user.
pub open spec fn home_of(user: Seq<char>) -> Seq<char> {
    "/home/"@ + user
}

/// The marks of a pane after toggling index `idx`: its first occurrence is removed, or
/// `idx` is appended when absent.
pub open spec fn toggled(marks: Seq<usize>, idx: usize) -> Seq<usize> {
    if marks.contains(idx) {
        let p = choose|p: int| 0 <= p < marks.len() && marks[p] == idx && forall|q: int| 0 <= q < p ==> marks[q] != idx;
        marks.remove(p)
    } else {
        marks.push(idx)
    }
}

/// The entries that marks point to, in mark order, skipping marks past the end.
pub open spec fn marked_entries(files: Seq<FileInfo>, marks: Seq<usize>) -> Seq<FileInfo>
    decreases marks.len(),
{
    if marks.len() == 0 {
        Seq::empty()
    } else {
        let rest = marked_entries(files, marks.drop_last());
        if (marks.last() as int) < files.len() {
            rest.push(files[marks.last() as int])
        } else {
            rest
        }
    }
}

/// The list `0, 1, ..., n - 1`.
pub open spec fn all_indices(n: nat) -> Seq<usize> {
    Seq::new(n, |i: int| i as usize)
}

/// Cursor after moving down in a list of `len` entries (stays on the last one).
pub open spec fn cursor_down(sel: usize, len: nat) -> usize {
    if len > 0 && sel < len - 1 {
        (sel + 1) as usize
    } else {
        sel
    }
}

/// Cursor after moving up (stays on the first entry).
pub open spec fn cursor_up(sel: usize) -> usize {
    if sel > 0 {
        (sel - 1) as usize
    } else {
        sel
    }
}

/// `st` with the cursor of the focused pane moved down, stopping at the last entry.
pub open spec fn moved_down_in(st: SftpState) -> SftpState {
    if st.focus_side == Side::Local {
        SftpState { local_selected: cursor_down(st.local_selected, st.local_files@.len()), ..st }
    } else {
        SftpState { remote_selected: cursor_down(st.remote_selected, st.remote_files@.len()), ..st }
    }
}

/// `st` with the cursor of the focused pane moved up, stopping at the first entry.
pub open spec fn moved_up_in(st: SftpState) -> SftpState {
    if st.focus_side == Side::Local {
        SftpState { local_selected: cursor_up(st.local_selected), ..st }
    } else {
        SftpState { remote_selected: cursor_up(st.remote_selected), ..st }
    }
}

/// Entering the directory under the cursor of the focused pane took `st` to `nst` and
/// answered `r`.
///
/// Remote: the remote path becomes that of the child directory, answer `Ok(None)`.
/// Local: nothing changes and `Ok(Some(name))` names the local directory to enter.
/// Errors: no entry under the cursor, or the entry is not a directory.
pub open spec fn directory_entered(st: SftpState, nst: SftpState, r: Result<Option<String>, String>) -> bool {
    let files = if st.focus_side == Side::Local {
        st.local_files@
    } else {
        st.remote_files@
    };
    let sel = if st.focus_side == Side::Local {
        st.local_selected
    } else {
        st.remote_selected
    };
    if sel >= files.len() {
        r is Err && r->Err_0@ == "No file selected"@ && nst == st
    } else if !files[sel as int].is_dir {
        r is Err && r->Err_0@ == "Not a directory"@ && nst == st
    } else if st.focus_side == Side::Local {
        r == Ok::<Option<String>, String>(Some(files[sel as int].name)) && nst == st
    } else {
        r == Ok::<Option<String>, String>(None) && nst.remote_path@ == child_path(
            st.remote_path@,
            files[sel as int].name@,
        ) && nst == (SftpState { remote_path: nst.remote_path, ..st })
    }
}

/// Going to the parent directory of the focused pane took `st` to `nst`, answering `r`:
/// remote, the path becomes its parent and the answer is `Ok(None)`; local, nothing
/// changes and `Ok(Some(".."))` names the directory to enter.
pub open spec fn parent_entered(st: SftpState, nst: SftpState, r: Result<Option<String>, String>) -> bool {
    &&& st.focus_side == Side::Local ==> (r matches Ok(Some(d)) && d@ == ".."@ && nst == st)
    &&& st.focus_side == Side::Remote ==> r == Ok::<Option<String>, String>(None)
        && nst.remote_path@ == remote_parent(st.remote_path@) && nst == (SftpState {
        remote_path: nst.remote_path,
        ..st
    })
}

/// The entry under the cursor of the focused pane was marked or unmarked.
pub open spec fn selection_toggled(st: SftpState, nst: SftpState) -> bool {
    &&& st.focus_side == Side::Local ==> nst == (SftpState {
        local_selected_files: nst.local_selected_files,
        ..st
    }) && nst.local_selected_files@ == toggled(st.local_selected_files@, st.local_selected)
    &&& st.focus_side == Side::Remote ==> nst == (SftpState {
        remote_selected_files: nst.remote_selected_files,
        ..st
    }) && nst.remote_selected_files@ == toggled(st.remote_selected_files@, st.remote_selected)
}

/// Every entry of the focused pane was marked.
pub open spec fn all_selected(st: SftpState, nst: SftpState) -> bool {
    &&& st.focus_side == Side::Local ==> nst == (SftpState {
        local_selected_files: nst.local_selected_files,
        ..st
    }) && nst.local_selected_files@ == all_indices(st.local_files@.len())
    &&& st.focus_side == Side::Remote ==> nst == (SftpState {
        remote_selected_files: nst.remote_selected_files,
        ..st
    }) && nst.remote_selected_files@ == all_indices(st.remote_files@.len())
}

/// The marks of the focused pane were removed.
pub open spec fn selection_cleared(st: SftpState, nst: SftpState) -> bool {
    &&& st.focus_side == Side::Local ==> nst == (SftpState {
        local_selected_files: nst.local_selected_files,
        ..st
    }) && nst.local_selected_files@.len() == 0
    &&& st.focus_side == Side::Remote ==> nst == (SftpState {
        remote_selected_files: nst.remote_selected_files,
        ..st
    }) && nst.remote_selected_files@.len() == 0
}

impl SftpState {
    /// A browser for `server`: local pane at the home directory (empty until listed),
    /// remote pane at `/home/USER`, local pane focused, status `Conectando...`.
    pub fn new(server: Server) -> (s: SftpState)
        ensures
            s.remote_path@ == home_of(server.user@),
            s.focus_side == Side::Local,
            s.status@ == "Conectando..."@,
            s.local_files@.len() == 0,
            s.remote_files@.len() == 0,
            s.local_selected == 0,
            s.remote_selected == 0,
            s.local_selected_files@.len() == 0,
            s.remote_selected_files@.len() == 0,
            s.transfer_progress is None,
            s.transfer_state is Idle,
            !s.is_transferring,
            s.session_id is None,
            s.input_mode == SftpInputMode::Inactive,
            s.input_buffer@.len() == 0,
            s.input_cursor == 0,
            s.transfer_start is None,
    {
        let mut home = text::str_chars("/home/");
        let user = text::str_chars(server.user.as_str());
        text::append_chars(&mut home, user.as_slice());
        SftpState {
            local: LocalFs::new(),
            local_files: Vec::new(),
            remote_files: Vec::new(),
            remote_path: text::chars_to_string(home.as_slice()),
            local_selected: 0,
            remote_selected: 0,
            local_selected_files: Vec::new(),
            remote_selected_files: Vec::new(),
            focus_side: Side::Local,
            status: "Conectando...".to_owned(),
            transfer_progress: None,
            transfer_state: TransferState::Idle,
            is_transferring: false,
            session_id: None,
            input_mode: SftpInputMode::Inactive,
            input_buffer: String::new(),
            input_cursor: 0,
            transfer_start: None,
        }
    }

    /// Shows a new remote listing, cursor on its first entry.
    pub fn refresh_remote(&mut self, files: Vec<FileInfo>)
        ensures
            *final(self) == (SftpState { remote_files: files, remote_selected: 0, ..*old(self) }),
    {
        self.remote_files = files;
        self.remote_selected = 0;
    }

    /// Shows a new local listing, cursor on its first entry.
    pub fn refresh_local(&mut self, files: Vec<FileInfo>)
        ensures
            *final(self) == (SftpState { local_files: files, local_selected: 0, ..*old(self) }),
    {
        self.local_files = files;
        self.local_selected = 0;
    }

    /// Moves the cursor of the focused pane down, stopping at the last entry.
    pub fn next_item(&mut self)
        ensures
            *final(self) == moved_down_in(*old(self)),
    {
        match self.focus_side {
            Side::Local => {
                let len = self.local_files.len();
                if len > 0 && self.local_selected < len - 1 {
                    self.local_selected = self.local_selected + 1;
                }
            },
            Side::Remote => {
                let len = self.remote_files.len();
                if len > 0 && self.remote_selected < len - 1 {
                    self.remote_selected = self.remote_selected + 1;
                }
            },
        }
    }

    /// Moves the cursor of the focused pane up, stopping at the first entry.
    pub fn previous_item(&mut self)
        ensures
            *final(self) == moved_up_in(*old(self)),
    {
        match self.focus_side {
            Side::Local => {
                if self.local_selected > 0 {
                    self.local_selected = self.local_selected - 1;
                }
            },
            Side::Remote => {
                if self.remote_selected > 0 {
                    self.remote_selected = self.remote_selected - 1;
                }
            },
        }
    }

    /// Enters the directory under the cursor of the focused pane.
    ///
    /// Remote: the remote path becomes that of the child directory, and `Ok(None)` is
    /// returned (the listing is the caller's to fetch). Local: nothing changes here and
    /// `Ok(Some(name))` tells the caller which local directory to enter and list.
    /// Errors: no entry under the cursor, or the entry is not a directory.
    pub fn enter_directory(&mut self) -> (r: Result<Option<String>, String>)
        ensures
            directory_entered(*old(self), *final(self), r),
    {
        match self.focus_side {
            Side::Local => {
                if self.local_selected >= self.local_files.len() {
                    return Err("No file selected".to_owned());
                }
                let file = &self.local_files[self.local_selected];
                if file.is_dir {
                    Ok(Some(file.name.clone()))
                } else {
                    Err("Not a directory".to_owned())
                }
            },
            Side::Remote => {
                if self.remote_selected >= self.remote_files.len() {
                    return Err("No file selected".to_owned());
                }
                let file = &self.remote_files[self.remote_selected];
                if file.is_dir {
                    let mut p = text::str_chars(self.remote_path.as_str());
                    let n = p.len();
                    if !(n > 0 && p[n - 1] == '/') {
                        p.push('/');
                    }
                    let name = text::str_chars(file.name.as_str());
                    text::append_chars(&mut p, name.as_slice());
                    let ghost old_path = self.remote_path@;
                    let ghost fname = file.name@;
                    self.remote_path = text::chars_to_string(p.as_slice());
                    assert(self.remote_path@ == child_path(old_path, fname));
                    Ok(None)
                } else {
                    Err("Not a directory".to_owned())
                }
            },
        }
    }

    /// Goes to the parent directory of the focused pane.
    ///
    /// Remote: the remote path becomes its parent (see `remote_parent`). Local: nothing
    /// changes here and `Ok(Some(".."))` tells the caller to enter `..` and list it.
    pub fn go_parent(&mut self) -> (r: Result<Option<String>, String>)
        ensures
            parent_entered(*old(self), *final(self), r),
    {
        match self.focus_side {
            Side::Local => Ok(Some("..".to_owned())),
            Side::Remote => {
                self.remote_path = remote_parent_path(self.remote_path.as_str());
                Ok(None)
            },
        }
    }

    /// Switches the focus to the other pane.
    pub fn toggle_focus(&mut self)
        ensures
            *final(self) == (SftpState {
                focus_side: if old(self).focus_side == Side::Local {
                    Side::Remote
                } else {
                    Side::Local
                },
                ..*old(self)
            }),
    {
        self.focus_side = match self.focus_side {
            Side::Local => Side::Remote,
            Side::Remote => Side::Local,
        };
    }

    /// Marks or unmarks the entry under the cursor of the focused pane.
    pub fn toggle_select_current(&mut self)
        ensures
            selection_toggled(*old(self), *final(self)),
    {
        match self.focus_side {
            Side::Local => {
                toggle_mark(&mut self.local_selected_files, self.local_selected);
            },
            Side::Remote => {
                toggle_mark(&mut self.remote_selected_files, self.remote_selected);
            },
        }
    }

    /// Marks every entry of the focused pane.
    pub fn select_all_current(&mut self)
        ensures
            all_selected(*old(self), *final(self)),
    {
        match self.focus_side {
            Side::Local => {
                self.local_selected_files = index_list(self.local_files.len());
            },
            Side::Remote => {
                self.remote_selected_files = index_list(self.remote_files.len());
            },
        }
    }

    /// Unmarks every entry of the focused pane.
    pub fn clear_selection(&mut self)
        ensures
            selection_cleared(*old(self), *final(self)),
    {
        match self.focus_side {
            Side::Local => self.local_selected_files.clear(),
            Side::Remote => self.remote_selected_files.clear(),
        }
    }

    /// The marked entries of the focused pane, in marking order.
    pub fn get_selected_files(&self) -> (r: Vec<&FileInfo>)
        ensures
            r@.map_values(|f: &FileInfo| *f) == (if self.focus_side == Side::Local {
                marked_entries(self.local_files@, self.local_selected_files@)
            } else {
                marked_entries(self.remote_files@, self.remote_selected_files@)
            }),
    {
        match self.focus_side {
            Side::Local => marked_refs(&self.local_files, &self.local_selected_files),
            Side::Remote => marked_refs(&self.remote_files, &self.remote_selected_files),
        }
    }

    /// Whether a transfer is running.
    pub fn is_transferring_now(&self) -> (b: bool)
        ensures
            b == (self.transfer_state is Transferring),
    {
        match self.transfer_state {
            TransferState::Transferring { .. } => true,
            TransferState::Idle => false,
        }
    }

    /// Starts a transfer of `total_bytes` bytes of `file_name`, now.
    pub fn start_transfer(&mut self, file_name: String, total_bytes: u64, is_upload: bool)
        ensures
            final(self).is_transferring,
            final(self).transfer_state matches TransferState::Transferring {
                file_name: n,
                bytes_total,
                is_upload: up,
                start_time,
            } && n == file_name && bytes_total == total_bytes && up == is_upload
                && final(self).transfer_start == Some(start_time)
                && final(self).transfer_progress == Some(
                TransferProgress {
                    file_name: file_name,
                    bytes_done: 0,
                    bytes_total: total_bytes,
                    is_upload: is_upload,
                    start_time: start_time,
                },
            ),
            *final(self) == (SftpState {
                transfer_state: final(self).transfer_state,
                transfer_start: final(self).transfer_start,
                transfer_progress: final(self).transfer_progress,
                is_transferring: true,
                ..*old(self)
            }),
    {
        let start_time = crate::clock::instant_now();
        self.transfer_state = TransferState::Transferring {
            file_name: file_name.clone(),
            bytes_total: total_bytes,
            is_upload,
            start_time,
        };
        self.transfer_start = Some(start_time);
        self.transfer_progress = Some(
            TransferProgress {
                file_name,
                bytes_done: 0,
                bytes_total: total_bytes,
                is_upload,
                start_time,
            },
        );
        self.is_transferring = true;
    }

    /// Records `bytes_done` bytes transferred; a complete transfer stops running.
    pub fn update_transfer_progress(&mut self, bytes_done: u64)
        ensures
            match old(self).transfer_progress {
                Some(p) => {
                    &&& final(self).transfer_progress == Some(
                        TransferProgress { bytes_done: bytes_done, ..p },
                    )
                    &&& if bytes_done >= p.bytes_total {
                        final(self).transfer_state is Idle && !final(self).is_transferring
                            && *final(self) == (SftpState {
                            transfer_progress: final(self).transfer_progress,
                            transfer_state: final(self).transfer_state,
                            is_transferring: false,
                            ..*old(self)
                        })
                    } else {
                        *final(self) == (SftpState {
                            transfer_progress: final(self).transfer_progress,
                            ..*old(self)
                        })
                    }
                },
                None => *final(self) == *old(self),
            },
    {
        let done = match &mut self.transfer_progress {
            Some(progress) => {
                progress.bytes_done = bytes_done;
                progress.is_complete()
            },
            None => false,
        };
        if done {
            self.transfer_state = TransferState::Idle;
            self.is_transferring = false;
        }
    }

    /// Ends the transfer: no progress, no marks in either pane.
    pub fn finish_transfer(&mut self)
        ensures
            final(self).transfer_state is Idle,
            !final(self).is_transferring,
            final(self).transfer_progress is None,
            final(self).local_selected_files@.len() == 0,
            final(self).remote_selected_files@.len() == 0,
            *final(self) == (SftpState {
                transfer_state: final(self).transfer_state,
                transfer_progress: None,
                is_transferring: false,
                local_selected_files: final(self).local_selected_files,
                remote_selected_files: final(self).remote_selected_files,
                ..*old(self)
            }),
    {
        self.transfer_state = TransferState::Idle;
        self.transfer_progress = None;
        self.is_transferring = false;
        self.local_selected_files.clear();
        self.remote_selected_files.clear();
    }
}

/// Toggles index `idx` in a list of marks.
#[verifier::rlimit(40)]
fn toggle_mark(marks: &mut Vec<usize>, idx: usize)
    ensures
        final(marks)@ == toggled(old(marks)@, idx),
{
    let mut p: usize = 0;
    while p < marks.len()
        invariant
            p <= marks@.len(),
            marks@ == old(marks)@,
            forall|q: int| 0 <= q < p ==> marks@[q] != idx,
        decreases marks@.len() - p,
    {
        if marks[p] == idx {
            let ghost m = marks@;
            assert(m.contains(idx));
            let ghost chosen = choose|c: int| 0 <= c < m.len() && m[c] == idx && forall|q: int| 0 <= q < c ==> m[q] != idx;
            assert(chosen == p as int) by {
                if chosen < p {
                } else if chosen > p {
                }
            }
            marks.remove(p);
            return;
        }
        p = p + 1;
    }
    assert(!marks@.contains(idx));
    marks.push(idx);
}

/// The list `0, 1, ..., n - 1`.
fn index_list(n: usize) -> (r: Vec<usize>)
    ensures
        r@ == all_indices(n as nat),
{
    let mut r: Vec<usize> = Vec::new();
    let mut i: usize = 0;
    while i < n
        invariant
            i <= n,
            r@ == all_indices(i as nat),
        decreases n - i,
    {
        r.push(i);
        assert(r@ =~= all_indices((i + 1) as nat));
        i = i + 1;
    }
    r
}

/// References to the entries that marks point to.
fn marked_refs<'a>(files: &'a Vec<FileInfo>, marks: &Vec<usize>) -> (r: Vec<&'a FileInfo>)
    ensures
        r@.map_values(|f: &FileInfo| *f) == marked_entries(files@, marks@),
{
    let mut r: Vec<&FileInfo> = Vec::new();
    let mut i: usize = 0;
    assert(r@.map_values(|f: &FileInfo| *f) =~= marked_entries(files@, marks@.take(0)));
    while i < marks.len()
        invariant
            i <= marks@.len(),
            r@.map_values(|f: &FileInfo| *f) == marked_entries(files@, marks@.take(i as int)),
        decreases marks@.len() - i,
    {
        let k = marks[i];
        assert(marks@.take(i + 1).drop_last() == marks@.take(i as int));
        assert(marks@.take(i + 1).last() == k);
        if k < files.len() {
            let ghost before = r@;
            r.push(&files[k]);
            assert(r@.map_values(|f: &FileInfo| *f) =~= before.map_values(|f: &FileInfo| *f).push(
                files@[k as int],
            ));
        }
        i = i + 1;
    }
    assert(marks@.take(marks@.len() as int) == marks@);
    r
}


/// Switching the focus twice gives back the same browser.
pub proof fn lemma_toggle_focus_twice(st: SftpState)
    ensures
        ({
            let once = SftpState {
                focus_side: if st.focus_side == Side::Local { Side::Remote } else { Side::Local },
                ..st
            };
            SftpState {
                focus_side: if once.focus_side == Side::Local { Side::Remote } else { Side::Local },
                ..once
            }
        }) == st,
{
}

/// Marking an unmarked entry and unmarking it again gives back the same marks.
pub proof fn lemma_toggle_mark_twice(marks: Seq<usize>, idx: usize)
    requires
        !marks.contains(idx),
    ensures
        toggled(toggled(marks, idx), idx) == marks,
{
    let once = marks.push(idx);
    assert(once[marks.len() as int] == idx);
    assert(once.contains(idx));
    let p = choose|p: int| 0 <= p < once.len() && once[p] == idx && forall|q: int| 0 <= q < p ==> once[q] != idx;
    assert(p == marks.len()) by {
        if p < marks.len() {
            assert(marks[p] == idx);
        }
    }
    assert(once.remove(p) =~= marks);
}

} // verus!
