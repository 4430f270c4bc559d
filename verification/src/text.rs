//! Character-sequence helpers shared by the parsers and formatters.

use vstd::prelude::*;

verus! {

/// Appends one character to a string (`String::push`).
#[verifier::external_body]
pub(crate) fn string_push(s: &mut String, c: char)
    ensures
        final(s)@ == old(s)@.push(c),
{
    s.push(c);
}

/// The characters of a string slice, in order.
pub fn str_chars(s: &str) -> (v: Vec<char>)
    ensures
        v@ == s@,
{
    let mut v: Vec<char> = Vec::new();
    for c in it: s.chars()
        invariant
            v@ == it.seq().take(it.index() as int),
    {
        v.push(c);
    }
    v
}

/// A string holding the given characters.
pub fn chars_to_string(v: &[char]) -> (s: String)
    ensures
        s@ == v@,
{
    let mut s = String::new();
    let mut i: usize = 0;
    while i < v.len()
        invariant
            i <= v@.len(),
            s@ == v@.take(i as int),
        decreases v@.len() - i,
    {
        string_push(&mut s, v[i]);
        assert(v@.take(i + 1) == v@.take(i as int).push(v@[i as int]));
        i = i + 1;
    }
    assert(v@.take(v@.len() as int) == v@);
    s
}

} // verus!

verus! {

/// `char::is_whitespace`: the Unicode `White_Space` property.
pub open spec fn is_ws(c: char) -> bool {
    ||| ('\u{9}' <= c && c <= '\u{d}')
    ||| c == ' '
    ||| c == '\u{85}'
    ||| c == '\u{a0}'
    ||| c == '\u{1680}'
    ||| ('\u{2000}' <= c && c <= '\u{200a}')
    ||| c == '\u{2028}'
    ||| c == '\u{2029}'
    ||| c == '\u{202f}'
    ||| c == '\u{205f}'
    ||| c == '\u{3000}'
}

/// Whether a character is Unicode white space.
pub fn is_whitespace(c: char) -> (b: bool)
    ensures
        b == is_ws(c),
{
    ('\u{9}' <= c && c <= '\u{d}') || c == ' ' || c == '\u{85}' || c == '\u{a0}' || c
        == '\u{1680}' || ('\u{2000}' <= c && c <= '\u{200a}') || c == '\u{2028}' || c
        == '\u{2029}' || c == '\u{202f}' || c == '\u{205f}' || c == '\u{3000}'
}

/// `str::trim_start`: drops leading white space.
pub open spec fn trim_start(s: Seq<char>) -> Seq<char>
    decreases s.len(),
{
    if s.len() > 0 && is_ws(s[0]) {
        trim_start(s.drop_first())
    } else {
        s
    }
}

/// `str::trim_end`: drops trailing white space.
pub open spec fn trim_end(s: Seq<char>) -> Seq<char>
    decreases s.len(),
{
    if s.len() > 0 && is_ws(s.last()) {
        trim_end(s.drop_last())
    } else {
        s
    }
}

/// `str::trim`: drops white space at both ends.
pub open spec fn trim(s: Seq<char>) -> Seq<char> {
    trim_end(trim_start(s))
}

/// Bounds of the trimmed part of `s[lo..hi]`.
pub fn trim_bounds(s: &[char], lo: usize, hi: usize) -> (r: (usize, usize))
    requires
        lo <= hi <= s@.len(),
    ensures
        lo <= r.0 <= r.1 <= hi,
        s@.subrange(r.0 as int, r.1 as int) == trim(s@.subrange(lo as int, hi as int)),
{
    let mut a = lo;
    while a < hi && is_whitespace(s[a])
        invariant
            lo <= a <= hi <= s@.len(),
            trim_start(s@.subrange(lo as int, hi as int)) == trim_start(
                s@.subrange(a as int, hi as int),
            ),
        decreases hi - a,
    {
        assert(s@.subrange(a as int, hi as int).drop_first() == s@.subrange(a + 1, hi as int));
        a = a + 1;
    }
    let mut b = hi;
    while b > a && is_whitespace(s[b - 1])
        invariant
            a <= b <= hi <= s@.len(),
            trim_end(s@.subrange(a as int, hi as int)) == trim_end(
                s@.subrange(a as int, b as int),
            ),
        decreases b - a,
    {
        assert(s@.subrange(a as int, b as int).drop_last() == s@.subrange(a as int, b - 1));
        b = b - 1;
    }
    (a, b)
}

/// Splits `s` at every occurrence of `sep` (like `str::split`); always at least one piece.
pub open spec fn split_on(s: Seq<char>, sep: char) -> Seq<Seq<char>>
    decreases s.len(),
{
    if s.len() == 0 {
        seq![Seq::<char>::empty()]
    } else {
        let rest = split_on(s.drop_last(), sep);
        if s.last() == sep {
            rest.push(Seq::<char>::empty())
        } else {
            rest.update(rest.len() - 1, rest.last().push(s.last()))
        }
    }
}

/// `split_on` always yields at least one piece.
pub proof fn lemma_split_on_nonempty(s: Seq<char>, sep: char)
    ensures
        split_on(s, sep).len() >= 1,
    decreases s.len(),
{
    if s.len() > 0 {
        lemma_split_on_nonempty(s.drop_last(), sep);
    }
}

/// Extending the input keeps every finished piece of `split_on` where it was.
pub proof fn lemma_split_on_stable(s: Seq<char>, sep: char, j: int, m: int)
    requires
        0 <= j <= m <= s.len(),
    ensures
        split_on(s.take(j), sep).len() <= split_on(s.take(m), sep).len(),
        forall|k: int|
            0 <= k < split_on(s.take(j), sep).len() - 1 ==> #[trigger] split_on(s.take(m), sep)[k]
                == split_on(s.take(j), sep)[k],
        j < m && s[j] == sep ==> split_on(s.take(j), sep).len() < split_on(s.take(m), sep).len()
            && split_on(s.take(m), sep)[split_on(s.take(j), sep).len() - 1] == split_on(
            s.take(j),
            sep,
        ).last(),
    decreases m - j,
{
    lemma_split_on_nonempty(s.take(j), sep);
    if j < m {
        lemma_split_on_stable(s, sep, j + 1, m);
        assert(s.take(j + 1).drop_last() == s.take(j));
        lemma_split_on_nonempty(s.take(j + 1), sep);
    }
}

/// ASCII lower-casing of one character (other characters are unchanged).
pub open spec fn ascii_lower(c: char) -> char {
    if 'A' <= c && c <= 'Z' {
        ((c as u32) + 32) as char
    } else {
        c
    }
}

/// `s` equals the lower-case ASCII word `w` when lower-cased.
///
/// For the lower-case ASCII words compared here, Unicode lower-casing agrees with
/// ASCII lower-casing: no other character lower-cases to one of their letters.
pub open spec fn eq_ignore_case(s: Seq<char>, w: Seq<char>) -> bool {
    s.len() == w.len() && forall|i: int| 0 <= i < s.len() ==> ascii_lower(#[trigger] s[i]) == w[i]
}

/// Whether `s[lo..hi]` equals the lower-case word `w` up to ASCII case.
pub fn range_eq_ignore_case(s: &[char], lo: usize, hi: usize, w: &[char]) -> (b: bool)
    requires
        lo <= hi <= s@.len(),
    ensures
        b == eq_ignore_case(s@.subrange(lo as int, hi as int), w@),
{
    if hi - lo != w.len() {
        return false;
    }
    let mut i: usize = 0;
    while i < w.len()
        invariant
            hi - lo == w@.len(),
            lo <= hi <= s@.len(),
            i <= w@.len(),
            forall|k: int| 0 <= k < i ==> ascii_lower(#[trigger] s@[lo + k]) == w@[k],
        decreases w@.len() - i,
    {
        let c = s[lo + i];
        let l = if 'A' <= c && c <= 'Z' {
            ascii_to_lower(c)
        } else {
            c
        };
        if l != w[i] {
            assert(ascii_lower(s@.subrange(lo as int, hi as int)[i as int]) != w@[i as int]);
            return false;
        }
        i = i + 1;
    }
    assert forall|k: int| 0 <= k < hi - lo implies ascii_lower(
        #[trigger] s@.subrange(lo as int, hi as int)[k],
    ) == w@[k] by {
        assert(s@.subrange(lo as int, hi as int)[k] == s@[lo + k]);
    }
    true
}

/// The lower-case letter of an upper-case ASCII letter.
pub fn ascii_to_lower(c: char) -> (r: char)
    requires
        'A' <= c <= 'Z',
    ensures
        r == ((c as u32) + 32) as char,
{
    ((c as u8) + 32) as char
}

} // verus!

verus! {

/// Value of a decimal digit character.
pub open spec fn digit_value(c: char) -> nat {
    (c as nat - '0' as nat) as nat
}

/// All characters are ASCII decimal digits.
pub open spec fn all_digits(d: Seq<char>) -> bool {
    forall|i: int| 0 <= i < d.len() ==> '0' <= #[trigger] d[i] <= '9'
}

/// Value of a sequence of decimal digits.
pub open spec fn digits_value(d: Seq<char>) -> nat
    decreases d.len(),
{
    if d.len() == 0 {
        0
    } else {
        digits_value(d.drop_last()) * 10 + digit_value(d.last())
    }
}

/// `u16::from_str`: an optional `+`, then one or more decimal digits, at most 65535.
pub open spec fn parse_u16(v: Seq<char>) -> Option<u16> {
    let d = if v.len() > 0 && v[0] == '+' {
        v.drop_first()
    } else {
        v
    };
    if d.len() > 0 && all_digits(d) && digits_value(d) <= 65535 {
        Some(digits_value(d) as u16)
    } else {
        None
    }
}

/// The value of a digit prefix never exceeds the value of the whole.
pub proof fn lemma_digits_value_prefix(d: Seq<char>, i: int)
    requires
        0 <= i <= d.len(),
        all_digits(d),
    ensures
        digits_value(d.take(i)) <= digits_value(d),
    decreases d.len() - i,
{
    if i < d.len() {
        lemma_digits_value_prefix(d, i + 1);
        assert(d.take(i + 1).drop_last() == d.take(i));
    } else {
        assert(d.take(i) == d);
    }
}

/// Parses `s[lo..hi]` as a `u16` the way `str::parse::<u16>` does.
pub fn parse_u16_range(s: &[char], lo: usize, hi: usize) -> (r: Option<u16>)
    requires
        lo <= hi <= s@.len(),
    ensures
        r == parse_u16(s@.subrange(lo as int, hi as int)),
{
    let ghost v = s@.subrange(lo as int, hi as int);
    let start = if lo < hi && s[lo] == '+' {
        lo + 1
    } else {
        lo
    };
    let ghost d = s@.subrange(start as int, hi as int);
    assert(d == (if v.len() > 0 && v[0] == '+' {
        v.drop_first()
    } else {
        v
    }));
    if start == hi {
        return None;
    }
    let mut acc: u32 = 0;
    let mut i = start;
    while i < hi
        invariant
            start <= i <= hi <= s@.len(),
            start < hi,
            v == s@.subrange(lo as int, hi as int),
            d == s@.subrange(start as int, hi as int),
            d == (if v.len() > 0 && v[0] == '+' {
                v.drop_first()
            } else {
                v
            }),
            all_digits(d.take(i - start)),
            acc == digits_value(d.take(i - start)),
            acc <= 65535,
        decreases hi - i,
    {
        let c = s[i];
        if !('0' <= c && c <= '9') {
            assert(d[i - start] == c);
            return None;
        }
        let dv = (c as u32) - ('0' as u32);
        assert(d.take(i - start + 1).drop_last() == d.take(i - start));
        assert(d.take(i - start + 1).last() == c);
        let next = acc * 10 + dv;
        assert(digits_value(d.take(i - start + 1)) == next);
        if next > 65535 {
            proof {
                assert(all_digits(d.take(i - start + 1)));
                if all_digits(d) {
                    lemma_digits_value_prefix(d, i - start + 1);
                }
            }
            return None;
        }
        acc = next;
        i = i + 1;
    }
    assert(d.take(i - start) == d);
    Some(acc as u16)
}

/// The decimal digit character for `n < 10`.
pub open spec fn digit_char(n: nat) -> char {
    ((n + '0' as nat) as u32) as char
}

/// Decimal representation of a natural number, without leading zeros.
pub open spec fn decimal(n: nat) -> Seq<char>
    decreases n,
{
    if n < 10 {
        seq![digit_char(n)]
    } else {
        decimal(n / 10).push(digit_char(n % 10))
    }
}

/// Appends the decimal representation of `n` to `out`.
pub fn push_decimal(out: &mut Vec<char>, n: u64)
    ensures
        final(out)@ == old(out)@ + decimal(n as nat),
    decreases n,
{
    if n >= 10 {
        push_decimal(out, n / 10);
    }
    let d = (n % 10) as u8;
    out.push((d + 48) as char);
    proof {
        assert((((n % 10) as nat + '0' as nat) as u32) as char == ((d + 48) as u8) as char);
    }
}

/// The decimal representation of `n` (what `n.to_string()` gives).
pub fn u64_to_decimal(n: u64) -> (s: String)
    ensures
        s@ == decimal(n as nat),
{
    let mut v: Vec<char> = Vec::new();
    push_decimal(&mut v, n);
    assert(v@ == decimal(n as nat));
    chars_to_string(v.as_slice())
}

} // verus!

verus! {

/// A vector holding `s[lo..hi]`.
pub fn sub_chars(s: &[char], lo: usize, hi: usize) -> (r: Vec<char>)
    requires
        lo <= hi <= s@.len(),
    ensures
        r@ == s@.subrange(lo as int, hi as int),
{
    let mut r: Vec<char> = Vec::new();
    let mut i = lo;
    while i < hi
        invariant
            lo <= i <= hi <= s@.len(),
            r@ == s@.subrange(lo as int, i as int),
        decreases hi - i,
    {
        r.push(s[i]);
        assert(s@.subrange(lo as int, i + 1) == s@.subrange(lo as int, i as int).push(s@[i as int]));
        i = i + 1;
    }
    r
}

/// Whether `s[lo..hi]` contains the character `c`.
pub fn range_contains(s: &[char], lo: usize, hi: usize, c: char) -> (b: bool)
    requires
        lo <= hi <= s@.len(),
    ensures
        b == s@.subrange(lo as int, hi as int).contains(c),
{
    let mut i = lo;
    while i < hi
        invariant
            lo <= i <= hi <= s@.len(),
            forall|k: int| lo <= k < i ==> s@[k] != c,
        decreases hi - i,
    {
        if s[i] == c {
            assert(s@.subrange(lo as int, hi as int)[i - lo] == c);
            return true;
        }
        i = i + 1;
    }
    assert forall|k: int| 0 <= k < hi - lo implies s@.subrange(lo as int, hi as int)[k] != c by {
        assert(s@.subrange(lo as int, hi as int)[k] == s@[lo + k]);
    }
    false
}

} // verus!

verus! {

/// A line without the `\r` of a `\r\n` ending.
pub open spec fn strip_cr(l: Seq<char>) -> Seq<char> {
    if l.len() > 0 && l.last() == '\r' {
        l.drop_last()
    } else {
        l
    }
}

/// `str::lines`: the lines of `s`, without their `\n` or `\r\n` endings; a final empty
/// line is not counted.
pub open spec fn rust_lines(s: Seq<char>) -> Seq<Seq<char>> {
    let ps = split_on(s, '\n');
    let complete = ps.take(ps.len() - 1).map_values(|l: Seq<char>| strip_cr(l));
    if ps.last().len() == 0 {
        complete
    } else {
        complete.push(ps.last())
    }
}

/// The lines of a character sequence, like `str::lines`.
pub fn lines_of(cs: &[char]) -> (r: Vec<Vec<char>>)
    ensures
        r@.map_values(|v: Vec<char>| v@) == rust_lines(cs@),
{
    let ghost s = cs@;
    let ghost mut raw: Seq<Seq<char>> = Seq::empty();
    let mut out: Vec<Vec<char>> = Vec::new();
    let mut cur: Vec<char> = Vec::new();
    let mut i: usize = 0;
    assert(s.take(0) =~= Seq::<char>::empty());
    while i < cs.len()
        invariant
            s == cs@,
            i <= s.len(),
            split_on(s.take(i as int), '\n') == raw.push(cur@),
            out@.map_values(|v: Vec<char>| v@) == raw.map_values(|l: Seq<char>| strip_cr(l)),
        decreases s.len() - i,
    {
        let c = cs[i];
        assert(s.take(i + 1).drop_last() == s.take(i as int));
        assert(s.take(i + 1).last() == c);
        if c == '\n' {
            let ghost line = cur@;
            let n = cur.len();
            if n > 0 && cur[n - 1] == '\r' {
                cur.pop();
            }
            let ghost before = out@;
            let ghost cv = cur@;
            assert(cv == strip_cr(line));
            out.push(cur);
            cur = Vec::new();
            proof {
                assert(out@.map_values(|v: Vec<char>| v@) =~= before.map_values(|v: Vec<char>| v@).push(cv));
                assert(out@.map_values(|v: Vec<char>| v@) =~= raw.push(line).map_values(
                    |l: Seq<char>| strip_cr(l),
                ));
                raw = raw.push(line);
                assert(split_on(s.take(i + 1), '\n') =~= raw.push(Seq::<char>::empty()));
            }
        } else {
            cur.push(c);
            assert(split_on(s.take(i + 1), '\n') =~= raw.push(cur@));
        }
        i = i + 1;
    }
    assert(s.take(s.len() as int) == s);
    let ghost ps = split_on(s, '\n');
    assert(ps.take(ps.len() - 1) == raw);
    if cur.len() > 0 {
        let ghost before = out@;
        out.push(cur);
        assert(out@.map_values(|v: Vec<char>| v@) =~= before.map_values(|v: Vec<char>| v@).push(
            ps.last(),
        ));
    }
    out
}

/// `needle` occurs in `hay` (like `str::contains` with a string pattern).
pub open spec fn contains_seq(hay: Seq<char>, needle: Seq<char>) -> bool {
    exists|i: int| 0 <= i && i + needle.len() <= hay.len() && #[trigger] hay.subrange(i, i + needle.len()) == needle
}

/// Whether `needle` occurs in `hay`.
pub fn contains_chars(hay: &[char], needle: &[char]) -> (b: bool)
    ensures
        b == contains_seq(hay@, needle@),
{
    let n = hay.len();
    let m = needle.len();
    if m > n {
        return false;
    }
    let mut i: usize = 0;
    while i <= n - m
        invariant
            n == hay@.len(),
            m == needle@.len(),
            m <= n,
            i <= n - m + 1,
            forall|k: int| 0 <= k < i ==> #[trigger] hay@.subrange(k, k + m) != needle@,
        decreases n - m + 1 - i,
    {
        let mut j: usize = 0;
        let mut ok = true;
        while j < m
            invariant
                n == hay@.len(),
                m == needle@.len(),
                i + m <= n,
                j <= m,
                ok == (forall|t: int| 0 <= t < j ==> hay@[i + t] == needle@[t]),
            decreases m - j,
        {
            if hay[i + j] != needle[j] {
                ok = false;
            }
            j = j + 1;
        }
        if ok {
            assert(hay@.subrange(i as int, i + m) =~= needle@);
            return true;
        }
        assert(hay@.subrange(i as int, i + m) != needle@) by {
            let t = choose|t: int| 0 <= t < m && hay@[i + t] != needle@[t];
            assert(hay@.subrange(i as int, i + m)[t] == hay@[i + t]);
        }
        i = i + 1;
    }
    false
}

/// Lines joined with `\n` between them (`[&str]::join("\n")`).
pub open spec fn join_lines(ls: Seq<Seq<char>>) -> Seq<char>
    decreases ls.len(),
{
    if ls.len() == 0 {
        Seq::empty()
    } else if ls.len() == 1 {
        ls[0]
    } else {
        join_lines(ls.drop_last()) + seq!['\n'] + ls.last()
    }
}

/// Whether a character sequence is empty after trimming.
pub fn is_blank(cs: &[char]) -> (b: bool)
    ensures
        b == (trim(cs@).len() == 0),
{
    let (a, z) = trim_bounds(cs, 0, cs.len());
    assert(cs@.subrange(0, cs@.len() as int) == cs@);
    a == z
}

} // verus!

verus! {

/// Whether two string slices hold the same characters.
pub fn str_eq(a: &str, b: &str) -> (r: bool)
    ensures
        r == (a@ == b@),
{
    let x = str_chars(a);
    let y = str_chars(b);
    if x.len() != y.len() {
        return false;
    }
    let mut i: usize = 0;
    while i < x.len()
        invariant
            x@ == a@,
            y@ == b@,
            x@.len() == y@.len(),
            i <= x@.len(),
            forall|k: int| 0 <= k < i ==> x@[k] == y@[k],
        decreases x@.len() - i,
    {
        if x[i] != y[i] {
            return false;
        }
        i = i + 1;
    }
    assert(x@ =~= y@);
    true
}

/// Strings joined with `sep` between them (`[String]::join(sep)`).
pub open spec fn join_with(parts: Seq<Seq<char>>, sep: Seq<char>) -> Seq<char>
    decreases parts.len(),
{
    if parts.len() == 0 {
        Seq::empty()
    } else if parts.len() == 1 {
        parts[0]
    } else {
        join_with(parts.drop_last(), sep) + sep + parts.last()
    }
}

/// Joins strings with a separator, like `[String]::join`.
pub fn join_strings(parts: &Vec<String>, sep: &str) -> (r: String)
    ensures
        r@ == join_with(parts@.map_values(|s: String| s@), sep@),
{
    let ghost ps = parts@.map_values(|s: String| s@);
    let sep_chars = str_chars(sep);
    let mut out: Vec<char> = Vec::new();
    let mut i: usize = 0;
    while i < parts.len()
        invariant
            i <= parts@.len(),
            ps == parts@.map_values(|s: String| s@),
            sep_chars@ == sep@,
            out@ == join_with(ps.take(i as int), sep@),
        decreases parts@.len() - i,
    {
        assert(ps.take(i + 1).drop_last() == ps.take(i as int));
        assert(ps.take(i + 1).last() == parts@[i as int]@);
        let ghost base0 = out@;
        if i > 0 {
            append_chars(&mut out, sep_chars.as_slice());
        }
        let piece = str_chars(parts[i].as_str());
        append_chars(&mut out, piece.as_slice());
        if i == 0 {
            assert(out@ =~= join_with(ps.take(1), sep@));
        }
        i = i + 1;
    }
    assert(ps.take(parts@.len() as int) == ps);
    chars_to_string(out.as_slice())
}

/// Appends characters to a vector.
pub fn append_chars(out: &mut Vec<char>, extra: &[char])
    ensures
        final(out)@ == old(out)@ + extra@,
{
    let mut k: usize = 0;
    while k < extra.len()
        invariant
            k <= extra@.len(),
            out@ == old(out)@ + extra@.take(k as int),
        decreases extra@.len() - k,
    {
        out.push(extra[k]);
        assert(extra@.take(k + 1) == extra@.take(k as int).push(extra@[k as int]));
        k = k + 1;
    }
    assert(extra@.take(extra@.len() as int) == extra@);
}


/// The concatenation of two strings.
pub fn concat_strs(a: &str, b: &str) -> (r: String)
    ensures
        r@ == a@ + b@,
{
    let mut v = str_chars(a);
    let w = str_chars(b);
    append_chars(&mut v, w.as_slice());
    chars_to_string(v.as_slice())
}

/// Lexicographic order of character sequences, by code point (the order of `str`).
pub open spec fn chars_lt(a: Seq<char>, b: Seq<char>) -> bool
    decreases a.len(),
{
    if a.len() == 0 {
        b.len() > 0
    } else if b.len() == 0 {
        false
    } else if a[0] != b[0] {
        a[0] < b[0]
    } else {
        chars_lt(a.drop_first(), b.drop_first())
    }
}

/// No sequence sorts before itself.
pub proof fn lemma_chars_lt_irreflexive(a: Seq<char>)
    ensures
        !chars_lt(a, a),
    decreases a.len(),
{
    if a.len() > 0 {
        lemma_chars_lt_irreflexive(a.drop_first());
    }
}

/// The order of character sequences is transitive.
pub proof fn lemma_chars_lt_transitive(a: Seq<char>, b: Seq<char>, c: Seq<char>)
    ensures
        chars_lt(a, b) && chars_lt(b, c) ==> chars_lt(a, c),
    decreases a.len(),
{
    if a.len() > 0 && b.len() > 0 && c.len() > 0 {
        lemma_chars_lt_transitive(a.drop_first(), b.drop_first(), c.drop_first());
    }
}

/// Whether `a` sorts strictly before `b`.
pub fn str_lt(a: &str, b: &str) -> (r: bool)
    ensures
        r == chars_lt(a@, b@),
{
    let x = str_chars(a);
    let y = str_chars(b);
    assert(a@.skip(0) == a@);
    assert(b@.skip(0) == b@);
    let mut i: usize = 0;
    while i < x.len() && i < y.len()
        invariant
            i <= x@.len(),
            i <= y@.len(),
            x@ == a@,
            y@ == b@,
            chars_lt(a@, b@) == chars_lt(a@.skip(i as int), b@.skip(i as int)),
        decreases x@.len() - i,
    {
        if x[i] != y[i] {
            return x[i] < y[i];
        }
        assert(a@.skip(i as int).drop_first() == a@.skip(i + 1));
        assert(b@.skip(i as int).drop_first() == b@.skip(i + 1));
        i = i + 1;
    }
    i < y.len()
}


/// The non-empty pieces of `ps`, in order.
pub open spec fn keep_nonempty(ps: Seq<Seq<char>>) -> Seq<Seq<char>>
    decreases ps.len(),
{
    if ps.len() == 0 {
        Seq::empty()
    } else if ps.last().len() > 0 {
        keep_nonempty(ps.drop_last()).push(ps.last())
    } else {
        keep_nonempty(ps.drop_last())
    }
}

/// The pieces of `s` between separators, trimmed, without the empty ones.
pub open spec fn split_trimmed(s: Seq<char>, sep: char) -> Seq<Seq<char>> {
    keep_nonempty(split_on(s, sep).map_values(|p: Seq<char>| trim(p)))
}

/// The strings of a list, by their characters.
pub open spec fn string_views(v: Seq<String>) -> Seq<Seq<char>> {
    v.map_values(|x: String| x@)
}

/// Splits `s` at `sep`, trims each piece and drops the empty ones.
pub fn split_trimmed_strings(s: &str, sep: char) -> (r: Vec<String>)
    ensures
        string_views(r@) == split_trimmed(s@, sep),
{
    let cs = str_chars(s);
    let n = cs.len();
    let mut out: Vec<String> = Vec::new();
    let mut start: usize = 0;
    let mut i: usize = 0;
    assert(cs@.take(0) =~= Seq::<char>::empty());
    assert(cs@.subrange(0, 0) =~= Seq::<char>::empty());
    while i < n
        invariant
            start <= i <= n,
            n == cs@.len(),
            cs@ == s@,
            split_on(cs@.take(i as int), sep).len() >= 1,
            split_on(cs@.take(i as int), sep).last() == cs@.subrange(start as int, i as int),
            string_views(out@) == keep_nonempty(
                split_on(cs@.take(i as int), sep).drop_last().map_values(|p: Seq<char>| trim(p)),
            ),
        decreases n - i,
    {
        let ghost prev = split_on(cs@.take(i as int), sep);
        assert(cs@.take(i + 1).drop_last() == cs@.take(i as int));
        assert(cs@.take(i + 1).last() == cs@[i as int]);
        if cs[i] == sep {
            let (a, b) = trim_bounds(cs.as_slice(), start, i);
            let ghost piece = trim(cs@.subrange(start as int, i as int));
            proof {
                let xs = prev.drop_last().map_values(|p: Seq<char>| trim(p));
                let ys = xs.push(piece);
                assert(prev.map_values(|p: Seq<char>| trim(p)) =~= ys);
                assert(split_on(cs@.take(i + 1), sep).drop_last() == prev);
                assert(ys.drop_last() =~= xs);
                assert(cs@.subrange(a as int, b as int) == piece);
            }
            if b > a {
                let piece_chars = sub_chars(cs.as_slice(), a, b);
                let ps = chars_to_string(piece_chars.as_slice());
                let ghost before = out@;
                out.push(ps);
                assert(string_views(out@) =~= string_views(before).push(piece));
            }
            start = i + 1;
            assert(cs@.subrange(start as int, i + 1) =~= Seq::<char>::empty());
        } else {
            proof {
                let nxt = split_on(cs@.take(i + 1), sep);
                assert(nxt == prev.update(prev.len() - 1, prev.last().push(cs@[i as int])));
                assert(nxt.drop_last() =~= prev.drop_last());
                assert(nxt.last() =~= cs@.subrange(start as int, i + 1));
            }
        }
        i = i + 1;
    }
    assert(cs@.take(n as int) == cs@);
    let ghost all = split_on(cs@, sep);
    let (a, b) = trim_bounds(cs.as_slice(), start, n);
    let ghost piece = trim(cs@.subrange(start as int, n as int));
    proof {
        let xs = all.drop_last().map_values(|p: Seq<char>| trim(p));
        let ys = xs.push(piece);
        assert(all.map_values(|p: Seq<char>| trim(p)) =~= ys);
        assert(ys.drop_last() =~= xs);
        assert(cs@.subrange(a as int, b as int) == piece);
    }
    if b > a {
        let piece_chars = sub_chars(cs.as_slice(), a, b);
        let ps = chars_to_string(piece_chars.as_slice());
        let ghost before = out@;
        out.push(ps);
        assert(string_views(out@) =~= string_views(before).push(piece));
    }
    out
}


/// Number of bytes of the UTF-8 encoding of `c`.
pub open spec fn utf8_width(c: char) -> nat {
    if (c as u32) <= 0x7F {
        1
    } else if (c as u32) <= 0x7FF {
        2
    } else if (c as u32) <= 0xFFFF {
        3
    } else {
        4
    }
}

/// Number of bytes of the UTF-8 encoding of `s` (its length as a `str`).
pub open spec fn byte_len(s: Seq<char>) -> nat
    decreases s.len(),
{
    if s.len() == 0 {
        0
    } else {
        utf8_width(s[0]) + byte_len(s.drop_first())
    }
}

/// Byte lengths add up over concatenation.
pub proof fn lemma_byte_len_concat(a: Seq<char>, b: Seq<char>)
    ensures
        byte_len(a + b) == byte_len(a) + byte_len(b),
    decreases a.len(),
{
    if a.len() > 0 {
        assert((a + b).drop_first() == a.drop_first() + b);
        lemma_byte_len_concat(a.drop_first(), b);
    } else {
        assert(a + b == b);
    }
}

/// The byte length of a prefix grows by the width of the next character.
pub proof fn lemma_byte_len_step(s: Seq<char>, k: int)
    requires
        0 <= k < s.len(),
    ensures
        byte_len(s.take(k + 1)) == byte_len(s.take(k)) + utf8_width(s[k]),
{
    assert(s.take(k + 1) == s.take(k) + seq![s[k]]);
    lemma_byte_len_concat(s.take(k), seq![s[k]]);
    assert(seq![s[k]].drop_first() == Seq::<char>::empty());
    assert(byte_len(seq![s[k]]) == utf8_width(s[k]) + byte_len(Seq::<char>::empty()));
}

/// Longer prefixes are no shorter in bytes.
pub proof fn lemma_byte_len_monotone(s: Seq<char>, j: int, m: int)
    requires
        0 <= j <= m <= s.len(),
    ensures
        byte_len(s.take(j)) <= byte_len(s.take(m)),
        j < m ==> byte_len(s.take(j)) < byte_len(s.take(m)),
{
    assert(s.take(m) == s.take(j) + s.subrange(j, m));
    lemma_byte_len_concat(s.take(j), s.subrange(j, m));
    if j < m {
        assert(s.subrange(j, m)[0] == s[j]);
    }
}

/// `byte_len` is the length of the UTF-8 encoding.
pub proof fn lemma_byte_len_encoding(s: Seq<char>)
    ensures
        byte_len(s) == vstd::utf8::encode_utf8(s).len(),
    decreases s.len(),
{
    if s.len() > 0 {
        vstd::utf8::char_is_scalar(s[0]);
        lemma_byte_len_encoding(s.drop_first());
    }
}

/// Byte position `b` of `s` starts a character or is its end.
pub open spec fn char_boundary(s: Seq<char>, b: int) -> bool {
    exists|k: int| 0 <= k <= s.len() && byte_len(#[trigger] s.take(k)) == b
}

/// Number of bytes of the UTF-8 encoding of `c`.
pub fn char_width(c: char) -> (w: usize)
    ensures
        w == utf8_width(c),
        1 <= w <= 4,
{
    let v = c as u32;
    if v <= 0x7F {
        1
    } else if v <= 0x7FF {
        2
    } else if v <= 0xFFFF {
        3
    } else {
        4
    }
}

/// Length of a string in bytes.
pub fn byte_length(s: &str) -> (n: usize)
    requires
        byte_len(s@) <= usize::MAX,
    ensures
        n == byte_len(s@),
{
    proof {
        lemma_byte_len_encoding(s@);
    }
    s.len()
}

/// Whether the UTF-8 length of `s`, plus `extra`, fits in a `usize`.
pub fn bytes_fit(s: &[char], extra: usize) -> (b: bool)
    ensures
        b == (byte_len(s@) + extra <= usize::MAX),
{
    let mut total: usize = 0;
    let mut k: usize = 0;
    let limit: usize = usize::MAX - extra;
    assert(s@.take(0) =~= Seq::<char>::empty());
    while k < s.len()
        invariant
            k <= s@.len(),
            limit == usize::MAX - extra,
            total == byte_len(s@.take(k as int)),
            total <= limit,
        decreases s@.len() - k,
    {
        proof {
            lemma_byte_len_step(s@, k as int);
        }
        let w = char_width(s[k]);
        if w > limit || total > limit - w {
            proof {
                lemma_byte_len_monotone(s@, k + 1, s@.len() as int);
                assert(s@.take(s@.len() as int) =~= s@);
            }
            return false;
        }
        total = total + w;
        k = k + 1;
    }
    assert(s@.take(s@.len() as int) =~= s@);
    true
}

/// The number of characters before byte position `b`, when `b` is a boundary.
pub fn char_index_at(s: &[char], b: usize) -> (r: Option<usize>)
    ensures
        match r {
            Some(k) => k <= s@.len() && byte_len(s@.take(k as int)) == b,
            None => !char_boundary(s@, b as int),
        },
{
    let n = s.len();
    let mut k: usize = 0;
    let mut acc: u128 = 0;
    assert(s@.take(0) =~= Seq::<char>::empty());
    while k < n && acc < b as u128
        invariant
            k <= n,
            n == s@.len(),
            acc == byte_len(s@.take(k as int)),
            forall|j: int| 0 <= j < k ==> byte_len(#[trigger] s@.take(j)) < b,
        decreases n - k,
    {
        proof {
            lemma_byte_len_step(s@, k as int);
        }
        acc = acc + char_width(s[k]) as u128;
        k = k + 1;
    }
    if acc == b as u128 {
        Some(k)
    } else {
        proof {
            assert forall|j: int| 0 <= j <= s@.len() implies byte_len(#[trigger] s@.take(j)) != b by {
                if j >= k {
                    lemma_byte_len_monotone(s@, k as int, j);
                    if acc < b {
                        assert(k == n);
                    }
                }
            }
        }
        None
    }
}


/// All characters are octal digits.
pub open spec fn all_octal(d: Seq<char>) -> bool {
    forall|i: int| 0 <= i < d.len() ==> '0' <= #[trigger] d[i] <= '7'
}

/// Value of a sequence of octal digits.
pub open spec fn octal_value(d: Seq<char>) -> nat
    decreases d.len(),
{
    if d.len() == 0 {
        0
    } else {
        octal_value(d.drop_last()) * 8 + digit_value(d.last())
    }
}

/// `u32::from_str_radix(_, 8)`: an optional `+`, then one or more octal digits, at
/// most `u32::MAX`.
pub open spec fn parse_octal_u32(v: Seq<char>) -> Option<u32> {
    let d = if v.len() > 0 && v[0] == '+' {
        v.drop_first()
    } else {
        v
    };
    if d.len() > 0 && all_octal(d) && octal_value(d) <= u32::MAX {
        Some(octal_value(d) as u32)
    } else {
        None
    }
}

proof fn lemma_octal_value_prefix(d: Seq<char>, i: int)
    requires
        0 <= i <= d.len(),
        all_octal(d),
    ensures
        octal_value(d.take(i)) <= octal_value(d),
    decreases d.len() - i,
{
    if i < d.len() {
        lemma_octal_value_prefix(d, i + 1);
        assert(d.take(i + 1).drop_last() == d.take(i));
    } else {
        assert(d.take(i) == d);
    }
}

/// Parses `s` as an octal `u32` the way `u32::from_str_radix(s, 8)` does.
pub fn parse_octal(s: &str) -> (r: Option<u32>)
    ensures
        r == parse_octal_u32(s@),
{
    let cs = str_chars(s);
    let hi = cs.len();
    let ghost v = cs@;
    let start: usize = if hi > 0 && cs[0] == '+' {
        1
    } else {
        0
    };
    let ghost d = cs@.subrange(start as int, hi as int);
    assert(d == (if v.len() > 0 && v[0] == '+' {
        v.drop_first()
    } else {
        v
    }));
    if start == hi {
        return None;
    }
    let mut acc: u64 = 0;
    let mut i = start;
    while i < hi
        invariant
            start <= i <= hi,
            hi == cs@.len(),
            start < hi,
            v == cs@,
            v == s@,
            d == cs@.subrange(start as int, hi as int),
            d == (if v.len() > 0 && v[0] == '+' {
                v.drop_first()
            } else {
                v
            }),
            all_octal(d.take(i - start)),
            acc == octal_value(d.take(i - start)),
            acc <= u32::MAX,
        decreases hi - i,
    {
        let c = cs[i];
        if !('0' <= c && c <= '7') {
            assert(d[i - start] == c);
            return None;
        }
        let dv = ((c as u32) - ('0' as u32)) as u64;
        assert(d.take(i - start + 1).drop_last() == d.take(i - start));
        assert(d.take(i - start + 1).last() == c);
        let next = acc * 8 + dv;
        assert(octal_value(d.take(i - start + 1)) == next);
        if next > 0xffff_ffff {
            proof {
                assert(all_octal(d.take(i - start + 1)));
                if all_octal(d) {
                    lemma_octal_value_prefix(d, i - start + 1);
                }
            }
            return None;
        }
        acc = next;
        i = i + 1;
    }
    assert(d.take(i - start) == d);
    Some(acc as u32)
}

/// The four octal digits of `v < 4096`, with leading zeros (`{:04o}`).
pub open spec fn octal4(v: nat) -> Seq<char> {
    seq![digit_char(v / 512), digit_char(v / 64 % 8), digit_char(v / 8 % 8), digit_char(v % 8)]
}

/// The permission bits of a mode as four octal digits (`{:04o}` of `mode & 0o7777`).
pub fn permission_digits(mode: u32) -> (r: String)
    ensures
        r@ == octal4((mode % 4096) as nat),
{
    let v = mode & 0o7777;
    assert(v == mode % 4096) by (bit_vector)
        requires
            v == mode & 0o7777,
    ;
    let mut out: Vec<char> = Vec::new();
    out.push(((v / 512) as u8 + 48u8) as char);
    out.push(((v / 64 % 8) as u8 + 48u8) as char);
    out.push(((v / 8 % 8) as u8 + 48u8) as char);
    out.push(((v % 8) as u8 + 48u8) as char);
    assert(out@ =~= octal4(v as nat));
    chars_to_string(out.as_slice())
}

/// The text after the last `sep` of `s` (all of `s` when it has none).
pub open spec fn after_last(s: Seq<char>, sep: char) -> Seq<char>
    decreases s.len(),
{
    if s.len() == 0 {
        s
    } else if s.last() == sep {
        Seq::empty()
    } else {
        after_last(s.drop_last(), sep).push(s.last())
    }
}

/// The text after the last `sep` of `s` (`s.rsplit(sep).next()`).
pub fn last_segment(s: &str, sep: char) -> (r: String)
    ensures
        r@ == after_last(s@, sep),
{
    let cs = str_chars(s);
    let n = cs.len();
    let mut start: usize = 0;
    let mut i: usize = 0;
    assert(cs@.take(0) =~= Seq::<char>::empty());
    while i < n
        invariant
            start <= i <= n,
            n == cs@.len(),
            cs@ == s@,
            after_last(cs@.take(i as int), sep) == cs@.subrange(start as int, i as int),
        decreases n - i,
    {
        assert(cs@.take(i + 1).drop_last() == cs@.take(i as int));
        assert(cs@.take(i + 1).last() == cs@[i as int]);
        if cs[i] == sep {
            start = i + 1;
            assert(cs@.subrange(start as int, i + 1) =~= Seq::<char>::empty());
        } else {
            assert(cs@.subrange(start as int, i + 1) =~= cs@.subrange(start as int, i as int).push(
                cs@[i as int],
            ));
        }
        i = i + 1;
    }
    assert(cs@.take(n as int) == cs@);
    let piece = sub_chars(cs.as_slice(), start, n);
    chars_to_string(piece.as_slice())
}


/// Splits `s` at every white-space character; always at least one piece.
pub open spec fn split_at_ws(s: Seq<char>) -> Seq<Seq<char>>
    decreases s.len(),
{
    if s.len() == 0 {
        seq![Seq::<char>::empty()]
    } else {
        let rest = split_at_ws(s.drop_last());
        if is_ws(s.last()) {
            rest.push(Seq::<char>::empty())
        } else {
            rest.update(rest.len() - 1, rest.last().push(s.last()))
        }
    }
}

/// The words of `s`: its maximal runs without white space (`str::split_whitespace`).
pub open spec fn words(s: Seq<char>) -> Seq<Seq<char>> {
    keep_nonempty(split_at_ws(s))
}

proof fn lemma_split_at_ws_nonempty(s: Seq<char>)
    ensures
        split_at_ws(s).len() >= 1,
    decreases s.len(),
{
    if s.len() > 0 {
        lemma_split_at_ws_nonempty(s.drop_last());
    }
}

/// The words of `cs` (`str::split_whitespace`).
pub fn split_words(cs: &[char]) -> (r: Vec<Vec<char>>)
    ensures
        r@.map_values(|w: Vec<char>| w@) == words(cs@),
{
    let n = cs.len();
    let mut out: Vec<Vec<char>> = Vec::new();
    let mut start: usize = 0;
    let mut i: usize = 0;
    assert(cs@.take(0) =~= Seq::<char>::empty());
    assert(cs@.subrange(0, 0) =~= Seq::<char>::empty());
    while i < n
        invariant
            start <= i <= n,
            n == cs@.len(),
            split_at_ws(cs@.take(i as int)).len() >= 1,
            split_at_ws(cs@.take(i as int)).last() == cs@.subrange(start as int, i as int),
            out@.map_values(|w: Vec<char>| w@) == keep_nonempty(
                split_at_ws(cs@.take(i as int)).drop_last(),
            ),
        decreases n - i,
    {
        let ghost prev = split_at_ws(cs@.take(i as int));
        assert(cs@.take(i + 1).drop_last() == cs@.take(i as int));
        assert(cs@.take(i + 1).last() == cs@[i as int]);
        if is_whitespace(cs[i]) {
            let ghost piece = cs@.subrange(start as int, i as int);
            proof {
                let xs = prev.drop_last();
                let ys = xs.push(piece);
                assert(prev =~= ys);
                assert(split_at_ws(cs@.take(i + 1)).drop_last() == prev);
                assert(ys.drop_last() =~= xs);
            }
            if i > start {
                let w = sub_chars(cs, start, i);
                let ghost before = out@;
                out.push(w);
                assert(out@.map_values(|w: Vec<char>| w@) =~= before.map_values(|w: Vec<char>| w@).push(
                    piece,
                ));
            }
            start = i + 1;
            assert(cs@.subrange(start as int, i + 1) =~= Seq::<char>::empty());
        } else {
            proof {
                let nxt = split_at_ws(cs@.take(i + 1));
                assert(nxt == prev.update(prev.len() - 1, prev.last().push(cs@[i as int])));
                assert(nxt.drop_last() =~= prev.drop_last());
                assert(nxt.last() =~= cs@.subrange(start as int, i + 1));
            }
        }
        i = i + 1;
    }
    assert(cs@.take(n as int) == cs@);
    let ghost all = split_at_ws(cs@);
    let ghost piece = cs@.subrange(start as int, n as int);
    proof {
        let xs = all.drop_last();
        let ys = xs.push(piece);
        assert(all =~= ys);
        assert(ys.drop_last() =~= xs);
    }
    if n > start {
        let w = sub_chars(cs, start, n);
        let ghost before = out@;
        out.push(w);
        assert(out@.map_values(|w: Vec<char>| w@) =~= before.map_values(|w: Vec<char>| w@).push(piece));
    }
    out
}

/// `u64::from_str`: an optional `+`, then one or more decimal digits, at most
/// `u64::MAX`.
pub open spec fn parse_u64(v: Seq<char>) -> Option<u64> {
    let d = if v.len() > 0 && v[0] == '+' {
        v.drop_first()
    } else {
        v
    };
    if d.len() > 0 && all_digits(d) && digits_value(d) <= u64::MAX {
        Some(digits_value(d) as u64)
    } else {
        None
    }
}

/// Parses characters as a `u64` the way `str::parse::<u64>` does.
pub fn parse_u64_chars(s: &[char]) -> (r: Option<u64>)
    ensures
        r == parse_u64(s@),
{
    let hi = s.len();
    let ghost v = s@;
    let start: usize = if hi > 0 && s[0] == '+' {
        1
    } else {
        0
    };
    let ghost d = s@.subrange(start as int, hi as int);
    assert(d == (if v.len() > 0 && v[0] == '+' {
        v.drop_first()
    } else {
        v
    }));
    if start == hi {
        return None;
    }
    let mut acc: u128 = 0;
    let mut i = start;
    while i < hi
        invariant
            start <= i <= hi,
            hi == s@.len(),
            start < hi,
            v == s@,
            d == s@.subrange(start as int, hi as int),
            d == (if v.len() > 0 && v[0] == '+' {
                v.drop_first()
            } else {
                v
            }),
            all_digits(d.take(i - start)),
            acc == digits_value(d.take(i - start)),
            acc <= u64::MAX,
        decreases hi - i,
    {
        let c = s[i];
        if !('0' <= c && c <= '9') {
            assert(d[i - start] == c);
            return None;
        }
        let dv = ((c as u32) - ('0' as u32)) as u128;
        assert(d.take(i - start + 1).drop_last() == d.take(i - start));
        assert(d.take(i - start + 1).last() == c);
        let next = acc * 10 + dv;
        assert(digits_value(d.take(i - start + 1)) == next);
        if next > 0xffff_ffff_ffff_ffff {
            proof {
                assert(all_digits(d.take(i - start + 1)));
                if all_digits(d) {
                    lemma_digits_value_prefix(d, i - start + 1);
                }
            }
            return None;
        }
        acc = next;
        i = i + 1;
    }
    assert(d.take(i - start) == d);
    Some(acc as u64)
}

/// Whether `s` begins with `p`.
pub open spec fn has_prefix(s: Seq<char>, p: Seq<char>) -> bool {
    p.len() <= s.len() && s.take(p.len() as int) == p
}

/// Whether `s` begins with `p`.
pub fn starts_with_chars(s: &[char], p: &[char]) -> (b: bool)
    ensures
        b == has_prefix(s@, p@),
{
    if p.len() > s.len() {
        return false;
    }
    let mut i: usize = 0;
    while i < p.len()
        invariant
            i <= p@.len() <= s@.len(),
            s@.take(i as int) == p@.take(i as int),
        decreases p@.len() - i,
    {
        if s[i] != p[i] {
            assert(s@.take(p@.len() as int)[i as int] != p@[i as int]);
            return false;
        }
        assert(s@.take(i + 1) =~= s@.take(i as int).push(s@[i as int]));
        assert(p@.take(i + 1) =~= p@.take(i as int).push(p@[i as int]));
        i = i + 1;
    }
    assert(p@.take(p@.len() as int) == p@);
    true
}


/// Every word is non-empty.
pub proof fn lemma_words_nonempty(s: Seq<char>, k: int)
    requires
        0 <= k < words(s).len(),
    ensures
        words(s)[k].len() > 0,
{
    lemma_keep_nonempty_all(split_at_ws(s));
}

proof fn lemma_keep_nonempty_all(ps: Seq<Seq<char>>)
    ensures
        forall|k: int| 0 <= k < keep_nonempty(ps).len() ==> (#[trigger] keep_nonempty(ps)[k]).len() > 0,
    decreases ps.len(),
{
    if ps.len() > 0 {
        lemma_keep_nonempty_all(ps.drop_last());
        let rest = keep_nonempty(ps.drop_last());
        assert forall|k: int| 0 <= k < keep_nonempty(ps).len() implies (#[trigger] keep_nonempty(ps)[k]).len() > 0 by {
            if ps.last().len() > 0 && k == rest.len() {
            } else {
                assert(keep_nonempty(ps)[k] == rest[k]);
            }
        }
    }
}

} // verus!
