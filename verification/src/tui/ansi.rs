//! Conversion of terminal output with ANSI escape sequences into styled segments.

use vstd::prelude::*;

use crate::text;

verus! {

/// A terminal colour.
#[derive(Debug, Clone, Copy, PartialEq, Eq, Structural)]
pub enum TermColor {
    Black,
    Red,
    Green,
    Yellow,
    Blue,
    Magenta,
    Cyan,
    White,
    DarkGray,
    LightRed,
    LightGreen,
    LightYellow,
    LightBlue,
    LightMagenta,
    LightCyan,
    /// Light gray (the terminal's normal white).
    Gray,
    /// A colour of the 256-colour palette.
    Indexed(u8),
}

/// A set of text modifiers.
#[derive(Debug, Clone, Copy, PartialEq, Eq, Structural)]
pub struct Modifiers {
    pub bold: bool,
    pub italic: bool,
    pub underlined: bool,
}

/// A text style: colours, modifiers to add and modifiers to remove.
#[derive(Debug, Clone, Copy, PartialEq, Eq, Structural)]
pub struct TermStyle {
    pub fg: Option<TermColor>,
    pub bg: Option<TermColor>,
    pub add_modifier: Modifiers,
    pub sub_modifier: Modifiers,
}

/// The empty modifier set.
pub open spec fn no_modifiers() -> Modifiers {
    Modifiers { bold: false, italic: false, underlined: false }
}

/// The style of plain output: white foreground, nothing else.
pub open spec fn base_style() -> TermStyle {
    TermStyle {
        fg: Some(TermColor::White),
        bg: None,
        add_modifier: no_modifiers(),
        sub_modifier: no_modifiers(),
    }
}

/// The plain output style.
pub fn plain_style() -> (s: TermStyle)
    ensures
        s == base_style(),
{
    TermStyle {
        fg: Some(TermColor::White),
        bg: None,
        add_modifier: Modifiers { bold: false, italic: false, underlined: false },
        sub_modifier: Modifiers { bold: false, italic: false, underlined: false },
    }
}

/// The eight standard colours, in SGR order.
pub open spec fn standard_color(k: nat) -> TermColor {
    if k == 0 {
        TermColor::Black
    } else if k == 1 {
        TermColor::Red
    } else if k == 2 {
        TermColor::Green
    } else if k == 3 {
        TermColor::Yellow
    } else if k == 4 {
        TermColor::Blue
    } else if k == 5 {
        TermColor::Magenta
    } else if k == 6 {
        TermColor::Cyan
    } else {
        TermColor::White
    }
}

/// The bright colours of SGR codes 90..97 and 100..107.
pub open spec fn bright_color(k: nat) -> TermColor {
    if k == 0 {
        TermColor::DarkGray
    } else if k == 1 {
        TermColor::LightRed
    } else if k == 2 {
        TermColor::LightGreen
    } else if k == 3 {
        TermColor::LightYellow
    } else if k == 4 {
        TermColor::LightBlue
    } else if k == 5 {
        TermColor::LightMagenta
    } else if k == 6 {
        TermColor::LightCyan
    } else {
        TermColor::White
    }
}

/// Effect of one SGR code on a style; unknown codes leave it unchanged.
pub open spec fn apply_sgr_code(st: TermStyle, code: nat) -> TermStyle {
    if code == 0 {
        base_style()
    } else if code == 1 {
        TermStyle {
            add_modifier: Modifiers { bold: true, ..st.add_modifier },
            sub_modifier: Modifiers { bold: false, ..st.sub_modifier },
            ..st
        }
    } else if code == 3 {
        TermStyle {
            add_modifier: Modifiers { italic: true, ..st.add_modifier },
            sub_modifier: Modifiers { italic: false, ..st.sub_modifier },
            ..st
        }
    } else if code == 4 {
        TermStyle {
            add_modifier: Modifiers { underlined: true, ..st.add_modifier },
            sub_modifier: Modifiers { underlined: false, ..st.sub_modifier },
            ..st
        }
    } else if code == 22 {
        TermStyle {
            add_modifier: Modifiers { bold: false, ..st.add_modifier },
            sub_modifier: Modifiers { bold: true, ..st.sub_modifier },
            ..st
        }
    } else if code == 23 {
        TermStyle {
            add_modifier: Modifiers { italic: false, ..st.add_modifier },
            sub_modifier: Modifiers { italic: true, ..st.sub_modifier },
            ..st
        }
    } else if code == 24 {
        TermStyle {
            add_modifier: Modifiers { underlined: false, ..st.add_modifier },
            sub_modifier: Modifiers { underlined: true, ..st.sub_modifier },
            ..st
        }
    } else if 30 <= code <= 37 {
        TermStyle { fg: Some(standard_color((code - 30) as nat)), ..st }
    } else if 40 <= code <= 47 {
        TermStyle { bg: Some(standard_color((code - 40) as nat)), ..st }
    } else if 90 <= code <= 97 {
        TermStyle { fg: Some(bright_color((code - 90) as nat)), ..st }
    } else if 100 <= code <= 106 {
        TermStyle { bg: Some(bright_color((code - 100) as nat)), ..st }
    } else if code == 107 {
        TermStyle {
            bg: Some(TermColor::White),
            add_modifier: Modifiers { bold: true, ..st.add_modifier },
            sub_modifier: Modifiers { bold: false, ..st.sub_modifier },
            ..st
        }
    } else {
        st
    }
}

/// The SGR code written by a parameter: `00` and `01`, or a decimal number of one to
/// three digits without a leading zero.
pub open spec fn sgr_code(p: Seq<char>) -> Option<nat> {
    if p == seq!['0', '0'] {
        Some(0)
    } else if p == seq!['0', '1'] {
        Some(1)
    } else if 1 <= p.len() <= 3 && text::all_digits(p) && (p.len() == 1 || p[0] != '0') {
        Some(text::digits_value(p))
    } else {
        None
    }
}

/// Effect of one SGR parameter.
pub open spec fn apply_sgr_param(st: TermStyle, p: Seq<char>) -> TermStyle {
    match sgr_code(p) {
        Some(c) => apply_sgr_code(st, c),
        None => st,
    }
}

/// Effect of a list of SGR parameters, first to last.
pub open spec fn apply_sgr_params(st: TermStyle, ps: Seq<Seq<char>>) -> TermStyle
    decreases ps.len(),
{
    if ps.len() == 0 {
        st
    } else {
        apply_sgr_param(apply_sgr_params(st, ps.drop_last()), ps.last())
    }
}

/// Effect of a complete SGR sequence `ESC [ params m`.
pub open spec fn apply_sgr(st: TermStyle, params: Seq<char>) -> TermStyle {
    if params.len() == 0 || params == seq!['0'] || params == seq!['0', '0'] {
        base_style()
    } else {
        apply_sgr_params(st, text::split_on(params, ';'))
    }
}

/// Where the reader stands inside the escape-sequence grammar.
pub enum AnsiMode {
    /// Plain text.
    Text,
    /// Just after `ESC`.
    Escape,
    /// Inside a control sequence `ESC [`, with the parameters read so far.
    Csi(Seq<char>),
    /// Inside an operating-system command `ESC ]`.
    Osc,
    /// Just after an `ESC` inside an operating-system command.
    OscEscape,
}

/// Reading state: mode, current style and the segments produced.
pub struct AnsiScan {
    pub mode: AnsiMode,
    pub style: TermStyle,
    pub segments: Seq<(Seq<char>, TermStyle)>,
}

/// Appends a visible character in the given style, extending the last segment when it
/// has that style.
pub open spec fn append_styled(
    segs: Seq<(Seq<char>, TermStyle)>,
    c: char,
    st: TermStyle,
) -> Seq<(Seq<char>, TermStyle)> {
    if segs.len() > 0 && segs.last().1 == st {
        segs.update(segs.len() - 1, (segs.last().0.push(c), st))
    } else {
        segs.push((seq![c], st))
    }
}

/// Effect of one input character.
pub open spec fn ansi_step(sc: AnsiScan, c: char) -> AnsiScan {
    match sc.mode {
        AnsiMode::Text => if c == '\u{1b}' {
            AnsiScan { mode: AnsiMode::Escape, ..sc }
        } else if c != '\r' {
            AnsiScan { segments: append_styled(sc.segments, c, sc.style), ..sc }
        } else {
            sc
        },
        AnsiMode::Escape => if c == '[' {
            AnsiScan { mode: AnsiMode::Csi(Seq::empty()), ..sc }
        } else if c == ']' {
            AnsiScan { mode: AnsiMode::Osc, ..sc }
        } else {
            AnsiScan { mode: AnsiMode::Text, ..sc }
        },
        AnsiMode::Csi(params) => if '@' <= c && c <= '~' {
            AnsiScan {
                mode: AnsiMode::Text,
                style: if c == 'm' {
                    apply_sgr(sc.style, params)
                } else {
                    sc.style
                },
                ..sc
            }
        } else {
            AnsiScan { mode: AnsiMode::Csi(params.push(c)), ..sc }
        },
        AnsiMode::Osc => if c == '\u{7}' {
            AnsiScan { mode: AnsiMode::Text, ..sc }
        } else if c == '\u{1b}' {
            AnsiScan { mode: AnsiMode::OscEscape, ..sc }
        } else {
            sc
        },
        AnsiMode::OscEscape => AnsiScan { mode: AnsiMode::Text, ..sc },
    }
}

/// Reading state after the characters of `s`.
pub open spec fn ansi_scan(s: Seq<char>) -> AnsiScan
    decreases s.len(),
{
    if s.len() == 0 {
        AnsiScan { mode: AnsiMode::Text, style: base_style(), segments: Seq::empty() }
    } else {
        ansi_step(ansi_scan(s.drop_last()), s.last())
    }
}

/// Output with no escape character and no carriage return is one segment of the
/// plain style holding all of it (none when it is empty).
pub proof fn lemma_plain_output_one_segment(s: Seq<char>)
    requires
        forall|i: int| 0 <= i < s.len() ==> #[trigger] s[i] != '\u{1b}' && s[i] != '\r',
    ensures
        ansi_scan(s).mode is Text,
        ansi_scan(s).style == base_style(),
        ansi_segments(s) == (if s.len() == 0 {
            Seq::<(Seq<char>, TermStyle)>::empty()
        } else {
            seq![(s, base_style())]
        }),
    decreases s.len(),
{
    if s.len() > 0 {
        let p = s.drop_last();
        assert forall|i: int| 0 <= i < p.len() implies #[trigger] p[i] != '\u{1b}' && p[i] != '\r' by {
            assert(p[i] == s[i]);
        }
        lemma_plain_output_one_segment(p);
        assert(s.last() == s[s.len() - 1]);
        if p.len() == 0 {
            assert(seq![s.last()] =~= s);
        } else {
            assert(p.push(s.last()) =~= s);
        }
    }
}

/// The styled segments of terminal output `s`.
///
/// SGR sequences (`ESC [ ... m`) change the style, other control sequences, OSC
/// commands (ended by BEL or `ESC` and one more character) and carriage returns are
/// dropped, and consecutive characters of one style form one segment.
pub open spec fn ansi_segments(s: Seq<char>) -> Seq<(Seq<char>, TermStyle)> {
    ansi_scan(s).segments
}

} // verus!

verus! {

/// The SGR code written by parameter `p[lo..hi]`.
fn sgr_code_of(p: &[char], lo: usize, hi: usize) -> (r: Option<u16>)
    requires
        lo <= hi <= p@.len(),
    ensures
        r matches Some(v) ==> sgr_code(p@.subrange(lo as int, hi as int)) == Some(v as nat),
        r is None ==> sgr_code(p@.subrange(lo as int, hi as int)) is None,
{
    let ghost q = p@.subrange(lo as int, hi as int);
    proof {
        if q == seq!['0', '0'] {
            assert(q.len() == 2 && q[0] == '0' && q[1] == '0');
        }
        if q == seq!['0', '1'] {
            assert(q.len() == 2 && q[0] == '0' && q[1] == '1');
        }
    }
    let len = hi - lo;
    if len == 2 && p[lo] == '0' && p[lo + 1] == '0' {
        assert(q =~= seq!['0', '0']);
        return Some(0);
    }
    if len == 2 && p[lo] == '0' && p[lo + 1] == '1' {
        assert(q =~= seq!['0', '1']);
        return Some(1);
    }
    assert(len == 2 ==> q[0] == p@[lo as int] && q[1] == p@[lo + 1]);
    if len < 1 || len > 3 {
        return None;
    }
    if len > 1 && p[lo] == '0' {
        assert(q[0] == '0');
        assert(q != seq!['0', '0'] && q != seq!['0', '1']) by {
            if q == seq!['0', '0'] {
                assert(p@[lo + 1] == '0');
            }
            if q == seq!['0', '1'] {
                assert(p@[lo + 1] == '1');
            }
        }
        return None;
    }
    assert(sgr_code(q) == (if text::all_digits(q) {
        Some(text::digits_value(q))
    } else {
        None::<nat>
    }));
    let mut acc: u16 = 0;
    let mut i = lo;
    while i < hi
        invariant
            sgr_code(q) == (if text::all_digits(q) {
                Some(text::digits_value(q))
            } else {
                None::<nat>
            }),
            lo <= i <= hi <= p@.len(),
            hi - lo <= 3,
            q == p@.subrange(lo as int, hi as int),
            text::all_digits(q.take(i - lo)),
            acc as nat == text::digits_value(q.take(i - lo)),
            acc < 1000,
            acc as nat <= text::digits_value(q.take(i - lo)),
            i - lo == 0 ==> acc == 0,
            i - lo == 1 ==> acc < 10,
            i - lo == 2 ==> acc < 100,
        decreases hi - i,
    {
        let c = p[i];
        if !('0' <= c && c <= '9') {
            assert(q[i - lo] == c);
            return None;
        }
        assert(q.take(i - lo + 1).drop_last() == q.take(i - lo));
        assert(q.take(i - lo + 1).last() == c);
        acc = acc * 10 + ((c as u32) - ('0' as u32)) as u16;
        i = i + 1;
    }
    assert(q.take(hi - lo) == q);
    proof {
        if q == seq!['0', '0'] {
            assert(false);
        }
        if q == seq!['0', '1'] {
            assert(false);
        }
    }
    Some(acc)
}

/// Applies one SGR code to a style.
fn apply_code(st: TermStyle, code: u16) -> (r: TermStyle)
    ensures
        r == apply_sgr_code(st, code as nat),
{
    let mut r = st;
    if code == 0 {
        r = plain_style();
    } else if code == 1 {
        r.add_modifier.bold = true;
        r.sub_modifier.bold = false;
    } else if code == 3 {
        r.add_modifier.italic = true;
        r.sub_modifier.italic = false;
    } else if code == 4 {
        r.add_modifier.underlined = true;
        r.sub_modifier.underlined = false;
    } else if code == 22 {
        r.add_modifier.bold = false;
        r.sub_modifier.bold = true;
    } else if code == 23 {
        r.add_modifier.italic = false;
        r.sub_modifier.italic = true;
    } else if code == 24 {
        r.add_modifier.underlined = false;
        r.sub_modifier.underlined = true;
    } else if 30 <= code && code <= 37 {
        r.fg = Some(standard(code - 30));
    } else if 40 <= code && code <= 47 {
        r.bg = Some(standard(code - 40));
    } else if 90 <= code && code <= 97 {
        r.fg = Some(bright(code - 90));
    } else if 100 <= code && code <= 106 {
        r.bg = Some(bright(code - 100));
    } else if code == 107 {
        r.bg = Some(TermColor::White);
        r.add_modifier.bold = true;
        r.sub_modifier.bold = false;
    }
    r
}

fn standard(k: u16) -> (c: TermColor)
    ensures
        c == standard_color(k as nat),
{
    match k {
        0 => TermColor::Black,
        1 => TermColor::Red,
        2 => TermColor::Green,
        3 => TermColor::Yellow,
        4 => TermColor::Blue,
        5 => TermColor::Magenta,
        6 => TermColor::Cyan,
        _ => TermColor::White,
    }
}

fn bright(k: u16) -> (c: TermColor)
    ensures
        c == bright_color(k as nat),
{
    match k {
        0 => TermColor::DarkGray,
        1 => TermColor::LightRed,
        2 => TermColor::LightGreen,
        3 => TermColor::LightYellow,
        4 => TermColor::LightBlue,
        5 => TermColor::LightMagenta,
        6 => TermColor::LightCyan,
        _ => TermColor::White,
    }
}

/// Applies a complete SGR sequence with parameters `params`.
fn apply_sgr_exec(st: TermStyle, params: &Vec<char>) -> (r: TermStyle)
    ensures
        r == apply_sgr(st, params@),
{
    let n = params.len();
    if n == 0 {
        return plain_style();
    }
    if n == 1 && params[0] == '0' {
        assert(params@ =~= seq!['0']);
        return plain_style();
    }
    if n == 2 && params[0] == '0' && params[1] == '0' {
        assert(params@ =~= seq!['0', '0']);
        return plain_style();
    }
    proof {
        if params@ == seq!['0'] {
            assert(params@.len() == 1 && params@[0] == '0');
        }
        if params@ == seq!['0', '0'] {
            assert(params@.len() == 2 && params@[0] == '0' && params@[1] == '0');
        }
    }
    let ghost s = params@;
    let ghost mut done: Seq<Seq<char>> = Seq::empty();
    let mut cur = st;
    let mut ps: usize = 0;
    let mut i: usize = 0;
    assert(s.take(0) =~= Seq::<char>::empty());
    assert(s.subrange(0, 0) =~= Seq::<char>::empty());
    while i < n
        invariant
            s == params@,
            n == s.len(),
            ps <= i <= n,
            text::split_on(s.take(i as int), ';') == done.push(s.subrange(ps as int, i as int)),
            cur == apply_sgr_params(st, done),
        decreases n - i,
    {
        assert(s.take(i + 1).drop_last() == s.take(i as int));
        assert(s.take(i + 1).last() == params@[i as int]);
        if params[i] == ';' {
            let ghost piece = s.subrange(ps as int, i as int);
            match sgr_code_of(params.as_slice(), ps, i) {
                Some(c) => {
                    cur = apply_code(cur, c);
                },
                None => {},
            }
            proof {
                let next = done.push(piece);
                assert(next.drop_last() == done);
                done = next;
                assert(s.subrange(i + 1, i + 1) =~= Seq::<char>::empty());
            }
            ps = i + 1;
        } else {
            assert(s.subrange(ps as int, i + 1) == s.subrange(ps as int, i as int).push(
                params@[i as int],
            ));
            assert(text::split_on(s.take(i + 1), ';') =~= done.push(s.subrange(ps as int, i + 1)));
        }
        i = i + 1;
    }
    let ghost last = s.subrange(ps as int, n as int);
    match sgr_code_of(params.as_slice(), ps, n) {
        Some(c) => {
            cur = apply_code(cur, c);
        },
        None => {},
    }
    proof {
        let all = done.push(last);
        assert(all.drop_last() == done);
        assert(s.take(n as int) == s);
    }
    cur
}

/// Exec counterpart of `AnsiMode`.
enum Mode {
    Text,
    Escape,
    Csi(Vec<char>),
    Osc,
    OscEscape,
}

spec fn mode_view(m: Mode) -> AnsiMode {
    match m {
        Mode::Text => AnsiMode::Text,
        Mode::Escape => AnsiMode::Escape,
        Mode::Csi(p) => AnsiMode::Csi(p@),
        Mode::Osc => AnsiMode::Osc,
        Mode::OscEscape => AnsiMode::OscEscape,
    }
}

/// View of segments held as character vectors.
pub open spec fn segs_view(v: Seq<(Vec<char>, TermStyle)>) -> Seq<(Seq<char>, TermStyle)> {
    v.map_values(|p: (Vec<char>, TermStyle)| (p.0@, p.1))
}

/// View of segments held as strings.
pub open spec fn spans_view(v: Seq<(String, TermStyle)>) -> Seq<(Seq<char>, TermStyle)> {
    v.map_values(|p: (String, TermStyle)| (p.0@, p.1))
}

fn append_char(segs: &mut Vec<(Vec<char>, TermStyle)>, c: char, st: TermStyle)
    ensures
        segs_view(final(segs)@) == append_styled(segs_view(old(segs)@), c, st),
{
    let ghost old_view = segs_view(segs@);
    let n = segs.len();
    if n > 0 && segs[n - 1].1 == st {
        let (mut chars, s1) = segs.pop().unwrap();
        chars.push(c);
        segs.push((chars, s1));
        assert(segs_view(segs@) =~= old_view.update(n - 1, (old_view.last().0.push(c), st)));
    } else {
        let mut chars: Vec<char> = Vec::new();
        chars.push(c);
        segs.push((chars, st));
        assert(segs_view(segs@) =~= old_view.push((seq![c], st)));
    }
}

/// Splits terminal output into styled segments, interpreting ANSI SGR sequences.
pub fn parse_ansi_spans(input: &str) -> (r: Vec<(String, TermStyle)>)
    ensures
        spans_view(r@) == ansi_segments(input@),
{
    let cs = text::str_chars(input);
    let ghost s = cs@;
    let mut mode = Mode::Text;
    let mut style = plain_style();
    let mut segs: Vec<(Vec<char>, TermStyle)> = Vec::new();
    let mut i: usize = 0;
    assert(s.take(0) =~= Seq::<char>::empty());
    assert(segs_view(segs@) =~= Seq::<(Seq<char>, TermStyle)>::empty());
    while i < cs.len()
        invariant
            s == cs@,
            i <= s.len(),
            ansi_scan(s.take(i as int)) == (AnsiScan {
                mode: mode_view(mode),
                style: style,
                segments: segs_view(segs@),
            }),
        decreases s.len() - i,
    {
        let c = cs[i];
        assert(s.take(i + 1).drop_last() == s.take(i as int));
        assert(s.take(i + 1).last() == c);
        let next_mode = match mode {
            Mode::Text => {
                if c == '\u{1b}' {
                    Mode::Escape
                } else {
                    if c != '\r' {
                        append_char(&mut segs, c, style);
                    }
                    Mode::Text
                }
            },
            Mode::Escape => {
                if c == '[' {
                    Mode::Csi(Vec::new())
                } else if c == ']' {
                    Mode::Osc
                } else {
                    Mode::Text
                }
            },
            Mode::Csi(mut params) => {
                if '@' <= c && c <= '~' {
                    if c == 'm' {
                        style = apply_sgr_exec(style, &params);
                    }
                    Mode::Text
                } else {
                    params.push(c);
                    Mode::Csi(params)
                }
            },
            Mode::Osc => {
                if c == '\u{7}' {
                    Mode::Text
                } else if c == '\u{1b}' {
                    Mode::OscEscape
                } else {
                    Mode::Osc
                }
            },
            Mode::OscEscape => Mode::Text,
        };
        mode = next_mode;
        i = i + 1;
    }
    assert(s.take(s.len() as int) == s);
    let mut r: Vec<(String, TermStyle)> = Vec::new();
    let mut k: usize = 0;
    while k < segs.len()
        invariant
            k <= segs@.len(),
            r@.len() == k,
            forall|j: int| 0 <= j < k ==> (#[trigger] r@[j]).0@ == segs@[j].0@ && r@[j].1 == segs@[j].1,
        decreases segs@.len() - k,
    {
        let text_part = text::chars_to_string(segs[k].0.as_slice());
        r.push((text_part, segs[k].1));
        k = k + 1;
    }
    assert(spans_view(r@) =~= segs_view(segs@));
    r
}

} // verus!
