//! What the screens show: each line as styled spans of text. Drawing them in the
//! terminal is left to the program; the texts, icons, colours and the choice of
//! what appears are decided here.

use vstd::prelude::*;

use crate::config::models::Server;
use crate::sftp::FileInfo;
use crate::text;
use crate::tui::ansi::{Modifiers, TermColor, TermStyle};
use crate::tui::app::{App, ConfirmAction, ConfirmState, CurrentView, FormField, FormMode, FormState};
use crate::tui::help::HelpEntry;
use crate::tui::notifications::{Notification, NotificationType};
use crate::tui::sftp_browser::{
    format_size, SftpInputMode, SftpState, Side, TransferProgress, TransferState,
};
use crate::tui::ssh_terminal::{Selection, SshStatus, SshTerminalState};
use crate::tui::theme::Theme;

verus! {

/// A span's text and style.
pub open spec fn span_view(p: (String, TermStyle)) -> (Seq<char>, TermStyle) {
    (p.0@, p.1)
}

/// The texts and styles of a line of spans.
pub open spec fn spans_view(v: Seq<(String, TermStyle)>) -> Seq<(Seq<char>, TermStyle)> {
    v.map_values(|p: (String, TermStyle)| span_view(p))
}

/// The texts and styles of several lines.
pub open spec fn lines_view(v: Seq<Vec<(String, TermStyle)>>) -> Seq<Seq<(Seq<char>, TermStyle)>> {
    v.map_values(|l: Vec<(String, TermStyle)>| spans_view(l@))
}

/// Text in colour `c`.
pub open spec fn fg(c: TermColor) -> TermStyle {
    crate::tui::theme::style_of(Some(c), None, crate::tui::theme::none_mod())
}

/// Bold text in colour `c`.
pub open spec fn fg_bold(c: TermColor) -> TermStyle {
    crate::tui::theme::style_of(Some(c), None, crate::tui::theme::bold_mod())
}

/// Text with no style of its own.
pub open spec fn raw() -> TermStyle {
    crate::tui::theme::style_of(None, None, crate::tui::theme::none_mod())
}

fn fg_style(c: TermColor) -> (s: TermStyle)
    ensures
        s == fg(c),
{
    let none = Modifiers { bold: false, italic: false, underlined: false };
    TermStyle { fg: Some(c), bg: None, add_modifier: none, sub_modifier: none }
}

fn fg_bold_style(c: TermColor) -> (s: TermStyle)
    ensures
        s == fg_bold(c),
{
    let none = Modifiers { bold: false, italic: false, underlined: false };
    let bold = Modifiers { bold: true, italic: false, underlined: false };
    TermStyle { fg: Some(c), bg: None, add_modifier: bold, sub_modifier: none }
}

fn raw_style() -> (s: TermStyle)
    ensures
        s == raw(),
{
    let none = Modifiers { bold: false, italic: false, underlined: false };
    TermStyle { fg: None, bg: None, add_modifier: none, sub_modifier: none }
}

/// Appends a span.
fn push_span(v: &mut Vec<(String, TermStyle)>, text: String, style: TermStyle)
    ensures
        spans_view(final(v)@) == spans_view(old(v)@).push((text@, style)),
{
    let ghost before = v@;
    let ghost t = text@;
    v.push((text, style));
    assert(spans_view(v@) =~= spans_view(before).push((t, style)));
}

/// Appends a span with literal text.
fn push_lit(v: &mut Vec<(String, TermStyle)>, text: &str, style: TermStyle)
    ensures
        spans_view(final(v)@) == spans_view(old(v)@).push((text@, style)),
{
    push_span(v, text.to_owned(), style);
}

// ---------------------------------------------------------------- server list

/// The number of tags shown on a server's line.
pub const MAX_TAGS: usize = 5;

/// The colour behind a tag.
pub open spec fn tag_background() -> TermColor {
    TermColor::Magenta
}

/// The spans of tags: each between spaces, in bold black on the tag colour.
pub open spec fn tag_spans(tags: Seq<Seq<char>>) -> Seq<(Seq<char>, TermStyle)> {
    tags.map_values(
        |t: Seq<char>|
            (
                seq![' '] + t + seq![' '],
                crate::tui::theme::style_of(
                    Some(TermColor::Black),
                    Some(tag_background()),
                    crate::tui::theme::bold_mod(),
                ),
            ),
    )
}

/// A server's line in the list: pin, name, host and port, at most `MAX_TAGS` tags,
/// and how many tags are not shown.
pub open spec fn server_spans(s: Server) -> Seq<(Seq<char>, TermStyle)> {
    let tags = text::string_views(s.tags@);
    let shown = if tags.len() > MAX_TAGS {
        tags.take(MAX_TAGS as int)
    } else {
        tags
    };
    seq![
        (if s.pinned { "📌 "@ } else { "   "@ }, if s.pinned { fg(TermColor::Yellow) } else { fg(TermColor::White) }),
        (s.name@, fg_bold(TermColor::Cyan)),
        (" → "@, fg(TermColor::Gray)),
        (s.host@, fg(TermColor::White)),
        (":"@, fg(TermColor::Gray)),
        (text::decimal(s.port as nat), fg(TermColor::Blue)),
    ] + tag_spans(shown) + if tags.len() > MAX_TAGS {
        seq![(" +"@ + text::decimal((tags.len() - MAX_TAGS) as nat), fg(TermColor::Gray))]
    } else {
        Seq::empty()
    }
}

/// A server's line in the list.
pub fn server_line(s: &Server) -> (r: Vec<(String, TermStyle)>)
    ensures
        spans_view(r@) == server_spans(*s),
{
    let mut r: Vec<(String, TermStyle)> = Vec::new();
    if s.pinned {
        push_lit(&mut r, "📌 ", fg_style(Theme::warning()));
    } else {
        push_lit(&mut r, "   ", fg_style(Theme::text()));
    }
    push_span(&mut r, s.name.clone(), fg_bold_style(Theme::primary()));
    push_lit(&mut r, " → ", fg_style(Theme::text_dim()));
    push_span(&mut r, s.host.clone(), fg_style(Theme::text()));
    push_lit(&mut r, ":", fg_style(Theme::text_dim()));
    push_span(&mut r, text::u64_to_decimal(s.port as u64), fg_style(Theme::secondary()));
    let ghost head = spans_view(r@);
    let ghost tags = text::string_views(s.tags@);
    let n = s.tags.len();
    let shown_n = if n > MAX_TAGS {
        MAX_TAGS
    } else {
        n
    };
    let tag_style = TermStyle {
        fg: Some(TermColor::Black),
        bg: Some(Theme::accent()),
        add_modifier: Modifiers { bold: true, italic: false, underlined: false },
        sub_modifier: Modifiers { bold: false, italic: false, underlined: false },
    };
    let mut i: usize = 0;
    while i < shown_n
        invariant
            i <= shown_n <= n,
            n == s.tags@.len(),
            tags == text::string_views(s.tags@),
            tag_style == crate::tui::theme::style_of(
                Some(TermColor::Black),
                Some(tag_background()),
                crate::tui::theme::bold_mod(),
            ),
            spans_view(r@) == head + tag_spans(tags.take(i as int)),
        decreases shown_n - i,
    {
        let ghost before = spans_view(r@);
        let mut t: Vec<char> = Vec::new();
        t.push(' ');
        let tv = text::str_chars(s.tags[i].as_str());
        text::append_chars(&mut t, tv.as_slice());
        t.push(' ');
        assert(tags[i as int] == s.tags@[i as int]@);
        assert(t@ =~= seq![' '] + tags[i as int] + seq![' ']);
        push_span(&mut r, text::chars_to_string(t.as_slice()), tag_style);
        assert(tags.take(i + 1) =~= tags.take(i as int).push(tags[i as int]));
        assert(tag_spans(tags.take(i + 1)) =~= tag_spans(tags.take(i as int)).push(
            (seq![' '] + tags[i as int] + seq![' '], tag_style),
        ));
        assert(spans_view(r@) =~= head + tag_spans(tags.take(i + 1)));
        i = i + 1;
    }
    proof {
        if n <= MAX_TAGS {
            assert(tags.take(n as int) =~= tags);
        }
    }
    if n > MAX_TAGS {
        let extra = text::u64_to_decimal((n - MAX_TAGS) as u64);
        push_span(&mut r, text::concat_strs(" +", extra.as_str()), fg_style(Theme::text_dim()));
    }
    proof {
        reveal_strlit(" +");
    }
    r
}

// ---------------------------------------------------------------- file panes

/// A file's line in a pane: icon, name and, for a file, its size. A marked file
/// shows the direction it would travel: up from the local pane, down from the
/// remote one.
pub open spec fn file_spans(f: FileInfo, marked: bool, local: bool) -> Seq<(Seq<char>, TermStyle)> {
    let (icon, style) = if f.is_dir {
        ("/ "@, fg(TermColor::Cyan))
    } else if marked {
        if local {
            ("↑ "@, fg_bold(TermColor::Green))
        } else {
            ("↓ "@, fg_bold(TermColor::Blue))
        }
    } else {
        ("  "@, fg(TermColor::White))
    };
    seq![
        (icon, style),
        (f.name@, style),
        if f.is_dir {
            (Seq::empty(), raw())
        } else {
            (" ("@ + crate::tui::sftp_browser::size_text(f.size as nat) + ")"@, fg(TermColor::Gray))
        },
    ]
}

/// A file's line in a pane.
pub fn file_line(f: &FileInfo, marked: bool, local: bool) -> (r: Vec<(String, TermStyle)>)
    ensures
        spans_view(r@) == file_spans(*f, marked, local),
{
    let (icon, style) = if f.is_dir {
        ("/ ", fg_style(Theme::primary()))
    } else if marked {
        if local {
            ("↑ ", fg_bold_style(TermColor::Green))
        } else {
            ("↓ ", fg_bold_style(TermColor::Blue))
        }
    } else {
        ("  ", fg_style(Theme::text()))
    };
    let mut r: Vec<(String, TermStyle)> = Vec::new();
    push_lit(&mut r, icon, style);
    push_span(&mut r, f.name.clone(), style);
    if f.is_dir {
        push_span(&mut r, String::new(), raw_style());
    } else {
        let size = format_size(f.size);
        let a = text::concat_strs(" (", size.as_str());
        push_span(&mut r, text::concat_strs(a.as_str(), ")"), fg_style(Theme::text_dim()));
    }
    proof {
        reveal_strlit("/ ");
        reveal_strlit("↑ ");
        reveal_strlit("↓ ");
        reveal_strlit("  ");
    }
    r
}

/// Whether `i` is among the marks.
fn is_marked(marks: &Vec<usize>, i: usize) -> (b: bool)
    ensures
        b == marks@.contains(i),
{
    let mut k: usize = 0;
    while k < marks.len()
        invariant
            k <= marks@.len(),
            forall|j: int| 0 <= j < k ==> marks@[j] != i,
        decreases marks.len() - k,
    {
        if marks[k] == i {
            return true;
        }
        k = k + 1;
    }
    false
}

/// The lines of a pane: each entry with its mark.
pub open spec fn pane_spans(files: Seq<FileInfo>, marks: Seq<usize>, local: bool) -> Seq<Seq<(Seq<char>, TermStyle)>> {
    Seq::new(files.len(), |i: int| file_spans(files[i], marks.contains(i as usize), local))
}

/// The title of a pane: which side, its directory, and whether it has the focus.
pub open spec fn pane_title_text(local: bool, dir: Seq<char>, focused: bool) -> Seq<char> {
    (if local { " [L] Local: "@ } else { " [R] Remote: "@ }) + dir + " "@ + if focused { "[FOCUS]"@ } else { Seq::empty() }
}

/// The title and lines of one pane of the browser.
pub fn pane_view(state: &SftpState, side: Side) -> (r: (String, Vec<Vec<(String, TermStyle)>>))
    ensures
        r.0@ == (match side {
            Side::Local => pane_title_text(true, state.local.current_dir@, state.focus_side == Side::Local),
            Side::Remote => pane_title_text(false, state.remote_path@, state.focus_side == Side::Remote),
        }),
        lines_view(r.1@) == (match side {
            Side::Local => pane_spans(state.local_files@, state.local_selected_files@, true),
            Side::Remote => pane_spans(state.remote_files@, state.remote_selected_files@, false),
        }),
{
    let local = matches!(side, Side::Local);
    let focused = match (side, state.focus_side) {
        (Side::Local, Side::Local) => true,
        (Side::Remote, Side::Remote) => true,
        _ => false,
    };
    let (files, marks, dir) = if local {
        (&state.local_files, &state.local_selected_files, state.local.current_dir.as_str())
    } else {
        (&state.remote_files, &state.remote_selected_files, state.remote_path.as_str())
    };
    let head = if local {
        " [L] Local: "
    } else {
        " [R] Remote: "
    };
    let t1 = text::concat_strs(head, dir);
    let t2 = text::concat_strs(t1.as_str(), " ");
    let title = text::concat_strs(t2.as_str(), if focused { "[FOCUS]" } else { "" });
    proof {
        reveal_strlit("");
        assert(""@ =~= Seq::<char>::empty());
    }
    let mut lines: Vec<Vec<(String, TermStyle)>> = Vec::new();
    let mut i: usize = 0;
    while i < files.len()
        invariant
            i <= files@.len(),
            lines@.len() == i,
            forall|k: int| 0 <= k < i ==> spans_view((#[trigger] lines@[k])@) == file_spans(files@[k], marks@.contains(k as usize), local),
        decreases files.len() - i,
    {
        let m = is_marked(marks, i);
        lines.push(file_line(&files[i], m, local));
        i = i + 1;
    }
    assert(lines_view(lines@) =~= pane_spans(files@, marks@, local));
    (title, lines)
}

// ---------------------------------------------------------------- panels

/// A bordered box: its title, the styles of the title and border, the colour that
/// fills it (none: transparent), and its lines.
pub struct Panel {
    pub title: String,
    pub title_style: TermStyle,
    pub border_style: TermStyle,
    pub fill: Option<TermColor>,
    pub lines: Vec<Vec<(String, TermStyle)>>,
}

/// `n` written with at least two digits (`{:02}`).
pub open spec fn two_digits(n: nat) -> Seq<char> {
    if n < 10 {
        seq!['0'] + text::decimal(n)
    } else {
        text::decimal(n)
    }
}

/// A duration in seconds as minutes and seconds, `MM:SS`.
pub open spec fn minutes_seconds(secs: nat) -> Seq<char> {
    two_digits(secs / 60) + seq![':'] + two_digits(secs % 60)
}

/// A duration in seconds as hours, minutes and seconds, `HH:MM:SS`.
pub open spec fn hours_minutes_seconds(secs: nat) -> Seq<char> {
    two_digits(secs / 3600) + seq![':'] + two_digits((secs % 3600) / 60) + seq![':'] + two_digits(
        secs % 60,
    )
}

fn push_two_digits(out: &mut Vec<char>, n: u64)
    ensures
        final(out)@ == old(out)@ + two_digits(n as nat),
{
    let ghost before = out@;
    if n < 10 {
        out.push('0');
    }
    let ghost mid = out@;
    text::push_decimal(out, n);
    if n < 10 {
        assert(out@ =~= before + two_digits(n as nat));
    } else {
        assert(out@ =~= before + two_digits(n as nat));
    }
}

/// A duration in seconds as `MM:SS`.
pub fn minutes_seconds_text(secs: u64) -> (r: String)
    ensures
        r@ == minutes_seconds(secs as nat),
{
    let mut v: Vec<char> = Vec::new();
    push_two_digits(&mut v, secs / 60);
    v.push(':');
    push_two_digits(&mut v, secs % 60);
    assert(v@ =~= minutes_seconds(secs as nat));
    text::chars_to_string(v.as_slice())
}

/// A duration in seconds as `HH:MM:SS`.
pub fn hours_minutes_seconds_text(secs: u64) -> (r: String)
    ensures
        r@ == hours_minutes_seconds(secs as nat),
{
    let mut v: Vec<char> = Vec::new();
    push_two_digits(&mut v, secs / 3600);
    v.push(':');
    push_two_digits(&mut v, (secs % 3600) / 60);
    v.push(':');
    push_two_digits(&mut v, secs % 60);
    assert(v@ =~= hours_minutes_seconds(secs as nat));
    text::chars_to_string(v.as_slice())
}

/// The SFTP status line while a transfer runs: what it does and for how long.
pub open spec fn transfer_spans(progress: Option<TransferProgress>, elapsed: nat) -> Seq<(Seq<char>, TermStyle)> {
    let (action, color) = match progress {
        Some(p) => if p.is_upload {
            ("Enviando"@, TermColor::Green)
        } else {
            ("Baixando"@, TermColor::Cyan)
        },
        None => ("Transferindo"@, TermColor::Yellow),
    };
    seq![
        (" ⏳ "@ + action + "... "@, fg_bold(color)),
        (minutes_seconds(elapsed), fg_bold(TermColor::White)),
        (" (barra de progresso em breve)"@, fg(TermColor::Gray)),
    ]
}

/// The SFTP status line otherwise: how many entries are marked and what to do
/// with them, or the keys of the browser.
pub open spec fn selection_spans(count: nat) -> Seq<(Seq<char>, TermStyle)> {
    let bar = ("| "@, fg(TermColor::Gray));
    if count > 0 {
        seq![
            (" "@ + text::decimal(count) + " selecionado(s) "@, fg_bold(TermColor::Green)),
            bar,
            ("Space "@, fg(TermColor::Cyan)),
            bar,
            ("a: todos "@, fg(TermColor::Cyan)),
            bar,
            ("u/d "@, fg(TermColor::Green)),
        ]
    } else {
        seq![
            (" Tab "@, fg(TermColor::Cyan)),
            bar,
            ("Enter "@, fg(TermColor::Green)),
            bar,
            ("M/x/R/m "@, fg(TermColor::Cyan)),
            bar,
            ("b/B: bookmark "@, fg(TermColor::Blue)),
            bar,
            ("u/d "@, fg(TermColor::Green)),
            bar,
            ("q"@, fg(TermColor::Red)),
        ]
    }
}

/// The number of entries marked in the focused pane.
pub open spec fn marked_count(state: SftpState) -> nat {
    match state.focus_side {
        Side::Local => state.local_selected_files@.len(),
        Side::Remote => state.remote_selected_files@.len(),
    }
}

/// The SFTP status box: the running transfer, `elapsed` seconds after it began,
/// or the marked entries and keys.
pub fn sftp_status_panel(state: &SftpState, elapsed: u64) -> (p: Panel)
    ensures
        state.transfer_state is Transferring ==> p.title@ == " Transferindo "@ && p.title_style
            == fg_bold(TermColor::Yellow) && p.border_style == fg(TermColor::Yellow) && p.fill is None && lines_view(p.lines@)
            == seq![transfer_spans(state.transfer_progress, elapsed as nat)],
        state.transfer_state is Idle ==> p.title@ == " SFTP "@ && p.title_style == fg_bold(TermColor::Cyan)
            && p.border_style == fg(TermColor::Blue) && p.fill is None && lines_view(p.lines@) == seq![
            selection_spans(marked_count(*state)),
        ],
{
    let mut line: Vec<(String, TermStyle)> = Vec::new();
    let transferring = match &state.transfer_state {
        TransferState::Transferring { .. } => true,
        TransferState::Idle => false,
    };
    if transferring {
        let (action, color) = match &state.transfer_progress {
            Some(p) => if p.is_upload {
                ("Enviando", Theme::success())
            } else {
                ("Baixando", Theme::primary())
            },
            None => ("Transferindo", Theme::warning()),
        };
        let a = text::concat_strs(" ⏳ ", action);
        push_span(&mut line, text::concat_strs(a.as_str(), "... "), fg_bold_style(color));
        push_span(&mut line, minutes_seconds_text(elapsed), fg_bold_style(Theme::text()));
        push_lit(&mut line, " (barra de progresso em breve)", fg_style(Theme::text_dim()));
        proof {
            reveal_strlit("Enviando");
            reveal_strlit("Baixando");
            reveal_strlit("Transferindo");
        }
        assert(spans_view(line@) =~= transfer_spans(state.transfer_progress, elapsed as nat));
        let mut lines: Vec<Vec<(String, TermStyle)>> = Vec::new();
        lines.push(line);
        assert(lines_view(lines@) =~= seq![transfer_spans(state.transfer_progress, elapsed as nat)]);
        Panel {
            title: " Transferindo ".to_owned(),
            title_style: fg_bold_style(Theme::warning()),
            border_style: fg_style(Theme::warning()),
            fill: None,
            lines,
        }
    } else {
        let count = match state.focus_side {
            Side::Local => state.local_selected_files.len(),
            Side::Remote => state.remote_selected_files.len(),
        };
        let bar_style = fg_style(Theme::text_dim());
        if count > 0 {
            let n = text::u64_to_decimal(count as u64);
            let a = text::concat_strs(" ", n.as_str());
            push_span(&mut line, text::concat_strs(a.as_str(), " selecionado(s) "), fg_bold_style(Theme::success()));
            push_lit(&mut line, "| ", bar_style);
            push_lit(&mut line, "Space ", fg_style(Theme::primary()));
            push_lit(&mut line, "| ", bar_style);
            push_lit(&mut line, "a: todos ", fg_style(Theme::primary()));
            push_lit(&mut line, "| ", bar_style);
            push_lit(&mut line, "u/d ", fg_style(Theme::success()));
        } else {
            push_lit(&mut line, " Tab ", fg_style(Theme::primary()));
            push_lit(&mut line, "| ", bar_style);
            push_lit(&mut line, "Enter ", fg_style(Theme::success()));
            push_lit(&mut line, "| ", bar_style);
            push_lit(&mut line, "M/x/R/m ", fg_style(Theme::primary()));
            push_lit(&mut line, "| ", bar_style);
            push_lit(&mut line, "b/B: bookmark ", fg_style(Theme::secondary()));
            push_lit(&mut line, "| ", bar_style);
            push_lit(&mut line, "u/d ", fg_style(Theme::success()));
            push_lit(&mut line, "| ", bar_style);
            push_lit(&mut line, "q", fg_style(Theme::error()));
        }
        assert(spans_view(line@) =~= selection_spans(marked_count(*state)));
        let mut lines: Vec<Vec<(String, TermStyle)>> = Vec::new();
        lines.push(line);
        assert(lines_view(lines@) =~= seq![selection_spans(marked_count(*state))]);
        Panel {
            title: " SFTP ".to_owned(),
            title_style: Theme::title_style(),
            border_style: Theme::border_style(),
            fill: None,
            lines,
        }
    }
}

/// The title of the input box of a mode.
pub open spec fn input_title(mode: SftpInputMode) -> Seq<char> {
    match mode {
        SftpInputMode::Mkdir => " Criar pasta "@,
        SftpInputMode::Rename => " Renomear "@,
        SftpInputMode::Chmod => " Permissões "@,
        SftpInputMode::Bookmark => " Salvar bookmark "@,
        SftpInputMode::Inactive => Seq::empty(),
    }
}

/// What the input box of a mode shows while nothing is typed.
pub open spec fn input_placeholder(mode: SftpInputMode) -> Seq<char> {
    match mode {
        SftpInputMode::Mkdir => "Nome da pasta..."@,
        SftpInputMode::Rename => "Novo nome..."@,
        SftpInputMode::Chmod => "755"@,
        SftpInputMode::Bookmark => "Nome do bookmark..."@,
        SftpInputMode::Inactive => Seq::empty(),
    }
}

/// The SFTP input box: its title, and the typed text after two spaces, or the
/// placeholder while nothing is typed. None when no input is active.
pub fn sftp_input_panel(state: &SftpState) -> (r: Option<Panel>)
    ensures
        r is Some <==> !(state.input_mode is Inactive),
        r matches Some(p) ==> p.title@ == input_title(state.input_mode) && p.title_style
            == fg_bold(TermColor::Magenta) && p.border_style == fg_bold(TermColor::Magenta) && p.fill is None && lines_view(
            p.lines@,
        ) == seq![
            seq![
                ("  "@, raw()),
                if state.input_buffer@.len() == 0 {
                    (input_placeholder(state.input_mode), fg(TermColor::Gray))
                } else {
                    (state.input_buffer@, fg(TermColor::White))
                },
            ],
        ],
{
    let (title, placeholder) = match state.input_mode {
        SftpInputMode::Mkdir => (" Criar pasta ", "Nome da pasta..."),
        SftpInputMode::Rename => (" Renomear ", "Novo nome..."),
        SftpInputMode::Chmod => (" Permissões ", "755"),
        SftpInputMode::Bookmark => (" Salvar bookmark ", "Nome do bookmark..."),
        SftpInputMode::Inactive => {
            return None;
        },
    };
    let mut line: Vec<(String, TermStyle)> = Vec::new();
    push_lit(&mut line, "  ", raw_style());
    if state.input_buffer.as_str().is_empty() {
        push_lit(&mut line, placeholder, fg_style(Theme::text_dim()));
    } else {
        push_span(&mut line, state.input_buffer.clone(), fg_style(Theme::text()));
    }
    proof {
        reveal_strlit(" Criar pasta ");
        reveal_strlit(" Renomear ");
        reveal_strlit(" Permissões ");
        reveal_strlit(" Salvar bookmark ");
        reveal_strlit("Nome da pasta...");
        reveal_strlit("Novo nome...");
        reveal_strlit("755");
        reveal_strlit("Nome do bookmark...");
    }
    let ghost expected = seq![
        ("  "@, raw()),
        if state.input_buffer@.len() == 0 {
            (input_placeholder(state.input_mode), fg(TermColor::Gray))
        } else {
            (state.input_buffer@, fg(TermColor::White))
        },
    ];
    assert(spans_view(line@) =~= expected);
    assert(title@ == input_title(state.input_mode));
    let mut lines: Vec<Vec<(String, TermStyle)>> = Vec::new();
    lines.push(line);
    let p = Panel {
        title: title.to_owned(),
        title_style: Theme::modal_title_style(),
        border_style: Theme::modal_border_style(),
        fill: None,
        lines,
    };
    assert(lines_view(p.lines@) =~= seq![spans_view(p.lines@[0]@)]);
    Some(p)
}

// ---------------------------------------------------------------- status bar

/// The name of a view in the status bar.
pub open spec fn view_name(v: CurrentView) -> Seq<char> {
    match v {
        CurrentView::ServerList => "ServerList"@,
        CurrentView::SshTerminal => "SSH"@,
        CurrentView::SftpBrowser => "SFTP"@,
    }
}

/// The two lines of the status bar: program, view, time since start (`uptime`
/// seconds) and the time of day `now`; then the view's key hints.
pub open spec fn status_bar_spans(v: CurrentView, uptime: nat, now: Seq<char>) -> Seq<Seq<(Seq<char>, TermStyle)>> {
    let sep = ("│"@, fg(TermColor::Gray));
    seq![
        seq![
            (" LazySSH v0.1.0 "@, fg_bold(TermColor::Cyan)),
            sep,
            (" "@ + view_name(v) + " "@, fg(TermColor::Blue)),
            sep,
            (" "@ + hours_minutes_seconds(uptime) + " "@, fg(TermColor::Gray)),
            sep,
            (" "@ + now + " "@, fg(TermColor::Gray)),
        ],
        seq![(" "@ + crate::tui::help::footer_for(v) + " "@, fg(TermColor::Gray))],
    ]
}

/// `s` between spaces.
fn spaced(s: &str) -> (r: String)
    ensures
        r@ == " "@ + s@ + " "@,
{
    let a = text::concat_strs(" ", s);
    text::concat_strs(a.as_str(), " ")
}

/// The lines of the status bar, `uptime` seconds after the start, at the time of
/// day `now`.
pub fn status_bar_lines(v: &CurrentView, uptime: u64, now: &str) -> (r: Vec<Vec<(String, TermStyle)>>)
    ensures
        lines_view(r@) == status_bar_spans(*v, uptime as nat, now@),
{
    let name = match v {
        CurrentView::ServerList => "ServerList",
        CurrentView::SshTerminal => "SSH",
        CurrentView::SftpBrowser => "SFTP",
    };
    proof {
        reveal_strlit("ServerList");
        reveal_strlit("SSH");
        reveal_strlit("SFTP");
    }
    let mut first: Vec<(String, TermStyle)> = Vec::new();
    push_lit(&mut first, " LazySSH v0.1.0 ", fg_bold_style(Theme::primary()));
    push_lit(&mut first, "│", fg_style(Theme::text_dim()));
    push_span(&mut first, spaced(name), fg_style(Theme::secondary()));
    push_lit(&mut first, "│", fg_style(Theme::text_dim()));
    let up = hours_minutes_seconds_text(uptime);
    push_span(&mut first, spaced(up.as_str()), fg_style(Theme::text_dim()));
    push_lit(&mut first, "│", fg_style(Theme::text_dim()));
    push_span(&mut first, spaced(now), fg_style(Theme::text_dim()));
    let mut second: Vec<(String, TermStyle)> = Vec::new();
    let footer = crate::tui::help::footer_hint_for_view(v);
    push_span(&mut second, spaced(footer.as_str()), fg_style(Theme::text_dim()));
    let ghost e = status_bar_spans(*v, uptime as nat, now@);
    assert(spans_view(first@) =~= e[0]);
    assert(spans_view(second@) =~= e[1]);
    let mut r: Vec<Vec<(String, TermStyle)>> = Vec::new();
    r.push(first);
    r.push(second);
    assert(lines_view(r@) =~= e);
    r
}

// ---------------------------------------------------------------- notifications

/// The icon and colour of a kind of notification.
pub open spec fn notice_icon(t: NotificationType) -> (Seq<char>, TermColor) {
    match t {
        NotificationType::Info => ("ℹ"@, TermColor::Cyan),
        NotificationType::Success => ("✓"@, TermColor::Green),
        NotificationType::Warning => ("⚠"@, TermColor::Yellow),
        NotificationType::Error => ("✗"@, TermColor::Red),
    }
}

/// A notification's line: icon and message in its colour, then the seconds left.
pub open spec fn notification_spans(n: Notification, remaining: nat) -> Seq<(Seq<char>, TermStyle)> {
    let (icon, c) = notice_icon(n.notification_type);
    seq![
        (icon + " "@, fg(c)),
        (n.message@, fg(c)),
        (" ("@ + text::decimal(remaining) + "s)"@, fg(TermColor::Gray)),
    ]
}

/// A notification's line, with `remaining` seconds left.
pub fn notification_line(n: &Notification, remaining: u64) -> (r: Vec<(String, TermStyle)>)
    ensures
        spans_view(r@) == notification_spans(*n, remaining as nat),
{
    let (icon, c) = match n.notification_type {
        NotificationType::Info => ("ℹ", Theme::primary()),
        NotificationType::Success => ("✓", Theme::success()),
        NotificationType::Warning => ("⚠", Theme::warning()),
        NotificationType::Error => ("✗", Theme::error()),
    };
    let mut r: Vec<(String, TermStyle)> = Vec::new();
    push_span(&mut r, text::concat_strs(icon, " "), fg_style(c));
    push_span(&mut r, n.message.clone(), fg_style(c));
    let secs = text::u64_to_decimal(remaining);
    let a = text::concat_strs(" (", secs.as_str());
    push_span(&mut r, text::concat_strs(a.as_str(), "s)"), Theme::dim_style());
    r
}

/// The box of notifications: its lines, titled, filled black.
pub fn notifications_panel(lines: Vec<Vec<(String, TermStyle)>>) -> (p: Panel)
    ensures
        p.title@ == " 🔔 Notificações "@,
        p.title_style == fg_bold(TermColor::Cyan),
        p.border_style == fg(TermColor::Blue),
        p.fill == Some(TermColor::Black),
        p.lines@ == lines@,
{
    Panel {
        title: " 🔔 Notificações ".to_owned(),
        title_style: Theme::title_style(),
        border_style: Theme::border_style(),
        fill: Some(TermColor::Black),
        lines,
    }
}

/// `a - b`, or 0 where `b` is larger.
pub open spec fn sat_sub(a: int, b: int) -> int {
    if a > b {
        a - b
    } else {
        0
    }
}

/// The smaller of two numbers.
pub open spec fn min_of(a: int, b: int) -> int {
    if a < b {
        a
    } else {
        b
    }
}

/// Where the notifications box of `count` lines goes in the area `(x, y, w, h)`:
/// near the top right corner, at most 40 wide, shrunk to fit.
pub open spec fn notification_area(x: int, y: int, w: int, h: int, count: int) -> (int, int, int, int) {
    let pw = min_of(40, sat_sub(w, 4));
    let ph = min_of(count + 2, sat_sub(h, 4));
    (x + sat_sub(w, pw + 2), y + 2, pw, ph)
}

/// Where the notifications box of `count` lines goes in the area `(x, y, w, h)`.
pub fn notification_popup(x: u16, y: u16, w: u16, h: u16, count: u16) -> (r: (u16, u16, u16, u16))
    requires
        x + w <= u16::MAX,
        y + 2 <= u16::MAX,
        count + 2 <= u16::MAX,
    ensures
        (r.0 as int, r.1 as int, r.2 as int, r.3 as int) == notification_area(
            x as int,
            y as int,
            w as int,
            h as int,
            count as int,
        ),
{
    let avail_w = w.saturating_sub(4);
    let pw = if 40 < avail_w {
        40
    } else {
        avail_w
    };
    let avail_h = h.saturating_sub(4);
    let ph = if count + 2 < avail_h {
        count + 2
    } else {
        avail_h
    };
    (x + w.saturating_sub(pw + 2), y + 2, pw, ph)
}

// ---------------------------------------------------------------- help modal

/// The name of a view in the title of its help.
pub open spec fn help_view_name(v: CurrentView) -> Seq<char> {
    match v {
        CurrentView::ServerList => "Lista de Servidores"@,
        CurrentView::SshTerminal => "Terminal SSH"@,
        CurrentView::SftpBrowser => "Navegador SFTP"@,
    }
}

/// `s` filled with spaces on the right to `w` characters (`{:<w}`).
pub open spec fn pad_right(s: Seq<char>, w: nat) -> Seq<char> {
    if s.len() < w {
        s + Seq::new((w - s.len()) as nat, |i: int| ' ')
    } else {
        s
    }
}

/// A help line: the key, in a column of 16, then what it does.
pub open spec fn help_entry_spans(key: Seq<char>, desc: Seq<char>) -> Seq<(Seq<char>, TermStyle)> {
    seq![("  "@ + pad_right(key, 16), fg_bold(TermColor::Cyan)), (desc, fg(TermColor::White))]
}

/// The help lines of a view's key bindings.
pub open spec fn help_spans(entries: Seq<(Seq<char>, Seq<char>)>) -> Seq<Seq<(Seq<char>, TermStyle)>> {
    entries.map_values(|e: (Seq<char>, Seq<char>)| help_entry_spans(e.0, e.1))
}

/// The help window of a view: its key bindings, titled with the view's name.
pub fn help_panel(v: &CurrentView) -> (p: Panel)
    ensures
        p.title@ == "── Atalhos — "@ + help_view_name(*v) + " ──"@,
        p.title_style == fg_bold(TermColor::Magenta),
        p.border_style == fg_bold(TermColor::Magenta),
        p.fill is None,
        lines_view(p.lines@) == help_spans(crate::tui::help::help_for(*v)),
{
    let entries = crate::tui::help::help_entries_for_view(v);
    let name = match v {
        CurrentView::ServerList => "Lista de Servidores",
        CurrentView::SshTerminal => "Terminal SSH",
        CurrentView::SftpBrowser => "Navegador SFTP",
    };
    proof {
        reveal_strlit("Lista de Servidores");
        reveal_strlit("Terminal SSH");
        reveal_strlit("Navegador SFTP");
    }
    let a = text::concat_strs("── Atalhos — ", name);
    let title = text::concat_strs(a.as_str(), " ──");
    let ghost ev = crate::tui::help::entries_view(entries@);
    let mut lines: Vec<Vec<(String, TermStyle)>> = Vec::new();
    let mut i: usize = 0;
    while i < entries.len()
        invariant
            i <= entries@.len(),
            ev == crate::tui::help::entries_view(entries@),
            lines@.len() == i,
            forall|k: int| 0 <= k < i ==> spans_view((#[trigger] lines@[k])@) == help_entry_spans(ev[k].0, ev[k].1),
        decreases entries.len() - i,
    {
        let mut key: Vec<char> = Vec::new();
        key.push(' ');
        key.push(' ');
        let kc = text::str_chars(entries[i].key.as_str());
        text::append_chars(&mut key, kc.as_slice());
        let mut pad: usize = kc.len();
        let ghost pre = key@;
        while pad < 16
            invariant
                kc@.len() <= pad <= 16 || (pad == kc@.len() && pad >= 16),
                key@ == pre + Seq::new((pad - kc@.len()) as nat, |j: int| ' '),
            decreases 16 - pad,
        {
            key.push(' ');
            pad = pad + 1;
            assert(key@ =~= pre + Seq::new((pad - kc@.len()) as nat, |j: int| ' '));
        }
        assert(key@ =~= seq![' ', ' '] + pad_right(ev[i as int].0, 16));
        let mut line: Vec<(String, TermStyle)> = Vec::new();
        push_span(&mut line, text::chars_to_string(key.as_slice()), fg_bold_style(Theme::primary()));
        push_span(&mut line, entries[i].desc.clone(), fg_style(Theme::text()));
        proof {
            reveal_strlit("  ");
            assert("  "@ =~= seq![' ', ' ']);
        }
        assert(spans_view(line@) =~= help_entry_spans(ev[i as int].0, ev[i as int].1));
        lines.push(line);
        i = i + 1;
    }
    assert(lines_view(lines@) =~= help_spans(ev));
    Panel {
        title,
        title_style: Theme::modal_title_style(),
        border_style: Theme::modal_border_style(),
        fill: None,
        lines,
    }
}

/// Where a box of `w` by `h` goes to stand in the middle of an area of `aw` by
/// `ah`; a box larger than the area starts at its edge.
pub open spec fn centered(aw: int, ah: int, w: int, h: int) -> (int, int) {
    (sat_sub(aw, w) / 2, sat_sub(ah, h) / 2)
}

/// Where a box of `w` by `h` goes to stand in the middle of an area of `aw` by `ah`.
pub fn centered_origin(aw: u16, ah: u16, w: u16, h: u16) -> (r: (u16, u16))
    ensures
        (r.0 as int, r.1 as int) == centered(aw as int, ah as int, w as int, h as int),
{
    (aw.saturating_sub(w) / 2, ah.saturating_sub(h) / 2)
}

// ---------------------------------------------------------------- confirmation

/// The question of a confirmation dialog.
pub open spec fn confirm_question(c: ConfirmState) -> Seq<char> {
    match c.action {
        ConfirmAction::DeleteServer { name } => "Remover servidor '"@ + name@ + "'?"@,
    }
}

/// The confirmation dialog: the question and the two answers, filled black.
pub fn confirm_panel(c: &ConfirmState) -> (p: Panel)
    ensures
        p.title@ == " ⚠ Confirmação "@,
        p.title_style == fg_bold(TermColor::Magenta),
        p.border_style == fg_bold(TermColor::Magenta),
        p.fill == Some(TermColor::Black),
        lines_view(p.lines@) == seq![
            Seq::<(Seq<char>, TermStyle)>::empty(),
            seq![("  "@ + confirm_question(*c) + "  "@, fg_bold(TermColor::White))],
            Seq::<(Seq<char>, TermStyle)>::empty(),
            seq![("  Enter:Confirmar  "@, fg(TermColor::Green)), ("│  Esc:Cancelar"@, fg(TermColor::Red))],
        ],
{
    let q = match &c.action {
        ConfirmAction::DeleteServer { name } => {
            let a = text::concat_strs("Remover servidor '", name.as_str());
            text::concat_strs(a.as_str(), "'?")
        },
    };
    let a = text::concat_strs("  ", q.as_str());
    let mut ask: Vec<(String, TermStyle)> = Vec::new();
    push_span(&mut ask, text::concat_strs(a.as_str(), "  "), fg_bold_style(Theme::text()));
    let mut answers: Vec<(String, TermStyle)> = Vec::new();
    push_lit(&mut answers, "  Enter:Confirmar  ", fg_style(Theme::success()));
    push_lit(&mut answers, "│  Esc:Cancelar", fg_style(Theme::error()));
    let ghost e = seq![
        Seq::<(Seq<char>, TermStyle)>::empty(),
        seq![("  "@ + confirm_question(*c) + "  "@, fg_bold(TermColor::White))],
        Seq::<(Seq<char>, TermStyle)>::empty(),
        seq![("  Enter:Confirmar  "@, fg(TermColor::Green)), ("│  Esc:Cancelar"@, fg(TermColor::Red))],
    ];
    assert(spans_view(ask@) =~= e[1]);
    assert(spans_view(answers@) =~= e[3]);
    let blank1: Vec<(String, TermStyle)> = Vec::new();
    let blank2: Vec<(String, TermStyle)> = Vec::new();
    assert(spans_view(blank1@) =~= e[0]);
    assert(spans_view(blank2@) =~= e[2]);
    let mut lines: Vec<Vec<(String, TermStyle)>> = Vec::new();
    lines.push(blank1);
    lines.push(ask);
    lines.push(blank2);
    lines.push(answers);
    assert(lines_view(lines@) =~= e);
    Panel {
        title: " ⚠ Confirmação ".to_owned(),
        title_style: Theme::modal_title_style(),
        border_style: Theme::modal_border_style(),
        fill: Some(TermColor::Black),
        lines,
    }
}

/// The lines of the server list: the shown servers, in order (an index past the
/// end of the servers shows nothing).
pub open spec fn server_list_spans(servers: Seq<Server>, shown: Seq<usize>) -> Seq<Seq<(Seq<char>, TermStyle)>>
    decreases shown.len(),
{
    if shown.len() == 0 {
        Seq::empty()
    } else {
        let rest = server_list_spans(servers, shown.drop_last());
        if shown.last() < servers.len() {
            rest.push(server_spans(servers[shown.last() as int]))
        } else {
            rest
        }
    }
}

/// The lines of the server list.
pub fn server_list_lines(app: &App) -> (r: Vec<Vec<(String, TermStyle)>>)
    ensures
        lines_view(r@) == server_list_spans(app.servers@, app.filtered_indices@),
{
    let mut r: Vec<Vec<(String, TermStyle)>> = Vec::new();
    let mut i: usize = 0;
    while i < app.filtered_indices.len()
        invariant
            i <= app.filtered_indices@.len(),
            lines_view(r@) == server_list_spans(app.servers@, app.filtered_indices@.take(i as int)),
        decreases app.filtered_indices.len() - i,
    {
        let k = app.filtered_indices[i];
        let ghost before = r@;
        assert(app.filtered_indices@.take(i + 1).drop_last() =~= app.filtered_indices@.take(i as int));
        if k < app.servers.len() {
            r.push(server_line(&app.servers[k]));
            assert(lines_view(r@) =~= lines_view(before).push(server_spans(app.servers@[k as int])));
        }
        i = i + 1;
    }
    assert(app.filtered_indices@.take(i as int) =~= app.filtered_indices@);
    r
}

// ---------------------------------------------------------------- form

/// A line of the form: the marker of the focused field, the label, the value.
pub open spec fn form_row(active: bool, label: Seq<char>, value: Seq<char>) -> Seq<(Seq<char>, TermStyle)> {
    seq![
        (if active { "▶ "@ } else { "  "@ }, fg(TermColor::Magenta)),
        (label, fg(TermColor::Blue)),
        (value, if active { fg_bold(TermColor::Cyan) } else { fg(TermColor::White) }),
    ]
}

/// A line of `n` rule characters.
pub open spec fn rule(n: nat) -> Seq<char> {
    Seq::new(n, |i: int| '─')
}

/// The width of the form window.
pub const FORM_WIDTH: u16 = 50;

/// The lines of the add/edit form: title and rule, the fields (key path and
/// passphrase for key authentication, the password otherwise), and the keys.
pub open spec fn form_spans(f: FormState) -> Seq<Seq<(Seq<char>, TermStyle)>> {
    let key = crate::tui::app::form_uses_key(f);
    let title = if f.mode is Insert {
        "  ➕ Novo Servidor  "@
    } else {
        "  ✏️ Editar Servidor  "@
    };
    let auth_active = f.field == FormField::AuthType;
    let auth_row = form_row(auth_active, "🔐 Auth: "@, "["@ + (if key { "key"@ } else { "password"@ }) + "]"@) + if auth_active {
        seq![(" ← →"@, fg(TermColor::Gray))]
    } else {
        Seq::empty()
    };
    let secret_rows = if key {
        seq![
            form_row(f.field == FormField::KeyPath, "🔑 Chave: "@, f.key_path@),
            form_row(f.field == FormField::Passphrase, "🔑 Senha: "@, f.passphrase@),
        ]
    } else {
        seq![form_row(f.field == FormField::Password, "🔑 Senha: "@, f.password@)]
    };
    seq![
        seq![(title, fg_bold(TermColor::Magenta))],
        seq![(rule((FORM_WIDTH - 2) as nat), raw())],
        form_row(f.field == FormField::Name, "📝 Nome: "@, f.name@),
        form_row(f.field == FormField::Host, "🌐 Host: "@, f.host@),
        form_row(f.field == FormField::Port, "🔌 Porta: "@, f.port@),
        form_row(f.field == FormField::User, "👤 Usuário: "@, f.user@),
        auth_row,
    ] + secret_rows + seq![
        form_row(
            f.field == FormField::Tags,
            "🏷️ Tags: "@,
            if f.tags@.len() == 0 { " (nenhuma)"@ } else { f.tags@ },
        ),
        Seq::empty(),
        seq![("  ↑/↓/Tab: próximo campo  "@, fg(TermColor::Gray)), ("│  Esc: cancelar"@, fg(TermColor::Red))],
        seq![("  Enter: salvar (no último campo)  "@, fg(TermColor::Green))],
    ]
}

/// A line of the form.
fn form_line(active: bool, label: &str, value: &str) -> (r: Vec<(String, TermStyle)>)
    ensures
        spans_view(r@) == form_row(active, label@, value@),
{
    let mut r: Vec<(String, TermStyle)> = Vec::new();
    push_lit(&mut r, if active { "▶ " } else { "  " }, fg_style(Theme::accent()));
    push_lit(&mut r, label, fg_style(Theme::secondary()));
    push_lit(&mut r, value, if active { fg_bold_style(Theme::primary()) } else { fg_style(Theme::text()) });
    r
}

/// Whether two form fields are the same.
fn same_field(a: FormField, b: FormField) -> (r: bool)
    ensures
        r == (a == b),
{
    a == b
}

/// The add/edit form window: its lines, with no title, filled black.
pub fn form_panel(f: &FormState) -> (p: Panel)
    ensures
        p.title@ == Seq::<char>::empty(),
        p.border_style == fg_bold(TermColor::Magenta),
        p.fill == Some(TermColor::Black),
        lines_view(p.lines@) == form_spans(*f),
{
    let key = f.is_key_auth();
    let ghost e = form_spans(*f);
    let mut lines: Vec<Vec<(String, TermStyle)>> = Vec::new();
    let mut head: Vec<(String, TermStyle)> = Vec::new();
    let insert = matches!(f.mode, FormMode::Insert);
    push_lit(
        &mut head,
        if insert { "  ➕ Novo Servidor  " } else { "  ✏️ Editar Servidor  " },
        fg_bold_style(Theme::accent()),
    );
    lines.push(head);
    let mut bar: Vec<char> = Vec::new();
    let mut k: usize = 0;
    while k < 48
        invariant
            k <= 48,
            bar@ == rule(k as nat),
        decreases 48 - k,
    {
        bar.push('─');
        k = k + 1;
        assert(bar@ =~= rule(k as nat));
    }
    let mut rule_line: Vec<(String, TermStyle)> = Vec::new();
    push_span(&mut rule_line, text::chars_to_string(bar.as_slice()), raw_style());
    lines.push(rule_line);
    lines.push(form_line(same_field(f.field, FormField::Name), "📝 Nome: ", f.name.as_str()));
    lines.push(form_line(same_field(f.field, FormField::Host), "🌐 Host: ", f.host.as_str()));
    lines.push(form_line(same_field(f.field, FormField::Port), "🔌 Porta: ", f.port.as_str()));
    lines.push(form_line(same_field(f.field, FormField::User), "👤 Usuário: ", f.user.as_str()));
    let auth_active = same_field(f.field, FormField::AuthType);
    let mut auth = form_line(auth_active, "🔐 Auth: ", if key { "[key]" } else { "[password]" });
    if auth_active {
        push_lit(&mut auth, " ← →", fg_style(Theme::text_dim()));
    }
    proof {
        reveal_strlit("[key]");
        reveal_strlit("[password]");
        reveal_strlit("key");
        reveal_strlit("password");
        reveal_strlit("[");
        reveal_strlit("]");
        assert("[key]"@ =~= "["@ + "key"@ + "]"@);
        assert("[password]"@ =~= "["@ + "password"@ + "]"@);
    }
    lines.push(auth);
    if key {
        lines.push(form_line(same_field(f.field, FormField::KeyPath), "🔑 Chave: ", f.key_path.as_str()));
        lines.push(form_line(same_field(f.field, FormField::Passphrase), "🔑 Senha: ", f.passphrase.as_str()));
    } else {
        lines.push(form_line(same_field(f.field, FormField::Password), "🔑 Senha: ", f.password.as_str()));
    }
    let no_tags = f.tags.as_str().is_empty();
    lines.push(form_line(same_field(f.field, FormField::Tags), "🏷️ Tags: ", if no_tags { " (nenhuma)" } else { f.tags.as_str() }));
    let blank: Vec<(String, TermStyle)> = Vec::new();
    assert(spans_view(blank@) =~= Seq::<(Seq<char>, TermStyle)>::empty());
    lines.push(blank);
    let mut keys: Vec<(String, TermStyle)> = Vec::new();
    push_lit(&mut keys, "  ↑/↓/Tab: próximo campo  ", fg_style(Theme::text_dim()));
    push_lit(&mut keys, "│  Esc: cancelar", fg_style(Theme::error()));
    lines.push(keys);
    let mut save: Vec<(String, TermStyle)> = Vec::new();
    push_lit(&mut save, "  Enter: salvar (no último campo)  ", fg_style(Theme::success()));
    lines.push(save);
    proof {
        reveal_strlit("  ➕ Novo Servidor  ");
        reveal_strlit("  ✏️ Editar Servidor  ");
    }
    assert(lines_view(lines@).len() == e.len());
    assert forall|k: int| 0 <= k < e.len() implies lines_view(lines@)[k] == e[k] by {
        assert(lines_view(lines@)[k] == spans_view(lines@[k]@));
    }
    assert(lines_view(lines@) =~= e);
    Panel {
        title: String::new(),
        title_style: raw_style(),
        border_style: Theme::modal_border_style(),
        fill: Some(TermColor::Black),
        lines,
    }
}

/// The size of the form window: 50 wide, and tall enough for its fields.
pub fn form_size(f: &FormState) -> (r: (u16, u16))
    ensures
        r == (FORM_WIDTH, if crate::tui::app::form_uses_key(*f) { 16u16 } else { 14u16 }),
{
    (FORM_WIDTH, if f.is_key_auth() { 16 } else { 14 })
}

// ---------------------------------------------------------------- terminal

/// The title text of a terminal state.
pub open spec fn status_caption(st: SshStatus) -> Seq<char> {
    match st {
        SshStatus::Connecting => "⏳ Conectando..."@,
        SshStatus::Connected => "✓ Conectado"@,
        SshStatus::Error(e) => e@,
        SshStatus::Disconnected => "○ Desconectado"@,
    }
}

/// The colour of a terminal state.
pub open spec fn status_color(st: SshStatus) -> TermColor {
    match st {
        SshStatus::Connecting => TermColor::Yellow,
        SshStatus::Connected => TermColor::Green,
        SshStatus::Error(_) => TermColor::Red,
        SshStatus::Disconnected => TermColor::Gray,
    }
}

/// What the title tells of scrolling and selection: `↑n` while scrolled up,
/// `📋` while text is selected.
pub open spec fn indicator_text(offset: nat, selecting: bool) -> Seq<char> {
    if offset > 0 && selecting {
        " [↑"@ + text::decimal(offset) + " 📋]"@
    } else if offset > 0 {
        " [↑"@ + text::decimal(offset) + "]"@
    } else if selecting {
        " [📋]"@
    } else {
        Seq::empty()
    }
}

/// The title of the terminal view: server, state, and the indicators.
pub open spec fn terminal_title_text(st: SshTerminalState) -> Seq<char> {
    " 🖥 "@ + st.server_name@ + " ["@ + status_caption(st.status) + "]"@ + indicator_text(
        st.scroll_offset as nat,
        st.selection is Some,
    ) + " "@
}

/// The title of the terminal view and its style, bold in the colour of the state.
pub fn terminal_title(st: &SshTerminalState) -> (r: (String, TermStyle))
    ensures
        r.0@ == terminal_title_text(*st),
        r.1 == fg_bold(status_color(st.status)),
{
    let (caption, color) = match &st.status {
        SshStatus::Connecting => ("⏳ Conectando...".to_owned(), Theme::warning()),
        SshStatus::Connected => ("✓ Conectado".to_owned(), Theme::success()),
        SshStatus::Error(e) => (e.clone(), Theme::error()),
        SshStatus::Disconnected => ("○ Desconectado".to_owned(), Theme::text_dim()),
    };
    let mut ind: Vec<char> = Vec::new();
    let selecting = st.selection.is_some();
    if st.scroll_offset > 0 || selecting {
        ind.push(' ');
        ind.push('[');
        if st.scroll_offset > 0 {
            ind.push('↑');
            text::push_decimal(&mut ind, st.scroll_offset as u64);
            if selecting {
                ind.push(' ');
            }
        }
        if selecting {
            ind.push('📋');
        }
        ind.push(']');
    }
    proof {
        reveal_strlit(" [↑");
        reveal_strlit(" 📋]");
        reveal_strlit("]");
        reveal_strlit(" [📋]");
    }
    assert(ind@ =~= indicator_text(st.scroll_offset as nat, st.selection is Some));
    let a = text::concat_strs(" 🖥 ", st.server_name.as_str());
    let b = text::concat_strs(a.as_str(), " [");
    let c = text::concat_strs(b.as_str(), caption.as_str());
    let d = text::concat_strs(c.as_str(), "]");
    let i = text::chars_to_string(ind.as_slice());
    let e = text::concat_strs(d.as_str(), i.as_str());
    let title = text::concat_strs(e.as_str(), " ");
    (title, fg_bold_style(color))
}

} // verus!

verus! {

// ---------------------------------------------------------------- terminal lines

/// The style of a selected terminal cell: black on white.
pub open spec fn selected_cell() -> TermStyle {
    crate::tui::theme::style_of(
        Some(TermColor::Black),
        Some(TermColor::White),
        crate::tui::theme::none_mod(),
    )
}

fn selected_cell_style() -> (s: TermStyle)
    ensures
        s == selected_cell(),
{
    let none = Modifiers { bold: false, italic: false, underlined: false };
    TermStyle {
        fg: Some(TermColor::Black),
        bg: Some(TermColor::White),
        add_modifier: none,
        sub_modifier: none,
    }
}

/// Whether the cell at `row` and `col` lies in the selection, if there is one.
pub open spec fn cell_selected(sel: Option<Selection>, row: int, col: int) -> bool {
    match sel {
        Some(s) => crate::tui::ssh_terminal::in_selection(s, row, col),
        None => false,
    }
}

/// The characters of styled segments, in order, each with its segment's style.
pub open spec fn styled_chars(segs: Seq<(Seq<char>, TermStyle)>) -> Seq<(char, TermStyle)>
    decreases segs.len(),
{
    if segs.len() == 0 {
        Seq::empty()
    } else {
        styled_chars(segs.drop_last()) + segs.last().0.map_values(|c: char| (c, segs.last().1))
    }
}

/// One span per character on terminal row `row`, the `j`-th character in column `j`:
/// black on white where the cell is selected, in the character's own style elsewhere.
pub open spec fn cell_spans(sel: Option<Selection>, row: int, cells: Seq<(char, TermStyle)>) -> Seq<
    (Seq<char>, TermStyle),
> {
    Seq::new(
        cells.len(),
        |j: int|
            (
                seq![cells[j].0],
                if cell_selected(sel, row, j) {
                    selected_cell()
                } else {
                    cells[j].1
                },
            ),
    )
}

/// Segments that show nothing: none at all, or a single one without text.
pub open spec fn blank_segments(segs: Seq<(Seq<char>, TermStyle)>) -> bool {
    segs.len() == 0 || (segs.len() == 1 && segs[0].0.len() == 0)
}

/// The spans of output line `line` shown on terminal row `row`: its ANSI-styled
/// characters one span each (see `cell_spans`), and, for a line that shows nothing,
/// a single unstyled space so that the row can still be selected.
pub open spec fn terminal_line(sel: Option<Selection>, row: int, line: Seq<char>) -> Seq<
    (Seq<char>, TermStyle),
> {
    let segs = crate::tui::ansi::ansi_segments(line);
    cell_spans(sel, row, styled_chars(segs)) + if blank_segments(segs) {
        seq![(seq![' '], raw())]
    } else {
        Seq::empty()
    }
}

/// The spans of output line `line` on terminal row `row`, with the selection of `st`
/// shown black on white.
pub fn terminal_line_spans(st: &SshTerminalState, row: usize, line: &str) -> (r: Vec<
    (String, TermStyle),
>)
    ensures
        spans_view(r@) == terminal_line(st.selection, row as int, line@),
{
    let segs = crate::tui::ansi::parse_ansi_spans(line);
    let ghost sv = crate::tui::ansi::spans_view(segs@);
    let mut out: Vec<(String, TermStyle)> = Vec::new();
    let mut k: usize = 0;
    assert(sv.take(0) =~= Seq::<(Seq<char>, TermStyle)>::empty());
    assert(spans_view(out@) =~= cell_spans(st.selection, row as int, styled_chars(sv.take(0))));
    while k < segs.len()
        invariant
            sv == crate::tui::ansi::spans_view(segs@),
            k <= segs@.len(),
            spans_view(out@) == cell_spans(st.selection, row as int, styled_chars(sv.take(k as int))),
        decreases segs@.len() - k,
    {
        let chars = text::str_chars(segs[k].0.as_str());
        let style = segs[k].1;
        let ghost before = styled_chars(sv.take(k as int));
        let ghost mapped = chars@.map_values(|c: char| (c, style));
        assert(sv[k as int] == (chars@, style));
        let mut j: usize = 0;
        assert(mapped.take(0) =~= Seq::<(char, TermStyle)>::empty());
        assert(before + mapped.take(0) =~= before);
        while j < chars.len()
            invariant
                j <= chars@.len(),
                mapped == chars@.map_values(|c: char| (c, style)),
                spans_view(out@) == cell_spans(st.selection, row as int, before + mapped.take(j as int)),
            decreases chars@.len() - j,
        {
            let c = chars[j];
            let ghost prev = before + mapped.take(j as int);
            assert(out@.len() == spans_view(out@).len());
            let selected = st.is_selected(row, out.len());
            let mut s = String::new();
            text::string_push(&mut s, c);
            proof {
                assert(s@ =~= seq![c]);
            }
            let cell_style = if selected {
                selected_cell_style()
            } else {
                style
            };
            push_span(&mut out, s, cell_style);
            assert(before + mapped.take(j + 1) =~= prev.push((c, style)));
            assert(spans_view(out@) =~= cell_spans(st.selection, row as int, prev.push((c, style))));
            j = j + 1;
        }
        assert(mapped.take(chars@.len() as int) =~= mapped);
        assert(sv.take(k + 1).drop_last() =~= sv.take(k as int));
        assert(sv.take(k + 1).last() == sv[k as int]);
        assert(sv[k as int].0.map_values(|c: char| (c, sv[k as int].1)) =~= mapped);
        assert(styled_chars(sv.take(k + 1)) == before + mapped);
        k = k + 1;
    }
    assert(sv.take(segs@.len() as int) =~= sv);
    let ghost cells = spans_view(out@);
    let blank = segs.len() == 0 || (segs.len() == 1 && segs[0].0.as_str().is_empty());
    assert(blank == blank_segments(sv));
    if blank {
        proof {
            reveal_strlit(" ");
            assert(" "@ =~= seq![' ']);
        }
        push_lit(&mut out, " ", raw_style());
        assert(spans_view(out@) =~= cells + seq![(seq![' '], raw())]);
    } else {
        assert(spans_view(out@) =~= cells + Seq::<(Seq<char>, TermStyle)>::empty());
    }
    out
}

} // verus!
