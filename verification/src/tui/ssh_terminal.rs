//! State of the built-in SSH terminal view: output lines, scrolling and mouse selection.

use vstd::prelude::*;

use crate::config::models::Server;
use crate::text;

verus! {

/// Connection state of the terminal view.
#[derive(Debug, Clone)]
pub enum SshStatus {
    Connecting,
    Connected,
    Error(String),
    Disconnected,
}

/// A mouse selection, from where the button went down to where it is now.
#[derive(Debug, Clone, Copy, PartialEq, Eq, Structural)]
pub struct Selection {
    pub start_row: usize,
    pub start_col: usize,
    pub end_row: usize,
    pub end_col: usize,
}

/// The terminal view of one server.
#[derive(Debug)]
pub struct SshTerminalState {
    /// Name shown in the title.
    pub server_name: String,
    /// The server.
    pub server: Option<Server>,
    /// Finished output lines.
    pub output: Vec<String>,
    /// The line being received.
    pub current_line: String,
    /// How many lines the view is scrolled up from the bottom.
    pub scroll_offset: usize,
    /// Connection state.
    pub status: SshStatus,
    /// Shell session id.
    pub session_id: Option<String>,
    /// The mouse selection.
    pub selection: Option<Selection>,
    /// Whether the mouse button is held.
    pub is_selecting: bool,
}

/// The scroll offset after scrolling up by `lines` over `n` output lines: at most
/// the first line.
pub open spec fn offset_up(offset: int, lines: int, n: int) -> int {
    let max = if n > 0 {
        n - 1
    } else {
        0
    };
    if offset + lines < max {
        offset + lines
    } else {
        max
    }
}

/// The scroll offset after scrolling down by `lines`: at least the bottom.
pub open spec fn offset_down(offset: int, lines: int) -> int {
    if offset > lines {
        offset - lines
    } else {
        0
    }
}

/// Scrolling up and then down by the same number of lines comes back to where it
/// was, as long as the way up did not reach the first line.
pub proof fn lemma_scroll_up_then_down(offset: int, lines: int, n: int)
    requires
        0 <= offset,
        0 <= lines,
        offset + lines < n,
    ensures
        offset_down(offset_up(offset, lines, n), lines) == offset,
{
}

/// The strings of a list by their characters.
pub open spec fn lines_view(v: Seq<String>) -> Seq<Seq<char>> {
    v.map_values(|s: String| s@)
}

/// Finished lines and current line after receiving `s`: `\r` and `\n` end the current
/// line (`\r\n` ends it once), backspace removes its last character, other characters
/// are appended to it.
pub open spec fn feed(out: Seq<Seq<char>>, cur: Seq<char>, s: Seq<char>) -> (Seq<Seq<char>>, Seq<char>)
    decreases s.len(),
{
    if s.len() == 0 {
        (out, cur)
    } else if s[0] == '\r' {
        if s.len() > 1 && s[1] == '\n' {
            feed(out.push(cur), Seq::empty(), s.skip(2))
        } else {
            feed(out.push(cur), Seq::empty(), s.skip(1))
        }
    } else if s[0] == '\n' {
        feed(out.push(cur), Seq::empty(), s.skip(1))
    } else if s[0] == '\x08' {
        feed(out, if cur.len() > 0 { cur.drop_last() } else { cur }, s.skip(1))
    } else {
        feed(out, cur.push(s[0]), s.skip(1))
    }
}

/// The selection with its ends in reading order: rows `(sr, er)`, columns `(sc, ec)`.
pub open spec fn ordered(sel: Selection) -> (usize, usize, usize, usize) {
    if sel.start_row <= sel.end_row {
        (sel.start_row, sel.start_col, sel.end_row, sel.end_col)
    } else {
        (sel.end_row, sel.end_col, sel.start_row, sel.start_col)
    }
}

/// Whether the cell at `row`, `col` lies in the selection.
pub open spec fn in_selection(sel: Selection, row: int, col: int) -> bool {
    let (sr, sc, er, ec) = ordered(sel);
    if row < sr || row > er {
        false
    } else if row == sr && row == er {
        sc <= col <= ec
    } else if row == sr {
        col >= sc
    } else if row == er {
        col <= ec
    } else {
        true
    }
}

/// The selected part of line `i`: from the start column on the first row, up to the
/// end column on the last row; empty when nothing of the line is selected.
pub open spec fn row_piece(line: Seq<char>, i: int, sel: Selection) -> Seq<char> {
    let (sr, sc, er, ec) = ordered(sel);
    let len = line.len() as int;
    let a = if i == sr {
        if sc < len { sc as int } else { len }
    } else {
        0
    };
    let b = if i == er {
        if ec < len { ec as int } else { len }
    } else {
        len
    };
    if a < len && b > a {
        line.subrange(a, b)
    } else {
        Seq::empty()
    }
}

/// The selected pieces of rows `sr` to `last`, the empty ones left out.
pub open spec fn pieces(lines: Seq<Seq<char>>, sel: Selection, last: int) -> Seq<Seq<char>>
    decreases last + 1 - ordered(sel).0,
{
    let sr = ordered(sel).0 as int;
    if last < sr {
        Seq::empty()
    } else {
        let rest = pieces(lines, sel, last - 1);
        let p = row_piece(lines[last], last, sel);
        if p.len() > 0 {
            rest.push(p)
        } else {
            rest
        }
    }
}

/// The last row the selection reads: its end row, at most the last line.
pub open spec fn last_row(lines: Seq<Seq<char>>, sel: Selection) -> int {
    let er = ordered(sel).2 as int;
    let top = if lines.len() > 0 { lines.len() - 1 } else { 0 };
    if er < top { er } else { top }
}

/// The selected text: the selected pieces joined by newlines; `None` when empty.
pub open spec fn selected_text(lines: Seq<Seq<char>>, selection: Option<Selection>) -> Option<Seq<char>> {
    match selection {
        Some(sel) => {
            let t = text::join_with(pieces(lines, sel, last_row(lines, sel)), seq!['\n']);
            if t.len() == 0 { None } else { Some(t) }
        },
        None => None,
    }
}

/// Lines `start..end` of the shown text, with `padding` empty lines above them, for a
/// view of `height` rows showing `total` lines scrolled up by `offset`.
pub open spec fn window(total: nat, height: nat, offset: nat) -> (nat, nat, nat) {
    let shown = if total > height { height } else { total };
    let end = if offset < total { (total - offset) as nat } else { 0 };
    let start = if shown < end { (end - shown) as nat } else { 0 };
    (start, end, (height - shown) as nat)
}

proof fn lemma_pieces_nonempty(lines: Seq<Seq<char>>, sel: Selection, last: int)
    ensures
        forall|k: int| 0 <= k < pieces(lines, sel, last).len() ==> (#[trigger] pieces(lines, sel, last)[k]).len() > 0,
    decreases last + 1 - ordered(sel).0,
{
    if last >= ordered(sel).0 {
        lemma_pieces_nonempty(lines, sel, last - 1);
        let rest = pieces(lines, sel, last - 1);
        let p = row_piece(lines[last], last, sel);
        assert(pieces(lines, sel, last) == (if p.len() > 0 {
            rest.push(p)
        } else {
            rest
        }));
        assert forall|k: int| 0 <= k < pieces(lines, sel, last).len() implies (#[trigger] pieces(
            lines,
            sel,
            last,
        )[k]).len() > 0 by {
            if p.len() > 0 && k == rest.len() {
            } else {
                assert(pieces(lines, sel, last)[k] == rest[k]);
            }
        }
    }
}

proof fn lemma_join_empty(ps: Seq<Seq<char>>)
    requires
        forall|k: int| 0 <= k < ps.len() ==> (#[trigger] ps[k]).len() > 0,
    ensures
        (text::join_with(ps, seq!['\n']).len() == 0) == (ps.len() == 0),
    decreases ps.len(),
{
    if ps.len() > 1 {
        lemma_join_empty(ps.drop_last());
    }
}

impl SshTerminalState {
    /// A view of `server`, connecting, with no output.
    pub fn new(server: Server) -> (st: SshTerminalState)
        ensures
            st.server_name == server.name,
            st.server == Some(server),
            st.output@.len() == 0,
            st.current_line@.len() == 0,
            st.scroll_offset == 0,
            st.status is Connecting,
            st.session_id is None,
            st.selection is None,
            !st.is_selecting,
    {
        let name = server.name.clone();
        SshTerminalState {
            server_name: name,
            server: Some(server),
            output: Vec::new(),
            current_line: String::new(),
            scroll_offset: 0,
            status: SshStatus::Connecting,
            session_id: None,
            selection: None,
            is_selecting: false,
        }
    }

    /// Appends a finished line.
    pub fn add_output(&mut self, line: String)
        ensures
            *final(self) == (SshTerminalState { output: final(self).output, ..*old(self) }),
            final(self).output@ == old(self).output@.push(line),
    {
        self.output.push(line);
    }

    /// Takes in text received from the shell, character by character (see `feed`).
    pub fn feed_output(&mut self, input: &str)
        ensures
            *final(self) == (SshTerminalState {
                output: final(self).output,
                current_line: final(self).current_line,
                ..*old(self)
            }),
            (lines_view(final(self).output@), final(self).current_line@) == feed(
                lines_view(old(self).output@),
                old(self).current_line@,
                input@,
            ),
    {
        let cs = text::str_chars(input);
        let n = cs.len();
        let mut cur = text::str_chars(self.current_line.as_str());
        let mut i: usize = 0;
        assert(cs@.skip(0) == cs@);
        while i < n
            invariant
                i <= n,
                n == cs@.len(),
                cs@ == input@,
                *self == (SshTerminalState { output: self.output, ..*old(self) }),
                feed(lines_view(self.output@), cur@, cs@.skip(i as int)) == feed(
                    lines_view(old(self).output@),
                    old(self).current_line@,
                    input@,
                ),
            decreases n - i,
        {
            let ghost rest = cs@.skip(i as int);
            let c = cs[i];
            assert(rest[0] == c);
            if c == '\r' || c == '\n' {
                let line = text::chars_to_string(cur.as_slice());
                let ghost before = self.output@;
                self.output.push(line);
                assert(lines_view(self.output@) =~= lines_view(before).push(cur@));
                cur = Vec::new();
                if c == '\r' && i + 1 < n && cs[i + 1] == '\n' {
                    assert(rest.skip(2) =~= cs@.skip(i + 2));
                    i = i + 2;
                } else {
                    assert(rest.skip(1) =~= cs@.skip(i + 1));
                    i = i + 1;
                }
            } else if c == '\x08' {
                let ghost before = cur@;
                if cur.len() > 0 {
                    cur.pop();
                }
                assert(rest.skip(1) =~= cs@.skip(i + 1));
                i = i + 1;
            } else {
                cur.push(c);
                assert(rest.skip(1) =~= cs@.skip(i + 1));
                i = i + 1;
            }
        }
        assert(cs@.skip(n as int) =~= Seq::<char>::empty());
        self.current_line = text::chars_to_string(cur.as_slice());
    }

    /// Moves a non-empty current line to the output.
    pub fn flush_output(&mut self)
        ensures
            old(self).current_line@.len() > 0 ==> final(self).output@ == old(self).output@.push(
                old(self).current_line,
            ) && final(self).current_line@.len() == 0 && *final(self) == (SshTerminalState {
                output: final(self).output,
                current_line: final(self).current_line,
                ..*old(self)
            }),
            old(self).current_line@.len() == 0 ==> *final(self) == *old(self),
    {
        if !self.current_line.as_str().is_empty() {
            let mut line = String::new();
            std::mem::swap(&mut line, &mut self.current_line);
            self.output.push(line);
        }
    }

    /// Marks the view connected over the session `session_id`.
    pub fn set_connected(&mut self, session_id: String)
        ensures
            *final(self) == (SshTerminalState {
                status: SshStatus::Connected,
                session_id: Some(session_id),
                ..*old(self)
            }),
    {
        self.status = SshStatus::Connected;
        self.session_id = Some(session_id);
    }

    /// Marks the view failed with `error`, and shows `Erro: ERROR` in the output.
    pub fn set_error(&mut self, error: String)
        ensures
            final(self).status matches SshStatus::Error(e) && e == error,
            final(self).output@.len() == old(self).output@.len() + 1,
            final(self).output@.drop_last() == old(self).output@,
            final(self).output@.last()@ == "Erro: "@ + error@,
            *final(self) == (SshTerminalState {
                status: final(self).status,
                output: final(self).output,
                ..*old(self)
            }),
    {
        let line = text::concat_strs("Erro: ", error.as_str());
        self.status = SshStatus::Error(error);
        let ghost before = self.output@;
        self.output.push(line);
        assert(self.output@.drop_last() == before);
    }

    /// Marks the view disconnected.
    pub fn set_disconnected(&mut self)
        ensures
            *final(self) == (SshTerminalState { status: SshStatus::Disconnected, ..*old(self) }),
    {
        self.status = SshStatus::Disconnected;
    }

    /// Scrolls up by `lines`, at most to the first output line.
    pub fn scroll_up(&mut self, lines: usize)
        requires
            old(self).scroll_offset + lines <= usize::MAX,
        ensures
            *final(self) == (SshTerminalState {
                scroll_offset: offset_up(
                    old(self).scroll_offset as int,
                    lines as int,
                    old(self).output@.len() as int,
                ) as usize,
                ..*old(self)
            }),
    {
        let len = self.output.len();
        let max = if len > 0 {
            len - 1
        } else {
            0
        };
        let wanted = self.scroll_offset + lines;
        self.scroll_offset = if wanted < max {
            wanted
        } else {
            max
        };
    }

    /// Scrolls down by `lines`, at most to the bottom.
    pub fn scroll_down(&mut self, lines: usize)
        ensures
            *final(self) == (SshTerminalState {
                scroll_offset: offset_down(old(self).scroll_offset as int, lines as int) as usize,
                ..*old(self)
            }),
    {
        self.scroll_offset = if self.scroll_offset > lines {
            self.scroll_offset - lines
        } else {
            0
        };
    }

    /// Scrolls up by a page of `page_size` lines.
    pub fn scroll_page_up(&mut self, page_size: usize)
        requires
            old(self).scroll_offset + page_size <= usize::MAX,
        ensures
            *final(self) == (SshTerminalState {
                scroll_offset: ({
                    let max = if old(self).output@.len() > 0 {
                        old(self).output@.len() - 1
                    } else {
                        0
                    };
                    if old(self).scroll_offset + page_size < max {
                        (old(self).scroll_offset + page_size) as usize
                    } else {
                        max as usize
                    }
                }),
                ..*old(self)
            }),
    {
        self.scroll_up(page_size);
    }

    /// Scrolls down by a page of `page_size` lines.
    pub fn scroll_page_down(&mut self, page_size: usize)
        ensures
            *final(self) == (SshTerminalState {
                scroll_offset: if old(self).scroll_offset > page_size {
                    (old(self).scroll_offset - page_size) as usize
                } else {
                    0
                },
                ..*old(self)
            }),
    {
        self.scroll_down(page_size);
    }

    /// Scrolls to the bottom.
    pub fn scroll_to_bottom(&mut self)
        ensures
            *final(self) == (SshTerminalState { scroll_offset: 0, ..*old(self) }),
    {
        self.scroll_offset = 0;
    }

    /// Starts a selection at `row`, `col`.
    pub fn start_selection(&mut self, row: usize, col: usize)
        ensures
            *final(self) == (SshTerminalState {
                is_selecting: true,
                selection: Some(Selection { start_row: row, start_col: col, end_row: row, end_col: col }),
                ..*old(self)
            }),
    {
        self.is_selecting = true;
        self.selection = Some(Selection { start_row: row, start_col: col, end_row: row, end_col: col });
    }

    /// Moves the end of the selection to `row`, `col`.
    pub fn update_selection(&mut self, row: usize, col: usize)
        ensures
            *final(self) == (SshTerminalState {
                selection: match old(self).selection {
                    Some(s) => Some(Selection { end_row: row, end_col: col, ..s }),
                    None => None,
                },
                ..*old(self)
            }),
    {
        if let Some(s) = self.selection {
            self.selection = Some(Selection { end_row: row, end_col: col, ..s });
        }
    }

    /// The mouse button was released.
    pub fn end_selection(&mut self)
        ensures
            *final(self) == (SshTerminalState { is_selecting: false, ..*old(self) }),
    {
        self.is_selecting = false;
    }

    /// Drops the selection.
    pub fn clear_selection(&mut self)
        ensures
            *final(self) == (SshTerminalState { selection: None, is_selecting: false, ..*old(self) }),
    {
        self.selection = None;
        self.is_selecting = false;
    }

    /// Whether the cell at `row` (an output line) and `col` is selected.
    pub fn is_selected(&self, row: usize, col: usize) -> (b: bool)
        ensures
            b == match self.selection {
                Some(sel) => in_selection(sel, row as int, col as int),
                None => false,
            },
    {
        match self.selection {
            Some(sel) => {
                let (sr, sc, er, ec) = if sel.start_row <= sel.end_row {
                    (sel.start_row, sel.start_col, sel.end_row, sel.end_col)
                } else {
                    (sel.end_row, sel.end_col, sel.start_row, sel.start_col)
                };
                if row < sr || row > er {
                    false
                } else if row == sr && row == er {
                    col >= sc && col <= ec
                } else if row == sr {
                    col >= sc
                } else if row == er {
                    col <= ec
                } else {
                    true
                }
            },
            None => false,
        }
    }

    /// The selected text, the selected part of each row joined by newlines; `None` when
    /// nothing is selected.
    pub fn get_selected_text(&self) -> (r: Option<String>)
        requires
            self.selection matches Some(sel) ==> (self.output@.len() > 0 || ordered(sel).0 > 0),
        ensures
            match selected_text(lines_view(self.output@), self.selection) {
                Some(t) => r matches Some(s) && s@ == t,
                None => r is None,
            },
    {
        let sel = match self.selection {
            Some(s) => s,
            None => {
                return None;
            },
        };
        let ghost lines = lines_view(self.output@);
        let (sr, sc, er, ec) = if sel.start_row <= sel.end_row {
            (sel.start_row, sel.start_col, sel.end_row, sel.end_col)
        } else {
            (sel.end_row, sel.end_col, sel.start_row, sel.start_col)
        };
        let len = self.output.len();
        let top = if len > 0 {
            len - 1
        } else {
            0
        };
        let last = if er < top {
            er
        } else {
            top
        };
        if sr > last {
            assert(pieces(lines, sel, last as int) == Seq::<Seq<char>>::empty());
            return None;
        }
        let mut out: Vec<char> = Vec::new();
        let mut empty = true;
        let mut i = sr;
        let ghost mut ps: Seq<Seq<char>> = Seq::empty();
        assert(ps == pieces(lines, sel, sr - 1));
        while i <= last
            invariant
                sr <= i,
                i <= last + 1,
                sr <= last,
                last < len,
                lines == lines_view(self.output@),
                len == lines.len(),
                (sr, sc, er, ec) == ordered(sel),
                last == last_row(lines, sel),
                ps == pieces(lines, sel, i - 1),
                out@ == text::join_with(ps, seq!['\n']),
                empty == (ps.len() == 0),
            decreases last + 1 - i,
        {
            let cs = text::str_chars(self.output[i].as_str());
            let ll = cs.len();
            let a = if i == sr {
                if sc < ll {
                    sc
                } else {
                    ll
                }
            } else {
                0
            };
            let b = if i == er {
                if ec < ll {
                    ec
                } else {
                    ll
                }
            } else {
                ll
            };
            proof {
                lemma_pieces_nonempty(lines, sel, i - 1);
            }
            if a < ll && b > a {
                let piece = text::sub_chars(cs.as_slice(), a, b);
                if !empty {
                    out.push('\n');
                }
                text::append_chars(&mut out, piece.as_slice());
                proof {
                    let np = ps.push(piece@);
                    assert(np.drop_last() == ps);
                    if ps.len() == 0 {
                        assert(out@ =~= text::join_with(np, seq!['\n']));
                    }
                    ps = np;
                }
                empty = false;
            }
            i = i + 1;
        }
        proof {
            lemma_pieces_nonempty(lines, sel, last as int);
            lemma_join_empty(pieces(lines, sel, last as int));
        }
        if empty {
            None
        } else {
            Some(text::chars_to_string(out.as_slice()))
        }
    }

    /// The lines the view shows: the output, the current line when not empty, and a
    /// status line for every state but `Connected`.
    pub fn display_lines(&self) -> (r: Vec<String>)
        ensures
            lines_view(r@) == lines_view(self.output@) + (if self.current_line@.len() > 0 {
                seq![self.current_line@]
            } else {
                Seq::empty()
            }) + match self.status {
                SshStatus::Connected => Seq::<Seq<char>>::empty(),
                SshStatus::Connecting => seq!["⏳ Conectando..."@],
                SshStatus::Error(_) => seq!["Pressione Ctrl+Q para voltar"@],
                SshStatus::Disconnected => seq!["○ Desconectado. Ctrl+Q para voltar."@],
            },
    {
        let mut r: Vec<String> = Vec::new();
        let mut i: usize = 0;
        while i < self.output.len()
            invariant
                i <= self.output@.len(),
                lines_view(r@) == lines_view(self.output@.take(i as int)),
            decreases self.output@.len() - i,
        {
            let ghost before = r@;
            r.push(self.output[i].clone());
            assert(lines_view(r@) =~= lines_view(before).push(self.output@[i as int]@));
            assert(lines_view(self.output@.take(i + 1)) =~= lines_view(self.output@.take(i as int)).push(
                self.output@[i as int]@,
            ));
            i = i + 1;
        }
        assert(self.output@.take(self.output@.len() as int) == self.output@);
        let ghost base = lines_view(r@);
        if !self.current_line.as_str().is_empty() {
            r.push(self.current_line.clone());
        }
        let ghost with_cur = lines_view(r@);
        assert(with_cur =~= base + (if self.current_line@.len() > 0 {
            seq![self.current_line@]
        } else {
            Seq::empty()
        }));
        match &self.status {
            SshStatus::Connected => {},
            SshStatus::Connecting => r.push("⏳ Conectando...".to_owned()),
            SshStatus::Error(_) => r.push("Pressione Ctrl+Q para voltar".to_owned()),
            SshStatus::Disconnected => r.push("○ Desconectado. Ctrl+Q para voltar.".to_owned()),
        }
        assert(lines_view(r@) =~= with_cur + match self.status {
            SshStatus::Connected => Seq::<Seq<char>>::empty(),
            SshStatus::Connecting => seq!["⏳ Conectando..."@],
            SshStatus::Error(_) => seq!["Pressione Ctrl+Q para voltar"@],
            SshStatus::Disconnected => seq!["○ Desconectado. Ctrl+Q para voltar."@],
        });
        r
    }
}

/// The lines shown by a view of `height` rows, of `total` lines scrolled up by
/// `offset`: `(start, end, padding)`, see `window`.
pub fn visible_window(total: usize, height: usize, offset: usize) -> (r: (usize, usize, usize))
    ensures
        (r.0 as nat, r.1 as nat, r.2 as nat) == window(total as nat, height as nat, offset as nat),
{
    let shown = if total > height {
        height
    } else {
        total
    };
    let end = if offset < total {
        total - offset
    } else {
        0
    };
    let start = if shown < end {
        end - shown
    } else {
        0
    };
    (start, end, height - shown)
}

} // verus!
