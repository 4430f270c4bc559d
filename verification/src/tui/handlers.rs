//! What keys and mouse events do to the interface, and how the outside work they ask for
//! is taken back into the state.
//!
//! A handler changes the `App` and returns a `HandlerResult`; when the key asks for work
//! outside the library (files, network, clipboard, terminal), the result carries an
//! `Effect`. The interface loop performs it and hands the `Outcome` to `complete_effect`,
//! which may ask for a further effect.

use vstd::prelude::*;

use crate::config::models::Server;
use crate::text;
use crate::tui::app::{
    App, ConfirmAction, ConfirmState, CurrentView, Effect, FormField, FormMode, FormState,
    InputMode, Outcome, Overlay,
};
use crate::tui::notifications::NotificationType;
use crate::sftp::FileInfo;
use crate::tui::app::TransferJob;
use crate::tui::sftp_browser::{Side, SftpState};

verus! {

/// A key, as the handlers see it.
#[derive(Debug, Clone, Copy, PartialEq, Eq, Structural)]
pub enum Key {
    Char(char),
    Enter,
    Esc,
    Tab,
    Backspace,
    Delete,
    Left,
    Right,
    Up,
    Down,
    Home,
    End,
    /// Any other key.
    Other,
}

/// Kind of a mouse event, as the handlers see it.
#[derive(Debug, Clone, Copy, PartialEq, Eq, Structural)]
pub enum MouseKind {
    ScrollUp,
    ScrollDown,
    LeftDown,
    RightDown,
    /// Any other mouse event.
    Other,
}

/// A mouse event: its kind and the screen row it happened on.
#[derive(Debug, Clone, Copy, PartialEq, Eq, Structural)]
pub struct Mouse {
    pub kind: MouseKind,
    pub row: u16,
}

/// What the interface loop does after a handler.
#[derive(Debug)]
pub enum HandlerResult {
    /// Nothing special: go on.
    Continue,
    /// End the interface.
    Quit,
    /// Hand an SSH session to this server over to the terminal.
    ConnectSsh(Server),
    /// Perform this outside work, then report its outcome to `complete_effect`.
    Perform(Effect),
}

/// With the help window open, `Esc` or `?` closes it; every key is taken by it.
pub fn handle_help_key(app: &mut App, key: Key) -> (taken: bool)
    ensures
        taken == (old(app).overlay == Some(Overlay::Help)),
        *final(app) == (App {
            overlay: if taken && (key == Key::Esc || key == Key::Char('?')) {
                None
            } else {
                old(app).overlay
            },
            ..*old(app)
        }),
{
    if app.overlay == Some(Overlay::Help) {
        if key == Key::Esc || key == Key::Char('?') {
            app.overlay = None;
        }
        return true;
    }
    false
}

/// `?` opens the help window, except while a server form is being typed in.
pub fn handle_global_keys(app: &mut App, key: Key) -> (taken: bool)
    ensures
        taken == (key == Key::Char('?') && old(app).input_mode != InputMode::Insert
            && old(app).input_mode != InputMode::Edit),
        *final(app) == (App {
            overlay: if taken {
                Some(Overlay::Help)
            } else {
                old(app).overlay
            },
            ..*old(app)
        }),
{
    if key == Key::Char('?') && app.input_mode != InputMode::Insert && app.input_mode
        != InputMode::Edit {
        app.overlay = Some(Overlay::Help);
        return true;
    }
    false
}

/// `b` is `a` with the servers matching `q` shown and the cursor on the first.
pub open spec fn refiltered(a: App, b: App, q: Seq<char>) -> bool {
    &&& b == (App { filtered_indices: b.filtered_indices, selected: 0, ..a })
    &&& b.filtered_indices@ == crate::tui::app::shown_indices(a.servers@, q)
}

/// `s` with its last character removed, if it has one.
pub open spec fn chars_pop(s: Seq<char>) -> Seq<char> {
    if s.len() > 0 {
        s.drop_last()
    } else {
        s
    }
}

/// Removes the last character of a string, if it has one.
fn string_pop(s: &mut String)
    ensures
        final(s)@ == chars_pop(old(s)@),
{
    let cs = text::str_chars(s.as_str());
    if cs.len() > 0 {
        let kept = text::sub_chars(cs.as_slice(), 0, cs.len() - 1);
        *s = text::chars_to_string(kept.as_slice());
        assert(cs@.subrange(0, cs@.len() - 1) =~= cs@.drop_last());
    }
}

/// Effect of a key in search mode: `Enter` keeps the query, `Esc` drops it, other
/// characters and `Backspace` edit it; the shown servers follow the query.
pub open spec fn search_step(a: App, key: Key, b: App, r: HandlerResult) -> bool {
    match key {
        Key::Enter => b == (App { input_mode: InputMode::Normal, ..a }) && r matches HandlerResult::Perform(
            Effect::HideCursor,
        ),
        Key::Esc => {
            &&& r matches HandlerResult::Perform(Effect::HideCursor)
            &&& b.input@.len() == 0
            &&& refiltered(App { input_mode: InputMode::Normal, input: b.input, ..a }, b, Seq::empty())
        },
        Key::Char(c) => r is Continue && refiltered(
            App { input: b.input, ..a },
            b,
            a.input@.push(c),
        ) && b.input@ == a.input@.push(c),
        Key::Backspace => r is Continue && refiltered(App { input: b.input, ..a }, b, chars_pop(a.input@))
            && b.input@ == chars_pop(a.input@),
        _ => r is Continue && b == a,
    }
}

fn search_key(app: &mut App, key: Key) -> (r: HandlerResult)
    ensures
        search_step(*old(app), key, *final(app), r),
{
    match key {
        Key::Enter => {
            app.input_mode = InputMode::Normal;
            HandlerResult::Perform(Effect::HideCursor)
        },
        Key::Esc => {
            app.input_mode = InputMode::Normal;
            app.input = String::new();
            app.filter("");
            proof {
                reveal_strlit("");
                assert(""@ =~= Seq::<char>::empty());
            }
            HandlerResult::Perform(Effect::HideCursor)
        },
        Key::Char(c) => {
            text::string_push(&mut app.input, c);
            let q = app.input.clone();
            app.filter(q.as_str());
            HandlerResult::Continue
        },
        Key::Backspace => {
            string_pop(&mut app.input);
            let q = app.input.clone();
            app.filter(q.as_str());
            HandlerResult::Continue
        },
        _ => HandlerResult::Continue,
    }
}

/// Removes every server named `name`.
fn remove_named(servers: &mut Vec<Server>, name: &str)
    ensures
        final(servers)@ == crate::config::file::without_name(old(servers)@, name@),
{
    let mut src: Vec<Server> = Vec::new();
    std::mem::swap(&mut src, servers);
    let ghost orig = src@;
    let total = src.len();
    let mut kept: Vec<Server> = Vec::new();
    let mut n: usize = 0;
    assert(orig.skip(0) == orig);
    while src.len() > 0
        invariant
            n <= orig.len(),
            orig.len() == total,
            src@.len() == orig.len() - n,
            src@ == orig.skip(n as int),
            kept@ == crate::config::file::without_name(orig.take(n as int), name@),
        decreases src@.len(),
    {
        let x = src.remove(0);
        proof {
            assert(orig.take(n + 1).drop_last() == orig.take(n as int));
            assert(orig.take(n + 1).last() == x);
            assert(orig.skip(n + 1) == orig.skip(n as int).drop_first());
        }
        if !text::str_eq(x.name.as_str(), name) {
            kept.push(x);
        }
        n = n + 1;
    }
    assert(orig.take(orig.len() as int) == orig);
    *servers = kept;
}

/// `e` writes a configuration of `servers` without ordering setting, then does nothing
/// more.
pub open spec fn saves_plain(e: Effect, servers: Seq<Server>) -> bool {
    e matches Effect::SaveConfig { config, then } && then is None
        && crate::config::models::same_servers(config.servers@, servers) && config.sort_by is None
}

/// `e` writes a configuration of `servers` without ordering setting, then shows a
/// success notification with text `msg`.
pub open spec fn saves_then_success(e: Effect, servers: Seq<Server>, msg: Seq<char>) -> bool {
    e matches Effect::SaveConfig { config, then } && crate::config::models::same_servers(
        config.servers@,
        servers,
    ) && config.sort_by is None && (then matches Some(t) && *t matches Effect::Notify {
        kind,
        message,
    } && kind == NotificationType::Success && message@ == msg)
}

/// Effect of a key while a deletion waits for confirmation: `Enter` deletes every server
/// with the name, `Esc` cancels.
pub open spec fn confirm_step(a: App, key: Key, b: App, r: HandlerResult) -> bool {
    match key {
        Key::Enter => match a.confirm_state {
            Some(cs) => match cs.action {
                ConfirmAction::DeleteServer { name } => {
                    let kept = crate::config::file::without_name(a.servers@, name@);
                    &&& b.servers@ == kept
                    &&& b.filtered_indices@ == crate::tui::app::shown_indices(kept, a.input@)
                    &&& crate::tui::notifications::notifies(
                        a.notifications,
                        b.notifications,
                        NotificationType::Success,
                        "Servidor '"@ + name@ + "' removido."@,
                    )
                    &&& r matches HandlerResult::Perform(e) && saves_plain(e, kept)
                    &&& b == (App {
                        servers: b.servers,
                        filtered_indices: b.filtered_indices,
                        selected: 0,
                        notifications: b.notifications,
                        confirm_state: None,
                        input_mode: InputMode::Normal,
                        ..a
                    })
                },
            },
            None => r is Continue && b == (App { input_mode: InputMode::Normal, ..a }),
        },
        Key::Esc => r is Continue && b == (App {
            confirm_state: None,
            input_mode: InputMode::Normal,
            ..a
        }),
        _ => r is Continue && b == a,
    }
}

fn confirm_key(app: &mut App, key: Key) -> (r: HandlerResult)
    requires
        old(app).wf(),
    ensures
        final(app).wf(),
        confirm_step(*old(app), key, *final(app), r),
{
    match key {
        Key::Enter => {
            let mut r = HandlerResult::Continue;
            let taken = app.confirm_state.take();
            if let Some(cs) = taken {
                match cs.action {
                    ConfirmAction::DeleteServer { name } => {
                        remove_named(&mut app.servers, name.as_str());
                        let q = app.input.clone();
                        app.filter(q.as_str());
                        let m1 = text::concat_strs("Servidor '", name.as_str());
                        let msg = text::concat_strs(m1.as_str(), "' removido.");
                        app.notifications.success(msg.as_str());
                        let config = crate::tui::app::config_from(&app.servers, &None);
                        r = HandlerResult::Perform(Effect::SaveConfig { config, then: None });
                    },
                }
            }
            app.input_mode = InputMode::Normal;
            r
        },
        Key::Esc => {
            app.confirm_state = None;
            app.input_mode = InputMode::Normal;
            HandlerResult::Continue
        },
        _ => HandlerResult::Continue,
    }
}

/// `user@host:port` of a server.
pub open spec fn address_text(s: Server) -> Seq<char> {
    s.user@ + seq!['@'] + s.host@ + seq![':'] + text::decimal(s.port as nat)
}

/// Effect of a key in the server list's normal mode.
pub open spec fn normal_step(a: App, key: Key, b: App, r: HandlerResult) -> bool {
    let sel = a.selection();
    match key {
        Key::Char(c) => if c == 'q' {
            r is Quit && b == a
        } else if c == 'O' {
            r is Continue && crate::tui::app::sort_cycled(a, b)
        } else if c == 'j' {
            r is Continue && b == crate::tui::app::moved_down(a)
        } else if c == 'k' {
            r is Continue && b == crate::tui::app::moved_up(a)
        } else if c == '/' {
            r matches HandlerResult::Perform(Effect::ShowCursor) && b == (App {
                input_mode: InputMode::Search,
                input: b.input,
                ..a
            }) && b.input@.len() == 0
        } else if c == 'a' {
            r is Continue && b == (App {
                form_state: b.form_state,
                input_mode: InputMode::Insert,
                ..a
            }) && (b.form_state matches Some(f) && crate::tui::app::is_insert_form(f))
        } else if c == 'i' {
            r matches HandlerResult::Perform(Effect::ReadSshConfig) && b == a
        } else if c == 't' {
            match sel {
                Some(i) => {
                    let s = a.servers@[i];
                    &&& r matches HandlerResult::Perform(Effect::TestConnection { name, host, port })
                        && name == s.name && host == s.host && port == s.port
                    &&& crate::tui::notifications::notifies(
                        a.notifications,
                        b.notifications,
                        NotificationType::Info,
                        "Testando conexão "@ + s.name@ + "..."@,
                    )
                    &&& b == (App { notifications: b.notifications, ..a })
                },
                None => r is Continue && b == a,
            }
        } else if c == 'e' {
            match sel {
                Some(i) => r is Continue && b == (App {
                    form_state: b.form_state,
                    input_mode: InputMode::Edit,
                    ..a
                }) && (b.form_state matches Some(f) && crate::tui::app::is_edit_form(
                    f,
                    a.servers@[i],
                    i as usize,
                )),
                None => r is Continue && b == a,
            }
        } else if c == 'p' {
            match sel {
                Some(i) => {
                    let s = a.servers@[i];
                    let servers = a.servers@.update(i, Server { pinned: !s.pinned, ..s });
                    &&& b.servers@ == servers
                    &&& crate::tui::notifications::notifies(
                        a.notifications,
                        b.notifications,
                        NotificationType::Success,
                        if !s.pinned {
                            "Servidor fixado!"@
                        } else {
                            "Servidor desafixado!"@
                        },
                    )
                    &&& r matches HandlerResult::Perform(e) && saves_plain(e, servers)
                    &&& b == (App { servers: b.servers, notifications: b.notifications, ..a })
                },
                None => r is Continue && b == a,
            }
        } else if c == 'd' {
            match sel {
                Some(i) => r is Continue && b == (App {
                    confirm_state: Some(
                        ConfirmState {
                            action: ConfirmAction::DeleteServer { name: a.servers@[i].name },
                        },
                    ),
                    input_mode: InputMode::Confirm,
                    ..a
                }),
                None => r is Continue && b == a,
            }
        } else if c == 's' {
            b == a && match sel {
                Some(i) => r matches HandlerResult::Perform(Effect::ConnectSftp { server })
                    && server.same_as(a.servers@[i]),
                None => r is Continue,
            }
        } else if c == 'y' {
            b == a && match sel {
                Some(i) => r matches HandlerResult::Perform(Effect::CopyToClipboard { text })
                    && text@ == a.servers@[i].host@,
                None => r is Continue,
            }
        } else if c == 'Y' {
            b == a && match sel {
                Some(i) => r matches HandlerResult::Perform(Effect::CopyToClipboard { text })
                    && text@ == address_text(a.servers@[i]),
                None => r is Continue,
            }
        } else {
            r is Continue && b == a
        },
        Key::Down => r is Continue && b == crate::tui::app::moved_down(a),
        Key::Up => r is Continue && b == crate::tui::app::moved_up(a),
        Key::Enter => b == a && match sel {
            Some(i) => r matches HandlerResult::ConnectSsh(s) && s.same_as(a.servers@[i]),
            None => r is Continue,
        },
        _ => r is Continue && b == a,
    }
}

/// `user@host:port` of a server.
fn address_string(s: &Server) -> (r: String)
    ensures
        r@ == address_text(*s),
{
    let mut v = text::str_chars(s.user.as_str());
    v.push('@');
    let h = text::str_chars(s.host.as_str());
    text::append_chars(&mut v, h.as_slice());
    v.push(':');
    text::push_decimal(&mut v, s.port as u64);
    text::chars_to_string(v.as_slice())
}

fn normal_key(app: &mut App, key: Key) -> (r: HandlerResult)
    requires
        old(app).wf(),
    ensures
        final(app).wf(),
        normal_step(*old(app), key, *final(app), r),
{
    match key {
        Key::Char(c) => {
            if c == 'q' {
                HandlerResult::Quit
            } else if c == 'O' {
                app.cycle_sort_by();
                HandlerResult::Continue
            } else if c == 'j' {
                app.next();
                HandlerResult::Continue
            } else if c == 'k' {
                app.previous();
                HandlerResult::Continue
            } else if c == '/' {
                app.input_mode = InputMode::Search;
                app.input = String::new();
                HandlerResult::Perform(Effect::ShowCursor)
            } else if c == 'a' {
                app.form_state = Some(FormState::new_insert());
                app.input_mode = InputMode::Insert;
                HandlerResult::Continue
            } else if c == 'i' {
                HandlerResult::Perform(Effect::ReadSshConfig)
            } else if c == 't' {
                match app.selected_index() {
                    Some(i) => {
                        let name = app.servers[i].name.clone();
                        let host = app.servers[i].host.clone();
                        let port = app.servers[i].port;
                        let m1 = text::concat_strs("Testando conexão ", name.as_str());
                        let msg = text::concat_strs(m1.as_str(), "...");
                        app.notifications.info(msg.as_str());
                        HandlerResult::Perform(Effect::TestConnection { name, host, port })
                    },
                    None => HandlerResult::Continue,
                }
            } else if c == 'e' {
                match app.selected_index() {
                    Some(i) => {
                        let form = FormState::new_edit(&app.servers[i], i);
                        app.form_state = Some(form);
                        app.input_mode = InputMode::Edit;
                        HandlerResult::Continue
                    },
                    None => HandlerResult::Continue,
                }
            } else if c == 'p' {
                match app.selected_index() {
                    Some(i) => {
                        let pinned = !app.servers[i].pinned;
                        let ghost before = app.servers@;
                        let mut s = app.servers.remove(i);
                        s.pinned = pinned;
                        app.servers.insert(i, s);
                        assert(app.servers@ =~= before.update(
                            i as int,
                            Server { pinned: !before[i as int].pinned, ..before[i as int] },
                        ));
                        if pinned {
                            app.notifications.success("Servidor fixado!");
                        } else {
                            app.notifications.success("Servidor desafixado!");
                        }
                        let config = crate::tui::app::config_from(&app.servers, &None);
                        HandlerResult::Perform(Effect::SaveConfig { config, then: None })
                    },
                    None => HandlerResult::Continue,
                }
            } else if c == 'd' {
                match app.selected_index() {
                    Some(i) => {
                        let name = app.servers[i].name.clone();
                        app.confirm_state = Some(
                            ConfirmState { action: ConfirmAction::DeleteServer { name } },
                        );
                        app.input_mode = InputMode::Confirm;
                        HandlerResult::Continue
                    },
                    None => HandlerResult::Continue,
                }
            } else if c == 's' {
                match app.open_sftp() {
                    Some(e) => HandlerResult::Perform(e),
                    None => HandlerResult::Continue,
                }
            } else if c == 'y' {
                match app.selected_index() {
                    Some(i) => HandlerResult::Perform(
                        Effect::CopyToClipboard { text: app.servers[i].host.clone() },
                    ),
                    None => HandlerResult::Continue,
                }
            } else if c == 'Y' {
                match app.selected_index() {
                    Some(i) => HandlerResult::Perform(
                        Effect::CopyToClipboard { text: address_string(&app.servers[i]) },
                    ),
                    None => HandlerResult::Continue,
                }
            } else {
                HandlerResult::Continue
            }
        },
        Key::Down => {
            app.next();
            HandlerResult::Continue
        },
        Key::Up => {
            app.previous();
            HandlerResult::Continue
        },
        Key::Enter => match app.selected_index() {
            Some(i) => HandlerResult::ConnectSsh(app.servers[i].duplicate()),
            None => HandlerResult::Continue,
        },
        _ => HandlerResult::Continue,
    }
}

/// The port typed in a form: its number, or 22 when it is not one.
pub open spec fn form_port(f: FormState) -> u16 {
    match text::parse_u16(f.port@) {
        Some(p) => p,
        None => 22,
    }
}

/// `s` carries what the form `f` describes: name, host, port, user, authentication and
/// the comma-separated tags (trimmed, empty ones dropped).
pub open spec fn from_form(f: FormState, s: Server) -> bool {
    &&& s.name == f.name
    &&& s.host == f.host
    &&& s.port == form_port(f)
    &&& s.user == f.user
    &&& crate::tui::app::form_auth(f, s.auth)
    &&& text::string_views(s.tags@) == text::split_trimmed(f.tags@, ',')
}

/// `s` is the new server the form `f` adds: unpinned, never connected, no bookmarks,
/// no agent forwarding, no jump host.
pub open spec fn added_server(f: FormState, s: Server) -> bool {
    &&& from_form(f, s)
    &&& !s.pinned
    &&& s.last_connected is None
    &&& s.connection_count == 0
    &&& s.bookmarks@.len() == 0
    &&& !s.agent_forwarding
    &&& s.proxy_jump is None
}

/// `s` is `before` edited by the form `f`; what the form does not show is kept.
pub open spec fn edited_server(f: FormState, before: Server, s: Server) -> bool {
    &&& from_form(f, s)
    &&& s.pinned == before.pinned
    &&& s.last_connected == before.last_connected
    &&& s.connection_count == before.connection_count
    &&& s.bookmarks == before.bookmarks
    &&& s.agent_forwarding == before.agent_forwarding
    &&& s.proxy_jump == before.proxy_jump
}

/// `nf` is the form `f` with the text of the focused field changed to `t`.
pub open spec fn field_edited(f: FormState, nf: FormState, t: Seq<char>) -> bool {
    &&& nf == crate::tui::app::with_field_text(f, f.field, crate::tui::app::field_text(nf, f.field))
    &&& crate::tui::app::field_text(nf, f.field)@ == t
}

/// Effect of `Enter` on the `Tags` field: the form is saved and closed.
pub open spec fn form_saved(a: App, f: FormState, b: App, r: HandlerResult) -> bool {
    match f.mode {
        FormMode::Insert => if f.name@.len() > 0 && f.host@.len() > 0 {
            let servers = b.servers@;
            &&& servers.len() == a.servers@.len() + 1
            &&& servers.drop_last() == a.servers@
            &&& added_server(f, servers.last())
            &&& b.filtered_indices@ == crate::tui::app::shown_indices(servers, a.input@)
            &&& r matches HandlerResult::Perform(e) && saves_then_success(
                e,
                servers,
                "Servidor '"@ + f.name@ + "' adicionado!"@,
            )
            &&& b == (App {
                servers: b.servers,
                filtered_indices: b.filtered_indices,
                selected: 0,
                input_mode: InputMode::Normal,
                form_state: None,
                ..a
            })
        } else {
            &&& r is Continue
            &&& crate::tui::notifications::notifies(
                a.notifications,
                b.notifications,
                NotificationType::Warning,
                "Nome e Host são obrigatórios."@,
            )
            &&& b == (App {
                notifications: b.notifications,
                input_mode: InputMode::Normal,
                form_state: None,
                ..a
            })
        },
        FormMode::Edit { server_index } => if server_index < a.servers@.len() {
            let servers = b.servers@;
            &&& servers.len() == a.servers@.len()
            &&& forall|j: int| 0 <= j < servers.len() && j != server_index ==> servers[j] == a.servers@[j]
            &&& edited_server(f, a.servers@[server_index as int], servers[server_index as int])
            &&& r matches HandlerResult::Perform(e) && saves_then_success(
                e,
                servers,
                "Servidor '"@ + f.name@ + "' atualizado!"@,
            )
            &&& b == (App {
                servers: b.servers,
                input_mode: InputMode::Normal,
                form_state: None,
                ..a
            })
        } else {
            r is Continue && b == (App { input_mode: InputMode::Normal, form_state: None, ..a })
        },
    }
}

/// Effect of a key while the add/edit form is open.
pub open spec fn form_step(a: App, key: Key, b: App, r: HandlerResult) -> bool {
    match a.form_state {
        None => r is Continue && b == a,
        Some(f) => {
            let on_auth = f.field == FormField::AuthType;
            let key_mode = crate::tui::app::form_uses_key(f);
            if key == Key::Esc {
                r is Continue && b == (App { input_mode: InputMode::Normal, form_state: None, ..a })
            } else if key == Key::Tab || key == Key::Down {
                r is Continue && b == (App {
                    form_state: Some(
                        FormState { field: crate::tui::app::next_form_field(f.field, key_mode), ..f },
                    ),
                    ..a
                })
            } else if key == Key::Up {
                r is Continue && b == (App {
                    form_state: Some(
                        FormState { field: crate::tui::app::prev_form_field(f.field, key_mode), ..f },
                    ),
                    ..a
                })
            } else if on_auth && (key == Key::Char(' ') || key == Key::Left || key == Key::Right) {
                r is Continue && b == (App { form_state: b.form_state, ..a }) && (b.form_state matches Some(
                    nf,
                ) && crate::tui::app::auth_toggled(f, nf))
            } else {
                match key {
                    Key::Char(c) => r is Continue && b == (App { form_state: b.form_state, ..a }) && (
                    b.form_state matches Some(nf) && field_edited(
                        f,
                        nf,
                        crate::tui::app::field_text(f, f.field)@.push(c),
                    )),
                    Key::Backspace => r is Continue && b == (App { form_state: b.form_state, ..a }) && (
                    b.form_state matches Some(nf) && field_edited(
                        f,
                        nf,
                        chars_pop(crate::tui::app::field_text(f, f.field)@),
                    )),
                    Key::Enter => if f.field == FormField::Tags {
                        form_saved(a, f, b, r)
                    } else {
                        r is Continue && b == a
                    },
                    _ => r is Continue && b == a,
                }
            }
        },
    }
}

/// The port typed in a form.
fn form_port_exec(f: &FormState) -> (p: u16)
    ensures
        p == form_port(*f),
{
    let cs = text::str_chars(f.port.as_str());
    let r = text::parse_u16_range(cs.as_slice(), 0, cs.len());
    assert(cs@.subrange(0, cs@.len() as int) == cs@);
    match r {
        Some(p) => p,
        None => 22,
    }
}

/// The tags typed in a form.
fn form_tags_exec(f: &FormState) -> (t: Vec<String>)
    ensures
        text::string_views(t@) == text::split_trimmed(f.tags@, ','),
{
    text::split_trimmed_strings(f.tags.as_str(), ',')
}

/// Saves the form `f` (focused on `Tags`) into the list, closing it.
fn save_form(app: &mut App, f: FormState) -> (r: HandlerResult)
    requires
        old(app).wf(),
    ensures
        final(app).wf(),
        form_saved(*old(app), f, *final(app), r),
{
    let port = form_port_exec(&f);
    let auth = f.build_auth();
    let tags = form_tags_exec(&f);
    let mut r = HandlerResult::Continue;
    match f.mode {
        FormMode::Insert => {
            if !f.name.as_str().is_empty() && !f.host.as_str().is_empty() {
                let m1 = text::concat_strs("Servidor '", f.name.as_str());
                let msg = text::concat_strs(m1.as_str(), "' adicionado!");
                let server = Server {
                    name: f.name.clone(),
                    host: f.host.clone(),
                    port,
                    user: f.user.clone(),
                    auth,
                    tags,
                    pinned: false,
                    last_connected: None,
                    connection_count: 0,
                    bookmarks: Vec::new(),
                    agent_forwarding: false,
                    proxy_jump: None,
                };
                let ghost before = app.servers@;
                app.servers.push(server);
                assert(app.servers@.drop_last() == before);
                let q = app.input.clone();
                app.filter(q.as_str());
                let config = crate::tui::app::config_from(&app.servers, &None);
                r = HandlerResult::Perform(
                    Effect::SaveConfig {
                        config,
                        then: Some(
                            Box::new(Effect::Notify { kind: NotificationType::Success, message: msg }),
                        ),
                    },
                );
            } else {
                app.notifications.warning("Nome e Host são obrigatórios.");
            }
        },
        FormMode::Edit { server_index } => {
            if server_index < app.servers.len() {
                let m1 = text::concat_strs("Servidor '", f.name.as_str());
                let msg = text::concat_strs(m1.as_str(), "' atualizado!");
                let ghost before = app.servers@;
                let mut s = app.servers.remove(server_index);
                s.name = f.name.clone();
                s.host = f.host.clone();
                s.port = port;
                s.user = f.user.clone();
                s.auth = auth;
                s.tags = tags;
                app.servers.insert(server_index, s);
                assert forall|j: int|
                    0 <= j < app.servers@.len() && j != server_index implies app.servers@[j]
                    == before[j] by {
                    if j < server_index {
                        assert(app.servers@[j] == before.remove(server_index as int)[j]);
                    } else {
                        assert(app.servers@[j] == before.remove(server_index as int)[j - 1]);
                    }
                }
                let config = crate::tui::app::config_from(&app.servers, &None);
                r = HandlerResult::Perform(
                    Effect::SaveConfig {
                        config,
                        then: Some(
                            Box::new(Effect::Notify { kind: NotificationType::Success, message: msg }),
                        ),
                    },
                );
            }
        },
    }
    app.input_mode = InputMode::Normal;
    app.form_state = None;
    r
}

fn form_key(app: &mut App, key: Key) -> (r: HandlerResult)
    requires
        old(app).wf(),
    ensures
        final(app).wf(),
        form_step(*old(app), key, *final(app), r),
{
    let mut form = match app.form_state.take() {
        Some(f) => f,
        None => {
            return HandlerResult::Continue;
        },
    };
    let on_auth = form.field == FormField::AuthType;
    if key == Key::Esc {
        app.input_mode = InputMode::Normal;
        return HandlerResult::Continue;
    } else if key == Key::Tab || key == Key::Down {
        form.next_field();
    } else if key == Key::Up {
        form.prev_field();
    } else if on_auth && (key == Key::Char(' ') || key == Key::Left || key == Key::Right) {
        form.toggle_auth_type();
    } else {
        match key {
            Key::Char(c) => {
                let v = form.current_value_mut();
                text::string_push(v, c);
            },
            Key::Backspace => {
                let v = form.current_value_mut();
                string_pop(v);
            },
            Key::Enter => {
                if form.field == FormField::Tags {
                    return save_form(app, form);
                }
            },
            _ => {},
        }
    }
    app.form_state = Some(form);
    HandlerResult::Continue
}

/// Handles a key in the server list, according to the input mode.
pub fn handle_server_list_key(app: &mut App, key: Key) -> (r: HandlerResult)
    requires
        old(app).wf(),
    ensures
        final(app).wf(),
        match old(app).input_mode {
            InputMode::Normal => normal_step(*old(app), key, *final(app), r),
            InputMode::Insert | InputMode::Edit => form_step(*old(app), key, *final(app), r),
            InputMode::Search => search_step(*old(app), key, *final(app), r),
            InputMode::Confirm => confirm_step(*old(app), key, *final(app), r),
        },
{
    match app.input_mode {
        InputMode::Normal => normal_key(app, key),
        InputMode::Insert | InputMode::Edit => form_key(app, key),
        InputMode::Search => search_key(app, key),
        InputMode::Confirm => confirm_key(app, key),
    }
}

/// The number of characters before byte position `b` of `s`, when `b` is a boundary.
pub open spec fn char_index(s: Seq<char>, b: int) -> int {
    choose|k: int| 0 <= k <= s.len() && byte_len_prefix(s, k) == b
}

/// Byte length of the first `k` characters of `s`.
pub open spec fn byte_len_prefix(s: Seq<char>, k: int) -> nat {
    text::byte_len(s.take(k))
}

proof fn lemma_char_index(s: Seq<char>, k: int)
    requires
        0 <= k <= s.len(),
    ensures
        char_index(s, byte_len_prefix(s, k) as int) == k,
{
    let b = byte_len_prefix(s, k) as int;
    assert(0 <= k <= s.len() && byte_len_prefix(s, k) == b);
    let j = char_index(s, b);
    if j < k {
        text::lemma_byte_len_monotone(s, j, k);
    } else if j > k {
        text::lemma_byte_len_monotone(s, k, j);
    }
}

/// The input line's text and cursor allow `key` without a panic: typing inserts at a
/// character boundary, `Backspace` and `Delete` remove a whole character, and the text
/// stays far below the largest size.
pub open spec fn input_key_ok(st: SftpState, key: Key) -> bool {
    let buf = st.input_buffer@;
    let cur = st.input_cursor as int;
    &&& text::byte_len(buf) + 4 <= usize::MAX
    &&& match key {
        Key::Char(_) => text::char_boundary(buf, cur),
        Key::Backspace => cur > 0 ==> text::char_boundary(buf, cur - 1) && cur - 1 < text::byte_len(buf),
        Key::Delete => cur < text::byte_len(buf) ==> text::char_boundary(buf, cur),
        _ => true,
    }
}

/// `nst` is `st` after `key` edited its input line; the cursor counts bytes.
pub open spec fn input_edited(st: SftpState, key: Key, nst: SftpState) -> bool {
    let buf = st.input_buffer@;
    let cur = st.input_cursor as int;
    let len = text::byte_len(buf);
    let same_text = nst == (SftpState { input_cursor: nst.input_cursor, ..st });
    &&& nst == (SftpState { input_buffer: nst.input_buffer, input_cursor: nst.input_cursor, ..st })
    &&& match key {
        Key::Char(c) => {
            let k = char_index(buf, cur);
            nst.input_buffer@ == buf.take(k) + seq![c] + buf.skip(k) && nst.input_cursor == cur + 1
        },
        Key::Backspace => if cur > 0 {
            let k = char_index(buf, cur - 1);
            nst.input_buffer@ == buf.take(k) + buf.skip(k + 1) && nst.input_cursor == cur - 1
        } else {
            nst == st
        },
        Key::Delete => if cur < len {
            let k = char_index(buf, cur);
            nst.input_buffer@ == buf.take(k) + buf.skip(k + 1) && nst.input_cursor == cur
        } else {
            nst == st
        },
        Key::Left => same_text && nst.input_cursor == (if cur > 0 {
            cur - 1
        } else {
            cur
        }),
        Key::Right => same_text && nst.input_cursor == (if cur < len {
            cur + 1
        } else {
            cur
        }),
        Key::Home => same_text && nst.input_cursor == 0,
        Key::End => same_text && nst.input_cursor == len,
        _ => nst == st,
    }
}

/// Edits the input line of the browser with `key`.
fn edit_input(st: &mut SftpState, key: Key)
    requires
        input_key_ok(*old(st), key),
    ensures
        input_edited(*old(st), key, *final(st)),
{
    let ghost buf = st.input_buffer@;
    let cs = text::str_chars(st.input_buffer.as_str());
    let len = text::byte_length(st.input_buffer.as_str());
    let cur = st.input_cursor;
    match key {
        Key::Char(c) => {
            let k = match text::char_index_at(cs.as_slice(), cur) {
                Some(k) => k,
                None => {
                    return;
                },
            };
            proof {
                lemma_char_index(buf, k as int);
                text::lemma_byte_len_monotone(buf, k as int, buf.len() as int);
                assert(buf.take(buf.len() as int) == buf);
            }
            let mut v = text::sub_chars(cs.as_slice(), 0, k);
            v.push(c);
            let rest = text::sub_chars(cs.as_slice(), k, cs.len());
            text::append_chars(&mut v, rest.as_slice());
            assert(v@ =~= buf.take(k as int) + seq![c] + buf.skip(k as int));
            st.input_buffer = text::chars_to_string(v.as_slice());
            st.input_cursor = cur + 1;
        },
        Key::Backspace => {
            if cur > 0 {
                let k = match text::char_index_at(cs.as_slice(), cur - 1) {
                    Some(k) => k,
                    None => {
                        return;
                    },
                };
                proof {
                    lemma_char_index(buf, k as int);
                }
                assert(k < cs.len()) by {
                    assert(cs@ == buf);
                    if k as int == buf.len() {
                        assert(buf.take(k as int) == buf);
                    }
                }
                let mut v = text::sub_chars(cs.as_slice(), 0, k);
                let rest = text::sub_chars(cs.as_slice(), k + 1, cs.len());
                text::append_chars(&mut v, rest.as_slice());
                assert(v@ =~= buf.take(k as int) + buf.skip(k + 1));
                st.input_buffer = text::chars_to_string(v.as_slice());
                st.input_cursor = cur - 1;
            }
        },
        Key::Delete => {
            if cur < len {
                let k = match text::char_index_at(cs.as_slice(), cur) {
                    Some(k) => k,
                    None => {
                        return;
                    },
                };
                proof {
                    lemma_char_index(buf, k as int);
                }
                assert(k < cs.len()) by {
                    assert(cs@ == buf);
                    if k as int == buf.len() {
                        assert(buf.take(k as int) == buf);
                    }
                }
                let mut v = text::sub_chars(cs.as_slice(), 0, k);
                let rest = text::sub_chars(cs.as_slice(), k + 1, cs.len());
                text::append_chars(&mut v, rest.as_slice());
                assert(v@ =~= buf.take(k as int) + buf.skip(k + 1));
                st.input_buffer = text::chars_to_string(v.as_slice());
            }
        },
        Key::Left => {
            if cur > 0 {
                st.input_cursor = cur - 1;
            }
        },
        Key::Right => {
            if cur < len {
                st.input_cursor = cur + 1;
            }
        },
        Key::Home => {
            st.input_cursor = 0;
        },
        Key::End => {
            st.input_cursor = len;
        },
        _ => {},
    }
}

/// `dir/name` (`format!("{}/{}", dir, name)`).
pub open spec fn slash_join(dir: Seq<char>, name: Seq<char>) -> Seq<char> {
    dir + seq!['/'] + name
}

/// `dir/name`.
fn slash_join_string(dir: &str, name: &str) -> (r: String)
    ensures
        r@ == slash_join(dir@, name@),
{
    let mut v = text::str_chars(dir);
    v.push('/');
    let n = text::str_chars(name);
    text::append_chars(&mut v, n.as_slice());
    text::chars_to_string(v.as_slice())
}

/// `b` is `a` with the notification `(kind, msg)` added and nothing else changed.
pub open spec fn told(a: App, b: App, kind: NotificationType, msg: Seq<char>) -> bool {
    &&& crate::tui::notifications::notifies(a.notifications, b.notifications, kind, msg)
    &&& b == (App { notifications: b.notifications, ..a })
}

/// `b` is `a` with the browser replaced by `nst`.
pub open spec fn with_browser(a: App, b: App, nst: SftpState) -> bool {
    b == (App { sftp_state: Some(nst), ..a })
}

/// `nst` is `st` with the input line closed and emptied (the cursor stays).
pub open spec fn input_closed(st: SftpState, nst: SftpState) -> bool {
    &&& nst == (SftpState {
        input_mode: crate::tui::sftp_browser::SftpInputMode::Inactive,
        input_buffer: nst.input_buffer,
        ..st
    })
    &&& nst.input_buffer@.len() == 0
}

/// `nst` is `st` with the input line opened in `mode` with text `t`, cursor after it.
pub open spec fn input_opened(
    st: SftpState,
    nst: SftpState,
    mode: crate::tui::sftp_browser::SftpInputMode,
    t: Seq<char>,
) -> bool {
    &&& nst == (SftpState {
        input_mode: mode,
        input_buffer: nst.input_buffer,
        input_cursor: nst.input_cursor,
        ..st
    })
    &&& nst.input_buffer@ == t
    &&& nst.input_cursor == text::byte_len(t)
}

/// `r` asks to change `op`-wise the server over `st`'s session; `dir` is listed after.
pub open spec fn asks_change(r: HandlerResult, st: SftpState, sid: String) -> bool {
    r matches HandlerResult::Perform(Effect::ChangeRemote { session_id, dir, .. }) && session_id == sid
        && dir == st.remote_path
}

/// Effect of `Enter` on the SFTP input line with text `input` in mode `st.input_mode`.
pub open spec fn input_submitted(a: App, st: SftpState, b: App, r: HandlerResult) -> bool {
    let input = st.input_buffer@;
    let dir = st.remote_path@;
    let sel = st.remote_selected as int;
    let has_file = sel < st.remote_files@.len();
    match st.session_id {
        None => r is Continue && b == a,
        Some(sid) => if input.len() == 0 {
            r is Continue && b == a
        } else {
            match st.input_mode {
                crate::tui::sftp_browser::SftpInputMode::Mkdir => b == a && asks_change(r, st, sid) && (
                r matches HandlerResult::Perform(Effect::ChangeRemote { op, origin, .. }) && origin is Input
                    && (op matches crate::tui::app::RemoteOp::Mkdir { path } && path@ == slash_join(
                    dir,
                    input,
                ))),
                crate::tui::sftp_browser::SftpInputMode::Rename => if has_file {
                    let fname = st.remote_files@[sel].name@;
                    b == a && asks_change(r, st, sid) && (r matches HandlerResult::Perform(
                        Effect::ChangeRemote { op, origin, .. },
                    ) && origin is Input && (op matches crate::tui::app::RemoteOp::Rename { from, to }
                        && from@ == slash_join(dir, fname) && to@ == slash_join(dir, input)))
                } else {
                    r is Continue && told(a, b, NotificationType::Error, "Erro: No file selected"@)
                },
                crate::tui::sftp_browser::SftpInputMode::Chmod => if has_file {
                    let fname = st.remote_files@[sel].name@;
                    match text::parse_octal_u32(text::trim(input)) {
                        Some(m) => b == a && asks_change(r, st, sid) && (r matches HandlerResult::Perform(
                            Effect::ChangeRemote { op, origin, .. },
                        ) && origin is Input && (op matches crate::tui::app::RemoteOp::SetPermissions {
                            path,
                            mode,
                        } && path@ == slash_join(dir, fname) && mode == m)),
                        None => r is Continue && told(
                            a,
                            b,
                            NotificationType::Error,
                            "Erro: Invalid octal permissions"@,
                        ),
                    }
                } else {
                    r is Continue && told(a, b, NotificationType::Error, "Erro: No file selected"@)
                },
                crate::tui::sftp_browser::SftpInputMode::Bookmark => if a.selected
                    < a.filtered_indices@.len() {
                    let idx = a.filtered_indices@[a.selected as int] as int;
                    if idx < a.servers@.len() {
                        let srv = a.servers@[idx];
                        let servers = b.servers@;
                        &&& servers.len() == a.servers@.len()
                        &&& forall|j: int| 0 <= j < servers.len() && j != idx ==> servers[j] == a.servers@[j]
                        &&& servers[idx] == (Server { bookmarks: servers[idx].bookmarks, ..srv })
                        &&& servers[idx].bookmarks@ == srv.bookmarks@.push(
                            crate::config::models::ServerBookmark {
                                name: st.input_buffer,
                                path: st.remote_path,
                            },
                        )
                        &&& b.sftp_state matches Some(nst) && input_closed(st, nst)
                        &&& r matches HandlerResult::Perform(Effect::SaveConfig { config, then })
                            && crate::config::models::same_servers(config.servers@, servers)
                            && config.sort_by == a.sort_by && (then matches Some(t) && (
                        *t matches Effect::ListRemote { session_id, path, purpose } && session_id
                            == sid && path == st.remote_path && purpose
                            == (crate::tui::app::ListPurpose::AfterChange { announce: true })))
                        &&& b == (App { servers: b.servers, sftp_state: b.sftp_state, ..a })
                    } else {
                        r is Continue && told(a, b, NotificationType::Error, "Erro: Server not found"@)
                    }
                } else {
                    r is Continue && told(a, b, NotificationType::Error, "Erro: No server selected"@)
                },
                crate::tui::sftp_browser::SftpInputMode::Inactive => {
                    &&& b.sftp_state matches Some(nst) && input_closed(st, nst)
                    &&& b == (App { sftp_state: b.sftp_state, ..a })
                    &&& r matches HandlerResult::Perform(
                        Effect::ListRemote { session_id, path, purpose },
                    ) && session_id == sid && path == st.remote_path && purpose
                        == (crate::tui::app::ListPurpose::AfterChange { announce: true })
                },
            }
        },
    }
}

/// Sends the SFTP input line (`Enter`).
fn submit_input(app: &mut App) -> (r: HandlerResult)
    requires
        old(app).wf(),
        old(app).sftp_state is Some,
    ensures
        final(app).wf(),
        old(app).sftp_state matches Some(st) && input_submitted(*old(app), st, *final(app), r),
{
    let ghost a = *app;
    let st = match &app.sftp_state {
        Some(st) => st,
        None => {
            return HandlerResult::Continue;
        },
    };
    let sid = match &st.session_id {
        Some(sid) => sid.clone(),
        None => {
            return HandlerResult::Continue;
        },
    };
    if st.input_buffer.as_str().is_empty() {
        return HandlerResult::Continue;
    }
    let dir = st.remote_path.clone();
    let has_file = st.remote_selected < st.remote_files.len();
    match st.input_mode {
        crate::tui::sftp_browser::SftpInputMode::Mkdir => {
            let path = slash_join_string(dir.as_str(), st.input_buffer.as_str());
            HandlerResult::Perform(
                Effect::ChangeRemote {
                    session_id: sid,
                    op: crate::tui::app::RemoteOp::Mkdir { path },
                    dir,
                    origin: crate::tui::app::OpOrigin::Input,
                },
            )
        },
        crate::tui::sftp_browser::SftpInputMode::Rename => {
            if has_file {
                let from = slash_join_string(
                    dir.as_str(),
                    st.remote_files[st.remote_selected].name.as_str(),
                );
                let to = slash_join_string(dir.as_str(), st.input_buffer.as_str());
                HandlerResult::Perform(
                    Effect::ChangeRemote {
                        session_id: sid,
                        op: crate::tui::app::RemoteOp::Rename { from, to },
                        dir,
                        origin: crate::tui::app::OpOrigin::Input,
                    },
                )
            } else {
                app.notifications.error("Erro: No file selected");
                HandlerResult::Continue
            }
        },
        crate::tui::sftp_browser::SftpInputMode::Chmod => {
            if has_file {
                let path = slash_join_string(
                    dir.as_str(),
                    st.remote_files[st.remote_selected].name.as_str(),
                );
                let cs = text::str_chars(st.input_buffer.as_str());
                let (lo, hi) = text::trim_bounds(cs.as_slice(), 0, cs.len());
                assert(cs@.subrange(0, cs@.len() as int) == cs@);
                let trimmed_chars = text::sub_chars(cs.as_slice(), lo, hi);
                let trimmed = text::chars_to_string(trimmed_chars.as_slice());
                match text::parse_octal(trimmed.as_str()) {
                    Some(mode) => HandlerResult::Perform(
                        Effect::ChangeRemote {
                            session_id: sid,
                            op: crate::tui::app::RemoteOp::SetPermissions { path, mode },
                            dir,
                            origin: crate::tui::app::OpOrigin::Input,
                        },
                    ),
                    None => {
                        app.notifications.error("Erro: Invalid octal permissions");
                        HandlerResult::Continue
                    },
                }
            } else {
                app.notifications.error("Erro: No file selected");
                HandlerResult::Continue
            }
        },
        crate::tui::sftp_browser::SftpInputMode::Bookmark => {
            if app.selected < app.filtered_indices.len() {
                let idx = app.filtered_indices[app.selected];
                if idx < app.servers.len() {
                    let bookmark = crate::config::models::ServerBookmark {
                        name: st.input_buffer.clone(),
                        path: dir.clone(),
                    };
                    let ghost before = app.servers@;
                    let mut srv = app.servers.remove(idx);
                    srv.bookmarks.push(bookmark);
                    app.servers.insert(idx, srv);
                    assert forall|j: int|
                        0 <= j < app.servers@.len() && j != idx implies app.servers@[j] == before[j] by {
                        if j < idx {
                            assert(app.servers@[j] == before.remove(idx as int)[j]);
                        } else {
                            assert(app.servers@[j] == before.remove(idx as int)[j - 1]);
                        }
                    }
                    if let Some(st) = &mut app.sftp_state {
                        st.input_mode = crate::tui::sftp_browser::SftpInputMode::Inactive;
                        st.input_buffer = String::new();
                    }
                    let config = crate::tui::app::config_from(&app.servers, &app.sort_by);
                    let list = Effect::ListRemote {
                        session_id: sid,
                        path: dir,
                        purpose: crate::tui::app::ListPurpose::AfterChange { announce: true },
                    };
                    HandlerResult::Perform(Effect::SaveConfig { config, then: Some(Box::new(list)) })
                } else {
                    app.notifications.error("Erro: Server not found");
                    HandlerResult::Continue
                }
            } else {
                app.notifications.error("Erro: No server selected");
                HandlerResult::Continue
            }
        },
        crate::tui::sftp_browser::SftpInputMode::Inactive => {
            if let Some(st) = &mut app.sftp_state {
                st.input_mode = crate::tui::sftp_browser::SftpInputMode::Inactive;
                st.input_buffer = String::new();
            }
            HandlerResult::Perform(
                Effect::ListRemote {
                    session_id: sid,
                    path: dir,
                    purpose: crate::tui::app::ListPurpose::AfterChange { announce: true },
                },
            )
        },
    }
}

/// The files (not directories) among `fs`, in order.
pub open spec fn only_files(fs: Seq<FileInfo>) -> Seq<FileInfo>
    decreases fs.len(),
{
    if fs.len() == 0 {
        Seq::empty()
    } else if fs.last().is_dir {
        only_files(fs.drop_last())
    } else {
        only_files(fs.drop_last()).push(fs.last())
    }
}

/// The files a transfer from a pane takes: the marked files, or, with no marks, the
/// file under the cursor.
pub open spec fn transfer_files(files: Seq<FileInfo>, marks: Seq<usize>, sel: usize) -> Seq<FileInfo> {
    if marks.len() > 0 {
        only_files(crate::tui::sftp_browser::marked_entries(files, marks))
    } else if sel < files.len() && !files[sel as int].is_dir {
        seq![files[sel as int]]
    } else {
        Seq::empty()
    }
}

/// Sum of the sizes of `fs`.
pub open spec fn total_size(fs: Seq<FileInfo>) -> nat
    decreases fs.len(),
{
    if fs.len() == 0 {
        0
    } else {
        total_size(fs.drop_last()) + fs.last().size as nat
    }
}

/// The name shown for a transfer of `fs`: the file's name, or `N arquivos`.
pub open spec fn transfer_label(fs: Seq<FileInfo>) -> Seq<char> {
    if fs.len() == 1 {
        fs[0].name@
    } else {
        text::decimal(fs.len()) + " arquivos"@
    }
}

/// Name, source and destination of each job.
pub open spec fn job_views(jobs: Seq<TransferJob>) -> Seq<(Seq<char>, Seq<char>, Seq<char>)> {
    jobs.map_values(|j: TransferJob| (j.name@, j.from@, j.to@))
}

/// The jobs copying `fs` between the local directory `ldir` and the remote one `rdir`:
/// from local to remote for an upload, from remote to local otherwise.
pub open spec fn transfer_jobs(fs: Seq<FileInfo>, ldir: Seq<char>, rdir: Seq<char>, upload: bool) -> Seq<
    (Seq<char>, Seq<char>, Seq<char>),
> {
    fs.map_values(
        |f: FileInfo|
            if upload {
                (f.name@, crate::sftp::local::path_join(ldir, f.name@), slash_join(rdir, f.name@))
            } else {
                (f.name@, slash_join(rdir, f.name@), crate::sftp::local::path_join(ldir, f.name@))
            },
    )
}

/// The files of the pane a transfer in direction `upload` starts from: the local pane
/// for an upload, the remote pane for a download, none when the other pane has focus.
pub open spec fn files_to_transfer(st: SftpState, upload: bool) -> Seq<FileInfo> {
    if upload && st.focus_side == Side::Local {
        transfer_files(st.local_files@, st.local_selected_files@, st.local_selected)
    } else if !upload && st.focus_side == Side::Remote {
        transfer_files(st.remote_files@, st.remote_selected_files@, st.remote_selected)
    } else {
        Seq::empty()
    }
}

/// `nst` is `st` with a transfer of `total` bytes named `label` started.
pub open spec fn transfer_begun(st: SftpState, nst: SftpState, label: Seq<char>, total: nat, upload: bool) -> bool {
    &&& nst.is_transferring
    &&& nst.transfer_state matches crate::tui::sftp_browser::TransferState::Transferring {
        file_name: n,
        bytes_total,
        is_upload: up,
        start_time,
    } && n@ == label && bytes_total == total && up == upload && nst.transfer_start == Some(
        start_time,
    ) && nst.transfer_progress == Some(
        crate::tui::sftp_browser::TransferProgress {
            file_name: n,
            bytes_done: 0,
            bytes_total: bytes_total,
            is_upload: up,
            start_time: start_time,
        },
    )
    &&& nst == (SftpState {
        transfer_state: nst.transfer_state,
        transfer_start: nst.transfer_start,
        transfer_progress: nst.transfer_progress,
        is_transferring: true,
        ..st
    })
}

/// Effect of `u` (`upload`) or `d` (download) in the SFTP browser.
pub open spec fn transfer_requested(a: App, st: SftpState, b: App, r: HandlerResult, upload: bool) -> bool {
    let fs = files_to_transfer(st, upload);
    let n = text::decimal(fs.len());
    if st.transfer_state is Transferring {
        r is Continue && told(a, b, NotificationType::Warning, "Transferência em andamento!"@)
    } else if fs.len() == 0 {
        r is Continue && told(
            a,
            b,
            NotificationType::Warning,
            if upload {
                "Nenhum arquivo para upload"@
            } else {
                "Nenhum arquivo para download"@
            },
        )
    } else {
        let first = if upload {
            "Enviando "@ + n + " arquivo(s)..."@
        } else {
            "Baixando "@ + n + " arquivo(s)..."@
        };
        let second = if upload {
            "Enviando... (barra de progresso em breve)"@
        } else {
            "Baixando... (barra de progresso em breve)"@
        };
        &&& b.sftp_state matches Some(nst) && transfer_begun(st, nst, transfer_label(fs), total_size(fs), upload)
        &&& b == (App { sftp_state: b.sftp_state, notifications: b.notifications, ..a })
        &&& match a.selection() {
            Some(i) => {
                &&& crate::tui::notifications::notifies_twice(
                    a.notifications,
                    b.notifications,
                    NotificationType::Info,
                    first,
                    NotificationType::Info,
                    second,
                )
                &&& r matches HandlerResult::Perform(Effect::Transfer { server, jobs, upload: u })
                    && server.same_as(a.servers@[i]) && u == upload && job_views(jobs@)
                    == transfer_jobs(fs, st.local.current_dir@, st.remote_path@, upload)
            },
            None => r is Continue && crate::tui::notifications::notifies(
                a.notifications,
                b.notifications,
                NotificationType::Info,
                first,
            ),
        }
    }
}

/// The transfer of the files of `st` fits the byte counters: their sizes add up to at
/// most `u64::MAX`.
pub open spec fn transfer_fits(st: SftpState) -> bool {
    total_size(files_to_transfer(st, true)) <= u64::MAX && total_size(files_to_transfer(st, false))
        <= u64::MAX
}

/// Copies of the files a transfer takes from a pane.
fn collect_transfer_files(files: &Vec<FileInfo>, marks: &Vec<usize>, sel: usize) -> (r: Vec<FileInfo>)
    ensures
        r@ == transfer_files(files@, marks@, sel),
{
    let mut out: Vec<FileInfo> = Vec::new();
    if marks.len() > 0 {
        let mut i: usize = 0;
        assert(marks@.take(0) =~= Seq::<usize>::empty());
        while i < marks.len()
            invariant
                i <= marks@.len(),
                out@ == only_files(crate::tui::sftp_browser::marked_entries(files@, marks@.take(i as int))),
            decreases marks@.len() - i,
        {
            let m = marks[i];
            let ghost pre = crate::tui::sftp_browser::marked_entries(files@, marks@.take(i as int));
            assert(marks@.take(i + 1).drop_last() == marks@.take(i as int));
            assert(marks@.take(i + 1).last() == m);
            if m < files.len() {
                let ghost nxt = pre.push(files@[m as int]);
                assert(nxt.drop_last() == pre);
                if !files[m].is_dir {
                    out.push(files[m].duplicate());
                }
            }
            i = i + 1;
        }
        assert(marks@.take(marks@.len() as int) == marks@);
    } else if sel < files.len() && !files[sel].is_dir {
        out.push(files[sel].duplicate());
        assert(out@ =~= seq![files@[sel as int]]);
    }
    out
}

/// Sum of the sizes of `fs`, which fits a `u64`.
fn sum_sizes(fs: &Vec<FileInfo>) -> (t: u64)
    requires
        total_size(fs@) <= u64::MAX,
    ensures
        t == total_size(fs@),
{
    let mut t: u64 = 0;
    let mut i: usize = 0;
    assert(fs@.take(0) =~= Seq::<FileInfo>::empty());
    while i < fs.len()
        invariant
            i <= fs@.len(),
            total_size(fs@) <= u64::MAX,
            t == total_size(fs@.take(i as int)),
        decreases fs@.len() - i,
    {
        assert(fs@.take(i + 1).drop_last() == fs@.take(i as int));
        proof {
            lemma_total_size_prefix(fs@, i + 1);
        }
        t = t + fs[i].size;
        i = i + 1;
    }
    assert(fs@.take(fs@.len() as int) == fs@);
    t
}

proof fn lemma_total_size_prefix(fs: Seq<FileInfo>, k: int)
    requires
        0 <= k <= fs.len(),
    ensures
        total_size(fs.take(k)) <= total_size(fs),
    decreases fs.len() - k,
{
    if k < fs.len() {
        lemma_total_size_prefix(fs, k + 1);
        assert(fs.take(k + 1).drop_last() == fs.take(k));
    } else {
        assert(fs.take(k) == fs);
    }
}

/// Starts an upload (`upload`) or a download from the focused pane.
fn request_transfer(app: &mut App, upload: bool) -> (r: HandlerResult)
    requires
        old(app).wf(),
        old(app).sftp_state matches Some(st) && transfer_fits(st),
    ensures
        final(app).wf(),
        old(app).sftp_state matches Some(st) && transfer_requested(*old(app), st, *final(app), r, upload),
{
    let ghost a = *app;
    let mut st = match app.sftp_state.take() {
        Some(st) => st,
        None => {
            return HandlerResult::Continue;
        },
    };
    let ghost st0 = st;
    if st.is_transferring_now() {
        app.sftp_state = Some(st);
        app.notifications.warning("Transferência em andamento!");
        return HandlerResult::Continue;
    }
    let files: Vec<FileInfo> = if upload && st.focus_side == Side::Local {
        collect_transfer_files(&st.local_files, &st.local_selected_files, st.local_selected)
    } else if !upload && st.focus_side == Side::Remote {
        collect_transfer_files(&st.remote_files, &st.remote_selected_files, st.remote_selected)
    } else {
        Vec::new()
    };
    if files.len() == 0 {
        app.sftp_state = Some(st);
        if upload {
            app.notifications.warning("Nenhum arquivo para upload");
        } else {
            app.notifications.warning("Nenhum arquivo para download");
        }
        return HandlerResult::Continue;
    }
    let total = sum_sizes(&files);
    let n = text::u64_to_decimal(files.len() as u64);
    let label = if files.len() == 1 {
        files[0].name.clone()
    } else {
        text::concat_strs(n.as_str(), " arquivos")
    };
    st.start_transfer(label, total, upload);
    let mut jobs: Vec<TransferJob> = Vec::new();
    let mut i: usize = 0;
    while i < files.len()
        invariant
            i <= files@.len(),
            job_views(jobs@) == transfer_jobs(
                files@.take(i as int),
                st.local.current_dir@,
                st.remote_path@,
                upload,
            ),
        decreases files@.len() - i,
    {
        let name = files[i].name.clone();
        let local = st.local.get_full_path(name.as_str());
        let remote = slash_join_string(st.remote_path.as_str(), name.as_str());
        let job = if upload {
            TransferJob { name, from: local, to: remote }
        } else {
            TransferJob { name, from: remote, to: local }
        };
        let ghost before = jobs@;
        jobs.push(job);
        assert(files@.take(i + 1) == files@.take(i as int).push(files@[i as int]));
        assert(job_views(jobs@) =~= job_views(before).push((job.name@, job.from@, job.to@)));
        assert(transfer_jobs(files@.take(i + 1), st.local.current_dir@, st.remote_path@, upload)
            =~= transfer_jobs(files@.take(i as int), st.local.current_dir@, st.remote_path@, upload).push(
            (job.name@, job.from@, job.to@),
        ));
        i = i + 1;
    }
    assert(files@.take(files@.len() as int) == files@);
    app.sftp_state = Some(st);
    let m1 = if upload {
        text::concat_strs("Enviando ", n.as_str())
    } else {
        text::concat_strs("Baixando ", n.as_str())
    };
    let first = text::concat_strs(m1.as_str(), " arquivo(s)...");
    app.notifications.info(first.as_str());
    match app.selected_index() {
        Some(i) => {
            if upload {
                app.notifications.info("Enviando... (barra de progresso em breve)");
            } else {
                app.notifications.info("Baixando... (barra de progresso em breve)");
            }
            HandlerResult::Perform(
                Effect::Transfer { server: app.servers[i].duplicate(), jobs, upload },
            )
        },
        None => HandlerResult::Continue,
    }
}

/// What follows entering a directory (or its parent) of the browser `st`, which became
/// `nst` with answer `res`: a failure is told as a warning; a local directory is to be
/// entered and listed; the remote pane is listed again.
pub open spec fn entered_follow_up(
    a: App,
    st: SftpState,
    nst: SftpState,
    res: Result<Option<String>, String>,
    b: App,
    r: HandlerResult,
) -> bool {
    &&& b == (App { sftp_state: Some(nst), notifications: b.notifications, ..a })
    &&& match res {
        Err(e) => crate::tui::notifications::notifies(
            a.notifications,
            b.notifications,
            NotificationType::Warning,
            e@,
        ),
        Ok(_) => b.notifications == a.notifications,
    }
    &&& if st.focus_side == Side::Local {
        match res {
            Ok(Some(name)) => r matches HandlerResult::Perform(Effect::EnterLocalDir { name: n })
                && n == name,
            _ => r is Continue,
        }
    } else {
        match st.session_id {
            Some(sid) => r matches HandlerResult::Perform(
                Effect::ListRemote { session_id, path, purpose },
            ) && session_id == sid && path == nst.remote_path && purpose
                == crate::tui::app::ListPurpose::Navigate,
            None => r is Continue,
        }
    }
}

/// The text of the remote pane's cursor entry and the last path segment fit the byte
/// counters (`usize`).
pub open spec fn browser_fits(st: SftpState) -> bool {
    &&& forall|i: int|
        0 <= i < st.remote_files@.len() ==> text::byte_len(#[trigger] st.remote_files@[i].name@)
            <= usize::MAX
    &&& text::byte_len(text::after_last(st.remote_path@, '/')) <= usize::MAX
}

/// The text the permission prompt starts with: the permission bits in octal, or `????`.
pub open spec fn permission_text(p: Option<u32>) -> Seq<char> {
    match p {
        Some(m) => text::octal4((m % 4096) as nat),
        None => "????"@,
    }
}

/// Effect of a key in the SFTP browser while no input line is open.
pub open spec fn browse_step(a: App, st: SftpState, key: Key, b: App, r: HandlerResult) -> bool {
    let remote = st.focus_side == Side::Remote;
    let sel = st.remote_selected as int;
    let has_file = sel < st.remote_files@.len();
    let busy = st.transfer_state is Transferring;
    if key == Key::Char('q') || key == Key::Esc {
        if st.local_selected_files@.len() > 0 || st.remote_selected_files@.len() > 0 {
            r is Continue && b == (App { sftp_state: b.sftp_state, ..a }) && (b.sftp_state matches Some(
                nst,
            ) && crate::tui::sftp_browser::selection_cleared(st, nst))
        } else {
            &&& b == (App { current_view: CurrentView::ServerList, sftp_state: None, ..a })
            &&& match st.session_id {
                Some(sid) => r matches HandlerResult::Perform(Effect::DisconnectSftp { session_id })
                    && session_id@ == sid@,
                None => r is Continue,
            }
        }
    } else if key == Key::Tab {
        r is Continue && with_browser(
            a,
            b,
            SftpState { focus_side: if remote { Side::Local } else { Side::Remote }, ..st },
        )
    } else if key == Key::Char('j') || key == Key::Down {
        r is Continue && with_browser(a, b, crate::tui::sftp_browser::moved_down_in(st))
    } else if key == Key::Char('k') || key == Key::Up {
        r is Continue && with_browser(a, b, crate::tui::sftp_browser::moved_up_in(st))
    } else if key == Key::Enter {
        b.sftp_state matches Some(nst) && exists|res: Result<Option<String>, String>|
            #[trigger] crate::tui::sftp_browser::directory_entered(st, nst, res) && entered_follow_up(
                a,
                st,
                nst,
                res,
                b,
                r,
            )
    } else if key == Key::Backspace {
        b.sftp_state matches Some(nst) && exists|res: Result<Option<String>, String>|
            #[trigger] crate::tui::sftp_browser::parent_entered(st, nst, res) && entered_follow_up(
                a,
                st,
                nst,
                res,
                b,
                r,
            )
    } else if key == Key::Char(' ') {
        r is Continue && b == (App { sftp_state: b.sftp_state, ..a }) && (b.sftp_state matches Some(nst)
            && crate::tui::sftp_browser::selection_toggled(st, nst))
    } else if key == Key::Char('a') {
        let count = if remote {
            st.remote_files@.len()
        } else {
            st.local_files@.len()
        };
        &&& r is Continue
        &&& b == (App { sftp_state: b.sftp_state, notifications: b.notifications, ..a })
        &&& b.sftp_state matches Some(nst) && crate::tui::sftp_browser::all_selected(st, nst)
        &&& crate::tui::notifications::notifies(
            a.notifications,
            b.notifications,
            NotificationType::Info,
            text::decimal(count) + " arquivo(s) selecionado(s)"@,
        )
    } else if key == Key::Char('u') {
        transfer_requested(a, st, b, r, true)
    } else if key == Key::Char('d') {
        transfer_requested(a, st, b, r, false)
    } else if key == Key::Char('r') {
        b == a && (r matches HandlerResult::Perform(Effect::ListLocal { then }) && then matches Some(t)
            && match st.session_id {
            Some(sid) => *t matches Effect::ListRemote { session_id, path, purpose } && session_id
                == sid && path == st.remote_path && purpose == crate::tui::app::ListPurpose::Refresh,
            None => *t matches Effect::Notify { kind, message } && kind == NotificationType::Info
                && message@ == "Atualizado!"@,
        })
    } else if key == Key::Char('M') || key == Key::Char('R') || key == Key::Char('x') || key
        == Key::Char('m') {
        if busy {
            r is Continue && told(a, b, NotificationType::Warning, "Transferência em andamento!"@)
        } else if key == Key::Char('M') {
            r is Continue && b == (App { sftp_state: b.sftp_state, ..a }) && (b.sftp_state matches Some(
                nst,
            ) && input_opened(st, nst, crate::tui::sftp_browser::SftpInputMode::Mkdir, Seq::empty()))
        } else if !remote || !has_file {
            r is Continue && b == a
        } else if key == Key::Char('R') {
            r is Continue && b == (App { sftp_state: b.sftp_state, ..a }) && (b.sftp_state matches Some(
                nst,
            ) && input_opened(
                st,
                nst,
                crate::tui::sftp_browser::SftpInputMode::Rename,
                st.remote_files@[sel].name@,
            ))
        } else if key == Key::Char('m') {
            r is Continue && b == (App { sftp_state: b.sftp_state, ..a }) && (b.sftp_state matches Some(
                nst,
            ) && input_opened(
                st,
                nst,
                crate::tui::sftp_browser::SftpInputMode::Chmod,
                permission_text(st.remote_files@[sel].permissions),
            ))
        } else {
            let f = st.remote_files@[sel];
            b == a && match st.session_id {
                Some(sid) => asks_change(r, st, sid) && (r matches HandlerResult::Perform(
                    Effect::ChangeRemote { op, origin, .. },
                ) && (origin matches crate::tui::app::OpOrigin::Removal { name } && name == f.name)
                    && if f.is_dir {
                    op matches crate::tui::app::RemoteOp::RemoveDir { path } && path@ == slash_join(
                        st.remote_path@,
                        f.name@,
                    )
                } else {
                    op matches crate::tui::app::RemoteOp::RemoveFile { path } && path@ == slash_join(
                        st.remote_path@,
                        f.name@,
                    )
                }),
                None => r is Continue,
            }
        }
    } else if key == Key::Char('b') {
        if remote {
            r is Continue && b == (App { sftp_state: b.sftp_state, ..a }) && (b.sftp_state matches Some(
                nst,
            ) && input_opened(
                st,
                nst,
                crate::tui::sftp_browser::SftpInputMode::Bookmark,
                text::after_last(st.remote_path@, '/'),
            ))
        } else {
            r is Continue && b == a
        }
    } else if key == Key::Char('B') {
        if remote && a.selected < a.filtered_indices@.len() && (a.filtered_indices@[a.selected as int]
            as int) < a.servers@.len() {
            let srv = a.servers@[a.filtered_indices@[a.selected as int] as int];
            if srv.bookmarks@.len() == 0 {
                r is Continue && told(
                    a,
                    b,
                    NotificationType::Info,
                    "Nenhum bookmark salvo. Use 'b' para salvar."@,
                )
            } else {
                let first = srv.bookmarks@[0];
                &&& told(a, b, NotificationType::Info, "Navegando para: "@ + first.name@)
                &&& match st.session_id {
                    Some(sid) => r matches HandlerResult::Perform(
                        Effect::ListRemote { session_id, path, purpose },
                    ) && session_id == sid && path == first.path && purpose
                        == crate::tui::app::ListPurpose::Jump,
                    None => r is Continue,
                }
            }
        } else {
            r is Continue && b == a
        }
    } else {
        r is Continue && b == a
    }
}

/// Opens the input line of the browser in `mode` with text `t`.
fn open_input(st: &mut SftpState, mode: crate::tui::sftp_browser::SftpInputMode, t: String)
    requires
        text::byte_len(t@) <= usize::MAX,
    ensures
        input_opened(*old(st), *final(st), mode, t@),
{
    let n = text::byte_length(t.as_str());
    st.input_mode = mode;
    st.input_buffer = t;
    st.input_cursor = n;
}

/// What follows entering a directory: the warning, and the next listing to ask for.
fn follow_entered(app: &mut App, res: Result<Option<String>, String>) -> (r: HandlerResult)
    requires
        old(app).wf(),
        old(app).sftp_state is Some,
    ensures
        final(app).wf(),
        *final(app) == (App { notifications: final(app).notifications, ..*old(app) }),
        old(app).sftp_state matches Some(nst) && ({
            let fl = nst.focus_side == Side::Local;
            &&& match res {
                Err(e) => crate::tui::notifications::notifies(
                    old(app).notifications,
                    final(app).notifications,
                    NotificationType::Warning,
                    e@,
                ),
                Ok(_) => final(app).notifications == old(app).notifications,
            }
            &&& if fl {
                match res {
                    Ok(Some(name)) => r matches HandlerResult::Perform(Effect::EnterLocalDir { name: n })
                        && n == name,
                    _ => r is Continue,
                }
            } else {
                match nst.session_id {
                    Some(sid) => r matches HandlerResult::Perform(
                        Effect::ListRemote { session_id, path, purpose },
                    ) && session_id == sid && path == nst.remote_path && purpose
                        == crate::tui::app::ListPurpose::Navigate,
                    None => r is Continue,
                }
            }
        }),
{
    let (local, sid, path) = match &app.sftp_state {
        Some(st) => (st.focus_side == Side::Local, st.session_id.clone(), st.remote_path.clone()),
        None => {
            return HandlerResult::Continue;
        },
    };
    let mut next: Option<String> = None;
    match res {
        Err(e) => {
            app.notifications.warning(e.as_str());
        },
        Ok(d) => {
            next = d;
        },
    }
    if local {
        match next {
            Some(name) => HandlerResult::Perform(Effect::EnterLocalDir { name }),
            None => HandlerResult::Continue,
        }
    } else {
        match sid {
            Some(sid) => HandlerResult::Perform(
                Effect::ListRemote {
                    session_id: sid,
                    path,
                    purpose: crate::tui::app::ListPurpose::Navigate,
                },
            ),
            None => HandlerResult::Continue,
        }
    }
}

fn browse_key(app: &mut App, key: Key) -> (r: HandlerResult)
    requires
        old(app).wf(),
        old(app).sftp_state matches Some(st) && transfer_fits(st) && browser_fits(st),
    ensures
        final(app).wf(),
        old(app).sftp_state matches Some(st) && browse_step(*old(app), st, key, *final(app), r),
{
    let ghost a = *app;
    let mut st = match app.sftp_state.take() {
        Some(st) => st,
        None => {
            return HandlerResult::Continue;
        },
    };
    let ghost st0 = st;
    let remote = st.focus_side == Side::Remote;
    let has_file = st.remote_selected < st.remote_files.len();
    if key == Key::Char('q') || key == Key::Esc {
        if st.local_selected_files.len() > 0 || st.remote_selected_files.len() > 0 {
            st.clear_selection();
            app.sftp_state = Some(st);
            HandlerResult::Continue
        } else {
            app.sftp_state = Some(st);
            match app.close_sftp() {
                Some(e) => HandlerResult::Perform(e),
                None => HandlerResult::Continue,
            }
        }
    } else if key == Key::Tab {
        st.toggle_focus();
        app.sftp_state = Some(st);
        HandlerResult::Continue
    } else if key == Key::Char('j') || key == Key::Down {
        st.next_item();
        app.sftp_state = Some(st);
        HandlerResult::Continue
    } else if key == Key::Char('k') || key == Key::Up {
        st.previous_item();
        app.sftp_state = Some(st);
        HandlerResult::Continue
    } else if key == Key::Enter {
        let res = st.enter_directory();
        let ghost st1 = st;
        app.sftp_state = Some(st);
        let r = follow_entered(app, res);
        assert(crate::tui::sftp_browser::directory_entered(st0, st1, res));
        assert(entered_follow_up(a, st0, st1, res, *app, r));
        r
    } else if key == Key::Backspace {
        let res = st.go_parent();
        let ghost st1 = st;
        app.sftp_state = Some(st);
        let r = follow_entered(app, res);
        assert(crate::tui::sftp_browser::parent_entered(st0, st1, res));
        assert(entered_follow_up(a, st0, st1, res, *app, r));
        r
    } else if key == Key::Char(' ') {
        st.toggle_select_current();
        app.sftp_state = Some(st);
        HandlerResult::Continue
    } else if key == Key::Char('a') {
        st.select_all_current();
        let count = if remote {
            st.remote_selected_files.len()
        } else {
            st.local_selected_files.len()
        };
        app.sftp_state = Some(st);
        let n = text::u64_to_decimal(count as u64);
        let msg = text::concat_strs(n.as_str(), " arquivo(s) selecionado(s)");
        app.notifications.info(msg.as_str());
        HandlerResult::Continue
    } else if key == Key::Char('u') || key == Key::Char('d') {
        app.sftp_state = Some(st);
        request_transfer(app, key == Key::Char('u'))
    } else if key == Key::Char('r') {
        let then = match &st.session_id {
            Some(sid) => Effect::ListRemote {
                session_id: sid.clone(),
                path: st.remote_path.clone(),
                purpose: crate::tui::app::ListPurpose::Refresh,
            },
            None => Effect::Notify { kind: NotificationType::Info, message: "Atualizado!".to_owned() },
        };
        app.sftp_state = Some(st);
        HandlerResult::Perform(Effect::ListLocal { then: Some(Box::new(then)) })
    } else if key == Key::Char('M') || key == Key::Char('R') || key == Key::Char('x') || key
        == Key::Char('m') {
        if st.is_transferring_now() {
            app.sftp_state = Some(st);
            app.notifications.warning("Transferência em andamento!");
            HandlerResult::Continue
        } else if key == Key::Char('M') {
            open_input(&mut st, crate::tui::sftp_browser::SftpInputMode::Mkdir, String::new());
            app.sftp_state = Some(st);
            HandlerResult::Continue
        } else if !remote || !has_file {
            app.sftp_state = Some(st);
            HandlerResult::Continue
        } else if key == Key::Char('R') {
            let t = st.remote_files[st.remote_selected].name.clone();
            open_input(&mut st, crate::tui::sftp_browser::SftpInputMode::Rename, t);
            app.sftp_state = Some(st);
            HandlerResult::Continue
        } else if key == Key::Char('m') {
            let t = match st.remote_files[st.remote_selected].permissions {
                Some(m) => text::permission_digits(m),
                None => "????".to_owned(),
            };
            proof {
                reveal_with_fuel(text::byte_len, 5);
                reveal_strlit("????");
            }
            open_input(&mut st, crate::tui::sftp_browser::SftpInputMode::Chmod, t);
            app.sftp_state = Some(st);
            HandlerResult::Continue
        } else {
            let f = st.remote_files[st.remote_selected].duplicate();
            let r = match &st.session_id {
                Some(sid) => {
                    let path = slash_join_string(st.remote_path.as_str(), f.name.as_str());
                    let op = if f.is_dir {
                        crate::tui::app::RemoteOp::RemoveDir { path }
                    } else {
                        crate::tui::app::RemoteOp::RemoveFile { path }
                    };
                    HandlerResult::Perform(
                        Effect::ChangeRemote {
                            session_id: sid.clone(),
                            op,
                            dir: st.remote_path.clone(),
                            origin: crate::tui::app::OpOrigin::Removal { name: f.name },
                        },
                    )
                },
                None => HandlerResult::Continue,
            };
            app.sftp_state = Some(st);
            r
        }
    } else if key == Key::Char('b') {
        if remote {
            let t = text::last_segment(st.remote_path.as_str(), '/');
            open_input(&mut st, crate::tui::sftp_browser::SftpInputMode::Bookmark, t);
        }
        app.sftp_state = Some(st);
        HandlerResult::Continue
    } else if key == Key::Char('B') {
        let sid = st.session_id.clone();
        app.sftp_state = Some(st);
        if remote && app.selected < app.filtered_indices.len() {
            let idx = app.filtered_indices[app.selected];
            if idx < app.servers.len() {
                if app.servers[idx].bookmarks.len() == 0 {
                    app.notifications.info("Nenhum bookmark salvo. Use 'b' para salvar.");
                    return HandlerResult::Continue;
                }
                let name = app.servers[idx].bookmarks[0].name.clone();
                let path = app.servers[idx].bookmarks[0].path.clone();
                let msg = text::concat_strs("Navegando para: ", name.as_str());
                app.notifications.info(msg.as_str());
                return match sid {
                    Some(sid) => HandlerResult::Perform(
                        Effect::ListRemote {
                            session_id: sid,
                            path,
                            purpose: crate::tui::app::ListPurpose::Jump,
                        },
                    ),
                    None => HandlerResult::Continue,
                };
            }
        }
        HandlerResult::Continue
    } else {
        app.sftp_state = Some(st);
        HandlerResult::Continue
    }
}

/// The SFTP browser `st` can take `key` without a panic or a counter overflow.
pub open spec fn sftp_key_ok(st: SftpState, key: Key) -> bool {
    if st.input_mode != crate::tui::sftp_browser::SftpInputMode::Inactive {
        input_key_ok(st, key)
    } else {
        transfer_fits(st) && browser_fits(st)
    }
}

/// Whether the sizes of `fs` add up to at most `u64::MAX`.
fn sizes_fit(fs: &Vec<FileInfo>) -> (b: bool)
    ensures
        b == (total_size(fs@) <= u64::MAX),
{
    let mut t: u64 = 0;
    let mut i: usize = 0;
    assert(fs@.take(0) =~= Seq::<FileInfo>::empty());
    while i < fs.len()
        invariant
            i <= fs@.len(),
            t == total_size(fs@.take(i as int)),
        decreases fs@.len() - i,
    {
        assert(fs@.take(i + 1).drop_last() =~= fs@.take(i as int));
        if t > u64::MAX - fs[i].size {
            proof {
                lemma_total_size_prefix(fs@, i + 1);
                assert(fs@.take(fs@.len() as int) =~= fs@);
            }
            return false;
        }
        t = t + fs[i].size;
        i = i + 1;
    }
    assert(fs@.take(fs@.len() as int) =~= fs@);
    true
}

/// Whether `key` may be handed to `handle_sftp_key` with this browser: the input
/// line's cursor sits where the key can edit, and the sizes and names involved fit
/// in machine integers.
pub fn sftp_key_fits(st: &SftpState, key: Key) -> (b: bool)
    ensures
        b == sftp_key_ok(*st, key),
{
    if st.input_mode != crate::tui::sftp_browser::SftpInputMode::Inactive {
        let buf = text::str_chars(st.input_buffer.as_str());
        if !text::bytes_fit(buf.as_slice(), 4) {
            return false;
        }
        let n = text::byte_length(st.input_buffer.as_str());
        let cur = st.input_cursor;
        let boundary = |b: usize| -> (r: bool)
            ensures
                r == text::char_boundary(buf@, b as int),
            { text::char_index_at(buf.as_slice(), b).is_some() };
        match key {
            Key::Char(_) => boundary(cur),
            Key::Backspace => cur == 0 || (boundary(cur - 1) && cur - 1 < n),
            Key::Delete => cur >= n || boundary(cur),
            _ => true,
        }
    } else {
        let up = collect_transfer_files(&st.local_files, &st.local_selected_files, st.local_selected);
        let down = collect_transfer_files(&st.remote_files, &st.remote_selected_files, st.remote_selected);
        let empty: Vec<FileInfo> = Vec::new();
        let (a, b) = match st.focus_side {
            Side::Local => (&up, &empty),
            Side::Remote => (&empty, &down),
        };
        if !sizes_fit(a) || !sizes_fit(b) {
            return false;
        }
        let mut i: usize = 0;
        while i < st.remote_files.len()
            invariant
                i <= st.remote_files@.len(),
                st.input_mode == crate::tui::sftp_browser::SftpInputMode::Inactive,
                transfer_fits(*st),
                forall|k: int| 0 <= k < i ==> text::byte_len(#[trigger] st.remote_files@[k].name@) <= usize::MAX,
            decreases st.remote_files@.len() - i,
        {
            let name = text::str_chars(st.remote_files[i].name.as_str());
            if !text::bytes_fit(name.as_slice(), 0) {
                assert(text::byte_len(st.remote_files@[i as int].name@) > usize::MAX);
                assert(!browser_fits(*st));
                return false;
            }
            i = i + 1;
        }
        let last = text::last_segment(st.remote_path.as_str(), '/');
        let lc = text::str_chars(last.as_str());
        text::bytes_fit(lc.as_slice(), 0)
    }
}

/// Effect of a key in the SFTP browser.
pub open spec fn sftp_step(a: App, key: Key, b: App, r: HandlerResult) -> bool {
    match a.sftp_state {
        None => r is Continue && b == a,
        Some(st) => if st.input_mode != crate::tui::sftp_browser::SftpInputMode::Inactive {
            if key == Key::Esc {
                r is Continue && b == (App { sftp_state: b.sftp_state, ..a }) && (b.sftp_state matches Some(
                    nst,
                ) && nst == (SftpState {
                    input_mode: crate::tui::sftp_browser::SftpInputMode::Inactive,
                    input_buffer: nst.input_buffer,
                    input_cursor: 0,
                    ..st
                }) && nst.input_buffer@.len() == 0)
            } else if key == Key::Enter {
                input_submitted(a, st, b, r)
            } else {
                r is Continue && b == (App { sftp_state: b.sftp_state, ..a }) && (b.sftp_state matches Some(
                    nst,
                ) && input_edited(st, key, nst))
            }
        } else {
            browse_step(a, st, key, b, r)
        },
    }
}

/// Handles a key in the SFTP browser: the input line when one is open, the panes
/// otherwise.
pub fn handle_sftp_key(app: &mut App, key: Key) -> (r: HandlerResult)
    requires
        old(app).wf(),
        old(app).sftp_state matches Some(st) ==> sftp_key_ok(st, key),
    ensures
        final(app).wf(),
        sftp_step(*old(app), key, *final(app), r),
{
    let inactive = match &app.sftp_state {
        Some(st) => st.input_mode == crate::tui::sftp_browser::SftpInputMode::Inactive,
        None => {
            return HandlerResult::Continue;
        },
    };
    if inactive {
        return browse_key(app, key);
    }
    if key == Key::Enter {
        return submit_input(app);
    }
    if let Some(st) = &mut app.sftp_state {
        if key == Key::Esc {
            st.input_mode = crate::tui::sftp_browser::SftpInputMode::Inactive;
            st.input_buffer = String::new();
            st.input_cursor = 0;
        } else {
            edit_input(st, key);
        }
    }
    HandlerResult::Continue
}

/// Effect of a mouse event: the wheel moves the cursor of the list or of the browser;
/// a click on a row of the server list (rows from 4 on) moves the cursor there, and a
/// right click also opens an SSH session to that server.
pub open spec fn mouse_step(a: App, m: Mouse, b: App, r: HandlerResult) -> bool {
    let in_sftp = a.current_view == CurrentView::SftpBrowser;
    let on_list = a.current_view == CurrentView::ServerList && a.form_state is None;
    let row = m.row as int;
    let hit = on_list && row >= 4 && row - 4 < a.filtered_indices@.len();
    match m.kind {
        MouseKind::ScrollUp => r is Continue && if in_sftp {
            match a.sftp_state {
                Some(st) => b == (App {
                    sftp_state: Some(crate::tui::sftp_browser::moved_up_in(st)),
                    ..a
                }),
                None => b == a,
            }
        } else {
            b == crate::tui::app::moved_up(a)
        },
        MouseKind::ScrollDown => r is Continue && if in_sftp {
            match a.sftp_state {
                Some(st) => b == (App {
                    sftp_state: Some(crate::tui::sftp_browser::moved_down_in(st)),
                    ..a
                }),
                None => b == a,
            }
        } else {
            b == crate::tui::app::moved_down(a)
        },
        MouseKind::LeftDown => r is Continue && if hit {
            b == (App { selected: (row - 4) as usize, ..a })
        } else {
            b == a
        },
        MouseKind::RightDown => if hit {
            &&& b == (App { selected: (row - 4) as usize, ..a })
            &&& match b.selection() {
                Some(i) => r matches HandlerResult::ConnectSsh(s) && s.same_as(a.servers@[i]),
                None => r is Continue,
            }
        } else {
            r is Continue && b == a
        },
        MouseKind::Other => r is Continue && b == a,
    }
}

/// Handles a mouse event.
pub fn handle_mouse_event(app: &mut App, mouse: Mouse) -> (r: HandlerResult)
    ensures
        mouse_step(*old(app), mouse, *final(app), r),
{
    let in_sftp = app.current_view == CurrentView::SftpBrowser;
    let on_list = app.current_view == CurrentView::ServerList && app.form_state.is_none();
    match mouse.kind {
        MouseKind::ScrollUp => {
            if in_sftp {
                if let Some(st) = &mut app.sftp_state {
                    st.previous_item();
                }
            } else {
                app.previous();
            }
            HandlerResult::Continue
        },
        MouseKind::ScrollDown => {
            if in_sftp {
                if let Some(st) = &mut app.sftp_state {
                    st.next_item();
                }
            } else {
                app.next();
            }
            HandlerResult::Continue
        },
        MouseKind::LeftDown | MouseKind::RightDown => {
            if on_list && mouse.row >= 4 {
                let clicked = (mouse.row - 4) as usize;
                if clicked < app.filtered_indices.len() {
                    app.selected = clicked;
                    if mouse.kind == MouseKind::RightDown {
                        if let Some(i) = app.selected_index() {
                            return HandlerResult::ConnectSsh(app.servers[i].duplicate());
                        }
                    }
                }
            }
            HandlerResult::Continue
        },
        MouseKind::Other => HandlerResult::Continue,
    }
}

/// What `complete_effect` does with `outcome` for `effect`, from `a` to `b`, asking next
/// for `next`. An outcome of another kind than the effect's changes nothing.
pub open spec fn effect_completed(a: App, effect: Effect, outcome: Outcome, b: App, next: Option<Effect>) -> bool {
    match effect {
        Effect::Notify { kind, message } => next is None && told(a, b, kind, message@),
        Effect::SaveConfig { then, .. } => {
            &&& match then {
                Some(t) => next == Some(*t),
                None => next is None,
            }
            &&& match outcome {
                Outcome::Done(Err(e)) => told(
                    a,
                    b,
                    NotificationType::Warning,
                    "Falha ao salvar config: "@ + e@,
                ),
                _ => b == a,
            }
        },
        Effect::TestConnection { name, .. } => next is None && match outcome {
            Outcome::Done(Ok(_)) => told(
                a,
                b,
                NotificationType::Success,
                name@ + ": Servidor acessível ✓"@,
            ),
            Outcome::Done(Err(e)) => told(a, b, NotificationType::Error, name@ + ": "@ + e@),
            _ => b == a,
        },
        Effect::CopyToClipboard { text } => next is None && match outcome {
            Outcome::Copied(true) => told(a, b, NotificationType::Success, "Copiado: "@ + text@),
            Outcome::Copied(false) => told(a, b, NotificationType::Error, "Falha ao copiar."@),
            _ => b == a,
        },
        Effect::ListLocal { then } => {
            &&& match then {
                Some(t) => next == Some(*t),
                None => next is None,
            }
            &&& match outcome {
                Outcome::Listing(l) => match a.sftp_state {
                    Some(st) => b == (App { sftp_state: b.sftp_state, ..a }) && (b.sftp_state matches Some(
                        nst,
                    ) && nst == (SftpState { local_files: nst.local_files, local_selected: 0, ..st })
                        && match l {
                        Ok(files) => nst.local_files == files,
                        Err(_) => nst.local_files@.len() == 0,
                    }),
                    None => b == a,
                },
                _ => b == a,
            }
        },
        Effect::EnterLocalDir { .. } => match outcome {
            Outcome::Moved(Ok(dir)) => match a.sftp_state {
                Some(st) => b == (App { sftp_state: b.sftp_state, ..a }) && (b.sftp_state matches Some(
                    nst,
                ) && nst == (SftpState { local: crate::sftp::local::LocalFs { current_dir: dir }, ..st }))
                    && (next matches Some(Effect::ListLocal { then }) && then is None),
                None => b == a && next is None,
            },
            Outcome::Moved(Err(e)) => next is None && told(a, b, NotificationType::Warning, e@),
            _ => next is None && b == a,
        },
        Effect::ChangeRemote { session_id, dir, origin, .. } => match outcome {
            Outcome::Done(Ok(_)) => {
                let announce = origin is Input;
                &&& next matches Some(Effect::ListRemote { session_id: s, path, purpose }) && s
                    == session_id && path == dir && purpose == (crate::tui::app::ListPurpose::AfterChange {
                    announce,
                })
                &&& match origin {
                    crate::tui::app::OpOrigin::Input => match a.sftp_state {
                        Some(st) => b == (App { sftp_state: b.sftp_state, ..a }) && (b.sftp_state matches Some(
                            nst,
                        ) && input_closed(st, nst)),
                        None => b == a,
                    },
                    crate::tui::app::OpOrigin::Removal { name } => told(
                        a,
                        b,
                        NotificationType::Success,
                        "Removido: "@ + name@,
                    ),
                }
            },
            Outcome::Done(Err(e)) => next is None && match origin {
                crate::tui::app::OpOrigin::Input => told(a, b, NotificationType::Error, "Erro: "@ + e@),
                crate::tui::app::OpOrigin::Removal { .. } => told(
                    a,
                    b,
                    NotificationType::Error,
                    "Erro ao remover: "@ + e@,
                ),
            },
            _ => next is None && b == a,
        },
        _ => true,
    }
}

/// Takes the outcome of an effect back into the state; may ask for a further effect.
pub fn complete_effect(app: &mut App, effect: Effect, outcome: Outcome) -> (next: Option<Effect>)
    requires
        old(app).wf(),
    ensures
        final(app).wf(),
        effect_completed(*old(app), effect, outcome, *final(app), next),
        effect matches Effect::ReadSshConfig ==> match outcome {
            Outcome::Imported(list) => crate::tui::app::imports_into(*old(app), list@, *final(app), next),
            _ => next is None && *final(app) == *old(app),
        },
        effect matches Effect::ConnectSftp { server } ==> match outcome {
            Outcome::Session(res) => crate::tui::app::sftp_opened(*old(app), server, res, *final(app), next),
            _ => next is None && *final(app) == *old(app),
        },
        effect matches Effect::ListRemote { path, purpose, .. } ==> next is None && match outcome {
            Outcome::Listing(l) => {
                &&& *final(app) == (App {
                    sftp_state: final(app).sftp_state,
                    notifications: final(app).notifications,
                    ..*old(app)
                })
                &&& match old(app).sftp_state {
                    Some(st) => final(app).sftp_state matches Some(nst)
                        && crate::tui::app::browser_after_listing(st, nst, path, purpose, l),
                    None => final(app).sftp_state is None,
                }
                &&& crate::tui::app::listing_notes(
                    old(app).notifications,
                    final(app).notifications,
                    purpose,
                    l,
                )
            },
            _ => *final(app) == *old(app),
        },
        (effect is DisconnectSftp || effect is Transfer || effect is ShowCursor || effect is HideCursor)
            ==> next is None && *final(app) == *old(app),
{
    match effect {
        Effect::Notify { kind, message } => {
            app.notifications.notify(kind, message.as_str());
            None
        },
        Effect::SaveConfig { config, then } => {
            if let Outcome::Done(Err(e)) = outcome {
                let msg = text::concat_strs("Falha ao salvar config: ", e.as_str());
                app.notifications.warning(msg.as_str());
            }
            match then {
                Some(t) => Some(*t),
                None => None,
            }
        },
        Effect::ReadSshConfig => match outcome {
            Outcome::Imported(list) => app.import_servers(list),
            _ => None,
        },
        Effect::TestConnection { name, .. } => {
            match outcome {
                Outcome::Done(Ok(_)) => {
                    let msg = text::concat_strs(name.as_str(), ": Servidor acessível ✓");
                    app.notifications.success(msg.as_str());
                },
                Outcome::Done(Err(e)) => {
                    let m1 = text::concat_strs(name.as_str(), ": ");
                    let msg = text::concat_strs(m1.as_str(), e.as_str());
                    app.notifications.error(msg.as_str());
                },
                _ => {},
            }
            None
        },
        Effect::CopyToClipboard { text: copied } => {
            match outcome {
                Outcome::Copied(true) => {
                    let msg = text::concat_strs("Copiado: ", copied.as_str());
                    app.notifications.success(msg.as_str());
                },
                Outcome::Copied(false) => {
                    app.notifications.error("Falha ao copiar.");
                },
                _ => {},
            }
            None
        },
        Effect::ConnectSftp { server } => match outcome {
            Outcome::Session(res) => app.sftp_connected(server, res),
            _ => None,
        },
        Effect::ListRemote { path, purpose, .. } => {
            if let Outcome::Listing(l) = outcome {
                app.remote_listed(path, purpose, l);
            }
            None
        },
        Effect::ListLocal { then } => {
            if let Outcome::Listing(l) = outcome {
                if let Some(st) = &mut app.sftp_state {
                    match l {
                        Ok(files) => st.refresh_local(files),
                        Err(_) => st.refresh_local(Vec::new()),
                    }
                }
            }
            match then {
                Some(t) => Some(*t),
                None => None,
            }
        },
        Effect::EnterLocalDir { .. } => match outcome {
            Outcome::Moved(Ok(dir)) => {
                if let Some(st) = &mut app.sftp_state {
                    st.local = crate::sftp::local::LocalFs { current_dir: dir };
                    Some(Effect::ListLocal { then: None })
                } else {
                    None
                }
            },
            Outcome::Moved(Err(e)) => {
                app.notifications.warning(e.as_str());
                None
            },
            _ => None,
        },
        Effect::ChangeRemote { session_id, dir, origin, .. } => match outcome {
            Outcome::Done(Ok(_)) => {
                let announce = match origin {
                    crate::tui::app::OpOrigin::Input => {
                        if let Some(st) = &mut app.sftp_state {
                            st.input_mode = crate::tui::sftp_browser::SftpInputMode::Inactive;
                            st.input_buffer = String::new();
                        }
                        true
                    },
                    crate::tui::app::OpOrigin::Removal { name } => {
                        let msg = text::concat_strs("Removido: ", name.as_str());
                        app.notifications.success(msg.as_str());
                        false
                    },
                };
                Some(
                    Effect::ListRemote {
                        session_id,
                        path: dir,
                        purpose: crate::tui::app::ListPurpose::AfterChange { announce },
                    },
                )
            },
            Outcome::Done(Err(e)) => {
                match origin {
                    crate::tui::app::OpOrigin::Input => {
                        let msg = text::concat_strs("Erro: ", e.as_str());
                        app.notifications.error(msg.as_str());
                    },
                    crate::tui::app::OpOrigin::Removal { .. } => {
                        let msg = text::concat_strs("Erro ao remover: ", e.as_str());
                        app.notifications.error(msg.as_str());
                    },
                }
                None
            },
            _ => None,
        },
        _ => None,
    }
}

/// Typing a character on the SFTP input line and then pressing `Backspace` gives back
/// the same text and cursor.
pub proof fn lemma_type_then_backspace(st: SftpState, c: char, s1: SftpState, s2: SftpState)
    requires
        input_key_ok(st, Key::Char(c)),
        input_edited(st, Key::Char(c), s1),
        input_edited(s1, Key::Backspace, s2),
    ensures
        s2.input_buffer@ == st.input_buffer@,
        s2 == (SftpState { input_buffer: s2.input_buffer, ..st }),
{
    let buf = st.input_buffer@;
    let cur = st.input_cursor as int;
    let k = char_index(buf, cur);
    let kk = choose|kk: int| 0 <= kk <= buf.len() && text::byte_len(#[trigger] buf.take(kk)) == cur;
    assert(0 <= kk <= buf.len() && byte_len_prefix(buf, kk) == cur);
    lemma_char_index(buf, kk);
    assert(k == kk);
    let buf1 = s1.input_buffer@;
    assert(buf1 == buf.take(k) + seq![c] + buf.skip(k));
    assert(buf1.take(k) =~= buf.take(k));
    assert(byte_len_prefix(buf1, k) == cur);
    lemma_char_index(buf1, k);
    assert(s1.input_cursor == cur + 1);
    assert(char_index(buf1, cur) == k);
    assert(buf1.take(k) + buf1.skip(k + 1) =~= buf);
}

} // verus!
