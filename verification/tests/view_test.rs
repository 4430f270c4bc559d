use lazyssh::config::models::{Auth, Server};
use lazyssh::sftp::FileInfo;
use lazyssh::tui::ansi::TermColor;
use lazyssh::tui::app::{ConfirmAction, ConfirmState, CurrentView, FormField, FormState};
use lazyssh::tui::notifications::{Notification, NotificationType};
use lazyssh::tui::sftp_browser::{SftpInputMode, SftpState, Side};
use lazyssh::tui::ssh_terminal::{Selection, SshStatus, SshTerminalState};
use lazyssh::tui::view::{
    centered_origin, confirm_panel, file_line, form_panel, form_size, help_panel,
    hours_minutes_seconds_text, minutes_seconds_text, notification_line, notification_popup,
    pane_view, server_line, sftp_input_panel, sftp_status_panel, status_bar_lines, terminal_title,
};

fn server(tags: usize, pinned: bool) -> Server {
    Server {
        name: "web".to_string(),
        host: "10.0.0.1".to_string(),
        port: 2222,
        user: "u".to_string(),
        auth: Auth::Key { path: "~/.ssh/id_rsa".to_string(), passphrase: None },
        tags: (0..tags).map(|i| format!("t{}", i)).collect(),
        pinned,
        last_connected: None,
        connection_count: 0,
        bookmarks: vec![],
        agent_forwarding: false,
        proxy_jump: None,
    }
}

fn texts(line: &[(String, lazyssh::tui::ansi::TermStyle)]) -> Vec<String> {
    line.iter().map(|(t, _)| t.clone()).collect()
}

#[test]
fn server_line_shows_five_tags_and_the_rest_counted() {
    let line = server_line(&server(7, true));
    assert_eq!(
        texts(&line),
        vec!["📌 ", "web", " → ", "10.0.0.1", ":", "2222", " t0 ", " t1 ", " t2 ", " t3 ", " t4 ", " +2"]
    );
    assert_eq!(line[0].1.fg, Some(TermColor::Yellow));
    assert_eq!(line[6].1.fg, Some(TermColor::Black));
    let plain = server_line(&server(2, false));
    assert_eq!(texts(&plain), vec!["   ", "web", " → ", "10.0.0.1", ":", "2222", " t0 ", " t1 "]);
}

#[test]
fn file_lines_show_direction_and_size() {
    let f = FileInfo { name: "a.txt".to_string(), is_dir: false, size: 1536, permissions: None };
    assert_eq!(texts(&file_line(&f, true, true)), vec!["↑ ", "a.txt", " (1.5K)"]);
    assert_eq!(texts(&file_line(&f, true, false)), vec!["↓ ", "a.txt", " (1.5K)"]);
    assert_eq!(texts(&file_line(&f, false, true)), vec!["  ", "a.txt", " (1.5K)"]);
    let d = FileInfo { name: "docs".to_string(), is_dir: true, size: 0, permissions: None };
    assert_eq!(texts(&file_line(&d, true, true)), vec!["/ ", "docs", ""]);
}

#[test]
fn pane_titles_and_marks() {
    let mut st = SftpState::new(server(0, false));
    st.local.current_dir = "/home/u".to_string();
    st.remote_path = "/srv".to_string();
    st.local_files = vec![FileInfo { name: "x".into(), is_dir: false, size: 3, permissions: None }];
    st.local_selected_files = vec![0];
    st.focus_side = Side::Local;
    let (title, lines) = pane_view(&st, Side::Local);
    assert_eq!(title, " [L] Local: /home/u [FOCUS]");
    assert_eq!(texts(&lines[0]), vec!["↑ ", "x", " (3B)"]);
    let (rtitle, rlines) = pane_view(&st, Side::Remote);
    assert_eq!(rtitle, " [R] Remote: /srv ");
    assert!(rlines.is_empty());
}

#[test]
fn durations_are_zero_padded() {
    assert_eq!(minutes_seconds_text(125), "02:05");
    assert_eq!(minutes_seconds_text(6000), "100:00");
    assert_eq!(hours_minutes_seconds_text(3725), "01:02:05");
    assert_eq!(hours_minutes_seconds_text(0), "00:00:00");
}

#[test]
fn sftp_status_shows_marks_or_keys() {
    let mut st = SftpState::new(server(0, false));
    let idle = sftp_status_panel(&st, 0);
    assert_eq!(idle.title, " SFTP ");
    assert_eq!(texts(&idle.lines[0])[0], " Tab ");
    st.local_selected_files = vec![0, 1];
    let marked = sftp_status_panel(&st, 0);
    assert_eq!(texts(&marked.lines[0])[0], " 2 selecionado(s) ");
    st.start_transfer("f".to_string(), 10, true);
    let busy = sftp_status_panel(&st, 61);
    assert_eq!(busy.title, " Transferindo ");
    assert_eq!(texts(&busy.lines[0]), vec![" ⏳ Enviando... ", "01:01", " (barra de progresso em breve)"]);
}

#[test]
fn sftp_input_box_by_mode() {
    let mut st = SftpState::new(server(0, false));
    assert!(sftp_input_panel(&st).is_none());
    st.input_mode = SftpInputMode::Chmod;
    let p = sftp_input_panel(&st).unwrap();
    assert_eq!(p.title, " Permissões ");
    assert_eq!(texts(&p.lines[0]), vec!["  ", "755"]);
    st.input_buffer = "644".to_string();
    let p = sftp_input_panel(&st).unwrap();
    assert_eq!(texts(&p.lines[0]), vec!["  ", "644"]);
    assert_eq!(p.lines[0][1].1.fg, Some(TermColor::White));
}

#[test]
fn status_bar_lines_name_view_and_times() {
    let lines = status_bar_lines(&CurrentView::SftpBrowser, 3661, "12:34:56");
    assert_eq!(
        texts(&lines[0]),
        vec![" LazySSH v0.1.0 ", "│", " SFTP ", "│", " 01:01:01 ", "│", " 12:34:56 "]
    );
    assert_eq!(texts(&lines[1]), vec![" Tab:Alternar  u:Upload  d:Download  ?:Ajuda "]);
}

#[test]
fn notification_line_and_popup() {
    let n = Notification::new("feito", NotificationType::Success);
    let line = notification_line(&n, 2);
    assert_eq!(texts(&line), vec!["✓ ", "feito", " (2s)"]);
    assert_eq!(line[0].1.fg, Some(TermColor::Green));
    assert_eq!(notification_popup(0, 0, 100, 30, 2), (58, 2, 40, 4));
    assert_eq!(notification_popup(0, 0, 10, 5, 3), (2, 2, 6, 1));
}

#[test]
fn help_window_pads_keys() {
    let p = help_panel(&CurrentView::SshTerminal);
    assert_eq!(p.title, "── Atalhos — Terminal SSH ──");
    let first = &p.lines[0];
    assert_eq!(first[0].0.chars().count(), 18);
    assert!(first[0].0.starts_with("  "));
}

#[test]
fn confirm_window_asks_about_the_server() {
    let c = ConfirmState { action: ConfirmAction::DeleteServer { name: "db".to_string() } };
    let p = confirm_panel(&c);
    assert_eq!(p.title, " ⚠ Confirmação ");
    assert!(p.lines[0].is_empty());
    assert_eq!(texts(&p.lines[1]), vec!["  Remover servidor 'db'?  "]);
    assert_eq!(p.fill, Some(TermColor::Black));
    assert_eq!(centered_origin(80, 24, 45, 5), (17, 9));
    assert_eq!(centered_origin(20, 3, 45, 5), (0, 0));
}

#[test]
fn form_window_rows_follow_the_auth_type() {
    let mut f = FormState::new_insert();
    assert_eq!(form_size(&f), (50, 16));
    let p = form_panel(&f);
    assert_eq!(p.lines.len(), 13);
    assert_eq!(texts(&p.lines[0]), vec!["  ➕ Novo Servidor  "]);
    assert_eq!(p.lines[1][0].0.chars().count(), 48);
    assert_eq!(texts(&p.lines[2])[0], "▶ ");
    f.field = FormField::AuthType;
    f.auth_type = "password".to_string();
    assert_eq!(form_size(&f), (50, 14));
    let p = form_panel(&f);
    assert_eq!(p.lines.len(), 12);
    assert_eq!(texts(&p.lines[6]), vec!["▶ ", "🔐 Auth: ", "[password]", " ← →"]);
    assert_eq!(texts(&p.lines[8]), vec!["  ", "🏷️ Tags: ", " (nenhuma)"]);
}

#[test]
fn terminal_title_tells_state_scroll_and_selection() {
    let mut st = SshTerminalState::new(server(0, false));
    let (t, style) = terminal_title(&st);
    assert_eq!(t, " 🖥 web [⏳ Conectando...] ");
    assert_eq!(style.fg, Some(TermColor::Yellow));
    st.status = SshStatus::Error("falhou".to_string());
    st.scroll_offset = 3;
    st.selection = Some(Selection { start_row: 0, start_col: 0, end_row: 0, end_col: 1 });
    let (t, style) = terminal_title(&st);
    assert_eq!(t, " 🖥 web [falhou] [↑3 📋] ");
    assert_eq!(style.fg, Some(TermColor::Red));
}
