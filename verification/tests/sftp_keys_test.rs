use lazyssh::config::models::{Auth, Server};
use lazyssh::sftp::FileInfo;
use lazyssh::tui::app::{App, Effect, ListPurpose, OpOrigin, Outcome, RemoteOp};
use lazyssh::tui::handlers::{
    complete_effect, handle_mouse_event, handle_sftp_key, sftp_key_fits, HandlerResult, Key, Mouse, MouseKind,
};
use lazyssh::tui::sftp_browser::{SftpInputMode, SftpState, Side};

fn server() -> Server {
    Server {
        name: "s".into(),
        host: "h".into(),
        port: 22,
        user: "u".into(),
        auth: Auth::Key { path: "/k".into(), passphrase: None },
        tags: vec![],
        pinned: false,
        last_connected: None,
        connection_count: 0,
        bookmarks: vec![],
        agent_forwarding: false,
        proxy_jump: None,
    }
}

fn file(name: &str, is_dir: bool, size: u64) -> FileInfo {
    FileInfo { name: name.into(), is_dir, size, permissions: Some(0o100644) }
}

fn browsing_app() -> App {
    let mut app = App::new(vec![server()]);
    let mut st = SftpState::new(server());
    st.session_id = Some("sid".into());
    st.remote_path = "/srv".into();
    st.local.current_dir = "/home/u".into();
    st.local_files = vec![file("a.txt", false, 10), file("dir", true, 0), file("b.txt", false, 5)];
    st.remote_files = vec![file("r.log", false, 7), file("sub", true, 0)];
    app.sftp_state = Some(st);
    app.current_view = lazyssh::tui::app::CurrentView::SftpBrowser;
    app
}

#[test]
fn mkdir_through_the_input_line() {
    let mut app = browsing_app();
    handle_sftp_key(&mut app, Key::Char('M'));
    assert_eq!(app.sftp_state.as_ref().unwrap().input_mode, SftpInputMode::Mkdir);
    for c in "nova".chars() {
        handle_sftp_key(&mut app, Key::Char(c));
    }
    handle_sftp_key(&mut app, Key::Left);
    handle_sftp_key(&mut app, Key::Char('X'));
    handle_sftp_key(&mut app, Key::Delete);
    handle_sftp_key(&mut app, Key::Home);
    handle_sftp_key(&mut app, Key::Char('_'));
    assert_eq!(app.sftp_state.as_ref().unwrap().input_buffer, "_novX");
    let r = handle_sftp_key(&mut app, Key::Enter);
    let e = match r {
        HandlerResult::Perform(e) => e,
        _ => panic!("expected a change on the server"),
    };
    match &e {
        Effect::ChangeRemote { op: RemoteOp::Mkdir { path }, dir, .. } => {
            assert_eq!(path, "/srv/_novX");
            assert_eq!(dir, "/srv");
        }
        _ => panic!("expected mkdir"),
    }
    let next = complete_effect(&mut app, e, Outcome::Done(Ok(()))).unwrap();
    assert!(matches!(next, Effect::ListRemote { purpose: ListPurpose::AfterChange { announce: true }, .. }));
    assert_eq!(app.sftp_state.as_ref().unwrap().input_mode, SftpInputMode::Inactive);
    assert!(complete_effect(&mut app, next, Outcome::Listing(Err("gone".into()))).is_none());
    let v = app.notifications.visible_notifications();
    assert_eq!(v[v.len() - 1].message, "Operação concluída!");
}

#[test]
fn multibyte_input_keeps_byte_cursor() {
    let mut app = browsing_app();
    handle_sftp_key(&mut app, Key::Char('M'));
    handle_sftp_key(&mut app, Key::Char('ç'));
    let st = app.sftp_state.as_ref().unwrap();
    assert_eq!(st.input_buffer, "ç");
    assert_eq!(st.input_cursor, 1);
    handle_sftp_key(&mut app, Key::End);
    assert_eq!(app.sftp_state.as_ref().unwrap().input_cursor, 2);
    handle_sftp_key(&mut app, Key::Esc);
    let st = app.sftp_state.as_ref().unwrap();
    assert_eq!(st.input_mode, SftpInputMode::Inactive);
    assert_eq!(st.input_cursor, 0);
}

#[test]
fn chmod_prompt_and_invalid_octal() {
    let mut app = browsing_app();
    app.sftp_state.as_mut().unwrap().focus_side = Side::Remote;
    handle_sftp_key(&mut app, Key::Char('m'));
    let st = app.sftp_state.as_ref().unwrap();
    assert_eq!(st.input_buffer, "0644");
    assert_eq!(st.input_cursor, 4);
    handle_sftp_key(&mut app, Key::Char('9'));
    let r = handle_sftp_key(&mut app, Key::Enter);
    assert!(matches!(r, HandlerResult::Continue));
    let v = app.notifications.visible_notifications();
    assert_eq!(v[v.len() - 1].message, "Erro: Invalid octal permissions");
    handle_sftp_key(&mut app, Key::Backspace);
    match handle_sftp_key(&mut app, Key::Enter) {
        HandlerResult::Perform(Effect::ChangeRemote { op: RemoteOp::SetPermissions { path, mode }, .. }) => {
            assert_eq!(path, "/srv/r.log");
            assert_eq!(mode, 0o644);
        }
        _ => panic!("expected chmod"),
    }
}

#[test]
fn upload_of_marked_files() {
    let mut app = browsing_app();
    handle_sftp_key(&mut app, Key::Char('a'));
    assert_eq!(app.sftp_state.as_ref().unwrap().local_selected_files, vec![0, 1, 2]);
    match handle_sftp_key(&mut app, Key::Char('u')) {
        HandlerResult::Perform(Effect::Transfer { jobs, upload, .. }) => {
            assert!(upload);
            assert_eq!(jobs.len(), 2);
            assert_eq!(jobs[0].from, "/home/u/a.txt");
            assert_eq!(jobs[0].to, "/srv/a.txt");
            assert_eq!(jobs[1].name, "b.txt");
        }
        _ => panic!("expected a transfer"),
    }
    let st = app.sftp_state.as_ref().unwrap();
    assert!(st.is_transferring);
    assert_eq!(st.transfer_progress.as_ref().unwrap().bytes_total, 15);
    assert_eq!(st.transfer_progress.as_ref().unwrap().file_name, "2 arquivos");
    assert!(matches!(handle_sftp_key(&mut app, Key::Char('d')), HandlerResult::Continue));
    let v = app.notifications.visible_notifications();
    assert_eq!(v[1].message, "3 arquivo(s) selecionado(s)");
    assert_eq!(v[2].message, "Enviando 2 arquivo(s)...");
    assert!(!app.transfer_message(lazyssh::tui::app::SftpOpResult::Upload("a.txt".into())));
    assert!(app.transfer_message(lazyssh::tui::app::SftpOpResult::Error("__done__".into())));
    let list = app.transfers_done().unwrap();
    assert!(complete_effect(&mut app, list, Outcome::Listing(Ok(vec![]))).is_none());
    assert!(!app.sftp_state.as_ref().unwrap().is_transferring);
}

#[test]
fn removing_and_navigating_remote() {
    let mut app = browsing_app();
    app.sftp_state.as_mut().unwrap().focus_side = Side::Remote;
    match handle_sftp_key(&mut app, Key::Char('x')) {
        HandlerResult::Perform(Effect::ChangeRemote { op: RemoteOp::RemoveFile { path }, origin: OpOrigin::Removal { name }, .. }) => {
            assert_eq!(path, "/srv/r.log");
            assert_eq!(name, "r.log");
        }
        _ => panic!("expected removal"),
    }
    handle_sftp_key(&mut app, Key::Char('j'));
    match handle_sftp_key(&mut app, Key::Enter) {
        HandlerResult::Perform(Effect::ListRemote { path, purpose: ListPurpose::Navigate, .. }) => assert_eq!(path, "/srv/sub"),
        _ => panic!("expected a listing"),
    }
    match handle_sftp_key(&mut app, Key::Backspace) {
        HandlerResult::Perform(Effect::ListRemote { path, .. }) => assert_eq!(path, "/srv"),
        _ => panic!("expected a listing"),
    }
    handle_sftp_key(&mut app, Key::Char('b'));
    assert_eq!(app.sftp_state.as_ref().unwrap().input_buffer, "srv");
    match handle_sftp_key(&mut app, Key::Enter) {
        HandlerResult::Perform(Effect::SaveConfig { config, .. }) => {
            assert_eq!(config.servers[0].bookmarks.len(), 1);
            assert_eq!(config.servers[0].bookmarks[0].path, "/srv");
        }
        _ => panic!("expected a save"),
    }
    match handle_sftp_key(&mut app, Key::Char('B')) {
        HandlerResult::Perform(Effect::ListRemote { path, purpose: ListPurpose::Jump, .. }) => assert_eq!(path, "/srv"),
        _ => panic!("expected a jump"),
    }
}

#[test]
fn quit_clears_marks_then_closes() {
    let mut app = browsing_app();
    handle_sftp_key(&mut app, Key::Char(' '));
    assert!(matches!(handle_sftp_key(&mut app, Key::Char('q')), HandlerResult::Continue));
    assert!(app.sftp_state.as_ref().unwrap().local_selected_files.is_empty());
    assert!(matches!(handle_sftp_key(&mut app, Key::Esc), HandlerResult::Perform(Effect::DisconnectSftp { .. })));
    assert!(app.sftp_state.is_none());
}

#[test]
fn mouse_clicks_select_rows() {
    let mut app = App::new(vec![server(), server(), server()]);
    app.current_view = lazyssh::tui::app::CurrentView::ServerList;
    let r = handle_mouse_event(&mut app, Mouse { kind: MouseKind::LeftDown, row: 6 });
    assert!(matches!(r, HandlerResult::Continue));
    assert_eq!(app.selected, 2);
    handle_mouse_event(&mut app, Mouse { kind: MouseKind::LeftDown, row: 9 });
    assert_eq!(app.selected, 2);
    handle_mouse_event(&mut app, Mouse { kind: MouseKind::ScrollDown, row: 0 });
    assert_eq!(app.selected, 0);
    let r = handle_mouse_event(&mut app, Mouse { kind: MouseKind::RightDown, row: 5 });
    assert!(matches!(r, HandlerResult::ConnectSsh(_)));
    assert_eq!(app.selected, 1);
}

#[test]
fn key_fits_checks_the_input_cursor() {
    let mut st = SftpState::new(fits_server());
    assert!(sftp_key_fits(&st, Key::Char('u')));
    st.input_mode = SftpInputMode::Rename;
    st.input_buffer = "é".to_string();
    st.input_cursor = 1;
    assert!(!sftp_key_fits(&st, Key::Char('x')));
    assert!(!sftp_key_fits(&st, Key::Delete));
    st.input_cursor = 2;
    assert!(sftp_key_fits(&st, Key::Char('x')));
    // Backspace removes the byte before the cursor, which here is inside the character.
    assert!(!sftp_key_fits(&st, Key::Backspace));
    st.input_buffer = "ab".to_string();
    assert!(sftp_key_fits(&st, Key::Backspace));
    st.input_cursor = 0;
    assert!(sftp_key_fits(&st, Key::Backspace));
}

#[test]
fn transfer_failure_texts() {
    assert_eq!(App::transfer_failure(true, "x"), "SCP erro: x");
    assert_eq!(App::transfer_failure(false, "y"), "Erro: y");
}

fn fits_server() -> Server {
    Server {
        name: "s".into(),
        host: "h".into(),
        port: 22,
        user: "u".into(),
        auth: Auth::Key { path: "/k".into(), passphrase: None },
        tags: vec![],
        pinned: false,
        last_connected: None,
        connection_count: 0,
        bookmarks: vec![],
        agent_forwarding: false,
        proxy_jump: None,
    }
}
