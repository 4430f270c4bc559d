use lazyssh::config::models::{Auth, Server};
use lazyssh::tui::app::{App, CurrentView, Effect, InputMode, Outcome, SortKey};
use lazyssh::tui::handlers::{complete_effect, handle_server_list_key, HandlerResult, Key};
use lazyssh::tui::notifications::NotificationType;

fn test_servers() -> Vec<Server> {
    vec![
        Server {
            name: "server1".to_string(),
            host: "192.168.1.1".to_string(),
            port: 22,
            user: "user".to_string(),
            auth: Auth::Key { path: "~/.ssh/id_rsa".to_string(), passphrase: None },
            tags: vec!["prod".to_string()],
            pinned: false,
            last_connected: None,
            connection_count: 0,
            bookmarks: vec![],
            agent_forwarding: false,
            proxy_jump: None,
        },
        Server {
            name: "server2".to_string(),
            host: "192.168.1.2".to_string(),
            port: 22,
            user: "user".to_string(),
            auth: Auth::Password { vault_key: "key".to_string() },
            tags: vec!["dev".to_string()],
            pinned: true,
            last_connected: None,
            connection_count: 0,
            bookmarks: vec![],
            agent_forwarding: false,
            proxy_jump: None,
        },
    ]
}

fn named(name: &str, port: u16, pinned: bool, count: u32) -> Server {
    let mut s = test_servers().remove(0);
    s.name = name.to_string();
    s.host = format!("{}.example", name);
    s.port = port;
    s.pinned = pinned;
    s.connection_count = count;
    s
}

#[test]
fn test_empty_app() {
    let app = App::new(vec![]);
    assert!(app.filtered_indices.is_empty());
    assert_eq!(app.selected, 0);
    assert!(app.selected_server().is_none());
}

#[test]
fn test_next_wraps() {
    let mut app = App::new(test_servers());
    app.next();
    assert_eq!(app.selected, 1);
    app.next();
    assert_eq!(app.selected, 0);
}

#[test]
fn test_previous_wraps() {
    let mut app = App::new(test_servers());
    assert_eq!(app.selected, 0);
    app.previous();
    assert_eq!(app.selected, 1);
}

#[test]
fn test_filter_by_name() {
    let mut app = App::new(test_servers());
    app.filter("server1");
    assert_eq!(app.filtered_indices.len(), 1);
    assert_eq!(app.selected_server().unwrap().name, "server1");
}

#[test]
fn test_filter_by_tag() {
    let mut app = App::new(test_servers());
    app.filter("prod");
    assert_eq!(app.filtered_indices.len(), 1);
}

#[test]
fn test_filter_no_matches() {
    let mut app = App::new(test_servers());
    app.filter("nonexistent");
    assert!(app.filtered_indices.is_empty());
}

#[test]
fn test_selected_server() {
    let app = App::new(test_servers());
    let s = app.selected_server();
    assert!(s.is_some());
    assert_eq!(s.unwrap().name, "server1");
}

#[test]
fn test_selected_server_empty() {
    let app = App::new(vec![]);
    assert!(app.selected_server().is_none());
}

#[test]
fn startup_notification_counts_servers() {
    let app = App::new(test_servers());
    let v = app.notifications.visible_notifications();
    assert_eq!(v[0].message, "2 servidor(es) carregado(s).");
    let empty = App::new(vec![]);
    let v = empty.notifications.visible_notifications();
    assert_eq!(v[0].message, "Nenhum servidor configurado. Pressione 'a' para adicionar.");
    assert!(matches!(v[0].notification_type, NotificationType::Info));
}

#[test]
fn sorting_puts_pinned_first_and_keeps_ties_in_order() {
    let mut app = App::new(vec![
        named("delta", 22, false, 1),
        named("alpha", 2200, false, 9),
        named("charlie", 22, true, 5),
        named("bravo", 80, false, 9),
    ]);
    app.cycle_sort_by();
    assert_eq!(app.sort_by.as_deref(), Some("name"));
    let names: Vec<&str> = app.servers.iter().map(|s| s.name.as_str()).collect();
    assert_eq!(names, vec!["charlie", "alpha", "bravo", "delta"]);
    app.cycle_sort_by();
    assert_eq!(app.sort_by.as_deref(), Some("port"));
    let names: Vec<&str> = app.servers.iter().map(|s| s.name.as_str()).collect();
    assert_eq!(names, vec!["charlie", "delta", "bravo", "alpha"]);
    app.cycle_sort_by();
    app.cycle_sort_by();
    assert_eq!(app.sort_by.as_deref(), Some("frequency"));
    let names: Vec<&str> = app.servers.iter().map(|s| s.name.as_str()).collect();
    assert_eq!(names, vec!["charlie", "bravo", "alpha", "delta"]);
    app.cycle_sort_by();
    assert_eq!(app.sort_by, None);
    let shown = app.notifications.visible_notifications();
    assert_eq!(shown[1].message, "Ordenado por: Nome");
    assert_eq!(shown[2].message, "Ordenado por: Porta");
    let mut fresh = App::new(vec![]);
    fresh.sort_by = Some("frequency".into());
    fresh.cycle_sort_by();
    assert_eq!(fresh.notifications.visible_notifications()[1].message, "Ordenado por: Padrão");
}

#[test]
fn sort_key_reads_setting() {
    assert_eq!(lazyssh::tui::app::sort_key(&Some("port".into())), SortKey::Port);
    assert_eq!(lazyssh::tui::app::sort_key(&Some("other".into())), SortKey::Unsorted);
}

#[test]
fn import_skips_known_servers_and_saves() {
    let mut app = App::new(test_servers());
    let mut dup = test_servers().remove(0);
    dup.name = "renamed".into();
    let fresh = named("fresh", 22, false, 0);
    let eff = app.import_servers(vec![dup, fresh.clone(), fresh]);
    assert_eq!(app.servers.len(), 3);
    assert_eq!(app.filtered_indices, vec![0, 1, 2]);
    match eff {
        Some(Effect::SaveConfig { config, then: Some(t) }) => {
            assert_eq!(config.servers.len(), 3);
            match *t {
                Effect::Notify { message, .. } => assert_eq!(message, "Importados 1 servidor(es), 2 ignorado(s)"),
                _ => panic!("expected a notification"),
            }
        }
        _ => panic!("expected a save"),
    }
    let again = app.import_servers(vec![named("fresh", 22, false, 0)]);
    assert!(again.is_none());
    assert_eq!(app.servers.len(), 3);
}

#[test]
fn import_nothing_warns() {
    let mut app = App::new(vec![]);
    assert!(app.import_servers(vec![]).is_none());
    let v = app.notifications.visible_notifications();
    assert_eq!(v[v.len() - 1].message, "Nenhum servidor encontrado em ~/.ssh/config");
}

#[test]
fn scp_command_line() {
    let app = App::new(vec![]);
    let mut s = named("h", 2222, false, 0);
    s.auth = Auth::Password { vault_key: "pw".into() };
    let (prog, args) = app.sftp_upload_with_scp(&s, "/tmp/a", "/srv/a");
    assert_eq!(prog, "sshpass");
    assert_eq!(args, vec!["-p", "pw", "scp", "-P", "2222", "/tmp/a", "user@h.example:/srv/a"]);
    let mut k = named("k", 22, false, 0);
    k.auth = Auth::Key { path: "/keys/id".into(), passphrase: None };
    let (prog, args) = app.sftp_upload_with_scp(&k, "a", "b");
    assert_eq!(prog, "scp");
    assert_eq!(args, vec!["-i", "/keys/id", "a", "user@k.example:b"]);
}

#[test]
fn search_mode_filters_as_you_type() {
    let mut app = App::new(test_servers());
    let r = handle_server_list_key(&mut app, Key::Char('/'));
    assert!(matches!(r, HandlerResult::Perform(Effect::ShowCursor)));
    assert_eq!(app.input_mode, InputMode::Search);
    for c in "dev".chars() {
        handle_server_list_key(&mut app, Key::Char(c));
    }
    assert_eq!(app.input, "dev");
    assert_eq!(app.filtered_indices, vec![1]);
    handle_server_list_key(&mut app, Key::Backspace);
    assert_eq!(app.input, "de");
    let r = handle_server_list_key(&mut app, Key::Esc);
    assert!(matches!(r, HandlerResult::Perform(Effect::HideCursor)));
    assert_eq!(app.input, "");
    assert_eq!(app.filtered_indices, vec![0, 1]);
    assert_eq!(app.input_mode, InputMode::Normal);
}

#[test]
fn adding_a_server_through_the_form() {
    let mut app = App::new(vec![]);
    handle_server_list_key(&mut app, Key::Char('a'));
    assert_eq!(app.input_mode, InputMode::Insert);
    for c in "web".chars() {
        handle_server_list_key(&mut app, Key::Char(c));
    }
    handle_server_list_key(&mut app, Key::Tab);
    for c in "10.1.1.1".chars() {
        handle_server_list_key(&mut app, Key::Char(c));
    }
    handle_server_list_key(&mut app, Key::Tab);
    handle_server_list_key(&mut app, Key::Backspace);
    handle_server_list_key(&mut app, Key::Backspace);
    for c in "2022".chars() {
        handle_server_list_key(&mut app, Key::Char(c));
    }
    for _ in 0..5 {
        handle_server_list_key(&mut app, Key::Tab);
    }
    for c in " a, ,b ".chars() {
        handle_server_list_key(&mut app, Key::Char(c));
    }
    let r = handle_server_list_key(&mut app, Key::Enter);
    assert_eq!(app.servers.len(), 1);
    let s = &app.servers[0];
    assert_eq!(s.name, "web");
    assert_eq!(s.host, "10.1.1.1");
    assert_eq!(s.port, 2022);
    assert_eq!(s.tags, vec!["a", "b"]);
    assert_eq!(app.input_mode, InputMode::Normal);
    assert!(app.form_state.is_none());
    match r {
        HandlerResult::Perform(e) => {
            let next = complete_effect(&mut app, e, Outcome::Done(Err("disk full".into())));
            let next = next.expect("a notification follows the save");
            assert!(complete_effect(&mut app, next, Outcome::Nothing).is_none());
            let v = app.notifications.visible_notifications();
            assert_eq!(v[v.len() - 2].message, "Falha ao salvar config: disk full");
            assert_eq!(v[v.len() - 1].message, "Servidor 'web' adicionado!");
        }
        _ => panic!("expected a save"),
    }
}

#[test]
fn invalid_port_becomes_22_and_missing_name_is_refused() {
    let mut app = App::new(vec![]);
    handle_server_list_key(&mut app, Key::Char('a'));
    let mut form = app.form_state.take().unwrap();
    form.name = "x".into();
    form.host = "h".into();
    form.port = "99999".into();
    form.field = lazyssh::tui::app::FormField::Tags;
    app.form_state = Some(form);
    handle_server_list_key(&mut app, Key::Enter);
    assert_eq!(app.servers[0].port, 22);
    handle_server_list_key(&mut app, Key::Char('a'));
    let mut form = app.form_state.take().unwrap();
    form.field = lazyssh::tui::app::FormField::Tags;
    app.form_state = Some(form);
    let r = handle_server_list_key(&mut app, Key::Enter);
    assert!(matches!(r, HandlerResult::Continue));
    assert_eq!(app.servers.len(), 1);
    let v = app.notifications.visible_notifications();
    assert_eq!(v[v.len() - 1].message, "Nome e Host são obrigatórios.");
}

#[test]
fn delete_with_confirmation() {
    let mut app = App::new(test_servers());
    handle_server_list_key(&mut app, Key::Char('d'));
    assert_eq!(app.input_mode, InputMode::Confirm);
    let r = handle_server_list_key(&mut app, Key::Enter);
    assert!(matches!(r, HandlerResult::Perform(Effect::SaveConfig { .. })));
    assert_eq!(app.servers.len(), 1);
    assert_eq!(app.servers[0].name, "server2");
    assert!(app.confirm_state.is_none());
    let v = app.notifications.visible_notifications();
    assert_eq!(v[v.len() - 1].message, "Servidor 'server1' removido.");
}

#[test]
fn pin_enter_copy_and_quit() {
    let mut app = App::new(test_servers());
    handle_server_list_key(&mut app, Key::Char('p'));
    assert!(app.servers[0].pinned);
    match handle_server_list_key(&mut app, Key::Char('Y')) {
        HandlerResult::Perform(Effect::CopyToClipboard { text }) => assert_eq!(text, "user@192.168.1.1:22"),
        _ => panic!("expected a copy"),
    }
    assert!(complete_effect(&mut app, Effect::CopyToClipboard { text: "x".into() }, Outcome::Copied(false)).is_none());
    let v = app.notifications.visible_notifications();
    assert_eq!(v[v.len() - 1].message, "Falha ao copiar.");
    match handle_server_list_key(&mut app, Key::Enter) {
        HandlerResult::ConnectSsh(s) => assert_eq!(s.name, "server1"),
        _ => panic!("expected ssh"),
    }
    assert!(matches!(handle_server_list_key(&mut app, Key::Char('q')), HandlerResult::Quit));
}

#[test]
fn sftp_connection_outcomes() {
    let mut app = App::new(test_servers());
    let e = app.open_sftp().expect("a server is selected");
    let next = complete_effect(&mut app, e, Outcome::Session(Ok("sid-1".into())));
    assert_eq!(app.current_view, CurrentView::SftpBrowser);
    let next = next.expect("the local pane is listed first");
    let next = complete_effect(&mut app, next, Outcome::Listing(Ok(vec![])));
    let list_remote = next.expect("then the remote pane");
    let files = vec![lazyssh::sftp::FileInfo { name: "a".into(), is_dir: false, size: 1, permissions: None }];
    assert!(complete_effect(&mut app, list_remote, Outcome::Listing(Ok(files))).is_none());
    let st = app.sftp_state.as_ref().unwrap();
    assert_eq!(st.status, "Conectado");
    assert_eq!(st.remote_files.len(), 1);
    assert_eq!(st.session_id.as_deref(), Some("sid-1"));
    let close = app.close_sftp();
    assert!(matches!(close, Some(Effect::DisconnectSftp { .. })));
    assert_eq!(app.current_view, CurrentView::ServerList);
}

#[test]
fn ssh_session_messages() {
    let mut app = App::new(vec![]);
    app.ssh_session_ended(Ok(false));
    app.ssh_session_ended(Err("no ssh".into()));
    let v = app.notifications.visible_notifications();
    assert_eq!(v[1].message, "SSH saiu sem término bem-sucedido.");
    assert_eq!(v[2].message, "Falha ao abrir SSH: no ssh");
}

#[test]
fn selected_server_can_be_changed_in_place() {
    let mut app = App::new(test_servers());
    let count = app.servers.len();
    app.selected_server_mut().unwrap().name = "renamed".to_string();
    assert_eq!(app.selected_server().unwrap().name, "renamed");
    assert_eq!(app.servers.len(), count);
    app.filtered_indices.clear();
    assert!(app.selected_server_mut().is_none());
}
