use lazyssh::config::models::{Auth, Server};
use lazyssh::tui::app::{FormField, FormMode, FormState};

fn blank_form(field: FormField, auth_type: &str) -> FormState {
    FormState {
        field,
        mode: FormMode::Insert,
        name: String::new(),
        host: String::new(),
        port: "22".into(),
        user: String::new(),
        auth_type: auth_type.into(),
        key_path: String::new(),
        passphrase: String::new(),
        password: String::new(),
        tags: String::new(),
    }
}

#[test]
fn test_form_state_edit_from_key_server() {
    let server = Server {
        name: "editme".into(),
        host: "10.0.0.1".into(),
        port: 2222,
        user: "admin".into(),
        auth: Auth::Key { path: "~/.ssh/id_ed25519".into(), passphrase: Some("secret".into()) },
        tags: vec![],
        pinned: true,
        last_connected: None,
        connection_count: 0,
        bookmarks: vec![],
        agent_forwarding: false,
        proxy_jump: None,
    };
    let fs = FormState::new_edit(&server, 0);
    assert_eq!(fs.name, "editme");
    assert_eq!(fs.port, "2222");
    assert_eq!(fs.key_path, "~/.ssh/id_ed25519");
    assert_eq!(fs.passphrase, "secret");
    assert!(fs.is_key_auth());
    assert_eq!(fs.server_index(), Some(0));
}

#[test]
fn test_form_state_edit_from_password_server() {
    let server = Server {
        name: "p".into(),
        host: "h".into(),
        port: 22,
        user: "u".into(),
        auth: Auth::Password { vault_key: "vk".into() },
        tags: vec![],
        pinned: false,
        last_connected: None,
        connection_count: 0,
        bookmarks: vec![],
        agent_forwarding: false,
        proxy_jump: None,
    };
    let fs = FormState::new_edit(&server, 0);
    assert!(!fs.is_key_auth());
    assert_eq!(fs.auth_type, "password");
}

#[test]
fn test_form_state_current_value() {
    let mut fs = blank_form(FormField::Name, "key");
    fs.name = "n".into();
    assert_eq!(fs.current_value(), "n");
    fs.field = FormField::Port;
    assert_eq!(fs.current_value(), "22");
}

#[test]
fn test_form_state_next_field_key() {
    let mut fs = blank_form(FormField::Name, "key");
    for _ in 0..8 {
        fs.next_field();
    }
    assert_eq!(fs.field, FormField::Name);
}

#[test]
fn test_form_state_next_field_password() {
    let mut fs = blank_form(FormField::Name, "password");
    fs.next_field();
    assert_eq!(fs.field, FormField::Host);
}

#[test]
fn test_form_state_prev_field() {
    let mut fs = blank_form(FormField::Passphrase, "key");
    fs.prev_field();
    assert_eq!(fs.field, FormField::KeyPath);
}

#[test]
fn test_form_state_build_auth_key() {
    let mut fs = blank_form(FormField::Name, "key");
    fs.name = "n".into();
    fs.key_path = "~/.ssh/custom".into();
    match fs.build_auth() {
        Auth::Key { path, passphrase } => {
            assert_eq!(path, "~/.ssh/custom");
            assert!(passphrase.is_none());
        }
        _ => panic!("expected Key auth"),
    }
}

#[test]
fn test_form_state_build_auth_password() {
    let mut fs = blank_form(FormField::Password, "password");
    fs.password = "vaultkey".into();
    match fs.build_auth() {
        Auth::Password { vault_key } => assert_eq!(vault_key, "vaultkey"),
        _ => panic!("expected Password auth"),
    }
}

#[test]
fn test_form_state_current_value_mut() {
    let mut fs = blank_form(FormField::Name, "key");
    fs.name = "old".into();
    *fs.current_value_mut() = "new".to_string();
    assert_eq!(fs.name, "new");
}

#[test]
fn test_form_state_insert_new_has_defaults() {
    let fs = FormState::new_insert();
    assert_eq!(fs.port, "22");
    assert_eq!(fs.user, "root");
    assert_eq!(fs.auth_type, "key");
    assert!(fs.is_key_auth());
    assert_eq!(fs.field, FormField::Name);
    assert_eq!(fs.server_index(), None);
}

#[test]
fn test_form_state_insert_next_field() {
    let mut fs = FormState::new_insert();
    fs.next_field();
    assert_eq!(fs.field, FormField::Host);
}

#[test]
fn test_form_state_insert_prev_field() {
    let mut fs = blank_form(FormField::Passphrase, "key");
    fs.prev_field();
    assert_eq!(fs.field, FormField::KeyPath);
}

#[test]
fn test_form_state_insert_current_value() {
    let fs = FormState::new_insert();
    assert_eq!(fs.current_value(), "");
    let mut fs2 = FormState::new_insert();
    fs2.field = FormField::Port;
    assert_eq!(fs2.current_value(), "22");
}

#[test]
fn test_form_state_insert_current_value_mut() {
    let mut fs = FormState::new_insert();
    *fs.current_value_mut() = "newval".to_string();
    assert_eq!(fs.name, "newval");
}

#[test]
fn test_form_state_insert_build_auth_key_default_path() {
    let fs = FormState::new_insert();
    match fs.build_auth() {
        Auth::Key { path, passphrase } => {
            assert_eq!(path, "~/.ssh/id_rsa");
            assert!(passphrase.is_none());
        }
        _ => panic!("expected Key"),
    }
}

#[test]
fn form_fields_cycle_back_in_password_mode() {
    let mut fs = blank_form(FormField::Name, "password");
    for _ in 0..7 {
        fs.next_field();
    }
    assert_eq!(fs.field, FormField::Name);
    fs.prev_field();
    assert_eq!(fs.field, FormField::Tags);
    fs.prev_field();
    assert_eq!(fs.field, FormField::Password);
}

#[test]
fn toggle_auth_type_twice_restores() {
    let mut fs = FormState::new_insert();
    fs.toggle_auth_type();
    assert_eq!(fs.auth_type, "password");
    fs.toggle_auth_type();
    assert_eq!(fs.auth_type, "key");
}

#[test]
fn edit_form_joins_tags() {
    let server = Server {
        name: "n".into(),
        host: "h".into(),
        port: 22,
        user: "u".into(),
        auth: Auth::Key { path: "k".into(), passphrase: None },
        tags: vec!["a".into(), "b".into(), "c".into()],
        pinned: false,
        last_connected: None,
        connection_count: 0,
        bookmarks: vec![],
        agent_forwarding: false,
        proxy_jump: None,
    };
    let fs = FormState::new_edit(&server, 3);
    assert_eq!(fs.tags, "a, b, c");
    assert_eq!(fs.passphrase, "");
    assert_eq!(fs.server_index(), Some(3));
}
