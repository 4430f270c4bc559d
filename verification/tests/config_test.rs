use lazyssh::config::file::{add_server, clear_stored_passwords, load_or_default, remove_server, restore_passwords_with, update_server};
use lazyssh::config::models::{AppConfig, Auth, Server};
use lazyssh::vault::Keyring;

fn server(name: &str, auth: Auth) -> Server {
    Server {
        name: name.to_string(),
        host: "192.168.1.100".to_string(),
        port: 22,
        user: "root".to_string(),
        auth,
        tags: vec!["prod".to_string()],
        pinned: false,
        last_connected: None,
        connection_count: 0,
        bookmarks: vec![],
        agent_forwarding: false,
        proxy_jump: None,
    }
}

#[test]
fn test_server_creation() {
    let server = Server {
        name: "myserver".to_string(),
        host: "192.168.1.100".to_string(),
        port: 22,
        user: "root".to_string(),
        auth: Auth::Key { path: "~/.ssh/id_ed25519".to_string(), passphrase: None },
        tags: vec!["prod".to_string()],
        pinned: false,
        last_connected: None,
        connection_count: 0,
        bookmarks: vec![],
        agent_forwarding: false,
        proxy_jump: None,
    };
    assert_eq!(server.name, "myserver");
    assert_eq!(server.port, 22);
}

#[test]
fn test_auth_password_variant() {
    let auth = Auth::Password { vault_key: "my-vault-key".to_string() };
    match &auth {
        Auth::Password { vault_key } => assert_eq!(vault_key, "my-vault-key"),
        _ => panic!("Expected Auth::Password variant"),
    }
    assert_eq!(auth, Auth::Password { vault_key: "my-vault-key".to_string() });
}

#[test]
fn config_test_test_empty_config() {
    let config = AppConfig { servers: vec![], sort_by: None };
    assert!(config.servers.is_empty());
}

#[test]
fn load_or_default_falls_back_to_empty() {
    let missing = load_or_default(None);
    assert!(missing.servers.is_empty());
    assert!(missing.sort_by.is_none());
    let broken = load_or_default(Some(Err("bad toml".into())));
    assert!(broken.servers.is_empty());
    let cfg = AppConfig { servers: vec![server("a", Auth::Key { path: "k".into(), passphrase: None })], sort_by: Some("name".into()) };
    let loaded = load_or_default(Some(Ok(cfg.clone())));
    assert_eq!(loaded, cfg);
}

#[test]
fn add_and_update_servers() {
    let mut cfg = AppConfig { servers: vec![], sort_by: None };
    add_server(&mut cfg, server("a", Auth::Key { path: "k".into(), passphrase: None }));
    add_server(&mut cfg, server("b", Auth::Key { path: "k".into(), passphrase: None }));
    assert_eq!(cfg.servers.len(), 2);
    let mut updated = server("b2", Auth::Key { path: "k2".into(), passphrase: None });
    updated.port = 2022;
    assert!(update_server(&mut Keyring::new(), &mut cfg, "b", updated.clone()));
    assert_eq!(cfg.servers[1], updated);
    assert!(!update_server(&mut Keyring::new(), &mut cfg, "zzz", updated));
    assert_eq!(cfg.servers.len(), 2);
}

#[test]
fn remove_server_drops_every_match() {
    let key = || Auth::Key { path: "k".into(), passphrase: None };
    let mut cfg = AppConfig {
        servers: vec![server("a", key()), server("b", key()), server("a", key())],
        sort_by: None,
    };
    remove_server(&mut Keyring::new(), &mut cfg, "a");
    assert_eq!(cfg.servers.len(), 1);
    assert_eq!(cfg.servers[0].name, "b");
}

#[test]
fn keyring_answers_fill_and_clear_passwords() {
    let mut cfg = AppConfig {
        servers: vec![
            server("a", Auth::Password { vault_key: "".into() }),
            server("b", Auth::Key { path: "k".into(), passphrase: None }),
            server("c", Auth::Password { vault_key: "kept".into() }),
        ],
        sort_by: None,
    };
    restore_passwords_with(&mut cfg, &vec![Some("s3cr3t".into()), Some("ignored".into()), Some("ignored".into())]);
    assert_eq!(cfg.servers[0].auth, Auth::Password { vault_key: "s3cr3t".into() });
    assert_eq!(cfg.servers[1].auth, Auth::Key { path: "k".into(), passphrase: None });
    assert_eq!(cfg.servers[2].auth, Auth::Password { vault_key: "kept".into() });
    clear_stored_passwords(&mut cfg, &vec![true, true, false]);
    assert_eq!(cfg.servers[0].auth, Auth::Password { vault_key: "".into() });
    assert_eq!(cfg.servers[2].auth, Auth::Password { vault_key: "kept".into() });
}
