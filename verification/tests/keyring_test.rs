use lazyssh::config::models::{Auth, Server};
use lazyssh::vault::account_key;

fn test_server() -> Server {
    Server {
        name: "test".into(),
        host: "10.0.0.1".into(),
        port: 22,
        user: "root".into(),
        auth: Auth::Key { path: "~/.ssh/id_rsa".into(), passphrase: None },
        tags: vec![],
        pinned: false,
        last_connected: None,
        connection_count: 0,
        bookmarks: vec![],
        agent_forwarding: false,
        proxy_jump: None,
    }
}

#[test]
fn test_account_key_format() {
    let server = test_server();
    assert_eq!(account_key(&server), "root@10.0.0.1:22");
}

#[test]
fn account_key_uses_port() {
    let mut server = test_server();
    server.port = 2222;
    server.user = "ana".into();
    assert_eq!(account_key(&server), "ana@10.0.0.1:2222");
}
