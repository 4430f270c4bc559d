use lazyssh::config::models::{Auth, Server};
use lazyssh::sftp::service::{SftpService, SftpServiceSession};
use lazyssh::ssh::service::{SessionStatus, SshService, SshSession};

fn test_server() -> Server {
    Server {
        name: "test".to_string(),
        host: "localhost".to_string(),
        port: 22,
        user: "testuser".to_string(),
        auth: Auth::Key { path: "~/.ssh/id_rsa".to_string(), passphrase: None },
        tags: vec![],
        pinned: false,
        last_connected: None,
        connection_count: 0,
        bookmarks: vec![],
        agent_forwarding: false,
        proxy_jump: None,
    }
}

fn mock_session() -> SshSession<u32> {
    SshSession::new(test_server()).unwrap()
}

#[test]
fn service_test_service_new() {
    let service: SshService<u32> = SshService::new();
    assert_eq!(service.session_count(), 0);
    assert!(service.list_sessions().is_empty());
}

#[test]
fn service_test_session_status_transitions() {
    let session = mock_session();
    assert_eq!(session.status, SessionStatus::Connecting);
    assert!(!session.is_connected());
}

#[test]
fn service_test_session_id_unique() {
    let s1 = mock_session();
    let s2 = mock_session();
    assert_ne!(s1.id, s2.id);
}

#[test]
fn service_test_get_session_found() {
    let mut service = SshService::new();
    let session = mock_session();
    let id = session.id.clone();
    service.add_session(session);
    let found = service.get_session(&id);
    assert!(found.is_some());
    assert_eq!(found.unwrap().id, id);
}

#[test]
fn service_test_get_session_not_found() {
    let service: SshService<u32> = SshService::new();
    assert!(service.get_session("nonexistent").is_none());
}

#[test]
fn service_test_get_session_mut() {
    let mut service = SshService::new();
    let session = mock_session();
    let id = session.id.clone();
    service.add_session(session);
    let found = service.get_session_mut(&id);
    assert!(found.is_some());
    assert_eq!(found.unwrap().id, id);
}

#[test]
fn service_test_disconnect_removes_session() {
    let mut service = SshService::new();
    let session = mock_session();
    let id = session.id.clone();
    service.add_session(session);
    assert_eq!(service.session_count(), 1);
    service.disconnect(&id);
    assert_eq!(service.session_count(), 0);
}

#[test]
fn service_test_disconnect_nonexistent_returns_ok() {
    let mut service: SshService<u32> = SshService::new();
    assert!(service.disconnect("ghost").is_none());
}

#[test]
fn service_test_disconnect_all_empties_sessions() {
    let mut service = SshService::new();
    service.add_session(mock_session());
    service.add_session(mock_session());
    service.add_session(mock_session());
    assert_eq!(service.session_count(), 3);
    service.disconnect_all();
    assert_eq!(service.session_count(), 0);
}

#[test]
fn test_list_sessions_returns_ids() {
    let mut service = SshService::new();
    let session = mock_session();
    let id = session.id.clone();
    service.add_session(session);
    let ids = service.list_sessions();
    assert_eq!(ids.len(), 1);
    assert_eq!(ids[0], id);
}

#[test]
fn test_list_sessions_non_empty() {
    let mut service: SftpService<u32> = SftpService::new();
    service.add_session(SftpServiceSession::new(test_server()).unwrap());
    assert_eq!(service.list_sessions().len(), 1);
}

#[test]
fn service_test_session_count_non_empty() {
    let mut service = SshService::new();
    service.add_session(mock_session());
    service.add_session(mock_session());
    assert_eq!(service.session_count(), 2);
}

#[test]
fn test_default() {
    let service: SftpService<u32> = SftpService::default();
    assert_eq!(service.session_count(), 0);
}

#[test]
fn attach_then_disconnect_hands_back_the_connection() {
    let mut service = SshService::new();
    let mut session = mock_session();
    session.attach(7u32);
    assert!(session.is_connected());
    assert_eq!(session.status, SessionStatus::Connected);
    let id = service.add_session(session);
    assert_eq!(service.disconnect(&id), Some(7));
    assert!(service.get_session(&id).is_none());
    assert_eq!(service.disconnect(&id), None);
}

#[test]
fn adding_under_a_used_id_replaces_the_session() {
    let mut service = SshService::new();
    let mut first = mock_session();
    first.attach(1u32);
    let id = first.id.clone();
    service.add_session(first);
    let mut second = mock_session();
    second.id = id.clone();
    second.attach(2u32);
    service.add_session(second);
    assert_eq!(service.session_count(), 1);
    assert_eq!(service.get_session(&id).unwrap().handle, Some(2));
}

#[test]
fn disconnect_all_hands_back_live_connections_in_order() {
    let mut service = SshService::new();
    let mut a = mock_session();
    a.attach(10u32);
    let b = mock_session();
    let mut c = mock_session();
    c.attach(30u32);
    service.add_session(a);
    service.add_session(b);
    service.add_session(c);
    assert_eq!(service.disconnect_all(), vec![10, 30]);
    assert_eq!(service.session_count(), 0);
}

#[test]
fn detach_disconnects_the_session() {
    let mut s = mock_session();
    s.attach(5u32);
    assert_eq!(s.detach(), Some(5));
    assert_eq!(s.status, SessionStatus::Disconnected);
    assert_eq!(s.detach(), None);
}

#[test]
fn session_ids_are_version_4_uuids() {
    let s = mock_session();
    let id: Vec<char> = s.id.chars().collect();
    assert_eq!(id.len(), 36);
    assert_eq!(id[8], '-');
    assert_eq!(id[13], '-');
    assert_eq!(id[14], '4');
    assert!(s.id.chars().all(|c| c == '-' || c.is_ascii_hexdigit()));
}

#[test]
fn session_id_from_given_bytes() {
    let bytes = [0xff, 1, 2, 3, 4, 5, 0xab, 7, 0xff, 9, 10, 11, 12, 13, 14, 0xfe];
    let server = mock_session().server;
    let s: SshSession<u32> = SshSession::from_random_bytes(server.clone(), bytes);
    assert_eq!(s.id, "ff010203-0405-4b07-bf09-0a0b0c0d0efe");
    assert_eq!(s.server, server);
    assert_eq!(s.status, SessionStatus::Connecting);
    assert!(s.handle.is_none());
}
