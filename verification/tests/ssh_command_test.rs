use lazyssh::config::models::{Auth, Server};
use lazyssh::ssh::args::{build_ssh_args, native_shell_command};
use lazyssh::ssh::exec::{ssh_command_outcome, ssh_command_plan};

fn server(name: &str, host: &str, port: u16, user: &str, auth: Auth) -> Server {
    Server {
        name: name.into(),
        host: host.into(),
        port,
        user: user.into(),
        auth,
        tags: vec![],
        pinned: false,
        last_connected: None,
        connection_count: 0,
        bookmarks: vec![],
        agent_forwarding: false,
        proxy_jump: None,
    }
}

fn key(path: &str) -> Auth {
    Auth::Key { path: path.into(), passphrase: None }
}

#[test]
fn test_native_shell_command_key_auth() {
    let server = server("test", "example.com", 22, "root", key("~/.ssh/id_ed25519"));
    let (cmd, args, _pw) = native_shell_command(&server);
    assert_eq!(cmd, "ssh");
    assert!(args.contains(&"-i".to_string()));
    assert!(args.contains(&"root@example.com".to_string()));
}

#[test]
fn test_native_shell_command_password_auth() {
    let server = server("test", "example.com", 22, "root", Auth::Password { vault_key: "secret123".into() });
    let (cmd, args, pw) = native_shell_command(&server);
    assert_eq!(cmd, "sshpass");
    assert_eq!(args[0], "ssh");
    assert!(args.contains(&"root@example.com".to_string()));
    assert_eq!(pw, Some("secret123".into()));
    assert!(!args.contains(&"secret123".to_string()));
}

#[test]
fn test_native_shell_command_custom_port() {
    let server = server("test", "example.com", 2222, "admin", Auth::Password { vault_key: "pass".into() });
    let (cmd, args, pw) = native_shell_command(&server);
    assert_eq!(cmd, "sshpass");
    assert!(args.contains(&"2222".to_string()));
    assert!(args.contains(&"admin@example.com".to_string()));
    assert_eq!(pw, Some("pass".into()));
}

#[test]
fn test_native_shell_command_agent_forwarding() {
    let mut server = server("af-test", "10.0.0.1", 22, "root", key("~/.ssh/id_rsa"));
    server.agent_forwarding = true;
    let (_, args, _) = native_shell_command(&server);
    assert!(args.contains(&"-A".to_string()), "should contain -A flag");
}

#[test]
fn test_native_shell_command_no_agent_forwarding() {
    let server = server("no-af", "10.0.0.1", 22, "root", key("~/.ssh/id_rsa"));
    let (_, args, _) = native_shell_command(&server);
    assert!(!args.contains(&"-A".to_string()), "should NOT contain -A");
}

#[test]
fn test_native_shell_command_proxy_jump() {
    let mut server = server("pj-test", "internal.dev", 22, "deploy", key("~/.ssh/id_rsa"));
    server.proxy_jump = Some("user@bastion.example.com".to_string());
    let (_, args, _) = native_shell_command(&server);
    assert!(args.contains(&"-J".to_string()), "should contain -J flag");
    assert!(args.contains(&"user@bastion.example.com".to_string()), "should contain jump host");
}

#[test]
fn test_native_shell_command_no_proxy_jump() {
    let server = server("no-pj", "direct.dev", 22, "root", key("~/.ssh/id_rsa"));
    let (_, args, _) = native_shell_command(&server);
    assert!(!args.contains(&"-J".to_string()), "should NOT contain -J");
}

#[test]
fn test_native_shell_command_empty_proxy_jump() {
    let mut server = server("empty-pj", "direct.dev", 22, "root", key("~/.ssh/id_rsa"));
    server.proxy_jump = Some("".to_string());
    let (_, args, _) = native_shell_command(&server);
    assert!(!args.contains(&"-J".to_string()), "empty proxy_jump should be ignored");
}

#[test]
fn test_key_auth() {
    let server = server("test", "example.com", 22, "root", key("~/.ssh/id_ed25519"));
    let (cmd, args, _pw) = build_ssh_args(&server);
    assert_eq!(cmd, "ssh");
    assert!(args.contains(&"-i".to_string()));
    assert!(args.contains(&"root@example.com".to_string()));
}

#[test]
fn test_password_auth() {
    let server = server("test", "example.com", 22, "root", Auth::Password { vault_key: "secret123".into() });
    let (cmd, args, pw) = build_ssh_args(&server);
    assert_eq!(cmd, "sshpass");
    assert_eq!(args[0], "-e");
    assert_eq!(args[1], "ssh");
    assert!(args.contains(&"root@example.com".to_string()));
    assert_eq!(pw, Some("secret123".into()));
    assert!(!args.contains(&"secret123".to_string()));
}

#[test]
fn test_agent_forwarding() {
    let mut server = server("test", "example.com", 22, "root", key("~/.ssh/id_rsa"));
    server.agent_forwarding = true;
    let (_, args, _) = build_ssh_args(&server);
    assert!(args.contains(&"-A".to_string()));
}

#[test]
fn test_proxy_jump() {
    let mut server = server("test", "example.com", 22, "root", key("~/.ssh/id_rsa"));
    server.proxy_jump = Some("user@bastion.example.com".into());
    let (_, args, _) = build_ssh_args(&server);
    assert!(args.contains(&"-J".to_string()));
}

#[test]
fn test_empty_proxy_jump_ignored() {
    let mut server = server("test", "example.com", 22, "root", key("~/.ssh/id_rsa"));
    server.proxy_jump = Some("".into());
    let (_, args, _) = build_ssh_args(&server);
    assert!(!args.contains(&"-J".to_string()));
}

#[test]
fn key_path_is_expanded_and_args_are_ordered() {
    let server = server("t", "h.example", 2200, "bob", key("/keys/id"));
    let (cmd, args, pw) = build_ssh_args(&server);
    assert_eq!(cmd, "ssh");
    assert_eq!(args, vec!["-p", "2200", "-i", "/keys/id", "bob@h.example"]);
    assert_eq!(pw, None);
    let tilde = server_with_tilde();
    let (_, args, _) = build_ssh_args(&tilde);
    assert_eq!(args.len(), 3);
    assert_eq!(args[0], "-i");
    assert!(!args[1].starts_with('~'));
    assert!(args[1].ends_with("/.ssh/id_rsa"));
}

fn server_with_tilde() -> Server {
    server("t", "h", 22, "u", key("~/.ssh/id_rsa"))
}

#[test]
fn password_without_value_still_runs_sshpass() {
    let server = server("t", "h", 22, "u", Auth::Password { vault_key: "".into() });
    let (cmd, args, pw) = build_ssh_args(&server);
    assert_eq!(cmd, "sshpass");
    assert_eq!(args, vec!["-e", "ssh", "u@h"]);
    assert_eq!(pw, Some(String::new()));
}

#[test]
fn remote_command_plan_and_outcome() {
    let key_server = server("t", "h", 2222, "u", key("/k"));
    let (prog, args) = ssh_command_plan(&key_server, "uptime", true).unwrap();
    assert_eq!(prog, "ssh");
    assert!(args.contains(&"uptime".to_string()));
    let pw_server = server("t", "h", 22, "u", Auth::Password { vault_key: "pw".into() });
    assert!(ssh_command_plan(&pw_server, "uptime", false).is_err());
    let (prog, args) = ssh_command_plan(&pw_server, "uptime", true).unwrap();
    assert_eq!(prog, "sshpass");
    assert_eq!(args[..3], ["-p".to_string(), "pw".to_string(), "ssh".to_string()]);
    assert_eq!(args.last().unwrap(), "uptime");
    let empty_pw = server("t", "h", 22, "u", Auth::Password { vault_key: "".into() });
    assert!(ssh_command_plan(&empty_pw, "uptime", true).is_err());
    assert_eq!(ssh_command_outcome(true, "ok\n", ""), Ok("ok\n".to_string()));
    assert!(ssh_command_outcome(false, "", "boom\n").is_err());
}
