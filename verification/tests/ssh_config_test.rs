use lazyssh::config::models::Auth;
use lazyssh::config::ssh_config::{parse_ssh_config, ssh_config_is_readable};

    #[test]
    fn test_parse_single_host() {
        let content = r#"
Host myserver
    HostName 192.168.1.100
    Port 22
    User root
    IdentityFile ~/.ssh/id_ed25519
"#;
        let servers = parse_ssh_config(content, "me", "/home/me");
        assert_eq!(servers.len(), 1);
        assert_eq!(servers[0].name, "myserver");
        assert_eq!(servers[0].host, "192.168.1.100");
        assert_eq!(servers[0].port, 22);
        assert_eq!(servers[0].user, "root");
        assert!(servers[0].tags.contains(&"imported".to_string()));
    }

    #[test]
    fn test_parse_multiple_hosts() {
        let content = r#"
Host server1
    HostName 10.0.0.1
    User admin

Host server2
    HostName 10.0.0.2
    Port 2222
    User deploy
    IdentityFile /home/me/.ssh/deploy_key
"#;
        let servers = parse_ssh_config(content, "me", "/home/me");
        assert_eq!(servers.len(), 2);
        assert_eq!(servers[0].name, "server1");
        assert_eq!(servers[0].port, 22); // default
        assert_eq!(servers[1].name, "server2");
        assert_eq!(servers[1].port, 2222);
    }

    #[test]
    fn test_parse_wildcard_host_ignored() {
        let content = r#"
Host *
    User default_user

Host realserver
    HostName 10.0.0.3
"#;
        let servers = parse_ssh_config(content, "me", "/home/me");
        assert_eq!(servers.len(), 1);
        assert_eq!(servers[0].name, "realserver");
    }

    #[test]
    fn test_parse_defaults() {
        let content = r#"
Host minimal
    HostName example.com
"#;
        let servers = parse_ssh_config(content, "me", "/home/me");
        assert_eq!(servers.len(), 1);
        assert_eq!(servers[0].port, 22);
        // user should be current username
    }

    #[test]
    fn test_parse_comments_and_empty_lines() {
        let content = r#"
# This is a comment

Host server1
    # inline comment
    HostName 1.2.3.4

    # blank lines above
"#;
        let servers = parse_ssh_config(content, "me", "/home/me");
        assert_eq!(servers.len(), 1);
    }

    #[test]
    fn test_parse_hostname_fallback() {
        // If no HostName, use Host value
        let content = r#"
Host myalias
    User root
"#;
        let servers = parse_ssh_config(content, "me", "/home/me");
        assert_eq!(servers.len(), 1);
        assert_eq!(servers[0].host, "myalias");
    }

    #[test]
    fn test_default_auth() {
        let content = r#"
Host s
    HostName h
"#;
        let servers = parse_ssh_config(content, "me", "/home/me");
        match &servers[0].auth {
            Auth::Key { path, passphrase } => {
                assert_eq!(path, "~/.ssh/id_rsa");
                assert!(passphrase.is_none());
            }
            _ => panic!("Expected Key auth"),
        }
    }

    #[test]
    fn test_imported_tag_present() {
        let content = r#"
Host server1
    HostName 10.0.0.1
"#;
        let servers = parse_ssh_config(content, "me", "/home/me");
        assert!(servers[0].tags.contains(&"imported".to_string()));
    }

    #[test]
    fn test_host_wildcard_skipped() {
        let content = r#"
Host *
    User default

Host server1
    HostName 1.1.1.1

Host *
    User other
"#;
        let servers = parse_ssh_config(content, "me", "/home/me");
        assert_eq!(servers.len(), 1);
        assert_eq!(servers[0].name, "server1");
    }

    #[test]
    fn ssh_config_test_empty_config() {
        let content = "";
        let servers = parse_ssh_config(content, "me", "/home/me");
        assert!(servers.is_empty());
    }

#[test]
fn user_defaults_to_the_given_one_and_keys_expand_home() {
    let content = "Host box\n    IdentityFile ~/.ssh/box_key\n";
    let servers = parse_ssh_config(content, "carol", "/home/carol");
    assert_eq!(servers[0].user, "carol");
    assert_eq!(servers[0].host, "box");
    match &servers[0].auth {
        Auth::Key { path, .. } => assert_eq!(path, "/home/carol/.ssh/box_key"),
        _ => panic!("expected key"),
    }
}

#[test]
fn readable_unless_a_separator_is_multibyte() {
    assert!(ssh_config_is_readable("Host a\n  HostName 1.2.3.4\n# comment\n\nPort\n"));
    assert!(ssh_config_is_readable(""));
    assert!(!ssh_config_is_readable("Host a\nHostName\u{3000}b\n"));
    assert!(!ssh_config_is_readable("Host\u{a0}a"));
    assert!(ssh_config_is_readable("# Host\u{a0}a\n  \u{a0}  \n"));
}
