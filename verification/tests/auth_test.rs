use lazyssh::config::models::Auth;
use lazyssh::ssh::auth::key_file;

#[test]
fn key_file_password_auth_returns_error() {
    let auth = Auth::Password { vault_key: "test".to_string() };
    let result = key_file(&auth);
    assert!(result.is_err(), "Password auth should return an error, not attempt to load key");
    assert!(result.unwrap_err().contains("password"), "Error should mention password flow");
}

#[test]
fn key_file_keeps_absolute_path_and_passphrase() {
    let auth = Auth::Key {
        path: "/tmp/nonexistent_key_that_does_not_exist".to_string(),
        passphrase: Some("pp".to_string()),
    };
    assert_eq!(
        key_file(&auth),
        Ok(("/tmp/nonexistent_key_that_does_not_exist".to_string(), Some("pp".to_string())))
    );
}

#[test]
fn key_file_expands_home() {
    let auth = Auth::Key { path: "~/.ssh/id_ed25519".to_string(), passphrase: None };
    let (path, pass) = key_file(&auth).unwrap();
    assert!(!path.starts_with('~'));
    assert!(path.ends_with("/.ssh/id_ed25519"));
    assert_eq!(pass, None);
}
