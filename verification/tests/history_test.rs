use lazyssh::tui::history::{CommandEntry, CommandHistory, MAX_HISTORY};

fn entry(command: &str, server: &str) -> CommandEntry {
    CommandEntry { command: command.to_string(), timestamp: String::new(), server_name: server.to_string() }
}

#[test]
fn test_add_command() {
    let mut h = CommandHistory { entries: Vec::new() };
    h.add("ls -la".to_string(), "server1".to_string(), String::new());
    assert_eq!(h.entries.len(), 1);
    assert_eq!(h.entries[0].command, "ls -la");
    assert_eq!(h.entries[0].server_name, "server1");
}

#[test]
fn test_add_empty_command_ignored() {
    let mut h = CommandHistory { entries: Vec::new() };
    h.add("".to_string(), "s".to_string(), String::new());
    h.add("   ".to_string(), "s".to_string(), String::new());
    assert_eq!(h.entries.len(), 0);
}

#[test]
fn test_no_consecutive_duplicates() {
    let mut h = CommandHistory { entries: Vec::new() };
    h.add("ls".to_string(), "s".to_string(), String::new());
    h.add("ls".to_string(), "s".to_string(), String::new());
    assert_eq!(h.entries.len(), 1);
}

#[test]
fn test_same_command_different_server() {
    let mut h = CommandHistory { entries: Vec::new() };
    h.add("ls".to_string(), "s1".to_string(), String::new());
    h.add("ls".to_string(), "s2".to_string(), String::new());
    assert_eq!(h.entries.len(), 2);
}

#[test]
fn test_fifo_limit() {
    let mut h = CommandHistory { entries: Vec::new() };
    for i in 0..MAX_HISTORY + 10 {
        h.entries.push(CommandEntry {
            command: format!("cmd{}", i),
            timestamp: String::new(),
            server_name: "s".to_string(),
        });
    }
    if h.entries.len() > MAX_HISTORY {
        let drain = h.entries.len() - MAX_HISTORY;
        h.entries.drain(..drain);
    }
    assert_eq!(h.entries.len(), MAX_HISTORY);
}

#[test]
fn test_search_empty_query_returns_recent() {
    let mut h = CommandHistory { entries: Vec::new() };
    h.entries.push(entry("ls", "s"));
    h.entries.push(entry("pwd", "s"));
    let results = h.search("");
    assert_eq!(results.len(), 2);
}

#[test]
fn test_search_filters() {
    let mut h = CommandHistory { entries: Vec::new() };
    h.entries.push(entry("ls -la", "s"));
    h.entries.push(entry("cd /tmp", "s"));
    let results = h.search("ls");
    assert_eq!(results.len(), 1);
    assert_eq!(results[0].command, "ls -la");
}

#[test]
fn test_search_case_insensitive() {
    let mut h = CommandHistory { entries: Vec::new() };
    h.entries.push(entry("Makefile", "s"));
    let results = h.search("make");
    assert_eq!(results.len(), 1);
}

#[test]
fn add_drops_oldest_beyond_limit() {
    let mut h = CommandHistory::new(Vec::new());
    for i in 0..MAX_HISTORY + 3 {
        assert!(h.add(format!("cmd{}", i), "s".to_string(), "2024-01-01 00:00:00".to_string()));
    }
    assert_eq!(h.len(), MAX_HISTORY);
    assert_eq!(h.entries[0].command, "cmd3");
    assert!(!h.add(format!("cmd{}", MAX_HISTORY + 2), "s".to_string(), String::new()));
}

#[test]
fn search_keeps_matches_in_insertion_order() {
    let mut h = CommandHistory::new(Vec::new());
    h.add("git status".into(), "a".into(), String::new());
    h.add("ls".into(), "a".into(), String::new());
    h.add("git log".into(), "a".into(), String::new());
    let r = h.search("GIT");
    assert_eq!(r.len(), 2);
    assert_eq!(r[0].command, "git status");
    assert_eq!(r[1].command, "git log");
}
