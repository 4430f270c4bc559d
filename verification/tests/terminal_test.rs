use lazyssh::config::models::{Auth, Server};
use lazyssh::tui::ansi::{Modifiers, TermColor, TermStyle};
use lazyssh::tui::ssh_terminal::{visible_window, SshStatus, SshTerminalState};
use lazyssh::tui::view::terminal_line_spans;

fn terminal() -> SshTerminalState {
    SshTerminalState::new(Server {
        name: "box".to_string(),
        host: "h".to_string(),
        port: 22,
        user: "u".to_string(),
        auth: Auth::Key { path: "/k".to_string(), passphrase: None },
        tags: vec![],
        pinned: false,
        last_connected: None,
        connection_count: 0,
        bookmarks: vec![],
        agent_forwarding: false,
        proxy_jump: None,
    })
}

#[test]
fn received_text_is_split_into_lines() {
    let mut t = terminal();
    t.feed_output("ab\r\ncd");
    assert_eq!(t.output, vec!["ab".to_string()]);
    assert_eq!(t.current_line, "cd");
    t.feed_output("x\u{8}");
    assert_eq!(t.current_line, "cd");
    t.feed_output("\rz\n");
    assert_eq!(t.output, vec!["ab".to_string(), "cd".to_string(), "z".to_string()]);
    assert_eq!(t.current_line, "");
}

#[test]
fn scrolling_up_then_down_comes_back() {
    let mut t = terminal();
    for i in 0..10 {
        t.add_output(format!("line {}", i));
    }
    t.scroll_up(3);
    assert_eq!(t.scroll_offset, 3);
    t.scroll_down(3);
    assert_eq!(t.scroll_offset, 0);
    t.scroll_up(100);
    assert_eq!(t.scroll_offset, 9);
    t.scroll_down(100);
    assert_eq!(t.scroll_offset, 0);
}

#[test]
fn selection_spans_rows() {
    let mut t = terminal();
    t.add_output("hello".to_string());
    t.add_output("world".to_string());
    assert_eq!(t.get_selected_text(), None);
    t.start_selection(0, 1);
    t.update_selection(1, 2);
    t.end_selection();
    assert!(!t.is_selected(0, 0));
    assert!(t.is_selected(0, 1));
    assert!(t.is_selected(1, 2));
    assert!(!t.is_selected(1, 3));
    assert_eq!(t.get_selected_text(), Some("ello\nwo".to_string()));
    t.clear_selection();
    assert!(!t.is_selected(0, 1));
}

#[test]
fn shown_lines_end_with_the_state() {
    let mut t = terminal();
    t.add_output("a".to_string());
    t.current_line = "b".to_string();
    assert_eq!(t.display_lines(), vec!["a", "b", "⏳ Conectando..."]);
    t.set_connected("s1".to_string());
    assert_eq!(t.display_lines(), vec!["a", "b"]);
    t.set_error("falhou".to_string());
    assert!(matches!(t.status, SshStatus::Error(_)));
    assert_eq!(t.display_lines().last().unwrap(), "Pressione Ctrl+Q para voltar");
}

#[test]
fn window_of_visible_lines() {
    assert_eq!(visible_window(10, 4, 2), (4, 8, 0));
    assert_eq!(visible_window(2, 5, 0), (0, 2, 3));
    assert_eq!(visible_window(3, 2, 7), (0, 0, 0));
}

fn colored(fg: Option<TermColor>, bg: Option<TermColor>) -> TermStyle {
    let none = Modifiers { bold: false, italic: false, underlined: false };
    TermStyle { fg, bg, add_modifier: none, sub_modifier: none }
}

#[test]
fn terminal_lines_style_each_character_and_the_selection() {
    let mut t = terminal();
    t.start_selection(3, 1);
    t.update_selection(3, 1);
    let spans = terminal_line_spans(&t, 3, "a\x1b[31mbc\x1b[0md");
    let white = colored(Some(TermColor::White), None);
    let red = colored(Some(TermColor::Red), None);
    let picked = colored(Some(TermColor::Black), Some(TermColor::White));
    assert_eq!(
        spans,
        vec![
            ("a".to_string(), white),
            ("b".to_string(), picked),
            ("c".to_string(), red),
            ("d".to_string(), white),
        ]
    );
    let other_row = terminal_line_spans(&t, 4, "xy");
    assert_eq!(other_row, vec![("x".to_string(), white), ("y".to_string(), white)]);
}

#[test]
fn empty_terminal_line_gets_a_selectable_space() {
    let t = terminal();
    let raw = colored(None, None);
    assert_eq!(terminal_line_spans(&t, 0, ""), vec![(" ".to_string(), raw)]);
    assert_eq!(terminal_line_spans(&t, 0, "\x1b[1m"), vec![(" ".to_string(), raw)]);
}
