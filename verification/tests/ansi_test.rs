use lazyssh::tui::ansi::{parse_ansi_spans, TermColor, TermStyle};

fn segments_text(segments: &[(String, TermStyle)]) -> String {
    segments.iter().map(|(t, _)| t.as_str()).collect()
}

#[test]
fn test_parse_bracketed_paste() {
    let r = parse_ansi_spans("\x1b[?2004h");
    assert!(r.is_empty(), "bracketed paste CSI h should produce no segments");
}

#[test]
fn test_parse_bracketed_paste_off() {
    let r = parse_ansi_spans("\x1b[?2004l");
    assert!(r.is_empty(), "bracketed paste CSI l should produce no segments");
}

#[test]
fn test_parse_osc_title() {
    let r = parse_ansi_spans("\x1b]0;user@host: ~\x07hello");
    assert_eq!(segments_text(&r), "hello", "OSC should be skipped, only 'hello' remains");
}

#[test]
fn test_parse_osc_st() {
    let r = parse_ansi_spans("\x1b]3008;start=uuid\x1b\\hello");
    assert_eq!(segments_text(&r), "hello", "OSC with ST should be skipped");
}

#[test]
fn test_parse_sgr_colors() {
    let r = parse_ansi_spans("\x1b[31mred\x1b[32mgreen");
    assert_eq!(segments_text(&r), "redgreen");
    assert_eq!(r[0].1.fg, Some(TermColor::Red), "first segment should be red");
    assert_eq!(r[1].1.fg, Some(TermColor::Green), "second segment should be green");
}

#[test]
fn test_parse_sgr_reset() {
    let r = parse_ansi_spans("\x1b[31mred\x1b[0mnormal");
    assert_eq!(segments_text(&r), "rednormal");
    assert_eq!(r[0].1.fg, Some(TermColor::Red), "first segment is red");
    assert_eq!(r[1].1.fg, Some(TermColor::White), "after reset should be default");
}

#[test]
fn test_parse_bold_green_blue() {
    let r = parse_ansi_spans("\x1b[01;32muser\x1b[00m:\x1b[01;34m~\x1b[00m$ ");
    assert_eq!(segments_text(&r), "user:~$ ");
    assert!(r[0].1.add_modifier.bold, "user should be bold");
    assert!(!r[1].1.add_modifier.bold, ": should not be bold");
}

#[test]
fn test_parse_mixed_sequence() {
    let input = "\x1b[?2004h\x1b]0;admin@host: ~\x07\x1b[01;32madmin@host\x1b[00m:\x1b[01;34m~\x1b[00m$ ";
    let r = parse_ansi_spans(input);
    let text = segments_text(&r);
    assert!(text.contains("$"), "should contain prompt dollar sign");
    assert!(text.contains("admin@host"), "should contain username@host");
    assert!(!text.contains("2004"), "should not contain raw CSI codes");
}

#[test]
fn test_parse_sgr_leading_zero() {
    let r = parse_ansi_spans("\x1b[31mred\x1b[00mnormal");
    assert_eq!(segments_text(&r), "rednormal");
    assert_eq!(r[0].1.fg, Some(TermColor::Red));
    assert_eq!(r[1].1.fg, Some(TermColor::White));
}

#[test]
fn carriage_returns_are_dropped_and_plain_text_is_one_span() {
    let r = parse_ansi_spans("ab\rc");
    assert_eq!(r.len(), 1);
    assert_eq!(r[0].0, "abc");
    assert_eq!(r[0].1.fg, Some(TermColor::White));
}

#[test]
fn plain_output_is_one_plain_segment() {
    let r = parse_ansi_spans("hello, world\tok");
    assert_eq!(r.len(), 1);
    assert_eq!(r[0].0, "hello, world\tok");
    assert_eq!(r[0].1, lazyssh::tui::ansi::plain_style());
    assert!(parse_ansi_spans("").is_empty());
}
