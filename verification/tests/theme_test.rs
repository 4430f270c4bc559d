use lazyssh::tui::ansi::TermColor;
use lazyssh::tui::theme::Theme;

    #[test]
    fn test_primary_color() {
        assert_eq!(Theme::primary(), TermColor::Cyan);
    }

    #[test]
    fn test_secondary_color() {
        assert_eq!(Theme::secondary(), TermColor::Blue);
    }

    #[test]
    fn test_accent_color() {
        assert_eq!(Theme::accent(), TermColor::Magenta);
    }

    #[test]
    fn test_success_color() {
        assert_eq!(Theme::success(), TermColor::Green);
    }

    #[test]
    fn test_warning_color() {
        assert_eq!(Theme::warning(), TermColor::Yellow);
    }

    #[test]
    fn test_error_color() {
        assert_eq!(Theme::error(), TermColor::Red);
    }

    #[test]
    fn test_background_color() {
        assert_eq!(Theme::background(), TermColor::DarkGray);
    }

    #[test]
    fn test_text_color() {
        assert_eq!(Theme::text(), TermColor::White);
    }

    #[test]
    fn test_text_dim_color() {
        assert_eq!(Theme::text_dim(), TermColor::Gray);
    }

    #[test]
    fn test_title_style_has_bold() {
        let s = Theme::title_style();
        assert_eq!(s.fg, Some(TermColor::Cyan));
        assert!(s.add_modifier.bold);
    }

    #[test]
    fn test_selected_style() {
        let s = Theme::selected_style();
        assert_eq!(s.bg, Some(TermColor::Cyan));
        assert_eq!(s.fg, Some(TermColor::Black));
        assert!(s.add_modifier.bold);
    }

    #[test]
    fn test_border_style() {
        let s = Theme::border_style();
        assert_eq!(s.fg, Some(TermColor::Blue));
    }

    #[test]
    fn test_modal_border_style() {
        let s = Theme::modal_border_style();
        assert_eq!(s.fg, Some(TermColor::Magenta));
        assert!(s.add_modifier.bold);
    }

    #[test]
    fn test_input_style() {
        let s = Theme::input_style();
        assert_eq!(s.fg, Some(TermColor::White));
        assert_eq!(s.bg, Some(TermColor::Black));
    }

    #[test]
    fn test_input_active_style() {
        let s = Theme::input_active_style();
        assert_eq!(s.fg, Some(TermColor::Cyan));
        assert_eq!(s.bg, Some(TermColor::Black));
        assert!(s.add_modifier.bold);
    }

    #[test]
    fn test_prompt_style() {
        let s = Theme::prompt_style();
        assert_eq!(s.fg, Some(TermColor::Green));
        assert!(s.add_modifier.bold);
    }

    #[test]
    fn test_error_style() {
        let s = Theme::error_style();
        assert_eq!(s.fg, Some(TermColor::Red));
    }

    #[test]
    fn test_success_style() {
        let s = Theme::success_style();
        assert_eq!(s.fg, Some(TermColor::Green));
    }

    #[test]
    fn test_warning_style() {
        let s = Theme::warning_style();
        assert_eq!(s.fg, Some(TermColor::Yellow));
    }

    #[test]
    fn test_dim_style() {
        let s = Theme::dim_style();
        assert_eq!(s.fg, Some(TermColor::Gray));
    }

#[test]
fn plain_styles_remove_nothing() {
    let s = Theme::dim_style();
    assert!(!s.sub_modifier.bold && !s.add_modifier.bold);
    assert_eq!(s.bg, None);
}
