//! Colours and styles of the interface.

use vstd::prelude::*;

use crate::tui::ansi::{Modifiers, TermColor, TermStyle};

verus! {

/// The colour theme.
pub struct Theme;

/// No modifiers.
pub open spec fn none_mod() -> Modifiers {
    Modifiers { bold: false, italic: false, underlined: false }
}

/// Bold only.
pub open spec fn bold_mod() -> Modifiers {
    Modifiers { bold: true, italic: false, underlined: false }
}

/// A style with the given colours, adding the given modifiers and removing none.
pub open spec fn style_of(fg: Option<TermColor>, bg: Option<TermColor>, add: Modifiers) -> TermStyle {
    TermStyle { fg, bg, add_modifier: add, sub_modifier: none_mod() }
}

fn no_mods() -> (m: Modifiers)
    ensures
        m == none_mod(),
{
    Modifiers { bold: false, italic: false, underlined: false }
}

fn bold_only() -> (m: Modifiers)
    ensures
        m == bold_mod(),
{
    Modifiers { bold: true, italic: false, underlined: false }
}

impl Theme {
    /// Main colour: cyan.
    pub fn primary() -> (c: TermColor)
        ensures
            c == TermColor::Cyan,
    {
        TermColor::Cyan
    }

    /// Second colour: blue.
    pub fn secondary() -> (c: TermColor)
        ensures
            c == TermColor::Blue,
    {
        TermColor::Blue
    }

    /// Accent colour: magenta.
    pub fn accent() -> (c: TermColor)
        ensures
            c == TermColor::Magenta,
    {
        TermColor::Magenta
    }

    /// Colour of success: green.
    pub fn success() -> (c: TermColor)
        ensures
            c == TermColor::Green,
    {
        TermColor::Green
    }

    /// Colour of warnings: yellow.
    pub fn warning() -> (c: TermColor)
        ensures
            c == TermColor::Yellow,
    {
        TermColor::Yellow
    }

    /// Colour of errors: red.
    pub fn error() -> (c: TermColor)
        ensures
            c == TermColor::Red,
    {
        TermColor::Red
    }

    /// Background colour: dark gray.
    pub fn background() -> (c: TermColor)
        ensures
            c == TermColor::DarkGray,
    {
        TermColor::DarkGray
    }

    /// Text colour: white.
    pub fn text() -> (c: TermColor)
        ensures
            c == TermColor::White,
    {
        TermColor::White
    }

    /// Colour of dimmed text: gray.
    pub fn text_dim() -> (c: TermColor)
        ensures
            c == TermColor::Gray,
    {
        TermColor::Gray
    }

    /// Titles: bold, in the main colour.
    pub fn title_style() -> (s: TermStyle)
        ensures
            s == style_of(Some(TermColor::Cyan), None, bold_mod()),
    {
        TermStyle { fg: Some(Self::primary()), bg: None, add_modifier: bold_only(), sub_modifier: no_mods() }
    }

    /// The selected row: bold black on the main colour.
    pub fn selected_style() -> (s: TermStyle)
        ensures
            s == style_of(Some(TermColor::Black), Some(TermColor::Cyan), bold_mod()),
    {
        TermStyle {
            fg: Some(TermColor::Black),
            bg: Some(Self::primary()),
            add_modifier: bold_only(),
            sub_modifier: no_mods(),
        }
    }

    /// Borders: the second colour.
    pub fn border_style() -> (s: TermStyle)
        ensures
            s == style_of(Some(TermColor::Blue), None, none_mod()),
    {
        TermStyle { fg: Some(Self::secondary()), bg: None, add_modifier: no_mods(), sub_modifier: no_mods() }
    }

    /// Borders of modal windows: bold, in the accent colour.
    pub fn modal_border_style() -> (s: TermStyle)
        ensures
            s == style_of(Some(TermColor::Magenta), None, bold_mod()),
    {
        TermStyle { fg: Some(Self::accent()), bg: None, add_modifier: bold_only(), sub_modifier: no_mods() }
    }

    /// Titles of modal windows: bold, in the accent colour.
    pub fn modal_title_style() -> (s: TermStyle)
        ensures
            s == style_of(Some(TermColor::Magenta), None, bold_mod()),
    {
        TermStyle { fg: Some(Self::accent()), bg: None, add_modifier: bold_only(), sub_modifier: no_mods() }
    }

    /// Input fields: white on black.
    pub fn input_style() -> (s: TermStyle)
        ensures
            s == style_of(Some(TermColor::White), Some(TermColor::Black), none_mod()),
    {
        TermStyle {
            fg: Some(Self::text()),
            bg: Some(TermColor::Black),
            add_modifier: no_mods(),
            sub_modifier: no_mods(),
        }
    }

    /// The focused input field: bold, main colour on black.
    pub fn input_active_style() -> (s: TermStyle)
        ensures
            s == style_of(Some(TermColor::Cyan), Some(TermColor::Black), bold_mod()),
    {
        TermStyle {
            fg: Some(Self::primary()),
            bg: Some(TermColor::Black),
            add_modifier: bold_only(),
            sub_modifier: no_mods(),
        }
    }

    /// Prompts: bold, in the colour of success.
    pub fn prompt_style() -> (s: TermStyle)
        ensures
            s == style_of(Some(TermColor::Green), None, bold_mod()),
    {
        TermStyle { fg: Some(Self::success()), bg: None, add_modifier: bold_only(), sub_modifier: no_mods() }
    }

    /// Error text.
    pub fn error_style() -> (s: TermStyle)
        ensures
            s == style_of(Some(TermColor::Red), None, none_mod()),
    {
        TermStyle { fg: Some(Self::error()), bg: None, add_modifier: no_mods(), sub_modifier: no_mods() }
    }

    /// Success text.
    pub fn success_style() -> (s: TermStyle)
        ensures
            s == style_of(Some(TermColor::Green), None, none_mod()),
    {
        TermStyle { fg: Some(Self::success()), bg: None, add_modifier: no_mods(), sub_modifier: no_mods() }
    }

    /// Warning text.
    pub fn warning_style() -> (s: TermStyle)
        ensures
            s == style_of(Some(TermColor::Yellow), None, none_mod()),
    {
        TermStyle { fg: Some(Self::warning()), bg: None, add_modifier: no_mods(), sub_modifier: no_mods() }
    }

    /// Dimmed text.
    pub fn dim_style() -> (s: TermStyle)
        ensures
            s == style_of(Some(TermColor::Gray), None, none_mod()),
    {
        TermStyle { fg: Some(Self::text_dim()), bg: None, add_modifier: no_mods(), sub_modifier: no_mods() }
    }
}

} // verus!
