//! The colour theme of the UI.
use vstd::prelude::*;

verus! {

/// An RGB color used throughout the UI theme.
#[derive(Debug, Clone, Copy, PartialEq, Eq, Structural)]
pub struct Color {
    pub r: u8,
    pub g: u8,
    pub b: u8,
}

impl Color {
    pub fn new(r: u8, g: u8, b: u8) -> (c: Self)
        ensures
            c == (Color { r, g, b }),
    {
        Color { r, g, b }
    }
}

/// The colour with the given hex triple.
pub open spec fn rgb(r: u8, g: u8, b: u8) -> Color {
    Color { r, g, b }
}

/// Full colour theme for the Pika terminal IDE.
///
/// The default is a dark palette inspired by VS Code Dark+ / base16-ocean-dark.
#[derive(Debug, Clone, Copy, PartialEq, Eq, Structural)]
pub struct Theme {
    // -- overall defaults --
    pub bg: Color,
    pub fg: Color,
    // -- sidebar --
    pub sidebar_bg: Color,
    pub sidebar_fg: Color,
    pub sidebar_selected_bg: Color,
    pub sidebar_selected_fg: Color,
    // -- editor --
    pub editor_bg: Color,
    pub editor_fg: Color,
    pub editor_line_number_fg: Color,
    pub editor_current_line_bg: Color,
    // -- tabs --
    pub tab_active_bg: Color,
    pub tab_active_fg: Color,
    pub tab_inactive_bg: Color,
    pub tab_inactive_fg: Color,
    // -- status bar --
    pub status_bar_bg: Color,
    pub status_bar_fg: Color,
    // -- borders --
    pub border_color: Color,
    pub border_focused_color: Color,
    // -- diagnostics --
    pub error_fg: Color,
    pub warning_fg: Color,
    pub info_fg: Color,
}

/// The default theme: a Base16 Ocean Dark palette.
pub open spec fn default_theme() -> Theme {
    Theme {
        bg: rgb(0x2b, 0x30, 0x3b),
        fg: rgb(0xc0, 0xc5, 0xce),
        sidebar_bg: rgb(0x25, 0x2a, 0x34),
        sidebar_fg: rgb(0xc0, 0xc5, 0xce),
        sidebar_selected_bg: rgb(0x4f, 0x56, 0x67),
        sidebar_selected_fg: rgb(0xff, 0xff, 0xff),
        editor_bg: rgb(0x2b, 0x30, 0x3b),
        editor_fg: rgb(0xc0, 0xc5, 0xce),
        editor_line_number_fg: rgb(0x65, 0x73, 0x7e),
        editor_current_line_bg: rgb(0x34, 0x3d, 0x46),
        tab_active_bg: rgb(0x2b, 0x30, 0x3b),
        tab_active_fg: rgb(0xff, 0xff, 0xff),
        tab_inactive_bg: rgb(0x1b, 0x20, 0x2a),
        tab_inactive_fg: rgb(0x65, 0x73, 0x7e),
        status_bar_bg: rgb(0x00, 0x7a, 0xcc),
        status_bar_fg: rgb(0xff, 0xff, 0xff),
        border_color: rgb(0x3b, 0x41, 0x4d),
        border_focused_color: rgb(0x00, 0x7a, 0xcc),
        error_fg: rgb(0xbf, 0x61, 0x6a),
        warning_fg: rgb(0xeb, 0xcb, 0x8b),
        info_fg: rgb(0x8f, 0xa1, 0xb3),
    }
}

impl Default for Theme {
    fn default() -> (t: Self)
        ensures
            t == default_theme(),
    {
        Theme {
            bg: Color::new(0x2b, 0x30, 0x3b),
            fg: Color::new(0xc0, 0xc5, 0xce),
            sidebar_bg: Color::new(0x25, 0x2a, 0x34),
            sidebar_fg: Color::new(0xc0, 0xc5, 0xce),
            sidebar_selected_bg: Color::new(0x4f, 0x56, 0x67),
            sidebar_selected_fg: Color::new(0xff, 0xff, 0xff),
            editor_bg: Color::new(0x2b, 0x30, 0x3b),
            editor_fg: Color::new(0xc0, 0xc5, 0xce),
            editor_line_number_fg: Color::new(0x65, 0x73, 0x7e),
            editor_current_line_bg: Color::new(0x34, 0x3d, 0x46),
            tab_active_bg: Color::new(0x2b, 0x30, 0x3b),
            tab_active_fg: Color::new(0xff, 0xff, 0xff),
            tab_inactive_bg: Color::new(0x1b, 0x20, 0x2a),
            tab_inactive_fg: Color::new(0x65, 0x73, 0x7e),
            status_bar_bg: Color::new(0x00, 0x7a, 0xcc),
            status_bar_fg: Color::new(0xff, 0xff, 0xff),
            border_color: Color::new(0x3b, 0x41, 0x4d),
            border_focused_color: Color::new(0x00, 0x7a, 0xcc),
            error_fg: Color::new(0xbf, 0x61, 0x6a),
            warning_fg: Color::new(0xeb, 0xcb, 0x8b),
            info_fg: Color::new(0x8f, 0xa1, 0xb3),
        }
    }
}

} // verus!
