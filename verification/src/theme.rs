//! The editor's color palettes (dark and light), as 8-bit sRGB triples.

use vstd::prelude::*;

verus! {

/// Available editor themes.
#[derive(Debug, Clone, Copy, PartialEq, Eq, Structural)]
pub enum ThemeKind {
    /// Dark theme (default).
    Dark,
    /// Light theme.
    Light,
}

impl Default for ThemeKind {
    fn default() -> (r: Self)
        ensures
            r == ThemeKind::Dark,
    {
        ThemeKind::Dark
    }
}

/// An opaque 8-bit sRGB color.
#[derive(Debug, Clone, Copy, PartialEq, Eq, Structural)]
pub struct Rgb {
    /// Red.
    pub r: u8,
    /// Green.
    pub g: u8,
    /// Blue.
    pub b: u8,
}

/// The color `(r, g, b)`.
pub open spec fn rgb(r: u8, g: u8, b: u8) -> Rgb {
    Rgb { r, g, b }
}

/// The palette of the editor UI.
#[derive(Debug, Clone, Copy, PartialEq, Eq, Structural)]
pub struct EditorTheme {
    /// Background of the main window.
    pub bg: Rgb,
    /// Background of panels.
    pub panel_bg: Rgb,
    /// Background of widgets (buttons, inputs).
    pub widget_bg: Rgb,
    /// Background of hovered widgets.
    pub widget_hover: Rgb,
    /// Foreground text.
    pub fg: Rgb,
    /// Muted / secondary text.
    pub fg_muted: Rgb,
    /// Primary accent (selection, focus, primary buttons).
    pub accent: Rgb,
    /// Secondary accent (hover states).
    pub accent_hover: Rgb,
    /// Warning color.
    pub warning: Rgb,
    /// Error / danger color.
    pub danger: Rgb,
    /// Success color.
    pub success: Rgb,
    /// Color of the stroke around selected items.
    pub selection_stroke: Rgb,
    /// Color of the stroke around hovered items.
    pub hover_stroke: Rgb,
}

/// The dark palette.
pub open spec fn dark_palette() -> EditorTheme {
    EditorTheme {
        bg: rgb(30, 30, 30),
        panel_bg: rgb(37, 37, 38),
        widget_bg: rgb(60, 60, 60),
        widget_hover: rgb(75, 75, 75),
        fg: rgb(220, 220, 220),
        fg_muted: rgb(153, 153, 153),
        accent: rgb(0, 122, 204),
        accent_hover: rgb(14, 140, 228),
        warning: rgb(204, 153, 0),
        danger: rgb(204, 0, 0),
        success: rgb(40, 180, 80),
        selection_stroke: rgb(0, 122, 204),
        hover_stroke: rgb(120, 120, 120),
    }
}

/// The light palette.
pub open spec fn light_palette() -> EditorTheme {
    EditorTheme {
        bg: rgb(245, 245, 245),
        panel_bg: rgb(252, 252, 252),
        widget_bg: rgb(220, 220, 220),
        widget_hover: rgb(200, 200, 200),
        fg: rgb(40, 40, 40),
        fg_muted: rgb(120, 120, 120),
        accent: rgb(0, 122, 204),
        accent_hover: rgb(14, 140, 228),
        warning: rgb(180, 140, 0),
        danger: rgb(204, 0, 0),
        success: rgb(40, 160, 70),
        selection_stroke: rgb(0, 122, 204),
        hover_stroke: rgb(120, 120, 120),
    }
}

impl Default for EditorTheme {
    fn default() -> (r: Self)
        ensures
            r == dark_palette(),
    {
        EditorTheme::dark()
    }
}

impl EditorTheme {
    /// The dark theme (the default).
    pub fn dark() -> (r: EditorTheme)
        ensures
            r == dark_palette(),
    {
        EditorTheme {
            bg: Rgb { r: 30, g: 30, b: 30 },
            panel_bg: Rgb { r: 37, g: 37, b: 38 },
            widget_bg: Rgb { r: 60, g: 60, b: 60 },
            widget_hover: Rgb { r: 75, g: 75, b: 75 },
            fg: Rgb { r: 220, g: 220, b: 220 },
            fg_muted: Rgb { r: 153, g: 153, b: 153 },
            accent: Rgb { r: 0, g: 122, b: 204 },
            accent_hover: Rgb { r: 14, g: 140, b: 228 },
            warning: Rgb { r: 204, g: 153, b: 0 },
            danger: Rgb { r: 204, g: 0, b: 0 },
            success: Rgb { r: 40, g: 180, b: 80 },
            selection_stroke: Rgb { r: 0, g: 122, b: 204 },
            hover_stroke: Rgb { r: 120, g: 120, b: 120 },
        }
    }

    /// The light theme.
    pub fn light() -> (r: EditorTheme)
        ensures
            r == light_palette(),
    {
        EditorTheme {
            bg: Rgb { r: 245, g: 245, b: 245 },
            panel_bg: Rgb { r: 252, g: 252, b: 252 },
            widget_bg: Rgb { r: 220, g: 220, b: 220 },
            widget_hover: Rgb { r: 200, g: 200, b: 200 },
            fg: Rgb { r: 40, g: 40, b: 40 },
            fg_muted: Rgb { r: 120, g: 120, b: 120 },
            accent: Rgb { r: 0, g: 122, b: 204 },
            accent_hover: Rgb { r: 14, g: 140, b: 228 },
            warning: Rgb { r: 180, g: 140, b: 0 },
            danger: Rgb { r: 204, g: 0, b: 0 },
            success: Rgb { r: 40, g: 160, b: 70 },
            selection_stroke: Rgb { r: 0, g: 122, b: 204 },
            hover_stroke: Rgb { r: 120, g: 120, b: 120 },
        }
    }
}

} // verus!
