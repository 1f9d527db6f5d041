//! The editor's color scheme.
use vstd::prelude::*;
use crate::editor::Mode;
use crate::render::{Color, Style};

verus! {

/// The background of the editor.
pub open spec fn black() -> Color {
    Color::Rgb { r: 18, g: 18, b: 18 }
}

/// The background of the editor.
pub fn background() -> (r: Color)
    ensures
        r == black(),
{
    Color::Rgb { r: 18, g: 18, b: 18 }
}

/// The bold attribute bit of `Style::attributes`.
pub const BOLD: u32 = 4;

/// The accent color of each mode.
pub open spec fn mode_color(mode: Mode) -> Color {
    match mode {
        Mode::Normal => Color::Rgb { r: 100, g: 149, b: 171 },
        Mode::Insert => Color::Rgb { r: 0, g: 163, b: 108 },
        Mode::Visual => Color::Rgb { r: 160, g: 32, b: 140 },
    }
}

fn accent(mode: &Mode) -> (r: Color)
    ensures
        r == mode_color(*mode),
{
    match mode {
        Mode::Normal => Color::Rgb { r: 100, g: 149, b: 171 },
        Mode::Insert => Color::Rgb { r: 0, g: 163, b: 108 },
        Mode::Visual => Color::Rgb { r: 160, g: 32, b: 140 },
    }
}

/// Text, on a lighter background on the cursor's line.
pub open spec fn text_style_of(is_current: bool) -> Style {
    Style {
        foreground_color: Some(Color::Rgb { r: 215, g: 215, b: 215 }),
        background_color: Some(
            if is_current {
                Color::Rgb { r: 60, g: 60, b: 60 }
            } else {
                black()
            },
        ),
        underline_color: None,
        attributes: 0,
    }
}

/// Bold black text on the mode's color.
pub open spec fn mode_style_of(mode: Mode) -> Style {
    Style {
        foreground_color: Some(Color::Rgb { r: 0, g: 0, b: 0 }),
        background_color: Some(mode_color(mode)),
        underline_color: None,
        attributes: BOLD,
    }
}

/// Text, on a lighter background on the cursor's line.
pub fn default_text_style(is_current: bool) -> (r: Style)
    ensures
        r == text_style_of(is_current),
        r == (Style {
            foreground_color: Some(Color::Rgb { r: 215, g: 215, b: 215 }),
            background_color: Some(
                if is_current {
                    Color::Rgb { r: 60, g: 60, b: 60 }
                } else {
                    black()
                },
            ),
            underline_color: None,
            attributes: 0,
        }),
{
    let bg = if is_current { Color::Rgb { r: 60, g: 60, b: 60 } } else { background() };
    Style {
        foreground_color: Some(Color::Rgb { r: 215, g: 215, b: 215 }),
        background_color: Some(bg),
        underline_color: None,
        attributes: 0,
    }
}

/// Selected or just-copied text.
pub fn highlighted_text() -> (r: Style)
    ensures
        r == (Style {
            foreground_color: Some(Color::Rgb { r: 215, g: 215, b: 215 }),
            background_color: Some(Color::Rgb { r: 41, g: 120, b: 255 }),
            underline_color: None,
            attributes: 0,
        }),
{
    Style {
        foreground_color: Some(Color::Rgb { r: 215, g: 215, b: 215 }),
        background_color: Some(Color::Rgb { r: 41, g: 120, b: 255 }),
        underline_color: None,
        attributes: 0,
    }
}

/// Line numbers, brighter on the cursor's line.
pub fn default_line_number_style(is_current: bool) -> (r: Style)
    ensures
        r == (Style {
            foreground_color: Some(
                if is_current {
                    Color::Rgb { r: 100, g: 149, b: 171 }
                } else {
                    Color::Rgb { r: 50, g: 50, b: 50 }
                },
            ),
            background_color: Some(black()),
            underline_color: None,
            attributes: 0,
        }),
{
    let fg = if is_current { Color::Rgb { r: 100, g: 149, b: 171 } } else { Color::Rgb { r: 50, g: 50, b: 50 } };
    Style { foreground_color: Some(fg), background_color: Some(background()), underline_color: None, attributes: 0 }
}

/// A bold bar in the mode's color.
pub fn gutter_style(mode: &Mode) -> (r: Style)
    ensures
        r == (Style {
            foreground_color: Some(mode_color(*mode)),
            background_color: Some(mode_color(*mode)),
            underline_color: None,
            attributes: BOLD,
        }),
{
    let color = accent(mode);
    Style { foreground_color: Some(color), background_color: Some(color), underline_color: None, attributes: BOLD }
}

/// Bold black text on the mode's color.
pub fn mode_style(mode: &Mode) -> (r: Style)
    ensures
        r == mode_style_of(*mode),
        r == (Style {
            foreground_color: Some(Color::Rgb { r: 0, g: 0, b: 0 }),
            background_color: Some(mode_color(*mode)),
            underline_color: None,
            attributes: BOLD,
        }),
{
    let color = accent(mode);
    Style {
        foreground_color: Some(Color::Rgb { r: 0, g: 0, b: 0 }),
        background_color: Some(color),
        underline_color: None,
        attributes: BOLD,
    }
}

} // verus!
