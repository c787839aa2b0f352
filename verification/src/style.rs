//! Colours and text attributes.
use vstd::prelude::*;

verus! {

/// A colour of the terminal.
#[derive(Clone, Copy, Debug, PartialEq, Eq, Structural)]
pub enum Color {
    Reset,
    Black,
    Red,
    Green,
    Yellow,
    Blue,
    Magenta,
    Cyan,
    Gray,
    DarkGray,
    LightRed,
    LightGreen,
    LightYellow,
    LightBlue,
    LightMagenta,
    LightCyan,
    White,
    Rgb(u8, u8, u8),
    Indexed(u8),
}

/// Attributes of text.
#[derive(Clone, Copy, Debug, PartialEq, Eq, Structural)]
pub struct Modifier {
    pub bold: bool,
    pub dim: bool,
    pub italic: bool,
    pub underlined: bool,
    pub slow_blink: bool,
    pub rapid_blink: bool,
    pub reversed: bool,
    pub crossed_out: bool,
}

impl Modifier {
    /// No attributes.
    pub open spec fn none() -> Modifier {
        Modifier {
            bold: false,
            dim: false,
            italic: false,
            underlined: false,
            slow_blink: false,
            rapid_blink: false,
            reversed: false,
            crossed_out: false,
        }
    }

    /// No attributes.
    pub fn empty() -> (r: Modifier)
        ensures
            r == Modifier::none(),
    {
        Modifier {
            bold: false,
            dim: false,
            italic: false,
            underlined: false,
            slow_blink: false,
            rapid_blink: false,
            reversed: false,
            crossed_out: false,
        }
    }
}

/// How text looks.
#[derive(Clone, Copy, Debug, PartialEq, Eq, Structural)]
pub struct Style {
    pub fg: Color,
    pub bg: Color,
    pub bold: bool,
}

impl Style {
    /// Text in a colour.
    pub open spec fn colored(fg: Color) -> Style {
        Style { fg, bg: Color::Reset, bold: false }
    }

    /// Bold text in a colour.
    pub open spec fn strong(fg: Color) -> Style {
        Style { fg, bg: Color::Reset, bold: true }
    }

    /// Text in a colour.
    pub fn plain(fg: Color) -> (r: Style)
        ensures
            r == Style::colored(fg),
    {
        Style { fg, bg: Color::Reset, bold: false }
    }

    /// Bold text in a colour.
    pub fn bold(fg: Color) -> (r: Style)
        ensures
            r == Style::strong(fg),
    {
        Style { fg, bg: Color::Reset, bold: true }
    }
}

} // verus!
