//! The fixed palette: eight classic terminal colors and seven text styles,
//! each with its canonical numeric code, and case-sensitive lookup of a
//! color or style by its lowercase name.

use vstd::prelude::*;
use crate::strcmp::str_eq;

verus! {

/// One of the eight classic 3/4-bit terminal colors.
#[derive(Clone, Copy, Debug, PartialEq, Eq, Structural)]
pub enum Color {
    Black,
    Red,
    Green,
    Yellow,
    Blue,
    Purple,
    Cyan,
    White,
}

/// One of the seven supported text styles.
#[derive(Clone, Copy, Debug, PartialEq, Eq, Structural)]
pub enum Style {
    Normal,
    Bold,
    Faded,
    Italic,
    Underlined,
    Flashing,
    Strikethrough,
}

/// The base numeric code of a color, in `[0, 7]`.
pub open spec fn spec_color_code(c: Color) -> int {
    match c {
        Color::Black => 0,
        Color::Red => 1,
        Color::Green => 2,
        Color::Yellow => 3,
        Color::Blue => 4,
        Color::Purple => 5,
        Color::Cyan => 6,
        Color::White => 7,
    }
}

/// The numeric code of a style, in `[0, 6]`.
pub open spec fn spec_style_code(s: Style) -> int {
    match s {
        Style::Normal => 0,
        Style::Bold => 1,
        Style::Faded => 2,
        Style::Italic => 3,
        Style::Underlined => 4,
        Style::Flashing => 5,
        Style::Strikethrough => 6,
    }
}

/// The color a name denotes, or `None` when the name is not one of the
/// eight fixed lowercase spellings.
pub open spec fn color_from_name(s: Seq<char>) -> Option<Color> {
    if s == "black"@ {
        Some(Color::Black)
    } else if s == "red"@ {
        Some(Color::Red)
    } else if s == "green"@ {
        Some(Color::Green)
    } else if s == "yellow"@ {
        Some(Color::Yellow)
    } else if s == "blue"@ {
        Some(Color::Blue)
    } else if s == "purple"@ {
        Some(Color::Purple)
    } else if s == "cyan"@ {
        Some(Color::Cyan)
    } else if s == "white"@ {
        Some(Color::White)
    } else {
        None
    }
}

/// The style a name denotes, or `None` when the name is not one of the
/// seven fixed lowercase spellings.
pub open spec fn style_from_name(s: Seq<char>) -> Option<Style> {
    if s == "bold"@ {
        Some(Style::Bold)
    } else if s == "italic"@ {
        Some(Style::Italic)
    } else if s == "normal"@ {
        Some(Style::Normal)
    } else if s == "faded"@ {
        Some(Style::Faded)
    } else if s == "strikethrough"@ {
        Some(Style::Strikethrough)
    } else if s == "underlined"@ {
        Some(Style::Underlined)
    } else if s == "flashing"@ {
        Some(Style::Flashing)
    } else {
        None
    }
}

/// Returns the base numeric code of a color.
pub fn color_code(c: Color) -> (r: u8)
    ensures
        r as int == spec_color_code(c),
        r <= 7,
{
    match c {
        Color::Black => 0,
        Color::Red => 1,
        Color::Green => 2,
        Color::Yellow => 3,
        Color::Blue => 4,
        Color::Purple => 5,
        Color::Cyan => 6,
        Color::White => 7,
    }
}

/// Returns the numeric code of a style.
pub fn style_code(s: Style) -> (r: u8)
    ensures
        r as int == spec_style_code(s),
        r <= 6,
{
    match s {
        Style::Normal => 0,
        Style::Bold => 1,
        Style::Faded => 2,
        Style::Italic => 3,
        Style::Underlined => 4,
        Style::Flashing => 5,
        Style::Strikethrough => 6,
    }
}

/// Looks a color up by its exact lowercase name.
pub fn get_color(text: String) -> (r: Option<Color>)
    ensures
        r == color_from_name(text@),
{
    let t = text.as_str();
    if str_eq(t, "black") {
        Some(Color::Black)
    } else if str_eq(t, "red") {
        Some(Color::Red)
    } else if str_eq(t, "green") {
        Some(Color::Green)
    } else if str_eq(t, "yellow") {
        Some(Color::Yellow)
    } else if str_eq(t, "blue") {
        Some(Color::Blue)
    } else if str_eq(t, "purple") {
        Some(Color::Purple)
    } else if str_eq(t, "cyan") {
        Some(Color::Cyan)
    } else if str_eq(t, "white") {
        Some(Color::White)
    } else {
        None
    }
}

/// Looks a style up by its exact lowercase name.
pub fn get_style(text: String) -> (r: Option<Style>)
    ensures
        r == style_from_name(text@),
{
    let t = text.as_str();
    if str_eq(t, "bold") {
        Some(Style::Bold)
    } else if str_eq(t, "italic") {
        Some(Style::Italic)
    } else if str_eq(t, "normal") {
        Some(Style::Normal)
    } else if str_eq(t, "faded") {
        Some(Style::Faded)
    } else if str_eq(t, "strikethrough") {
        Some(Style::Strikethrough)
    } else if str_eq(t, "underlined") {
        Some(Style::Underlined)
    } else if str_eq(t, "flashing") {
        Some(Style::Flashing)
    } else {
        None
    }
}

} // verus!
