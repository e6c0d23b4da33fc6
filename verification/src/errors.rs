//! The error kinds a run can end with, each with its user-facing
//! diagnostic line. Every error is fatal to the invocation: exactly one
//! red-highlighted line is printed and no formatted output follows.

use vstd::prelude::*;
use crate::palette::Color;
use crate::escape::{font, wrapped_font};

verus! {

/// Everything that can go wrong while resolving and applying arguments.
#[derive(Clone, Copy, Debug, PartialEq, Eq, Structural)]
pub enum TextfError {
    /// A token starts with `-` but is not a recognized flag.
    UnknownFlag,
    /// A font or background value is not one of the eight color names.
    UnknownColorName,
    /// A style value is not one of the seven style names.
    UnknownStyleName,
    /// A print value is neither `color` nor `style`.
    UnknownInfoKind,
    /// The random-art feature was requested but is not implemented.
    UnimplementedFeature,
}

/// The diagnostic text of an error.
pub open spec fn error_text(e: TextfError) -> Seq<char> {
    match e {
        TextfError::UnknownFlag => "Error: invalid flag"@,
        TextfError::UnknownColorName => "Error: this color is not supported."@,
        TextfError::UnknownStyleName => "Error: this style is not supported."@,
        TextfError::UnknownInfoKind => "Error: undefined info type"@,
        TextfError::UnimplementedFeature => "Error: random image generation is not implemented."@,
    }
}

/// Returns the diagnostic text of an error.
pub fn error_message(e: TextfError) -> (r: &'static str)
    ensures
        r@ == error_text(e),
{
    match e {
        TextfError::UnknownFlag => "Error: invalid flag",
        TextfError::UnknownColorName => "Error: this color is not supported.",
        TextfError::UnknownStyleName => "Error: this style is not supported.",
        TextfError::UnknownInfoKind => "Error: undefined info type",
        TextfError::UnimplementedFeature => "Error: random image generation is not implemented.",
    }
}

/// Returns the diagnostic line of an error, highlighted in red.
pub fn error_line(e: TextfError) -> (r: String)
    ensures
        r@ == wrapped_font(Color::Red, error_text(e)),
{
    font(Color::Red, error_message(e))
}

} // verus!
