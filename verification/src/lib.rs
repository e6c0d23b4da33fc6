//! Renders text with ANSI terminal escape sequences: a fixed eight-color
//! palette and seven text styles, an escape-sequence composer that nests
//! style(font(background(text))), a symbol painter for block art, and a
//! flag-driven argument resolver that turns raw command-line tokens into a
//! validated formatting state.

pub mod apply;
pub mod cli;
pub mod errors;
pub mod escape;
pub mod paint;
pub mod palette;
pub mod resolve;
pub mod strcmp;
