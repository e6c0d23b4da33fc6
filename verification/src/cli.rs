//! The decision layer behind the command line: given the raw tokens after
//! the program name, decide whether to show the help banner, render the
//! free text under the resolved formatting state, or fail with exactly one
//! diagnostic. Reading the arguments and printing are left to the caller.

use vstd::prelude::*;
use crate::apply::{apply_all, apply_directives, initial_state};
use crate::errors::TextfError;
use crate::escape::{style_font_background, wrapped_all};
use crate::resolve::{resolve_args, resolve_view};
use crate::strcmp::str_eq;

verus! {

/// What an invocation asks for when it does not fail.
#[derive(Debug, PartialEq, Eq)]
pub enum Outcome {
    /// Print the banner and usage text, nothing else.
    Help,
    /// Print this fully escaped line.
    Rendered(String),
}

/// The abstract outcome of an invocation.
pub enum RunView {
    Help,
    Rendered(Seq<char>),
    Fail(TextfError),
}

impl View for Outcome {
    type V = RunView;

    open spec fn view(&self) -> RunView {
        match self {
            Outcome::Help => RunView::Help,
            Outcome::Rendered(s) => RunView::Rendered(s@),
        }
    }
}

/// What a token list must lead to: the help banner on an empty list or a
/// leading `--help`; otherwise the resolved free text wrapped in
/// style(font(background(text))) under the accumulated state, or the
/// first error met while resolving or applying.
pub open spec fn run_view(tokens: Seq<Seq<char>>) -> RunView {
    if tokens.len() == 0 || tokens[0] == "--help"@ {
        RunView::Help
    } else {
        match resolve_view(tokens) {
            None => RunView::Fail(TextfError::UnknownFlag),
            Some(resolved) => match apply_all(initial_state(), resolved.0) {
                Err(e) => RunView::Fail(e),
                Ok(st) => RunView::Rendered(
                    wrapped_all(st.style, st.font, st.background, resolved.1),
                ),
            },
        }
    }
}

/// Runs an invocation on the raw tokens after the program name.
pub fn run(tokens: &Vec<String>) -> (r: Result<Outcome, TextfError>)
    ensures
        (match r {
            Ok(o) => o@ == run_view(tokens.deep_view()),
            Err(e) => RunView::Fail(e) == run_view(tokens.deep_view()),
        }),
{
    let ghost toks = tokens.deep_view();
    if tokens.len() == 0 {
        return Ok(Outcome::Help);
    }
    let first: &String = &tokens[0];
    proof {
        assert(toks[0] == first@);
    }
    if str_eq(first.as_str(), "--help") {
        return Ok(Outcome::Help);
    }
    match resolve_args(tokens) {
        Err(e) => Err(e),
        Ok(resolved) => {
            let (opts, text) = resolved;
            match apply_directives(&opts) {
                Err(e) => Err(e),
                Ok(st) => Ok(
                    Outcome::Rendered(
                        style_font_background(st.style, st.font, st.background, text.as_str()),
                    ),
                ),
            }
        },
    }
}

} // verus!
