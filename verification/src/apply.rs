//! The flag registry and directive applicator: each flag/value pair is
//! parsed into a typed directive, and the directives are applied in order
//! to the formatting state, later directives of the same kind overwriting
//! earlier ones. The first invalid value aborts the whole run.

use vstd::prelude::*;
use crate::errors::TextfError;
use crate::palette::{
    Color, Style, color_from_name, style_from_name, get_color, get_style,
};
use crate::resolve::{RawOption, opts_view};
use crate::strcmp::str_eq;

verus! {

/// One resolved, validated formatting instruction derived from a
/// flag/value pair.
#[derive(Clone, Copy, Debug, PartialEq, Eq, Structural)]
pub enum Directive {
    /// Set the foreground color.
    FontColor(Color),
    /// Set the background color.
    BackgroundColor(Color),
    /// Set the text style.
    StyleChoice(Style),
    /// Print palette information: validated, currently without effect.
    PrintRequest,
    /// Generate random art: validated, but the feature is pending.
    RandomRequest,
    /// The value failed its lookup; the payload names the diagnostic.
    Invalid(TextfError),
}

/// The accumulated font, background and style selection.
#[derive(Clone, Copy, Debug, PartialEq, Eq, Structural)]
pub struct FormattingState {
    pub font: Color,
    pub background: Color,
    pub style: Style,
}

/// The state every run starts from: white on black, normal style.
pub open spec fn initial_state() -> FormattingState {
    FormattingState { font: Color::White, background: Color::Black, style: Style::Normal }
}

impl Default for FormattingState {
    /// Returns the white-on-black, normal-style starting state.
    fn default() -> (r: Self)
        ensures
            r == initial_state(),
    {
        FormattingState { font: Color::White, background: Color::Black, style: Style::Normal }
    }
}

/// The directive a flag/value pair denotes: the registry maps each
/// accepted spelling to its parser, and a failed lookup yields the
/// matching invalid directive.
pub open spec fn directive_of(flag: Seq<char>, value: Seq<char>) -> Directive {
    if flag == "-f"@ || flag == "--font"@ {
        match color_from_name(value) {
            Some(c) => Directive::FontColor(c),
            None => Directive::Invalid(TextfError::UnknownColorName),
        }
    } else if flag == "-b"@ || flag == "--background"@ {
        match color_from_name(value) {
            Some(c) => Directive::BackgroundColor(c),
            None => Directive::Invalid(TextfError::UnknownColorName),
        }
    } else if flag == "-s"@ || flag == "--style"@ {
        match style_from_name(value) {
            Some(s) => Directive::StyleChoice(s),
            None => Directive::Invalid(TextfError::UnknownStyleName),
        }
    } else if flag == "-p"@ || flag == "--print"@ {
        if value == "color"@ || value == "style"@ {
            Directive::PrintRequest
        } else {
            Directive::Invalid(TextfError::UnknownInfoKind)
        }
    } else if flag == "-r"@ || flag == "--random"@ {
        Directive::RandomRequest
    } else {
        Directive::Invalid(TextfError::UnknownFlag)
    }
}

/// What one directive does to the state: the three formatting directives
/// overwrite their field, a print request is a validated no-op, a random
/// request fails as an unimplemented feature, and an invalid directive
/// aborts with its diagnostic.
pub open spec fn step_state(st: FormattingState, d: Directive) -> Result<
    FormattingState,
    TextfError,
> {
    match d {
        Directive::FontColor(c) => Ok(FormattingState { font: c, ..st }),
        Directive::BackgroundColor(c) => Ok(FormattingState { background: c, ..st }),
        Directive::StyleChoice(s) => Ok(FormattingState { style: s, ..st }),
        Directive::PrintRequest => Ok(st),
        Directive::RandomRequest => Err(TextfError::UnimplementedFeature),
        Directive::Invalid(e) => Err(e),
    }
}

/// The state after applying every option pair in order, or the first
/// error.
pub open spec fn apply_all(
    st: FormattingState,
    opts: Seq<(Seq<char>, Seq<char>)>,
) -> Result<FormattingState, TextfError>
    decreases opts.len(),
{
    if opts.len() == 0 {
        Ok(st)
    } else {
        match step_state(st, directive_of(opts[0].0, opts[0].1)) {
            Ok(next) => apply_all(next, opts.drop_first()),
            Err(e) => Err(e),
        }
    }
}

/// Parses one flag/value pair into its directive.
pub fn parse_directive(flag: &str, value: &str) -> (d: Directive)
    ensures
        d == directive_of(flag@, value@),
{
    if str_eq(flag, "-f") || str_eq(flag, "--font") {
        match get_color(value.to_owned()) {
            Some(c) => Directive::FontColor(c),
            None => Directive::Invalid(TextfError::UnknownColorName),
        }
    } else if str_eq(flag, "-b") || str_eq(flag, "--background") {
        match get_color(value.to_owned()) {
            Some(c) => Directive::BackgroundColor(c),
            None => Directive::Invalid(TextfError::UnknownColorName),
        }
    } else if str_eq(flag, "-s") || str_eq(flag, "--style") {
        match get_style(value.to_owned()) {
            Some(s) => Directive::StyleChoice(s),
            None => Directive::Invalid(TextfError::UnknownStyleName),
        }
    } else if str_eq(flag, "-p") || str_eq(flag, "--print") {
        if str_eq(value, "color") || str_eq(value, "style") {
            Directive::PrintRequest
        } else {
            Directive::Invalid(TextfError::UnknownInfoKind)
        }
    } else if str_eq(flag, "-r") || str_eq(flag, "--random") {
        Directive::RandomRequest
    } else {
        Directive::Invalid(TextfError::UnknownFlag)
    }
}

/// Applies every option pair in order to the starting state; the first
/// invalid value or pending feature aborts the run with its error.
pub fn apply_directives(opts: &Vec<RawOption>) -> (r: Result<FormattingState, TextfError>)
    ensures
        r == apply_all(initial_state(), opts_view(opts@)),
{
    let mut st = FormattingState {
        font: Color::White,
        background: Color::Black,
        style: Style::Normal,
    };
    let ghost all = opts_view(opts@);
    proof {
        assert(st == initial_state());
        assert(all.skip(0) =~= all);
    }
    let n = opts.len();
    let mut i: usize = 0;
    while i < n
        invariant
            i <= n,
            n == opts.len(),
            all == opts_view(opts@),
            all.len() == n,
            apply_all(st, all.skip(i as int)) == apply_all(initial_state(), all),
        decreases n - i,
    {
        let o = &opts[i];
        let d = parse_directive(o.flag.as_str(), o.value.as_str());
        proof {
            assert(all[i as int] == (o.flag@, o.value@));
            assert(all.skip(i as int)[0] == all[i as int]);
            assert(all.skip(i as int).drop_first() =~= all.skip(i as int + 1));
        }
        match d {
            Directive::FontColor(c) => {
                st.font = c;
            },
            Directive::BackgroundColor(c) => {
                st.background = c;
            },
            Directive::StyleChoice(s) => {
                st.style = s;
            },
            Directive::PrintRequest => {},
            Directive::RandomRequest => {
                return Err(TextfError::UnimplementedFeature);
            },
            Directive::Invalid(e) => {
                return Err(e);
            },
        }
        i = i + 1;
    }
    proof {
        assert(all.skip(n as int) =~= Seq::<(Seq<char>, Seq<char>)>::empty());
    }
    Ok(st)
}

} // verus!
