use textf::apply::{apply_directives, parse_directive, Directive, FormattingState};
use textf::cli::{run, Outcome};
use textf::errors::{error_line, error_message, TextfError};
use textf::palette::{Color, Style};
use textf::resolve::{is_known_flag, resolve_args, token_is_flag};

fn tokens(raw: &[&str]) -> Vec<String> {
    raw.iter().map(|t| t.to_string()).collect()
}

#[test]
fn flag_classification() {
    assert!(token_is_flag("-f"));
    assert!(token_is_flag("--font"));
    assert!(token_is_flag("-z"));
    assert!(!token_is_flag("font"));
    assert!(!token_is_flag(""));
}

#[test]
fn registry_membership() {
    for f in ["-f", "--font", "-b", "--background", "-s", "--style", "-p", "--print", "-r",
        "--random"] {
        assert!(is_known_flag(f));
    }
    assert!(!is_known_flag("-z"));
    assert!(!is_known_flag("--help"));
    assert!(!is_known_flag("font"));
    assert!(!is_known_flag(""));
}

#[test]
fn font_and_background_resolve() {
    let (opts, text) = resolve_args(&tokens(&["-f", "red", "-b", "blue", "hello"])).unwrap();
    assert_eq!(opts.len(), 2);
    assert_eq!(opts[0].flag, "-f");
    assert_eq!(opts[0].value, "red");
    assert_eq!(opts[1].flag, "-b");
    assert_eq!(opts[1].value, "blue");
    assert_eq!(text, "hello");
    let st = apply_directives(&opts).unwrap();
    assert_eq!(
        st,
        FormattingState { font: Color::Red, background: Color::Blue, style: Style::Normal }
    );
}

#[test]
fn later_directive_of_same_kind_wins() {
    let (opts, text) = resolve_args(&tokens(&["-f", "red", "-f", "green", "x"])).unwrap();
    assert_eq!(text, "x");
    let st = apply_directives(&opts).unwrap();
    assert_eq!(st.font, Color::Green);
    assert_eq!(st.background, Color::Black);
    assert_eq!(st.style, Style::Normal);
}

#[test]
fn style_flag_resolves() {
    let (opts, _) = resolve_args(&tokens(&["-s", "bold", "x"])).unwrap();
    let st = apply_directives(&opts).unwrap();
    assert_eq!(st.style, Style::Bold);
}

#[test]
fn long_spellings_resolve() {
    let (opts, text) =
        resolve_args(&tokens(&["--font", "cyan", "--background", "purple", "--style", "italic",
            "hi"]))
        .unwrap();
    assert_eq!(text, "hi");
    let st = apply_directives(&opts).unwrap();
    assert_eq!(
        st,
        FormattingState { font: Color::Cyan, background: Color::Purple, style: Style::Italic }
    );
}

#[test]
fn bogus_color_aborts_with_unknown_color() {
    let (opts, _) = resolve_args(&tokens(&["-f", "bogus", "x"])).unwrap();
    assert_eq!(apply_directives(&opts), Err(TextfError::UnknownColorName));
    assert_eq!(run(&tokens(&["-f", "bogus", "x"])), Err(TextfError::UnknownColorName));
}

#[test]
fn bogus_style_aborts_with_unknown_style() {
    assert_eq!(run(&tokens(&["-s", "shiny", "x"])), Err(TextfError::UnknownStyleName));
}

#[test]
fn unknown_flag_aborts_the_scan() {
    assert_eq!(resolve_args(&tokens(&["-z", "x"])), Err(TextfError::UnknownFlag));
    assert_eq!(run(&tokens(&["-z", "x"])), Err(TextfError::UnknownFlag));
}

#[test]
fn empty_arguments_show_help() {
    assert_eq!(run(&Vec::new()), Ok(Outcome::Help));
}

#[test]
fn help_flag_shows_help() {
    assert_eq!(run(&tokens(&["--help"])), Ok(Outcome::Help));
}

#[test]
fn trailing_flag_gets_empty_value() {
    let (opts, text) = resolve_args(&tokens(&["-f"])).unwrap();
    assert_eq!(opts.len(), 1);
    assert_eq!(opts[0].flag, "-f");
    assert_eq!(opts[0].value, "");
    assert_eq!(text, "");
    assert_eq!(apply_directives(&opts), Err(TextfError::UnknownColorName));
    assert_eq!(run(&tokens(&["hello", "-f"])), Err(TextfError::UnknownColorName));
}

#[test]
fn flag_before_flag_gets_empty_value() {
    let (opts, text) = resolve_args(&tokens(&["-f", "-b", "blue", "x"])).unwrap();
    assert_eq!(opts.len(), 2);
    assert_eq!(opts[0].flag, "-f");
    assert_eq!(opts[0].value, "");
    assert_eq!(opts[1].flag, "-b");
    assert_eq!(opts[1].value, "blue");
    assert_eq!(text, "x");
    assert_eq!(apply_directives(&opts), Err(TextfError::UnknownColorName));
}

#[test]
fn last_free_token_wins() {
    let (opts, text) = resolve_args(&tokens(&["first", "second"])).unwrap();
    assert!(opts.is_empty());
    assert_eq!(text, "second");
}

#[test]
fn print_flag_validates_its_kind() {
    assert_eq!(parse_directive("-p", "color"), Directive::PrintRequest);
    assert_eq!(parse_directive("--print", "style"), Directive::PrintRequest);
    assert_eq!(
        parse_directive("-p", "bogus"),
        Directive::Invalid(TextfError::UnknownInfoKind)
    );
    assert_eq!(run(&tokens(&["-p", "bogus", "x"])), Err(TextfError::UnknownInfoKind));
}

#[test]
fn print_flag_has_no_effect_on_state() {
    let (opts, _) = resolve_args(&tokens(&["-p", "color", "x"])).unwrap();
    assert_eq!(apply_directives(&opts), Ok(FormattingState::default()));
}

#[test]
fn random_flag_fails_cleanly() {
    assert_eq!(parse_directive("-r", ""), Directive::RandomRequest);
    assert_eq!(run(&tokens(&["-r", "x"])), Err(TextfError::UnimplementedFeature));
    assert_eq!(run(&tokens(&["--random"])), Err(TextfError::UnimplementedFeature));
}

#[test]
fn parse_directive_maps_flags_to_directives() {
    assert_eq!(parse_directive("-f", "red"), Directive::FontColor(Color::Red));
    assert_eq!(parse_directive("--font", "white"), Directive::FontColor(Color::White));
    assert_eq!(parse_directive("-b", "black"), Directive::BackgroundColor(Color::Black));
    assert_eq!(parse_directive("-s", "faded"), Directive::StyleChoice(Style::Faded));
    assert_eq!(
        parse_directive("-b", ""),
        Directive::Invalid(TextfError::UnknownColorName)
    );
    assert_eq!(
        parse_directive("-s", ""),
        Directive::Invalid(TextfError::UnknownStyleName)
    );
}

#[test]
fn default_state_is_white_on_black_normal() {
    assert_eq!(
        FormattingState::default(),
        FormattingState { font: Color::White, background: Color::Black, style: Style::Normal }
    );
}

#[test]
fn rendered_output_is_fully_escaped() {
    match run(&tokens(&["-f", "red", "hello"])) {
        Ok(Outcome::Rendered(s)) => {
            assert_eq!(s, "\x1b[0m\x1b[31m\x1b[40mhello\x1b[0m\x1b[0m\x1b[0m");
        },
        other => panic!("expected rendered output, got {:?}", other),
    }
}

#[test]
fn rendering_defaults_when_no_flags_given() {
    match run(&tokens(&["hello"])) {
        Ok(Outcome::Rendered(s)) => {
            assert_eq!(s, "\x1b[0m\x1b[37m\x1b[40mhello\x1b[0m\x1b[0m\x1b[0m");
        },
        other => panic!("expected rendered output, got {:?}", other),
    }
}

#[test]
fn error_messages_match_their_kinds() {
    assert_eq!(error_message(TextfError::UnknownFlag), "Error: invalid flag");
    assert_eq!(
        error_message(TextfError::UnknownColorName),
        "Error: this color is not supported."
    );
    assert_eq!(
        error_message(TextfError::UnknownStyleName),
        "Error: this style is not supported."
    );
    assert_eq!(error_message(TextfError::UnknownInfoKind), "Error: undefined info type");
    assert_eq!(
        error_message(TextfError::UnimplementedFeature),
        "Error: random image generation is not implemented."
    );
}

#[test]
fn error_lines_are_red() {
    assert_eq!(
        error_line(TextfError::UnknownFlag),
        "\x1b[31mError: invalid flag\x1b[0m"
    );
}
