//! The argument resolver: walks the raw token list in order, classifies
//! each token as a flag or a value, pairs every flag with the free token
//! that follows it (or with the empty string when none does before the
//! next flag or the end of input), and keeps the last free token as the
//! text to format. An unrecognized flag aborts the scan at once.

use vstd::prelude::*;
use vstd::string::StrSliceExecFns;
use crate::errors::TextfError;
use crate::strcmp::str_eq;

verus! {

/// One flag token paired with its value token (empty when the flag had no
/// following free token).
#[derive(Debug, PartialEq, Eq)]
pub struct RawOption {
    pub flag: String,
    pub value: String,
}

/// The pair of token texts a raw option holds.
pub open spec fn raw_option_view(o: RawOption) -> (Seq<char>, Seq<char>) {
    (o.flag@, o.value@)
}

/// The pairs of token texts a sequence of raw options holds.
pub open spec fn opts_view(s: Seq<RawOption>) -> Seq<(Seq<char>, Seq<char>)> {
    s.map_values(|o: RawOption| raw_option_view(o))
}

/// Whether a token is written as a flag: nonempty and starting with `-`.
pub open spec fn is_flag_token(t: Seq<char>) -> bool {
    t.len() > 0 && t[0] == '-'
}

/// Whether a flag spelling is one the registry accepts.
pub open spec fn flag_known(t: Seq<char>) -> bool {
    ||| t == "-f"@
    ||| t == "--font"@
    ||| t == "-b"@
    ||| t == "--background"@
    ||| t == "-s"@
    ||| t == "--style"@
    ||| t == "-p"@
    ||| t == "--print"@
    ||| t == "-r"@
    ||| t == "--random"@
}

/// The scan continued from token `i` with the options, pending flag and
/// free text gathered so far: the final ordered option pairs and free
/// text, or `None` when a token from `i` on is an unrecognized flag. A
/// pending flag that never receives a value is paired with the empty
/// string, at the next flag or at the end of input.
pub open spec fn scan_from(
    tokens: Seq<Seq<char>>,
    i: int,
    opts: Seq<(Seq<char>, Seq<char>)>,
    pending: Option<Seq<char>>,
    text: Seq<char>,
) -> Option<(Seq<(Seq<char>, Seq<char>)>, Seq<char>)>
    decreases tokens.len() - i,
{
    if i < 0 || i >= tokens.len() {
        let finished = match pending {
            Some(p) => opts.push((p, Seq::empty())),
            None => opts,
        };
        Some((finished, text))
    } else {
        let t = tokens[i];
        if is_flag_token(t) {
            if !flag_known(t) {
                None
            } else {
                let flushed = match pending {
                    Some(p) => opts.push((p, Seq::empty())),
                    None => opts,
                };
                scan_from(tokens, i + 1, flushed, Some(t), text)
            }
        } else {
            match pending {
                Some(p) => scan_from(tokens, i + 1, opts.push((p, t)), None, text),
                None => scan_from(tokens, i + 1, opts, pending, t),
            }
        }
    }
}

/// What the resolver yields on a token list: the ordered option pairs and
/// the free text (defaulting to empty), or `None` exactly when some
/// scanned token is an unrecognized flag.
pub open spec fn resolve_view(tokens: Seq<Seq<char>>) -> Option<
    (Seq<(Seq<char>, Seq<char>)>, Seq<char>),
> {
    scan_from(tokens, 0, Seq::empty(), None, Seq::empty())
}

/// The texts a pending flag slot holds.
pub open spec fn pending_view(p: Option<String>) -> Option<Seq<char>> {
    match p {
        Some(s) => Some(s@),
        None => None,
    }
}

proof fn lemma_opts_view_push(s: Seq<RawOption>, o: RawOption)
    ensures
        opts_view(s.push(o)) == opts_view(s).push((o.flag@, o.value@)),
{
    assert(opts_view(s.push(o)) =~= opts_view(s).push((o.flag@, o.value@)));
}

/// Decides whether a token is written as a flag.
pub fn token_is_flag(t: &str) -> (r: bool)
    ensures
        r == is_flag_token(t@),
{
    let n = t.unicode_len();
    if n == 0 {
        false
    } else {
        t.get_char(0) == '-'
    }
}

/// Decides whether a flag spelling is one the registry accepts.
pub fn is_known_flag(t: &str) -> (r: bool)
    ensures
        r == flag_known(t@),
{
    str_eq(t, "-f") || str_eq(t, "--font") || str_eq(t, "-b") || str_eq(t, "--background")
        || str_eq(t, "-s") || str_eq(t, "--style") || str_eq(t, "-p") || str_eq(t, "--print")
        || str_eq(t, "-r") || str_eq(t, "--random")
}

/// Walks the token list and yields the ordered flag/value pairs and the
/// free text, or `UnknownFlag` exactly when a scanned token is an
/// unrecognized flag.
pub fn resolve_args(tokens: &Vec<String>) -> (r: Result<(Vec<RawOption>, String), TextfError>)
    ensures
        (match r {
            Ok(resolved) => resolve_view(tokens.deep_view()) == Some(
                (opts_view(resolved.0@), resolved.1@),
            ),
            Err(e) => e == TextfError::UnknownFlag && resolve_view(tokens.deep_view()) is None,
        }),
{
    let ghost toks = tokens.deep_view();
    let mut opts: Vec<RawOption> = Vec::new();
    let mut pending: Option<String> = None;
    let mut text = String::new();
    proof {
        assert(opts_view(opts@) =~= Seq::<(Seq<char>, Seq<char>)>::empty());
    }
    let n = tokens.len();
    let mut i: usize = 0;
    while i < n
        invariant
            i <= n,
            n == tokens.len(),
            toks == tokens.deep_view(),
            scan_from(toks, i as int, opts_view(opts@), pending_view(pending), text@)
                == resolve_view(toks),
        decreases n - i,
    {
        let tok: String = tokens[i].clone();
        proof {
            assert(toks[i as int] == tok@);
        }
        if token_is_flag(tok.as_str()) {
            if !is_known_flag(tok.as_str()) {
                return Err(TextfError::UnknownFlag);
            }
            let prev = pending;
            match prev {
                Some(p) => {
                    let ghost before = opts@;
                    let o = RawOption { flag: p, value: String::new() };
                    proof {
                        lemma_opts_view_push(before, o);
                    }
                    opts.push(o);
                },
                None => {},
            }
            pending = Some(tok);
        } else {
            let prev = pending;
            match prev {
                Some(p) => {
                    let ghost before = opts@;
                    let o = RawOption { flag: p, value: tok };
                    proof {
                        lemma_opts_view_push(before, o);
                    }
                    opts.push(o);
                    pending = None;
                },
                None => {
                    text = tok;
                    pending = None;
                },
            }
        }
        i = i + 1;
    }
    let last = pending;
    match last {
        Some(p) => {
            let ghost before = opts@;
            let o = RawOption { flag: p, value: String::new() };
            proof {
                lemma_opts_view_push(before, o);
            }
            opts.push(o);
        },
        None => {},
    }
    Ok((opts, text))
}

} // verus!
