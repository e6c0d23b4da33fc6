//! The escape composer: ANSI prefix strings for colors and styles, and the
//! wrappers that surround text with a prefix and the RESET sequence, nested
//! in the fixed order style(font(background(text))).

use vstd::prelude::*;
use vstd::string::StringExecFns;
use crate::palette::{Color, Style, spec_color_code, spec_style_code, color_code, style_code};

verus! {

/// The character that a digit denotes, for digits `0` through `9`.
pub open spec fn digit_char(n: int) -> char {
    if n == 0 {
        '0'
    } else if n == 1 {
        '1'
    } else if n == 2 {
        '2'
    } else if n == 3 {
        '3'
    } else if n == 4 {
        '4'
    } else if n == 5 {
        '5'
    } else if n == 6 {
        '6'
    } else if n == 7 {
        '7'
    } else if n == 8 {
        '8'
    } else {
        '9'
    }
}

/// The RESET sequence `ESC[0m`, which returns the terminal to its default
/// rendering.
pub open spec fn reset_seq() -> Seq<char> {
    seq!['\x1b', '[', '0', 'm']
}

/// The escape prefix for a color: `ESC[<40 + code>m` as a background,
/// `ESC[<30 + code>m` as a foreground.
pub open spec fn color_prefix(c: Color, is_background: bool) -> Seq<char> {
    seq![
        '\x1b',
        '[',
        if is_background { '4' } else { '3' },
        digit_char(spec_color_code(c)),
        'm',
    ]
}

/// The escape prefix for a style: `ESC[<code>m`.
pub open spec fn style_prefix(s: Style) -> Seq<char> {
    seq!['\x1b', '[', digit_char(spec_style_code(s)), 'm']
}

/// Text wrapped in a background-color escape: prefix, text, RESET.
pub open spec fn wrapped_background(c: Color, t: Seq<char>) -> Seq<char> {
    color_prefix(c, true) + t + reset_seq()
}

/// Text wrapped in a font-color escape: prefix, text, RESET.
pub open spec fn wrapped_font(c: Color, t: Seq<char>) -> Seq<char> {
    color_prefix(c, false) + t + reset_seq()
}

/// Text wrapped in a style escape: prefix, text, RESET.
pub open spec fn wrapped_style(s: Style, t: Seq<char>) -> Seq<char> {
    style_prefix(s) + t + reset_seq()
}

/// Text wrapped first in a background escape, then in a font escape.
pub open spec fn wrapped_font_background(fontc: Color, back: Color, t: Seq<char>) -> Seq<char> {
    wrapped_font(fontc, wrapped_background(back, t))
}

/// Text wrapped in background, font, and style escapes, the style outermost.
pub open spec fn wrapped_all(stylet: Style, fontc: Color, back: Color, t: Seq<char>) -> Seq<char> {
    wrapped_style(stylet, wrapped_font_background(fontc, back, t))
}

/// The one-character string holding a decimal digit.
fn digit_str(d: u8) -> (r: &'static str)
    requires
        d <= 9,
    ensures
        r@.len() == 1,
        r@[0] == digit_char(d as int),
{
    proof {
        reveal_strlit("0");
        reveal_strlit("1");
        reveal_strlit("2");
        reveal_strlit("3");
        reveal_strlit("4");
        reveal_strlit("5");
        reveal_strlit("6");
        reveal_strlit("7");
        reveal_strlit("8");
        reveal_strlit("9");
    }
    if d == 0 {
        "0"
    } else if d == 1 {
        "1"
    } else if d == 2 {
        "2"
    } else if d == 3 {
        "3"
    } else if d == 4 {
        "4"
    } else if d == 5 {
        "5"
    } else if d == 6 {
        "6"
    } else if d == 7 {
        "7"
    } else if d == 8 {
        "8"
    } else {
        "9"
    }
}

/// Builds the escape prefix for a color, as background or foreground.
pub fn get_prefix(color: Color, is_background: bool) -> (r: String)
    ensures
        r@ == color_prefix(color, is_background),
{
    proof {
        reveal_strlit("\x1b[");
        reveal_strlit("3");
        reveal_strlit("4");
        reveal_strlit("m");
    }
    let mut s: String = "\x1b[".to_owned();
    if is_background {
        s.append("4");
    } else {
        s.append("3");
    }
    let code = color_code(color);
    s.append(digit_str(code));
    s.append("m");
    proof {
        assert(s@ =~= color_prefix(color, is_background));
    }
    s
}

/// Builds the escape prefix for a style.
pub fn get_style_prefix(style: Style) -> (r: String)
    ensures
        r@ == style_prefix(style),
{
    proof {
        reveal_strlit("\x1b[");
        reveal_strlit("m");
    }
    let mut s: String = "\x1b[".to_owned();
    let code = style_code(style);
    s.append(digit_str(code));
    s.append("m");
    proof {
        assert(s@ =~= style_prefix(style));
    }
    s
}

/// Wraps text in a background-color escape, terminated by RESET.
pub fn background(color: Color, text: &str) -> (r: String)
    ensures
        r@ == wrapped_background(color, text@),
{
    proof {
        reveal_strlit("\x1b[0m");
    }
    let mut s = get_prefix(color, true);
    s.append(text);
    s.append("\x1b[0m");
    proof {
        assert(s@ =~= wrapped_background(color, text@));
    }
    s
}

/// Wraps text in a font-color escape, terminated by RESET.
pub fn font(color: Color, text: &str) -> (r: String)
    ensures
        r@ == wrapped_font(color, text@),
{
    proof {
        reveal_strlit("\x1b[0m");
    }
    let mut s = get_prefix(color, false);
    s.append(text);
    s.append("\x1b[0m");
    proof {
        assert(s@ =~= wrapped_font(color, text@));
    }
    s
}

/// Wraps text in a style escape, terminated by RESET.
pub fn style(stylet: Style, text: &str) -> (r: String)
    ensures
        r@ == wrapped_style(stylet, text@),
{
    proof {
        reveal_strlit("\x1b[0m");
    }
    let mut s = get_style_prefix(stylet);
    s.append(text);
    s.append("\x1b[0m");
    proof {
        assert(s@ =~= wrapped_style(stylet, text@));
    }
    s
}

/// Wraps text in a background escape, then a font escape around it.
pub fn font_background(fontc: Color, back: Color, text: &str) -> (r: String)
    ensures
        r@ == wrapped_font_background(fontc, back, text@),
{
    let inner = background(back, text);
    font(fontc, inner.as_str())
}

/// Wraps text in background, font, and style escapes, the style outermost.
pub fn style_font_background(stylet: Style, fontc: Color, back: Color, text: &str) -> (r: String)
    ensures
        r@ == wrapped_all(stylet, fontc, back, text@),
{
    let inner = font_background(fontc, back, text);
    style(stylet, inner.as_str())
}

/// Holds when the RESET sequence occurs in `s` starting at position `i`.
pub open spec fn reset_at(s: Seq<char>, i: int) -> bool {
    &&& 0 <= i
    &&& i + 4 <= s.len()
    &&& s[i] == '\x1b'
    &&& s[i + 1] == '['
    &&& s[i + 2] == '0'
    &&& s[i + 3] == 'm'
}

/// An escape prefix whose only ESC character is its first one, and which is
/// not itself a RESET sequence.
pub open spec fn esc_only_at_start(p: Seq<char>) -> bool {
    &&& 3 <= p.len()
    &&& p[0] == '\x1b'
    &&& p[2] != '0'
    &&& forall|j: int| 1 <= j < p.len() ==> p[j] != '\x1b'
}

/// The two decimal digits of a number in `[10, 99]`.
pub open spec fn two_digits(n: int) -> Seq<char> {
    seq![digit_char(n / 10), digit_char(n % 10)]
}

/// For every color and for both uses, the escape prefix starts with `ESC[`
/// and ends with `m`, and the number embedded between them is
/// `30 + colorCode` as a foreground (so in `[30, 37]`) and `40 + colorCode`
/// as a background (so in `[40, 47]`).
pub proof fn lemma_color_prefix_shape(c: Color, is_background: bool)
    ensures
        ({
            let p = color_prefix(c, is_background);
            let n = spec_color_code(c) + if is_background { 40int } else { 30int };
            &&& p.len() == 5
            &&& p[0] == '\x1b'
            &&& p[1] == '['
            &&& p[4] == 'm'
            &&& p == seq!['\x1b', '['] + two_digits(n) + seq!['m']
            &&& (is_background ==> 40 <= n <= 47)
            &&& (!is_background ==> 30 <= n <= 37)
        }),
{
    let p = color_prefix(c, is_background);
    let n = spec_color_code(c) + if is_background { 40int } else { 30int };
    assert(0 <= spec_color_code(c) <= 7);
    assert(n / 10 == if is_background { 4int } else { 3int });
    assert(n % 10 == spec_color_code(c));
    assert(p =~= seq!['\x1b', '['] + two_digits(n) + seq!['m']);
}

/// Every color prefix begins with its only ESC character and is not itself
/// a RESET sequence.
pub proof fn lemma_color_prefix_clean(c: Color, is_background: bool)
    ensures
        esc_only_at_start(color_prefix(c, is_background)),
{
    let p = color_prefix(c, is_background);
    assert(0 <= spec_color_code(c) <= 7);
    assert forall|j: int| 1 <= j < p.len() implies p[j] != '\x1b' by {
        assert(p[1] == '[');
        assert(p[2] == if is_background { '4' } else { '3' });
        assert(p[3] == digit_char(spec_color_code(c)));
        assert(p[4] == 'm');
    }
}

/// Every style prefix other than the normal style's begins with its only
/// ESC character and is not itself a RESET sequence. The normal style's
/// prefix is excluded: its code is 0, so its prefix is the RESET sequence.
pub proof fn lemma_style_prefix_clean(s: Style)
    requires
        s != Style::Normal,
    ensures
        esc_only_at_start(style_prefix(s)),
{
    let p = style_prefix(s);
    assert(1 <= spec_style_code(s) <= 6);
    assert forall|j: int| 1 <= j < p.len() implies p[j] != '\x1b' by {
        assert(p[1] == '[');
        assert(p[2] == digit_char(spec_style_code(s)));
        assert(p[3] == 'm');
    }
}

/// Wrapping text between a clean escape prefix and a trailing RESET adds
/// exactly one RESET occurrence, at the position right after the text; the
/// other occurrences are those of the text itself, shifted by the prefix
/// length.
pub proof fn lemma_wrap_resets(pre: Seq<char>, t: Seq<char>)
    requires
        esc_only_at_start(pre),
    ensures
        forall|i: int|
            reset_at(pre + t + reset_seq(), i) <==> (reset_at(t, i - pre.len())
                || i == pre.len() + t.len()),
{
    let s = pre + t + reset_seq();
    let pl = pre.len() as int;
    let tl = t.len() as int;
    let m = pl + tl;
    assert(s.len() == m + 4);
    assert forall|j: int| 0 <= j < pl implies s[j] == pre[j] by {
        assert((pre + t)[j] == pre[j]);
    }
    assert forall|j: int| 0 <= j < tl implies s[pl + j] == t[j] by {
        assert((pre + t)[pl + j] == t[j]);
    }
    assert forall|j: int| 0 <= j < 4 implies s[m + j] == reset_seq()[j] by {
    }
    assert forall|i: int|
        reset_at(s, i) <==> (reset_at(t, i - pl) || i == m) by {
        if i == m {
            assert(s[m] == '\x1b');
            assert(s[m + 1] == '[');
            assert(s[m + 2] == '0');
            assert(s[m + 3] == 'm');
            assert(reset_at(s, i));
        } else if reset_at(t, i - pl) {
            assert(s[i] == t[i - pl]);
            assert(s[i + 1] == t[i - pl + 1]);
            assert(s[i + 2] == t[i - pl + 2]);
            assert(s[i + 3] == t[i - pl + 3]);
            assert(reset_at(s, i));
        } else if reset_at(s, i) {
            // i is in bounds and distinct from m; show each region refutes it.
            assert(0 <= i && i < m);
            if i == 0 {
                assert(s[2] == pre[2]);
                assert(false);
            } else if i < pl {
                assert(s[i] == pre[i]);
                assert(false);
            } else if i + 4 <= m {
                // The occurrence would lie wholly inside the text.
                assert(t[i - pl] == s[i]);
                assert(t[i - pl + 1] == s[i + 1]);
                assert(t[i - pl + 2] == s[i + 2]);
                assert(t[i - pl + 3] == s[i + 3]);
                assert(reset_at(t, i - pl));
                assert(false);
            } else {
                // The occurrence would cross from the text into the RESET,
                // putting the RESET's leading ESC where the pattern has
                // `[`, `0` or `m`.
                let k = m - i;
                assert(1 <= k <= 3);
                assert(s[m] == '\x1b');
                if k == 1 {
                    assert(s[i + 1] == '[');
                } else if k == 2 {
                    assert(s[i + 2] == '0');
                } else {
                    assert(s[i + 3] == 'm');
                }
                assert(false);
            }
        }
    }
}

/// Wrapping text in a font escape around a background escape yields exactly
/// two RESET occurrences when the text holds none: the background's at
/// position `10 + |text|`, immediately after the text, and the font's four
/// characters later.
pub proof fn lemma_font_background_resets(fontc: Color, back: Color, t: Seq<char>)
    requires
        forall|j: int| !reset_at(t, j),
    ensures
        wrapped_font_background(fontc, back, t).len() == t.len() + 18,
        forall|i: int|
            reset_at(wrapped_font_background(fontc, back, t), i) <==> (i == 10 + t.len() || i == 14
                + t.len()),
{
    let tl = t.len() as int;
    let inner = wrapped_background(back, t);
    assert(inner == color_prefix(back, true) + t + reset_seq());
    assert(inner.len() == tl + 9);
    lemma_color_prefix_clean(back, true);
    lemma_wrap_resets(color_prefix(back, true), t);
    assert forall|i: int| reset_at(inner, i) <==> i == 5 + tl by {
        assert(!reset_at(t, i - 5));
    }
    let outer = wrapped_font_background(fontc, back, t);
    assert(outer == color_prefix(fontc, false) + inner + reset_seq());
    lemma_color_prefix_clean(fontc, false);
    lemma_wrap_resets(color_prefix(fontc, false), inner);
    assert forall|i: int| reset_at(outer, i) <==> (i == 10 + tl || i == 14 + tl) by {
        assert(reset_at(outer, i) <==> (reset_at(inner, i - 5) || i == 5 + inner.len()));
    }
}

/// The full composition style(font(background(text))) yields exactly three
/// RESET occurrences when the text holds none and the style is not the
/// normal one: the background's at `14 + |text|`, the font's four
/// characters later, the style's four after that. The normal style is
/// excluded: its prefix is itself the RESET sequence, which would add a
/// fourth occurrence.
pub proof fn lemma_all_resets(stylet: Style, fontc: Color, back: Color, t: Seq<char>)
    requires
        stylet != Style::Normal,
        forall|j: int| !reset_at(t, j),
    ensures
        wrapped_all(stylet, fontc, back, t).len() == t.len() + 26,
        forall|i: int|
            reset_at(wrapped_all(stylet, fontc, back, t), i) <==> (i == 14 + t.len() || i == 18
                + t.len() || i == 22 + t.len()),
{
    let tl = t.len() as int;
    let inner = wrapped_font_background(fontc, back, t);
    lemma_font_background_resets(fontc, back, t);
    assert(inner.len() == tl + 18);
    let outer = wrapped_all(stylet, fontc, back, t);
    assert(outer == style_prefix(stylet) + inner + reset_seq());
    lemma_style_prefix_clean(stylet);
    lemma_wrap_resets(style_prefix(stylet), inner);
    assert forall|i: int|
        reset_at(outer, i) <==> (i == 14 + tl || i == 18 + tl || i == 22 + tl) by {
        assert(reset_at(outer, i) <==> (reset_at(inner, i - 4) || i == 4 + inner.len()));
        assert(reset_at(inner, i - 4) <==> (i - 4 == 10 + tl || i - 4 == 14 + tl));
    }
}

} // verus!
