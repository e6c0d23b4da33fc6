//! The symbol painter: replaces every occurrence of a designated character
//! with a colored single-space block, leaving every other character as it
//! is. Used to colorize block-art images whose symbol marks painted pixels.

use vstd::prelude::*;
use vstd::string::{StrSliceExecFns, StringExecFns};
use crate::palette::Color;
use crate::escape::{color_prefix, reset_seq, get_prefix};

verus! {

/// What one character of the source becomes: a colored space block when it
/// is the symbol, itself otherwise.
pub open spec fn painted_char(ch: char, color: Color, sym: char) -> Seq<char> {
    if ch == sym {
        color_prefix(color, true) + seq![' '] + reset_seq()
    } else {
        seq![ch]
    }
}

/// The whole source with every symbol occurrence replaced by a colored
/// space block.
pub open spec fn painted(s: Seq<char>, color: Color, sym: char) -> Seq<char>
    decreases s.len(),
{
    if s.len() == 0 {
        Seq::empty()
    } else {
        painted_char(s[0], color, sym) + painted(s.drop_first(), color, sym)
    }
}

proof fn lemma_painted_push(s: Seq<char>, ch: char, color: Color, sym: char)
    ensures
        painted(s.push(ch), color, sym) == painted(s, color, sym) + painted_char(ch, color, sym),
    decreases s.len(),
{
    if s.len() == 0 {
        assert(s.push(ch).drop_first() =~= Seq::<char>::empty());
        assert(s.push(ch)[0] == ch);
        assert(painted(s, color, sym) == Seq::<char>::empty());
        assert(painted(s.push(ch), color, sym) == painted_char(ch, color, sym) + painted(
            s.push(ch).drop_first(),
            color,
            sym,
        ));
        assert(painted(Seq::<char>::empty(), color, sym) == Seq::<char>::empty());
        assert(painted(s.push(ch), color, sym) =~= painted(s, color, sym) + painted_char(
            ch,
            color,
            sym,
        ));
    } else {
        lemma_painted_push(s.drop_first(), ch, color, sym);
        assert(s.push(ch).drop_first() =~= s.drop_first().push(ch));
        assert(s.push(ch)[0] == s[0]);
        assert(painted(s.push(ch), color, sym) =~= painted(s, color, sym) + painted_char(
            ch,
            color,
            sym,
        ));
    }
}

/// Replaces every occurrence of `sym` in `src` with a space on the given
/// background color; every other character is copied unchanged.
pub fn paint_sym(src: &str, color: Color, sym: char) -> (r: String)
    ensures
        r@ == painted(src@, color, sym),
{
    let mut res = String::new();
    let prefix = get_prefix(color, true);
    let n = src.unicode_len();
    let mut i: usize = 0;
    while i < n
        invariant
            i <= n,
            n == src@.len(),
            prefix@ == color_prefix(color, true),
            res@ == painted(src@.subrange(0, i as int), color, sym),
        decreases n - i,
    {
        proof {
            reveal_strlit(" ");
            reveal_strlit("\x1b[0m");
        }
        let ghost prev = res@;
        let ch = src.get_char(i);
        if ch == sym {
            res.append(prefix.as_str());
            res.append(" ");
            res.append("\x1b[0m");
            proof {
                assert(res@ =~= prev + painted_char(ch, color, sym));
            }
        } else {
            let one = src.substring_char(i, i + 1);
            proof {
                assert(one@ =~= seq![ch]);
            }
            res.append(one);
            proof {
                assert(res@ =~= prev + painted_char(ch, color, sym));
            }
        }
        proof {
            lemma_painted_push(src@.subrange(0, i as int), ch, color, sym);
            assert(src@.subrange(0, i as int + 1) =~= src@.subrange(0, i as int).push(ch));
        }
        i = i + 1;
    }
    proof {
        assert(src@.subrange(0, n as int) =~= src@);
    }
    res
}

} // verus!
