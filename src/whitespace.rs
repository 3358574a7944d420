//! Line breaks and indentation that survive HTML whitespace collapsing.
use vstd::prelude::*;
use crate::text::{push_char, push_str};

verus! {

/// Vertical tab, line feed or carriage return.
pub open spec fn is_break_char(c: char) -> bool {
    c == '\u{b}' || c == '\n' || c == '\r'
}

/// Each break character replaced by `<br>`, one for one.
pub open spec fn with_breaks(s: Seq<char>) -> Seq<char>
    decreases s.len(),
{
    if s.len() == 0 {
        Seq::empty()
    } else {
        with_breaks(s.drop_last()) + if is_break_char(s.last()) {
            "<br>"@
        } else {
            seq![s.last()]
        }
    }
}

/// `p` ends with `<br>`.
pub open spec fn ends_with_br(p: Seq<char>) -> bool {
    p.len() >= 4 && p.subrange(p.len() - 4, p.len() as int) == "<br>"@
}

/// `p` ends with `<br>` followed by zero or more spaces.
pub open spec fn follows_break(p: Seq<char>) -> bool
    decreases p.len(),
{
    if p.len() == 0 {
        false
    } else if p.last() == ' ' {
        follows_break(p.drop_last())
    } else {
        ends_with_br(p)
    }
}

/// Every space of a run that directly follows `<br>` written as `&nbsp;`.
pub open spec fn spaces_kept(t: Seq<char>) -> Seq<char>
    decreases t.len(),
{
    if t.len() == 0 {
        Seq::empty()
    } else {
        spaces_kept(t.drop_last()) + if t.last() == ' ' && follows_break(t.drop_last()) {
            "&nbsp;"@
        } else {
            seq![t.last()]
        }
    }
}

/// Break characters as `<br>`, then indentation after each `<br>` kept.
pub open spec fn normalized(s: Seq<char>) -> Seq<char> {
    spaces_kept(with_breaks(s))
}

fn replace_breaks(s: &str) -> (r: String)
    ensures
        r@ == with_breaks(s@),
{
    let n = s.unicode_len();
    let mut r = String::new();
    let mut i: usize = 0;
    while i < n
        invariant
            n == s@.len(),
            0 <= i <= n,
            r@ == with_breaks(s@.take(i as int)),
        decreases n - i,
    {
        let c = s.get_char(i);
        assert(s@.take(i + 1).drop_last() =~= s@.take(i as int));
        if c == '\u{b}' || c == '\n' || c == '\r' {
            push_str(&mut r, "<br>");
        } else {
            push_char(&mut r, c);
            assert(r@ =~= with_breaks(s@.take(i as int)) + seq![c]);
        }
        i = i + 1;
    }
    assert(s@.take(n as int) =~= s@);
    r
}

fn keep_spaces(t: &str) -> (r: String)
    ensures
        r@ == spaces_kept(t@),
{
    proof {
        reveal_strlit("<br>");
    }
    let n = t.unicode_len();
    let mut r = String::new();
    let mut run = false;
    let mut i: usize = 0;
    while i < n
        invariant
            n == t@.len(),
            0 <= i <= n,
            r@ == spaces_kept(t@.take(i as int)),
            run == follows_break(t@.take(i as int)),
        decreases n - i,
    {
        let c = t.get_char(i);
        let ghost p = t@.take(i + 1);
        assert(p.drop_last() =~= t@.take(i as int));
        if c == ' ' && run {
            push_str(&mut r, "&nbsp;");
        } else {
            push_char(&mut r, c);
            assert(r@ =~= spaces_kept(t@.take(i as int)) + seq![c]);
        }
        if c != ' ' {
            run = i >= 3 && c == '>' && t.get_char(i - 1) == 'r' && t.get_char(i - 2) == 'b'
                && t.get_char(i - 3) == '<';
            proof {
                reveal_strlit("<br>");
                assert("<br>"@ =~= seq!['<', 'b', 'r', '>']);
                if i >= 3 {
                    let w = p.subrange(p.len() - 4, p.len() as int);
                    assert(w[0] == t@[i - 3]);
                    assert(w[1] == t@[i - 2]);
                    assert(w[2] == t@[i - 1]);
                    assert(w[3] == t@[i as int]);
                    if run {
                        assert(w =~= "<br>"@);
                    } else {
                        assert(w != "<br>"@);
                    }
                }
                assert(run == ends_with_br(p));
            }
        }
        i = i + 1;
    }
    assert(t@.take(n as int) =~= t@);
    r
}

/// Replaces vertical tab, line feed and carriage return each by `<br>` (so
/// `\r\n` gives two), then writes every space of a run that directly follows
/// a `<br>` as `&nbsp;`, keeping the count.
pub fn fix_newlines(text: &str) -> (r: String)
    ensures
        r@ == normalized(text@),
{
    let b = replace_breaks(text);
    keep_spaces(b.as_str())
}

} // verus!
