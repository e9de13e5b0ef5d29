//! Wiki emphasis: `'''text'''` is italic and `''text''` is bold.
use vstd::prelude::*;
use crate::text::{
    agrees, chars_of, delimited_at, delimited_exec, lit_len, push_chars, push_str, rewrite,
    rewrite_all, slice, Rule,
};

verus! {

/// `open text open` at `i`, on one line, rewritten as the element `tag`.
pub open spec fn emphasis_rule(s: Seq<char>, i: int, mark: Seq<char>, tag: Seq<char>) -> Option<
    (int, Seq<char>),
> {
    match delimited_at(s, i, mark, mark) {
        Some(f) => Some(
            (
                f + mark.len(),
                "<"@ + tag + ">"@ + s.subrange(i + mark.len(), f) + "</"@ + tag + ">"@,
            ),
        ),
        None => None,
    }
}

pub open spec fn italic_r() -> Rule {
    |s: Seq<char>, i: int| emphasis_rule(s, i, "'''"@, "i"@)
}

pub open spec fn bold_r() -> Rule {
    |s: Seq<char>, i: int| emphasis_rule(s, i, "''"@, "b"@)
}

/// Triple quotes first, so that their marks are not read as two bold marks.
pub open spec fn emphasized(s: Seq<char>) -> Seq<char> {
    rewrite(rewrite(s, 0, italic_r()), 0, bold_r())
}

fn emphasis_exec(s: &Vec<char>, i: usize, mark: &str, tag: &str) -> (r: Option<(usize, Vec<char>)>)
    requires
        i < s.len(),
    ensures
        match r {
            Some(h) => i < h.0 <= s.len() && emphasis_rule(s@, i as int, mark@, tag@) == Some(
                (h.0 as int, h.1@),
            ),
            None => emphasis_rule(s@, i as int, mark@, tag@) is None,
        },
{
    match delimited_exec(s, i, mark, mark) {
        Some(f) => {
            let n = lit_len(mark);
            let mut out = chars_of("<");
            push_str(&mut out, tag);
            push_str(&mut out, ">");
            push_chars(&mut out, &slice(s, i + n, f));
            push_str(&mut out, "</");
            push_str(&mut out, tag);
            push_str(&mut out, ">");
            Some((f + n, out))
        },
        None => None,
    }
}

fn italic_match(s: &Vec<char>, i: usize) -> (r: Option<(usize, Vec<char>)>)
    requires
        i < s.len(),
    ensures
        agrees(s@, i as int, italic_r(), r),
{
    emphasis_exec(s, i, "'''", "i")
}

fn bold_match(s: &Vec<char>, i: usize) -> (r: Option<(usize, Vec<char>)>)
    requires
        i < s.len(),
    ensures
        agrees(s@, i as int, bold_r(), r),
{
    emphasis_exec(s, i, "''", "b")
}

pub fn emphasize_chars(s: &Vec<char>) -> (r: Vec<char>)
    ensures
        r@ == emphasized(s@),
{
    let a = rewrite_all(s, italic_match, Ghost(italic_r()));
    rewrite_all(&a, bold_match, Ghost(bold_r()))
}

} // verus!
