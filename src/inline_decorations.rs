//! Inline decoration functions: `&color(fg,bg){text};`, `&size(n){text};`,
//! `&sup(text);`, `&sub(text);`, `&lang(locale){text};` and `&abbr(text){title};`.
use vstd::prelude::*;
use crate::block_decorations::{add_word, bg_part, fg_part, opt_view};
use crate::text::{
    agrees, chars_of, find_char, has_at, lit_len, next_of, push_chars, push_str, rewrite,
    rewrite_all, slice, starts_at, string_of, trim, trim_vec, Rule,
};

verus! {

/// `head arg)` then `{body};` (or `;` alone when there is no body) at `i`: where the
/// argument ends (at the `)`) and where the body ends (at the `}`).
pub open spec fn call_at(s: Seq<char>, i: int, head: Seq<char>, arg_required: bool, with_body: bool) -> Option<
    (int, int),
> {
    let j = i + head.len();
    let c = next_of(s, j, ')');
    let g = next_of(s, c + 2, '}');
    if !has_at(s, i, head) || c >= s.len() || (arg_required && c == j) {
        None
    } else if with_body {
        if c + 1 < s.len() && s[c + 1] == '{' && c + 2 < g && g + 1 < s.len() && s[g + 1] == ';' {
            Some((c, g))
        } else {
            None
        }
    } else if c + 1 < s.len() && s[c + 1] == ';' {
        Some((c, c))
    } else {
        None
    }
}

/// An inline color component as a style declaration; empty and `inherit` give none.
pub open spec fn color_style(v: Seq<char>, name: Seq<char>) -> Option<Seq<char>> {
    let t = trim(v);
    if t.len() == 0 || t == "inherit"@ {
        None
    } else {
        Some(name + t)
    }
}

/// What an inline function at `i` becomes: `which` picks the function.
pub open spec fn inline_rule(s: Seq<char>, i: int, which: int) -> Option<(int, Seq<char>)> {
    let head = if which == 0 {
        "&color("@
    } else if which == 1 {
        "&size("@
    } else if which == 2 {
        "&sup("@
    } else if which == 3 {
        "&sub("@
    } else if which == 4 {
        "&lang("@
    } else {
        "&abbr("@
    };
    let with_body = which != 2 && which != 3;
    match call_at(s, i, head, which != 0, with_body) {
        Some(h) => {
            let arg = s.subrange(i + head.len(), h.0);
            let body = s.subrange(h.0 + 2, h.1);
            let end = if with_body {
                h.1 + 2
            } else {
                h.0 + 2
            };
            let out = if which == 0 {
                let styles = add_word(
                    add_word(Seq::empty(), color_style(fg_part(arg), "color: "@), "; "@),
                    color_style(bg_part(arg), "background-color: "@),
                    "; "@,
                );
                if styles.len() == 0 {
                    body
                } else {
                    "<span style=\""@ + styles + "\">"@ + body + "</span>"@
                }
            } else if which == 1 {
                "<span style=\"font-size: "@ + arg + "rem\">"@ + body + "</span>"@
            } else if which == 2 {
                "<sup>"@ + arg + "</sup>;"@
            } else if which == 3 {
                "<sub>"@ + arg + "</sub>;"@
            } else if which == 4 {
                "<span lang=\""@ + arg + "\">"@ + body + "</span>;"@
            } else {
                "<abbr title=\""@ + body + "\">"@ + arg + "</abbr>;"@
            };
            Some((end, out))
        },
        None => None,
    }
}

pub open spec fn inline_r(which: int) -> Rule {
    |s: Seq<char>, i: int| inline_rule(s, i, which)
}

/// The functions are rewritten one after another: color, size, superscript,
/// subscript, language, abbreviation.
pub open spec fn inline_decorated(s: Seq<char>) -> Seq<char> {
    let a = rewrite(s, 0, inline_r(0));
    let b = rewrite(a, 0, inline_r(1));
    let c = rewrite(b, 0, inline_r(2));
    let d = rewrite(c, 0, inline_r(3));
    let e = rewrite(d, 0, inline_r(4));
    rewrite(e, 0, inline_r(5))
}

fn call_exec(s: &Vec<char>, i: usize, head: &str, arg_required: bool, with_body: bool) -> (r: Option<
    (usize, usize),
>)
    requires
        i < s.len(),
    ensures
        match r {
            Some(h) => call_at(s@, i as int, head@, arg_required, with_body) == Some(
                (h.0 as int, h.1 as int),
            ) && i + head@.len() <= h.0 <= h.1 && h.1 + 2 <= s.len() && (with_body ==> h.0 + 2
                < h.1),
            None => call_at(s@, i as int, head@, arg_required, with_body) is None,
        },
{
    if !starts_at(s, i, head) {
        return None;
    }
    let j = i + lit_len(head);
    let c = find_char(s, j, ')');
    if c >= s.len() || (arg_required && c == j) {
        return None;
    }
    if with_body {
        if !(c + 1 < s.len() && s[c + 1] == '{') {
            return None;
        }
        let g = find_char(s, c + 2, '}');
        if c + 2 < g && g < s.len() && g + 1 < s.len() && s[g + 1] == ';' {
            Some((c, g))
        } else {
            None
        }
    } else if c + 1 < s.len() && s[c + 1] == ';' {
        Some((c, c))
    } else {
        None
    }
}

fn color_style_exec(v: &Vec<char>, name: &str) -> (r: Option<Vec<char>>)
    ensures
        opt_view(r) == color_style(v@, name@),
{
    let t = trim_vec(v);
    if t.len() == 0 || crate::text::eq_str(&t, "inherit") {
        None
    } else {
        let mut r = chars_of(name);
        push_chars(&mut r, &t);
        Some(r)
    }
}

fn add_word_to(acc: &mut Vec<char>, w: &Option<Vec<char>>, sep: &str)
    ensures
        final(acc)@ == add_word(old(acc)@, opt_view(*w), sep@),
{
    if let Some(x) = w {
        if acc.len() > 0 {
            push_str(acc, sep);
        }
        push_chars(acc, x);
    }
}

fn inline_exec(s: &Vec<char>, i: usize, which: usize) -> (r: Option<(usize, Vec<char>)>)
    requires
        i < s.len(),
        which < 6,
    ensures
        agrees(s@, i as int, inline_r(which as int), r),
{
    let head = if which == 0 {
        "&color("
    } else if which == 1 {
        "&size("
    } else if which == 2 {
        "&sup("
    } else if which == 3 {
        "&sub("
    } else if which == 4 {
        "&lang("
    } else {
        "&abbr("
    };
    let with_body = which != 2 && which != 3;
    match call_exec(s, i, head, which != 0, with_body) {
        Some(h) => {
            let arg = slice(s, i + lit_len(head), h.0);
            let body = if with_body {
                slice(s, h.0 + 2, h.1)
            } else {
                Vec::new()
            };
            let end = if with_body {
                h.1 + 2
            } else {
                h.0 + 2
            };
            let mut out: Vec<char>;
            if which == 0 {
                let c = find_char(&arg, 0, ',');
                let fg = slice(&arg, 0, c);
                let bg = if c < arg.len() {
                    slice(&arg, c + 1, arg.len())
                } else {
                    Vec::new()
                };
                let mut styles: Vec<char> = Vec::new();
                add_word_to(&mut styles, &color_style_exec(&fg, "color: "), "; ");
                add_word_to(&mut styles, &color_style_exec(&bg, "background-color: "), "; ");
                if styles.len() == 0 {
                    out = body;
                } else {
                    out = chars_of("<span style=\"");
                    push_chars(&mut out, &styles);
                    push_str(&mut out, "\">");
                    push_chars(&mut out, &body);
                    push_str(&mut out, "</span>");
                }
            } else if which == 1 {
                out = chars_of("<span style=\"font-size: ");
                push_chars(&mut out, &arg);
                push_str(&mut out, "rem\">");
                push_chars(&mut out, &body);
                push_str(&mut out, "</span>");
            } else if which == 2 {
                out = chars_of("<sup>");
                push_chars(&mut out, &arg);
                push_str(&mut out, "</sup>;");
            } else if which == 3 {
                out = chars_of("<sub>");
                push_chars(&mut out, &arg);
                push_str(&mut out, "</sub>;");
            } else if which == 4 {
                out = chars_of("<span lang=\"");
                push_chars(&mut out, &arg);
                push_str(&mut out, "\">");
                push_chars(&mut out, &body);
                push_str(&mut out, "</span>;");
            } else {
                out = chars_of("<abbr title=\"");
                push_chars(&mut out, &body);
                push_str(&mut out, "\">");
                push_chars(&mut out, &arg);
                push_str(&mut out, "</abbr>;");
            }
            Some((end, out))
        },
        None => None,
    }
}

fn color_match(s: &Vec<char>, i: usize) -> (r: Option<(usize, Vec<char>)>)
    requires
        i < s.len(),
    ensures
        agrees(s@, i as int, inline_r(0), r),
{
    inline_exec(s, i, 0)
}

fn size_match(s: &Vec<char>, i: usize) -> (r: Option<(usize, Vec<char>)>)
    requires
        i < s.len(),
    ensures
        agrees(s@, i as int, inline_r(1), r),
{
    inline_exec(s, i, 1)
}

fn sup_match(s: &Vec<char>, i: usize) -> (r: Option<(usize, Vec<char>)>)
    requires
        i < s.len(),
    ensures
        agrees(s@, i as int, inline_r(2), r),
{
    inline_exec(s, i, 2)
}

fn sub_match(s: &Vec<char>, i: usize) -> (r: Option<(usize, Vec<char>)>)
    requires
        i < s.len(),
    ensures
        agrees(s@, i as int, inline_r(3), r),
{
    inline_exec(s, i, 3)
}

fn lang_match(s: &Vec<char>, i: usize) -> (r: Option<(usize, Vec<char>)>)
    requires
        i < s.len(),
    ensures
        agrees(s@, i as int, inline_r(4), r),
{
    inline_exec(s, i, 4)
}

fn abbr_match(s: &Vec<char>, i: usize) -> (r: Option<(usize, Vec<char>)>)
    requires
        i < s.len(),
    ensures
        agrees(s@, i as int, inline_r(5), r),
{
    inline_exec(s, i, 5)
}

pub fn inline_decorate_chars(s: &Vec<char>) -> (r: Vec<char>)
    ensures
        r@ == inline_decorated(s@),
{
    let a = rewrite_all(s, color_match, Ghost(inline_r(0)));
    let b = rewrite_all(&a, size_match, Ghost(inline_r(1)));
    let c = rewrite_all(&b, sup_match, Ghost(inline_r(2)));
    let d = rewrite_all(&c, sub_match, Ghost(inline_r(3)));
    let e = rewrite_all(&d, lang_match, Ghost(inline_r(4)));
    rewrite_all(&e, abbr_match, Ghost(inline_r(5)))
}

/// Apply inline decoration functions to HTML.
pub fn apply_inline_decorations(html: &str) -> (r: String)
    ensures
        r@ == inline_decorated(html@),
{
    string_of(inline_decorate_chars(&chars_of(html)))
}

} // verus!
