//! Plugin syntax: `&name(args){content};` inline, `@name(args){{ content }}` and
//! `@name(args){content}` as blocks. The library does not run plugins: it writes
//! each invocation as a container element that a separate executor picks up.
use vstd::prelude::*;
use crate::encoding::{attr_escape, escape_attribute};
use crate::text::{
    agrees, angle_escape, angle_escape_exec, chars_of, find_char, find_from, find_from_exec,
    has_at, next_of, push_chars, push_str, rewrite, rewrite_all, slice, starts_at, string_of,
    word_end, word_end_exec, Rule,
};

verus! {

/// `sigil name(args)` at `i`: where the name ends (at the `(`) and where the arguments
/// end (at the `)`).
pub open spec fn plugin_head(s: Seq<char>, i: int, sigil: char) -> Option<(int, int)> {
    let n = word_end(s, i + 1);
    let c = next_of(s, n + 1, ')');
    if 0 <= i < s.len() && s[i] == sigil && i + 1 < n < s.len() && s[n] == '(' && c < s.len() {
        Some((n, c))
    } else {
        None
    }
}

/// The end of inline plugin content from `k`: plain characters and `{...}` groups
/// without braces inside, up to the first `}` that closes no group, or up to a `{`
/// that opens no such group.
pub open spec fn content_end(s: Seq<char>, k: int) -> int
    decreases s.len() - k,
{
    if k < 0 || k >= s.len() || s[k] == '}' {
        k
    } else if s[k] == '{' {
        let g = next_of(s, k + 1, '}');
        if g < s.len() && k < g && g < next_of(s, k + 1, '{') {
            content_end(s, g + 1)
        } else {
            k
        }
    } else {
        content_end(s, k + 1)
    }
}

/// `&name(args){content};` at `i`: name end, arguments end, content end.
pub open spec fn inline_plugin_at(s: Seq<char>, i: int) -> Option<(int, int, int)> {
    match plugin_head(s, i, '&') {
        Some(h) => {
            let k = content_end(s, h.1 + 2);
            if h.1 + 1 < s.len() && s[h.1 + 1] == '{' && k + 1 < s.len() && s[k] == '}' && s[k
                + 1] == ';' {
                Some((h.0, h.1, k))
            } else {
                None
            }
        },
        None => None,
    }
}

/// `@name(args){{content}}` at `i`, the content ending at the first `}}`.
pub open spec fn block_multi_at(s: Seq<char>, i: int) -> Option<(int, int, int)> {
    match plugin_head(s, i, '@') {
        Some(h) => {
            let f = find_from(s, h.1 + 3, "}}"@);
            if has_at(s, h.1 + 1, "{{"@) && f < s.len() {
                Some((h.0, h.1, f))
            } else {
                None
            }
        },
        None => None,
    }
}

/// `@name(args){content}` at `i`, the content ending at the first `}`.
pub open spec fn block_single_at(s: Seq<char>, i: int) -> Option<(int, int, int)> {
    match plugin_head(s, i, '@') {
        Some(h) => {
            let g = next_of(s, h.1 + 2, '}');
            if h.1 + 1 < s.len() && s[h.1 + 1] == '{' && g < s.len() {
                Some((h.0, h.1, g))
            } else {
                None
            }
        },
        None => None,
    }
}

/// The name, arguments and content of a plugin found at `i`, given where its parts end
/// and how many characters open the content.
pub open spec fn plugin_parts(s: Seq<char>, i: int, h: (int, int, int), open: int) -> (
    Seq<char>,
    Seq<char>,
    Seq<char>,
) {
    (s.subrange(i + 1, h.0), s.subrange(h.0 + 1, h.1), s.subrange(h.1 + 1 + open, h.2))
}

/// The container of a plugin: its name as a class, its arguments as an attribute,
/// its content with `<` and `>` escaped.
pub open spec fn container(
    tag: Seq<char>,
    name: Seq<char>,
    args: Seq<char>,
    content: Seq<char>,
) -> Seq<char> {
    "<"@ + tag + " class=\"plugin-"@ + name + "\" data-args=\""@ + attr_escape(args) + "\">"@
        + angle_escape(content) + "</"@ + tag + ">"@
}

/// A block container as a standalone block, on lines of its own.
pub open spec fn block_container(name: Seq<char>, args: Seq<char>, content: Seq<char>) -> Seq<
    char,
> {
    "\n<div class=\"plugin-"@ + name + "\" data-args=\""@ + attr_escape(args) + "\">"@
        + angle_escape(content) + "\n</div>\n"@
}

pub open spec fn multi_block_rule(s: Seq<char>, i: int) -> Option<(int, Seq<char>)> {
    match block_multi_at(s, i) {
        Some(h) => {
            let p = plugin_parts(s, i, h, 2);
            Some((h.2 + 2, block_container(p.0, p.1, p.2)))
        },
        None => None,
    }
}

pub open spec fn single_block_rule(s: Seq<char>, i: int) -> Option<(int, Seq<char>)> {
    match block_single_at(s, i) {
        Some(h) => {
            let p = plugin_parts(s, i, h, 1);
            Some((h.2 + 1, block_container(p.0, p.1, p.2)))
        },
        None => None,
    }
}

pub open spec fn inline_rule(s: Seq<char>, i: int) -> Option<(int, Seq<char>)> {
    match inline_plugin_at(s, i) {
        Some(h) => {
            let p = plugin_parts(s, i, h, 1);
            Some((h.2 + 2, container("span"@, p.0, p.1, p.2)))
        },
        None => None,
    }
}

pub open spec fn multi_block_r() -> Rule {
    |s: Seq<char>, i: int| multi_block_rule(s, i)
}

pub open spec fn single_block_r() -> Rule {
    |s: Seq<char>, i: int| single_block_rule(s, i)
}

pub open spec fn inline_r() -> Rule {
    |s: Seq<char>, i: int| inline_rule(s, i)
}

/// Block plugins spanning lines first, then one-line block plugins, then inline plugins.
pub open spec fn plugin_syntax(s: Seq<char>) -> Seq<char> {
    let a = rewrite(s, 0, multi_block_r());
    let b = rewrite(a, 0, single_block_r());
    rewrite(b, 0, inline_r())
}

// ---- executable matchers ----

pub(crate) fn plugin_head_exec(s: &Vec<char>, i: usize, sigil: char) -> (r: Option<(usize, usize)>)
    requires
        i < s.len(),
    ensures
        match r {
            Some(h) => plugin_head(s@, i as int, sigil) == Some((h.0 as int, h.1 as int)) && i
                + 1 < h.0 < h.1 < s.len(),
            None => plugin_head(s@, i as int, sigil) is None,
        },
{
    if s[i] != sigil {
        return None;
    }
    let n = word_end_exec(s, i + 1);
    if !(i + 1 < n && n < s.len() && s[n] == '(') {
        return None;
    }
    let c = find_char(s, n + 1, ')');
    if c < s.len() {
        Some((n, c))
    } else {
        None
    }
}

pub(crate) fn content_end_exec(s: &Vec<char>, k: usize) -> (r: usize)
    requires
        k <= s.len(),
    ensures
        r == content_end(s@, k as int),
        k <= r <= s.len(),
{
    let mut j: usize = k;
    loop
        invariant
            k <= j <= s.len(),
            content_end(s@, j as int) == content_end(s@, k as int),
        decreases s.len() - j,
    {
        if j >= s.len() || s[j] == '}' {
            return j;
        }
        if s[j] == '{' {
            let g = find_char(s, j + 1, '}');
            let o = find_char(s, j + 1, '{');
            if g < s.len() && g < o {
                j = g + 1;
            } else {
                return j;
            }
        } else {
            j = j + 1;
        }
    }
}

pub(crate) fn inline_plugin_exec(s: &Vec<char>, i: usize) -> (r: Option<(usize, usize, usize)>)
    requires
        i < s.len(),
    ensures
        match r {
            Some(h) => inline_plugin_at(s@, i as int) == Some((h.0 as int, h.1 as int, h.2 as int))
                && i + 1 < h.0 < h.1 && h.1 + 2 <= h.2 && h.2 + 2 <= s.len(),
            None => inline_plugin_at(s@, i as int) is None,
        },
{
    match plugin_head_exec(s, i, '&') {
        Some(h) => {
            if !(h.1 + 1 < s.len() && s[h.1 + 1] == '{') {
                return None;
            }
            let k = content_end_exec(s, h.1 + 2);
            if k < s.len() && k + 1 < s.len() && s[k] == '}' && s[k + 1] == ';' {
                Some((h.0, h.1, k))
            } else {
                None
            }
        },
        None => None,
    }
}

pub(crate) fn block_multi_exec(s: &Vec<char>, i: usize) -> (r: Option<(usize, usize, usize)>)
    requires
        i < s.len(),
    ensures
        match r {
            Some(h) => block_multi_at(s@, i as int) == Some((h.0 as int, h.1 as int, h.2 as int))
                && i + 1 < h.0 < h.1 && h.1 + 3 <= h.2 && h.2 + 2 <= s.len(),
            None => block_multi_at(s@, i as int) is None,
        },
{
    proof {
        reveal_strlit("}}");
        reveal_strlit("{{");
    }
    match plugin_head_exec(s, i, '@') {
        Some(h) => {
            if !starts_at(s, h.1 + 1, "{{") {
                return None;
            }
            let f = find_from_exec(s, h.1 + 3, "}}");
            if f < s.len() {
                Some((h.0, h.1, f))
            } else {
                None
            }
        },
        None => None,
    }
}

pub(crate) fn block_single_exec(s: &Vec<char>, i: usize) -> (r: Option<(usize, usize, usize)>)
    requires
        i < s.len(),
    ensures
        match r {
            Some(h) => block_single_at(s@, i as int) == Some((h.0 as int, h.1 as int, h.2 as int))
                && i + 1 < h.0 < h.1 && h.1 + 2 <= h.2 && h.2 + 1 <= s.len(),
            None => block_single_at(s@, i as int) is None,
        },
{
    match plugin_head_exec(s, i, '@') {
        Some(h) => {
            if !(h.1 + 1 < s.len() && s[h.1 + 1] == '{') {
                return None;
            }
            let g = find_char(s, h.1 + 2, '}');
            if g < s.len() {
                Some((h.0, h.1, g))
            } else {
                None
            }
        },
        None => None,
    }
}

/// The name, arguments and content of a plugin found at `i`.
pub(crate) fn plugin_parts_exec(s: &Vec<char>, i: usize, h: (usize, usize, usize), open: usize) -> (r: (
    Vec<char>,
    Vec<char>,
    Vec<char>,
))
    requires
        i + 1 <= h.0 < h.1,
        h.1 + 1 + open <= h.2 <= s.len(),
    ensures
        (r.0@, r.1@, r.2@) == plugin_parts(s@, i as int, (h.0 as int, h.1 as int, h.2 as int), open as int),
{
    (slice(s, i + 1, h.0), slice(s, h.0 + 1, h.1), slice(s, h.1 + 1 + open, h.2))
}

/// Writes `args` as an attribute value.
pub(crate) fn escape_args(args: &Vec<char>) -> (r: Vec<char>)
    ensures
        r@ == attr_escape(args@),
{
    let a = string_of(slice(args, 0, args.len()));
    proof {
        assert(args@.subrange(0, args.len() as int) =~= args@);
    }
    let e = escape_attribute(a.as_str());
    chars_of(e.as_str())
}

pub(crate) fn container_exec(tag: &str, name: &Vec<char>, args: &Vec<char>, content: &Vec<char>) -> (r: Vec<
    char,
>)
    ensures
        r@ == container(tag@, name@, args@, content@),
{
    let mut r = chars_of("<");
    push_str(&mut r, tag);
    push_str(&mut r, " class=\"plugin-");
    push_chars(&mut r, name);
    push_str(&mut r, "\" data-args=\"");
    push_chars(&mut r, &escape_args(args));
    push_str(&mut r, "\">");
    push_chars(&mut r, &angle_escape_exec(content));
    push_str(&mut r, "</");
    push_str(&mut r, tag);
    push_str(&mut r, ">");
    r
}

fn block_container_exec(name: &Vec<char>, args: &Vec<char>, content: &Vec<char>) -> (r: Vec<char>)
    ensures
        r@ == block_container(name@, args@, content@),
{
    let mut r = chars_of("\n<div class=\"plugin-");
    push_chars(&mut r, name);
    push_str(&mut r, "\" data-args=\"");
    push_chars(&mut r, &escape_args(args));
    push_str(&mut r, "\">");
    push_chars(&mut r, &angle_escape_exec(content));
    push_str(&mut r, "\n</div>\n");
    r
}

fn multi_block_match(s: &Vec<char>, i: usize) -> (r: Option<(usize, Vec<char>)>)
    requires
        i < s.len(),
    ensures
        agrees(s@, i as int, multi_block_r(), r),
{
    match block_multi_exec(s, i) {
        Some(h) => {
            let (name, args, content) = plugin_parts_exec(s, i, h, 2);
            Some((h.2 + 2, block_container_exec(&name, &args, &content)))
        },
        None => None,
    }
}

fn single_block_match(s: &Vec<char>, i: usize) -> (r: Option<(usize, Vec<char>)>)
    requires
        i < s.len(),
    ensures
        agrees(s@, i as int, single_block_r(), r),
{
    match block_single_exec(s, i) {
        Some(h) => {
            let (name, args, content) = plugin_parts_exec(s, i, h, 1);
            Some((h.2 + 1, block_container_exec(&name, &args, &content)))
        },
        None => None,
    }
}

fn inline_match(s: &Vec<char>, i: usize) -> (r: Option<(usize, Vec<char>)>)
    requires
        i < s.len(),
    ensures
        agrees(s@, i as int, inline_r(), r),
{
    match inline_plugin_exec(s, i) {
        Some(h) => {
            let (name, args, content) = plugin_parts_exec(s, i, h, 1);
            Some((h.2 + 2, container_exec("span", &name, &args, &content)))
        },
        None => None,
    }
}

/// Converts plugin syntax to containers for a separate executor: block plugins
/// become `div` elements on lines of their own, inline plugins `span` elements.
/// Plugin names are not checked against any registry.
pub fn apply_plugin_syntax(html: &str) -> (r: String)
    ensures
        r@ == plugin_syntax(html@),
{
    let s = chars_of(html);
    let a = rewrite_all(&s, multi_block_match, Ghost(multi_block_r()));
    let b = rewrite_all(&a, single_block_match, Ghost(single_block_r()));
    let c = rewrite_all(&b, inline_match, Ghost(inline_r()));
    string_of(c)
}

} // verus!
