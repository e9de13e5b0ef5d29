//! Keeps wiki syntax and Markdown syntax apart around an external Markdown renderer.
//!
//! Before rendering, syntax that the renderer would misread is replaced by placeholder
//! tokens `{{KIND:payload:KIND}}`, and explicit heading ids are taken out of heading
//! lines. After rendering, the tokens are turned into their HTML and every heading
//! gets an anchor.
use vstd::prelude::*;
use vstd::std_specs::hash::group_hash_axioms;
use vstd::utf8::{decode_utf8, encode_utf8, valid_utf8};
use std::collections::HashMap;
use crate::block_decorations::{block_decorate_chars, block_decorated};
use crate::encoding::{
    base64_decode, base64_decoded, base64_encode, base64_of, is_base64_char, utf8_text,
};
use crate::plugins::{
    block_multi_at, block_multi_exec, block_single_at, block_single_exec, container, container_exec,
    inline_plugin_at, inline_plugin_exec, plugin_parts, plugin_parts_exec,
};
use crate::text::{
    agrees, chars_at, chars_of, contains, contains_str, decimal, decimal_exec, delimited_at,
    delimited_exec, find_char, find_from, find_from_exec, has_at, is_ws, is_ws_exec, lit_len, map_lines, map_lines_exec,
    next_of, push_chars, push_str, rewrite, rewrite_all, run_end, run_end_exec, slice,
    starts_at, string_of, trim, trim_end, trim_end_vec, trim_start, trim_start_vec, trim_vec,
    word_end, word_end_exec, ws_end, ws_end_exec, Rule,
};

verus! {

broadcast use group_hash_axioms;

/// Explicit heading ids found before rendering, keyed by the 1-based position of the
/// heading among all headings of the document.
#[derive(Debug, Clone)]
pub struct HeaderIdMap {
    pub ids: HashMap<usize, String>,
}

impl View for HeaderIdMap {
    type V = Map<int, Seq<char>>;

    open spec fn view(&self) -> Map<int, Seq<char>> {
        Map::new(
            |k: int| 0 <= k <= usize::MAX && self.ids@.contains_key(k as usize),
            |k: int| self.ids@[k as usize]@,
        )
    }
}

impl HeaderIdMap {
    /// An empty map.
    pub fn new() -> (r: Self)
        ensures
            r@ == Map::<int, Seq<char>>::empty(),
    {
        let r = HeaderIdMap { ids: HashMap::new() };
        assert(r@ =~= Map::<int, Seq<char>>::empty());
        r
    }
}

// ---- headings ----

/// A heading line: up to three spaces, then one to six `#` followed by white space or
/// by the end of the line (an empty heading).
pub open spec fn is_heading(l: Seq<char>) -> bool {
    let w = run_end(l, 0, ' ');
    let n = run_end(l, w, '#');
    w <= 3 && 1 <= n - w <= 6 && (n == l.len() || (n < l.len() && is_ws(l[n])))
}

/// A character of an explicit heading id.
pub open spec fn is_id_char(c: char) -> bool {
    ('a' <= c && c <= 'z') || ('A' <= c && c <= 'Z') || ('0' <= c && c <= '9') || c == '_' || c
        == '-'
}

/// The start of the run of id characters that ends at `k`.
pub open spec fn id_start(t: Seq<char>, k: int) -> int
    decreases k,
{
    if k <= 0 || k > t.len() || !is_id_char(t[k - 1]) {
        k
    } else {
        id_start(t, k - 1)
    }
}

/// `# Title {#id}`: the heading without its id, and the id. The id is made of letters,
/// digits, `_` and `-`, and white space stands before it.
pub open spec fn header_id_line(l: Seq<char>) -> Option<(Seq<char>, Seq<char>)> {
    let t = trim_end(l);
    let k = t.len() - 1;
    let j = id_start(t, k);
    let head = t.subrange(0, j - 2);
    let h = trim_end(head);
    let n = run_end(h, run_end(h, 0, ' '), '#');
    let title = trim_start(h.subrange(n, h.len() as int));
    if t.len() >= 1 && t[k] == '}' && 2 <= j < k && t[j - 1] == '#' && t[j - 2] == '{' && head.len()
        > 0 && is_ws(head.last()) && is_heading(h) && title.len() > 0 {
        Some((h.subrange(0, n) + " "@ + title, t.subrange(j, k)))
    } else {
        None
    }
}

// ---- wiki lines that the renderer would misread ----

/// `> text <` on one line: the text between the markers, without surrounding white space.
pub open spec fn quote_line(l: Seq<char>) -> Option<Seq<char>> {
    let t = trim_end(l);
    let c = trim(t.subrange(1, t.len() - 1));
    if t.len() >= 2 && t[0] == '>' && t.last() == '<' && c.len() > 0 {
        Some(c)
    } else {
        None
    }
}

/// A line that starts with a `COLOR(..):`, `SIZE(..):`, `RIGHT:`, `CENTER:` or `LEFT:`
/// prefix and has content after it.
pub open spec fn decoration_line(l: Seq<char>) -> bool {
    let cc = next_of(l, "COLOR("@.len() as int, ')');
    let sc = next_of(l, "SIZE("@.len() as int, ')');
    ||| has_at(l, 0, "COLOR("@) && cc + 2 < l.len() && l[cc + 1] == ':'
    ||| has_at(l, 0, "SIZE("@) && "SIZE("@.len() < sc && sc + 2 < l.len() && l[sc + 1] == ':'
    ||| has_at(l, 0, "RIGHT:"@) && "RIGHT:"@.len() < l.len()
    ||| has_at(l, 0, "CENTER:"@) && "CENTER:"@.len() < l.len()
    ||| has_at(l, 0, "LEFT:"@) && "LEFT:"@.len() < l.len()
}

pub open spec fn token(kind: Seq<char>, payload: Seq<char>) -> Seq<char> {
    "{{"@ + kind + ":"@ + payload + ":"@ + kind + "}}"@
}

/// One line before rendering: a heading loses its explicit id, a wiki quote and a
/// decorated line become placeholder tokens, any other line is kept.
pub open spec fn protect_line(l: Seq<char>) -> Seq<char> {
    match header_id_line(l) {
        Some(p) => p.0,
        None => match quote_line(l) {
            Some(c) => token("LUKIWIKI_BLOCKQUOTE"@, c),
            None => if decoration_line(l) {
                token("BLOCK_DECORATION"@, l)
            } else {
                l
            },
        },
    }
}

pub open spec fn protect_line_fn() -> spec_fn(Seq<char>) -> Seq<char> {
    |l: Seq<char>| protect_line(l)
}

/// The explicit ids of the headings from position `i` on, added to `acc`; `n` headings
/// come before `i`.
pub open spec fn heading_ids_from(s: Seq<char>, i: int, n: int, acc: Map<int, Seq<char>>) -> Map<
    int,
    Seq<char>,
>
    decreases s.len() + 1 - i,
{
    if i < 0 || i > s.len() {
        acc
    } else {
        let e = next_of(s, i, '\n');
        let l = s.subrange(i, e);
        let m = if is_heading(l) {
            n + 1
        } else {
            n
        };
        let acc2 = match header_id_line(l) {
            Some(p) => acc.insert(m, p.1),
            None => acc,
        };
        if i <= e < s.len() {
            heading_ids_from(s, e + 1, m, acc2)
        } else {
            acc2
        }
    }
}

/// Explicit heading ids of a document, keyed by the heading's 1-based position among
/// all headings.
pub open spec fn heading_ids(s: Seq<char>) -> Map<int, Seq<char>> {
    heading_ids_from(s, 0, 0, Map::empty())
}

// ---- plugins ----

/// The base64 of a text's UTF-8 bytes.
pub open spec fn encoded(t: Seq<char>) -> Seq<char> {
    base64_of(encode_utf8(t))
}

/// A plugin placeholder: the name, then the arguments and the content, each as the
/// base64 of its UTF-8 bytes.
pub open spec fn plugin_token(kind: Seq<char>, name: Seq<char>, args: Seq<char>, content: Seq<char>) -> Seq<
    char,
> {
    token(kind, name + ":"@ + encoded(args) + ":"@ + encoded(content))
}

/// A placeholder of the given markers at `i`: where it ends, at the first closing marker.
pub open spec fn marked_span(s: Seq<char>, i: int, open: Seq<char>, close: Seq<char>) -> Option<int> {
    let f = find_from(s, i + open.len(), close);
    if has_at(s, i, open) && f < s.len() {
        Some(f + close.len())
    } else {
        None
    }
}

/// A placeholder token of any kind at `i`: where it ends.
pub open spec fn token_span_at(s: Seq<char>, i: int) -> Option<int> {
    match marked_span(s, i, "{{LUKIWIKI_BLOCKQUOTE:"@, ":LUKIWIKI_BLOCKQUOTE}}"@) {
        Some(e) => Some(e),
        None => match marked_span(s, i, "{{BLOCK_DECORATION:"@, ":BLOCK_DECORATION}}"@) {
            Some(e) => Some(e),
            None => match marked_span(s, i, "{{INLINE_PLUGIN:"@, ":INLINE_PLUGIN}}"@) {
                Some(e) => Some(e),
                None => marked_span(s, i, "{{BLOCK_PLUGIN:"@, ":BLOCK_PLUGIN}}"@),
            },
        },
    }
}

/// A token already in the text is kept whole, so that no later step rewrites inside it.
pub open spec fn keep_token(s: Seq<char>, i: int) -> Option<(int, Seq<char>)> {
    match token_span_at(s, i) {
        Some(e) => Some((e, s.subrange(i, e))),
        None => None,
    }
}

pub open spec fn inline_protect_rule(s: Seq<char>, i: int) -> Option<(int, Seq<char>)> {
    if keep_token(s, i) is Some {
        keep_token(s, i)
    } else {
        match inline_plugin_at(s, i) {
            Some(h) => {
                let p = plugin_parts(s, i, h, 1);
                Some((h.2 + 2, plugin_token("INLINE_PLUGIN"@, p.0, p.1, p.2)))
            },
            None => None,
        }
    }
}

pub open spec fn multi_protect_rule(s: Seq<char>, i: int) -> Option<(int, Seq<char>)> {
    if keep_token(s, i) is Some {
        keep_token(s, i)
    } else {
        match block_multi_at(s, i) {
            Some(h) => {
                let p = plugin_parts(s, i, h, 2);
                Some((h.2 + 2, plugin_token("BLOCK_PLUGIN"@, p.0, p.1, p.2)))
            },
            None => None,
        }
    }
}

pub open spec fn single_protect_rule(s: Seq<char>, i: int) -> Option<(int, Seq<char>)> {
    if keep_token(s, i) is Some {
        keep_token(s, i)
    } else {
        match block_single_at(s, i) {
            Some(h) => {
                let p = plugin_parts(s, i, h, 1);
                Some((h.2 + 1, plugin_token("BLOCK_PLUGIN"@, p.0, p.1, p.2)))
            },
            None => None,
        }
    }
}

pub open spec fn inline_protect_r() -> Rule {
    |s: Seq<char>, i: int| inline_protect_rule(s, i)
}

pub open spec fn multi_protect_r() -> Rule {
    |s: Seq<char>, i: int| multi_protect_rule(s, i)
}

pub open spec fn single_protect_r() -> Rule {
    |s: Seq<char>, i: int| single_protect_rule(s, i)
}

/// The text handed to the renderer: lines protected one by one, then inline plugins,
/// block plugins spanning lines and one-line block plugins replaced by tokens.
pub open spec fn protected_text(s: Seq<char>) -> Seq<char> {
    let a = map_lines(s, 0, protect_line_fn());
    let b = rewrite(a, 0, inline_protect_r());
    let c = rewrite(b, 0, multi_protect_r());
    rewrite(c, 0, single_protect_r())
}

// ---- executable pre-pass ----

fn is_heading_exec(l: &Vec<char>) -> (r: bool)
    ensures
        r == is_heading(l@),
{
    let w = run_end_exec(l, 0, ' ');
    let n = run_end_exec(l, w, '#');
    w <= 3 && 1 <= n - w && n - w <= 6 && (n == l.len() || (n < l.len() && is_ws_exec(l[n])))
}

fn is_id_char_exec(c: char) -> (r: bool)
    ensures
        r == is_id_char(c),
{
    ('a' <= c && c <= 'z') || ('A' <= c && c <= 'Z') || ('0' <= c && c <= '9') || c == '_' || c
        == '-'
}

fn id_start_exec(t: &Vec<char>, k: usize) -> (r: usize)
    requires
        k <= t.len(),
    ensures
        r == id_start(t@, k as int),
        r <= k,
{
    let mut j: usize = k;
    while j > 0 && is_id_char_exec(t[j - 1])
        invariant
            j <= k <= t.len(),
            id_start(t@, j as int) == id_start(t@, k as int),
        decreases j,
    {
        j = j - 1;
    }
    j
}

fn header_id_line_exec(l: &Vec<char>) -> (r: Option<(Vec<char>, Vec<char>)>)
    ensures
        match r {
            Some(p) => header_id_line(l@) == Some((p.0@, p.1@)),
            None => header_id_line(l@) is None,
        },
{
    let t = trim_end_vec(l);
    if t.len() < 1 || t[t.len() - 1] != '}' {
        return None;
    }
    let k = t.len() - 1;
    let j = id_start_exec(&t, k);
    if !(2 <= j && j < k && t[j - 1] == '#' && t[j - 2] == '{') {
        return None;
    }
    let head = slice(&t, 0, j - 2);
    if !(head.len() > 0 && is_ws_exec(head[head.len() - 1])) {
        return None;
    }
    let h = trim_end_vec(&head);
    if !is_heading_exec(&h) {
        return None;
    }
    let w = run_end_exec(&h, 0, ' ');
    let n = run_end_exec(&h, w, '#');
    let title = trim_start_vec(&slice(&h, n, h.len()));
    if title.len() == 0 {
        return None;
    }
    let mut line = slice(&h, 0, n);
    push_str(&mut line, " ");
    push_chars(&mut line, &title);
    Some((line, slice(&t, j, k)))
}

fn quote_line_exec(l: &Vec<char>) -> (r: Option<Vec<char>>)
    ensures
        match r {
            Some(c) => quote_line(l@) == Some(c@),
            None => quote_line(l@) is None,
        },
{
    let t = trim_end_vec(l);
    if t.len() < 2 || t[0] != '>' || t[t.len() - 1] != '<' {
        return None;
    }
    let c = trim_vec(&slice(&t, 1, t.len() - 1));
    if c.len() > 0 {
        Some(c)
    } else {
        None
    }
}

fn decoration_line_exec(l: &Vec<char>) -> (r: bool)
    ensures
        r == decoration_line(l@),
{
    let cn = lit_len("COLOR(");
    let sn = lit_len("SIZE(");
    let cc = if cn <= l.len() {
        find_char(l, cn, ')')
    } else {
        l.len()
    };
    let sc = if sn <= l.len() {
        find_char(l, sn, ')')
    } else {
        l.len()
    };
    proof {
        if cn > l.len() {
            assert(!has_at(l@, 0, "COLOR("@));
        }
        if sn > l.len() {
            assert(!has_at(l@, 0, "SIZE("@));
        }
    }
    (starts_at(l, 0, "COLOR(") && cc < l.len() && cc + 1 < l.len() && cc + 2 < l.len() && l[cc + 1] == ':') || (
    starts_at(l, 0, "SIZE(") && sn < sc && sc < l.len() && sc + 1 < l.len() && sc + 2 < l.len() && l[sc + 1] == ':')
        || (starts_at(l, 0, "RIGHT:") && lit_len("RIGHT:") < l.len()) || (starts_at(
        l,
        0,
        "CENTER:",
    ) && lit_len("CENTER:") < l.len()) || (starts_at(l, 0, "LEFT:") && lit_len("LEFT:")
        < l.len())
}

fn token_exec(kind: &str, payload: &Vec<char>) -> (r: Vec<char>)
    ensures
        r@ == token(kind@, payload@),
{
    let mut r = chars_of("{{");
    push_str(&mut r, kind);
    push_str(&mut r, ":");
    push_chars(&mut r, payload);
    push_str(&mut r, ":");
    push_str(&mut r, kind);
    push_str(&mut r, "}}");
    r
}

fn protect_line_exec(l: &Vec<char>) -> (r: Vec<char>)
    ensures
        r@ == protect_line(l@),
{
    if let Some(p) = header_id_line_exec(l) {
        return p.0;
    }
    if let Some(c) = quote_line_exec(l) {
        return token_exec("LUKIWIKI_BLOCKQUOTE", &c);
    }
    if decoration_line_exec(l) {
        token_exec("BLOCK_DECORATION", l)
    } else {
        slice(l, 0, l.len())
    }
}

fn heading_ids_exec(s: &Vec<char>) -> (r: HeaderIdMap)
    ensures
        r@ == heading_ids(s@),
{
    let mut map = HeaderIdMap::new();
    let mut i: usize = 0;
    let mut n: usize = 0;
    loop
        invariant
            i <= s.len(),
            n <= i,
            heading_ids_from(s@, i as int, n as int, map@) == heading_ids(s@),
        decreases s.len() + 1 - i,
    {
        let e = find_char(s, i, '\n');
        let line = slice(s, i, e);
        let m = if is_heading_exec(&line) {
            n + 1
        } else {
            n
        };
        if let Some(p) = header_id_line_exec(&line) {
            let ghost before = map@;
            map.ids.insert(m, string_of(p.1));
            assert(map@ =~= before.insert(m as int, p.1@));
        }
        if e < s.len() {
            i = e + 1;
            n = m;
        } else {
            return map;
        }
    }
}

/// The base64 of a text's UTF-8 bytes; only base64 characters occur in it.
fn encode_text(t: &Vec<char>) -> (r: Vec<char>)
    ensures
        r@ == encoded(t@),
        forall|k: int| 0 <= k < r@.len() ==> is_base64_char(#[trigger] r@[k]),
{
    let text = string_of(slice(t, 0, t.len()));
    proof {
        assert(t@.subrange(0, t.len() as int) =~= t@);
    }
    let e = base64_encode(text.as_str().as_bytes());
    chars_of(e.as_str())
}

fn marked_span_exec(s: &Vec<char>, i: usize, open: &str, close: &str) -> (r: Option<usize>)
    requires
        i < s.len(),
        open@.len() > 0,
    ensures
        match r {
            Some(e) => marked_span(s@, i as int, open@, close@) == Some(e as int) && i < e <= s.len(),
            None => marked_span(s@, i as int, open@, close@) is None,
        },
{
    if !starts_at(s, i, open) {
        return None;
    }
    let j = i + lit_len(open);
    let f = find_from_exec(s, j, close);
    if f < s.len() {
        Some(f + lit_len(close))
    } else {
        None
    }
}

fn token_span_exec(s: &Vec<char>, i: usize) -> (r: Option<usize>)
    requires
        i < s.len(),
    ensures
        match r {
            Some(e) => token_span_at(s@, i as int) == Some(e as int) && i < e <= s.len(),
            None => token_span_at(s@, i as int) is None,
        },
{
    proof {
        reveal_strlit("{{LUKIWIKI_BLOCKQUOTE:");
        reveal_strlit("{{BLOCK_DECORATION:");
        reveal_strlit("{{INLINE_PLUGIN:");
        reveal_strlit("{{BLOCK_PLUGIN:");
    }
    if let Some(e) = marked_span_exec(s, i, "{{LUKIWIKI_BLOCKQUOTE:", ":LUKIWIKI_BLOCKQUOTE}}") {
        return Some(e);
    }
    if let Some(e) = marked_span_exec(s, i, "{{BLOCK_DECORATION:", ":BLOCK_DECORATION}}") {
        return Some(e);
    }
    if let Some(e) = marked_span_exec(s, i, "{{INLINE_PLUGIN:", ":INLINE_PLUGIN}}") {
        return Some(e);
    }
    marked_span_exec(s, i, "{{BLOCK_PLUGIN:", ":BLOCK_PLUGIN}}")
}

fn plugin_token_exec(kind: &str, name: &Vec<char>, args: &Vec<char>, content: &Vec<char>) -> (r: Vec<char>)
    ensures
        r@ == plugin_token(kind@, name@, args@, content@),
{
    let mut payload = slice(name, 0, name.len());
    push_str(&mut payload, ":");
    push_chars(&mut payload, &encode_text(args));
    push_str(&mut payload, ":");
    push_chars(&mut payload, &encode_text(content));
    proof {
        assert(name@.subrange(0, name.len() as int) =~= name@);
    }
    token_exec(kind, &payload)
}

fn inline_protect_match(s: &Vec<char>, i: usize) -> (r: Option<(usize, Vec<char>)>)
    requires
        i < s.len(),
    ensures
        agrees(s@, i as int, inline_protect_r(), r),
{
    if let Some(e) = token_span_exec(s, i) {
        return Some((e, slice(s, i, e)));
    }
    match inline_plugin_exec(s, i) {
        Some(h) => {
            let (name, args, content) = plugin_parts_exec(s, i, h, 1);
            Some((h.2 + 2, plugin_token_exec("INLINE_PLUGIN", &name, &args, &content)))
        },
        None => None,
    }
}

fn multi_protect_match(s: &Vec<char>, i: usize) -> (r: Option<(usize, Vec<char>)>)
    requires
        i < s.len(),
    ensures
        agrees(s@, i as int, multi_protect_r(), r),
{
    if let Some(e) = token_span_exec(s, i) {
        return Some((e, slice(s, i, e)));
    }
    match block_multi_exec(s, i) {
        Some(h) => {
            let (name, args, content) = plugin_parts_exec(s, i, h, 2);
            Some((h.2 + 2, plugin_token_exec("BLOCK_PLUGIN", &name, &args, &content)))
        },
        None => None,
    }
}

fn single_protect_match(s: &Vec<char>, i: usize) -> (r: Option<(usize, Vec<char>)>)
    requires
        i < s.len(),
    ensures
        agrees(s@, i as int, single_protect_r(), r),
{
    if let Some(e) = token_span_exec(s, i) {
        return Some((e, slice(s, i, e)));
    }
    match block_single_exec(s, i) {
        Some(h) => {
            let (name, args, content) = plugin_parts_exec(s, i, h, 1);
            Some((h.2 + 1, plugin_token_exec("BLOCK_PLUGIN", &name, &args, &content)))
        },
        None => None,
    }
}

/// Prepares wiki markup for the Markdown renderer: explicit heading ids are taken out
/// and recorded, and syntax the renderer would misread is replaced by placeholder tokens.
pub fn preprocess_conflicts(input: &str) -> (r: (String, HeaderIdMap))
    ensures
        r.0@ == protected_text(input@),
        r.1@ == heading_ids(input@),
{
    let s = chars_of(input);
    let map = heading_ids_exec(&s);
    let a = map_lines_exec(&s, protect_line_exec, Ghost(protect_line_fn()));
    let b = rewrite_all(&a, inline_protect_match, Ghost(inline_protect_r()));
    let c = rewrite_all(&b, multi_protect_match, Ghost(multi_protect_r()));
    let d = rewrite_all(&c, single_protect_match, Ghost(single_protect_r()));
    (string_of(d), map)
}


// ---- after rendering ----

pub open spec fn is_level(c: char) -> bool {
    '1' <= c && c <= '6'
}

/// `<hN>title</hM>` at `i`, the title free of `<` and possibly empty: where the title ends.
pub open spec fn heading_tag_at(s: Seq<char>, i: int) -> Option<int> {
    let t = next_of(s, i + 4, '<');
    if has_at(s, i, "<h"@) && i + 3 < s.len() && is_level(s[i + 2]) && s[i + 3] == '>' && i + 4 <= t
        && has_at(s, t, "</h"@) && t + 4 < s.len() && is_level(s[t + 3]) && s[t + 4] == '>' {
        Some(t)
    } else {
        None
    }
}

/// The anchor id of the `k`-th heading: its explicit id, else `heading-k`.
pub open spec fn anchor_id(ids: Map<int, Seq<char>>, k: int) -> Seq<char> {
    if ids.contains_key(k) {
        ids[k]
    } else {
        "heading-"@ + decimal(k as nat)
    }
}

/// A heading with an anchor inserted before its title.
pub open spec fn anchored(s: Seq<char>, i: int, t: int, id: Seq<char>) -> Seq<char> {
    "<h"@ + seq![s[i + 2]] + "><a href=\"#"@ + id + "\" aria-hidden=\"true\" class=\"anchor\" id=\""@
        + id + "\"></a>"@ + s.subrange(i + 4, t) + "</h"@ + seq![s[t + 3]] + ">"@
}

/// Anchors every heading from position `i` on; `n` headings come before `i`.
pub open spec fn anchors_from(s: Seq<char>, i: int, n: int, ids: Map<int, Seq<char>>) -> Seq<char>
    decreases s.len() - i,
{
    if i < 0 || i >= s.len() {
        Seq::empty()
    } else {
        match heading_tag_at(s, i) {
            Some(t) => if i < t && t + 5 <= s.len() {
                anchored(s, i, t, anchor_id(ids, n + 1)) + anchors_from(s, t + 5, n + 1, ids)
            } else {
                seq![s[i]] + anchors_from(s, i + 1, n, ids)
            },
            None => seq![s[i]] + anchors_from(s, i + 1, n, ids),
        }
    }
}

pub open spec fn quote_restore_rule(s: Seq<char>, i: int) -> Option<(int, Seq<char>)> {
    let open = "{{LUKIWIKI_BLOCKQUOTE:"@;
    let close = ":LUKIWIKI_BLOCKQUOTE}}"@;
    match delimited_at(s, i, open, close) {
        Some(f) => Some(
            (
                f + close.len(),
                "<blockquote class=\"lukiwiki\">"@ + s.subrange(i + open.len(), f)
                    + "</blockquote>"@,
            ),
        ),
        None => None,
    }
}

/// A decorated-line token becomes the decorated paragraph of its line wherever it
/// stands; a paragraph that the renderer put around the token alone is dropped.
pub open spec fn decoration_restore_rule(s: Seq<char>, i: int) -> Option<(int, Seq<char>)> {
    let open = "{{BLOCK_DECORATION:"@;
    let close = ":BLOCK_DECORATION}}"@;
    let j = i + "<p>"@.len();
    match delimited_at(s, j, open, close) {
        Some(f) if has_at(s, i, "<p>"@) && has_at(s, f + close.len(), "</p>"@) => Some(
            (f + close.len() + "</p>"@.len(), block_decorated(s.subrange(j + open.len(), f))),
        ),
        _ => match delimited_at(s, i, open, close) {
            Some(f) => Some((f + close.len(), block_decorated(s.subrange(i + open.len(), f)))),
            None => None,
        },
    }
}

/// A plugin token at `i`: where the name, the arguments and the payload end.
pub open spec fn marker_at(s: Seq<char>, i: int, open: Seq<char>, close: Seq<char>) -> Option<
    (int, int, int),
> {
    let j = i + open.len();
    let n = word_end(s, j);
    let a = next_of(s, n + 1, ':');
    let e = next_of(s, a + 1, ':');
    if has_at(s, i, open) && j < n < s.len() && s[n] == ':' && a < s.len() && has_at(s, e, close) {
        Some((n, a, e))
    } else {
        None
    }
}

/// The content a payload stands for: its base64 decoding when that is valid UTF-8,
/// else the payload itself.
pub open spec fn decoded_text(enc: Seq<char>) -> Seq<char> {
    match base64_decoded(enc) {
        Some(b) => if valid_utf8(b) {
            decode_utf8(b)
        } else {
            enc
        },
        None => enc,
    }
}

pub open spec fn plugin_restore_rule(s: Seq<char>, i: int, kind: Seq<char>, tag: Seq<char>) -> Option<
    (int, Seq<char>),
> {
    let open = "{{"@ + kind + ":"@;
    let close = ":"@ + kind + "}}"@;
    match marker_at(s, i, open, close) {
        Some(h) => Some(
            (
                h.2 + close.len(),
                container(
                    tag,
                    s.subrange(i + open.len(), h.0),
                    decoded_text(s.subrange(h.0 + 1, h.1)),
                    decoded_text(s.subrange(h.1 + 1, h.2)),
                ),
            ),
        ),
        None => None,
    }
}

/// The first `</div>` in `[k, limit)` followed by white space and `</p>`, else `limit`.
pub open spec fn div_close_from(s: Seq<char>, k: int, limit: int) -> int
    decreases limit - k,
{
    if k < 0 || k >= limit || k >= s.len() {
        limit
    } else if has_at(s, k, "</div>"@) && has_at(s, ws_end(s, k + 6), "</p>"@) {
        k
    } else {
        div_close_from(s, k + 1, limit)
    }
}

/// `<p>` around a plugin `div` on one line: where the `div` starts and ends, and
/// where the `</p>` ends.
pub open spec fn wrapped_div_at(s: Seq<char>, i: int) -> Option<(int, int, int)> {
    let a = ws_end(s, i + 3);
    let b = a + "<div class=\"plugin-"@.len();
    let q = next_of(s, b, '"');
    let g = next_of(s, q + 1, '>');
    let nl = next_of(s, g + 1, '\n');
    let k = div_close_from(s, g + 1, nl);
    let z = ws_end(s, k + 6);
    if has_at(s, i, "<p>"@) && has_at(s, a, "<div class=\"plugin-"@) && b < q < s.len() && g
        < s.len() && k < nl {
        Some((a, k + 6, z + 4))
    } else {
        None
    }
}

pub open spec fn unwrap_rule(s: Seq<char>, i: int) -> Option<(int, Seq<char>)> {
    match wrapped_div_at(s, i) {
        Some(h) => Some((h.2, s.subrange(h.0, h.1))),
        None => None,
    }
}

pub open spec fn quote_restore_r() -> Rule {
    |s: Seq<char>, i: int| quote_restore_rule(s, i)
}

pub open spec fn decoration_restore_r() -> Rule {
    |s: Seq<char>, i: int| decoration_restore_rule(s, i)
}

pub open spec fn inline_restore_r() -> Rule {
    |s: Seq<char>, i: int| plugin_restore_rule(s, i, "INLINE_PLUGIN"@, "span"@)
}

pub open spec fn block_restore_r() -> Rule {
    |s: Seq<char>, i: int| plugin_restore_rule(s, i, "BLOCK_PLUGIN"@, "div"@)
}

pub open spec fn unwrap_r() -> Rule {
    |s: Seq<char>, i: int| unwrap_rule(s, i)
}

/// The final HTML: headings anchored, then wiki quotes, decorated paragraphs, inline
/// plugins and block plugins restored from their tokens, then paragraph wrappers
/// removed from around plugin blocks.
pub open spec fn restored(s: Seq<char>, ids: Map<int, Seq<char>>) -> Seq<char> {
    let a = anchors_from(s, 0, 0, ids);
    let b = rewrite(a, 0, quote_restore_r());
    let c = rewrite(b, 0, decoration_restore_r());
    let d = rewrite(c, 0, inline_restore_r());
    let e = rewrite(d, 0, block_restore_r());
    rewrite(e, 0, unwrap_r())
}

// ---- executable post-pass ----

fn heading_tag_exec(s: &Vec<char>, i: usize) -> (r: Option<usize>)
    requires
        i < s.len(),
    ensures
        match r {
            Some(t) => heading_tag_at(s@, i as int) == Some(t as int) && i + 4 <= t && t + 5 <= s.len(),
            None => heading_tag_at(s@, i as int) is None,
        },
{
    if !(starts_at(s, i, "<h") && s.len() - i > 3 && '1' <= s[i + 2] && s[i + 2] <= '6' && s[i
        + 3] == '>') {
        return None;
    }
    let t = find_char(s, i + 4, '<');
    if t - i >= 4 && starts_at(s, t, "</h") && t < s.len() && s.len() - t > 4 && '1' <= s[t + 3]
        && s[t + 3] <= '6' && s[t + 4] == '>' {
        Some(t)
    } else {
        None
    }
}

fn anchor_id_exec(header_map: &HeaderIdMap, m: usize) -> (r: Vec<char>)
    ensures
        r@ == anchor_id(header_map@, m as int),
{
    match header_map.ids.get(&m) {
        Some(v) => chars_of(v.as_str()),
        None => {
            let mut d = chars_of("heading-");
            push_chars(&mut d, &decimal_exec(m));
            d
        },
    }
}

fn anchored_exec(s: &Vec<char>, i: usize, t: usize, id: &Vec<char>) -> (r: Vec<char>)
    requires
        i + 4 <= t,
        t + 5 <= s.len(),
    ensures
        r@ == anchored(s@, i as int, t as int, id@),
{
    let mut out = chars_of("<h");
    out.push(s[i + 2]);
    push_str(&mut out, "><a href=\"#");
    push_chars(&mut out, id);
    push_str(&mut out, "\" aria-hidden=\"true\" class=\"anchor\" id=\"");
    push_chars(&mut out, id);
    push_str(&mut out, "\"></a>");
    push_chars(&mut out, &slice(s, i + 4, t));
    push_str(&mut out, "</h");
    out.push(s[t + 3]);
    push_str(&mut out, ">");
    assert(out@ =~= anchored(s@, i as int, t as int, id@));
    out
}

fn anchors_exec(s: &Vec<char>, header_map: &HeaderIdMap) -> (r: Vec<char>)
    ensures
        r@ == anchors_from(s@, 0, 0, header_map@),
{
    let ghost ids = header_map@;
    let mut out: Vec<char> = Vec::new();
    let mut i: usize = 0;
    let mut n: usize = 0;
    while i < s.len()
        invariant
            i <= s.len(),
            n <= i,
            ids == header_map@,
            out@ + anchors_from(s@, i as int, n as int, ids) == anchors_from(s@, 0, 0, ids),
        decreases s.len() - i,
    {
        match heading_tag_exec(s, i) {
            Some(t) => {
                let m = n + 1;
                let id = anchor_id_exec(header_map, m);
                let piece = anchored_exec(s, i, t, &id);
                push_chars(&mut out, &piece);
                i = t + 5;
                n = m;
            },
            None => {
                out.push(s[i]);
                i = i + 1;
            },
        }
    }
    out
}

fn quote_restore_match(s: &Vec<char>, i: usize) -> (r: Option<(usize, Vec<char>)>)
    requires
        i < s.len(),
    ensures
        agrees(s@, i as int, quote_restore_r(), r),
{
    match delimited_exec(s, i, "{{LUKIWIKI_BLOCKQUOTE:", ":LUKIWIKI_BLOCKQUOTE}}") {
        Some(f) => {
            let mut out = chars_of("<blockquote class=\"lukiwiki\">");
            push_chars(&mut out, &slice(s, i + lit_len("{{LUKIWIKI_BLOCKQUOTE:"), f));
            push_str(&mut out, "</blockquote>");
            Some((f + lit_len(":LUKIWIKI_BLOCKQUOTE}}"), out))
        },
        None => None,
    }
}

fn decoration_restore_match(s: &Vec<char>, i: usize) -> (r: Option<(usize, Vec<char>)>)
    requires
        i < s.len(),
    ensures
        agrees(s@, i as int, decoration_restore_r(), r),
{
    let open = "{{BLOCK_DECORATION:";
    let close = ":BLOCK_DECORATION}}";
    proof {
        reveal_strlit("<p>");
        reveal_strlit("</p>");
    }
    if starts_at(s, i, "<p>") && i + 3 < s.len() {
        if let Some(f) = delimited_exec(s, i + 3, open, close) {
            let e = f + lit_len(close);
            if starts_at(s, e, "</p>") {
                let content = slice(s, i + 3 + lit_len(open), f);
                return Some((e + 4, block_decorate_chars(&content)));
            }
        }
    }
    match delimited_exec(s, i, open, close) {
        Some(f) => {
            let content = slice(s, i + lit_len(open), f);
            Some((f + lit_len(close), block_decorate_chars(&content)))
        },
        None => None,
    }
}

fn marker_exec(s: &Vec<char>, i: usize, open: &Vec<char>, close: &Vec<char>) -> (r: Option<
    (usize, usize, usize),
>)
    requires
        i < s.len(),
    ensures
        match r {
            Some(h) => marker_at(s@, i as int, open@, close@) == Some(
                (h.0 as int, h.1 as int, h.2 as int),
            ) && i + open@.len() < h.0 < h.1 < h.2 && h.2 + close@.len() <= s.len(),
            None => marker_at(s@, i as int, open@, close@) is None,
        },
{
    if !chars_at(s, i, open) {
        return None;
    }
    let j = i + open.len();
    let n = word_end_exec(s, j);
    if !(j < n && n < s.len() && s[n] == ':') {
        return None;
    }
    let a = find_char(s, n + 1, ':');
    if a >= s.len() {
        return None;
    }
    let e = find_char(s, a + 1, ':');
    if chars_at(s, e, close) {
        Some((n, a, e))
    } else {
        None
    }
}

fn decode_payload(enc: &Vec<char>) -> (r: Vec<char>)
    ensures
        r@ == decoded_text(enc@),
{
    let text = string_of(slice(enc, 0, enc.len()));
    proof {
        assert(enc@.subrange(0, enc.len() as int) =~= enc@);
    }
    match base64_decode(text.as_str()) {
        Some(bytes) => match utf8_text(bytes) {
            Some(t) => chars_of(t.as_str()),
            None => slice(enc, 0, enc.len()),
        },
        None => slice(enc, 0, enc.len()),
    }
}

fn plugin_restore_exec(s: &Vec<char>, i: usize, kind: &str, tag: &str) -> (r: Option<(usize, Vec<char>)>)
    requires
        i < s.len(),
    ensures
        match r {
            Some(h) => i < h.0 <= s.len() && plugin_restore_rule(s@, i as int, kind@, tag@) == Some(
                (h.0 as int, h.1@),
            ),
            None => plugin_restore_rule(s@, i as int, kind@, tag@) is None,
        },
{
    let mut open = chars_of("{{");
    push_str(&mut open, kind);
    push_str(&mut open, ":");
    let mut close = chars_of(":");
    push_str(&mut close, kind);
    push_str(&mut close, "}}");
    match marker_exec(s, i, &open, &close) {
        Some(h) => {
            let name = slice(s, i + open.len(), h.0);
            let args = decode_payload(&slice(s, h.0 + 1, h.1));
            let content = decode_payload(&slice(s, h.1 + 1, h.2));
            Some((h.2 + close.len(), container_exec(tag, &name, &args, &content)))
        },
        None => None,
    }
}

fn inline_restore_match(s: &Vec<char>, i: usize) -> (r: Option<(usize, Vec<char>)>)
    requires
        i < s.len(),
    ensures
        agrees(s@, i as int, inline_restore_r(), r),
{
    plugin_restore_exec(s, i, "INLINE_PLUGIN", "span")
}

fn block_restore_match(s: &Vec<char>, i: usize) -> (r: Option<(usize, Vec<char>)>)
    requires
        i < s.len(),
    ensures
        agrees(s@, i as int, block_restore_r(), r),
{
    plugin_restore_exec(s, i, "BLOCK_PLUGIN", "div")
}

fn div_close_exec(s: &Vec<char>, k: usize, limit: usize) -> (r: usize)
    requires
        k <= limit <= s.len(),
    ensures
        r == div_close_from(s@, k as int, limit as int),
        k <= r <= limit,
        r < limit ==> has_at(s@, r as int, "</div>"@) && has_at(
            s@,
            ws_end(s@, r + 6),
            "</p>"@,
        ),
{
    let mut j: usize = k;
    while j < limit
        invariant
            k <= j <= limit <= s.len(),
            div_close_from(s@, j as int, limit as int) == div_close_from(s@, k as int, limit as int),
        decreases limit - j,
    {
        proof {
            reveal_strlit("</div>");
        }
        if starts_at(s, j, "</div>") {
            let z = ws_end_exec(s, j + 6);
            if starts_at(s, z, "</p>") {
                return j;
            }
        }
        j = j + 1;
    }
    j
}

fn unwrap_match(s: &Vec<char>, i: usize) -> (r: Option<(usize, Vec<char>)>)
    requires
        i < s.len(),
    ensures
        agrees(s@, i as int, unwrap_r(), r),
{
    proof {
        reveal_strlit("</div>");
        reveal_strlit("</p>");
        reveal_strlit("<p>");
    }
    if !starts_at(s, i, "<p>") {
        return None;
    }
    let a = ws_end_exec(s, i + 3);
    if !starts_at(s, a, "<div class=\"plugin-") {
        return None;
    }
    let b = a + lit_len("<div class=\"plugin-");
    let q = find_char(s, b, '"');
    if !(b < q && q < s.len()) {
        return None;
    }
    let g = find_char(s, q + 1, '>');
    if g >= s.len() {
        return None;
    }
    let nl = find_char(s, g + 1, '\n');
    let k = div_close_exec(s, g + 1, nl);
    if k < nl {
        let z = ws_end_exec(s, k + 6);
        Some((z + 4, slice(s, a, k + 6)))
    } else {
        None
    }
}

/// Turns the renderer's HTML into the final HTML: every heading gets an anchor (its
/// explicit id, else `heading-N` with `N` counted over all headings), placeholder
/// tokens become their elements, and plugin blocks lose a wrapping paragraph.
pub fn postprocess_conflicts(html: &str, header_map: &HeaderIdMap) -> (r: String)
    ensures
        r@ == restored(html@, header_map@),
{
    let s = chars_of(html);
    let a = anchors_exec(&s, header_map);
    let b = rewrite_all(&a, quote_restore_match, Ghost(quote_restore_r()));
    let c = rewrite_all(&b, decoration_restore_match, Ghost(decoration_restore_r()));
    let d = rewrite_all(&c, inline_restore_match, Ghost(inline_restore_r()));
    let e = rewrite_all(&d, block_restore_match, Ghost(block_restore_r()));
    string_of(rewrite_all(&e, unwrap_match, Ghost(unwrap_r())))
}

// ---- diagnostics ----

/// `***text***` at `i`, the text non-empty and free of `*`.
pub open spec fn triple_star_at(s: Seq<char>, i: int) -> bool {
    let f = next_of(s, i + 3, '*');
    has_at(s, i, "***"@) && i + 3 < f && has_at(s, f, "***"@)
}

pub open spec fn has_triple_star(s: Seq<char>) -> bool {
    exists|i: int| #[trigger] triple_star_at(s, i)
}

pub open spec fn triple_emphasis_warning() -> Seq<char> {
    "Detected both ***text*** (Markdown) and '''text''' (LukiWiki). Consider using **text** for Markdown bold-italic."@
}

pub open spec fn color_definition_warning() -> Seq<char> {
    "Detected COLOR() syntax near Markdown definition list. Ensure proper spacing to avoid ambiguity."@
}

/// The warnings for `s`: Markdown `***text***` beside wiki `'''`, and `COLOR(` beside a
/// definition-list line (`\n:`).
pub open spec fn ambiguity_warnings(s: Seq<char>) -> Seq<Seq<char>> {
    let a = if has_triple_star(s) && contains(s, "'''"@) {
        seq![triple_emphasis_warning()]
    } else {
        Seq::empty()
    };
    let b = if contains(s, "COLOR("@) && contains(s, "\n:"@) {
        seq![color_definition_warning()]
    } else {
        Seq::empty()
    };
    a + b
}

fn triple_star_exec(s: &Vec<char>) -> (r: bool)
    ensures
        r == has_triple_star(s@),
{
    let mut i: usize = 0;
    while i < s.len()
        invariant
            i <= s.len(),
            forall|k: int| 0 <= k < i ==> !triple_star_at(s@, k),
        decreases s.len() - i,
    {
        proof {
            reveal_strlit("***");
        }
        if starts_at(s, i, "***") {
            let f = find_char(s, i + 3, '*');
            if i + 3 < f && starts_at(s, f, "***") {
                assert(triple_star_at(s@, i as int));
                return true;
            }
        }
        i = i + 1;
    }
    assert forall|k: int| !triple_star_at(s@, k) by {
        reveal_strlit("***");
    }
    false
}

/// Reports patterns likely to be read differently by the wiki and Markdown grammars.
/// It never changes the output of the other passes.
pub fn detect_ambiguous_syntax(input: &str) -> (r: Vec<String>)
    ensures
        r@.map_values(|w: String| w@) == ambiguity_warnings(input@),
{
    let s = chars_of(input);
    let mut warnings: Vec<String> = Vec::new();
    if triple_star_exec(&s) && contains_str(&s, "'''") {
        let w = chars_of(
            "Detected both ***text*** (Markdown) and '''text''' (LukiWiki). Consider using **text** for Markdown bold-italic.",
        );
        warnings.push(string_of(w));
    }
    if contains_str(&s, "COLOR(") && contains_str(&s, "\n:") {
        let w = chars_of(
            "Detected COLOR() syntax near Markdown definition list. Ensure proper spacing to avoid ambiguity.",
        );
        warnings.push(string_of(w));
    }
    assert(warnings@.map_values(|w: String| w@) =~= ambiguity_warnings(input@));
    warnings
}

} // verus!
