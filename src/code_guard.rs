//! Rendered code (`<pre><code>` blocks and `<code>` spans) is set aside behind
//! numbered comment markers while the wiki passes run, and put back afterwards.
use vstd::prelude::*;
use crate::text::{
    contains, contains_str,
    agrees, digit_char, rewrite, rewrite_all, string_of, Rule, chars_of, decimal, decimal_exec, find_char, find_from, find_from_exec, has_at, lit_len,
    next_of, push_chars, push_str, slice, starts_at,
};

verus! {

/// A rendered code block at `i`: where it ends.
pub open spec fn code_block_at(s: Seq<char>, i: int) -> Option<int> {
    let g = next_of(s, i + "<pre><code"@.len(), '>');
    let f = find_from(s, g + 1, "</code></pre>"@);
    if has_at(s, i, "<pre><code"@) && g < s.len() && f < s.len() {
        Some(f + "</code></pre>"@.len())
    } else {
        None
    }
}

/// A rendered inline code span at `i`, its text free of `<`: where it ends. A tag that
/// holds a comment opening `<!--` is refused, so that a span never holds the marker of
/// a code block.
pub open spec fn inline_code_at(s: Seq<char>, i: int) -> Option<int> {
    let g = next_of(s, i + "<code"@.len(), '>');
    let k = next_of(s, g + 1, '<');
    if has_at(s, i, "<code"@) && g < s.len() && !contains(
        s.subrange(i + "<code"@.len(), g),
        "<!--"@,
    ) && has_at(s, k, "</code>"@) {
        Some(k + "</code>"@.len())
    } else {
        None
    }
}

pub type Finder = spec_fn(Seq<char>, int) -> Option<int>;

pub open spec fn code_block_f() -> Finder {
    |s: Seq<char>, i: int| code_block_at(s, i)
}

pub open spec fn inline_code_f() -> Finder {
    |s: Seq<char>, i: int| inline_code_at(s, i)
}

/// The marker that stands for the `n`-th code section.
pub open spec fn code_marker(label: Seq<char>, n: int) -> Seq<char> {
    "<!--"@ + label + "_"@ + decimal(n as nat) + "-->"@
}

/// The text from `i` on with each section found by `m` replaced by a marker; the
/// markers are numbered from `n`.
pub open spec fn guard_text(s: Seq<char>, i: int, n: int, m: Finder, label: Seq<char>) -> Seq<char>
    decreases s.len() - i,
{
    if i < 0 || i >= s.len() {
        Seq::empty()
    } else {
        match m(s, i) {
            Some(e) => if i < e <= s.len() {
                code_marker(label, n) + guard_text(s, e, n + 1, m, label)
            } else {
                seq![s[i]] + guard_text(s, i + 1, n, m, label)
            },
            None => seq![s[i]] + guard_text(s, i + 1, n, m, label),
        }
    }
}

/// The sections that `guard_text` replaces, in order.
pub open spec fn guard_spans(s: Seq<char>, i: int, m: Finder) -> Seq<Seq<char>>
    decreases s.len() - i,
{
    if i < 0 || i >= s.len() {
        Seq::empty()
    } else {
        match m(s, i) {
            Some(e) => if i < e <= s.len() {
                seq![s.subrange(i, e)] + guard_spans(s, e, m)
            } else {
                guard_spans(s, i + 1, m)
            },
            None => guard_spans(s, i + 1, m),
        }
    }
}

/// The text with code blocks, then inline code spans, replaced by markers, and the
/// sections set aside, numbered over both kinds.
pub open spec fn guarded(s: Seq<char>) -> (Seq<char>, Seq<Seq<char>>) {
    let blocks = guard_spans(s, 0, code_block_f());
    let t = guard_text(s, 0, 0, code_block_f(), "CODE_BLOCK"@);
    (
        guard_text(t, 0, blocks.len() as int, inline_code_f(), "INLINE_CODE"@),
        blocks + guard_spans(t, 0, inline_code_f()),
    )
}

pub open spec fn spans_view(v: Seq<Vec<char>>) -> Seq<Seq<char>> {
    v.map_values(|x: Vec<char>| x@)
}

fn code_block_exec(s: &Vec<char>, i: usize) -> (r: Option<usize>)
    requires
        i < s.len(),
    ensures
        match r {
            Some(e) => code_block_at(s@, i as int) == Some(e as int) && i < e <= s.len(),
            None => code_block_at(s@, i as int) is None,
        },
{
    if !starts_at(s, i, "<pre><code") {
        return None;
    }
    let g = find_char(s, i + lit_len("<pre><code"), '>');
    if g >= s.len() {
        return None;
    }
    let f = find_from_exec(s, g + 1, "</code></pre>");
    if f < s.len() {
        Some(f + lit_len("</code></pre>"))
    } else {
        None
    }
}

fn inline_code_exec(s: &Vec<char>, i: usize) -> (r: Option<usize>)
    requires
        i < s.len(),
    ensures
        match r {
            Some(e) => inline_code_at(s@, i as int) == Some(e as int) && i < e <= s.len(),
            None => inline_code_at(s@, i as int) is None,
        },
{
    if !starts_at(s, i, "<code") {
        return None;
    }
    let g = find_char(s, i + lit_len("<code"), '>');
    if g >= s.len() || contains_str(&slice(s, i + lit_len("<code"), g), "<!--") {
        return None;
    }
    let k = find_char(s, g + 1, '<');
    if starts_at(s, k, "</code>") {
        Some(k + lit_len("</code>"))
    } else {
        None
    }
}

fn guard_pass(s: &Vec<char>, spans: &mut Vec<Vec<char>>, blocks: bool) -> (r: Vec<char>)
    ensures
        r@ == guard_text(
            s@,
            0,
            old(spans)@.len() as int,
            if blocks {
                code_block_f()
            } else {
                inline_code_f()
            },
            if blocks {
                "CODE_BLOCK"@
            } else {
                "INLINE_CODE"@
            },
        ),
        spans_view(final(spans)@) == spans_view(old(spans)@) + guard_spans(
            s@,
            0,
            if blocks {
                code_block_f()
            } else {
                inline_code_f()
            },
        ),
{
    let ghost m = if blocks {
        code_block_f()
    } else {
        inline_code_f()
    };
    let label = if blocks {
        "CODE_BLOCK"
    } else {
        "INLINE_CODE"
    };
    let ghost n0 = spans@.len() as int;
    let ghost v0 = spans_view(spans@);
    let mut out: Vec<char> = Vec::new();
    let mut i: usize = 0;
    while i < s.len()
        invariant
            i <= s.len(),
            spans@.len() >= n0,
            label@ == if blocks {
                "CODE_BLOCK"@
            } else {
                "INLINE_CODE"@
            },
            m == if blocks {
                code_block_f()
            } else {
                inline_code_f()
            },
            out@ + guard_text(s@, i as int, spans@.len() as int, m, label@) == guard_text(
                s@,
                0,
                n0,
                m,
                label@,
            ),
            spans_view(spans@) + guard_spans(s@, i as int, m) == v0 + guard_spans(s@, 0, m),
        decreases s.len() - i,
    {
        let found = if blocks {
            code_block_exec(s, i)
        } else {
            inline_code_exec(s, i)
        };
        match found {
            Some(e) => {
                let n = spans.len();
                push_str(&mut out, "<!--");
                push_str(&mut out, label);
                push_str(&mut out, "_");
                push_chars(&mut out, &decimal_exec(n));
                push_str(&mut out, "-->");
                let ghost before = spans_view(spans@);
                spans.push(slice(s, i, e));
                assert(spans_view(spans@) =~= before + seq![s@.subrange(i as int, e as int)]);
                i = e;
            },
            None => {
                out.push(s[i]);
                i = i + 1;
            },
        }
    }
    assert(spans_view(spans@) =~= v0 + guard_spans(s@, 0, m));
    out
}

/// Replaces rendered code with numbered markers and returns the code set aside.
pub fn protect_code_sections(html: &str) -> (r: (String, Vec<String>))
    ensures
        r.0@ == guarded(html@).0,
        r.1@.map_values(|x: String| x@) == guarded(html@).1,
{
    let s = chars_of(html);
    let mut spans: Vec<Vec<char>> = Vec::new();
    let t = guard_pass(&s, &mut spans, true);
    let u = guard_pass(&t, &mut spans, false);
    let mut out: Vec<String> = Vec::new();
    let mut k: usize = 0;
    while k < spans.len()
        invariant
            k <= spans.len(),
            out@.map_values(|x: String| x@) == spans_view(spans@).subrange(0, k as int),
        decreases spans.len() - k,
    {
        let piece = crate::text::string_of(slice(&spans[k], 0, spans[k].len()));
        assert(spans[k as int]@.subrange(0, spans[k as int].len() as int) =~= spans[k as int]@);
        assert(piece@ == spans_view(spans@)[k as int]);
        let ghost prev = out@;
        out.push(piece);
        assert(out@ == prev.push(piece));
        assert(out@.map_values(|x: String| x@) =~= prev.map_values(|x: String| x@).push(piece@));
        assert(out@.map_values(|x: String| x@) =~= spans_view(spans@).subrange(0, k + 1));
        k = k + 1;
    }
    assert(spans_view(spans@).subrange(0, spans.len() as int) =~= spans_view(spans@));
    assert(spans_view(Seq::<Vec<char>>::empty()) =~= Seq::<Seq<char>>::empty());
    (crate::text::string_of(u), out)
}

pub open spec fn digit_value(c: char) -> nat {
    if c == '1' {
        1
    } else if c == '2' {
        2
    } else if c == '3' {
        3
    } else if c == '4' {
        4
    } else if c == '5' {
        5
    } else if c == '6' {
        6
    } else if c == '7' {
        7
    } else if c == '8' {
        8
    } else if c == '9' {
        9
    } else {
        0
    }
}

pub open spec fn is_digit(c: char) -> bool {
    '0' <= c && c <= '9'
}

/// The end of the run of decimal digits that starts at `i`.
pub open spec fn digit_end(s: Seq<char>, i: int) -> int
    decreases s.len() - i,
{
    if i < 0 || i >= s.len() || !is_digit(s[i]) {
        i
    } else {
        digit_end(s, i + 1)
    }
}

/// The number that the digits of `s` from `lo` up to `hi` write.
pub open spec fn digits_value(s: Seq<char>, lo: int, hi: int) -> nat
    decreases hi - lo,
{
    if hi <= lo {
        0
    } else {
        digits_value(s, lo, hi - 1) * 10 + digit_value(s[hi - 1])
    }
}

/// A code marker at `i`: where its number starts and ends.
pub open spec fn code_marker_at(s: Seq<char>, i: int) -> Option<(int, int)> {
    let p1 = "<!--CODE_BLOCK_"@;
    let p2 = "<!--INLINE_CODE_"@;
    let d = if has_at(s, i, p1) {
        i + p1.len()
    } else {
        i + p2.len()
    };
    let e = digit_end(s, d);
    if (has_at(s, i, p1) || has_at(s, i, p2)) && d < e && has_at(s, e, "-->"@) {
        Some((d, e))
    } else {
        None
    }
}

/// A marker becomes the section of its number, or nothing when there is no such section.
pub open spec fn unguard_rule(s: Seq<char>, i: int, spans: Seq<Seq<char>>) -> Option<(int, Seq<char>)> {
    match code_marker_at(s, i) {
        Some(h) => {
            let v = digits_value(s, h.0, h.1);
            Some((h.1 + "-->"@.len(), if v < spans.len() { spans[v as int] } else { Seq::empty() }))
        },
        None => None,
    }
}

pub open spec fn unguard_r(spans: Seq<Seq<char>>) -> Rule {
    |s: Seq<char>, i: int| unguard_rule(s, i, spans)
}

/// The text with every code marker replaced by the section it stands for.
pub open spec fn unguarded(s: Seq<char>, spans: Seq<Seq<char>>) -> Seq<char> {
    rewrite(s, 0, unguard_r(spans))
}

fn digit_value_exec(c: char) -> (r: usize)
    ensures
        r == digit_value(c),
{
    if c == '1' {
        1
    } else if c == '2' {
        2
    } else if c == '3' {
        3
    } else if c == '4' {
        4
    } else if c == '5' {
        5
    } else if c == '6' {
        6
    } else if c == '7' {
        7
    } else if c == '8' {
        8
    } else if c == '9' {
        9
    } else {
        0
    }
}

fn digit_end_exec(s: &Vec<char>, i: usize) -> (r: usize)
    requires
        i <= s.len(),
    ensures
        r == digit_end(s@, i as int),
        i <= r <= s.len(),
{
    let mut k: usize = i;
    while k < s.len() && '0' <= s[k] && s[k] <= '9'
        invariant
            i <= k <= s.len(),
            digit_end(s@, k as int) == digit_end(s@, i as int),
        decreases s.len() - k,
    {
        k = k + 1;
    }
    k
}

/// The section a marker's number picks, if any: numbers too large for any section
/// pick none.
fn pick_section(s: &Vec<char>, d: usize, e: usize, spans: &[String]) -> (r: Vec<char>)
    requires
        d <= e <= s.len(),
    ensures
        r@ == (if digits_value(s@, d as int, e as int) < spans@.len() {
            spans@[digits_value(s@, d as int, e as int) as int]@
        } else {
            Seq::empty()
        }),
{
    let limit = spans.len();
    let mut v: usize = 0;
    let mut over = false;
    let mut k: usize = d;
    while k < e
        invariant
            d <= k <= e <= s.len(),
            limit == spans@.len(),
            !over ==> v == digits_value(s@, d as int, k as int) && v <= limit,
            over ==> digits_value(s@, d as int, k as int) > limit,
            digits_value(s@, d as int, k as int) >= 0,
        decreases e - k,
    {
        let dv = digit_value_exec(s[k]);
        assert(digits_value(s@, d as int, k + 1) == digits_value(s@, d as int, k as int) * 10
            + digit_value(s@[k as int]));
        if !over {
            let next: u128 = (v as u128) * 10 + (dv as u128);
            if next > limit as u128 {
                over = true;
            } else {
                v = next as usize;
            }
        }
        k = k + 1;
    }
    if over || v >= limit {
        Vec::new()
    } else {
        chars_of(spans[v].as_str())
    }
}

fn unguard_match(s: &Vec<char>, i: usize, spans: &[String]) -> (r: Option<(usize, Vec<char>)>)
    requires
        i < s.len(),
    ensures
        agrees(s@, i as int, unguard_r(spans@.map_values(|x: String| x@)), r),
{
    proof {
        reveal_strlit("-->");
    }
    let p1 = starts_at(s, i, "<!--CODE_BLOCK_");
    let p2 = starts_at(s, i, "<!--INLINE_CODE_");
    if !p1 && !p2 {
        return None;
    }
    let d = if p1 {
        i + lit_len("<!--CODE_BLOCK_")
    } else {
        i + lit_len("<!--INLINE_CODE_")
    };
    let e = digit_end_exec(s, d);
    if d < e && starts_at(s, e, "-->") {
        let piece = pick_section(s, d, e, spans);
        assert(code_marker_at(s@, i as int) == Some((d as int, e as int)));
        let ghost v = digits_value(s@, d as int, e as int);
        assert(v < spans@.len() ==> spans@.map_values(|x: String| x@)[v as int] == spans@[v as int]@);
        Some((e + 3, piece))
    } else {
        None
    }
}

/// Puts the code sections back in place of their markers.
pub fn restore_code_sections(html: &str, placeholders: &[String]) -> (r: String)
    ensures
        r@ == unguarded(html@, placeholders@.map_values(|x: String| x@)),
{
    let s = chars_of(html);
    let f = |t: &Vec<char>, i: usize| -> (r: Option<(usize, Vec<char>)>)
        requires
            i < t.len(),
        ensures
            agrees(t@, i as int, unguard_r(placeholders@.map_values(|x: String| x@)), r),
        { unguard_match(t, i, placeholders) };
    string_of(rewrite_all(&s, f, Ghost(unguard_r(placeholders@.map_values(|x: String| x@)))))
}

// ---- facts about markers ----

proof fn lemma_digits_value_sub(s: Seq<char>, lo: int, hi: int)
    requires
        0 <= lo <= hi <= s.len(),
    ensures
        digits_value(s, lo, hi) == digits_value(s.subrange(lo, hi), 0, hi - lo),
    decreases hi - lo,
{
    if lo < hi {
        lemma_digits_value_sub(s, lo, hi - 1);
        lemma_digits_value_sub(s.subrange(lo, hi), 0, hi - lo - 1);
        assert(s.subrange(lo, hi).subrange(0, hi - lo - 1) =~= s.subrange(lo, hi - 1));
    }
}

proof fn lemma_decimal(n: nat)
    ensures
        decimal(n).len() >= 1,
        forall|k: int| 0 <= k < decimal(n).len() ==> is_digit(#[trigger] decimal(n)[k]),
        digits_value(decimal(n), 0, decimal(n).len() as int) == n,
    decreases n,
{
    let d = decimal(n);
    if n >= 10 {
        lemma_decimal(n / 10);
        let p = decimal(n / 10);
        lemma_digits_value_sub(d, 0, p.len() as int);
        assert(d.subrange(0, p.len() as int) =~= p);
        assert(d.subrange(0, p.len() as int).subrange(0, p.len() as int) =~= p);
        assert(digits_value(d, 0, d.len() as int) == digits_value(d, 0, p.len() as int) * 10
            + digit_value(d[p.len() as int]));
        assert(digit_value(digit_char((n % 10) as int)) == n % 10);
    } else {
        assert(digit_value(digit_char(n as int)) == n);
        assert(digits_value(d, 0, 0) == 0);
    }
}

proof fn lemma_digit_end_at(s: Seq<char>, i: int, m: int)
    requires
        0 <= i <= m < s.len(),
        !is_digit(s[m]),
        forall|x: int| i <= x < m ==> is_digit(s[x]),
    ensures
        digit_end(s, i) == m,
    decreases m - i,
{
    if i < m {
        lemma_digit_end_at(s, i + 1, m);
    }
}

/// The marker of the `n`-th code section is replaced, wherever it stands, by that
/// section.
pub proof fn lemma_code_marker_restored(label: Seq<char>, n: nat, rest: Seq<char>, spans: Seq<Seq<char>>)
    requires
        label == "CODE_BLOCK"@ || label == "INLINE_CODE"@,
        n < spans.len(),
    ensures
        unguard_rule(code_marker(label, n as int) + rest, 0, spans) == Some(
            (code_marker(label, n as int).len() as int, spans[n as int]),
        ),
{
    reveal_strlit("<!--");
    reveal_strlit("_");
    reveal_strlit("-->");
    reveal_strlit("CODE_BLOCK");
    reveal_strlit("INLINE_CODE");
    reveal_strlit("<!--CODE_BLOCK_");
    reveal_strlit("<!--INLINE_CODE_");
    let m = code_marker(label, n as int);
    let t = m + rest;
    let head = "<!--"@ + label + "_"@;
    let dec = decimal(n);
    lemma_decimal(n);
    let d = head.len() as int;
    let e = d + dec.len();
    assert(m =~= head + dec + "-->"@);
    assert(t =~= head + dec + "-->"@ + rest);
    if label == "CODE_BLOCK"@ {
        assert(t.subrange(0, d) =~= "<!--CODE_BLOCK_"@);
    } else {
        assert(t.subrange(0, d) =~= "<!--INLINE_CODE_"@);
        assert(t.subrange(0, "<!--CODE_BLOCK_"@.len() as int)[4] != "<!--CODE_BLOCK_"@[4]);
    }
    assert forall|x: int| d <= x < e implies is_digit(t[x]) by {
        assert(t[x] == dec[x - d]);
    }
    assert(t[e] == '-');
    lemma_digit_end_at(t, d, e);
    assert(t.subrange(e, e + 3) =~= "-->"@);
    lemma_digits_value_sub(t, d, e);
    assert(t.subrange(d, e) =~= dec);
}

} // verus!
