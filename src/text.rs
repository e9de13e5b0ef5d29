//! Character-sequence helpers shared by the rewriting passes.
use vstd::prelude::*;

verus! {

/// Relies on `String::from_iter`: the string holds the given characters in order.
#[verifier::external_body]
pub(crate) fn string_of(v: Vec<char>) -> (r: String)
    ensures
        r@ == v@,
{
    String::from_iter(v)
}

/// The characters of a string slice, in order.
pub(crate) fn chars_of(s: &str) -> (r: Vec<char>)
    ensures
        r@ == s@,
{
    let mut v: Vec<char> = Vec::new();
    for c in it: s.chars()
        invariant
            v@ == it.seq().subrange(0, it.index() as int),
    {
        v.push(c);
    }
    v
}


/// A white-space character, as Unicode's White_Space property lists them.
pub open spec fn is_ws(c: char) -> bool {
    ||| c == ' ' || c == '\t' || c == '\n' || c == '\r' || c == '\x0B' || c == '\x0C'
    ||| c == '\u{85}' || c == '\u{A0}' || c == '\u{1680}'
    ||| ('\u{2000}' <= c && c <= '\u{200A}')
    ||| c == '\u{2028}' || c == '\u{2029}' || c == '\u{202F}' || c == '\u{205F}'
    ||| c == '\u{3000}'
}

pub(crate) fn is_ws_exec(c: char) -> (r: bool)
    ensures
        r == is_ws(c),
{
    c == ' ' || c == '\t' || c == '\n' || c == '\r' || c == '\x0B' || c == '\x0C' || c == '\u{85}'
        || c == '\u{A0}' || c == '\u{1680}' || ('\u{2000}' <= c && c <= '\u{200A}') || c
        == '\u{2028}' || c == '\u{2029}' || c == '\u{202F}' || c == '\u{205F}' || c == '\u{3000}'
}

/// A rule that may match at a position: the end of the match and what replaces it.
pub type Rule = spec_fn(Seq<char>, int) -> Option<(int, Seq<char>)>;

/// Scanning left to right from `i`, each position where `m` matches is replaced and
/// the scan goes on after the match; other characters are kept.
pub open spec fn rewrite(s: Seq<char>, i: int, m: Rule) -> Seq<char>
    decreases s.len() - i,
{
    if i < 0 || i >= s.len() {
        Seq::empty()
    } else {
        match m(s, i) {
            Some(h) => if i < h.0 <= s.len() {
                h.1 + rewrite(s, h.0, m)
            } else {
                seq![s[i]] + rewrite(s, i + 1, m)
            },
            None => seq![s[i]] + rewrite(s, i + 1, m),
        }
    }
}

/// An executable matcher agrees with the rule `m` on its answer at `i`.
pub open spec fn agrees(s: Seq<char>, i: int, m: Rule, o: Option<(usize, Vec<char>)>) -> bool {
    match o {
        Some(h) => i < h.0 <= s.len() && m(s, i) == Some((h.0 as int, h.1@)),
        None => m(s, i) is None,
    }
}

/// Applies an executable matcher at every position of `s`, as `rewrite` describes.
pub(crate) fn rewrite_all<F: Fn(&Vec<char>, usize) -> Option<(usize, Vec<char>)>>(
    s: &Vec<char>,
    f: F,
    Ghost(m): Ghost<Rule>,
) -> (r: Vec<char>)
    requires
        forall|i: usize| i < s.len() ==> call_requires(f, (s, i)),
        forall|i: usize, o| i < s.len() && call_ensures(f, (s, i), o) ==> agrees(s@, i as int, m, o),
    ensures
        r@ == rewrite(s@, 0, m),
{
    let mut r: Vec<char> = Vec::new();
    let mut i: usize = 0;
    while i < s.len()
        invariant
            i <= s.len(),
            forall|k: usize| k < s.len() ==> call_requires(f, (s, k)),
            forall|k: usize, o| k < s.len() && call_ensures(f, (s, k), o) ==> agrees(s@, k as int, m, o),
            r@ + rewrite(s@, i as int, m) == rewrite(s@, 0, m),
        decreases s.len() - i,
    {
        let o = f(s, i);
        assert(agrees(s@, i as int, m, o));
        match o {
            Some(h) => {
                let (e, mut out) = h;
                assert(rewrite(s@, i as int, m) == out@ + rewrite(s@, e as int, m));
                r.append(&mut out);
                assert(r@ + rewrite(s@, e as int, m) == rewrite(s@, 0, m));
                i = e;
            },
            None => {
                assert(rewrite(s@, i as int, m) == seq![s@[i as int]] + rewrite(s@, i + 1, m));
                r.push(s[i]);
                assert(r@ + rewrite(s@, i + 1, m) == rewrite(s@, 0, m));
                i = i + 1;
            },
        }
    }
    r
}


/// `p` occurs in `s` at position `i`.
pub open spec fn has_at(s: Seq<char>, i: int, p: Seq<char>) -> bool {
    0 <= i && i + p.len() <= s.len() && s.subrange(i, i + p.len()) == p
}

pub(crate) fn starts_at(s: &Vec<char>, i: usize, p: &str) -> (r: bool)
    ensures
        r == has_at(s@, i as int, p@),
{
    let pv = chars_of(p);
    if i > s.len() || pv.len() > s.len() - i {
        return false;
    }
    let mut k: usize = 0;
    while k < pv.len()
        invariant
            i + pv.len() <= s.len(),
            k <= pv.len(),
            pv@ == p@,
            forall|j: int| 0 <= j < k ==> s@[i + j] == pv@[j],
        decreases pv.len() - k,
    {
        if s[i + k] != pv[k] {
            assert(s@.subrange(i as int, i + pv.len())[k as int] != p@[k as int]);
            return false;
        }
        k = k + 1;
    }
    assert(s@.subrange(i as int, i + pv.len()) =~= p@);
    true
}

/// The characters of `s` from `lo` up to `hi`.
pub(crate) fn slice(s: &Vec<char>, lo: usize, hi: usize) -> (r: Vec<char>)
    requires
        lo <= hi <= s.len(),
    ensures
        r@ == s@.subrange(lo as int, hi as int),
{
    let mut r: Vec<char> = Vec::new();
    let mut k: usize = lo;
    while k < hi
        invariant
            lo <= k <= hi <= s.len(),
            r@ == s@.subrange(lo as int, k as int),
        decreases hi - k,
    {
        r.push(s[k]);
        assert(r@ =~= s@.subrange(lo as int, k + 1));
        k = k + 1;
    }
    r
}

/// Appends the characters of `p` to `v`.
pub(crate) fn push_str(v: &mut Vec<char>, p: &str)
    ensures
        final(v)@ == old(v)@ + p@,
{
    let mut pv = chars_of(p);
    v.append(&mut pv);
}

/// Appends a copy of `p` to `v`.
pub(crate) fn push_chars(v: &mut Vec<char>, p: &Vec<char>)
    ensures
        final(v)@ == old(v)@ + p@,
{
    let mut k: usize = 0;
    let ghost v0 = v@;
    while k < p.len()
        invariant
            k <= p.len(),
            v@ == v0 + p@.subrange(0, k as int),
        decreases p.len() - k,
    {
        v.push(p[k]);
        assert(v@ =~= v0 + p@.subrange(0, k + 1));
        k = k + 1;
    }
    assert(p@.subrange(0, p.len() as int) =~= p@);
}

/// `s` without its leading white space.
pub open spec fn trim_start(s: Seq<char>) -> Seq<char>
    decreases s.len(),
{
    if s.len() > 0 && is_ws(s[0]) {
        trim_start(s.drop_first())
    } else {
        s
    }
}

/// `s` without its trailing white space.
pub open spec fn trim_end(s: Seq<char>) -> Seq<char>
    decreases s.len(),
{
    if s.len() > 0 && is_ws(s.last()) {
        trim_end(s.drop_last())
    } else {
        s
    }
}

/// `s` without white space at either end.
pub open spec fn trim(s: Seq<char>) -> Seq<char> {
    trim_end(trim_start(s))
}

pub(crate) fn trim_start_vec(s: &Vec<char>) -> (r: Vec<char>)
    ensures
        r@ == trim_start(s@),
{
    let mut k: usize = 0;
    assert(s@.subrange(0, s.len() as int) =~= s@);
    while k < s.len() && is_ws_exec(s[k])
        invariant
            k <= s.len(),
            trim_start(s@.subrange(k as int, s.len() as int)) == trim_start(s@),
        decreases s.len() - k,
    {
        assert(s@.subrange(k as int, s.len() as int).drop_first() =~= s@.subrange(k + 1, s.len() as int));
        k = k + 1;
    }
    slice(s, k, s.len())
}

pub(crate) fn trim_end_vec(s: &Vec<char>) -> (r: Vec<char>)
    ensures
        r@ == trim_end(s@),
{
    let mut k: usize = s.len();
    assert(s@.subrange(0, s.len() as int) =~= s@);
    while k > 0 && is_ws_exec(s[k - 1])
        invariant
            k <= s.len(),
            trim_end(s@.subrange(0, k as int)) == trim_end(s@),
        decreases k,
    {
        assert(s@.subrange(0, k as int).drop_last() =~= s@.subrange(0, k - 1));
        k = k - 1;
    }
    slice(s, 0, k)
}

pub(crate) fn trim_vec(s: &Vec<char>) -> (r: Vec<char>)
    ensures
        r@ == trim(s@),
{
    let t = trim_start_vec(s);
    trim_end_vec(&t)
}

/// A match of `m` at the start of `s`, after its leading white space: where the match
/// starts and ends, and what it carries.
pub open spec fn lead_rule(s: Seq<char>, m: Rule) -> Option<(int, int, Seq<char>)> {
    let w = ws_end(s, 0);
    match m(s, w) {
        Some(h) => if w < h.0 <= s.len() {
            Some((w, h.0, h.1))
        } else {
            None
        },
        None => None,
    }
}

/// Tries an executable matcher at the start of `s`, after its leading white space, as
/// `lead_rule` describes.
pub(crate) fn match_lead<F: Fn(&Vec<char>, usize) -> Option<(usize, Vec<char>)>>(
    s: &Vec<char>,
    f: F,
    Ghost(m): Ghost<Rule>,
) -> (r: Option<(usize, usize, Vec<char>)>)
    requires
        forall|i: usize| i < s.len() ==> call_requires(f, (s, i)),
        forall|i: usize, o| i < s.len() && call_ensures(f, (s, i), o) ==> agrees(s@, i as int, m, o),
    ensures
        match r {
            Some(h) => lead_rule(s@, m) == Some((h.0 as int, h.1 as int, h.2@)) && h.0 < h.1
                <= s.len(),
            None => lead_rule(s@, m) is None,
        },
{
    let w = ws_end_exec(s, 0);
    if w >= s.len() {
        return None;
    }
    let o = f(s, w);
    assert(agrees(s@, w as int, m, o));
    match o {
        Some(h) => Some((w, h.0, h.1)),
        None => None,
    }
}

/// The first position at or after `i` that holds `c`, or the length of `s`.
pub open spec fn next_of(s: Seq<char>, i: int, c: char) -> int
    decreases s.len() - i,
{
    if i < 0 || i >= s.len() {
        s.len() as int
    } else if s[i] == c {
        i
    } else {
        next_of(s, i + 1, c)
    }
}

pub(crate) fn find_char(s: &Vec<char>, i: usize, c: char) -> (r: usize)
    requires
        i <= s.len(),
    ensures
        r == next_of(s@, i as int, c),
        i <= r <= s.len(),
        forall|k: int| i <= k < r ==> s@[k] != c,
        r < s.len() ==> s@[r as int] == c,
{
    let mut k: usize = i;
    while k < s.len() && s[k] != c
        invariant
            i <= k <= s.len(),
            next_of(s@, k as int, c) == next_of(s@, i as int, c),
            forall|j: int| i <= j < k ==> s@[j] != c,
        decreases s.len() - k,
    {
        k = k + 1;
    }
    k
}

/// The number of characters of a literal.
pub(crate) fn lit_len(p: &str) -> (n: usize)
    ensures
        n == p@.len(),
{
    chars_of(p).len()
}

/// `s` holds exactly the characters of `p`.
pub(crate) fn eq_str(s: &Vec<char>, p: &str) -> (r: bool)
    ensures
        r == (s@ == p@),
{
    let n = lit_len(p);
    if s.len() != n {
        return false;
    }
    let r = starts_at(s, 0, p);
    assert(s@.subrange(0, n as int) =~= s@);
    r
}

/// `p` occurs somewhere in `s`.
pub open spec fn contains(s: Seq<char>, p: Seq<char>) -> bool {
    exists|k: int| #[trigger] has_at(s, k, p)
}

pub(crate) fn contains_str(s: &Vec<char>, p: &str) -> (r: bool)
    ensures
        r == contains(s@, p@),
{
    let mut k: usize = 0;
    while k < s.len()
        invariant
            k <= s.len(),
            forall|j: int| 0 <= j < k ==> !has_at(s@, j, p@),
        decreases s.len() - k,
    {
        if starts_at(s, k, p) {
            return true;
        }
        k = k + 1;
    }
    if starts_at(s, k, p) {
        return true;
    }
    assert forall|j: int| !has_at(s@, j, p@) by {
        if 0 <= j < k {
        } else if j == k {
        } else {
        }
    }
    false
}


/// A letter or digit in Unicode's sense (the Alphabetic or the Numeric property).
pub uninterp spec fn unicode_alnum(c: char) -> bool;

/// Relies on `char::is_alphanumeric`: true for characters with Unicode's Alphabetic or
/// Numeric property.
#[verifier::external_body]
pub(crate) fn is_alphanumeric_char(c: char) -> (r: bool)
    ensures
        r == unicode_alnum(c),
{
    c.is_alphanumeric()
}

/// A character of a plugin or function name: a letter, a digit or an underscore. In the
/// ASCII range these are `a-z`, `A-Z`, `0-9` and `_`; beyond it, any Unicode letter or digit.
pub open spec fn is_word(c: char) -> bool {
    if (c as u32) < 128 {
        ('a' <= c && c <= 'z') || ('A' <= c && c <= 'Z') || ('0' <= c && c <= '9') || c == '_'
    } else {
        unicode_alnum(c)
    }
}

pub(crate) fn is_word_exec(c: char) -> (r: bool)
    ensures
        r == is_word(c),
{
    if (c as u32) < 128 {
        ('a' <= c && c <= 'z') || ('A' <= c && c <= 'Z') || ('0' <= c && c <= '9') || c == '_'
    } else {
        is_alphanumeric_char(c)
    }
}

/// The end of the run of name characters that starts at `i`.
pub open spec fn word_end(s: Seq<char>, i: int) -> int
    decreases s.len() - i,
{
    if i < 0 || i >= s.len() || !is_word(s[i]) {
        i
    } else {
        word_end(s, i + 1)
    }
}

pub(crate) fn word_end_exec(s: &Vec<char>, i: usize) -> (r: usize)
    requires
        i <= s.len(),
    ensures
        r == word_end(s@, i as int),
        i <= r <= s.len(),
        forall|k: int| i <= k < r ==> is_word(s@[k]),
{
    let mut k: usize = i;
    while k < s.len() && is_word_exec(s[k])
        invariant
            i <= k <= s.len(),
            word_end(s@, k as int) == word_end(s@, i as int),
            forall|j: int| i <= j < k ==> is_word(s@[j]),
        decreases s.len() - k,
    {
        k = k + 1;
    }
    k
}

/// The first position at or after `i` where `p` occurs, or the length of `s`.
pub open spec fn find_from(s: Seq<char>, i: int, p: Seq<char>) -> int
    decreases s.len() - i,
{
    if i < 0 || i >= s.len() {
        s.len() as int
    } else if has_at(s, i, p) {
        i
    } else {
        find_from(s, i + 1, p)
    }
}

pub(crate) fn find_from_exec(s: &Vec<char>, i: usize, p: &str) -> (r: usize)
    requires
        i <= s.len(),
    ensures
        r == find_from(s@, i as int, p@),
        i <= r <= s.len(),
        r < s.len() ==> has_at(s@, r as int, p@),
{
    let mut k: usize = i;
    while k < s.len() && !starts_at(s, k, p)
        invariant
            i <= k <= s.len(),
            find_from(s@, k as int, p@) == find_from(s@, i as int, p@),
        decreases s.len() - k,
    {
        k = k + 1;
    }
    k
}

/// How HTML text writes one character when only `<` and `>` are escaped.
pub open spec fn angle_escape_char(c: char) -> Seq<char> {
    if c == '<' {
        "&lt;"@
    } else if c == '>' {
        "&gt;"@
    } else {
        seq![c]
    }
}

/// `s` with `<` and `>` escaped; `&` and everything else stay as they are.
pub open spec fn angle_escape(s: Seq<char>) -> Seq<char>
    decreases s.len(),
{
    if s.len() == 0 {
        Seq::empty()
    } else {
        angle_escape(s.drop_last()) + angle_escape_char(s.last())
    }
}

pub(crate) fn angle_escape_exec(s: &Vec<char>) -> (r: Vec<char>)
    ensures
        r@ == angle_escape(s@),
{
    let mut r: Vec<char> = Vec::new();
    let mut k: usize = 0;
    while k < s.len()
        invariant
            k <= s.len(),
            r@ == angle_escape(s@.subrange(0, k as int)),
        decreases s.len() - k,
    {
        let c = s[k];
        if c == '<' {
            push_str(&mut r, "&lt;");
        } else if c == '>' {
            push_str(&mut r, "&gt;");
        } else {
            r.push(c);
        }
        assert(s@.subrange(0, k + 1).drop_last() =~= s@.subrange(0, k as int));
        k = k + 1;
    }
    assert(s@.subrange(0, s.len() as int) =~= s@);
    r
}


/// The end of the run of `c` that starts at `i`.
pub open spec fn run_end(s: Seq<char>, i: int, c: char) -> int
    decreases s.len() - i,
{
    if i < 0 || i >= s.len() || s[i] != c {
        i
    } else {
        run_end(s, i + 1, c)
    }
}

pub(crate) fn run_end_exec(s: &Vec<char>, i: usize, c: char) -> (r: usize)
    requires
        i <= s.len(),
    ensures
        r == run_end(s@, i as int, c),
        i <= r <= s.len(),
{
    let mut k: usize = i;
    while k < s.len() && s[k] == c
        invariant
            i <= k <= s.len(),
            run_end(s@, k as int, c) == run_end(s@, i as int, c),
        decreases s.len() - k,
    {
        k = k + 1;
    }
    k
}

/// The end of the run of white space that starts at `i`.
pub open spec fn ws_end(s: Seq<char>, i: int) -> int
    decreases s.len() - i,
{
    if i < 0 || i >= s.len() || !is_ws(s[i]) {
        i
    } else {
        ws_end(s, i + 1)
    }
}

pub(crate) fn ws_end_exec(s: &Vec<char>, i: usize) -> (r: usize)
    requires
        i <= s.len(),
    ensures
        r == ws_end(s@, i as int),
        i <= r <= s.len(),
{
    let mut k: usize = i;
    while k < s.len() && is_ws_exec(s[k])
        invariant
            i <= k <= s.len(),
            ws_end(s@, k as int) == ws_end(s@, i as int),
        decreases s.len() - k,
    {
        k = k + 1;
    }
    k
}

/// The line that starts at `i`: up to the next newline, or to the end.
pub open spec fn line_at(s: Seq<char>, i: int) -> Seq<char> {
    s.subrange(i, next_of(s, i, '\n'))
}

/// Rewrites every line (split at `\n`, the newlines kept) from position `i` on with `f`.
pub open spec fn map_lines(s: Seq<char>, i: int, f: spec_fn(Seq<char>) -> Seq<char>) -> Seq<char>
    decreases s.len() + 1 - i,
{
    if i < 0 || i > s.len() {
        Seq::empty()
    } else {
        let e = next_of(s, i, '\n');
        f(s.subrange(i, e)) + if i <= e < s.len() {
            seq!['\n'] + map_lines(s, e + 1, f)
        } else {
            Seq::empty()
        }
    }
}

/// Decimal digit `d`.
pub open spec fn digit_char(d: int) -> char {
    if d == 0 {
        '0'
    } else if d == 1 {
        '1'
    } else if d == 2 {
        '2'
    } else if d == 3 {
        '3'
    } else if d == 4 {
        '4'
    } else if d == 5 {
        '5'
    } else if d == 6 {
        '6'
    } else if d == 7 {
        '7'
    } else if d == 8 {
        '8'
    } else {
        '9'
    }
}

/// `n` written in decimal.
pub open spec fn decimal(n: nat) -> Seq<char>
    decreases n,
{
    if n < 10 {
        seq![digit_char(n as int)]
    } else {
        decimal(n / 10) + seq![digit_char((n % 10) as int)]
    }
}

fn digit_exec(d: usize) -> (r: char)
    requires
        d < 10,
    ensures
        r == digit_char(d as int),
{
    if d == 0 {
        '0'
    } else if d == 1 {
        '1'
    } else if d == 2 {
        '2'
    } else if d == 3 {
        '3'
    } else if d == 4 {
        '4'
    } else if d == 5 {
        '5'
    } else if d == 6 {
        '6'
    } else if d == 7 {
        '7'
    } else if d == 8 {
        '8'
    } else {
        '9'
    }
}

pub(crate) fn decimal_exec(n: usize) -> (r: Vec<char>)
    ensures
        r@ == decimal(n as nat),
    decreases n,
{
    if n < 10 {
        let mut v: Vec<char> = Vec::new();
        v.push(digit_exec(n));
        v
    } else {
        let mut v = decimal_exec(n / 10);
        v.push(digit_exec(n % 10));
        v
    }
}


/// Applies an executable line rewriter to every line, as `map_lines` describes.
pub(crate) fn map_lines_exec<F: Fn(&Vec<char>) -> Vec<char>>(
    s: &Vec<char>,
    f: F,
    Ghost(g): Ghost<spec_fn(Seq<char>) -> Seq<char>>,
) -> (r: Vec<char>)
    requires
        forall|l: &Vec<char>| call_requires(f, (l,)),
        forall|l: &Vec<char>, o: Vec<char>| call_ensures(f, (l,), o) ==> o@ == g(l@),
    ensures
        r@ == map_lines(s@, 0, g),
{
    let mut out: Vec<char> = Vec::new();
    let mut i: usize = 0;
    loop
        invariant
            i <= s.len(),
            forall|l: &Vec<char>| call_requires(f, (l,)),
            forall|l: &Vec<char>, o: Vec<char>| call_ensures(f, (l,), o) ==> o@ == g(l@),
            out@ + map_lines(s@, i as int, g) == map_lines(s@, 0, g),
        decreases s.len() + 1 - i,
    {
        let e = find_char(s, i, '\n');
        let line = slice(s, i, e);
        let o = f(&line);
        let ghost prev = out@;
        push_chars(&mut out, &o);
        if e < s.len() {
            out.push('\n');
            assert(out@ + map_lines(s@, e + 1, g) == map_lines(s@, 0, g));
            i = e + 1;
        } else {
            assert(out@ == map_lines(s@, 0, g));
            return out;
        }
    }
}


/// `p` occurs in `s` at position `i`, for a pattern held in a vector.
pub(crate) fn chars_at(s: &Vec<char>, i: usize, p: &Vec<char>) -> (r: bool)
    ensures
        r == has_at(s@, i as int, p@),
{
    if i > s.len() || p.len() > s.len() - i {
        return false;
    }
    let mut k: usize = 0;
    while k < p.len()
        invariant
            i + p.len() <= s.len(),
            k <= p.len(),
            forall|j: int| 0 <= j < k ==> s@[i + j] == p@[j],
        decreases p.len() - k,
    {
        if s[i + k] != p[k] {
            assert(s@.subrange(i as int, i + p.len())[k as int] != p@[k as int]);
            return false;
        }
        k = k + 1;
    }
    assert(s@.subrange(i as int, i + p.len()) =~= p@);
    true
}

/// `open content close` at `i`, the content non-empty, on one line, and ending at the
/// first `close`: where the content ends.
pub open spec fn delimited_at(s: Seq<char>, i: int, open: Seq<char>, close: Seq<char>) -> Option<int> {
    let j = i + open.len();
    let f = find_from(s, j + 1, close);
    if has_at(s, i, open) && j < s.len() && f < s.len() && f <= next_of(s, j, '\n') {
        Some(f)
    } else {
        None
    }
}

pub(crate) fn delimited_exec(s: &Vec<char>, i: usize, open: &str, close: &str) -> (r: Option<usize>)
    requires
        i < s.len(),
    ensures
        match r {
            Some(f) => delimited_at(s@, i as int, open@, close@) == Some(f as int) && i + open@.len()
                < f && f + close@.len() <= s.len(),
            None => delimited_at(s@, i as int, open@, close@) is None,
        },
{
    if !starts_at(s, i, open) {
        return None;
    }
    let j = i + lit_len(open);
    if j >= s.len() {
        return None;
    }
    let f = find_from_exec(s, j + 1, close);
    let nl = find_char(s, j, '\n');
    if f < s.len() && f <= nl {
        Some(f)
    } else {
        None
    }
}

// ---- facts about the scans ----

pub proof fn lemma_next_of(s: Seq<char>, i: int, c: char)
    requires
        0 <= i <= s.len(),
    ensures
        i <= next_of(s, i, c) <= s.len(),
        next_of(s, i, c) < s.len() ==> s[next_of(s, i, c)] == c,
        forall|k: int| i <= k < next_of(s, i, c) ==> s[k] != c,
    decreases s.len() - i,
{
    if i < s.len() && s[i] != c {
        lemma_next_of(s, i + 1, c);
    }
}

/// A rule that matches nowhere from `i` on leaves the text as it is.
pub proof fn lemma_rewrite_unchanged(s: Seq<char>, i: int, m: Rule)
    requires
        0 <= i <= s.len(),
        forall|k: int| i <= k < s.len() ==> #[trigger] m(s, k) is None,
    ensures
        rewrite(s, i, m) == s.subrange(i, s.len() as int),
    decreases s.len() - i,
{
    if i < s.len() {
        lemma_rewrite_unchanged(s, i + 1, m);
        assert(s.subrange(i, s.len() as int) =~= seq![s[i]] + s.subrange(i + 1, s.len() as int));
    } else {
        assert(s.subrange(i, s.len() as int) =~= Seq::<char>::empty());
    }
}

/// A line rewriter that keeps every line leaves the text as it is.
pub proof fn lemma_map_lines_unchanged(s: Seq<char>, i: int, f: spec_fn(Seq<char>) -> Seq<char>)
    requires
        0 <= i <= s.len(),
        i == 0 || s[i - 1] == '\n',
        forall|a: int|
            0 <= a <= s.len() && (a == 0 || s[a - 1] == '\n') ==> #[trigger] f(line_at(s, a))
                == line_at(s, a),
    ensures
        map_lines(s, i, f) == s.subrange(i, s.len() as int),
    decreases s.len() + 1 - i,
{
    let e = next_of(s, i, '\n');
    lemma_next_of(s, i, '\n');
    assert(f(line_at(s, i)) == line_at(s, i));
    if e < s.len() {
        lemma_map_lines_unchanged(s, e + 1, f);
        assert(s.subrange(i, s.len() as int) =~= s.subrange(i, e) + seq!['\n'] + s.subrange(
            e + 1,
            s.len() as int,
        ));
    }
}

/// The first occurrence of `p` from `k` on is at `m` when none starts before `m`.
pub proof fn lemma_find_from_at(s: Seq<char>, k: int, m: int, p: Seq<char>)
    requires
        0 <= k <= m < s.len(),
        has_at(s, m, p),
        forall|x: int| k <= x < m ==> !#[trigger] has_at(s, x, p),
    ensures
        find_from(s, k, p) == m,
    decreases m - k,
{
    if k < m {
        lemma_find_from_at(s, k + 1, m, p);
    }
}

/// The first `c` from `i` on is at `m` when none stands before it.
pub proof fn lemma_next_of_at(s: Seq<char>, i: int, m: int, c: char)
    requires
        0 <= i <= m < s.len(),
        s[m] == c,
        forall|x: int| i <= x < m ==> s[x] != c,
    ensures
        next_of(s, i, c) == m,
    decreases m - i,
{
    if i < m {
        lemma_next_of_at(s, i + 1, m, c);
    }
}

/// A run of name characters from `i` ends at `m` when `s[m]` is no name character.
pub proof fn lemma_word_end_at(s: Seq<char>, i: int, m: int)
    requires
        0 <= i <= m < s.len(),
        !is_word(s[m]),
        forall|x: int| i <= x < m ==> is_word(s[x]),
    ensures
        word_end(s, i) == m,
    decreases m - i,
{
    if i < m {
        lemma_word_end_at(s, i + 1, m);
    }
}

/// The uppercase form of a text, as std's `str::to_uppercase` gives it.
pub uninterp spec fn upper_of(s: Seq<char>) -> Seq<char>;

/// Relies on `str::to_uppercase`: the result depends on the characters alone, and a
/// text made only of ASCII capital letters is its own uppercase form.
#[verifier::external_body]
pub(crate) fn uppercase(s: &str) -> (r: String)
    ensures
        r@ == upper_of(s@),
        (forall|k: int| 0 <= k < s@.len() ==> 'A' <= #[trigger] s@[k] && s@[k] <= 'Z') ==> r@
            == s@,
{
    s.to_uppercase()
}

} // verus!
