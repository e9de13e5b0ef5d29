//! Line-prefix decorations: `SIZE(..):`, `COLOR(fg,bg):`, `TRUNCATE:`, vertical and
//! horizontal alignment keywords, each turned into classes or inline styles on a
//! paragraph. Several prefixes may be chained on one line.
use vstd::prelude::*;
use crate::text::{
    agrees, upper_of, uppercase, lead_rule, match_lead, string_of, trim_end, trim_end_vec, chars_of, contains, contains_str, eq_str, find_char, has_at, lit_len, next_of, push_chars,
    push_str, slice, starts_at, trim, trim_vec, Rule,
};

verus! {

/// What the prefixes of one line ask for.
pub struct DecorationView {
    pub fg_color: Option<Seq<char>>,
    pub bg_color: Option<Seq<char>>,
    pub font_size: Option<Seq<char>>,
    pub text_align: Option<Seq<char>>,
    pub truncate: bool,
    pub vertical_align: Option<Seq<char>>,
}

/// Block decoration attributes: each value is either a class name or an inline style value.
pub struct BlockDecoration {
    pub fg_color: Option<Vec<char>>,
    pub bg_color: Option<Vec<char>>,
    pub font_size: Option<Vec<char>>,
    pub text_align: Option<Vec<char>>,
    pub truncate: bool,
    pub vertical_align: Option<Vec<char>>,
}

pub open spec fn opt_view(o: Option<Vec<char>>) -> Option<Seq<char>> {
    match o {
        Some(v) => Some(v@),
        None => None,
    }
}

impl View for BlockDecoration {
    type V = DecorationView;

    open spec fn view(&self) -> DecorationView {
        DecorationView {
            fg_color: opt_view(self.fg_color),
            bg_color: opt_view(self.bg_color),
            font_size: opt_view(self.font_size),
            text_align: opt_view(self.text_align),
            truncate: self.truncate,
            vertical_align: opt_view(self.vertical_align),
        }
    }
}

// ---- value mappings ----

/// A font size: a value with a unit stays as it is; one of the canonical unitless
/// values becomes an `fs-N` class; any other value gets `rem` appended.
pub open spec fn font_size_of(v: Seq<char>) -> Seq<char> {
    if contains(v, "rem"@) || contains(v, "em"@) || contains(v, "px"@) {
        v
    } else if v == "2.5"@ {
        "fs-1"@
    } else if v == "2"@ || v == "2.0"@ {
        "fs-2"@
    } else if v == "1.75"@ {
        "fs-3"@
    } else if v == "1.5"@ {
        "fs-4"@
    } else if v == "1.25"@ {
        "fs-5"@
    } else if v == "0.875"@ {
        "fs-6"@
    } else {
        v + "rem"@
    }
}

/// `t` is the palette name `base`, or `base` suffixed `-subtle` or `-emphasis`.
pub open spec fn theme_hit(t: Seq<char>, base: Seq<char>) -> bool {
    t == base || t == base + "-subtle"@ || t == base + "-emphasis"@
}

/// `t` names a color of the theme palette: one of the palette names, optionally
/// suffixed `-subtle` or `-emphasis`.
pub open spec fn is_palette(t: Seq<char>) -> bool {
    ||| theme_hit(t, "primary"@)
    ||| theme_hit(t, "secondary"@)
    ||| theme_hit(t, "success"@)
    ||| theme_hit(t, "danger"@)
    ||| theme_hit(t, "warning"@)
    ||| theme_hit(t, "info"@)
    ||| theme_hit(t, "light"@)
    ||| theme_hit(t, "dark"@)
    ||| theme_hit(t, "body"@)
    ||| theme_hit(t, "body-secondary"@)
    ||| theme_hit(t, "body-tertiary"@)
    ||| theme_hit(t, "body-emphasis"@)
}

/// A color component: empty or `inherit` gives nothing; a palette color gives a
/// `text-` (foreground) or `bg-` (background) class; anything else is kept as a style value.
pub open spec fn color_of(v: Seq<char>, is_background: bool) -> Option<Seq<char>> {
    let t = trim(v);
    if t.len() == 0 || t == "inherit"@ {
        None
    } else if is_palette(t) {
        Some(if is_background { "bg-"@ + t } else { "text-"@ + t })
    } else {
        Some(t)
    }
}

/// The class of a horizontal alignment keyword written in capitals.
pub open spec fn text_align_class_of(u: Seq<char>) -> Seq<char> {
    if u == "RIGHT"@ {
        "text-end"@
    } else if u == "CENTER"@ {
        "text-center"@
    } else if u == "JUSTIFY"@ {
        "text-justify"@
    } else {
        "text-start"@
    }
}

/// The class of a vertical alignment keyword written in capitals.
pub open spec fn vertical_align_class_of(u: Seq<char>) -> Seq<char> {
    if u == "TOP"@ {
        "align-top"@
    } else if u == "MIDDLE"@ {
        "align-middle"@
    } else if u == "BOTTOM"@ {
        "align-bottom"@
    } else {
        "align-baseline"@
    }
}

/// The class of a horizontal alignment keyword, whatever the case of its letters.
pub open spec fn text_align_of(v: Seq<char>) -> Seq<char> {
    text_align_class_of(upper_of(v))
}

/// The class of a vertical alignment keyword, whatever the case of its letters.
pub open spec fn vertical_align_of(v: Seq<char>) -> Seq<char> {
    vertical_align_class_of(upper_of(v))
}

/// The class of a horizontal alignment keyword already put in capitals.
pub fn text_align_class(upper: &str) -> (r: String)
    ensures
        r@ == text_align_class_of(upper@),
{
    let u = chars_of(upper);
    let c = if eq_str(&u, "RIGHT") {
        chars_of("text-end")
    } else if eq_str(&u, "CENTER") {
        chars_of("text-center")
    } else if eq_str(&u, "JUSTIFY") {
        chars_of("text-justify")
    } else {
        chars_of("text-start")
    };
    string_of(c)
}

/// The class of a vertical alignment keyword already put in capitals.
pub fn vertical_align_class(upper: &str) -> (r: String)
    ensures
        r@ == vertical_align_class_of(upper@),
{
    let u = chars_of(upper);
    let c = if eq_str(&u, "TOP") {
        chars_of("align-top")
    } else if eq_str(&u, "MIDDLE") {
        chars_of("align-middle")
    } else if eq_str(&u, "BOTTOM") {
        chars_of("align-bottom")
    } else {
        chars_of("align-baseline")
    };
    string_of(c)
}

/// Map font size value to a class or an inline style value.
fn map_font_size(value: &Vec<char>) -> (r: Vec<char>)
    ensures
        r@ == font_size_of(value@),
{
    if contains_str(value, "rem") || contains_str(value, "em") || contains_str(value, "px") {
        return slice(value, 0, value.len());
    }
    if eq_str(value, "2.5") {
        chars_of("fs-1")
    } else if eq_str(value, "2") || eq_str(value, "2.0") {
        chars_of("fs-2")
    } else if eq_str(value, "1.75") {
        chars_of("fs-3")
    } else if eq_str(value, "1.5") {
        chars_of("fs-4")
    } else if eq_str(value, "1.25") {
        chars_of("fs-5")
    } else if eq_str(value, "0.875") {
        chars_of("fs-6")
    } else {
        let mut r = slice(value, 0, value.len());
        push_str(&mut r, "rem");
        r
    }
}

/// `t` is `base` followed by `suffix`.
fn eq_joined(t: &Vec<char>, base: &str, suffix: &str) -> (r: bool)
    ensures
        r == (t@ == base@ + suffix@),
{
    let n = lit_len(base);
    let m = lit_len(suffix);
    if t.len() < n || t.len() - n != m {
        return false;
    }
    let r = starts_at(t, 0, base) && starts_at(t, n, suffix);
    assert(r ==> t@ =~= t@.subrange(0, n as int) + t@.subrange(n as int, n + m));
    proof {
        if t@ == base@ + suffix@ {
            assert(t@.subrange(0, n as int) =~= base@);
            assert(t@.subrange(n as int, n + m) =~= suffix@);
        }
    }
    r
}

fn theme_hit_exec(t: &Vec<char>, base: &str) -> (r: bool)
    ensures
        r == theme_hit(t@, base@),
{
    eq_str(t, base) || eq_joined(t, base, "-subtle") || eq_joined(t, base, "-emphasis")
}

/// Map color value to a class or an inline style value.
fn map_color(value: &Vec<char>, is_background: bool) -> (r: Option<Vec<char>>)
    ensures
        opt_view(r) == color_of(value@, is_background),
{
    let trimmed = trim_vec(value);
    if trimmed.len() == 0 || eq_str(&trimmed, "inherit") {
        return None;
    }
    let palette = theme_hit_exec(&trimmed, "primary") || theme_hit_exec(&trimmed, "secondary")
        || theme_hit_exec(&trimmed, "success") || theme_hit_exec(&trimmed, "danger")
        || theme_hit_exec(&trimmed, "warning") || theme_hit_exec(&trimmed, "info")
        || theme_hit_exec(&trimmed, "light") || theme_hit_exec(&trimmed, "dark")
        || theme_hit_exec(&trimmed, "body") || theme_hit_exec(&trimmed, "body-secondary")
        || theme_hit_exec(&trimmed, "body-tertiary") || theme_hit_exec(&trimmed, "body-emphasis");
    if palette {
        let mut r = if is_background {
            chars_of("bg-")
        } else {
            chars_of("text-")
        };
        push_chars(&mut r, &trimmed);
        Some(r)
    } else {
        Some(trimmed)
    }
}

/// Map alignment keyword to a class.
fn map_text_align(value: &Vec<char>) -> (r: Vec<char>)
    ensures
        r@ == text_align_of(value@),
{
    let v = string_of(slice(value, 0, value.len()));
    assert(value@.subrange(0, value.len() as int) =~= value@);
    let u = uppercase(v.as_str());
    chars_of(text_align_class(u.as_str()).as_str())
}

/// Map vertical alignment keyword to a class.
fn map_vertical_align(value: &Vec<char>) -> (r: Vec<char>)
    ensures
        r@ == vertical_align_of(value@),
{
    let v = string_of(slice(value, 0, value.len()));
    assert(value@.subrange(0, value.len() as int) =~= value@);
    let u = uppercase(v.as_str());
    chars_of(vertical_align_class(u.as_str()).as_str())
}

// ---- prefix patterns ----

/// `SIZE(value):` with a non-empty value free of `)`; the value is carried.
pub open spec fn size_rule(s: Seq<char>, i: int) -> Option<(int, Seq<char>)> {
    let j = i + "SIZE("@.len();
    let c = next_of(s, j, ')');
    if has_at(s, i, "SIZE("@) && j < c && c + 1 < s.len() && s[c + 1] == ':' {
        Some((c + 2, s.subrange(j, c)))
    } else {
        None
    }
}

/// `COLOR(fg,bg):` or `COLOR(fg):`; everything between the parentheses is carried.
pub open spec fn color_rule(s: Seq<char>, i: int) -> Option<(int, Seq<char>)> {
    let j = i + "COLOR("@.len();
    let c = next_of(s, j, ')');
    if has_at(s, i, "COLOR("@) && c + 1 < s.len() && s[c + 1] == ':' {
        Some((c + 2, s.subrange(j, c)))
    } else {
        None
    }
}

pub open spec fn truncate_rule(s: Seq<char>, i: int) -> Option<(int, Seq<char>)> {
    if has_at(s, i, "TRUNCATE:"@) {
        Some((i + "TRUNCATE:"@.len(), Seq::empty()))
    } else {
        None
    }
}

/// One of `keys` followed by a colon at `i`, tried in order; the keyword is carried.
pub open spec fn keyword_rule(s: Seq<char>, i: int, keys: Seq<Seq<char>>) -> Option<(int, Seq<char>)>
    decreases keys.len(),
{
    if keys.len() == 0 {
        None
    } else if has_at(s, i, keys[0] + seq![':']) {
        Some((i + keys[0].len() + 1, keys[0]))
    } else {
        keyword_rule(s, i, keys.drop_first())
    }
}

pub open spec fn valign_keys() -> Seq<Seq<char>> {
    seq!["TOP"@, "MIDDLE"@, "BOTTOM"@, "BASELINE"@]
}

pub open spec fn align_keys() -> Seq<Seq<char>> {
    seq!["JUSTIFY"@, "RIGHT"@, "CENTER"@, "LEFT"@]
}

pub open spec fn size_r() -> Rule {
    |s: Seq<char>, i: int| size_rule(s, i)
}

pub open spec fn color_r() -> Rule {
    |s: Seq<char>, i: int| color_rule(s, i)
}

pub open spec fn truncate_r() -> Rule {
    |s: Seq<char>, i: int| truncate_rule(s, i)
}

pub open spec fn valign_r() -> Rule {
    |s: Seq<char>, i: int| keyword_rule(s, i, valign_keys())
}

pub open spec fn align_r() -> Rule {
    |s: Seq<char>, i: int| keyword_rule(s, i, align_keys())
}

fn size_match(s: &Vec<char>, i: usize) -> (r: Option<(usize, Vec<char>)>)
    requires
        i < s.len(),
    ensures
        agrees(s@, i as int, size_r(), r),
{
    if !starts_at(s, i, "SIZE(") {
        return None;
    }
    let j = i + lit_len("SIZE(");
    let c = find_char(s, j, ')');
    if j < c && c < s.len() && c + 1 < s.len() && s[c + 1] == ':' {
        Some((c + 2, slice(s, j, c)))
    } else {
        None
    }
}

fn color_match(s: &Vec<char>, i: usize) -> (r: Option<(usize, Vec<char>)>)
    requires
        i < s.len(),
    ensures
        agrees(s@, i as int, color_r(), r),
{
    if !starts_at(s, i, "COLOR(") {
        return None;
    }
    let j = i + lit_len("COLOR(");
    let c = find_char(s, j, ')');
    if c < s.len() && c + 1 < s.len() && s[c + 1] == ':' {
        Some((c + 2, slice(s, j, c)))
    } else {
        None
    }
}

fn truncate_match(s: &Vec<char>, i: usize) -> (r: Option<(usize, Vec<char>)>)
    requires
        i < s.len(),
    ensures
        agrees(s@, i as int, truncate_r(), r),
{
    if starts_at(s, i, "TRUNCATE:") {
        proof {
            reveal_strlit("TRUNCATE:");
        }
        Some((i + lit_len("TRUNCATE:"), Vec::new()))
    } else {
        None
    }
}

/// Tries one keyword followed by a colon.
fn keyword_at(s: &Vec<char>, i: usize, key: &str) -> (r: Option<(usize, Vec<char>)>)
    requires
        i < s.len(),
    ensures
        match r {
            Some(h) => has_at(s@, i as int, key@ + seq![':']) && h.0 == i + key@.len() + 1
                && h.1@ == key@,
            None => !has_at(s@, i as int, key@ + seq![':']),
        },
{
    let n = lit_len(key);
    if starts_at(s, i, key) && i + n < s.len() && s[i + n] == ':' {
        assert(s@.subrange(i as int, i + n + 1) =~= s@.subrange(i as int, i + n) + seq![':']);
        assert(has_at(s@, i as int, key@ + seq![':']));
        let kv = chars_of(key);
        Some((i + n + 1, kv))
    } else {
        proof {
            if has_at(s@, i as int, key@ + seq![':']) {
                assert(s@.subrange(i as int, i + n) =~= s@.subrange(i as int, i + n + 1).subrange(0, n as int));
                assert((key@ + seq![':']).subrange(0, n as int) =~= key@);
                assert(s@.subrange(i as int, i + n + 1)[n as int] == ':');
            }
        }
        None
    }
}

fn valign_match(s: &Vec<char>, i: usize) -> (r: Option<(usize, Vec<char>)>)
    requires
        i < s.len(),
    ensures
        agrees(s@, i as int, valign_r(), r),
{
    proof {
        reveal_with_fuel(keyword_rule, 5);
    }
    let ghost k = valign_keys();
    assert(k.drop_first() =~= seq!["MIDDLE"@, "BOTTOM"@, "BASELINE"@]);
    assert(k.drop_first().drop_first() =~= seq!["BOTTOM"@, "BASELINE"@]);
    assert(k.drop_first().drop_first().drop_first() =~= seq!["BASELINE"@]);
    assert(k.drop_first().drop_first().drop_first().drop_first() =~= Seq::<Seq<char>>::empty());
    let a = keyword_at(s, i, "TOP");
    if a.is_some() {
        return a;
    }
    let b = keyword_at(s, i, "MIDDLE");
    if b.is_some() {
        return b;
    }
    let c = keyword_at(s, i, "BOTTOM");
    if c.is_some() {
        return c;
    }
    keyword_at(s, i, "BASELINE")
}

fn align_match(s: &Vec<char>, i: usize) -> (r: Option<(usize, Vec<char>)>)
    requires
        i < s.len(),
    ensures
        agrees(s@, i as int, align_r(), r),
{
    proof {
        reveal_with_fuel(keyword_rule, 5);
    }
    let ghost k = align_keys();
    assert(k.drop_first() =~= seq!["RIGHT"@, "CENTER"@, "LEFT"@]);
    assert(k.drop_first().drop_first() =~= seq!["CENTER"@, "LEFT"@]);
    assert(k.drop_first().drop_first().drop_first() =~= seq!["LEFT"@]);
    assert(k.drop_first().drop_first().drop_first().drop_first() =~= Seq::<Seq<char>>::empty());
    let a = keyword_at(s, i, "JUSTIFY");
    if a.is_some() {
        return a;
    }
    let b = keyword_at(s, i, "RIGHT");
    if b.is_some() {
        return b;
    }
    let c = keyword_at(s, i, "CENTER");
    if c.is_some() {
        return c;
    }
    keyword_at(s, i, "LEFT")
}


// ---- parsing a line ----

/// What remains after a prefix found by `lead_rule`.
pub open spec fn after(s: Seq<char>, h: Option<(int, int, Seq<char>)>) -> Seq<char> {
    match h {
        Some(h) => s.subrange(h.1, s.len() as int),
        None => s,
    }
}

/// The foreground part of `fg,bg`.
pub open spec fn fg_part(inner: Seq<char>) -> Seq<char> {
    inner.subrange(0, next_of(inner, 0, ','))
}

/// The background part of `fg,bg`: empty when there is no comma.
pub open spec fn bg_part(inner: Seq<char>) -> Seq<char> {
    let c = next_of(inner, 0, ',');
    if c < inner.len() {
        inner.subrange(c + 1, inner.len() as int)
    } else {
        Seq::empty()
    }
}

/// The decoration that the prefixes of `line` ask for, and the content left after them.
/// The prefixes form a chain consumed from the left in a fixed order: size, color,
/// truncation, vertical alignment, then horizontal alignment. Each is taken only at the
/// start of what the previous ones left, after white space; one that is absent there is
/// skipped, and what remains is the content.
pub open spec fn parse_line(line: Seq<char>) -> (DecorationView, Seq<char>) {
    let hs = lead_rule(line, size_r());
    let r1 = after(line, hs);
    let hc = lead_rule(r1, color_r());
    let r2 = after(r1, hc);
    let ht = lead_rule(r2, truncate_r());
    let r3 = after(r2, ht);
    let hv = lead_rule(r3, valign_r());
    let r4 = after(r3, hv);
    let ha = lead_rule(r4, align_r());
    let r5 = after(r4, ha);
    (
        DecorationView {
            fg_color: match hc {
                Some(h) => color_of(fg_part(h.2), false),
                None => None,
            },
            bg_color: match hc {
                Some(h) => color_of(bg_part(h.2), true),
                None => None,
            },
            font_size: match hs {
                Some(h) => Some(font_size_of(h.2)),
                None => None,
            },
            text_align: match ha {
                Some(h) => Some(text_align_of(h.2)),
                None => None,
            },
            truncate: ht is Some,
            vertical_align: match hv {
                Some(h) => Some(vertical_align_of(h.2)),
                None => None,
            },
        },
        trim(r5),
    )
}

/// Parse all prefixes from a line and extract decoration attributes.
fn parse_prefixes(line: &Vec<char>) -> (r: (BlockDecoration, Vec<char>))
    ensures
        (r.0@, r.1@) == parse_line(line@),
{
    let mut decoration = BlockDecoration {
        fg_color: None,
        bg_color: None,
        font_size: None,
        text_align: None,
        truncate: false,
        vertical_align: None,
    };
    let mut remaining = slice(line, 0, line.len());
    assert(line@.subrange(0, line.len() as int) =~= line@);

    if let Some(h) = match_lead(&remaining, size_match, Ghost(size_r())) {
        decoration.font_size = Some(map_font_size(&h.2));
        remaining = slice(&remaining, h.1, remaining.len());
    }
    if let Some(h) = match_lead(&remaining, color_match, Ghost(color_r())) {
        let inner = &h.2;
        let c = find_char(inner, 0, ',');
        let fg = slice(inner, 0, c);
        let bg = if c < inner.len() {
            slice(inner, c + 1, inner.len())
        } else {
            Vec::new()
        };
        decoration.fg_color = map_color(&fg, false);
        decoration.bg_color = map_color(&bg, true);
        remaining = slice(&remaining, h.1, remaining.len());
    }
    if let Some(h) = match_lead(&remaining, truncate_match, Ghost(truncate_r())) {
        decoration.truncate = true;
        remaining = slice(&remaining, h.1, remaining.len());
    }
    if let Some(h) = match_lead(&remaining, valign_match, Ghost(valign_r())) {
        decoration.vertical_align = Some(map_vertical_align(&h.2));
        remaining = slice(&remaining, h.1, remaining.len());
    }
    if let Some(h) = match_lead(&remaining, align_match, Ghost(align_r())) {
        decoration.text_align = Some(map_text_align(&h.2));
        remaining = slice(&remaining, h.1, remaining.len());
    }
    (decoration, trim_vec(&remaining))
}

// ---- attributes ----

/// Appends a word to a separated list; the list starts empty.
pub open spec fn add_word(acc: Seq<char>, w: Option<Seq<char>>, sep: Seq<char>) -> Seq<char> {
    match w {
        Some(x) => if acc.len() == 0 {
            x
        } else {
            acc + sep + x
        },
        None => acc,
    }
}

/// A value that is a class name (it starts with `prefix`).
pub open spec fn class_part(v: Option<Seq<char>>, prefix: Seq<char>) -> Option<Seq<char>> {
    match v {
        Some(x) => if has_at(x, 0, prefix) {
            Some(x)
        } else {
            None
        },
        None => None,
    }
}

/// A value that is no class name, as the style declaration `name: value`.
pub open spec fn style_part(v: Option<Seq<char>>, prefix: Seq<char>, name: Seq<char>) -> Option<Seq<char>> {
    match v {
        Some(x) => if has_at(x, 0, prefix) {
            None
        } else {
            Some(name + x)
        },
        None => None,
    }
}

/// The classes, in the order alignment, truncation, vertical alignment, size,
/// foreground, background, separated by spaces.
pub open spec fn class_list(d: DecorationView) -> Seq<char> {
    let a = add_word(Seq::empty(), d.text_align, " "@);
    let b = add_word(a, if d.truncate { Some("text-truncate"@) } else { None }, " "@);
    let c = add_word(b, d.vertical_align, " "@);
    let e = add_word(c, class_part(d.font_size, "fs-"@), " "@);
    let f = add_word(e, class_part(d.fg_color, "text-"@), " "@);
    add_word(f, class_part(d.bg_color, "bg-"@), " "@)
}

/// The inline styles, in the order size, foreground, background, separated by `; `.
pub open spec fn style_list(d: DecorationView) -> Seq<char> {
    let a = add_word(Seq::empty(), style_part(d.font_size, "fs-"@, "font-size: "@), "; "@);
    let b = add_word(a, style_part(d.fg_color, "text-"@, "color: "@), "; "@);
    add_word(b, style_part(d.bg_color, "bg-"@, "background-color: "@), "; "@)
}

pub open spec fn quoted_attr(name: Seq<char>, v: Seq<char>) -> Option<Seq<char>> {
    if v.len() == 0 {
        None
    } else {
        Some(name + "=\""@ + v + "\""@)
    }
}

pub open spec fn class_attr(d: DecorationView) -> Option<Seq<char>> {
    quoted_attr("class"@, class_list(d))
}

pub open spec fn style_attr(d: DecorationView) -> Option<Seq<char>> {
    quoted_attr("style"@, style_list(d))
}

/// The paragraph that carries a decoration: `<p>content</p>` when nothing applies.
pub open spec fn paragraph(d: DecorationView, content: Seq<char>) -> Seq<char> {
    let attrs = add_word(add_word(Seq::empty(), class_attr(d), " "@), style_attr(d), " "@);
    if attrs.len() == 0 {
        "<p>"@ + content + "</p>"@
    } else {
        "<p "@ + attrs + ">"@ + content + "</p>"@
    }
}

fn add_word_exec(acc: &mut Vec<char>, w: &Option<Vec<char>>, sep: &str)
    ensures
        final(acc)@ == add_word(old(acc)@, opt_view(*w), sep@),
{
    if let Some(x) = w {
        if acc.len() == 0 {
            push_chars(acc, x);
        } else {
            push_str(acc, sep);
            push_chars(acc, x);
        }
    }
}

fn class_part_exec(v: &Option<Vec<char>>, prefix: &str) -> (r: Option<Vec<char>>)
    ensures
        opt_view(r) == class_part(opt_view(*v), prefix@),
{
    match v {
        Some(x) => if starts_at(x, 0, prefix) {
            Some(slice(x, 0, x.len()))
        } else {
            None
        },
        None => None,
    }
}

fn style_part_exec(v: &Option<Vec<char>>, prefix: &str, name: &str) -> (r: Option<Vec<char>>)
    ensures
        opt_view(r) == style_part(opt_view(*v), prefix@, name@),
{
    match v {
        Some(x) => if starts_at(x, 0, prefix) {
            None
        } else {
            let mut s = chars_of(name);
            push_chars(&mut s, x);
            Some(s)
        },
        None => None,
    }
}

fn quoted_attr_exec(name: &str, v: &Vec<char>) -> (r: Option<Vec<char>>)
    ensures
        opt_view(r) == quoted_attr(name@, v@),
{
    if v.len() == 0 {
        None
    } else {
        let mut s = chars_of(name);
        push_str(&mut s, "=\"");
        push_chars(&mut s, v);
        push_str(&mut s, "\"");
        Some(s)
    }
}

impl BlockDecoration {
    /// Convert to HTML class and style attributes.
    fn to_html_attrs(&self) -> (r: (Option<Vec<char>>, Option<Vec<char>>))
        ensures
            opt_view(r.0) == class_attr(self@),
            opt_view(r.1) == style_attr(self@),
    {
        let mut classes: Vec<char> = Vec::new();
        add_word_exec(&mut classes, &self.text_align, " ");
        let truncate = if self.truncate {
            Some(chars_of("text-truncate"))
        } else {
            None
        };
        add_word_exec(&mut classes, &truncate, " ");
        add_word_exec(&mut classes, &self.vertical_align, " ");
        add_word_exec(&mut classes, &class_part_exec(&self.font_size, "fs-"), " ");
        add_word_exec(&mut classes, &class_part_exec(&self.fg_color, "text-"), " ");
        add_word_exec(&mut classes, &class_part_exec(&self.bg_color, "bg-"), " ");

        let mut styles: Vec<char> = Vec::new();
        add_word_exec(&mut styles, &style_part_exec(&self.font_size, "fs-", "font-size: "), "; ");
        add_word_exec(&mut styles, &style_part_exec(&self.fg_color, "text-", "color: "), "; ");
        add_word_exec(
            &mut styles,
            &style_part_exec(&self.bg_color, "bg-", "background-color: "),
            "; ",
        );
        (quoted_attr_exec("class", &classes), quoted_attr_exec("style", &styles))
    }
}

// ---- lines ----

/// The line starts with one of the decoration prefixes.
pub open spec fn is_decorated(l: Seq<char>) -> bool {
    ||| has_at(l, 0, "SIZE("@) || has_at(l, 0, "COLOR("@) || has_at(l, 0, "TRUNCATE:"@)
    ||| has_at(l, 0, "TOP:"@) || has_at(l, 0, "MIDDLE:"@) || has_at(l, 0, "BOTTOM:"@)
    ||| has_at(l, 0, "BASELINE:"@) || has_at(l, 0, "JUSTIFY:"@) || has_at(l, 0, "RIGHT:"@)
    ||| has_at(l, 0, "CENTER:"@) || has_at(l, 0, "LEFT:"@)
}

/// A decorated line becomes a paragraph; any other line is kept.
pub open spec fn render_line(l: Seq<char>) -> Seq<char> {
    if is_decorated(l) {
        let (d, c) = parse_line(l);
        paragraph(d, c)
    } else {
        l
    }
}

/// The end of the line that starts at `i`, without the `\r` of a `\r\n` ending.
pub open spec fn line_stop(s: Seq<char>, i: int) -> int {
    let e = next_of(s, i, '\n');
    if e < s.len() && e > i && s[e - 1] == '\r' {
        e - 1
    } else {
        e
    }
}

/// Each line from position `i` on, rendered and ended with a newline.
pub open spec fn decorated_lines(s: Seq<char>, i: int) -> Seq<char>
    decreases s.len() - i,
{
    if i < 0 || i >= s.len() {
        Seq::empty()
    } else {
        let e = next_of(s, i, '\n');
        render_line(s.subrange(i, line_stop(s, i))) + seq!['\n'] + if i <= e < s.len() {
            decorated_lines(s, e + 1)
        } else {
            Seq::empty()
        }
    }
}

fn is_decorated_exec(l: &Vec<char>) -> (r: bool)
    ensures
        r == is_decorated(l@),
{
    starts_at(l, 0, "SIZE(") || starts_at(l, 0, "COLOR(") || starts_at(l, 0, "TRUNCATE:")
        || starts_at(l, 0, "TOP:") || starts_at(l, 0, "MIDDLE:") || starts_at(l, 0, "BOTTOM:")
        || starts_at(l, 0, "BASELINE:") || starts_at(l, 0, "JUSTIFY:") || starts_at(l, 0, "RIGHT:")
        || starts_at(l, 0, "CENTER:") || starts_at(l, 0, "LEFT:")
}

fn render_line_exec(l: &Vec<char>) -> (r: Vec<char>)
    ensures
        r@ == render_line(l@),
{
    if !is_decorated_exec(l) {
        return slice(l, 0, l.len());
    }
    let (decoration, content) = parse_prefixes(l);
    let (class_attr, style_attr) = decoration.to_html_attrs();
    let mut attrs: Vec<char> = Vec::new();
    add_word_exec(&mut attrs, &class_attr, " ");
    add_word_exec(&mut attrs, &style_attr, " ");
    let mut r: Vec<char>;
    if attrs.len() == 0 {
        r = chars_of("<p>");
    } else {
        r = chars_of("<p ");
        push_chars(&mut r, &attrs);
        push_str(&mut r, ">");
    }
    push_chars(&mut r, &content);
    push_str(&mut r, "</p>");
    r
}

/// The decorated form of `s`: every line rendered, trailing white space removed.
pub open spec fn block_decorated(s: Seq<char>) -> Seq<char> {
    trim_end(decorated_lines(s, 0))
}

pub fn block_decorate_chars(s: &Vec<char>) -> (r: Vec<char>)
    ensures
        r@ == block_decorated(s@),
{
    let mut out: Vec<char> = Vec::new();
    let mut i: usize = 0;
    while i < s.len()
        invariant
            i <= s.len(),
            out@ + decorated_lines(s@, i as int) == decorated_lines(s@, 0),
        decreases s.len() - i,
    {
        let e = find_char(s, i, '\n');
        let stop = if e < s.len() && e > i && s[e - 1] == '\r' {
            e - 1
        } else {
            e
        };
        let line = slice(s, i, stop);
        let rendered = render_line_exec(&line);
        let ghost prev = out@;
        push_chars(&mut out, &rendered);
        out.push('\n');
        assert(out@ == prev + (render_line(line@) + seq!['\n']));
        assert(decorated_lines(s@, i as int) == render_line(line@) + seq!['\n'] + if e < s.len() {
            decorated_lines(s@, e + 1)
        } else {
            Seq::<char>::empty()
        });
        i = if e < s.len() {
            e + 1
        } else {
            e
        };
    }
    trim_end_vec(&out)
}

/// Apply block decoration prefixes to every line of `html`.
pub fn apply_block_decorations(html: &str) -> (r: String)
    ensures
        r@ == block_decorated(html@),
{
    let s = chars_of(html);
    string_of(block_decorate_chars(&s))
}

} // verus!
