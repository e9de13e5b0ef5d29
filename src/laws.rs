//! Properties that hold across the passes, stated over the specifications of the
//! passes themselves.
use vstd::prelude::*;
use crate::block_decorations::block_decorated;
use crate::conflict_resolver::{
    anchors_from, block_restore_r, decoded_text, decoration_line, decoration_restore_r,
    decoration_restore_rule, header_id_line, heading_ids, heading_ids_from, heading_tag_at,
    inline_protect_r, inline_restore_r, is_heading, is_level, keep_token, marker_at,
    multi_protect_r, plugin_restore_rule, protect_line_fn, protected_text, quote_line,
    quote_restore_r, quote_restore_rule, restored, single_protect_r, token, unwrap_r,
    wrapped_div_at,
};
use crate::plugins::{block_multi_at, block_single_at, container, inline_plugin_at};
use crate::text::{
    contains, delimited_at, has_at, is_word, lemma_find_from_at, lemma_map_lines_unchanged,
    lemma_next_of, lemma_next_of_at, lemma_rewrite_unchanged, lemma_word_end_at, line_at,
    next_of,
};

verus! {

/// A line without wiki syntax: no heading ending in an explicit id, no one-line
/// `> text <` quote, no decoration prefix.
pub open spec fn plain_line(l: Seq<char>) -> bool {
    header_id_line(l) is None && quote_line(l) is None && !decoration_line(l)
}

/// The opening markers of the placeholder tokens.
pub open spec fn is_token_opening(open: Seq<char>) -> bool {
    ||| open == "{{LUKIWIKI_BLOCKQUOTE:"@
    ||| open == "{{BLOCK_DECORATION:"@
    ||| open == "{{INLINE_PLUGIN:"@
    ||| open == "{{BLOCK_PLUGIN:"@
}

/// Plain Markdown: no line holds wiki syntax; there is no plugin call
/// `&name(args){content};`, `@name(args){{content}}` or `@name(args){content}`, no
/// placeholder token opening, no `<h1>`..`<h6>` tag and no plugin container
/// `<div class="plugin-`.
pub open spec fn is_plain_markdown(s: Seq<char>) -> bool {
    &&& forall|a: int|
        0 <= a <= s.len() && (a == 0 || s[a - 1] == '\n') ==> plain_line(#[trigger] line_at(s, a))
    &&& forall|k: int| 0 <= k < s.len() ==> #[trigger] inline_plugin_at(s, k) is None
    &&& forall|k: int| 0 <= k < s.len() ==> #[trigger] block_multi_at(s, k) is None
    &&& forall|k: int| 0 <= k < s.len() ==> #[trigger] block_single_at(s, k) is None
    &&& forall|open: Seq<char>| is_token_opening(open) ==> !#[trigger] contains(s, open)
    &&& forall|k: int|
        !(#[trigger] has_at(s, k, "<h"@) && k + 3 < s.len() && is_level(s[k + 2]) && s[k + 3]
            == '>')
    &&& !contains(s, "<div class=\"plugin-"@)
}

proof fn lemma_plain_anchors(s: Seq<char>, i: int, n: int, ids: Map<int, Seq<char>>)
    requires
        is_plain_markdown(s),
        0 <= i <= s.len(),
    ensures
        anchors_from(s, i, n, ids) == s.subrange(i, s.len() as int),
    decreases s.len() - i,
{
    if i < s.len() {
        assert(heading_tag_at(s, i) is None);
        lemma_plain_anchors(s, i + 1, n, ids);
        assert(s.subrange(i, s.len() as int) =~= seq![s[i]] + s.subrange(i + 1, s.len() as int));
    } else {
        assert(s.subrange(i, s.len() as int) =~= Seq::<char>::empty());
    }
}

/// A token opening does not occur in plain Markdown.
proof fn lemma_plain_no_open(s: Seq<char>, k: int, open: Seq<char>)
    requires
        is_plain_markdown(s),
        is_token_opening(open),
    ensures
        !has_at(s, k, open),
{
    assert(!contains(s, open));
}

proof fn lemma_plain_no_token(s: Seq<char>, k: int)
    requires
        is_plain_markdown(s),
    ensures
        keep_token(s, k) is None,
{
    lemma_plain_no_open(s, k, "{{LUKIWIKI_BLOCKQUOTE:"@);
    lemma_plain_no_open(s, k, "{{BLOCK_DECORATION:"@);
    lemma_plain_no_open(s, k, "{{INLINE_PLUGIN:"@);
    lemma_plain_no_open(s, k, "{{BLOCK_PLUGIN:"@);
}

proof fn lemma_plain_no_plugin_calls(s: Seq<char>)
    requires
        is_plain_markdown(s),
    ensures
        forall|k: int| 0 <= k < s.len() ==> #[trigger] inline_protect_r()(s, k) is None,
        forall|k: int| 0 <= k < s.len() ==> #[trigger] multi_protect_r()(s, k) is None,
        forall|k: int| 0 <= k < s.len() ==> #[trigger] single_protect_r()(s, k) is None,
{
    assert forall|k: int| 0 <= k < s.len() implies #[trigger] inline_protect_r()(s, k) is None by {
        lemma_plain_no_token(s, k);
        assert(inline_plugin_at(s, k) is None);
    }
    assert forall|k: int| 0 <= k < s.len() implies #[trigger] multi_protect_r()(s, k) is None by {
        lemma_plain_no_token(s, k);
        assert(block_multi_at(s, k) is None);
    }
    assert forall|k: int| 0 <= k < s.len() implies #[trigger] single_protect_r()(s, k) is None by {
        lemma_plain_no_token(s, k);
        assert(block_single_at(s, k) is None);
    }
}

proof fn lemma_plain_no_tokens(s: Seq<char>)
    requires
        is_plain_markdown(s),
    ensures
        forall|k: int| 0 <= k < s.len() ==> #[trigger] quote_restore_r()(s, k) is None,
        forall|k: int| 0 <= k < s.len() ==> #[trigger] decoration_restore_r()(s, k) is None,
        forall|k: int| 0 <= k < s.len() ==> #[trigger] unwrap_r()(s, k) is None,
{
    assert forall|k: int| 0 <= k < s.len() implies #[trigger] quote_restore_r()(s, k) is None by {
        lemma_plain_no_open(s, k, "{{LUKIWIKI_BLOCKQUOTE:"@);
    }
    assert forall|k: int| 0 <= k < s.len() implies #[trigger] decoration_restore_r()(s, k) is None by {
        let open = "{{BLOCK_DECORATION:"@;
        let close = ":BLOCK_DECORATION}}"@;
        lemma_plain_no_open(s, k, open);
        lemma_plain_no_open(s, k + "<p>"@.len(), open);
        assert(delimited_at(s, k, open, close) is None);
        assert(delimited_at(s, k + "<p>"@.len(), open, close) is None);
    }
    assert forall|k: int| 0 <= k < s.len() implies #[trigger] unwrap_r()(s, k) is None by {
        if wrapped_div_at(s, k) is Some {
            let a = crate::text::ws_end(s, k + 3);
            assert(has_at(s, a, "<div class=\"plugin-"@));
        }
    }
}

proof fn lemma_plain_no_plugin_tokens(s: Seq<char>)
    requires
        is_plain_markdown(s),
    ensures
        forall|k: int| 0 <= k < s.len() ==> #[trigger] inline_restore_r()(s, k) is None,
        forall|k: int| 0 <= k < s.len() ==> #[trigger] block_restore_r()(s, k) is None,
{
    reveal_strlit("{{");
    reveal_strlit(":");
    reveal_strlit("INLINE_PLUGIN");
    reveal_strlit("BLOCK_PLUGIN");
    reveal_strlit("{{INLINE_PLUGIN:");
    reveal_strlit("{{BLOCK_PLUGIN:");
    assert("{{"@ + "INLINE_PLUGIN"@ + ":"@ =~= "{{INLINE_PLUGIN:"@);
    assert("{{"@ + "BLOCK_PLUGIN"@ + ":"@ =~= "{{BLOCK_PLUGIN:"@);
    assert forall|k: int| 0 <= k < s.len() implies #[trigger] inline_restore_r()(s, k) is None by {
        lemma_plain_no_open(s, k, "{{INLINE_PLUGIN:"@);
    }
    assert forall|k: int| 0 <= k < s.len() implies #[trigger] block_restore_r()(s, k) is None by {
        lemma_plain_no_open(s, k, "{{BLOCK_PLUGIN:"@);
    }
}

proof fn lemma_plain_no_ids(s: Seq<char>, i: int, n: int, acc: Map<int, Seq<char>>)
    requires
        is_plain_markdown(s),
        0 <= i <= s.len(),
        i == 0 || s[i - 1] == '\n',
    ensures
        heading_ids_from(s, i, n, acc) == acc,
    decreases s.len() + 1 - i,
{
    let e = next_of(s, i, '\n');
    lemma_next_of(s, i, '\n');
    assert(plain_line(line_at(s, i)));
    let m = if is_heading(s.subrange(i, e)) {
        n + 1
    } else {
        n
    };
    if e < s.len() {
        lemma_plain_no_ids(s, e + 1, m, acc);
    }
}

/// Plain Markdown goes through the pre-pass unchanged, with no heading id recorded, and
/// through the post-pass unchanged, whatever heading ids are given: with a renderer that
/// changes nothing, the two passes together give back the input.
pub proof fn lemma_plain_markdown_round_trip(s: Seq<char>, ids: Map<int, Seq<char>>)
    requires
        is_plain_markdown(s),
    ensures
        protected_text(s) == s,
        heading_ids(s) == Map::<int, Seq<char>>::empty(),
        restored(s, ids) == s,
{
    lemma_plain_no_ids(s, 0, 0, Map::empty());
    assert(s.subrange(0, s.len() as int) =~= s);
    assert forall|a: int| 0 <= a <= s.len() && (a == 0 || s[a - 1] == '\n') implies #[trigger] protect_line_fn()(
        line_at(s, a),
    ) == line_at(s, a) by {
        assert(plain_line(line_at(s, a)));
    }
    lemma_map_lines_unchanged(s, 0, protect_line_fn());
    lemma_plain_no_plugin_calls(s);
    lemma_rewrite_unchanged(s, 0, inline_protect_r());
    lemma_rewrite_unchanged(s, 0, multi_protect_r());
    lemma_rewrite_unchanged(s, 0, single_protect_r());
    lemma_plain_anchors(s, 0, 0, ids);
    lemma_plain_no_tokens(s);
    lemma_plain_no_plugin_tokens(s);
    lemma_rewrite_unchanged(s, 0, quote_restore_r());
    lemma_rewrite_unchanged(s, 0, decoration_restore_r());
    lemma_rewrite_unchanged(s, 0, inline_restore_r());
    lemma_rewrite_unchanged(s, 0, block_restore_r());
    lemma_rewrite_unchanged(s, 0, unwrap_r());
}

/// A plugin token whose name is made of name characters and whose two payloads (the
/// encoded arguments and the encoded content) hold no `:` is consumed whole by the
/// post-pass rule of its kind, and becomes the container of that name and the two
/// payloads' decodings. The pre-pass writes both payloads in base64, which has no `:`.
pub proof fn lemma_plugin_token_restored(
    kind: Seq<char>,
    tag: Seq<char>,
    name: Seq<char>,
    args: Seq<char>,
    enc: Seq<char>,
)
    requires
        name.len() > 0,
        forall|k: int| 0 <= k < name.len() ==> is_word(#[trigger] name[k]),
        forall|k: int| 0 <= k < args.len() ==> #[trigger] args[k] != ':',
        forall|k: int| 0 <= k < enc.len() ==> #[trigger] enc[k] != ':',
    ensures
        ({
            let t = token(kind, name + ":"@ + args + ":"@ + enc);
            plugin_restore_rule(t, 0, kind, tag) == Some(
                (t.len() as int, container(tag, name, decoded_text(args), decoded_text(enc))),
            )
        }),
{
    reveal_strlit(":");
    reveal_strlit("{{");
    reveal_strlit("}}");
    let open = "{{"@ + kind + ":"@;
    let close = ":"@ + kind + "}}"@;
    let t = token(kind, name + ":"@ + args + ":"@ + enc);
    let j = open.len() as int;
    let n = j + name.len();
    let a = n + 1 + args.len();
    let e = a + 1 + enc.len();
    assert(t =~= open + name + ":"@ + args + ":"@ + enc + close);
    assert(t.subrange(0, j) =~= open);
    assert(t.subrange(e, e + close.len()) =~= close);
    assert(t.len() == e + close.len());
    assert forall|x: int| j <= x < n implies is_word(t[x]) by {
        assert(t[x] == name[x - j]);
    }
    lemma_word_end_at(t, j, n);
    assert forall|x: int| n + 1 <= x < a implies t[x] != ':' by {
        assert(t[x] == args[x - n - 1]);
    }
    lemma_next_of_at(t, n + 1, a, ':');
    assert forall|x: int| a + 1 <= x < e implies t[x] != ':' by {
        assert(t[x] == enc[x - a - 1]);
    }
    lemma_next_of_at(t, a + 1, e, ':');
    assert(marker_at(t, 0, open, close) == Some((n, a, e)));
    assert(t.subrange(j, n) =~= name);
    assert(t.subrange(n + 1, a) =~= args);
    assert(t.subrange(a + 1, e) =~= enc);
}

/// A wiki-quote token is consumed whole by the post-pass and becomes the quote
/// element with the same text, when the text is non-empty, on one line, and no
/// closing marker starts inside it.
pub proof fn lemma_quote_token_restored(c: Seq<char>)
    requires
        c.len() > 0,
        forall|k: int| 0 <= k < c.len() ==> #[trigger] c[k] != '\n',
        forall|x: int| 0 <= x < c.len() ==> !#[trigger] has_at(
            c + ":LUKIWIKI_BLOCKQUOTE}}"@,
            x,
            ":LUKIWIKI_BLOCKQUOTE}}"@,
        ),
    ensures
        ({
            let t = token("LUKIWIKI_BLOCKQUOTE"@, c);
            quote_restore_rule(t, 0) == Some(
                (t.len() as int, "<blockquote class=\"lukiwiki\">"@ + c + "</blockquote>"@),
            )
        }),
{
    reveal_strlit("{{LUKIWIKI_BLOCKQUOTE:");
    reveal_strlit(":LUKIWIKI_BLOCKQUOTE}}");
    reveal_strlit("LUKIWIKI_BLOCKQUOTE");
    reveal_strlit(":");
    reveal_strlit("{{");
    reveal_strlit("}}");
    let open = "{{LUKIWIKI_BLOCKQUOTE:"@;
    let close = ":LUKIWIKI_BLOCKQUOTE}}"@;
    let t = token("LUKIWIKI_BLOCKQUOTE"@, c);
    let j = open.len() as int;
    let f = j + c.len();
    let tail = c + close;
    assert(t =~= open + tail);
    assert(t.subrange(0, j) =~= open);
    assert(t.subrange(f, f + close.len()) =~= close);
    assert forall|x: int| j + 1 <= x < f implies !#[trigger] has_at(t, x, close) by {
        if has_at(t, x, close) {
            assert(t.subrange(x, x + close.len()) =~= tail.subrange(x - j, x - j + close.len()));
            assert(has_at(tail, x - j, close));
        }
    }
    lemma_find_from_at(t, j + 1, f, close);
    lemma_next_of(t, j, '\n');
    if next_of(t, j, '\n') < f {
        assert(t[next_of(t, j, '\n')] == c[next_of(t, j, '\n') - j]);
    }
    assert(t.subrange(j, f) =~= c);
}

/// A token `open c close` that stands after `pre` is found whole by `delimited_at`,
/// when `c` is non-empty, on one line, and no closing marker starts inside it.
proof fn lemma_token_delimited(
    pre: Seq<char>,
    open: Seq<char>,
    c: Seq<char>,
    close: Seq<char>,
    rest: Seq<char>,
)
    requires
        close.len() > 0,
        c.len() > 0,
        forall|k: int| 0 <= k < c.len() ==> #[trigger] c[k] != '\n',
        forall|x: int| 0 <= x < c.len() ==> !#[trigger] has_at(c + close, x, close),
    ensures
        ({
            let t = pre + open + c + close + rest;
            let j = pre.len() + open.len() as int;
            &&& delimited_at(t, pre.len() as int, open, close) == Some(j + c.len())
            &&& t.subrange(j as int, j + c.len()) == c
            &&& t.subrange(j + c.len() + close.len(), t.len() as int) == rest
        }),
{
    let t = pre + open + c + close + rest;
    let p = pre.len() as int;
    let j = p + open.len();
    let f = j + c.len();
    let tail = c + close + rest;
    assert(t =~= pre + open + tail);
    assert(t.subrange(p, j) =~= open);
    assert(t.subrange(f, f + close.len()) =~= close);
    assert forall|x: int| j + 1 <= x < f implies !#[trigger] has_at(t, x, close) by {
        if has_at(t, x, close) {
            assert(t.subrange(x, x + close.len()) =~= (c + close).subrange(
                x - j,
                x - j + close.len(),
            ));
            assert(has_at(c + close, x - j, close));
        }
    }
    lemma_find_from_at(t, j + 1, f, close);
    lemma_next_of(t, j, '\n');
    if next_of(t, j, '\n') < f {
        assert(t[next_of(t, j, '\n')] == c[next_of(t, j, '\n') - j]);
    }
    assert(t.subrange(j, f) =~= c);
    assert(t.subrange(f + close.len(), t.len() as int) =~= rest);
}

/// A decorated-line token is consumed whole by the post-pass and becomes the decorated
/// paragraph of the line, whatever follows it, when the line is non-empty, on one line,
/// and no closing marker starts inside it. A paragraph around the token alone is
/// dropped with it.
pub proof fn lemma_decoration_token_restored(l: Seq<char>, rest: Seq<char>)
    requires
        l.len() > 0,
        forall|k: int| 0 <= k < l.len() ==> #[trigger] l[k] != '\n',
        forall|x: int| 0 <= x < l.len() ==> !#[trigger] has_at(
            l + ":BLOCK_DECORATION}}"@,
            x,
            ":BLOCK_DECORATION}}"@,
        ),
    ensures
        ({
            let k = token("BLOCK_DECORATION"@, l);
            &&& decoration_restore_rule(k + rest, 0) == Some((k.len() as int, block_decorated(l)))
            &&& decoration_restore_rule("<p>"@ + k + "</p>"@ + rest, 0) == Some(
                (k.len() + 7 as int, block_decorated(l)),
            )
        }),
{
    reveal_strlit("{{BLOCK_DECORATION:");
    reveal_strlit(":BLOCK_DECORATION}}");
    reveal_strlit("BLOCK_DECORATION");
    reveal_strlit(":");
    reveal_strlit("{{");
    reveal_strlit("}}");
    reveal_strlit("<p>");
    reveal_strlit("</p>");
    let open = "{{BLOCK_DECORATION:"@;
    let close = ":BLOCK_DECORATION}}"@;
    let k = token("BLOCK_DECORATION"@, l);
    assert(k =~= open + l + close);
    let e: Seq<char> = Seq::empty();
    lemma_token_delimited(e, open, l, close, rest);
    assert(e + open + l + close + rest =~= k + rest);
    assert((k + rest)[0] == '{');
    assert(!has_at(k + rest, 0, "<p>"@)) by {
        if has_at(k + rest, 0, "<p>"@) {
            assert((k + rest).subrange(0, 3)[0] == '<');
        }
    }
    let w = "<p>"@ + k + "</p>"@ + rest;
    lemma_token_delimited("<p>"@, open, l, close, "</p>"@ + rest);
    assert("<p>"@ + open + l + close + ("</p>"@ + rest) =~= w);
    assert(w.subrange(0, 3) =~= "<p>"@);
    let f = 3 + open.len() + l.len() as int;
    assert(w.subrange(f + close.len() as int, f + close.len() + 4) =~= "</p>"@);
}

} // verus!
