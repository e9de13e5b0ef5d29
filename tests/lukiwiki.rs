use lukiwiki_parser::apply_lukiwiki_syntax;
use lukiwiki_parser::code_guard::{protect_code_sections, restore_code_sections};
use lukiwiki_parser::conflict_resolver::{postprocess_conflicts, preprocess_conflicts};

#[test]
fn test_lukiwiki_syntax_integration() {
    let input = "<p>This is ''bold'' and '''italic'''</p>";
    let output = apply_lukiwiki_syntax(input);
    assert!(output.contains("<b>bold</b>"));
    assert!(output.contains("<i>italic</i>"));
}

#[test]
fn code_block_is_untouched() {
    let code = "<pre><code class=\"lang\">COLOR(red): x\n&color(red){y}; ''z'' @p(a){{b}}</code></pre>";
    let input = format!("<p>''bold''</p>\n{}\n<p><code>&sup(2);</code> &sup(2);</p>", code);
    let output = apply_lukiwiki_syntax(&input);
    assert_eq!(
        output,
        format!(
            "<p><b>bold</b></p>\n{}\n<p><code>&sup(2);</code> <sup>2</sup>;</p>",
            code
        )
    );
}

#[test]
fn code_sections_round_trip() {
    let html = "a<pre><code>x</code></pre>b<code>y</code>c";
    let (protected, spans) = protect_code_sections(html);
    assert_eq!(protected, "a<!--CODE_BLOCK_0-->b<!--INLINE_CODE_1-->c");
    assert_eq!(spans, vec!["<pre><code>x</code></pre>".to_string(), "<code>y</code>".to_string()]);
    assert_eq!(restore_code_sections(&protected, &spans), html);
    assert_eq!(restore_code_sections("<!--INLINE_CODE_7-->", &spans), "");
    assert_eq!(
        restore_code_sections("<!--CODE_BLOCK_99999999999999999999999-->", &spans),
        ""
    );
}

#[test]
fn plain_markdown_is_identity() {
    let input = "# Title\n\nSome *text* and **more**.\n> quote\n> more\n- item";
    let (protected, ids) = preprocess_conflicts(input);
    assert_eq!(protected, input);
    assert_eq!(postprocess_conflicts(&protected, &ids), input);
}

#[test]
fn no_token_survives_round_trip() {
    let input = "> q <\nCOLOR(red): r\n&i(a){b};\n@blk(c){{d}}\n@one(e){f}";
    let (protected, ids) = preprocess_conflicts(input);
    let rendered: String = protected
        .lines()
        .map(|l| format!("<p>{}</p>", l))
        .collect::<Vec<_>>()
        .join("\n");
    let output = postprocess_conflicts(&rendered, &ids);
    assert!(!output.contains("{{"));
    assert!(!output.contains("}}"));
    assert!(output.contains("<blockquote class=\"lukiwiki\">q</blockquote>"));
    assert!(output.contains("<p style=\"color: red\">r</p>"));
    assert!(output.contains("<span class=\"plugin-i\" data-args=\"a\">b</span>"));
    assert!(output.contains("<div class=\"plugin-blk\" data-args=\"c\">d</div>"));
    assert!(output.contains("<div class=\"plugin-one\" data-args=\"e\">f</div>"));
}

#[test]
fn code_span_survives_decorated_line() {
    let output = apply_lukiwiki_syntax("CENTER: see <code>x</code> TOP: y");
    assert_eq!(output, "<p class=\"text-center\">see <code>x</code> TOP: y</p>");
}

#[test]
fn code_markers_never_nest() {
    let html = "<code <pre><code>x</code></pre>y</code>";
    let (protected, spans) = protect_code_sections(html);
    assert_eq!(restore_code_sections(&protected, &spans), html);
}

#[test]
fn plain_markdown_with_braces_and_angles_is_identity() {
    let input = "# Title\n\nset {a, b} and x < y > z\n> quote\n`code` & more @ home";
    let (protected, ids) = preprocess_conflicts(input);
    assert_eq!(protected, input);
    assert_eq!(postprocess_conflicts(&protected, &ids), input);
}

#[test]
fn code_with_angle_in_tag_is_untouched() {
    let input = "<p><code title=\"a<b\">&sup(2);</code></p>";
    assert_eq!(apply_lukiwiki_syntax(input), input);
}
