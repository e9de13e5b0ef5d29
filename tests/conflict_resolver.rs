use lukiwiki_parser::conflict_resolver::{
    detect_ambiguous_syntax, postprocess_conflicts, preprocess_conflicts, HeaderIdMap,
};

#[test]
fn test_lukiwiki_blockquote_preprocessing() {
    let input = "> This is a LukiWiki quote <";
    let (output, _) = preprocess_conflicts(input);
    assert!(output.contains("{{LUKIWIKI_BLOCKQUOTE:"));
    assert!(!output.starts_with(">"));
}

#[test]
fn test_lukiwiki_blockquote_postprocessing() {
    let header_map = HeaderIdMap::new();
    let input = "{{LUKIWIKI_BLOCKQUOTE:Test content:LUKIWIKI_BLOCKQUOTE}}";
    let output = postprocess_conflicts(input, &header_map);
    assert!(output.contains("<blockquote class=\"lukiwiki\">Test content</blockquote>"));
}

#[test]
fn test_markdown_blockquote_unchanged() {
    let input = "> Standard Markdown quote\n> Second line";
    let (output, _) = preprocess_conflicts(input);
    assert_eq!(output, input);
}

#[test]
fn test_roundtrip_blockquote() {
    let header_map = HeaderIdMap::new();
    let input = "> LukiWiki style <";
    let (preprocessed, _) = preprocess_conflicts(input);
    let postprocessed = postprocess_conflicts(&preprocessed, &header_map);
    assert!(postprocessed.contains("<blockquote class=\"lukiwiki\">"));
}

#[test]
fn test_custom_header_id() {
    let input = "# My Header {#custom-id}\n\nContent";
    let (output, header_map) = preprocess_conflicts(input);
    assert_eq!(header_map.ids.get(&1), Some(&"custom-id".to_string()));
    assert!(!output.contains("{#custom-id}"));
    assert!(output.contains("# My Header"));
}

#[test]
fn test_multiple_custom_header_ids() {
    let input = "# First {#first}\n\n## Second {#second}\n\n### Third";
    let (_output, header_map) = preprocess_conflicts(input);
    assert_eq!(header_map.ids.get(&1), Some(&"first".to_string()));
    assert_eq!(header_map.ids.get(&2), Some(&"second".to_string()));
    assert_eq!(header_map.ids.get(&3), None);
}

#[test]
fn test_apply_custom_header_ids() {
    let mut header_map = HeaderIdMap::new();
    header_map.ids.insert(1, "my-custom-id".to_string());

    let html = "<h1>Header</h1>";
    let output = postprocess_conflicts(html, &header_map);

    assert!(output.contains("id=\"my-custom-id\""));
    assert!(output.contains("href=\"#my-custom-id\""));
    assert!(!output.contains("heading-1"));
}

#[test]
fn test_sequential_header_ids() {
    let header_map = HeaderIdMap::new();
    let html = "<h1>First</h1><h2>Second</h2>";
    let output = postprocess_conflicts(html, &header_map);

    assert!(output.contains("id=\"heading-1\""));
    assert!(output.contains("id=\"heading-2\""));
}

#[test]
fn test_detect_triple_emphasis_conflict() {
    let input = "***Markdown*** and '''LukiWiki'''";
    let warnings = detect_ambiguous_syntax(input);
    assert!(!warnings.is_empty());
    assert!(warnings[0].contains("***text***"));
}

#[test]
fn test_detect_color_definition_conflict() {
    let input = "COLOR(red): text\n: definition";
    let warnings = detect_ambiguous_syntax(input);
    assert!(!warnings.is_empty());
    assert!(warnings[0].contains("COLOR()"));
}

#[test]
fn test_no_warnings_for_clean_syntax() {
    let input = "# Heading\n\n**Bold** and ''LukiWiki bold''";
    let warnings = detect_ambiguous_syntax(input);
    assert!(warnings.is_empty());
}

#[test]
fn both_warnings_in_order() {
    let warnings = detect_ambiguous_syntax("***a*** '''b'''\nCOLOR(red): x\n: y");
    assert_eq!(warnings.len(), 2);
    assert!(warnings[0].contains("***text***"));
    assert!(warnings[1].contains("COLOR()"));
    assert!(detect_ambiguous_syntax("****").is_empty());
}

#[test]
fn quote_round_trip_is_exact() {
    let (pre, _) = preprocess_conflicts("> quote <");
    assert_eq!(pre, "{{LUKIWIKI_BLOCKQUOTE:quote:LUKIWIKI_BLOCKQUOTE}}");
    let post = postprocess_conflicts(&pre, &HeaderIdMap::new());
    assert_eq!(post, "<blockquote class=\"lukiwiki\">quote</blockquote>");
}

#[test]
fn markdown_quote_passes_through() {
    let input = "> quote\n> more";
    let (pre, ids) = preprocess_conflicts(input);
    assert_eq!(pre, input);
    assert!(ids.ids.is_empty());
    assert_eq!(postprocess_conflicts(&pre, &ids), input);
}

#[test]
fn header_ids_count_all_headings() {
    let (pre, ids) = preprocess_conflicts("# First {#first}\n\n## Second");
    assert_eq!(pre, "# First\n\n## Second");
    assert_eq!(ids.ids.get(&1), Some(&"first".to_string()));
    assert_eq!(ids.ids.len(), 1);
    let html = postprocess_conflicts("<h1>First</h1>\n<h2>Second</h2>", &ids);
    assert_eq!(
        html,
        "<h1><a href=\"#first\" aria-hidden=\"true\" class=\"anchor\" id=\"first\"></a>First</h1>\n\
         <h2><a href=\"#heading-2\" aria-hidden=\"true\" class=\"anchor\" id=\"heading-2\"></a>Second</h2>"
    );
}

#[test]
fn later_heading_keeps_its_position() {
    let (_, ids) = preprocess_conflicts("# A\n## B {#bee}\ntext");
    assert_eq!(ids.ids.get(&1), None);
    assert_eq!(ids.ids.get(&2), Some(&"bee".to_string()));
}

#[test]
fn decoration_lines_are_wrapped_and_restored() {
    let (pre, ids) = preprocess_conflicts("COLOR(red): Red\nRIGHT: r\nplain");
    assert_eq!(
        pre,
        "{{BLOCK_DECORATION:COLOR(red): Red:BLOCK_DECORATION}}\n\
         {{BLOCK_DECORATION:RIGHT: r:BLOCK_DECORATION}}\nplain"
    );
    let post = postprocess_conflicts(
        "<p>{{BLOCK_DECORATION:COLOR(red): Red:BLOCK_DECORATION}}</p>",
        &ids,
    );
    assert_eq!(post, "<p style=\"color: red\">Red</p>");
}

#[test]
fn inline_plugin_token_carries_base64_content() {
    let (pre, _) = preprocess_conflicts("&hl(a\"b){x<y};");
    assert_eq!(pre, "{{INLINE_PLUGIN:hl:YSJi:eDx5:INLINE_PLUGIN}}");
    let post = postprocess_conflicts(&pre, &HeaderIdMap::new());
    assert_eq!(
        post,
        "<span class=\"plugin-hl\" data-args=\"a&quot;b\">x&lt;y</span>"
    );
}

#[test]
fn nested_plugin_survives_round_trip() {
    let (pre, ids) = preprocess_conflicts("&outer(a){text &inner(b){nested}; more};");
    let post = postprocess_conflicts(&pre, &ids);
    assert_eq!(
        post,
        "<span class=\"plugin-outer\" data-args=\"a\">text &inner(b){nested}; more</span>"
    );
}

#[test]
fn block_plugin_unwrapped_from_paragraph() {
    let (pre, _) = preprocess_conflicts("@box(x){{body}}");
    assert_eq!(pre, "{{BLOCK_PLUGIN:box:eA==:Ym9keQ==:BLOCK_PLUGIN}}");
    let rendered = format!("<p>{}</p>", pre);
    let post = postprocess_conflicts(&rendered, &HeaderIdMap::new());
    assert_eq!(post, "<div class=\"plugin-box\" data-args=\"x\">body</div>");
}

#[test]
fn malformed_payload_is_kept() {
    let post = postprocess_conflicts(
        "{{INLINE_PLUGIN:f::%%%:INLINE_PLUGIN}}",
        &HeaderIdMap::new(),
    );
    assert_eq!(post, "<span class=\"plugin-f\" data-args=\"\">%%%</span>");
}

#[test]
fn non_ascii_content_round_trip() {
    let (pre, ids) = preprocess_conflicts("@note(){{café ✓}}");
    assert!(!pre.contains("café"));
    let post = postprocess_conflicts(&pre, &ids);
    assert_eq!(post, "<div class=\"plugin-note\" data-args=\"\">café ✓</div>");
}

#[test]
fn argument_with_colon_round_trip() {
    let (pre, ids) = preprocess_conflicts("&f(a:b){c};");
    let post = postprocess_conflicts(&pre, &ids);
    assert_eq!(post, "<span class=\"plugin-f\" data-args=\"a:b\">c</span>");
}

#[test]
fn plugin_inside_decoration_token_is_left_alone() {
    let (pre, _) = preprocess_conflicts("COLOR(red): &f(a){x};");
    assert_eq!(pre, "{{BLOCK_DECORATION:COLOR(red): &f(a){x};:BLOCK_DECORATION}}");
    assert!(!pre.contains("{{INLINE_PLUGIN:"));
}

#[test]
fn unicode_plugin_name_round_trip() {
    let (pre, ids) = preprocess_conflicts("&café(x){y};");
    let post = postprocess_conflicts(&pre, &ids);
    assert_eq!(post, "<span class=\"plugin-café\" data-args=\"x\">y</span>");
}

#[test]
fn empty_and_indented_headings_are_counted() {
    let (_, ids) = preprocess_conflicts("#
# A {#a}
  ## B {#b}");
    assert_eq!(ids.ids.get(&1), None);
    assert_eq!(ids.ids.get(&2), Some(&"a".to_string()));
    assert_eq!(ids.ids.get(&3), Some(&"b".to_string()));
    let html = postprocess_conflicts("<h1></h1><h1>A</h1>", &ids);
    assert!(html.contains("id=\"heading-1\""));
    assert!(html.contains("id=\"a\""));
}

#[test]
fn decoration_token_in_a_shared_paragraph_is_restored() {
    let (pre, ids) = preprocess_conflicts("COLOR(red): a\nplain");
    let rendered = format!("<p>{}</p>", pre);
    let post = postprocess_conflicts(&rendered, &ids);
    assert_eq!(post, "<p><p style=\"color: red\">a</p>\nplain</p>");
    assert!(!post.contains("BLOCK_DECORATION"));
}
