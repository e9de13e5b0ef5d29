use lukiwiki_parser::plugins::apply_plugin_syntax;

#[test]
fn test_simple_plugin() {
    let input = "@toc(2){{ }}";
    let output = apply_plugin_syntax(input);
    assert!(output.contains("class=\"plugin-toc\""));
    assert!(output.contains("data-args=\"2\""));
}

#[test]
fn test_plugin_with_complex_args() {
    let input = "@calendar(2024,1,true){{ }}";
    let output = apply_plugin_syntax(input);
    assert!(output.contains("plugin-calendar"));
    assert!(output.contains("data-args=\"2024,1,true\""));
}

#[test]
fn test_plugin_no_args() {
    let input = "@timestamp(){{ }}";
    let output = apply_plugin_syntax(input);
    assert!(output.contains("plugin-timestamp"));
    assert!(output.contains("data-args=\"\""));
}

#[test]
fn test_plugin_with_content() {
    let input = "@code(rust){{ fn main() {} }}";
    let output = apply_plugin_syntax(input);
    assert!(output.contains("plugin-code"));
    assert!(output.contains("data-args=\"rust\""));
    assert!(output.contains("fn main()"));
}

#[test]
fn test_multiple_plugins() {
    let input = "@toc(2){{ }} and @timestamp(){{ }}";
    let output = apply_plugin_syntax(input);
    assert!(output.contains("plugin-toc"));
    assert!(output.contains("plugin-timestamp"));
}

#[test]
fn test_no_plugin() {
    let input = "This is normal text with @mention but not @plugin()";
    let output = apply_plugin_syntax(input);
    assert_eq!(output, input);
}

#[test]
fn test_inline_plugin() {
    let input = "&highlight(yellow){important text};";
    let output = apply_plugin_syntax(input);
    assert!(output.contains("class=\"plugin-highlight\""));
    assert!(output.contains("data-args=\"yellow\""));
    assert!(output.contains("important text"));
    assert!(output.contains("<span"));
}

#[test]
fn test_block_plugin_singleline() {
    let input = "@include(file.txt){default content}";
    let output = apply_plugin_syntax(input);
    assert!(output.contains("class=\"plugin-include\""));
    assert!(output.contains("data-args=\"file.txt\""));
    assert!(output.contains("default content"));
}

#[test]
fn test_nested_plugins() {
    let input = "&outer(arg1){text &inner(arg2){nested}; more};";
    let output = apply_plugin_syntax(input);
    assert!(output.contains("class=\"plugin-outer\""));
    assert!(output.contains("&inner"));
}

#[test]
fn test_plugin_with_wiki_syntax() {
    let input = "@box(){{ **bold** and text }}";
    let output = apply_plugin_syntax(input);
    assert!(output.contains("class=\"plugin-box\""));
    assert!(output.contains("**bold**"));
}

#[test]
fn test_mixed_plugin_types() {
    let input = "@block(){{ content }} and &inline(arg){text}; mixed";
    let output = apply_plugin_syntax(input);
    assert!(output.contains("plugin-block"));
    assert!(output.contains("plugin-inline"));
}

#[test]
fn block_container_exact_form() {
    assert_eq!(
        apply_plugin_syntax("@note(a<b){{x > y}}"),
        "\n<div class=\"plugin-note\" data-args=\"a&lt;b\">x &gt; y\n</div>\n"
    );
}

#[test]
fn inline_container_exact_form() {
    assert_eq!(
        apply_plugin_syntax("&tag(\"q\" & r){a & b};"),
        "<span class=\"plugin-tag\" data-args=\"&quot;q&quot; &amp; r\">a & b</span>"
    );
}

#[test]
fn deeper_nesting_is_not_a_plugin() {
    let input = "&f(x){a {b {c}} d};";
    assert_eq!(apply_plugin_syntax(input), input);
}

#[test]
fn unbalanced_group_is_not_a_plugin() {
    let input = "&f(x){a {b {c} d};";
    assert_eq!(apply_plugin_syntax(input), input);
}

#[test]
fn unicode_names_are_plugins() {
    assert_eq!(
        apply_plugin_syntax("&日本(a){b};"),
        "<span class=\"plugin-日本\" data-args=\"a\">b</span>"
    );
}
