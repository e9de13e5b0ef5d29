use lukiwiki_parser::inline_decorations::apply_inline_decorations;

#[test]
fn test_inline_color_foreground() {
    let input = "This is &color(red){red text};";
    let output = apply_inline_decorations(input);
    assert!(output.contains("<span style=\"color: red\">red text</span>"));
}

#[test]
fn test_inline_color_background() {
    let input = "&color(,yellow){yellow bg};";
    let output = apply_inline_decorations(input);
    assert!(output.contains("<span style=\"background-color: yellow\">yellow bg</span>"));
}

#[test]
fn test_inline_color_both() {
    let input = "&color(white,black){white on black};";
    let output = apply_inline_decorations(input);
    assert!(output.contains("color: white"));
    assert!(output.contains("background-color: black"));
}

#[test]
fn test_inline_size() {
    let input = "&size(1.5){larger};";
    let output = apply_inline_decorations(input);
    assert!(output.contains("<span style=\"font-size: 1.5rem\">larger</span>"));
}

#[test]
fn test_inline_sup() {
    let input = "x&sup(2);";
    let output = apply_inline_decorations(input);
    assert_eq!(output, "x<sup>2</sup>;");
}

#[test]
fn test_inline_sub() {
    let input = "H&sub(2);O";
    let output = apply_inline_decorations(input);
    assert_eq!(output, "H<sub>2</sub>;O");
}

#[test]
fn test_inline_lang() {
    let input = "&lang(en){Hello};";
    let output = apply_inline_decorations(input);
    assert_eq!(output, "<span lang=\"en\">Hello</span>;");
}

#[test]
fn test_inline_abbr() {
    let input = "&abbr(HTML){HyperText Markup Language};";
    let output = apply_inline_decorations(input);
    assert_eq!(
        output,
        "<abbr title=\"HyperText Markup Language\">HTML</abbr>;"
    );
}

#[test]
fn test_multiple_inline_decorations() {
    let input = "&color(red){Red}; and &size(2){Big}; and &sup(superscript);";
    let output = apply_inline_decorations(input);
    assert!(output.contains("color: red"));
    assert!(output.contains("font-size: 2rem"));
    assert!(output.contains("<sup>superscript</sup>"));
}

#[test]
fn inline_color_inherit_gives_bare_text() {
    assert_eq!(apply_inline_decorations("a &color(inherit, ){t}; b"), "a t b");
    assert_eq!(
        apply_inline_decorations("&color(white,black){w};"),
        "<span style=\"color: white; background-color: black\">w</span>"
    );
}

#[test]
fn incomplete_inline_functions_stay() {
    assert_eq!(apply_inline_decorations("&sup();"), "&sup();");
    assert_eq!(apply_inline_decorations("&size(2){};"), "&size(2){};");
    assert_eq!(apply_inline_decorations("&lang(en){x}"), "&lang(en){x}");
}
