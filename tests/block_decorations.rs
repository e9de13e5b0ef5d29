use lukiwiki_parser::block_decorations::{
    apply_block_decorations, text_align_class, vertical_align_class,
};

#[test]
fn test_color_bootstrap_class() {
    let input = "COLOR(primary): Primary text";
    let output = apply_block_decorations(input);
    assert!(output.contains("class=\"text-primary\""));
    assert!(output.contains("Primary text"));
}

#[test]
fn test_color_custom_value() {
    let input = "COLOR(#FF0000): Custom red";
    let output = apply_block_decorations(input);
    assert!(output.contains("style=\"color: #FF0000\""));
}

#[test]
fn test_size_bootstrap_class() {
    let input = "SIZE(1.5): Medium text";
    let output = apply_block_decorations(input);
    assert!(output.contains("class=\"fs-4\""));
}

#[test]
fn test_size_custom_value() {
    let input = "SIZE(3rem): Custom size";
    let output = apply_block_decorations(input);
    assert!(output.contains("style=\"font-size: 3rem\""));
}

#[test]
fn test_text_align() {
    let input = "CENTER: Centered text";
    let output = apply_block_decorations(input);
    assert!(output.contains("class=\"text-center\""));
}

#[test]
fn test_truncate() {
    let input = "TRUNCATE: Long text that will be truncated";
    let output = apply_block_decorations(input);
    assert!(output.contains("class=\"text-truncate\""));
}

#[test]
fn test_compound_decorations() {
    let input = "SIZE(1.5): COLOR(primary): CENTER: Styled text";
    let output = apply_block_decorations(input);
    assert!(output.contains("fs-4"));
    assert!(output.contains("text-primary"));
    assert!(output.contains("text-center"));
    assert!(output.contains("Styled text"));
}

#[test]
fn test_vertical_align() {
    let input = "TOP: Top aligned";
    let output = apply_block_decorations(input);
    assert!(output.contains("class=\"align-top\""));
}

#[test]
fn test_compound_with_truncate() {
    let input = "TRUNCATE: RIGHT: Truncated right text";
    let output = apply_block_decorations(input);
    assert!(output.contains("text-truncate"));
    assert!(output.contains("text-end"));
}

#[test]
fn color_inherit_is_dropped() {
    assert_eq!(apply_block_decorations("COLOR(,inherit): text"), "<p>text</p>");
    assert_eq!(apply_block_decorations("COLOR(inherit): text"), "<p>text</p>");
}

#[test]
fn compound_decoration_order_is_fixed() {
    assert_eq!(
        apply_block_decorations("SIZE(1.5): COLOR(primary): CENTER: Styled text"),
        "<p class=\"text-center fs-4 text-primary\">Styled text</p>"
    );
}

#[test]
fn classes_and_styles_together() {
    assert_eq!(
        apply_block_decorations("SIZE(2.2): COLOR(red,warning): JUSTIFY: x"),
        "<p class=\"text-justify bg-warning\" style=\"font-size: 2.2rem; color: red\">x</p>"
    );
}

#[test]
fn every_canonical_size() {
    let cases = [
        ("2.5", "fs-1"),
        ("2", "fs-2"),
        ("2.0", "fs-2"),
        ("1.75", "fs-3"),
        ("1.5", "fs-4"),
        ("1.25", "fs-5"),
        ("0.875", "fs-6"),
    ];
    for (v, class) in cases {
        let out = apply_block_decorations(&format!("SIZE({}): t", v));
        assert_eq!(out, format!("<p class=\"{}\">t</p>", class));
    }
    assert_eq!(
        apply_block_decorations("SIZE(12px): t"),
        "<p style=\"font-size: 12px\">t</p>"
    );
}

#[test]
fn palette_variants_and_background() {
    assert_eq!(
        apply_block_decorations("COLOR(body-secondary,primary-subtle): t"),
        "<p class=\"text-body-secondary bg-primary-subtle\">t</p>"
    );
    assert_eq!(
        apply_block_decorations("COLOR(, #00ff00): t"),
        "<p style=\"background-color: #00ff00\">t</p>"
    );
}

#[test]
fn vertical_and_horizontal_keywords() {
    assert_eq!(
        apply_block_decorations("BOTTOM: LEFT: t"),
        "<p class=\"text-start align-bottom\">t</p>"
    );
    assert_eq!(
        apply_block_decorations("MIDDLE: t"),
        "<p class=\"align-middle\">t</p>"
    );
    assert_eq!(
        apply_block_decorations("BASELINE: t"),
        "<p class=\"align-baseline\">t</p>"
    );
}

#[test]
fn undecorated_lines_are_kept() {
    assert_eq!(apply_block_decorations("plain\r\n  CENTER: no\n\n"), "plain\n  CENTER: no");
    assert_eq!(apply_block_decorations(""), "");
    assert_eq!(
        apply_block_decorations("a\nRIGHT: b\nc"),
        "a\n<p class=\"text-end\">b</p>\nc"
    );
}

#[test]
fn prefixes_only_at_the_start() {
    assert_eq!(
        apply_block_decorations("CENTER: see TOP: x"),
        "<p class=\"text-center\">see TOP: x</p>"
    );
    assert_eq!(
        apply_block_decorations("COLOR(red): go RIGHT: now"),
        "<p style=\"color: red\">go RIGHT: now</p>"
    );
}

#[test]
fn only_listed_palette_suffixes_are_classes() {
    assert_eq!(
        apply_block_decorations("COLOR(primary-foo): t"),
        "<p style=\"color: primary-foo\">t</p>"
    );
    assert_eq!(
        apply_block_decorations("COLOR(danger-emphasis,body-tertiary): t"),
        "<p class=\"text-danger-emphasis bg-body-tertiary\">t</p>"
    );
}

#[test]
fn body_colors_take_suffixes() {
    assert_eq!(
        apply_block_decorations("COLOR(body-subtle,body-secondary-emphasis): t"),
        "<p class=\"text-body-subtle bg-body-secondary-emphasis\">t</p>"
    );
}

#[test]
fn alignment_classes_of_capital_keywords() {
    assert_eq!(text_align_class("RIGHT"), "text-end");
    assert_eq!(text_align_class("JUSTIFY"), "text-justify");
    assert_eq!(text_align_class("right"), "text-start");
    assert_eq!(vertical_align_class("MIDDLE"), "align-middle");
    assert_eq!(vertical_align_class("x"), "align-baseline");
}
