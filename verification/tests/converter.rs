use termula::converter::{cache_key, convert_inline, raw_delimiter};

#[test]
fn test_raw_delimiter() {
    assert_eq!(raw_delimiter("hello"), "`");
    assert_eq!(raw_delimiter("has ` backtick"), "``");
    assert_eq!(raw_delimiter("has `` double"), "```");
}

#[test]
fn test_cache_key_deterministic() {
    let k1 = cache_key("\\frac{a}{b}", true);
    let k2 = cache_key("\\frac{a}{b}", true);
    let k3 = cache_key("\\frac{a}{b}", false);
    assert_eq!(k1, k2);
    assert_ne!(k1, k3);
}

#[test]
fn test_convert_inline_greek() {
    let result = convert_inline("\\alpha + \\beta");
    assert!(result.contains("α"), "should contain alpha: {}", result);
    assert!(result.contains("β"), "should contain beta: {}", result);
}

#[test]
fn test_convert_inline_frac() {
    let result = convert_inline("\\frac{a}{b}");
    assert!(
        result.contains("a") && result.contains("b"),
        "should contain a and b: {}",
        result
    );
    assert!(
        result.contains("/"),
        "should contain fraction slash: {}",
        result
    );
}

#[test]
fn test_convert_inline_superscript() {
    let result = convert_inline("x^2");
    assert!(
        result.contains("²"),
        "should contain superscript 2: {}",
        result
    );
}

#[test]
fn test_convert_inline_subscript() {
    let result = convert_inline("x_0");
    assert!(
        result.contains("₀"),
        "should contain subscript 0: {}",
        result
    );
}

#[test]
fn test_convert_inline_operators() {
    let result = convert_inline("\\sum \\int \\infty");
    assert!(result.contains("∑"), "should contain sum: {}", result);
    assert!(result.contains("∫"), "should contain integral: {}", result);
    assert!(result.contains("∞"), "should contain infinity: {}", result);
}
use termula::converter::{convert_to_image, fit_unicode_art, typst_document};

#[test]
fn convert_inline_exact_results() {
    assert_eq!(convert_inline("\\frac{a}{b}"), "a/b");
    assert_eq!(convert_inline("\\frac{\\frac{a}{b}}{c}"), "a/b/c");
    assert_eq!(convert_inline("\\frac{a}"), "\\fraca");
    assert_eq!(convert_inline("x^{2+1}"), "x²⁺¹");
    assert_eq!(convert_inline("a_{ij}"), "aᵢⱼ");
    assert_eq!(convert_inline("\\mathbb{R} \\leq \\le \\infty"), "ℝ ≤ ≤ ∞");
    assert_eq!(convert_inline("{x}+{y{z}}"), "x+y{z}");
    assert_eq!(convert_inline("x^a"), "x^a");
    assert_eq!(convert_inline("x^{a"), "x^{a");
    assert_eq!(convert_inline("\\unknown"), "\\unknown");
    assert_eq!(convert_inline("  plain text  "), "plain text");
    assert_eq!(convert_inline("\\alpha_1^2"), "α₁²");
}

#[test]
fn raw_delimiter_is_absent_from_content() {
    for content in ["", "a", "`", "``", "a```b`", "````"] {
        let d = raw_delimiter(content);
        assert!(!content.contains(&d));
        assert!(d.chars().all(|c| c == '`'));
        let shorter = "`".repeat(d.len() - 1);
        assert!(d.len() == 1 || content.contains(&shorter));
    }
}

#[test]
fn typst_document_text() {
    let doc = typst_document("x`y", true);
    assert_eq!(
        doc,
        "#import \"@preview/mitex:0.2.5\": *\n\n#set page(width: auto, height: auto, margin: (x: 4pt, y: 4pt), fill: rgb(\"1e1e1e\"))\n#set text(fill: white, size: 14pt)\n\n#mitex(``x`y``)\n"
    );
    let doc = typst_document("a", false);
    assert!(doc.contains("fill: rgb(\"ffffff\")"));
    assert!(doc.contains("#set text(fill: black, size: 14pt)"));
    assert!(doc.ends_with("#mitex(`a`)\n"));
}

#[test]
fn cache_key_is_sixteen_hex_digits() {
    let k = cache_key("x^2", false);
    assert_eq!(k.len(), 16);
    assert!(k.chars().all(|c| c.is_ascii_hexdigit() && !c.is_ascii_uppercase()));
    assert_ne!(cache_key("x^2", false), cache_key("x^3", false));
}

#[test]
fn image_plan_follows_cache_setting() {
    let plan = convert_to_image("\\frac{1}{2}", true, false);
    assert_eq!(plan.cache_key, Some(cache_key("\\frac{1}{2}", true)));
    assert_eq!(plan.document, typst_document("\\frac{1}{2}", true));
    let plan = convert_to_image("\\frac{1}{2}", true, true);
    assert_eq!(plan.cache_key, None);
}

#[test]
fn fit_unicode_art_trims_and_truncates() {
    assert_eq!(fit_unicode_art("ab\r\ncdef\n  \n", None), "ab\r\ncdef");
    assert_eq!(fit_unicode_art("ab\r\ncdef\n  \n", Some(2)), "ab\ncd");
    assert_eq!(fit_unicode_art("αβγ\n\nx", Some(2)), "αβ\n\nx");
    assert_eq!(fit_unicode_art("\n\n", Some(3)), "");
    assert_eq!(fit_unicode_art("abc", Some(0)), "");
}
