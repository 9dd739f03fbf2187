use markzap::slidev::{detect_presentation, frontmatter_has_keyword};

#[test]
fn frontmatter_theme_is_a_deck() {
    assert!(detect_presentation("---\ntheme: seriph\n---\n# Hi"));
}

#[test]
fn frontmatter_without_keyword_is_not_a_deck() {
    assert!(!detect_presentation("---\nauthor: me\n---\n# Hi"));
}

#[test]
fn three_separators_make_a_deck() {
    assert!(detect_presentation("# A\n\n---\n\n# B\n\n---\n\n# C\n---\n"));
    assert!(detect_presentation("# A\n\n---\n\n# B\n\n---\n\n# C\n\n---"));
}

#[test]
fn two_separators_and_an_opening_one() {
    // The opening line counts as a separator too: three in all.
    assert!(detect_presentation("---\n# A\n\n---\n\n# B\n\n---\n\n# C"));
}

#[test]
fn two_separators_are_not_enough() {
    assert!(!detect_presentation("# A\n\n---\n\n# B\n\n---\n\n# C"));
    assert!(!detect_presentation("# A\n---\n# B\n---\n"));
}

#[test]
fn plain_text_is_not_a_deck() {
    assert!(!detect_presentation(""));
    assert!(!detect_presentation("# Title\n\nSome text.\n"));
    assert!(!detect_presentation("a --- b\n--- x\n----\n"));
}

#[test]
fn separators_may_carry_whitespace() {
    assert!(detect_presentation("  ---  \n\t---\r\n---\u{3000}\n"));
    assert!(detect_presentation("a\r\n---\r\nb\r\n---\r\nc\r\n---\r\n"));
}

#[test]
fn keyword_match_ignores_case() {
    assert!(detect_presentation("---\nTHEME: default\n---\n# Hi"));
    assert!(detect_presentation("---\nLayout: cover\n---\n"));
    assert!(detect_presentation("---\nClass: text-center\n---\n"));
    assert!(detect_presentation("---\ntitle: SlideV deck\n---\n"));
}

#[test]
fn keyword_after_closing_marker_does_not_count() {
    assert!(!detect_presentation("---\nauthor: me\n---\ntheme: x\n"));
}

#[test]
fn unclosed_frontmatter_falls_through() {
    assert!(!detect_presentation("---\ntheme: seriph\n# Hi"));
    assert!(detect_presentation("---\ntheme: seriph\n# Hi\n---x\n---\n  ---\n"));
}

#[test]
fn closing_marker_may_stand_mid_line() {
    assert!(detect_presentation("---theme:---"));
    assert!(!detect_presentation("---author---theme:"));
}

#[test]
fn keyword_check_on_lowered_text() {
    assert!(frontmatter_has_keyword("\ntheme: seriph\n"));
    assert!(frontmatter_has_keyword("class:"));
    assert!(frontmatter_has_keyword("x layout: y"));
    assert!(frontmatter_has_keyword("my slidev deck"));
    assert!(!frontmatter_has_keyword("THEME:"));
    assert!(!frontmatter_has_keyword("theme = x"));
    assert!(!frontmatter_has_keyword(""));
}
