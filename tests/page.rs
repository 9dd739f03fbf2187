use markzap::escape::escape_template;
use markzap::page::{
    generate_presentation_html, MARKDOWN_PLUGIN_URL, REVEAL_CSS_URL, REVEAL_JS_URL,
    THEME_CSS_URL,
};
use markzap::slides::slide_parts;

fn embedded(page: &str) -> &str {
    let start = page.find("const markdown = `").unwrap() + "const markdown = `".len();
    let end = page.find("`;\n        const parts").unwrap();
    &page[start..end]
}

#[test]
fn page_names_library_for_any_input() {
    for md in ["", "# Hi", "a\n---\nb", "`${x}` </script> \\"] {
        let page = generate_presentation_html(md);
        assert!(page.contains("RevealMarkdown"));
        assert!(page.contains("data-markdown"));
        assert!(page.contains("https://cdn.jsdelivr.net/npm/reveal.js@5/dist/reveal.css"));
        assert!(page.contains("https://cdn.jsdelivr.net/npm/reveal.js@5/dist/theme/white.css"));
        assert!(page.contains("https://cdn.jsdelivr.net/npm/reveal.js@5/dist/reveal.js"));
        assert!(page
            .contains("https://cdn.jsdelivr.net/npm/reveal.js@5/plugin/markdown/markdown.js"));
        assert!(page.contains(REVEAL_CSS_URL));
        assert!(page.contains(THEME_CSS_URL));
        assert!(page.contains(REVEAL_JS_URL));
        assert!(page.contains(MARKDOWN_PLUGIN_URL));
    }
}

#[test]
fn page_structure() {
    let page = generate_presentation_html("# Hi");
    assert!(page.starts_with("<!DOCTYPE html>\n<html>\n<head>\n    <meta charset=\"utf-8\">"));
    assert!(page.ends_with("</body>\n</html>"));
    assert!(page.contains("<div class=\"slides\" id=\"slides\"></div>"));
    assert!(page.contains("const parts = markdown.split(/\\n---\\n/);"));
    assert!(page.contains("hash: true,\n            controls: true,\n            progress: true,"));
    assert!(page.contains("body { margin: 0; padding: 0; overflow: hidden; }"));
    assert_eq!(embedded(&page), "# Hi");
}

#[test]
fn empty_markdown_embeds_empty_constant() {
    let page = generate_presentation_html("");
    assert!(page.contains("const markdown = ``;"));
}

#[test]
fn backticks_are_escaped() {
    let page = generate_presentation_html("use `code` here");
    let body = embedded(&page);
    assert_eq!(body, "use \\`code\\` here");
    let bytes = body.as_bytes();
    for (i, b) in bytes.iter().enumerate() {
        if *b == b'`' {
            assert!(i > 0 && bytes[i - 1] == b'\\');
        }
    }
}

#[test]
fn script_close_is_escaped() {
    let md = "<script>alert(1)</script> and </script>";
    let page = generate_presentation_html(md);
    let body = embedded(&page);
    assert!(!body.contains("</script>"));
    assert_eq!(body, "<script>alert(1)<\\/script> and <\\/script>");
    // Only the page's own closing tags remain.
    assert_eq!(page.matches("</script>").count(), 3);
}

#[test]
fn escape_rules() {
    assert_eq!(escape_template("a\\b"), "a\\\\b");
    assert_eq!(escape_template("`"), "\\`");
    assert_eq!(escape_template("${x}"), "\\${x}");
    assert_eq!(escape_template("$ {x} $"), "$ {x} $");
    assert_eq!(escape_template("</script>"), "<\\/script>");
    assert_eq!(escape_template("</scrip>"), "</scrip>");
    assert_eq!(escape_template("\\`"), "\\\\\\`");
    assert_eq!(escape_template("\\${"), "\\\\\\${");
    assert_eq!(escape_template("<</script>"), "<<\\/script>");
    assert_eq!(escape_template("héllo — ✓"), "héllo — ✓");
    assert_eq!(escape_template(""), "");
}

#[test]
fn escape_matches_replacement_chain() {
    for md in ["a\\`b${c}</script>\\${", "``$${{</script></script>", "x\\\\y", "<\\/script>"] {
        let chained = md
            .replace('\\', "\\\\")
            .replace('`', "\\`")
            .replace("${", "\\${")
            .replace("</script>", "<\\/script>");
        assert_eq!(escape_template(md), chained);
    }
}

#[test]
fn splits_into_three_slides() {
    let parts = slide_parts("A\n---\nB\n\n\n---\nC");
    assert_eq!(parts, vec!["A".to_string(), "B".to_string(), "C".to_string()]);
    let page = generate_presentation_html("A\n---\nB\n\n\n---\nC");
    assert_eq!(embedded(&page), "A\n---\nB\n\n\n---\nC");
}

#[test]
fn splits_into_two_slides() {
    let parts = slide_parts("# One\n---\n# Two\n");
    assert_eq!(parts, vec!["# One".to_string(), "# Two".to_string()]);
}

#[test]
fn blank_parts_are_dropped() {
    assert_eq!(slide_parts("\n---\n  \n---\nX\n---\n"), vec!["X".to_string()]);
    assert_eq!(slide_parts(""), Vec::<String>::new());
    assert_eq!(slide_parts("   \n\t"), Vec::<String>::new());
    assert_eq!(slide_parts("  only  "), vec!["only".to_string()]);
}

#[test]
fn separator_needs_newlines_on_both_sides() {
    assert_eq!(slide_parts("A\n--- \nB"), vec!["A\n--- \nB".to_string()]);
    assert_eq!(slide_parts("A\n---\n---\nB"), vec!["A".to_string(), "---\nB".to_string()]);
}
