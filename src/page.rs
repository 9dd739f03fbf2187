//! The self-contained presentation page built around a markdown document.

use vstd::prelude::*;

use crate::escape::{
    escape, escape_template, lemma_escape_has_no_script_close, lemma_escape_is_literal_safe,
    lemma_escape_round_trip, literal_safe, script_close, unescape,
};
use crate::text::{contains, occurs_at, push_char};

verus! {

/// Stylesheet of the slideshow library.
pub const REVEAL_CSS_URL: &'static str = "https://cdn.jsdelivr.net/npm/reveal.js@5/dist/reveal.css";

/// The library's "white" theme.
pub const THEME_CSS_URL: &'static str = "https://cdn.jsdelivr.net/npm/reveal.js@5/dist/theme/white.css";

/// Core script of the slideshow library.
pub const REVEAL_JS_URL: &'static str = "https://cdn.jsdelivr.net/npm/reveal.js@5/dist/reveal.js";

/// The library's markdown plugin.
pub const MARKDOWN_PLUGIN_URL: &'static str =
    "https://cdn.jsdelivr.net/npm/reveal.js@5/plugin/markdown/markdown.js";

/// The attribute that marks a slide section as markdown.
pub const MARKDOWN_ATTRIBUTE: &'static str = "data-markdown";

/// The name under which the markdown plugin is registered.
pub const MARKDOWN_PLUGIN_NAME: &'static str = "RevealMarkdown";

/// The document head, up to the first stylesheet's address.
pub const HEAD_OPEN: &'static str = r#"<!DOCTYPE html>
<html>
<head>
    <meta charset="utf-8">
    <meta name="viewport" content="width=device-width, initial-scale=1">
    <title>MarkZap Presentation</title>
    <link rel="stylesheet" href=""#;

/// Between the two stylesheet addresses.
pub const THEME_LINK: &'static str = r#"">
    <link rel="stylesheet" href=""#;

/// The inline style and the slide containers, up to the library script's address.
pub const BODY_OPEN: &'static str = r#"">
    <style>
        body { margin: 0; padding: 0; overflow: hidden; }
        .reveal { height: 100vh; }
    </style>
</head>
<body>
    <div class="reveal">
        <div class="slides" id="slides"></div>
    </div>
    <script src=""#;

/// Between the library script's address and the plugin's.
pub const PLUGIN_SCRIPT: &'static str = r#""></script>
    <script src=""#;

/// The start of the bootstrap script, up to the markdown constant's opening backtick.
pub const SCRIPT_OPEN: &'static str = r#""></script>
    <script>
        const markdown = "#;

/// The loop that makes one slide section per non-blank part, up to the section's attribute.
pub const SPLIT_SCRIPT: &'static str = r#";
        const parts = markdown.split(/\n---\n/);
        const container = document.getElementById('slides');
        for (const part of parts) {
            const trimmed = part.trim();
            if (!trimmed) continue;
            const section = document.createElement('section');
            section.setAttribute('"#;

/// The rest of the slide loop, up to the plugin list of the library's initialisation.
pub const SECTION_SCRIPT: &'static str = r#"', '');
            const textarea = document.createElement('textarea');
            textarea.setAttribute('data-template', '');
            textarea.textContent = trimmed;
            section.appendChild(textarea);
            container.appendChild(section);
        }
        Reveal.initialize({
            plugins: ["#;

/// The initialisation options and the end of the document.
pub const PAGE_CLOSE: &'static str = r#"],
            hash: true,
            controls: true,
            progress: true,
        });
    </script>
</body>
</html>"#;

/// Everything of the page before the embedded markdown, up to and including the
/// backtick that opens the template literal.
pub open spec fn page_head() -> Seq<char> {
    HEAD_OPEN@ + REVEAL_CSS_URL@ + THEME_LINK@ + THEME_CSS_URL@ + BODY_OPEN@ + REVEAL_JS_URL@
        + PLUGIN_SCRIPT@ + MARKDOWN_PLUGIN_URL@ + SCRIPT_OPEN@ + seq!['`']
}

/// Everything of the page after the embedded markdown, from the backtick that closes the
/// template literal on.
pub open spec fn page_tail() -> Seq<char> {
    seq!['`'] + SPLIT_SCRIPT@ + MARKDOWN_ATTRIBUTE@ + SECTION_SCRIPT@ + MARKDOWN_PLUGIN_NAME@
        + PAGE_CLOSE@
}

/// The presentation page for the markdown `md`.
pub open spec fn presentation_page(md: Seq<char>) -> Seq<char> {
    page_head() + escape(md) + page_tail()
}

/// Builds a self-contained HTML page that shows `markdown_content` as slides.
///
/// The markdown is escaped and embedded in a script constant; the page loads the
/// slideshow library and its markdown plugin, splits the constant on separator lines,
/// makes one slide of each non-blank part, and starts the show with hash navigation,
/// controls and a progress bar.
pub fn generate_presentation_html(markdown_content: &str) -> (r: String)
    ensures
        r@ == presentation_page(markdown_content@),
{
    let escaped = escape_template(markdown_content);
    let mut r = String::new();
    r.append(HEAD_OPEN);
    r.append(REVEAL_CSS_URL);
    r.append(THEME_LINK);
    r.append(THEME_CSS_URL);
    r.append(BODY_OPEN);
    r.append(REVEAL_JS_URL);
    r.append(PLUGIN_SCRIPT);
    r.append(MARKDOWN_PLUGIN_URL);
    r.append(SCRIPT_OPEN);
    push_char(&mut r, '`');
    assert(r@ =~= page_head());
    r.append(escaped.as_str());
    push_char(&mut r, '`');
    r.append(SPLIT_SCRIPT);
    r.append(MARKDOWN_ATTRIBUTE);
    r.append(SECTION_SCRIPT);
    r.append(MARKDOWN_PLUGIN_NAME);
    r.append(PAGE_CLOSE);
    assert(r@ =~= presentation_page(markdown_content@));
    r
}

} // verus!

verus! {

proof fn lemma_contains_end(a: Seq<char>, u: Seq<char>)
    ensures
        contains(a + u, u),
{
    assert((a + u).subrange(a.len() as int, (a.len() + u.len()) as int) =~= u);
    assert(occurs_at(a + u, u, a.len() as int));
}

proof fn lemma_contains_extend(a: Seq<char>, b: Seq<char>, u: Seq<char>)
    requires
        contains(a, u),
    ensures
        contains(a + b, u),
        contains(b + a, u),
{
    let i = choose|i: int| occurs_at(a, u, i);
    assert((a + b).subrange(i, i + u.len()) =~= a.subrange(i, i + u.len()));
    assert(occurs_at(a + b, u, i));
    assert((b + a).subrange(b.len() + i, b.len() + i + u.len()) =~= a.subrange(i, i + u.len()));
    assert(occurs_at(b + a, u, b.len() + i));
}

/// What the page holds whatever the markdown is.
proof fn lemma_head_and_tail_contain(u: Seq<char>)
    requires
        u == REVEAL_CSS_URL@ || u == THEME_CSS_URL@ || u == REVEAL_JS_URL@ || u
            == MARKDOWN_PLUGIN_URL@ || u == MARKDOWN_ATTRIBUTE@ || u == MARKDOWN_PLUGIN_NAME@,
    ensures
        u == MARKDOWN_ATTRIBUTE@ || u == MARKDOWN_PLUGIN_NAME@ ==> contains(page_tail(), u),
        !(u == MARKDOWN_ATTRIBUTE@ || u == MARKDOWN_PLUGIN_NAME@) ==> contains(page_head(), u),
{
    let h1 = HEAD_OPEN@ + REVEAL_CSS_URL@;
    let h2 = h1 + THEME_LINK@;
    let h3 = h2 + THEME_CSS_URL@;
    let h4 = h3 + BODY_OPEN@;
    let h5 = h4 + REVEAL_JS_URL@;
    let h6 = h5 + PLUGIN_SCRIPT@;
    let h7 = h6 + MARKDOWN_PLUGIN_URL@;
    let h8 = h7 + SCRIPT_OPEN@;
    let t1 = seq!['`'] + SPLIT_SCRIPT@;
    let t2 = t1 + MARKDOWN_ATTRIBUTE@;
    let t3 = t2 + SECTION_SCRIPT@;
    let t4 = t3 + MARKDOWN_PLUGIN_NAME@;
    if u == REVEAL_CSS_URL@ {
        lemma_contains_end(HEAD_OPEN@, u);
        lemma_contains_extend(h1, THEME_LINK@, u);
        lemma_contains_extend(h2, THEME_CSS_URL@, u);
        lemma_contains_extend(h3, BODY_OPEN@, u);
        lemma_contains_extend(h4, REVEAL_JS_URL@, u);
    } else if u == THEME_CSS_URL@ {
        lemma_contains_end(h2, u);
        lemma_contains_extend(h3, BODY_OPEN@, u);
        lemma_contains_extend(h4, REVEAL_JS_URL@, u);
    } else if u == REVEAL_JS_URL@ {
        lemma_contains_end(h4, u);
    }
    if u == REVEAL_CSS_URL@ || u == THEME_CSS_URL@ || u == REVEAL_JS_URL@ {
        lemma_contains_extend(h5, PLUGIN_SCRIPT@, u);
        lemma_contains_extend(h6, MARKDOWN_PLUGIN_URL@, u);
    } else if u == MARKDOWN_PLUGIN_URL@ {
        lemma_contains_end(h6, u);
    }
    if !(u == MARKDOWN_ATTRIBUTE@ || u == MARKDOWN_PLUGIN_NAME@) {
        lemma_contains_extend(h7, SCRIPT_OPEN@, u);
        lemma_contains_extend(h8, seq!['`'], u);
    }
    if u == MARKDOWN_ATTRIBUTE@ {
        lemma_contains_end(t1, u);
        lemma_contains_extend(t2, SECTION_SCRIPT@, u);
        lemma_contains_extend(t3, MARKDOWN_PLUGIN_NAME@, u);
    } else if u == MARKDOWN_PLUGIN_NAME@ {
        lemma_contains_end(t3, u);
    }
    if u == MARKDOWN_ATTRIBUTE@ || u == MARKDOWN_PLUGIN_NAME@ {
        lemma_contains_extend(t4, PAGE_CLOSE@, u);
    }
}

/// Whatever the markdown, the page links both stylesheets, loads the library and its
/// markdown plugin, marks slides with `data-markdown` and registers `RevealMarkdown`.
pub proof fn lemma_page_names_library(md: Seq<char>)
    ensures
        contains(presentation_page(md), REVEAL_CSS_URL@),
        contains(presentation_page(md), THEME_CSS_URL@),
        contains(presentation_page(md), REVEAL_JS_URL@),
        contains(presentation_page(md), MARKDOWN_PLUGIN_URL@),
        contains(presentation_page(md), MARKDOWN_ATTRIBUTE@),
        contains(presentation_page(md), MARKDOWN_PLUGIN_NAME@),
{
    let h = page_head();
    let e = escape(md);
    let t = page_tail();
    assert forall|u: Seq<char>|
        u == REVEAL_CSS_URL@ || u == THEME_CSS_URL@ || u == REVEAL_JS_URL@ || u
            == MARKDOWN_PLUGIN_URL@ || u == MARKDOWN_ATTRIBUTE@ || u
            == MARKDOWN_PLUGIN_NAME@ implies #[trigger] contains(presentation_page(md), u) by {
        lemma_head_and_tail_contain(u);
        if u == MARKDOWN_ATTRIBUTE@ || u == MARKDOWN_PLUGIN_NAME@ {
            lemma_contains_extend(t, h + e, u);
        } else {
            lemma_contains_extend(h, e, u);
            lemma_contains_extend(h + e, t, u);
        }
    }
}

/// The markdown stands in the page as a template literal: the head ends with the
/// opening backtick, the tail starts with the closing one, and between them is a body
/// with no unescaped backtick or `${`, which gives back the markdown once its escaping
/// backslashes are taken out.
pub proof fn lemma_page_embeds_markdown(md: Seq<char>)
    ensures
        presentation_page(md) == page_head() + escape(md) + page_tail(),
        page_head().last() == '`',
        page_tail()[0] == '`',
        literal_safe(escape(md)),
        unescape(escape(md)) == md,
{
    lemma_escape_is_literal_safe(md);
    lemma_escape_round_trip(md);
}

/// No `</script>` of the page comes from the markdown: each one lies wholly in the
/// fixed head or the fixed tail.
pub proof fn lemma_page_script_close_outside_markdown(md: Seq<char>)
    ensures
        forall|i: int|
            #![trigger occurs_at(presentation_page(md), script_close(), i)]
            occurs_at(presentation_page(md), script_close(), i) ==> i + 9 <= page_head().len()
                || i >= page_head().len() + escape(md).len(),
{
    let p = presentation_page(md);
    let h = page_head();
    let e = escape(md);
    let c = script_close();
    assert(c =~= seq!['<', '/', 's', 'c', 'r', 'i', 'p', 't', '>']);
    lemma_escape_has_no_script_close(md);
    assert forall|i: int| occurs_at(p, c, i) implies i + 9 <= h.len() || i >= h.len()
        + e.len() by {
        if i + 9 > h.len() && i < h.len() + e.len() {
            if i < h.len() {
                let k = h.len() - 1 - i;
                assert(p.subrange(i, i + 9)[k] == p[h.len() - 1]);
                assert(p[h.len() - 1] == '`');
            } else if i + 9 > h.len() + e.len() {
                let k = h.len() + e.len() - i;
                assert(p.subrange(i, i + 9)[k] == p[(h.len() + e.len()) as int]);
                assert(p[(h.len() + e.len()) as int] == '`');
            } else {
                assert(e.subrange(i - h.len(), i - h.len() + 9) =~= p.subrange(i, i + 9));
                assert(occurs_at(e, c, i - h.len()));
            }
        }
    }
}

} // verus!
