//! Slide-deck detection for markdown documents.

use vstd::prelude::*;

use crate::text::{
    chars_of, contains, find_in, matches_at, occurs_at, starts_with, trim, trim_bounds,
};

verus! {

/// The separator marker `---`.
pub open spec fn dashes() -> Seq<char> {
    seq!['-', '-', '-']
}

/// The newline-delimited lines of `s`: a text without a newline is one line, and a
/// trailing newline ends in one last empty line.
pub open spec fn lines(s: Seq<char>) -> Seq<Seq<char>>
    decreases s.len(),
{
    if s.len() == 0 {
        seq![Seq::empty()]
    } else {
        let p = lines(s.drop_last());
        if s.last() == '\n' {
            p.push(Seq::empty())
        } else {
            p.update(p.len() - 1, p.last().push(s.last()))
        }
    }
}

/// A line that holds `---` and nothing else but whitespace.
pub open spec fn is_separator_line(l: Seq<char>) -> bool {
    trim(l) == dashes()
}

/// How many of `ls` are separator lines.
pub open spec fn count_separators(ls: Seq<Seq<char>>) -> nat
    decreases ls.len(),
{
    if ls.len() == 0 {
        0
    } else {
        count_separators(ls.drop_last()) + if is_separator_line(ls.last()) {
            1nat
        } else {
            0nat
        }
    }
}

/// The number of separator lines of the text `s`.
pub open spec fn separator_count(s: Seq<char>) -> nat {
    count_separators(lines(s))
}

/// `i` is the first place where `p` occurs in `s`.
pub open spec fn is_first_occurrence(s: Seq<char>, p: Seq<char>, i: int) -> bool {
    occurs_at(s, p, i) && forall|j: int| 0 <= j < i ==> !occurs_at(s, p, j)
}

/// The frontmatter block: when `s` opens with `---`, what follows it up to the next `---`.
pub open spec fn frontmatter(s: Seq<char>) -> Option<Seq<char>> {
    if starts_with(s, dashes()) {
        let rest = s.subrange(3, s.len() as int);
        if exists|e: int| is_first_occurrence(rest, dashes(), e) {
            let e = choose|e: int| is_first_occurrence(rest, dashes(), e);
            Some(rest.subrange(0, e))
        } else {
            None
        }
    } else {
        None
    }
}

/// The frontmatter keys that mark a slide deck.
pub open spec fn kw_theme() -> Seq<char> {
    seq!['t', 'h', 'e', 'm', 'e', ':']
}

pub open spec fn kw_class() -> Seq<char> {
    seq!['c', 'l', 'a', 's', 's', ':']
}

pub open spec fn kw_layout() -> Seq<char> {
    seq!['l', 'a', 'y', 'o', 'u', 't', ':']
}

pub open spec fn kw_slidev() -> Seq<char> {
    seq!['s', 'l', 'i', 'd', 'e', 'v']
}

/// A (lower-cased) frontmatter block names one of the slide-deck keys.
pub open spec fn has_deck_keyword(f: Seq<char>) -> bool {
    contains(f, kw_theme()) || contains(f, kw_class()) || contains(f, kw_layout()) || contains(
        f,
        kw_slidev(),
    )
}

/// What `str::to_lowercase` returns for the characters `s`.
pub uninterp spec fn lower_of(s: Seq<char>) -> Seq<char>;

/// The text looks like a slide deck: its frontmatter, lower-cased, names a deck key,
/// or it has at least three separator lines.
pub open spec fn is_presentation(s: Seq<char>) -> bool {
    (match frontmatter(s) {
        Some(f) => has_deck_keyword(lower_of(f)),
        None => false,
    }) || separator_count(s) >= 3
}

/// Relies on `str::to_lowercase`: the result depends on the characters of `s` alone.
#[verifier::external_body]
fn lowercase(s: &str) -> (r: String)
    ensures
        r@ == lower_of(s@),
{
    s.to_lowercase()
}

/// Whether an already lower-cased frontmatter block names a slide-deck key
/// (`theme:`, `class:`, `layout:` or `slidev`).
pub fn frontmatter_has_keyword(lowered: &str) -> (r: bool)
    ensures
        r == has_deck_keyword(lowered@),
{
    let v = chars_of(lowered);
    let theme = vec!['t', 'h', 'e', 'm', 'e', ':'];
    let class = vec!['c', 'l', 'a', 's', 's', ':'];
    let layout = vec!['l', 'a', 'y', 'o', 'u', 't', ':'];
    let slidev = vec!['s', 'l', 'i', 'd', 'e', 'v'];
    assert(theme@ =~= kw_theme());
    assert(class@ =~= kw_class());
    assert(layout@ =~= kw_layout());
    assert(slidev@ =~= kw_slidev());
    find_in(&v, &theme) || find_in(&v, &class) || find_in(&v, &layout) || find_in(&v, &slidev)
}

/// Whether `v[lo..hi]` is a separator line.
fn is_separator(v: &Vec<char>, lo: usize, hi: usize) -> (r: bool)
    requires
        lo <= hi <= v.len(),
    ensures
        r == is_separator_line(v@.subrange(lo as int, hi as int)),
        r ==> lo + 3 <= hi,
{
    let (a, b) = trim_bounds(v, lo, hi);
    let t = Ghost(v@.subrange(a as int, b as int));
    if b - a == 3 && v[a] == '-' && v[a + 1] == '-' && v[a + 2] == '-' {
        assert(t@ =~= dashes());
        true
    } else {
        assert(t@.len() == 3 ==> t@[0] == v@[a as int] && t@[1] == v@[a + 1] && t@[2] == v@[a
            + 2]);
        false
    }
}

proof fn lemma_lines_nonempty(s: Seq<char>)
    ensures
        lines(s).len() >= 1,
    decreases s.len(),
{
    if s.len() > 0 {
        lemma_lines_nonempty(s.drop_last());
    }
}

/// The number of separator lines of the text held in `v`.
fn count_separator_lines(v: &Vec<char>) -> (r: usize)
    ensures
        r == separator_count(v@),
{
    let n = v.len();
    let mut start: usize = 0;
    let mut count: usize = 0;
    let mut i: usize = 0;
    assert(v@.subrange(0, 0) =~= Seq::<char>::empty());
    assert(v@.subrange(0, 0) =~= v@.subrange(start as int, 0));
    while i < n
        invariant
            n == v.len(),
            start <= i <= n,
            count <= start,
            lines(v@.subrange(0, i as int)).len() >= 1,
            lines(v@.subrange(0, i as int)).last() == v@.subrange(start as int, i as int),
            count == count_separators(lines(v@.subrange(0, i as int)).drop_last()),
        decreases n - i,
    {
        let ghost pre = v@.subrange(0, i as int);
        let ghost cur = v@.subrange(0, i + 1);
        assert(cur.drop_last() =~= pre);
        assert(cur.last() == v@[i as int]);
        let ghost old_lines = lines(pre);
        if v[i] == '\n' {
            let sep = is_separator(v, start, i);
            assert(lines(cur).drop_last() =~= old_lines);
            if sep {
                count = count + 1;
            }
            start = i + 1;
            assert(lines(cur).last() =~= v@.subrange(start as int, i + 1));
        } else {
            assert(lines(cur).drop_last() =~= old_lines.drop_last());
            assert(lines(cur).last() =~= v@.subrange(start as int, i + 1));
        }
        i = i + 1;
    }
    assert(v@.subrange(0, n as int) =~= v@);
    let last = is_separator(v, start, n);
    proof {
        lemma_lines_nonempty(v@);
    }
    if last {
        count + 1
    } else {
        count
    }
}

/// The first place at or after index 3 where `---` occurs in `v`.
fn find_closing(v: &Vec<char>, d: &Vec<char>) -> (r: Option<usize>)
    requires
        d@ == dashes(),
    ensures
        r matches Some(j) ==> 3 <= j && occurs_at(v@, dashes(), j as int),
        r matches Some(j) ==> forall|k: int| 3 <= k < j ==> !occurs_at(v@, dashes(), k),
        r is None ==> forall|k: int| 3 <= k ==> !occurs_at(v@, dashes(), k),
{
    let n = v.len();
    let mut j: usize = 3;
    while j <= n && 3 <= n - j
        invariant
            n == v.len(),
            3 <= j,
            d@ == dashes(),
            forall|k: int| 3 <= k < j ==> !occurs_at(v@, dashes(), k),
        decreases n - j,
    {
        if matches_at(v, d, j) {
            return Some(j);
        }
        j = j + 1;
    }
    None
}

/// Whether the markdown `content` should be offered as a slide presentation.
///
/// It is when the document opens with a `---` frontmatter block that, lower-cased,
/// holds `theme:`, `class:`, `layout:` or `slidev`; or when at least three of its lines
/// are `---` once surrounding whitespace is removed.
pub fn detect_presentation(content: &str) -> (r: bool)
    ensures
        r == is_presentation(content@),
{
    let v = chars_of(content);
    let d = vec!['-', '-', '-'];
    assert(d@ =~= dashes());
    let ghost s = content@;
    if matches_at(&v, &d, 0) {
        let ghost rest = s.subrange(3, s.len() as int);
        assert forall|k: int| 0 <= k implies #[trigger] occurs_at(rest, dashes(), k)
            == occurs_at(s, dashes(), k + 3) by {
            if k + 3 <= rest.len() {
                assert(rest.subrange(k, k + 3) =~= s.subrange(k + 3, k + 6));
            }
        }
        match find_closing(&v, &d) {
            Some(j) => {
                let ghost e = j - 3;
                assert(is_first_occurrence(rest, dashes(), e));
                let ghost c = choose|e: int| is_first_occurrence(rest, dashes(), e);
                assert(c == e) by {
                    if c < e {
                        assert(!occurs_at(rest, dashes(), c));
                    } else if e < c {
                        assert(!occurs_at(rest, dashes(), e));
                    }
                }
                let block = content.substring_char(3, j);
                assert(block@ =~= rest.subrange(0, e));
                let lowered = lowercase(block);
                if frontmatter_has_keyword(lowered.as_str()) {
                    return true;
                }
            },
            None => {
                assert(!exists|e: int| is_first_occurrence(rest, dashes(), e));
            },
        }
    }
    count_separator_lines(&v) >= 3
}

} // verus!

verus! {

/// A text that does not open with `---` and has fewer than three separator lines is
/// never taken for a slide deck.
pub proof fn lemma_plain_text_is_not_deck(t: Seq<char>)
    requires
        !starts_with(t, dashes()),
        separator_count(t) < 3,
    ensures
        !is_presentation(t),
{
}

/// Any text with at least three separator lines is taken for a slide deck, whatever
/// else it holds.
pub proof fn lemma_three_separators_make_deck(t: Seq<char>)
    requires
        separator_count(t) >= 3,
    ensures
        is_presentation(t),
{
}

} // verus!
