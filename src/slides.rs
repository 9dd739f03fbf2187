//! The slides a presentation page makes of its markdown.

use vstd::prelude::*;

use crate::text::{chars_of, matches_at, occurs_at, push_char, trim, trim_bounds};

verus! {

/// The separator pattern between slides: a newline, `---`, a newline.
pub open spec fn slide_break() -> Seq<char> {
    seq!['\n', '-', '-', '-', '\n']
}

/// `i` is the first place where a slide break occurs in `s`.
pub open spec fn is_first_break(s: Seq<char>, i: int) -> bool {
    occurs_at(s, slide_break(), i) && forall|j: int| 0 <= j < i ==> !occurs_at(s, slide_break(), j)
}

/// `s` cut at each slide break, from left to right, the breaks themselves left out.
pub open spec fn split_parts(s: Seq<char>) -> Seq<Seq<char>>
    decreases s.len(),
{
    if exists|i: int| is_first_break(s, i) {
        let i = choose|i: int| is_first_break(s, i);
        seq![s.subrange(0, i)] + split_parts(s.subrange(i + 5, s.len() as int))
    } else {
        seq![s]
    }
}

/// The parts `ps`, each trimmed, with those left empty dropped.
pub open spec fn nonblank_trimmed(ps: Seq<Seq<char>>) -> Seq<Seq<char>>
    decreases ps.len(),
{
    if ps.len() == 0 {
        Seq::empty()
    } else {
        (if trim(ps[0]).len() > 0 {
            seq![trim(ps[0])]
        } else {
            Seq::empty()
        }) + nonblank_trimmed(ps.drop_first())
    }
}

/// The slides of the markdown `s`, in order.
pub open spec fn slides(s: Seq<char>) -> Seq<Seq<char>> {
    nonblank_trimmed(split_parts(s))
}

/// The characters `v[lo..hi]` as a string.
fn string_of(v: &Vec<char>, lo: usize, hi: usize) -> (r: String)
    requires
        lo <= hi <= v.len(),
    ensures
        r@ == v@.subrange(lo as int, hi as int),
{
    let mut r = String::new();
    let mut k: usize = lo;
    while k < hi
        invariant
            lo <= k <= hi <= v.len(),
            r@ == v@.subrange(lo as int, k as int),
        decreases hi - k,
    {
        push_char(&mut r, v[k]);
        k = k + 1;
        assert(r@ =~= v@.subrange(lo as int, k as int));
    }
    r
}

/// Adds the trimmed part `v[lo..hi]` to `out` unless it is blank.
fn push_part(out: &mut Vec<String>, v: &Vec<char>, lo: usize, hi: usize)
    requires
        lo <= hi <= v.len(),
    ensures
        final(out).deep_view() == old(out).deep_view() + nonblank_trimmed(
            seq![v@.subrange(lo as int, hi as int)],
        ),
{
    let ghost part = v@.subrange(lo as int, hi as int);
    assert(seq![part].drop_first() =~= Seq::<Seq<char>>::empty());
    let (a, b) = trim_bounds(v, lo, hi);
    assert(nonblank_trimmed(Seq::<Seq<char>>::empty()) =~= Seq::<Seq<char>>::empty());
    assert(seq![part][0] == part);
    if a < b {
        let s = string_of(v, a, b);
        out.push(s);
        assert(final(out).deep_view() =~= old(out).deep_view() + seq![trim(part)]);
    } else {
        assert(final(out).deep_view() =~= old(out).deep_view());
    }
}

/// The slides that the presentation page shows for `markdown_content`: the text is cut
/// at each `\n---\n`, each part is trimmed, and the parts left empty are dropped.
pub fn slide_parts(markdown_content: &str) -> (r: Vec<String>)
    ensures
        r.deep_view() == slides(markdown_content@),
{
    let v = chars_of(markdown_content);
    let n = v.len();
    let brk = vec!['\n', '-', '-', '-', '\n'];
    assert(brk@ =~= slide_break());
    let mut out: Vec<String> = Vec::new();
    let mut start: usize = 0;
    let mut k: usize = 0;
    assert(v@.subrange(0, n as int) =~= v@);
    assert(out.deep_view() + nonblank_trimmed(split_parts(v@.subrange(0, n as int)))
        =~= slides(v@));
    while k < n && 5 <= n - k
        invariant
            n == v.len(),
            start <= k <= n,
            brk@ == slide_break(),
            out.deep_view() + nonblank_trimmed(split_parts(v@.subrange(start as int, n as int)))
                == slides(v@),
            forall|j: int| start <= j < k ==> !occurs_at(v@, slide_break(), j),
        decreases n - k,
    {
        let ghost rest = v@.subrange(start as int, n as int);
        if matches_at(&v, &brk, k) {
            let ghost i = k - start;
            assert(rest.subrange(i, i + 5) =~= v@.subrange(k as int, k + 5));
            assert forall|j: int| 0 <= j < i implies !occurs_at(rest, slide_break(), j) by {
                assert(!occurs_at(v@, slide_break(), start + j));
                if j + 5 <= rest.len() {
                    assert(rest.subrange(j, j + 5) =~= v@.subrange(start + j, start + j + 5));
                }
            }
            assert(is_first_break(rest, i));
            let ghost c = choose|c: int| is_first_break(rest, c);
            assert(c == i) by {
                if c < i {
                    assert(!occurs_at(rest, slide_break(), c));
                } else if i < c {
                    assert(!occurs_at(rest, slide_break(), i));
                }
            }
            let ghost before = out.deep_view();
            assert(rest.subrange(0, i) =~= v@.subrange(start as int, k as int));
            assert(rest.subrange(i + 5, rest.len() as int) =~= v@.subrange(k + 5, n as int));
            let ghost tail = split_parts(v@.subrange(k + 5, n as int));
            assert(split_parts(rest) == seq![v@.subrange(start as int, k as int)] + tail);
            push_part(&mut out, &v, start, k);
            assert(nonblank_trimmed(seq![v@.subrange(start as int, k as int)] + tail) =~= 
                nonblank_trimmed(seq![v@.subrange(start as int, k as int)]) + nonblank_trimmed(tail)) by {
                assert((seq![v@.subrange(start as int, k as int)] + tail).drop_first() =~= tail);
                assert((seq![v@.subrange(start as int, k as int)] + tail)[0] == v@.subrange(start as int, k as int));
                assert(nonblank_trimmed(Seq::<Seq<char>>::empty()) =~= Seq::<Seq<char>>::empty());
                assert(seq![v@.subrange(start as int, k as int)].drop_first() =~= Seq::<Seq<char>>::empty());
            }
            assert(out.deep_view() + nonblank_trimmed(tail) =~= before + nonblank_trimmed(
                split_parts(rest),
            ));
            start = k + 5;
            k = k + 5;
        } else {
            k = k + 1;
        }
    }
    let ghost rest = v@.subrange(start as int, n as int);
    assert forall|j: int| 0 <= j implies !is_first_break(rest, j) by {
        if start + j < k {
            assert(!occurs_at(v@, slide_break(), start + j));
        }
        if j + 5 <= rest.len() {
            assert(rest.subrange(j, j + 5) =~= v@.subrange(start + j, start + j + 5));
        }
    }
    assert(split_parts(rest) == seq![rest]);
    let ghost before = out.deep_view();
    push_part(&mut out, &v, start, n);
    assert(out.deep_view() =~= before + nonblank_trimmed(split_parts(rest)));
    out
}

} // verus!
