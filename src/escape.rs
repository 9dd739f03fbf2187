//! Escaping markdown for a JavaScript template literal inside a `<script>` block.

use vstd::prelude::*;

use crate::text::{chars_of, contains, matches_at, occurs_at, push_char, starts_with};

verus! {

/// `/script>`: what follows `<` in a closing script tag.
pub open spec fn script_close_tail() -> Seq<char> {
    seq!['/', 's', 'c', 'r', 'i', 'p', 't', '>']
}

/// The closing script tag `</script>`.
pub open spec fn script_close() -> Seq<char> {
    seq!['<'] + script_close_tail()
}

/// What the first character of `s` becomes, looking ahead where needed: a backslash is
/// doubled, a backtick and the `$` of `${` get a backslash before them, and a `<` that
/// opens `</script>` gets a backslash after it.
pub open spec fn escape_head(s: Seq<char>) -> Seq<char> {
    let c = s[0];
    if c == '\\' {
        seq!['\\', '\\']
    } else if c == '`' {
        seq!['\\', '`']
    } else if c == '$' && s.len() > 1 && s[1] == '{' {
        seq!['\\', '$']
    } else if c == '<' && starts_with(s.drop_first(), script_close_tail()) {
        seq!['<', '\\']
    } else {
        seq![c]
    }
}

/// `s` escaped for a template literal.
pub open spec fn escape(s: Seq<char>) -> Seq<char>
    decreases s.len(),
{
    if s.len() == 0 {
        Seq::empty()
    } else {
        escape_head(s) + escape(s.drop_first())
    }
}

/// `e` can stand between the backticks of a template literal: each backslash escapes a
/// backslash, backtick, `$` or `/`, and no backtick or `${` stands unescaped.
pub open spec fn literal_safe(e: Seq<char>) -> bool
    decreases e.len(),
{
    if e.len() == 0 {
        true
    } else if e[0] == '\\' {
        e.len() >= 2 && (e[1] == '\\' || e[1] == '`' || e[1] == '$' || e[1] == '/')
            && literal_safe(e.subrange(2, e.len() as int))
    } else if e[0] == '`' {
        false
    } else if e[0] == '$' && e.len() >= 2 && e[1] == '{' {
        false
    } else {
        literal_safe(e.drop_first())
    }
}

/// `e` with each escaping backslash taken out, keeping the character it escapes.
pub open spec fn unescape(e: Seq<char>) -> Seq<char>
    decreases e.len(),
{
    if e.len() == 0 {
        Seq::empty()
    } else if e[0] == '\\' && e.len() >= 2 {
        seq![e[1]] + unescape(e.subrange(2, e.len() as int))
    } else {
        seq![e[0]] + unescape(e.drop_first())
    }
}

/// Escapes `text` for a template literal inside a `<script>` block: backslash, backtick,
/// `${` and `</script>` are escaped, everything else is kept.
pub fn escape_template(text: &str) -> (r: String)
    ensures
        r@ == escape(text@),
{
    let v = chars_of(text);
    let n = v.len();
    let tail = vec!['/', 's', 'c', 'r', 'i', 'p', 't', '>'];
    assert(tail@ =~= script_close_tail());
    let mut r = String::new();
    let mut i: usize = 0;
    assert(v@.subrange(0, n as int) =~= v@);
    while i < n
        invariant
            n == v.len(),
            i <= n,
            tail@ == script_close_tail(),
            r@ + escape(v@.subrange(i as int, n as int)) == escape(v@),
        decreases n - i,
    {
        let ghost s = v@.subrange(i as int, n as int);
        let ghost r0 = r@;
        assert(s.drop_first() =~= v@.subrange(i + 1, n as int));
        assert(s[0] == v@[i as int]);
        let c = v[i];
        if c == '\\' {
            push_char(&mut r, '\\');
            push_char(&mut r, '\\');
        } else if c == '`' {
            push_char(&mut r, '\\');
            push_char(&mut r, '`');
        } else if c == '$' && i + 1 < n && v[i + 1] == '{' {
            push_char(&mut r, '\\');
            push_char(&mut r, '$');
        } else if c == '<' && matches_at(&v, &tail, i + 1) {
            assert(s.drop_first().subrange(0, 8) =~= v@.subrange(i + 1, i + 9));
            push_char(&mut r, '<');
            push_char(&mut r, '\\');
        } else {
            proof {
                if c == '<' && s.drop_first().len() >= 8 {
                    assert(s.drop_first().subrange(0, 8) =~= v@.subrange(i + 1, i + 9));
                }
            }
            push_char(&mut r, c);
        }
        assert(r@ =~= r0 + escape_head(s));
        assert(r@ + escape(v@.subrange(i + 1, n as int)) =~= r0 + escape(s));
        i = i + 1;
    }
    assert(v@.subrange(n as int, n as int) =~= Seq::<char>::empty());
    assert(r@ =~= r@ + escape(v@.subrange(n as int, n as int)));
    r
}

} // verus!

verus! {

/// The escaped text opens with a backslash or with the text's own first character.
proof fn lemma_escape_first(s: Seq<char>)
    requires
        s.len() > 0,
    ensures
        escape(s).len() > 0,
        escape(s) == escape_head(s) + escape(s.drop_first()),
        escape(s)[0] == '\\' || escape(s)[0] == s[0],
        escape(s)[0] != '\\' && escape(s)[0] != '<' ==> escape_head(s) == seq![s[0]],
{
}

/// A prefix without backslash or `<` is escaped to itself.
proof fn lemma_plain_prefix(s: Seq<char>, u: Seq<char>)
    requires
        occurs_at(escape(s), u, 0),
        forall|k: int| 0 <= k < u.len() ==> u[k] != '\\' && u[k] != '<',
    ensures
        starts_with(s, u),
    decreases u.len(),
{
    if u.len() == 0 {
        assert(s.subrange(0, 0) =~= u);
    } else {
        if s.len() == 0 {
            assert(escape(s).len() == 0);
        }
        lemma_escape_first(s);
        assert(escape(s)[0] == u[0]);
        let s1 = s.drop_first();
        let u1 = u.drop_first();
        assert(escape(s1).subrange(0, u1.len() as int) =~= escape(s).subrange(1, u.len() as int));
        assert(escape(s).subrange(1, u.len() as int) =~= u1);
        lemma_plain_prefix(s1, u1);
        assert(s.subrange(0, u.len() as int) =~= seq![s[0]] + s1.subrange(0, u1.len() as int));
        assert(s.subrange(0, u.len() as int) =~= u);
    }
}

/// Escaping never leaves `</script>` in the text.
pub proof fn lemma_escape_has_no_script_close(s: Seq<char>)
    ensures
        !contains(escape(s), script_close()),
    decreases s.len(),
{
    if s.len() > 0 {
        let s1 = s.drop_first();
        let h = escape_head(s);
        let e = escape(s);
        lemma_escape_first(s);
        lemma_escape_has_no_script_close(s1);
        assert forall|p: int| !occurs_at(e, script_close(), p) by {
            if occurs_at(e, script_close(), p) {
                assert(e.subrange(p, p + 9)[0] == '<');
                if p >= h.len() {
                    assert(escape(s1).subrange(p - h.len(), p - h.len() + 9) =~= e.subrange(
                        p,
                        p + 9,
                    ));
                    assert(occurs_at(escape(s1), script_close(), p - h.len()));
                } else {
                    assert(e[p] == '<');
                    assert(e.subrange(p, p + 9)[1] == '/');
                    if h == seq!['<', '\\'] {
                        assert(e[1] == '\\');
                    } else {
                        assert(h == seq![s[0]]);
                        assert(p == 0);
                        let u = script_close_tail();
                        assert(escape(s1).subrange(0, 8) =~= e.subrange(1, 9));
                        assert(script_close() =~= seq!['<', '/', 's', 'c', 'r', 'i', 'p', 't', '>']);
                        assert(e.subrange(0, 9) == script_close());
                        assert forall|k: int| 0 <= k < 8 implies e.subrange(1, 9)[k] == u[k] by {
                            assert(e.subrange(1, 9)[k] == e.subrange(0, 9)[k + 1]);
                        }
                        assert(e.subrange(1, 9) =~= u);
                        lemma_plain_prefix(s1, u);
                    }
                }
            }
        }
    }
}

/// The escaped text opens with `/` when the text opens with `/script>`.
proof fn lemma_escape_slash(s: Seq<char>)
    requires
        starts_with(s, script_close_tail()),
    ensures
        escape(s) == seq!['/'] + escape(s.drop_first()),
{
    assert(s[0] == s.subrange(0, 8)[0]);
}

/// Escaping yields a valid template-literal body: every backslash escapes a backslash,
/// backtick, `$` or `/`, and no backtick or `${` is left unescaped.
pub proof fn lemma_escape_is_literal_safe(s: Seq<char>)
    ensures
        literal_safe(escape(s)),
    decreases s.len(),
{
    if s.len() > 0 {
        let s1 = s.drop_first();
        let e = escape(s);
        lemma_escape_first(s);
        lemma_escape_is_literal_safe(s1);
        let c = s[0];
        if c == '\\' || c == '`' || (c == '$' && s.len() > 1 && s[1] == '{') {
            assert(e.subrange(2, e.len() as int) =~= escape(s1));
            assert(literal_safe(e));
        } else if c == '<' && starts_with(s1, script_close_tail()) {
            lemma_escape_slash(s1);
            let s2 = s1.drop_first();
            lemma_escape_is_literal_safe(s2);
            let e1 = e.drop_first();
            assert(e1 =~= seq!['\\', '/'] + escape(s2));
            assert(e1.subrange(2, e1.len() as int) =~= escape(s2));
            assert(literal_safe(e1));
            assert(literal_safe(e));
        } else {
            assert(e.drop_first() =~= escape(s1));
            if c == '$' && s1.len() > 0 {
                lemma_escape_first(s1);
                assert(s1[0] == s[1]);
                assert(e[1] == escape(s1)[0]);
            }
            assert(literal_safe(e));
        }
    }
}

/// Taking the escaping backslashes out gives back the original text.
pub proof fn lemma_escape_round_trip(s: Seq<char>)
    ensures
        unescape(escape(s)) == s,
    decreases s.len(),
{
    if s.len() == 0 {
        assert(unescape(escape(s)) =~= s);
    } else {
        let s1 = s.drop_first();
        let e = escape(s);
        lemma_escape_first(s);
        lemma_escape_round_trip(s1);
        let c = s[0];
        if c == '\\' || c == '`' || (c == '$' && s.len() > 1 && s[1] == '{') {
            assert(e.subrange(2, e.len() as int) =~= escape(s1));
            assert(unescape(e) == seq![c] + unescape(escape(s1)));
            assert(s =~= seq![c] + s1);
        } else if c == '<' && starts_with(s1, script_close_tail()) {
            lemma_escape_slash(s1);
            let s2 = s1.drop_first();
            lemma_escape_round_trip(s2);
            let e1 = e.drop_first();
            assert(e1 =~= seq!['\\', '/'] + escape(s2));
            assert(e1.subrange(2, e1.len() as int) =~= escape(s2));
            assert(s1[0] == s1.subrange(0, 8)[0]);
            assert(s1 =~= seq!['/'] + s2);
            assert(unescape(e1) == seq!['/'] + unescape(escape(s2)));
            assert(unescape(e) == seq![c] + unescape(e1));
            assert(s =~= seq![c] + s1);
        } else {
            assert(e.drop_first() =~= escape(s1));
            assert(unescape(e) == seq![c] + unescape(escape(s1)));
            assert(s =~= seq![c] + s1);
        }
        assert(unescape(e) =~= s);
    }
}

} // verus!
