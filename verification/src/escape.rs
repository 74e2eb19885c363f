//! Escaping of text for use in XML character data and attribute values.
use vstd::prelude::*;

verus! {

/// What one character becomes in escaped text: the five XML special
/// characters become their predefined entity references, every other
/// character stands for itself.
pub open spec fn escaped_char(c: char) -> Seq<char> {
    if c == '<' {
        "&lt;"@
    } else if c == '>' {
        "&gt;"@
    } else if c == '"' {
        "&quot;"@
    } else if c == '\'' {
        "&apos;"@
    } else if c == '&' {
        "&amp;"@
    } else {
        seq![c]
    }
}

/// The escaped form of a whole text: each character escaped in turn.
pub open spec fn escaped(s: Seq<char>) -> Seq<char>
    decreases s.len(),
{
    if s.len() == 0 {
        Seq::empty()
    } else {
        escaped(s.drop_last()) + escaped_char(s.last())
    }
}

/// Appends one character to a string (`String::push`).
#[verifier::external_body]
pub(crate) fn push_char(s: &mut String, c: char)
    ensures
        final(s)@ == old(s)@.push(c),
{
    s.push(c);
}

/// Escapes the characters `<`, `>`, `"`, `'` and `&` of `s` as the entity
/// references `&lt;`, `&gt;`, `&quot;`, `&apos;` and `&amp;`.
pub fn escape_str(s: &str) -> (r: String)
    ensures
        r@ == escaped(s@),
{
    broadcast use vstd::string::group_string_axioms;
    let mut result = String::new();
    for c in it: s.chars()
        invariant
            it.seq() == s@,
            result@ == escaped(s@.take(it.index() as int)),
    {
        assert(s@.take(it.index() + 1).drop_last() =~= s@.take(it.index() as int));
        if c == '<' {
            result.append("&lt;");
        } else if c == '>' {
            result.append("&gt;");
        } else if c == '"' {
            result.append("&quot;");
        } else if c == '\'' {
            result.append("&apos;");
        } else if c == '&' {
            result.append("&amp;");
        } else {
            push_char(&mut result, c);
        }
    }
    assert(s@.take(s@.len() as int) =~= s@);
    result
}

/// A special character of XML text: one that escaping replaces.
pub open spec fn is_special(c: char) -> bool {
    c == '<' || c == '>' || c == '"' || c == '\'' || c == '&'
}

/// Escaped text holds no markup delimiter and no quote: none of `<`, `>`,
/// `"` and `'` occurs in it, whatever the text was.
pub proof fn law_escaped_has_no_delimiters(s: Seq<char>)
    ensures
        forall|i: int|
            0 <= i < escaped(s).len() ==> {
                let c = #[trigger] escaped(s)[i];
                c != '<' && c != '>' && c != '"' && c != '\''
            },
    decreases s.len(),
{
    if s.len() > 0 {
        law_escaped_has_no_delimiters(s.drop_last());
        reveal_strlit("&lt;");
        reveal_strlit("&gt;");
        reveal_strlit("&quot;");
        reveal_strlit("&apos;");
        reveal_strlit("&amp;");
        let a = escaped(s.drop_last());
        let b = escaped_char(s.last());
        assert forall|i: int| 0 <= i < escaped(s).len() implies {
            let c = #[trigger] escaped(s)[i];
            c != '<' && c != '>' && c != '"' && c != '\''
        } by {
            if i >= a.len() {
                assert(escaped(s)[i] == b[i - a.len()]);
            } else {
                assert(escaped(s)[i] == a[i]);
            }
        }
    }
}

/// Text without special characters is left as it is by escaping.
pub proof fn law_escape_plain_text(s: Seq<char>)
    requires
        forall|i: int| 0 <= i < s.len() ==> !is_special(#[trigger] s[i]),
    ensures
        escaped(s) == s,
    decreases s.len(),
{
    if s.len() > 0 {
        law_escape_plain_text(s.drop_last());
        assert(!is_special(s[s.len() - 1]));
        assert(escaped(s) =~= s.drop_last() + seq![s.last()]);
        assert(s =~= s.drop_last() + seq![s.last()]);
    }
}

/// `t` begins with `e`.
pub open spec fn begins_with(t: Seq<char>, e: Seq<char>) -> bool {
    t.len() >= e.len() && t.take(e.len() as int) == e
}

/// `t` begins with one of the five predefined entity references.
pub open spec fn begins_with_entity(t: Seq<char>) -> bool {
    ||| begins_with(t, seq!['&', 'l', 't', ';'])
    ||| begins_with(t, seq!['&', 'g', 't', ';'])
    ||| begins_with(t, seq!['&', 'q', 'u', 'o', 't', ';'])
    ||| begins_with(t, seq!['&', 'a', 'p', 'o', 's', ';'])
    ||| begins_with(t, seq!['&', 'a', 'm', 'p', ';'])
}

/// Text with the five predefined entity references replaced by the
/// characters they stand for, read from the front.
pub open spec fn unescaped(s: Seq<char>) -> Seq<char>
    decreases s.len(),
{
    if s.len() == 0 {
        Seq::empty()
    } else if begins_with(s, seq!['&', 'l', 't', ';']) {
        seq!['<'] + unescaped(s.skip(4))
    } else if begins_with(s, seq!['&', 'g', 't', ';']) {
        seq!['>'] + unescaped(s.skip(4))
    } else if begins_with(s, seq!['&', 'q', 'u', 'o', 't', ';']) {
        seq!['"'] + unescaped(s.skip(6))
    } else if begins_with(s, seq!['&', 'a', 'p', 'o', 's', ';']) {
        seq!['\''] + unescaped(s.skip(6))
    } else if begins_with(s, seq!['&', 'a', 'm', 'p', ';']) {
        seq!['&'] + unescaped(s.skip(5))
    } else {
        seq![s[0]] + unescaped(s.skip(1))
    }
}

proof fn lemma_escaped_front(c: char, r: Seq<char>)
    ensures
        escaped(seq![c] + r) == escaped_char(c) + escaped(r),
    decreases r.len(),
{
    if r.len() == 0 {
        assert(seq![c] + r =~= seq![c]);
        assert(seq![c].drop_last() =~= Seq::<char>::empty());
        assert(seq![c].last() == c);
        assert(escaped(Seq::<char>::empty()) == Seq::<char>::empty());
        assert(escaped(seq![c]) == escaped(seq![c].drop_last()) + escaped_char(seq![c].last()));
        assert(escaped(seq![c]) =~= escaped_char(c));
        assert(escaped_char(c) + escaped(r) =~= escaped_char(c));
    } else {
        lemma_escaped_front(c, r.drop_last());
        assert((seq![c] + r).drop_last() =~= seq![c] + r.drop_last());
        assert((seq![c] + r).last() == r.last());
        assert(escaped(seq![c] + r) =~= escaped_char(c) + escaped(r));
    }
}

proof fn lemma_literals()
    ensures
        "&lt;"@ == seq!['&', 'l', 't', ';'],
        "&gt;"@ == seq!['&', 'g', 't', ';'],
        "&quot;"@ == seq!['&', 'q', 'u', 'o', 't', ';'],
        "&apos;"@ == seq!['&', 'a', 'p', 'o', 's', ';'],
        "&amp;"@ == seq!['&', 'a', 'm', 'p', ';'],
{
    reveal_strlit("&lt;");
    reveal_strlit("&gt;");
    reveal_strlit("&quot;");
    reveal_strlit("&apos;");
    reveal_strlit("&amp;");
    assert("&lt;"@ =~= seq!['&', 'l', 't', ';']);
    assert("&gt;"@ =~= seq!['&', 'g', 't', ';']);
    assert("&quot;"@ =~= seq!['&', 'q', 'u', 'o', 't', ';']);
    assert("&apos;"@ =~= seq!['&', 'a', 'p', 'o', 's', ';']);
    assert("&amp;"@ =~= seq!['&', 'a', 'm', 'p', ';']);
}

proof fn lemma_unescape_char(c: char, x: Seq<char>)
    ensures
        unescaped(escaped_char(c) + x) == seq![c] + unescaped(x),
{
    lemma_literals();
    let e = escaped_char(c);
    let t = e + x;
    assert(t.skip(e.len() as int) =~= x);
    assert(t.take(e.len() as int) =~= e);
    if c == '<' {
    } else if c == '>' {
        assert(t.take(4)[1] != "&lt;"@[1]);
    } else if c == '"' {
        assert(t.take(4)[1] != "&lt;"@[1]);
        assert(t.take(4)[1] != "&gt;"@[1]);
    } else if c == '\'' {
        assert(t.take(4)[1] != "&lt;"@[1]);
        assert(t.take(4)[1] != "&gt;"@[1]);
        assert(t.take(6)[1] != "&quot;"@[1]);
    } else if c == '&' {
        assert(t.take(4)[1] != "&lt;"@[1]);
        assert(t.take(4)[1] != "&gt;"@[1]);
        assert(t.len() < 6 || t.take(6)[1] != "&quot;"@[1]);
        assert(t.len() < 6 || t.take(6)[2] != "&apos;"@[2]);
    } else {
        assert(t[0] == c);
        assert(t.len() < 4 || t.take(4)[0] != "&lt;"@[0]);
        assert(t.len() < 4 || t.take(4)[0] != "&gt;"@[0]);
        assert(t.len() < 6 || t.take(6)[0] != "&quot;"@[0]);
        assert(t.len() < 6 || t.take(6)[0] != "&apos;"@[0]);
        assert(t.len() < 5 || t.take(5)[0] != "&amp;"@[0]);
    }
}

/// Escaping loses nothing: replacing the entity references of escaped text
/// by the characters they stand for gives the text back.
pub proof fn law_unescape_escaped(s: Seq<char>)
    ensures
        unescaped(escaped(s)) == s,
    decreases s.len(),
{
    if s.len() > 0 {
        let r = s.skip(1);
        assert(s =~= seq![s[0]] + r);
        lemma_escaped_front(s[0], r);
        lemma_unescape_char(s[0], escaped(r));
        law_unescape_escaped(r);
    }
}

/// In escaped text an ampersand only ever begins one of the five predefined
/// entity references.
pub proof fn law_escaped_ampersands(s: Seq<char>)
    ensures
        forall|i: int|
            0 <= i < escaped(s).len() && #[trigger] escaped(s)[i] == '&' ==> begins_with_entity(
                escaped(s).skip(i),
            ),
    decreases s.len(),
{
    if s.len() > 0 {
        lemma_literals();
        let r = s.skip(1);
        assert(s =~= seq![s[0]] + r);
        lemma_escaped_front(s[0], r);
        law_escaped_ampersands(r);
        let e = escaped_char(s[0]);
        let t = escaped(r);
        assert(escaped(s) == e + t);
        assert forall|i: int|
            0 <= i < escaped(s).len() && #[trigger] escaped(s)[i] == '&' implies begins_with_entity(
            escaped(s).skip(i),
        ) by {
            if i >= e.len() {
                assert(escaped(s)[i] == t[i - e.len()]);
                assert(escaped(s).skip(i) =~= t.skip(i - e.len()));
            } else {
                assert(escaped(s)[i] == e[i]);
                assert(i == 0);
                assert(escaped(s).skip(0).take(e.len() as int) =~= e);
            }
        }
    }
}

} // verus!
