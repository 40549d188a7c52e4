use vstd::prelude::*;

verus! {

/// The entity that stands for `c` in attribute values and text, or `c` itself.
pub open spec fn escape_char(c: char) -> Seq<char> {
    if c == '&' {
        "&amp;"@
    } else if c == '<' {
        "&lt;"@
    } else if c == '>' {
        "&gt;"@
    } else if c == '"' {
        "&quot;"@
    } else if c == '\'' {
        "&apos;"@
    } else {
        seq![c]
    }
}

/// `s` with each of the five special characters replaced by its entity.
pub open spec fn escape(s: Seq<char>) -> Seq<char>
    decreases s.len(),
{
    if s.len() == 0 {
        Seq::empty()
    } else {
        escape_char(s[0]) + escape(s.skip(1))
    }
}

/// Escaping one more character appends that character's escape.
pub proof fn lemma_escape_push(s: Seq<char>, c: char)
    ensures
        escape(s.push(c)) == escape(s) + escape_char(c),
    decreases s.len(),
{
    if s.len() == 0 {
        assert(s.push(c).skip(1) =~= Seq::<char>::empty());
        assert(s.push(c)[0] == c);
        assert(escape(Seq::<char>::empty()) == Seq::<char>::empty());
        assert(escape(s) == Seq::<char>::empty());
        assert(escape(s.push(c)) =~= escape(s) + escape_char(c));
    } else {
        assert(s.push(c).skip(1) =~= s.skip(1).push(c));
        lemma_escape_push(s.skip(1), c);
        assert(escape(s.push(c)) =~= escape(s) + escape_char(c));
    }
}

/// Standard decoding of the five predefined entities, read left to right; any
/// other character stands for itself.
pub open spec fn unescape(t: Seq<char>) -> Seq<char>
    decreases t.len(),
{
    if t.len() == 0 {
        Seq::empty()
    } else if t.len() >= 5 && t.subrange(0, 5) == "&amp;"@ {
        seq!['&'] + unescape(t.skip(5))
    } else if t.len() >= 4 && t.subrange(0, 4) == "&lt;"@ {
        seq!['<'] + unescape(t.skip(4))
    } else if t.len() >= 4 && t.subrange(0, 4) == "&gt;"@ {
        seq!['>'] + unescape(t.skip(4))
    } else if t.len() >= 6 && t.subrange(0, 6) == "&quot;"@ {
        seq!['"'] + unescape(t.skip(6))
    } else if t.len() >= 6 && t.subrange(0, 6) == "&apos;"@ {
        seq!['\''] + unescape(t.skip(6))
    } else {
        seq![t[0]] + unescape(t.skip(1))
    }
}

/// Whether `c` may not appear raw in attribute values or text.
pub open spec fn is_special(c: char) -> bool {
    c == '&' || c == '<' || c == '>' || c == '"' || c == '\''
}

/// Whether one of the five entities starts at position `i` of `t`.
pub open spec fn entity_at(t: Seq<char>, i: int) -> bool {
    ||| (i + 5 <= t.len() && t.subrange(i, i + 5) == "&amp;"@)
    ||| (i + 4 <= t.len() && t.subrange(i, i + 4) == "&lt;"@)
    ||| (i + 4 <= t.len() && t.subrange(i, i + 4) == "&gt;"@)
    ||| (i + 6 <= t.len() && t.subrange(i, i + 6) == "&quot;"@)
    ||| (i + 6 <= t.len() && t.subrange(i, i + 6) == "&apos;"@)
}

proof fn lemma_entity_literals()
    ensures
        "&amp;"@ =~= seq!['&', 'a', 'm', 'p', ';'],
        "&lt;"@ =~= seq!['&', 'l', 't', ';'],
        "&gt;"@ =~= seq!['&', 'g', 't', ';'],
        "&quot;"@ =~= seq!['&', 'q', 'u', 'o', 't', ';'],
        "&apos;"@ =~= seq!['&', 'a', 'p', 'o', 's', ';'],
{
    reveal_strlit("&amp;");
    reveal_strlit("&lt;");
    reveal_strlit("&gt;");
    reveal_strlit("&quot;");
    reveal_strlit("&apos;");
}

proof fn lemma_unescape_one(c: char, rest: Seq<char>)
    ensures
        unescape(escape_char(c) + rest) == seq![c] + unescape(rest),
{
    lemma_entity_literals();
    let e = escape_char(c);
    let t = e + rest;
    assert(t.subrange(0, e.len() as int) =~= e);
    assert(t.skip(e.len() as int) =~= rest);
    if !is_special(c) {
        assert(t[0] == c);
        assert(t.len() >= 5 ==> t.subrange(0, 5)[0] == c);
        assert(t.len() >= 4 ==> t.subrange(0, 4)[0] == c);
        assert(t.len() >= 6 ==> t.subrange(0, 6)[0] == c);
    } else if c == '<' {
        if t.len() >= 5 {
            assert(t.subrange(0, 5)[1] == 'l');
        }
    } else if c == '>' {
        if t.len() >= 5 {
            assert(t.subrange(0, 5)[1] == 'g');
        }
        assert(t.subrange(0, 4)[1] == 'g');
    } else if c == '"' {
        assert(t.subrange(0, 5)[1] == 'q');
        assert(t.subrange(0, 4)[1] == 'q');
    } else if c == '\'' {
        assert(t.subrange(0, 5)[2] == 'p');
        assert(t.subrange(0, 4)[1] == 'a');
        assert(t.subrange(0, 6)[2] == 'p');
    }
}

/// Decoding the escaped text under the standard entity rules gives the text back.
pub proof fn law_escape_round_trip(s: Seq<char>)
    ensures
        unescape(escape(s)) == s,
    decreases s.len(),
{
    if s.len() == 0 {
        assert(unescape(Seq::empty()) == Seq::<char>::empty());
    } else {
        law_escape_round_trip(s.skip(1));
        lemma_unescape_one(s[0], escape(s.skip(1)));
        assert(seq![s[0]] + s.skip(1) =~= s);
    }
}

/// Escaped text holds no raw `<`, `>`, `"` or `'`, and each `&` in it starts
/// one of the five entities.
pub proof fn law_escape_no_raw(s: Seq<char>)
    ensures
        forall|i: int|
            0 <= i < escape(s).len() ==> (#[trigger] escape(s)[i] == '&' ==> entity_at(escape(s), i))
                && escape(s)[i] != '<' && escape(s)[i] != '>' && escape(s)[i] != '"'
                && escape(s)[i] != '\'',
    decreases s.len(),
{
    lemma_entity_literals();
    if s.len() > 0 {
        law_escape_no_raw(s.skip(1));
        let e = escape_char(s[0]);
        let r = escape(s.skip(1));
        let t = escape(s);
        assert(t == e + r);
        assert forall|i: int| 0 <= i < t.len() implies (#[trigger] t[i] == '&' ==> entity_at(t, i))
            && t[i] != '<' && t[i] != '>' && t[i] != '"' && t[i] != '\'' by {
            if i < e.len() {
                assert(t[i] == e[i]);
                if t[i] == '&' {
                    assert(i == 0);
                    assert(t.subrange(0, e.len() as int) =~= e);
                }
            } else {
                let j = i - e.len();
                assert(t[i] == r[j]);
                if t[i] == '&' {
                    assert(entity_at(r, j));
                    if j + 4 <= r.len() {
                        assert(t.subrange(i, i + 4) =~= r.subrange(j, j + 4));
                    }
                    if j + 5 <= r.len() {
                        assert(t.subrange(i, i + 5) =~= r.subrange(j, j + 5));
                    }
                    if j + 6 <= r.len() {
                        assert(t.subrange(i, i + 6) =~= r.subrange(j, j + 6));
                    }
                }
            }
        }
    }
}

} // verus!
