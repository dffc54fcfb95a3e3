//! Laws of XML text, and of what occurs in a text.

use crate::render;
use vstd::prelude::*;

verus! {

/// Whether `needle` occurs in `hay`.
pub open spec fn occurs(needle: Seq<char>, hay: Seq<char>) -> bool {
    exists|i: int|
        0 <= i && i + needle.len() <= hay.len() && #[trigger] hay.subrange(i, i + needle.len())
            == needle
}

/// What occurs in a part of a text occurs in the text.
pub proof fn lemma_occurs_in_part(
    needle: Seq<char>,
    before: Seq<char>,
    part: Seq<char>,
    after: Seq<char>,
)
    requires
        occurs(needle, part),
    ensures
        occurs(needle, before + part + after),
{
    let i = choose|i: int|
        0 <= i && i + needle.len() <= part.len() && #[trigger] part.subrange(i, i + needle.len())
            == needle;
    let all = before + part + after;
    let k = before.len() + i;
    assert(all.subrange(k, k + needle.len()) =~= part.subrange(i, i + needle.len()));
}

/// A text occurs in itself.
pub proof fn lemma_occurs_self(t: Seq<char>)
    ensures
        occurs(t, t),
{
    assert(t.subrange(0, 0int + t.len()) =~= t);
}

/// Whether `c` occurs in `s`.
pub open spec fn has_char(s: Seq<char>, c: char) -> bool {
    exists|i: int| 0 <= i < s.len() && #[trigger] s[i] == c
}

/// The XML text of two strings is that of the first and then that of the second.
pub proof fn lemma_xml_text_add(a: Seq<char>, b: Seq<char>)
    ensures
        render::xml_text(a + b) == render::xml_text(a) + render::xml_text(b),
    decreases b.len(),
{
    if b.len() == 0 {
        assert(a + b =~= a);
        assert(render::xml_text(a + b) =~= render::xml_text(a) + render::xml_text(b));
    } else {
        lemma_xml_text_add(a, b.drop_last());
        assert((a + b).drop_last() =~= a + b.drop_last());
        assert(render::xml_text(a + b) =~= render::xml_text(a) + render::xml_text(b));
    }
}

proof fn lemma_xml_text_one(c: char)
    ensures
        render::xml_text(seq![c]) == render::xml_char(c),
{
    assert(seq![c].drop_last() =~= Seq::empty());
    assert(render::xml_text(Seq::empty()) == Seq::<char>::empty());
    assert(render::xml_text(seq![c]) =~= render::xml_char(c));
}

proof fn lemma_xml_text_first(s: Seq<char>)
    requires
        s.len() > 0,
    ensures
        render::xml_text(s) == render::xml_char(s[0]) + render::xml_text(s.drop_first()),
{
    lemma_xml_text_add(seq![s[0]], s.drop_first());
    lemma_xml_text_one(s[0]);
    assert(seq![s[0]] + s.drop_first() =~= s);
}

/// XML text holds no markup: neither of the angle brackets occurs in it.
pub proof fn xml_text_has_no_markup(s: Seq<char>)
    ensures
        forall|i: int|
            0 <= i < render::xml_text(s).len() ==> #[trigger] render::xml_text(s)[i] != '<'
                && render::xml_text(s)[i] != '>',
    decreases s.len(),
{
    if s.len() > 0 {
        xml_text_has_no_markup(s.drop_last());
        reveal_strlit("&amp;");
        reveal_strlit("&lt;");
        reveal_strlit("&gt;");
        let before = render::xml_text(s.drop_last());
        let last = render::xml_char(s.last());
        assert forall|j: int| 0 <= j < last.len() implies last[j] != '<' && last[j] != '>' by {
            if s.last() == '&' {
                assert(last == "&amp;"@);
                assert(j == 0 || j == 1 || j == 2 || j == 3 || j == 4);
            } else if s.last() == '<' {
                assert(last == "&lt;"@);
                assert(j == 0 || j == 1 || j == 2 || j == 3);
            } else if s.last() == '>' {
                assert(last == "&gt;"@);
                assert(j == 0 || j == 1 || j == 2 || j == 3);
            }
        }
        assert forall|i: int| 0 <= i < render::xml_text(s).len() implies #[trigger] render::xml_text(
            s,
        )[i] != '<' && render::xml_text(s)[i] != '>' by {
            if i < before.len() {
                assert(render::xml_text(s)[i] == before[i]);
            } else {
                assert(render::xml_text(s)[i] == last[i - before.len()]);
            }
        }
    }
}

/// What a reader of XML makes of the text `t`: `&amp;`, `&lt;` and `&gt;` stand for one character
/// each, and any other character for itself.
pub open spec fn xml_value(t: Seq<char>) -> Seq<char>
    decreases t.len(),
{
    if t.len() == 0 {
        Seq::empty()
    } else if t.len() >= 5 && t.take(5) == "&amp;"@ {
        seq!['&'] + xml_value(t.skip(5))
    } else if t.len() >= 4 && t.take(4) == "&lt;"@ {
        seq!['<'] + xml_value(t.skip(4))
    } else if t.len() >= 4 && t.take(4) == "&gt;"@ {
        seq!['>'] + xml_value(t.skip(4))
    } else {
        seq![t[0]] + xml_value(t.skip(1))
    }
}

/// A reader of XML gets back what was written.
pub proof fn xml_text_reads_back(s: Seq<char>)
    ensures
        xml_value(render::xml_text(s)) == s,
    decreases s.len(),
{
    if s.len() > 0 {
        let c = s[0];
        let rest = s.drop_first();
        let t = render::xml_text(s);
        lemma_xml_text_first(s);
        xml_text_reads_back(rest);
        reveal_strlit("&amp;");
        reveal_strlit("&lt;");
        reveal_strlit("&gt;");
        let head = render::xml_char(c);
        assert(t == head + render::xml_text(rest));
        if c == '&' {
            assert(t.take(5) =~= "&amp;"@);
            assert(t.skip(5) =~= render::xml_text(rest));
        } else if c == '<' {
            assert(t.take(4) =~= "&lt;"@);
            assert(t.skip(4) =~= render::xml_text(rest));
            if t.len() >= 5 {
                assert(t.take(5)[1] == 'l');
                assert("&amp;"@[1] == 'a');
            }
        } else if c == '>' {
            assert(t.take(4) =~= "&gt;"@);
            assert(t.skip(4) =~= render::xml_text(rest));
            if t.len() >= 5 {
                assert(t.take(5)[1] == 'g');
                assert("&amp;"@[1] == 'a');
            }
            assert(t.take(4)[1] == 'g');
            assert("&lt;"@[1] == 'l');
        } else {
            assert(t[0] == c);
            assert(t.skip(1) =~= render::xml_text(rest));
            if t.len() >= 5 {
                assert(t.take(5)[0] == c);
            }
            if t.len() >= 4 {
                assert(t.take(4)[0] == c);
            }
        }
        assert(xml_value(t) =~= s);
    }
}

/// Different strings have different XML texts.
pub proof fn xml_text_is_injective(a: Seq<char>, b: Seq<char>)
    ensures
        render::xml_text(a) == render::xml_text(b) ==> a == b,
{
    xml_text_reads_back(a);
    xml_text_reads_back(b);
}

/// A string without ampersands and angle brackets is its own XML text.
pub proof fn xml_text_of_plain(s: Seq<char>)
    requires
        !has_char(s, '&'),
        !has_char(s, '<'),
        !has_char(s, '>'),
    ensures
        render::xml_text(s) == s,
    decreases s.len(),
{
    if s.len() > 0 {
        let before = s.drop_last();
        assert forall|c: char| has_char(before, c) implies has_char(s, c) by {
            let i = choose|i: int| 0 <= i < before.len() && #[trigger] before[i] == c;
            assert(s[i] == c);
        }
        xml_text_of_plain(before);
        assert(s[s.len() - 1] == s.last());
        assert(render::xml_text(s) =~= s);
    }
}

/// Text is escaped character by character: the ampersand and the angle brackets by their names, and
/// nothing else.
pub proof fn three_characters_are_escaped(s: Seq<char>, c: char)
    ensures
        render::xml_text(Seq::empty()) == Seq::<char>::empty(),
        render::xml_text(s.push(c)) == render::xml_text(s) + (if c == '&' {
            seq!['&', 'a', 'm', 'p', ';']
        } else if c == '<' {
            seq!['&', 'l', 't', ';']
        } else if c == '>' {
            seq!['&', 'g', 't', ';']
        } else {
            seq![c]
        }),
{
    reveal_strlit("&amp;");
    reveal_strlit("&lt;");
    reveal_strlit("&gt;");
    assert("&amp;"@ =~= seq!['&', 'a', 'm', 'p', ';']);
    assert("&lt;"@ =~= seq!['&', 'l', 't', ';']);
    assert("&gt;"@ =~= seq!['&', 'g', 't', ';']);
    assert(s.push(c).drop_last() =~= s);
}

} // verus!
