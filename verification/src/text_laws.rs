//! Laws of lines of text.

use crate::text;
use vstd::prelude::*;

verus! {

/// Whether a line is told from its neighbours: no line feed occurs in it, and no carriage return
/// stands at its end.
pub open spec fn plain_line(line: Seq<char>) -> bool {
    &&& forall|i: int| 0 <= i < line.len() ==> #[trigger] line[i] != '\n'
    &&& line.len() > 0 ==> line.last() != '\r'
}

/// The first line of a text.
pub proof fn lemma_first_line(line: Seq<char>, rest: Seq<char>)
    requires
        plain_line(line),
    ensures
        text::lines_of(line + "\n"@ + rest) == seq![line] + text::lines_of(rest),
{
    reveal_strlit("\n");
    let s = line + "\n"@ + rest;
    let n = line.len() as int;
    assert forall|i: int| 0 <= i < n implies s[i] != '\n' by {
        assert(s[i] == line[i]);
    }
    assert(s[n] == '\n');
    text::lemma_first_of_unique(s, '\n', n);
    assert(s.take(n) =~= line);
    assert(s.skip(n + 1) =~= rest);
}

/// No line feed occurs in a line.
proof fn lemma_lines_have_no_feed(s: Seq<char>, i: int, j: int)
    requires
        0 <= i < text::lines_of(s).len(),
        0 <= j < text::lines_of(s)[i].len(),
    ensures
        text::lines_of(s)[i][j] != '\n',
    decreases s.len(),
{
    text::lemma_first_of(s, '\n');
    let k = text::first_of(s, '\n');
    if k < s.len() {
        let rest = s.skip(k + 1);
        if i > 0 {
            lemma_lines_have_no_feed(rest, i - 1, j);
        } else {
            assert(text::lines_of(s)[0] == text::chomp(s.take(k)));
            assert(text::chomp(s.take(k))[j] == s[j]);
        }
    }
}

proof fn lemma_joined_from_front(parts: Seq<Seq<char>>, sep: Seq<char>)
    requires
        parts.len() > 1,
    ensures
        text::joined(parts, sep) == parts[0] + sep + text::joined(parts.drop_first(), sep),
    decreases parts.len(),
{
    if parts.len() == 2 {
        assert(text::joined(parts.drop_last(), sep) == parts[0]);
        assert(text::joined(parts.drop_first(), sep) == parts[1]);
    } else {
        lemma_joined_from_front(parts.drop_last(), sep);
        assert(parts.drop_last().drop_first() =~= parts.drop_first().drop_last());
        let middle = text::joined(parts.drop_first().drop_last(), sep);
        assert(text::joined(parts, sep) =~= parts[0] + sep + (middle + sep + parts.last()));
    }
}

/// Lines that were joined are read back.
proof fn lemma_joined_reads_back(parts: Seq<Seq<char>>)
    requires
        forall|i: int| 0 <= i < parts.len() - 1 ==> plain_line(#[trigger] parts[i]),
        parts.len() > 0 ==> parts.last().len() > 0,
        parts.len() > 0 ==> forall|j: int|
            0 <= j < parts.last().len() ==> #[trigger] parts.last()[j] != '\n',
    ensures
        text::lines_of(text::joined(parts, "\n"@)) == parts,
    decreases parts.len(),
{
    if parts.len() == 0 {
        assert(text::lines_of(Seq::empty()) =~= parts);
    } else if parts.len() == 1 {
        let s = parts.last();
        text::lemma_first_of_unique(s, '\n', s.len() as int);
        assert(parts =~= seq![s]);
    } else {
        let rest = parts.drop_first();
        assert(rest.last() == parts.last());
        lemma_joined_from_front(parts, "\n"@);
        lemma_first_line(parts[0], text::joined(rest, "\n"@));
        lemma_joined_reads_back(rest);
        assert(parts =~= seq![parts[0]] + rest);
    }
}

/// The tail of a text has the last lines of the text, as many as asked for, if the last one is not
/// empty and no other one ends with a carriage return.
pub proof fn tail_has_the_last_lines(s: Seq<char>, n: nat)
    requires
        ({
            let chosen = text::last_n(text::lines_of(s), n);
            &&& chosen.len() > 0 ==> chosen.last().len() > 0
            &&& forall|i: int|
                0 <= i < chosen.len() - 1 && (#[trigger] chosen[i]).len() > 0 ==> chosen[i].last()
                    != '\r'
        }),
    ensures
        text::lines_of(text::tail_text(s, n)) == text::last_n(text::lines_of(s), n),
        text::last_n(text::lines_of(s), n).len() == (if n < text::lines_of(s).len() {
            n
        } else {
            text::lines_of(s).len()
        }),
{
    let all = text::lines_of(s);
    let chosen = text::last_n(all, n);
    let from = all.len() - chosen.len();
    assert forall|i: int, j: int|
        0 <= i < chosen.len() && 0 <= j < chosen[i].len() implies #[trigger] chosen[i][j]
        != '\n' by {
        assert(chosen[i] == all[from + i]);
        lemma_lines_have_no_feed(s, from + i, j);
    }
    assert forall|i: int| 0 <= i < chosen.len() - 1 implies plain_line(#[trigger] chosen[i]) by {
        assert forall|j: int| 0 <= j < chosen[i].len() implies #[trigger] chosen[i][j] != '\n' by {}
    }
    if chosen.len() > 0 {
        let last = chosen.len() - 1;
        assert forall|j: int| 0 <= j < chosen.last().len() implies #[trigger] chosen.last()[j]
            != '\n' by {
            assert(chosen[last][j] != '\n');
        }
    }
    lemma_joined_reads_back(chosen);
}

// ---------------------------------------------------------------------------------------------
// What the text primitives amount to
// ---------------------------------------------------------------------------------------------
/// A line ends at a line feed, or at a carriage return and a line feed; what follows the last line
/// feed is a line of its own, as it is, unless it is empty. This says for every text which lines it
/// has.
pub proof fn lines_end_at_feeds(line: Seq<char>, rest: Seq<char>)
    requires
        forall|i: int| 0 <= i < line.len() ==> #[trigger] line[i] != '\n',
    ensures
        text::lines_of(Seq::empty()) == Seq::<Seq<char>>::empty(),
        line.len() > 0 ==> text::lines_of(line) == seq![line],
        text::lines_of(line + seq!['\n'] + rest) == seq![
            if line.len() > 0 && line.last() == '\r' {
                line.drop_last()
            } else {
                line
            },
        ] + text::lines_of(rest),
{
    text::lemma_first_of_unique(line, '\n', line.len() as int);
    let s = line + seq!['\n'] + rest;
    let n = line.len() as int;
    assert forall|i: int| 0 <= i < n implies s[i] != '\n' by {
        assert(s[i] == line[i]);
    }
    assert(s[n] == '\n');
    text::lemma_first_of_unique(s, '\n', n);
    assert(s.take(n) =~= line);
    assert(s.skip(n + 1) =~= rest);
}

/// The white space characters are these.
pub proof fn white_space_characters(c: char)
    ensures
        text::white_space(c) <==> {
            let n = c as int;
            ||| 9 <= n <= 13
            ||| n == 0x20
            ||| n == 0x85
            ||| n == 0xa0
            ||| n == 0x1680
            ||| 0x2000 <= n <= 0x200a
            ||| n == 0x2028
            ||| n == 0x2029
            ||| n == 0x202f
            ||| n == 0x205f
            ||| n == 0x3000
        },
{
}

/// Whether a text holds white space only.
pub open spec fn blank(s: Seq<char>) -> bool {
    forall|i: int| 0 <= i < s.len() ==> text::white_space(#[trigger] s[i])
}

/// Whether a text neither starts nor ends with white space.
pub open spec fn trimmed(s: Seq<char>) -> bool {
    s.len() > 0 ==> !text::white_space(s[0]) && !text::white_space(s.last())
}

proof fn lemma_trim_start_blank(a: Seq<char>, x: Seq<char>)
    requires
        blank(a),
    ensures
        text::trim_start_text(a + x) == text::trim_start_text(x),
    decreases a.len(),
{
    if a.len() == 0 {
        assert(a + x =~= x);
    } else {
        assert((a + x)[0] == a[0]);
        assert((a + x).drop_first() =~= a.drop_first() + x);
        assert forall|i: int| 0 <= i < a.drop_first().len() implies text::white_space(
            #[trigger] a.drop_first()[i],
        ) by {
            assert(a.drop_first()[i] == a[i + 1]);
        }
        lemma_trim_start_blank(a.drop_first(), x);
    }
}

proof fn lemma_trim_end_blank(x: Seq<char>, b: Seq<char>)
    requires
        blank(b),
    ensures
        text::trim_end_text(x + b) == text::trim_end_text(x),
    decreases b.len(),
{
    if b.len() == 0 {
        assert(x + b =~= x);
    } else {
        assert((x + b).last() == b[b.len() - 1]);
        assert((x + b).drop_last() =~= x + b.drop_last());
        lemma_trim_end_blank(x, b.drop_last());
    }
}

/// Trimming takes the white space at both margins away, and nothing else.
pub proof fn trimming_takes_the_margins(a: Seq<char>, s: Seq<char>, b: Seq<char>)
    requires
        blank(a),
        trimmed(s),
        blank(b),
    ensures
        text::trim_text(a + s + b) == s,
{
    assert(a + s + b =~= a + (s + b));
    lemma_trim_start_blank(a, s + b);
    if s.len() == 0 {
        assert(s + b =~= b + Seq::<char>::empty());
        lemma_trim_start_blank(b, Seq::empty());
        assert(text::trim_text(a + s + b) =~= s);
    } else {
        assert((s + b)[0] == s[0]);
        lemma_trim_end_blank(s, b);
    }
}

/// A text is split at the first separator, which belongs to neither part, and only if there is
/// one.
pub proof fn splitting_is_at_the_first_separator(a: Seq<char>, c: char, b: Seq<char>)
    requires
        forall|i: int| 0 <= i < a.len() ==> #[trigger] a[i] != c,
    ensures
        text::split_at_first(a + seq![c] + b, c) == Some((a, b)),
        text::split_at_first(a, c) is None,
{
    let s = a + seq![c] + b;
    let n = a.len() as int;
    assert forall|i: int| 0 <= i < n implies s[i] != c by {
        assert(s[i] == a[i]);
    }
    assert(s[n] == c);
    text::lemma_first_of_unique(s, c, n);
    text::lemma_first_of_unique(a, c, n);
    assert(s.take(n) =~= a);
    assert(s.skip(n + 1) =~= b);
}

/// What follows a prefix is found exactly if the text starts with it.
pub proof fn prefixes_are_taken_off(s: Seq<char>, prefix: Seq<char>, rest: Seq<char>)
    ensures
        text::after_prefix(s, prefix) == Some(rest) <==> s == prefix + rest,
        text::after_prefix(prefix + rest, prefix) == Some(rest),
        text::after_prefix(s, prefix) is Some <==> exists|r: Seq<char>| s == prefix + r,
{
    let t = prefix + rest;
    assert(t.take(prefix.len() as int) =~= prefix);
    assert(t.skip(prefix.len() as int) =~= rest);
    if text::after_prefix(s, prefix) is Some {
        assert(s =~= prefix + s.skip(prefix.len() as int));
    }
    if exists|r: Seq<char>| s == prefix + r {
        let r = choose|r: Seq<char>| s == prefix + r;
        assert(s.take(prefix.len() as int) =~= prefix);
    }
}

/// A text has a suffix exactly if it ends with it.
pub proof fn suffixes_are_at_the_end(s: Seq<char>, suffix: Seq<char>)
    ensures
        text::has_suffix(s, suffix) <==> exists|r: Seq<char>| s == r + suffix,
{
    if text::has_suffix(s, suffix) {
        assert(s =~= s.take(s.len() - suffix.len()) + suffix);
    }
    if exists|r: Seq<char>| s == r + suffix {
        let r = choose|r: Seq<char>| s == r + suffix;
        assert(s.skip(s.len() - suffix.len()) =~= suffix);
    }
}

/// A number is written digit by digit, without leading zeros, and a negative one with a minus sign
/// before it.
pub proof fn numbers_are_written_digit_by_digit(n: nat, d: nat)
    requires
        d < 10,
    ensures
        text::decimal_text(d) == seq!["0123456789"@[d as int]],
        n > 0 ==> text::decimal_text(10 * n + d) == text::decimal_text(n).push(
            "0123456789"@[d as int],
        ),
        text::signed_text(n as int) == text::decimal_text(n),
        n > 0 ==> text::signed_text(-n) == seq!['-'] + text::decimal_text(n),
{
    reveal_strlit("0123456789");
    assert((10 * n + d) / 10 == n && (10 * n + d) % 10 == d) by (nonlinear_arith)
        requires
            d < 10,
    ;
    assert(text::digit(d) == "0123456789"@[d as int]);
}

/// Whether a text holds decimal digits only, and at least one.
pub open spec fn all_digits(s: Seq<char>) -> bool {
    s.len() > 0 && forall|i: int| 0 <= i < s.len() ==> '0' <= #[trigger] s[i] <= '9'
}

/// A number is read digit by digit, as long as it fits; one plus sign may stand before it, and
/// nothing else may stand anywhere.
pub proof fn numbers_are_read_digit_by_digit(s: Seq<char>, d: nat)
    requires
        d < 10,
    ensures
        ({
            let c = "0123456789"@[d as int];
            &&& text::parsed_u32(seq![c]) == Some(d as u32)
            &&& all_digits(s) ==> text::parsed_u32(s.push(c)) == (match text::parsed_u32(s) {
                Some(n) => if 10 * n + d <= 0xffff_ffff {
                    Some((10 * n + d) as u32)
                } else {
                    None
                },
                None => None,
            })
            &&& all_digits(s) ==> text::parsed_u32(seq!['+'] + s) == text::parsed_u32(s)
            &&& text::parsed_u32(s) is Some ==> all_digits(s) || (s.len() > 0 && s[0] == '+'
                && all_digits(s.drop_first()))
        }),
{
    reveal_strlit("0123456789");
    let c = "0123456789"@[d as int];
    assert(c as nat == 48 + d);
    let one = seq![c];
    assert(one.drop_last() =~= Seq::empty());
    assert(text::digits_value(Seq::<char>::empty()) == 0);
    assert(text::digits_value(one) == d);
    assert(text::parsed_u32(one) == Some(d as u32));
    if all_digits(s) {
        let t = s.push(c);
        assert(t.drop_last() =~= s);
        assert(s[0] != '+');
        assert(t[0] == s[0]);
        assert(text::unsigned_digits(s) == s);
        assert(text::unsigned_digits(t) == t);
        assert forall|i: int| 0 <= i < t.len() implies text::is_digit(#[trigger] t[i]) by {
            if i < s.len() {
                assert(t[i] == s[i]);
            }
        }
        assert(text::digits_value(t) == text::digits_value(s) * 10 + d);
        let p = seq!['+'] + s;
        assert(p.skip(1) =~= s);
    }
    if text::parsed_u32(s) is Some {
        let u = text::unsigned_digits(s);
        assert forall|i: int| 0 <= i < u.len() implies '0' <= #[trigger] u[i] <= '9' by {
            assert(text::is_digit(u[i]));
        }
        if s.len() > 0 && s[0] == '+' {
            assert(s.drop_first() =~= u);
        }
    }
}

/// Texts with a line feed between neighbours.
pub open spec fn with_feeds_between(parts: Seq<Seq<char>>) -> Seq<char>
    decreases parts.len(),
{
    if parts.len() == 0 {
        Seq::empty()
    } else if parts.len() == 1 {
        parts[0]
    } else {
        parts[0] + seq!['\n'] + with_feeds_between(parts.drop_first())
    }
}

proof fn lemma_joined_by_feeds(parts: Seq<Seq<char>>)
    ensures
        text::joined(parts, "\n"@) == with_feeds_between(parts),
    decreases parts.len(),
{
    reveal_strlit("\n");
    assert("\n"@ =~= seq!['\n']);
    if parts.len() > 1 {
        lemma_joined_from_front(parts, "\n"@);
        lemma_joined_by_feeds(parts.drop_first());
    }
}

/// The tail of a text is its last lines, as many as asked for or all of them, with line feeds
/// between them.
pub proof fn tail_is_the_last_lines(
    s: Seq<char>,
    n: nat,
    before: Seq<Seq<char>>,
    last: Seq<Seq<char>>,
)
    requires
        text::lines_of(s) == before + last,
        last.len() == n || (last.len() < n && before.len() == 0),
    ensures
        text::tail_text(s, n) == with_feeds_between(last),
{
    let all = text::lines_of(s);
    assert(text::last_n(all, n) =~= last);
    lemma_joined_by_feeds(last);
}

} // verus!
