//! Text primitives: white space, trimming, lines, decimal numbers.
//!
//! Text is modelled as a sequence of characters, `Seq<char>`, which is the view of `str` and
//! `String`. Each executable function below is stated by a spec function on such sequences.

use vstd::prelude::*;
use vstd::slice::slice_subrange;
use vstd::string::*;
use vstd::utf8::*;

verus! {

// ---------------------------------------------------------------------------------------------
// What the standard library provides
// ---------------------------------------------------------------------------------------------
/// `String::push` appends the given character to the end of the string.
pub assume_specification[ String::push ](s: &mut String, c: char)
    ensures
        final(s)@ == old(s)@.push(c),
;

/// The text that `String::from_utf8_lossy` makes of `bytes`: malformed stretches become
/// replacement characters.
pub uninterp spec fn utf8_lossy(bytes: Seq<u8>) -> Seq<char>;

/// Calls `String::from_utf8_lossy`. The text is a function of the bytes alone, and well-formed
/// UTF-8 is decoded as it is. Which replacement characters malformed bytes give is not stated.
#[verifier::external_body]
fn lossy_text(bytes: &[u8]) -> (text: String)
    ensures
        text@ == utf8_lossy(bytes@),
        valid_utf8(bytes@) ==> text@ == decode_utf8(bytes@),
{
    String::from_utf8_lossy(bytes).into_owned()
}

/// The text of the output of a command: well-formed UTF-8 is decoded as it is, and malformed
/// stretches become replacement characters.
pub fn decode(bytes: &[u8]) -> (text: String)
    ensures
        text@ == utf8_lossy(bytes@),
        valid_utf8(bytes@) ==> text@ == decode_utf8(bytes@),
{
    lossy_text(bytes)
}

/// Calls `String::from_utf8`: the decoded text of well-formed UTF-8, and nothing for bytes that
/// are not UTF-8.
#[verifier::external_body]
pub(crate) fn strict_text(bytes: Vec<u8>) -> (text: Option<String>)
    ensures
        text is Some <==> valid_utf8(bytes@),
        text matches Some(t) ==> t@ == decode_utf8(bytes@),
{
    String::from_utf8(bytes).ok()
}

// ---------------------------------------------------------------------------------------------
// Characters and sequences of text
// ---------------------------------------------------------------------------------------------
/// The views of a sequence of strings.
pub open spec fn texts(v: Seq<String>) -> Seq<Seq<char>> {
    Seq::new(v.len(), |i: int| v[i]@)
}

/// The views of a slice of string slices.
pub open spec fn str_texts(list: Seq<&str>) -> Seq<Seq<char>> {
    Seq::new(list.len(), |i: int| list[i]@)
}

/// The view of an optional string.
pub open spec fn opt_text(o: Option<String>) -> Option<Seq<char>> {
    match o {
        Some(s) => Some(s@),
        None => None,
    }
}

/// The characters of `s`.
pub fn chars_of(s: &str) -> (v: Vec<char>)
    ensures
        v@ == s@,
{
    let mut v: Vec<char> = Vec::new();
    for c in it: s.chars()
        invariant
            v@ == s@.take(it.index() as int),
            it.seq() == s@,
    {
        v.push(c);
    }
    v
}

/// The string with the characters `cs`.
pub fn string_of(cs: &[char]) -> (s: String)
    ensures
        s@ == cs@,
{
    let mut s = String::new();
    let mut i: usize = 0;
    while i < cs.len()
        invariant
            i <= cs.len(),
            s@ == cs@.take(i as int),
        decreases cs.len() - i,
    {
        s.push(cs[i]);
        i += 1;
    }
    s
}

/// Owned copies of the strings in `list`.
pub fn words(list: &[&str]) -> (v: Vec<String>)
    ensures
        texts(v@) == str_texts(list@),
{
    let mut v: Vec<String> = Vec::new();
    let mut i: usize = 0;
    while i < list.len()
        invariant
            i <= list.len(),
            v.len() == i,
            forall|j: int| 0 <= j < i ==> v@[j]@ == list@[j]@,
        decreases list.len() - i,
    {
        v.push(list[i].to_owned());
        i += 1;
    }
    v
}

/// A copy of a list of strings.
pub fn copy_texts(list: &Vec<String>) -> (v: Vec<String>)
    ensures
        texts(v@) == texts(list@),
{
    let mut v: Vec<String> = Vec::new();
    let mut i: usize = 0;
    while i < list.len()
        invariant
            i <= list.len(),
            v.len() == i,
            forall|j: int| 0 <= j < i ==> v@[j]@ == list@[j]@,
        decreases list.len() - i,
    {
        v.push(list[i].clone());
        i += 1;
    }
    v
}

/// A copy of an optional string.
pub fn copy_opt(o: &Option<String>) -> (r: Option<String>)
    ensures
        opt_text(r) == opt_text(*o),
{
    match o {
        Some(s) => Some(s.clone()),
        None => None,
    }
}

/// Whether two slices hold the same characters.
fn same_chars(a: &[char], b: &[char]) -> (r: bool)
    ensures
        r == (a@ == b@),
{
    if a.len() != b.len() {
        return false;
    }
    let mut i: usize = 0;
    while i < a.len()
        invariant
            i <= a.len(),
            a.len() == b.len(),
            a@.take(i as int) == b@.take(i as int),
        decreases a.len() - i,
    {
        if a[i] != b[i] {
            return false;
        }
        assert(a@.take(i + 1) =~= a@.take(i as int).push(a@[i as int]));
        assert(b@.take(i + 1) =~= b@.take(i as int).push(b@[i as int]));
        i += 1;
    }
    assert(a@ =~= a@.take(i as int));
    assert(b@ =~= b@.take(i as int));
    true
}

/// Whether two strings are the same text.
pub fn same_text(a: &str, b: &str) -> (r: bool)
    ensures
        r == (a@ == b@),
{
    let x = chars_of(a);
    let y = chars_of(b);
    same_chars(x.as_slice(), y.as_slice())
}

/// Whether `s` ends with `suffix`.
pub open spec fn has_suffix(s: Seq<char>, suffix: Seq<char>) -> bool {
    suffix.len() <= s.len() && s.skip(s.len() - suffix.len()) == suffix
}

/// Whether `s` ends with `suffix`.
pub fn ends_with(s: &str, suffix: &str) -> (r: bool)
    ensures
        r == has_suffix(s@, suffix@),
{
    let x = chars_of(s);
    let y = chars_of(suffix);
    if y.len() > x.len() {
        return false;
    }
    let from: usize = x.len() - y.len();
    let tail = slice_subrange(x.as_slice(), from, x.len());
    assert(tail@ =~= s@.skip(s@.len() - suffix@.len()));
    same_chars(tail, y.as_slice())
}

/// What follows `prefix` in `s`, if `s` starts with it.
pub open spec fn after_prefix(s: Seq<char>, prefix: Seq<char>) -> Option<Seq<char>> {
    if prefix.len() <= s.len() && s.take(prefix.len() as int) == prefix {
        Some(s.skip(prefix.len() as int))
    } else {
        None
    }
}

/// What follows `prefix` in `s`, if `s` starts with it.
pub fn strip_prefix(s: &str, prefix: &str) -> (r: Option<String>)
    ensures
        opt_text(r) == after_prefix(s@, prefix@),
{
    let x = chars_of(s);
    let y = chars_of(prefix);
    if y.len() > x.len() {
        return None;
    }
    let head = slice_subrange(x.as_slice(), 0, y.len());
    assert(head@ =~= s@.take(prefix@.len() as int));
    if same_chars(head, y.as_slice()) {
        let rest = slice_subrange(x.as_slice(), y.len(), x.len());
        assert(rest@ =~= s@.skip(prefix@.len() as int));
        Some(string_of(rest))
    } else {
        None
    }
}

// ---------------------------------------------------------------------------------------------
// White space
// ---------------------------------------------------------------------------------------------
/// Whether `c` has the Unicode property `White_Space`.
pub open spec fn white_space(c: char) -> bool {
    ||| '\u{9}' <= c <= '\u{d}'
    ||| c == ' '
    ||| c == '\u{85}'
    ||| c == '\u{a0}'
    ||| c == '\u{1680}'
    ||| '\u{2000}' <= c <= '\u{200a}'
    ||| c == '\u{2028}'
    ||| c == '\u{2029}'
    ||| c == '\u{202f}'
    ||| c == '\u{205f}'
    ||| c == '\u{3000}'
}

/// Whether `c` has the Unicode property `White_Space`.
pub fn is_whitespace(c: char) -> (r: bool)
    ensures
        r == white_space(c),
{
    ('\u{9}' <= c && c <= '\u{d}') || c == ' ' || c == '\u{85}' || c == '\u{a0}' || c == '\u{1680}'
        || ('\u{2000}' <= c && c <= '\u{200a}') || c == '\u{2028}' || c == '\u{2029}' || c
        == '\u{202f}' || c == '\u{205f}' || c == '\u{3000}'
}

/// Whether white space occurs in `s`.
pub open spec fn has_white_space(s: Seq<char>) -> bool {
    exists|i: int| 0 <= i < s.len() && white_space(#[trigger] s[i])
}

/// Whether white space occurs in `s`.
pub fn contains_whitespace(s: &str) -> (r: bool)
    ensures
        r == has_white_space(s@),
{
    let cs = chars_of(s);
    let mut i: usize = 0;
    while i < cs.len()
        invariant
            i <= cs.len(),
            cs@ == s@,
            forall|j: int| 0 <= j < i ==> !white_space(#[trigger] s@[j]),
        decreases cs.len() - i,
    {
        if is_whitespace(cs[i]) {
            assert(white_space(s@[i as int]));
            return true;
        }
        i += 1;
    }
    false
}

/// `s` without its leading white space.
pub open spec fn trim_start_text(s: Seq<char>) -> Seq<char>
    decreases s.len(),
{
    if s.len() > 0 && white_space(s[0]) {
        trim_start_text(s.drop_first())
    } else {
        s
    }
}

/// `s` without its trailing white space.
pub open spec fn trim_end_text(s: Seq<char>) -> Seq<char>
    decreases s.len(),
{
    if s.len() > 0 && white_space(s.last()) {
        trim_end_text(s.drop_last())
    } else {
        s
    }
}

/// `s` without leading and trailing white space.
pub open spec fn trim_text(s: Seq<char>) -> Seq<char> {
    trim_end_text(trim_start_text(s))
}

/// `cs` without leading and trailing white space.
fn trim_chars(cs: &[char]) -> (r: &[char])
    ensures
        r@ == trim_text(cs@),
{
    let mut i: usize = 0;
    assert(cs@.skip(0) =~= cs@);
    while i < cs.len() && is_whitespace(cs[i])
        invariant
            i <= cs.len(),
            trim_start_text(cs@.skip(i as int)) == trim_start_text(cs@),
        decreases cs.len() - i,
    {
        assert(cs@.skip(i as int).drop_first() =~= cs@.skip(i + 1));
        i += 1;
    }
    assert(trim_start_text(cs@) == cs@.skip(i as int));
    let mut j: usize = cs.len();
    assert(cs@.subrange(i as int, j as int) =~= cs@.skip(i as int));
    while i < j && is_whitespace(cs[j - 1])
        invariant
            i <= j <= cs.len(),
            trim_end_text(cs@.subrange(i as int, j as int)) == trim_text(cs@),
        decreases j,
    {
        assert(cs@.subrange(i as int, j as int).last() == cs@[j - 1]);
        assert(cs@.subrange(i as int, j as int).drop_last() =~= cs@.subrange(i as int, j - 1));
        j -= 1;
    }
    proof {
        if i < j {
            assert(cs@.subrange(i as int, j as int).last() == cs@[j - 1]);
        }
    }
    slice_subrange(cs, i, j)
}

/// `s` without leading and trailing white space.
pub fn trim(s: &str) -> (r: String)
    ensures
        r@ == trim_text(s@),
{
    let cs = chars_of(s);
    string_of(trim_chars(cs.as_slice()))
}

// ---------------------------------------------------------------------------------------------
// Splitting
// ---------------------------------------------------------------------------------------------
/// The position of the first `c` in `s`, or the length of `s` if there is none.
pub open spec fn first_of(s: Seq<char>, c: char) -> int
    decreases s.len(),
{
    if s.len() == 0 || s[0] == c {
        0
    } else {
        1 + first_of(s.drop_first(), c)
    }
}

/// What `first_of` is: a position before which there is no `c`, and at which there is one unless
/// it is the end.
pub proof fn lemma_first_of(s: Seq<char>, c: char)
    ensures
        0 <= first_of(s, c) <= s.len(),
        forall|i: int| 0 <= i < first_of(s, c) ==> s[i] != c,
        first_of(s, c) < s.len() ==> s[first_of(s, c)] == c,
    decreases s.len(),
{
    if s.len() > 0 && s[0] != c {
        let rest = s.drop_first();
        lemma_first_of(rest, c);
        assert forall|i: int| 0 <= i < first_of(s, c) implies s[i] != c by {
            if i > 0 {
                assert(rest[i - 1] == s[i]);
            }
        }
    }
}

/// A position before which there is no `c`, and at which there is one unless it is the end, is
/// `first_of`.
pub proof fn lemma_first_of_unique(s: Seq<char>, c: char, k: int)
    requires
        0 <= k <= s.len(),
        forall|i: int| 0 <= i < k ==> s[i] != c,
        k < s.len() ==> s[k] == c,
    ensures
        first_of(s, c) == k,
{
    lemma_first_of(s, c);
    let f = first_of(s, c);
    if f < k {
        assert(s[f] != c);
    } else if k < f {
        assert(s[k] != c);
    }
}

/// The position of the first `c` in `cs`, or the length of `cs` if there is none.
fn find_first(cs: &[char], c: char) -> (r: usize)
    ensures
        r == first_of(cs@, c),
        r <= cs.len(),
{
    let mut i: usize = 0;
    while i < cs.len() && cs[i] != c
        invariant
            i <= cs.len(),
            forall|j: int| 0 <= j < i ==> cs@[j] != c,
        decreases cs.len() - i,
    {
        i += 1;
    }
    proof {
        lemma_first_of_unique(cs@, c, i as int);
    }
    i
}

/// `s` without one trailing carriage return.
pub open spec fn chomp(s: Seq<char>) -> Seq<char> {
    if s.len() > 0 && s.last() == '\r' {
        s.drop_last()
    } else {
        s
    }
}

/// The lines of `s`: each ends at a line feed, or at a carriage return and a line feed, neither of
/// which belongs to it; the last one may lack them.
pub open spec fn lines_of(s: Seq<char>) -> Seq<Seq<char>>
    decreases s.len(),
    via lines_of_decreases
{
    if s.len() == 0 {
        Seq::empty()
    } else {
        let i = first_of(s, '\n');
        if i == s.len() {
            seq![s]
        } else {
            seq![chomp(s.take(i))] + lines_of(s.skip(i + 1))
        }
    }
}

#[via_fn]
proof fn lines_of_decreases(s: Seq<char>) {
    lemma_first_of(s, '\n');
}

/// The lines of `s`.
pub fn lines(s: &str) -> (r: Vec<String>)
    ensures
        texts(r@) == lines_of(s@),
{
    let cs = chars_of(s);
    let mut out: Vec<String> = Vec::new();
    let mut from: usize = 0;
    assert(cs@.skip(0) =~= cs@);
    assert(texts(out@) + lines_of(cs@) =~= lines_of(cs@));
    while from < cs.len()
        invariant
            from <= cs.len(),
            cs@ == s@,
            texts(out@) + lines_of(cs@.skip(from as int)) == lines_of(s@),
        decreases cs.len() - from,
    {
        let ghost rest = cs@.skip(from as int);
        let ghost before = texts(out@);
        let tail = slice_subrange(cs.as_slice(), from, cs.len());
        assert(tail@ =~= rest);
        let i = find_first(tail, '\n');
        if i == tail.len() {
            out.push(string_of(tail));
            assert(texts(out@) =~= before.push(rest));
            assert(texts(out@) =~= before + seq![rest]);
            from = cs.len();
            assert(cs@.skip(from as int) =~= Seq::empty());
            assert(texts(out@) + lines_of(cs@.skip(from as int)) =~= texts(out@));
        } else {
            let end: usize = if i > 0 && tail[i - 1] == '\r' {
                i - 1
            } else {
                i
            };
            let line = slice_subrange(tail, 0, end);
            assert(line@ =~= chomp(rest.take(i as int)));
            out.push(string_of(line));
            assert(texts(out@) =~= before.push(line@));
            from = from + i + 1;
            assert(rest.skip(i + 1) =~= cs@.skip(from as int));
            assert(texts(out@) + lines_of(cs@.skip(from as int)) =~= before + (seq![line@]
                + lines_of(cs@.skip(from as int))));
        }
    }
    assert(cs@.skip(from as int) =~= Seq::empty());
    assert(texts(out@) + lines_of(cs@.skip(from as int)) =~= texts(out@));
    out
}

/// What stands before and after the first `c` in `s`.
pub open spec fn split_at_first(s: Seq<char>, c: char) -> Option<(Seq<char>, Seq<char>)> {
    let i = first_of(s, c);
    if i < s.len() {
        Some((s.take(i), s.skip(i + 1)))
    } else {
        None
    }
}

/// What stands before and after the first `c` in `s`.
pub fn split_once(s: &str, c: char) -> (r: Option<(String, String)>)
    ensures
        r is Some <==> split_at_first(s@, c) is Some,
        r matches Some((a, b)) ==> split_at_first(s@, c) == Some((a@, b@)),
{
    let cs = chars_of(s);
    let i = find_first(cs.as_slice(), c);
    if i < cs.len() {
        let before = slice_subrange(cs.as_slice(), 0, i);
        let after = slice_subrange(cs.as_slice(), i + 1, cs.len());
        assert(before@ =~= s@.take(i as int));
        assert(after@ =~= s@.skip(i + 1));
        Some((string_of(before), string_of(after)))
    } else {
        None
    }
}

/// `parts` in order, with `sep` between neighbours.
pub open spec fn joined(parts: Seq<Seq<char>>, sep: Seq<char>) -> Seq<char>
    decreases parts.len(),
{
    if parts.len() == 0 {
        Seq::empty()
    } else if parts.len() == 1 {
        parts[0]
    } else {
        joined(parts.drop_last(), sep) + sep + parts.last()
    }
}

/// The last `n` elements of `s`, or all of it if there are fewer.
pub open spec fn last_n<A>(s: Seq<A>, n: nat) -> Seq<A> {
    if n <= s.len() {
        s.skip(s.len() - n)
    } else {
        s
    }
}

/// The last `n` lines of `s`, joined by line feeds.
pub open spec fn tail_text(s: Seq<char>, n: nat) -> Seq<char> {
    joined(last_n(lines_of(s), n), "\n"@)
}

/// The last `n` lines of `s`, joined by line feeds.
pub fn tail_lines(s: &str, n: usize) -> (r: String)
    ensures
        r@ == tail_text(s@, n as nat),
{
    let all = lines(s);
    let start: usize = if n <= all.len() {
        all.len() - n
    } else {
        0
    };
    let ghost chosen = last_n(lines_of(s@), n as nat);
    let mut out = String::new();
    let mut i: usize = start;
    assert(chosen.take(0) =~= Seq::empty());
    while i < all.len()
        invariant
            start <= i <= all.len(),
            texts(all@) == lines_of(s@),
            chosen.len() == all.len() - start,
            forall|k: int| start <= k < all.len() ==> chosen[k - start] == #[trigger] all@[k]@,
            out@ == joined(chosen.take(i - start), "\n"@),
        decreases all.len() - i,
    {
        let ghost k = i - start;
        if i > start {
            out.append("\n");
        }
        out.append(all[i].as_str());
        assert(chosen.take(k + 1).drop_last() =~= chosen.take(k));
        assert(chosen[i - start] == all@[i as int]@);
        assert(chosen.take(k + 1).last() == all@[i as int]@);
        proof {
            if k == 0 {
                assert(out@ =~= all@[i as int]@);
            }
        }
        i += 1;
    }
    assert(chosen.take(i - start) =~= chosen);
    out
}

// ---------------------------------------------------------------------------------------------
// Decimal numbers
// ---------------------------------------------------------------------------------------------
/// The decimal digit of value `d`.
pub open spec fn digit(d: nat) -> char {
    (48 + d) as char
}

/// `n` in decimal.
pub open spec fn decimal_text(n: nat) -> Seq<char>
    decreases n,
{
    if n < 10 {
        seq![digit(n)]
    } else {
        decimal_text(n / 10).push(digit(n % 10))
    }
}

/// `n` in decimal, with a minus sign if it is negative.
pub open spec fn signed_text(n: int) -> Seq<char> {
    if n < 0 {
        seq!['-'] + decimal_text((-n) as nat)
    } else {
        decimal_text(n as nat)
    }
}

/// `n` in decimal.
pub fn decimal(n: u64) -> (s: String)
    ensures
        s@ == decimal_text(n as nat),
    decreases n,
{
    let d = (48u8 + (n % 10) as u8) as char;
    let mut s = if n < 10 {
        String::new()
    } else {
        decimal(n / 10)
    };
    s.push(d);
    s
}

/// `n` in decimal, with a minus sign if it is negative.
pub fn signed_decimal(n: i32) -> (s: String)
    ensures
        s@ == signed_text(n as int),
{
    if n < 0 {
        let mut s = String::new();
        s.push('-');
        let digits = decimal((-(n as i64)) as u64);
        s.append(digits.as_str());
        s
    } else {
        decimal(n as u64)
    }
}

/// Whether `c` is an ASCII digit.
pub open spec fn is_digit(c: char) -> bool {
    '0' <= c <= '9'
}

/// The number that a sequence of digits stands for.
pub open spec fn digits_value(s: Seq<char>) -> nat
    decreases s.len(),
{
    if s.len() == 0 {
        0
    } else {
        digits_value(s.drop_last()) * 10 + (s.last() as nat - 48) as nat
    }
}

/// The digits of a number that may carry a plus sign.
pub open spec fn unsigned_digits(s: Seq<char>) -> Seq<char> {
    if s.len() > 0 && s[0] == '+' {
        s.skip(1)
    } else {
        s
    }
}

/// The unsigned 32-bit number that `s` spells: an optional plus sign and at least one ASCII digit,
/// of a value that fits.
pub open spec fn parsed_u32(s: Seq<char>) -> Option<u32> {
    let d = unsigned_digits(s);
    if d.len() > 0 && (forall|i: int| 0 <= i < d.len() ==> is_digit(#[trigger] d[i]))
        && digits_value(d) <= u32::MAX {
        Some(digits_value(d) as u32)
    } else {
        None
    }
}

proof fn lemma_digits_value_grows(s: Seq<char>, k: int)
    requires
        0 <= k <= s.len(),
    ensures
        digits_value(s.take(k)) <= digits_value(s),
    decreases s.len() - k,
{
    if k < s.len() {
        lemma_digits_value_grows(s, k + 1);
        assert(s.take(k + 1).drop_last() =~= s.take(k));
    } else {
        assert(s.take(k) =~= s);
    }
}

/// The unsigned 32-bit number that `s` spells.
pub fn parse_u32(s: &str) -> (r: Option<u32>)
    ensures
        r == parsed_u32(s@),
{
    let cs = chars_of(s);
    let start: usize = if cs.len() > 0 && cs[0] == '+' {
        1
    } else {
        0
    };
    let ghost d = unsigned_digits(cs@);
    if start == cs.len() {
        return None;
    }
    let mut value: u64 = 0;
    let mut i: usize = start;
    while i < cs.len()
        invariant
            start <= i <= cs.len(),
            start <= 1,
            cs@ == s@,
            d == cs@.skip(start as int),
            d.len() > 0,
            d == unsigned_digits(cs@),
            value == digits_value(d.take(i - start)),
            value <= u32::MAX,
            forall|k: int| 0 <= k < i - start ==> is_digit(#[trigger] d[k]),
        decreases cs.len() - i,
    {
        let c = cs[i];
        assert(d[i - start] == c);
        if !('0' <= c && c <= '9') {
            return None;
        }
        assert(d.take(i - start + 1).drop_last() =~= d.take(i - start));
        value = value * 10 + (c as u64 - 48);
        i += 1;
        assert(value == digits_value(d.take(i - start)));
        if value > 0xffff_ffff {
            proof {
                lemma_digits_value_grows(d, i - start);
            }
            return None;
        }
    }
    assert(d.take(i - start) =~= d);
    Some(value as u32)
}

proof fn lemma_decimal_digits(n: nat)
    ensures
        decimal_text(n).len() > 0,
        forall|i: int| 0 <= i < decimal_text(n).len() ==> is_digit(#[trigger] decimal_text(n)[i]),
        digits_value(decimal_text(n)) == n,
    decreases n,
{
    if n < 10 {
        assert(decimal_text(n).drop_last() =~= Seq::empty());
        assert(digits_value(Seq::<char>::empty()) == 0);
    } else {
        lemma_decimal_digits(n / 10);
        assert(decimal_text(n).drop_last() =~= decimal_text(n / 10));
    }
}

/// A number written in decimal is read back as the same number.
pub proof fn decimal_reads_back(n: u32)
    ensures
        parsed_u32(decimal_text(n as nat)) == Some(n),
{
    lemma_decimal_digits(n as nat);
    assert(is_digit(decimal_text(n as nat)[0]));
}

/// Trimming is idempotent: what it leaves neither starts nor ends with white space.
pub proof fn trim_leaves_no_margin(s: Seq<char>)
    ensures
        trim_text(s).len() > 0 ==> !white_space(trim_text(s)[0]) && !white_space(
            trim_text(s).last(),
        ),
        trim_text(trim_text(s)) == trim_text(s),
{
    lemma_trim_start(s);
    lemma_trim_end(trim_start_text(s));
}

proof fn lemma_trim_start(s: Seq<char>)
    ensures
        trim_start_text(s).len() > 0 ==> !white_space(trim_start_text(s)[0]),
    decreases s.len(),
{
    if s.len() > 0 && white_space(s[0]) {
        lemma_trim_start(s.drop_first());
    }
}

proof fn lemma_trim_end(s: Seq<char>)
    ensures
        trim_end_text(s).len() <= s.len(),
        trim_end_text(s) == s.take(trim_end_text(s).len() as int),
        trim_end_text(s).len() > 0 ==> !white_space(trim_end_text(s).last()),
    decreases s.len(),
{
    if s.len() > 0 && white_space(s.last()) {
        lemma_trim_end(s.drop_last());
        assert(trim_end_text(s) =~= s.take(trim_end_text(s).len() as int));
    } else {
        assert(s.take(s.len() as int) =~= s);
    }
}

} // verus!
