//! A reader of property lists, and what it reads from the property list of a service.
//!
//! The reader knows strings, truth values, arrays and dictionaries, in any nesting. It passes over
//! spaces and line feeds between elements, and decodes the text of keys and strings.

use crate::plist_readback;
use crate::render;
use crate::render::{PlistLeaf, PlistValue};
use crate::service::{ProcessType, ServiceSpecView};
use crate::xml_laws;
use vstd::prelude::*;

verus! {

// ---------------------------------------------------------------------------------------------
// The reader
// ---------------------------------------------------------------------------------------------
/// A value of a property list.
pub enum Node {
    Text(Seq<char>),
    True,
    False,
    Array(Seq<Node>),
    Dict(Seq<(Seq<char>, Node)>),
}

/// What follows `prefix` in `t`, if `t` starts with it.
pub open spec fn cut(t: Seq<char>, prefix: Seq<char>) -> Option<Seq<char>> {
    if prefix.len() <= t.len() && t.take(prefix.len() as int) == prefix {
        Some(t.skip(prefix.len() as int))
    } else {
        None
    }
}

/// How many characters stand before the first tag.
pub open spec fn before_tag(t: Seq<char>) -> int
    decreases t.len(),
{
    if t.len() == 0 || t[0] == '<' {
        0
    } else {
        1 + before_tag(t.drop_first())
    }
}

/// The decoded text between two tags, and what follows the second.
pub open spec fn read_text(
    t: Seq<char>,
    opening: Seq<char>,
    closing: Seq<char>,
) -> Option<(Seq<char>, Seq<char>)> {
    match cut(t, opening) {
        Some(r) => match cut(r.skip(before_tag(r)), closing) {
            Some(rest) => Some((xml_laws::xml_value(r.take(before_tag(r))), rest)),
            None => None,
        },
        None => None,
    }
}

/// Whether a character stands between elements.
pub open spec fn is_gap(c: char) -> bool {
    c == ' ' || c == '\n'
}

/// The value at the beginning of the text, and what follows it.
pub open spec fn read_value(t: Seq<char>) -> Option<(Node, Seq<char>)>
    decreases t.len(), 0int,
{
    if t.len() == 0 {
        None
    } else if is_gap(t[0]) {
        read_value(t.drop_first())
    } else if let Some(rest) = cut(t, "<true/>"@) {
        Some((Node::True, rest))
    } else if let Some(rest) = cut(t, "<false/>"@) {
        Some((Node::False, rest))
    } else if let Some((text, rest)) = read_text(t, "<string>"@, "</string>"@) {
        Some((Node::Text(text), rest))
    } else if let Some(r) = cut(t, "<array>"@) {
        if r.len() < t.len() {
            match read_items(r) {
                Some((items, rest)) => Some((Node::Array(items), rest)),
                None => None,
            }
        } else {
            None
        }
    } else if let Some(r) = cut(t, "<dict>"@) {
        if r.len() < t.len() {
            match read_members(r) {
                Some((members, rest)) => Some((Node::Dict(members), rest)),
                None => None,
            }
        } else {
            None
        }
    } else {
        None
    }
}

/// The values up to the end of an array, and what follows it.
pub open spec fn read_items(t: Seq<char>) -> Option<(Seq<Node>, Seq<char>)>
    decreases t.len(), 1int,
{
    if t.len() == 0 {
        None
    } else if is_gap(t[0]) {
        read_items(t.drop_first())
    } else if let Some(rest) = cut(t, "</array>"@) {
        Some((Seq::empty(), rest))
    } else {
        match read_value(t) {
            Some((first, r)) => if r.len() < t.len() {
                match read_items(r) {
                    Some((items, rest)) => Some((seq![first] + items, rest)),
                    None => None,
                }
            } else {
                None
            },
            None => None,
        }
    }
}

/// The keys and values up to the end of a dictionary, and what follows it.
pub open spec fn read_members(t: Seq<char>) -> Option<(Seq<(Seq<char>, Node)>, Seq<char>)>
    decreases t.len(), 1int,
{
    if t.len() == 0 {
        None
    } else if is_gap(t[0]) {
        read_members(t.drop_first())
    } else if let Some(rest) = cut(t, "</dict>"@) {
        Some((Seq::empty(), rest))
    } else {
        match read_text(t, "<key>"@, "</key>"@) {
            Some((key, r)) => if r.len() < t.len() {
                match read_value(r) {
                    Some((value, after)) => if after.len() < t.len() {
                        match read_members(after) {
                            Some((members, rest)) => Some((seq![(key, value)] + members, rest)),
                            None => None,
                        }
                    } else {
                        None
                    },
                    None => None,
                }
            } else {
                None
            },
            None => None,
        }
    }
}

/// The dictionary that a property list holds, if the text is one.
pub open spec fn read_plist(t: Seq<char>) -> Option<Seq<(Seq<char>, Node)>> {
    match cut(t, "<?xml version=\"1.0\" encoding=\"UTF-8\"?>\n"@) {
        Some(a) => match cut(
            a,
            "<!DOCTYPE plist PUBLIC \"-//Apple//DTD PLIST 1.0//EN\" \"http://www.apple.com/DTDs/PropertyList-1.0.dtd\">\n"@,
        ) {
            Some(b) => match cut(b, "<plist version=\"1.0\">\n"@) {
                Some(c) => match read_value(c) {
                    Some((Node::Dict(members), rest)) => if rest == "\n</plist>\n"@ {
                        Some(members)
                    } else {
                        None
                    },
                    _ => None,
                },
                None => None,
            },
            None => None,
        },
        None => None,
    }
}

// ---------------------------------------------------------------------------------------------
// Reading what was written
// ---------------------------------------------------------------------------------------------
proof fn lemma_cut(prefix: Seq<char>, rest: Seq<char>)
    ensures
        cut(prefix + rest, prefix) == Some(rest),
{
    let t = prefix + rest;
    assert(t.take(prefix.len() as int) =~= prefix);
    assert(t.skip(prefix.len() as int) =~= rest);
}

proof fn lemma_uncut(t: Seq<char>, prefix: Seq<char>, i: int)
    requires
        0 <= i < prefix.len(),
        i < t.len(),
        t[i] != prefix[i],
    ensures
        cut(t, prefix) is None,
{
    if prefix.len() <= t.len() {
        assert(t.take(prefix.len() as int)[i] == t[i]);
    }
}

proof fn lemma_before_tag(s: Seq<char>, rest: Seq<char>)
    requires
        forall|i: int| 0 <= i < s.len() ==> #[trigger] s[i] != '<',
        rest.len() > 0,
        rest[0] == '<',
    ensures
        before_tag(s + rest) == s.len(),
    decreases s.len(),
{
    if s.len() == 0 {
        assert(s + rest =~= rest);
    } else {
        assert((s + rest)[0] == s[0]);
        assert((s + rest).drop_first() =~= s.drop_first() + rest);
        assert forall|i: int| 0 <= i < s.drop_first().len() implies #[trigger] s.drop_first()[i]
            != '<' by {
            assert(s.drop_first()[i] == s[i + 1]);
        }
        lemma_before_tag(s.drop_first(), rest);
    }
}

/// Text that was written between two tags is read back.
proof fn lemma_read_text(
    opening: Seq<char>,
    s: Seq<char>,
    closing: Seq<char>,
    rest: Seq<char>,
    t: Seq<char>,
)
    requires
        closing.len() > 0,
        closing[0] == '<',
        t == opening + render::xml_text(s) + closing + rest,
    ensures
        read_text(t, opening, closing) == Some((s, rest)),
{
    let x = render::xml_text(s);
    let after = closing + rest;
    let r = x + after;
    assert(t =~= opening + r);
    lemma_cut(opening, r);
    xml_laws::xml_text_has_no_markup(s);
    lemma_before_tag(x, after);
    assert(r.skip(x.len() as int) =~= after);
    assert(r.take(x.len() as int) =~= x);
    lemma_cut(closing, rest);
    xml_laws::xml_text_reads_back(s);
}

spec fn is_blank(s: Seq<char>) -> bool {
    forall|i: int| 0 <= i < s.len() ==> is_gap(#[trigger] s[i])
}

proof fn lemma_blank(gap: Seq<char>, t: Seq<char>)
    requires
        is_blank(gap),
    ensures
        read_value(gap + t) == read_value(t),
        read_items(gap + t) == read_items(t),
        read_members(gap + t) == read_members(t),
    decreases gap.len(),
{
    if gap.len() == 0 {
        assert(gap + t =~= t);
    } else {
        let less = gap.drop_first();
        assert((gap + t)[0] == gap[0]);
        assert((gap + t).drop_first() =~= less + t);
        assert forall|i: int| 0 <= i < less.len() implies is_gap(#[trigger] less[i]) by {
            assert(less[i] == gap[i + 1]);
        }
        lemma_blank(less, t);
    }
}

proof fn lemma_gaps()
    ensures
        is_blank("    "@),
        is_blank("        "@),
        is_blank("\n"@),
{
    reveal_strlit("    ");
    reveal_strlit("        ");
    reveal_strlit("\n");
}

/// A string is read as a string.
proof fn lemma_read_string(indent: Seq<char>, s: Seq<char>, rest: Seq<char>)
    requires
        is_blank(indent),
    ensures
        read_value(render::string_line(indent, s) + rest) == Some((Node::Text(s), "\n"@ + rest)),
{
    let x = render::xml_text(s);
    let after = "\n"@ + rest;
    let t = "<string>"@ + x + "</string>"@ + after;
    assert("</string>\n"@ =~= "</string>"@ + "\n"@) by {
        reveal_strlit("</string>\n");
        reveal_strlit("</string>");
        reveal_strlit("\n");
    }
    assert(render::string_line(indent, s) + rest =~= indent + t);
    lemma_blank(indent, t);
    assert(t.len() > 8 && t[0] == '<' && t[1] == 's') by {
        reveal_strlit("<string>");
        reveal_strlit("</string>");
        assert(t[0] == "<string>"@[0]);
        assert(t[1] == "<string>"@[1]);
    }
    assert(cut(t, "<true/>"@) is None) by {
        reveal_strlit("<true/>");
        lemma_uncut(t, "<true/>"@, 1);
    }
    assert(cut(t, "<false/>"@) is None) by {
        reveal_strlit("<false/>");
        lemma_uncut(t, "<false/>"@, 1);
    }
    assert(read_text(t, "<string>"@, "</string>"@) == Some((s, after))) by {
        reveal_strlit("</string>");
        lemma_read_text("<string>"@, s, "</string>"@, after, t);
    }
}

proof fn lemma_read_false(rest: Seq<char>)
    ensures
        read_value("        <false/>\n"@ + rest) == Some((Node::False, "\n"@ + rest)),
{
    let after = "\n"@ + rest;
    let t = "<false/>"@ + after;
    reveal_strlit("        <false/>\n");
    reveal_strlit("<false/>");
    reveal_strlit("        ");
    reveal_strlit("\n");
    reveal_strlit("<true/>");
    assert("        <false/>\n"@ + rest =~= "        "@ + t);
    lemma_gaps();
    lemma_blank("        "@, t);
    assert(t[0] == '<' && t[1] == 'f');
    lemma_uncut(t, "<true/>"@, 1);
    lemma_cut("<false/>"@, after);
}

proof fn lemma_read_true(rest: Seq<char>)
    ensures
        read_value("    <true/>\n"@ + rest) == Some((Node::True, "\n"@ + rest)),
{
    let after = "\n"@ + rest;
    let t = "<true/>"@ + after;
    reveal_strlit("    <true/>\n");
    reveal_strlit("<true/>");
    reveal_strlit("    ");
    reveal_strlit("\n");
    assert("    <true/>\n"@ + rest =~= "    "@ + t);
    lemma_gaps();
    lemma_blank("    "@, t);
    assert(t[0] == '<');
    lemma_cut("<true/>"@, after);
}

/// The strings of an array.
pub open spec fn text_nodes(items: Seq<Seq<char>>) -> Seq<Node> {
    Seq::new(items.len(), |i: int| Node::Text(items[i]))
}

proof fn lemma_read_elements(items: Seq<Seq<char>>, rest: Seq<char>)
    ensures
        read_items(render::element_lines(items) + ("    </array>\n"@ + rest)) == Some(
            (text_nodes(items), "\n"@ + rest),
        ),
    decreases items.len(),
{
    let end = "    </array>\n"@ + rest;
    lemma_gaps();
    if items.len() == 0 {
        let after = "\n"@ + rest;
        let t = "</array>"@ + after;
        reveal_strlit("    </array>\n");
        reveal_strlit("</array>");
        reveal_strlit("    ");
        reveal_strlit("\n");
        assert(render::element_lines(items) + end =~= "    "@ + t);
        lemma_blank("    "@, t);
        assert(t[0] == '<');
        lemma_cut("</array>"@, after);
        assert(text_nodes(items) =~= Seq::empty());
    } else {
        let others = items.drop_first();
        let lines = render::element_lines(others) + end;
        let line = render::string_line("        "@, items[0]);
        plist_readback::lemma_elements_from_front(items);
        assert(render::element_lines(items) + end =~= line + lines);
        lemma_read_elements(others, rest);
        lemma_item(items[0], lines);
        lemma_blank("\n"@, lines);
        assert(text_nodes(items) =~= seq![Node::Text(items[0])] + text_nodes(others));
    }
}

/// An element of an array is read, and then the others.
proof fn lemma_item(item: Seq<char>, lines: Seq<char>)
    ensures
        read_items(render::string_line("        "@, item) + lines) == (match read_items(
            "\n"@ + lines,
        ) {
            Some((items, rest)) => Some((seq![Node::Text(item)] + items, rest)),
            None => None,
        }),
{
    let indent = "        "@;
    let t = "<string>"@ + render::xml_text(item) + "</string>\n"@ + lines;
    lemma_gaps();
    assert(render::string_line(indent, item) + lines =~= indent + t);
    lemma_blank(indent, t);
    lemma_read_string(indent, item, lines);
    assert(t.len() > 8 && t.len() > ("\n"@ + lines).len() && t[0] == '<' && t[1] == 's') by {
        reveal_strlit("<string>");
        reveal_strlit("</string>\n");
        reveal_strlit("\n");
        assert(t[0] == "<string>"@[0]);
        assert(t[1] == "<string>"@[1]);
    }
    assert(cut(t, "</array>"@) is None) by {
        reveal_strlit("</array>");
        lemma_uncut(t, "</array>"@, 1);
    }
}

/// A key and its value are read, and then the others.
proof fn lemma_member(
    indent: Seq<char>,
    key: Seq<char>,
    value: Seq<char>,
    node: Node,
    lines: Seq<char>,
)
    requires
        is_blank(indent),
        read_value("\n"@ + (value + lines)) == Some((node, "\n"@ + lines)),
        value.len() > 0,
    ensures
        read_members(render::key_line(indent, key) + (value + lines)) == (match read_members(
            "\n"@ + lines,
        ) {
            Some((members, rest)) => Some((seq![(key, node)] + members, rest)),
            None => None,
        }),
{
    let x = render::xml_text(key);
    let after = "\n"@ + (value + lines);
    let t = "<key>"@ + x + "</key>"@ + after;
    assert("</key>\n"@ =~= "</key>"@ + "\n"@) by {
        reveal_strlit("</key>\n");
        reveal_strlit("</key>");
        reveal_strlit("\n");
    }
    assert(render::key_line(indent, key) + (value + lines) =~= indent + t);
    lemma_blank(indent, t);
    assert(t.len() > after.len() && after.len() > ("\n"@ + lines).len() && t[0] == '<' && t[1]
        == 'k') by {
        reveal_strlit("<key>");
        reveal_strlit("</key>");
        reveal_strlit("\n");
        assert(t[0] == "<key>"@[0]);
        assert(t[1] == "<key>"@[1]);
    }
    assert(cut(t, "</dict>"@) is None) by {
        reveal_strlit("</dict>");
        lemma_uncut(t, "</dict>"@, 1);
    }
    assert(read_text(t, "<key>"@, "</key>"@) == Some((key, after))) by {
        reveal_strlit("</key>");
        lemma_read_text("<key>"@, key, "</key>"@, after, t);
    }
}

/// The end of a dictionary is read.
proof fn lemma_dict_end(indent: Seq<char>, after: Seq<char>)
    requires
        is_blank(indent),
    ensures
        read_members(indent + ("</dict>"@ + after)) == Some(
            (Seq::<(Seq<char>, Node)>::empty(), after),
        ),
{
    let t = "</dict>"@ + after;
    lemma_blank(indent, t);
    reveal_strlit("</dict>");
    assert(t[0] == '<');
    lemma_cut("</dict>"@, after);
}

/// What a value of a nested dictionary is read as.
pub open spec fn leaf_node(leaf: PlistLeaf) -> Node {
    match leaf {
        PlistLeaf::Text(s) => Node::Text(s),
        PlistLeaf::False => Node::False,
    }
}

/// What the members of a nested dictionary are read as.
pub open spec fn member_nodes(members: Seq<(Seq<char>, PlistLeaf)>) -> Seq<(Seq<char>, Node)> {
    Seq::new(members.len(), |i: int| (members[i].0, leaf_node(members[i].1)))
}

proof fn lemma_read_leaf(leaf: PlistLeaf, rest: Seq<char>)
    ensures
        read_value(render::leaf_line(leaf) + rest) == Some((leaf_node(leaf), "\n"@ + rest)),
        render::leaf_line(leaf).len() > 0,
{
    lemma_gaps();
    match leaf {
        PlistLeaf::Text(s) => {
            lemma_read_string("        "@, s, rest);
            reveal_strlit("<string>");
        },
        PlistLeaf::False => {
            lemma_read_false(rest);
            reveal_strlit("        <false/>\n");
        },
    }
}

proof fn lemma_no_members(rest: Seq<char>)
    ensures
        read_members("    </dict>\n"@ + rest) == Some(
            (Seq::<(Seq<char>, Node)>::empty(), "\n"@ + rest),
        ),
{
    lemma_gaps();
    assert("    </dict>\n"@ =~= "    "@ + "</dict>"@ + "\n"@) by {
        reveal_strlit("    </dict>\n");
        reveal_strlit("</dict>");
        reveal_strlit("    ");
        reveal_strlit("\n");
    }
    lemma_regroup("    "@, "</dict>"@, "\n"@, rest);
    lemma_dict_end("    "@, "\n"@ + rest);
}

proof fn lemma_read_members(members: Seq<(Seq<char>, PlistLeaf)>, rest: Seq<char>)
    ensures
        read_members(render::member_lines(members) + ("    </dict>\n"@ + rest)) == Some(
            (member_nodes(members), "\n"@ + rest),
        ),
    decreases members.len(),
{
    let end = "    </dict>\n"@ + rest;
    lemma_gaps();
    if members.len() == 0 {
        lemma_no_members(rest);
        assert(render::member_lines(members) + end =~= end);
        assert(member_nodes(members) =~= Seq::empty());
    } else {
        let others = members.drop_first();
        let (key, leaf) = members[0];
        let more = render::member_lines(others);
        let lines = more + end;
        let k = render::key_line("        "@, key);
        let v = render::leaf_line(leaf);
        plist_readback::lemma_members_from_front(members);
        lemma_regroup(k, v, more, end);
        lemma_read_members(others, rest);
        lemma_read_leaf(leaf, lines);
        lemma_blank("\n"@, v + lines);
        lemma_blank("\n"@, lines);
        lemma_member("        "@, key, v, leaf_node(leaf), lines);
        assert(member_nodes(members) =~= seq![(key, leaf_node(leaf))] + member_nodes(others));
    }
}

proof fn lemma_regroup(a: Seq<char>, b: Seq<char>, c: Seq<char>, d: Seq<char>)
    ensures
        a + b + c + d == a + (b + (c + d)),
{
    assert(a + b + c + d =~= a + (b + (c + d)));
}

/// What a value of the top-level dictionary is read as.
pub open spec fn value_node(value: PlistValue) -> Node {
    match value {
        PlistValue::Text(s) => Node::Text(s),
        PlistValue::True => Node::True,
        PlistValue::Array(items) => Node::Array(text_nodes(items)),
        PlistValue::Dict(members) => Node::Dict(member_nodes(members)),
    }
}

/// What the entries of the top-level dictionary are read as.
pub open spec fn entry_nodes(entries: Seq<(Seq<char>, PlistValue)>) -> Seq<(Seq<char>, Node)> {
    Seq::new(entries.len(), |i: int| (entries[i].0, value_node(entries[i].1)))
}

proof fn lemma_read_array(items: Seq<Seq<char>>, rest: Seq<char>)
    ensures
        read_value(render::value_lines(PlistValue::Array(items)) + rest) == Some(
            (Node::Array(text_nodes(items)), "\n"@ + rest),
        ),
{
    let inner = render::element_lines(items) + ("    </array>\n"@ + rest);
    let r = "\n"@ + inner;
    let t = "<array>"@ + r;
    lemma_gaps();
    assert("    <array>\n"@ =~= "    "@ + "<array>"@ + "\n"@) by {
        reveal_strlit("    <array>\n");
        reveal_strlit("<array>");
        reveal_strlit("    ");
        reveal_strlit("\n");
    }
    assert(render::value_lines(PlistValue::Array(items)) + rest =~= "    "@ + t);
    lemma_blank("    "@, t);
    lemma_blank("\n"@, inner);
    lemma_read_elements(items, rest);
    lemma_cut("<array>"@, r);
    assert(t.len() > r.len() && t[0] == '<' && t[1] == 'a') by {
        reveal_strlit("<array>");
        assert(t[0] == "<array>"@[0]);
        assert(t[1] == "<array>"@[1]);
    }
    assert(cut(t, "<true/>"@) is None && cut(t, "<false/>"@) is None && cut(t, "<string>"@)
        is None) by {
        reveal_strlit("<true/>");
        reveal_strlit("<false/>");
        reveal_strlit("<string>");
        lemma_uncut(t, "<true/>"@, 1);
        lemma_uncut(t, "<false/>"@, 1);
        lemma_uncut(t, "<string>"@, 1);
    }
}

/// A dictionary is read, if its members are.
proof fn lemma_read_dict(
    indent: Seq<char>,
    inner: Seq<char>,
    members: Seq<(Seq<char>, Node)>,
    rest: Seq<char>,
)
    requires
        is_blank(indent),
        read_members(inner) == Some((members, rest)),
    ensures
        read_value(indent + ("<dict>"@ + ("\n"@ + inner))) == Some((Node::Dict(members), rest)),
{
    let r = "\n"@ + inner;
    let t = "<dict>"@ + r;
    lemma_gaps();
    lemma_blank(indent, t);
    lemma_blank("\n"@, inner);
    lemma_cut("<dict>"@, r);
    assert(t.len() > r.len() && t[0] == '<' && t[1] == 'd') by {
        reveal_strlit("<dict>");
        assert(t[0] == "<dict>"@[0]);
        assert(t[1] == "<dict>"@[1]);
    }
    assert(cut(t, "<true/>"@) is None && cut(t, "<false/>"@) is None && cut(t, "<string>"@) is None
        && cut(t, "<array>"@) is None) by {
        reveal_strlit("<true/>");
        reveal_strlit("<false/>");
        reveal_strlit("<string>");
        reveal_strlit("<array>");
        lemma_uncut(t, "<true/>"@, 1);
        lemma_uncut(t, "<false/>"@, 1);
        lemma_uncut(t, "<string>"@, 1);
        lemma_uncut(t, "<array>"@, 1);
    }
}

proof fn lemma_read_value(value: PlistValue, rest: Seq<char>)
    ensures
        read_value(render::value_lines(value) + rest) == Some((value_node(value), "\n"@ + rest)),
        render::value_lines(value).len() > 0,
{
    lemma_gaps();
    match value {
        PlistValue::Text(s) => {
            lemma_read_string("    "@, s, rest);
            reveal_strlit("<string>");
        },
        PlistValue::True => {
            lemma_read_true(rest);
            reveal_strlit("    <true/>\n");
        },
        PlistValue::Array(items) => {
            lemma_read_array(items, rest);
            reveal_strlit("    <array>\n");
        },
        PlistValue::Dict(members) => {
            let inner = render::member_lines(members) + ("    </dict>\n"@ + rest);
            assert("    <dict>\n"@ =~= "    "@ + "<dict>"@ + "\n"@) by {
                reveal_strlit("    <dict>\n");
                reveal_strlit("<dict>");
                reveal_strlit("    ");
                reveal_strlit("\n");
            }
            assert(render::value_lines(value) + rest =~= "    "@ + ("<dict>"@ + ("\n"@ + inner)));
            lemma_read_members(members, rest);
            lemma_read_dict("    "@, inner, member_nodes(members), "\n"@ + rest);
            reveal_strlit("    <dict>\n");
        },
    }
}

proof fn lemma_read_entries(entries: Seq<(Seq<char>, PlistValue)>)
    ensures
        read_members(render::entry_lines(entries) + render::plist_foot()) == Some(
            (entry_nodes(entries), "\n</plist>\n"@),
        ),
    decreases entries.len(),
{
    let end = render::plist_foot();
    lemma_gaps();
    if entries.len() == 0 {
        let none = Seq::<char>::empty();
        assert("</dict>\n</plist>\n"@ =~= "</dict>"@ + "\n</plist>\n"@) by {
            reveal_strlit("</dict>\n</plist>\n");
            reveal_strlit("</dict>");
            reveal_strlit("\n</plist>\n");
        }
        assert(render::entry_lines(entries) + end =~= none + ("</dict>"@ + "\n</plist>\n"@));
        lemma_dict_end(none, "\n</plist>\n"@);
        assert(entry_nodes(entries) =~= Seq::empty());
    } else {
        let others = entries.drop_first();
        let (key, value) = entries[0];
        let more = render::entry_lines(others);
        let lines = more + end;
        let k = render::key_line("    "@, key);
        let v = render::value_lines(value);
        plist_readback::lemma_entries_from_front(entries);
        lemma_regroup(k, v, more, end);
        lemma_read_entries(others);
        lemma_read_value(value, lines);
        lemma_blank("\n"@, v + lines);
        lemma_blank("\n"@, lines);
        lemma_member("    "@, key, v, value_node(value), lines);
        assert(entry_nodes(entries) =~= seq![(key, value_node(value))] + entry_nodes(others));
    }
}

/// A property list is read back as the dictionary of its entries.
pub proof fn plist_is_read_back(entries: Seq<(Seq<char>, PlistValue)>)
    ensures
        read_plist(render::plist_text(entries)) == Some(entry_nodes(entries)),
{
    let xml = "<?xml version=\"1.0\" encoding=\"UTF-8\"?>\n"@;
    let doctype = "<!DOCTYPE plist PUBLIC \"-//Apple//DTD PLIST 1.0//EN\" \"http://www.apple.com/DTDs/PropertyList-1.0.dtd\">\n"@;
    let root = "<plist version=\"1.0\">\n"@;
    let none = Seq::<char>::empty();
    let inner = render::entry_lines(entries) + render::plist_foot();
    let dict = none + ("<dict>"@ + ("\n"@ + inner));
    assert("<plist version=\"1.0\">\n<dict>\n"@ =~= root + "<dict>"@ + "\n"@) by {
        reveal_strlit("<plist version=\"1.0\">\n<dict>\n");
        reveal_strlit("<plist version=\"1.0\">\n");
        reveal_strlit("<dict>");
        reveal_strlit("\n");
    }
    lemma_plist_parts(
        xml,
        doctype,
        root,
        "<dict>"@,
        "\n"@,
        render::entry_lines(entries),
        render::plist_foot(),
    );
    assert(dict =~= "<dict>"@ + ("\n"@ + inner));
    assert(render::plist_text(entries) == xml + (doctype + (root + dict)));
    lemma_cut(xml, doctype + (root + dict));
    lemma_cut(doctype, root + dict);
    lemma_cut(root, dict);
    lemma_read_entries(entries);
    lemma_read_dict(none, inner, entry_nodes(entries), "\n</plist>\n"@);
}

proof fn lemma_plist_parts(
    xml: Seq<char>,
    doctype: Seq<char>,
    root: Seq<char>,
    open: Seq<char>,
    feed: Seq<char>,
    lines: Seq<char>,
    foot: Seq<char>,
)
    ensures
        xml + doctype + (root + open + feed) + lines + foot == xml + (doctype + (root + (open + (
        feed + (lines + foot))))),
{
    assert(xml + doctype + (root + open + feed) + lines + foot =~= xml + (doctype + (root + (open
        + (feed + (lines + foot))))));
}

// ---------------------------------------------------------------------------------------------
// What the property list of a service holds
// ---------------------------------------------------------------------------------------------
/// The values that a dictionary gives a key, in order.
pub open spec fn values_of(dict: Seq<(Seq<char>, Node)>, key: Seq<char>) -> Seq<Node>
    decreases dict.len(),
{
    if dict.len() == 0 {
        Seq::empty()
    } else if dict.last().0 == key {
        values_of(dict.drop_last(), key).push(dict.last().1)
    } else {
        values_of(dict.drop_last(), key)
    }
}

/// The values that the property list of a service gives a key, as they are read from its text.
pub open spec fn service_values(spec: ServiceSpecView, key: Seq<char>) -> Seq<Node> {
    values_of(read_plist(render::plist_text(render::plist_entries(spec)))->0, key)
}

proof fn lemma_values_add(
    a: Seq<(Seq<char>, PlistValue)>,
    b: Seq<(Seq<char>, PlistValue)>,
    key: Seq<char>,
)
    ensures
        values_of(entry_nodes(a + b), key) == values_of(entry_nodes(a), key) + values_of(
            entry_nodes(b),
            key,
        ),
    decreases b.len(),
{
    let all = entry_nodes(a + b);
    if b.len() == 0 {
        assert(a + b =~= a);
        assert(values_of(all, key) =~= values_of(entry_nodes(a), key) + values_of(
            entry_nodes(b),
            key,
        ));
    } else {
        lemma_values_add(a, b.drop_last(), key);
        assert(all.drop_last() =~= entry_nodes(a + b.drop_last()));
        assert(entry_nodes(b).drop_last() =~= entry_nodes(b.drop_last()));
        assert(values_of(all, key) =~= values_of(entry_nodes(a), key) + values_of(
            entry_nodes(b),
            key,
        ));
    }
}

/// The value of an entry, if it has the key.
spec fn one(name: Seq<char>, node: Node, key: Seq<char>) -> Seq<Node> {
    if name == key {
        seq![node]
    } else {
        Seq::empty()
    }
}

proof fn lemma_values_one(entry: (Seq<char>, PlistValue), key: Seq<char>)
    ensures
        values_of(entry_nodes(seq![entry]), key) == one(entry.0, value_node(entry.1), key),
{
    let dict = entry_nodes(seq![entry]);
    assert(dict.drop_last() =~= Seq::empty());
    assert(values_of(dict.drop_last(), key) =~= Seq::empty());
    assert(values_of(dict, key) =~= one(entry.0, value_node(entry.1), key));
}

proof fn lemma_values_two(
    first: (Seq<char>, PlistValue),
    second: (Seq<char>, PlistValue),
    key: Seq<char>,
)
    ensures
        values_of(entry_nodes(seq![first, second]), key) == one(
            first.0,
            value_node(first.1),
            key,
        ) + one(second.0, value_node(second.1), key),
{
    lemma_values_one(first, key);
    lemma_values_one(second, key);
    lemma_values_add(seq![first], seq![second], key);
    assert(seq![first] + seq![second] =~= seq![first, second]);
}

/// The variables of an environment, as they are read.
pub open spec fn variable_nodes(env: Seq<(Seq<char>, Seq<char>)>) -> Seq<(Seq<char>, Node)> {
    Seq::new(env.len(), |i: int| (env[i].0, Node::Text(env[i].1)))
}

/// What the groups of entries give a key, one after the other.
spec fn groups(spec: ServiceSpecView, key: Seq<char>) -> Seq<Node> {
    (one("Label"@, Node::Text(spec.label), key) + one(
        "ProgramArguments"@,
        Node::Array(text_nodes(seq![spec.program] + spec.args)),
        key,
    )) + (if spec.associated_bundle_identifiers.len() > 0 {
        one(
            "AssociatedBundleIdentifiers"@,
            Node::Array(text_nodes(spec.associated_bundle_identifiers)),
            key,
        )
    } else {
        Seq::empty()
    }) + (match spec.working_dir {
        Some(dir) => one("WorkingDirectory"@, Node::Text(dir), key),
        None => Seq::empty(),
    }) + (if spec.env.len() > 0 {
        one("EnvironmentVariables"@, Node::Dict(variable_nodes(spec.env)), key)
    } else {
        Seq::empty()
    }) + (if spec.run_at_load {
        one("RunAtLoad"@, Node::True, key)
    } else {
        Seq::empty()
    }) + (if spec.keep_alive {
        one("KeepAlive"@, Node::Dict(seq![("SuccessfulExit"@, Node::False)]), key)
    } else {
        Seq::empty()
    }) + (match spec.log_path {
        Some(path) => one("StandardOutPath"@, Node::Text(path), key) + one(
            "StandardErrorPath"@,
            Node::Text(path),
            key,
        ),
        None => Seq::empty(),
    }) + one("ProcessType"@, Node::Text(spec.process_type.name()), key)
}

proof fn lemma_group_values(spec: ServiceSpecView, key: Seq<char>)
    ensures
        values_of(entry_nodes(render::command_entries(spec)), key) == one(
            "Label"@,
            Node::Text(spec.label),
            key,
        ) + one(
            "ProgramArguments"@,
            Node::Array(text_nodes(seq![spec.program] + spec.args)),
            key,
        ),
        values_of(entry_nodes(render::identifier_entries(spec)), key) == (
        if spec.associated_bundle_identifiers.len() > 0 {
            one(
                "AssociatedBundleIdentifiers"@,
                Node::Array(text_nodes(spec.associated_bundle_identifiers)),
                key,
            )
        } else {
            Seq::empty()
        }),
        values_of(entry_nodes(render::directory_entries(spec)), key) == (match spec.working_dir {
            Some(dir) => one("WorkingDirectory"@, Node::Text(dir), key),
            None => Seq::empty(),
        }),
        values_of(entry_nodes(render::env_entries(spec)), key) == (if spec.env.len() > 0 {
            one("EnvironmentVariables"@, Node::Dict(variable_nodes(spec.env)), key)
        } else {
            Seq::empty()
        }),
        values_of(entry_nodes(render::load_entries(spec)), key) == (if spec.run_at_load {
            one("RunAtLoad"@, Node::True, key)
        } else {
            Seq::empty()
        }),
        values_of(entry_nodes(render::alive_entries(spec)), key) == (if spec.keep_alive {
            one("KeepAlive"@, Node::Dict(seq![("SuccessfulExit"@, Node::False)]), key)
        } else {
            Seq::empty()
        }),
        values_of(entry_nodes(render::log_entries(spec)), key) == (match spec.log_path {
            Some(path) => one("StandardOutPath"@, Node::Text(path), key) + one(
                "StandardErrorPath"@,
                Node::Text(path),
                key,
            ),
            None => Seq::empty(),
        }),
        values_of(entry_nodes(render::class_entries(spec)), key) == one(
            "ProcessType"@,
            Node::Text(spec.process_type.name()),
            key,
        ),
{
    let a = render::command_entries(spec);
    lemma_values_two(a[0], a[1], key);
    assert(a =~= seq![a[0], a[1]]);
    lemma_values_one(
        (
            "AssociatedBundleIdentifiers"@,
            PlistValue::Array(spec.associated_bundle_identifiers),
        ),
        key,
    );
    if let Some(dir) = spec.working_dir {
        lemma_values_one(("WorkingDirectory"@, PlistValue::Text(dir)), key);
    }
    assert(member_nodes(render::env_dict(spec.env)) =~= variable_nodes(spec.env));
    lemma_values_one(
        ("EnvironmentVariables"@, PlistValue::Dict(render::env_dict(spec.env))),
        key,
    );
    lemma_values_one(("RunAtLoad"@, PlistValue::True), key);
    let alive = seq![("SuccessfulExit"@, PlistLeaf::False)];
    assert(member_nodes(alive) =~= seq![("SuccessfulExit"@, Node::False)]);
    lemma_values_one(("KeepAlive"@, PlistValue::Dict(alive)), key);
    if let Some(path) = spec.log_path {
        lemma_values_two(
            ("StandardOutPath"@, PlistValue::Text(path)),
            ("StandardErrorPath"@, PlistValue::Text(path)),
            key,
        );
    }
    lemma_values_one(("ProcessType"@, PlistValue::Text(spec.process_type.name())), key);
}

proof fn lemma_groups(spec: ServiceSpecView, key: Seq<char>)
    ensures
        read_plist(render::plist_text(render::plist_entries(spec))) is Some,
        service_values(spec, key) == groups(spec, key),
{
    plist_is_read_back(render::plist_entries(spec));
    let a = render::command_entries(spec);
    let b = a + render::identifier_entries(spec);
    let c = b + render::directory_entries(spec);
    let d = c + render::env_entries(spec);
    let e = d + render::load_entries(spec);
    let f = e + render::alive_entries(spec);
    let g = f + render::log_entries(spec);
    lemma_values_add(a, render::identifier_entries(spec), key);
    lemma_values_add(b, render::directory_entries(spec), key);
    lemma_values_add(c, render::env_entries(spec), key);
    lemma_values_add(d, render::load_entries(spec), key);
    lemma_values_add(e, render::alive_entries(spec), key);
    lemma_values_add(f, render::log_entries(spec), key);
    lemma_values_add(g, render::class_entries(spec), key);
    lemma_group_values(spec, key);
}

proof fn lemma_key_lengths()
    ensures
        "Label"@.len() == 5,
        "ProgramArguments"@.len() == 16 && "ProgramArguments"@[0] == 'P',
        "AssociatedBundleIdentifiers"@.len() == 27,
        "WorkingDirectory"@.len() == 16 && "WorkingDirectory"@[0] == 'W',
        "EnvironmentVariables"@.len() == 20,
        "RunAtLoad"@.len() == 9 && "RunAtLoad"@[0] == 'R',
        "KeepAlive"@.len() == 9 && "KeepAlive"@[0] == 'K',
        "StandardOutPath"@.len() == 15,
        "StandardErrorPath"@.len() == 17,
        "ProcessType"@.len() == 11,
{
    reveal_strlit("Label");
    reveal_strlit("ProgramArguments");
    reveal_strlit("AssociatedBundleIdentifiers");
    reveal_strlit("WorkingDirectory");
    reveal_strlit("EnvironmentVariables");
    reveal_strlit("RunAtLoad");
    reveal_strlit("KeepAlive");
    reveal_strlit("StandardOutPath");
    reveal_strlit("StandardErrorPath");
    reveal_strlit("ProcessType");
}

/// Whether a value is an array of exactly these strings.
pub open spec fn is_array_of(node: Node, items: Seq<Seq<char>>) -> bool {
    node matches Node::Array(nodes) && nodes.len() == items.len() && (forall|i: int|
        0 <= i < items.len() ==> #[trigger] nodes[i] == Node::Text(items[i]))
}

/// The text of the property list of a service is read as a dictionary that gives the label, the
/// program with its arguments, and the scheduling class, each once.
pub proof fn plist_says_what_to_run(spec: ServiceSpecView)
    ensures
        read_plist(render::plist_text(render::plist_entries(spec))) is Some,
        service_values(spec, "Label"@) == seq![Node::Text(spec.label)],
        service_values(spec, "ProgramArguments"@).len() == 1,
        is_array_of(service_values(spec, "ProgramArguments"@)[0], seq![spec.program] + spec.args),
        service_values(spec, "ProcessType"@) == seq![
            Node::Text(
                match spec.process_type {
                    ProcessType::Background => "Background"@,
                    ProcessType::Standard => "Standard"@,
                },
            ),
        ],
{
    lemma_key_lengths();
    lemma_groups(spec, "Label"@);
    lemma_groups(spec, "ProgramArguments"@);
    lemma_groups(spec, "ProcessType"@);
    assert(groups(spec, "Label"@) =~= seq![Node::Text(spec.label)]);
    assert(groups(spec, "ProgramArguments"@) =~= seq![
        Node::Array(text_nodes(seq![spec.program] + spec.args)),
    ]);
    assert(groups(spec, "ProcessType"@) =~= seq![Node::Text(spec.process_type.name())]);
}

/// It gives each further field exactly if the service has it, whatever the other fields hold: the
/// owners, the working directory and the log file as strings, and that the service starts at login.
pub proof fn plist_says_how_to_run(spec: ServiceSpecView)
    ensures
        spec.associated_bundle_identifiers.len() == 0 ==> service_values(
            spec,
            "AssociatedBundleIdentifiers"@,
        ).len() == 0,
        spec.associated_bundle_identifiers.len() > 0 ==> {
            &&& service_values(spec, "AssociatedBundleIdentifiers"@).len() == 1
            &&& is_array_of(
                service_values(spec, "AssociatedBundleIdentifiers"@)[0],
                spec.associated_bundle_identifiers,
            )
        },
        service_values(spec, "WorkingDirectory"@) == (match spec.working_dir {
            Some(dir) => seq![Node::Text(dir)],
            None => Seq::empty(),
        }),
        service_values(spec, "RunAtLoad"@) == (if spec.run_at_load {
            seq![Node::True]
        } else {
            Seq::empty()
        }),
        service_values(spec, "StandardOutPath"@) == (match spec.log_path {
            Some(path) => seq![Node::Text(path)],
            None => Seq::empty(),
        }),
        service_values(spec, "StandardErrorPath"@) == (match spec.log_path {
            Some(path) => seq![Node::Text(path)],
            None => Seq::empty(),
        }),
{
    lemma_key_lengths();
    lemma_groups(spec, "AssociatedBundleIdentifiers"@);
    lemma_groups(spec, "WorkingDirectory"@);
    lemma_groups(spec, "RunAtLoad"@);
    lemma_groups(spec, "StandardOutPath"@);
    lemma_groups(spec, "StandardErrorPath"@);
    assert(groups(spec, "AssociatedBundleIdentifiers"@) =~= (
    if spec.associated_bundle_identifiers.len() > 0 {
        seq![Node::Array(text_nodes(spec.associated_bundle_identifiers))]
    } else {
        Seq::empty()
    }));
    assert(groups(spec, "WorkingDirectory"@) =~= (match spec.working_dir {
        Some(dir) => seq![Node::Text(dir)],
        None => Seq::empty(),
    }));
    assert(groups(spec, "RunAtLoad"@) =~= (if spec.run_at_load {
        seq![Node::True]
    } else {
        Seq::empty()
    }));
    assert(groups(spec, "StandardOutPath"@) =~= (match spec.log_path {
        Some(path) => seq![Node::Text(path)],
        None => Seq::empty(),
    }));
    assert(groups(spec, "StandardErrorPath"@) =~= (match spec.log_path {
        Some(path) => seq![Node::Text(path)],
        None => Seq::empty(),
    }));
}

/// It gives the environment of the service exactly if there is one, as a dictionary in which each
/// variable is followed by its value as a string, in order, and nothing else.
pub proof fn plist_sets_each_variable(spec: ServiceSpecView)
    ensures
        spec.env.len() == 0 ==> service_values(spec, "EnvironmentVariables"@).len() == 0,
        spec.env.len() > 0 ==> {
            let values = service_values(spec, "EnvironmentVariables"@);
            &&& values.len() == 1
            &&& values[0] matches Node::Dict(members) && members.len() == spec.env.len() && (forall|
                i: int,
            |
                0 <= i < spec.env.len() ==> (#[trigger] members[i]).0 == spec.env[i].0
                    && members[i].1 == Node::Text(spec.env[i].1))
        },
{
    lemma_key_lengths();
    lemma_groups(spec, "EnvironmentVariables"@);
    assert(groups(spec, "EnvironmentVariables"@) =~= (if spec.env.len() > 0 {
        seq![Node::Dict(variable_nodes(spec.env))]
    } else {
        Seq::empty()
    }));
}

/// It keeps the service alive exactly if that is asked for, and then after any exit that is not a
/// successful one.
pub proof fn plist_restarts_after_a_failure(spec: ServiceSpecView)
    ensures
        !spec.keep_alive ==> service_values(spec, "KeepAlive"@).len() == 0,
        spec.keep_alive ==> {
            let values = service_values(spec, "KeepAlive"@);
            &&& values.len() == 1
            &&& values[0] matches Node::Dict(members) && members.len() == 1 && members[0] == (
                "SuccessfulExit"@,
                Node::False,
            )
        },
{
    lemma_key_lengths();
    lemma_groups(spec, "KeepAlive"@);
    assert(groups(spec, "KeepAlive"@) =~= (if spec.keep_alive {
        seq![Node::Dict(seq![("SuccessfulExit"@, Node::False)])]
    } else {
        Seq::empty()
    }));
}

/// Whether a key is one that the property list of a service can have.
pub open spec fn plist_key(key: Seq<char>) -> bool {
    ||| key == "Label"@
    ||| key == "ProgramArguments"@
    ||| key == "AssociatedBundleIdentifiers"@
    ||| key == "WorkingDirectory"@
    ||| key == "EnvironmentVariables"@
    ||| key == "RunAtLoad"@
    ||| key == "KeepAlive"@
    ||| key == "StandardOutPath"@
    ||| key == "StandardErrorPath"@
    ||| key == "ProcessType"@
}

/// It gives nothing else, `SessionCreate` among it, whatever the fields of the service hold.
pub proof fn plist_says_nothing_else(spec: ServiceSpecView, key: Seq<char>)
    requires
        !plist_key(key),
    ensures
        service_values(spec, key).len() == 0,
{
    lemma_groups(spec, key);
    assert(groups(spec, key) =~= Seq::empty());
}

} // verus!
