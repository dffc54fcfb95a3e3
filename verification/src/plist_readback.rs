//! A property list determines the service that it was made for.
//!
//! The lines of a property list are read from the front. Each kind of line is told from the others
//! by its first characters, and a value ends at the first `<`, as XML text holds none.

use crate::render;
use crate::render::{PlistLeaf, PlistValue};
use crate::service::{ProcessType, ServiceSpecView};
use crate::xml_laws;
use vstd::prelude::*;

verus! {

proof fn lemma_cancel(head: Seq<char>, x: Seq<char>, y: Seq<char>)
    requires
        head + x == head + y,
    ensures
        x == y,
{
    let n = head.len() as int;
    assert((head + x).skip(n) =~= x);
    assert((head + y).skip(n) =~= y);
}

/// A text without `<` ends where the first `<` stands.
proof fn lemma_split_at_bracket(a: Seq<char>, x: Seq<char>, b: Seq<char>, y: Seq<char>)
    requires
        forall|i: int| 0 <= i < a.len() ==> #[trigger] a[i] != '<',
        forall|i: int| 0 <= i < b.len() ==> #[trigger] b[i] != '<',
        x.len() > 0,
        y.len() > 0,
        x[0] == '<',
        y[0] == '<',
        a + x == b + y,
    ensures
        a == b,
        x == y,
{
    let s = a + x;
    let t = b + y;
    if a.len() < b.len() {
        assert(s[a.len() as int] == '<');
        assert(t[a.len() as int] == b[a.len() as int]);
    } else if b.len() < a.len() {
        assert(t[b.len() as int] == '<');
        assert(s[b.len() as int] == a[b.len() as int]);
    } else {
        assert forall|i: int| 0 <= i < a.len() implies a[i] == b[i] by {
            assert(s[i] == a[i]);
            assert(t[i] == b[i]);
        }
        assert(a =~= b);
        lemma_cancel(a, x, y);
    }
}

/// A line that is made of a start, the XML text of a value and an end is read back.
proof fn lemma_read_value(
    start: Seq<char>,
    v: Seq<char>,
    w: Seq<char>,
    end: Seq<char>,
    x: Seq<char>,
    y: Seq<char>,
)
    requires
        end.len() > 0,
        end[0] == '<',
        start + render::xml_text(v) + end + x == start + render::xml_text(w) + end + y,
    ensures
        v == w,
        x == y,
{
    let a = render::xml_text(v);
    let b = render::xml_text(w);
    assert(start + a + end + x =~= start + (a + (end + x)));
    assert(start + b + end + y =~= start + (b + (end + y)));
    lemma_cancel(start, a + (end + x), b + (end + y));
    xml_laws::xml_text_has_no_markup(v);
    xml_laws::xml_text_has_no_markup(w);
    lemma_split_at_bracket(a, end + x, b, end + y);
    lemma_cancel(end, x, y);
    xml_laws::xml_text_is_injective(v, w);
}

proof fn lemma_read_string_line(
    indent: Seq<char>,
    v: Seq<char>,
    w: Seq<char>,
    x: Seq<char>,
    y: Seq<char>,
)
    requires
        render::string_line(indent, v) + x == render::string_line(indent, w) + y,
    ensures
        v == w,
        x == y,
{
    reveal_strlit("</string>\n");
    lemma_read_value(indent + "<string>"@, v, w, "</string>\n"@, x, y);
}

proof fn lemma_read_key_line(
    indent: Seq<char>,
    v: Seq<char>,
    w: Seq<char>,
    x: Seq<char>,
    y: Seq<char>,
)
    requires
        render::key_line(indent, v) + x == render::key_line(indent, w) + y,
    ensures
        v == w,
        x == y,
{
    reveal_strlit("</key>\n");
    lemma_read_value(indent + "<key>"@, v, w, "</key>\n"@, x, y);
}

// ---------------------------------------------------------------------------------------------
// Arrays
// ---------------------------------------------------------------------------------------------
/// The first element of an array stands first.
pub proof fn lemma_elements_from_front(items: Seq<Seq<char>>)
    requires
        items.len() > 0,
    ensures
        render::element_lines(items) == render::string_line("        "@, items[0])
            + render::element_lines(items.drop_first()),
    decreases items.len(),
{
    let line = render::string_line("        "@, items[0]);
    if items.len() == 1 {
        assert(items.drop_last() =~= Seq::empty());
        assert(items.drop_first() =~= Seq::empty());
        assert(render::element_lines(Seq::empty()) == Seq::<char>::empty());
        assert(render::element_lines(items) =~= line);
        assert(line + Seq::<char>::empty() =~= line);
    } else {
        lemma_elements_from_front(items.drop_last());
        assert(items.drop_last().drop_first() =~= items.drop_first().drop_last());
        let middle = render::element_lines(items.drop_first().drop_last());
        let last = render::string_line("        "@, items.last());
        assert(render::element_lines(items) =~= line + (middle + last));
    }
}

/// The fifth character of what follows the start of an array: a space before an element, and a
/// bracket at the end.
proof fn lemma_element_or_end(items: Seq<Seq<char>>, x: Seq<char>)
    ensures
        (render::element_lines(items) + ("    </array>\n"@ + x)).len() > 4,
        (render::element_lines(items) + ("    </array>\n"@ + x))[4] == (if items.len() > 0 {
            ' '
        } else {
            '<'
        }),
{
    reveal_strlit("    </array>\n");
    reveal_strlit("        ");
    let t = render::element_lines(items) + ("    </array>\n"@ + x);
    if items.len() > 0 {
        lemma_elements_from_front(items);
        let line = render::string_line("        "@, items[0]);
        assert(line[4] == "        "@[4]);
        assert(t[4] == line[4]);
    } else {
        assert(t[4] == "    </array>\n"@[4]);
    }
}

proof fn lemma_read_elements(
    a: Seq<Seq<char>>,
    b: Seq<Seq<char>>,
    x: Seq<char>,
    y: Seq<char>,
)
    requires
        render::element_lines(a) + ("    </array>\n"@ + x) == render::element_lines(b) + (
        "    </array>\n"@ + y),
    ensures
        a == b,
        x == y,
    decreases a.len(),
{
    let ex = "    </array>\n"@ + x;
    let ey = "    </array>\n"@ + y;
    lemma_element_or_end(a, x);
    lemma_element_or_end(b, y);
    if a.len() == 0 {
        assert(a =~= b);
        assert(render::element_lines(a) + ex =~= ex);
        assert(render::element_lines(b) + ey =~= ey);
        lemma_cancel("    </array>\n"@, x, y);
    } else {
        lemma_elements_from_front(a);
        lemma_elements_from_front(b);
        let p = render::element_lines(a.drop_first());
        let q = render::element_lines(b.drop_first());
        let la = render::string_line("        "@, a[0]);
        let lb = render::string_line("        "@, b[0]);
        assert(la + p + ex =~= la + (p + ex));
        assert(lb + q + ey =~= lb + (q + ey));
        lemma_read_string_line("        "@, a[0], b[0], p + ex, q + ey);
        lemma_read_elements(a.drop_first(), b.drop_first(), x, y);
        assert(a =~= seq![a[0]] + a.drop_first());
        assert(b =~= seq![b[0]] + b.drop_first());
    }
}

// ---------------------------------------------------------------------------------------------
// Dictionaries
// ---------------------------------------------------------------------------------------------
/// The lines of a member of a nested dictionary.
pub open spec fn member_text(member: (Seq<char>, PlistLeaf)) -> Seq<char> {
    render::key_line("        "@, member.0) + render::leaf_line(member.1)
}

/// The first member of a nested dictionary stands first.
pub proof fn lemma_members_from_front(members: Seq<(Seq<char>, PlistLeaf)>)
    requires
        members.len() > 0,
    ensures
        render::member_lines(members) == member_text(members[0]) + render::member_lines(
            members.drop_first(),
        ),
    decreases members.len(),
{
    let first = member_text(members[0]);
    let key = render::key_line("        "@, members.last().0);
    let leaf = render::leaf_line(members.last().1);
    if members.len() == 1 {
        assert(members.drop_last() =~= Seq::empty());
        assert(members.drop_first() =~= Seq::empty());
        assert(render::member_lines(Seq::empty()) == Seq::<char>::empty());
        assert(render::member_lines(members) =~= first);
        assert(first + Seq::<char>::empty() =~= first);
    } else {
        lemma_members_from_front(members.drop_last());
        assert(members.drop_last().drop_first() =~= members.drop_first().drop_last());
        let middle = render::member_lines(members.drop_first().drop_last());
        assert(first + middle + key + leaf =~= first + (middle + key + leaf));
    }
}

proof fn lemma_member_or_end(members: Seq<(Seq<char>, PlistLeaf)>, x: Seq<char>)
    ensures
        (render::member_lines(members) + ("    </dict>\n"@ + x)).len() > 4,
        (render::member_lines(members) + ("    </dict>\n"@ + x))[4] == (if members.len() > 0 {
            ' '
        } else {
            '<'
        }),
{
    reveal_strlit("    </dict>\n");
    reveal_strlit("        ");
    let t = render::member_lines(members) + ("    </dict>\n"@ + x);
    if members.len() > 0 {
        lemma_members_from_front(members);
        let first = member_text(members[0]);
        assert(first[4] == "        "@[4]);
        assert(t[4] == first[4]);
    } else {
        assert(t[4] == "    </dict>\n"@[4]);
    }
}

proof fn lemma_read_leaf(v: PlistLeaf, w: PlistLeaf, x: Seq<char>, y: Seq<char>)
    requires
        render::leaf_line(v) + x == render::leaf_line(w) + y,
    ensures
        v == w,
        x == y,
{
    reveal_strlit("        ");
    reveal_strlit("<string>");
    reveal_strlit("        <false/>\n");
    let s = render::leaf_line(v) + x;
    let t = render::leaf_line(w) + y;
    match v {
        PlistLeaf::Text(a) => {
            assert(s[9] == 's');
        },
        PlistLeaf::False => {
            assert(s[9] == 'f');
        },
    }
    match w {
        PlistLeaf::Text(b) => {
            assert(t[9] == 's');
        },
        PlistLeaf::False => {
            assert(t[9] == 'f');
        },
    }
    match (v, w) {
        (PlistLeaf::Text(a), PlistLeaf::Text(b)) => {
            lemma_read_string_line("        "@, a, b, x, y);
        },
        (PlistLeaf::False, PlistLeaf::False) => {
            lemma_cancel("        <false/>\n"@, x, y);
        },
        _ => {},
    }
}

proof fn lemma_regroup_member(key: Seq<char>, leaf: Seq<char>, rest: Seq<char>, end: Seq<char>)
    ensures
        key + leaf + rest + end == key + (leaf + (rest + end)),
{
    assert(key + leaf + rest + end =~= key + (leaf + (rest + end)));
}

proof fn lemma_read_members(
    a: Seq<(Seq<char>, PlistLeaf)>,
    b: Seq<(Seq<char>, PlistLeaf)>,
    x: Seq<char>,
    y: Seq<char>,
)
    requires
        render::member_lines(a) + ("    </dict>\n"@ + x) == render::member_lines(b) + (
        "    </dict>\n"@ + y),
    ensures
        a == b,
        x == y,
    decreases a.len(),
{
    let ex = "    </dict>\n"@ + x;
    let ey = "    </dict>\n"@ + y;
    lemma_member_or_end(a, x);
    lemma_member_or_end(b, y);
    if a.len() == 0 {
        assert(a =~= b);
        assert(render::member_lines(a) + ex =~= ex);
        assert(render::member_lines(b) + ey =~= ey);
        lemma_cancel("    </dict>\n"@, x, y);
    } else {
        lemma_members_from_front(a);
        lemma_members_from_front(b);
        let ra = render::member_lines(a.drop_first());
        let rb = render::member_lines(b.drop_first());
        let p = ra + ex;
        let q = rb + ey;
        let ka = render::key_line("        "@, a[0].0);
        let kb = render::key_line("        "@, b[0].0);
        let va = render::leaf_line(a[0].1);
        let vb = render::leaf_line(b[0].1);
        lemma_regroup_member(ka, va, ra, ex);
        lemma_regroup_member(kb, vb, rb, ey);
        lemma_read_key_line("        "@, a[0].0, b[0].0, va + p, vb + q);
        lemma_read_leaf(a[0].1, b[0].1, p, q);
        lemma_read_members(a.drop_first(), b.drop_first(), x, y);
        assert(a =~= seq![a[0]] + a.drop_first());
        assert(b =~= seq![b[0]] + b.drop_first());
    }
}

// ---------------------------------------------------------------------------------------------
// Entries
// ---------------------------------------------------------------------------------------------
/// The sixth character of a value tells which kind of value it is.
spec fn value_mark(value: PlistValue) -> char {
    match value {
        PlistValue::Text(_) => 's',
        PlistValue::True => 't',
        PlistValue::Array(_) => 'a',
        PlistValue::Dict(_) => 'd',
    }
}

proof fn lemma_value_mark(value: PlistValue, x: Seq<char>)
    ensures
        (render::value_lines(value) + x)[5] == value_mark(value),
{
    reveal_strlit("    ");
    reveal_strlit("<string>");
    reveal_strlit("    <true/>\n");
    reveal_strlit("    <array>\n");
    reveal_strlit("    <dict>\n");
}

proof fn lemma_read_value_lines(v: PlistValue, w: PlistValue, x: Seq<char>, y: Seq<char>)
    requires
        render::value_lines(v) + x == render::value_lines(w) + y,
    ensures
        v == w,
        x == y,
{
    lemma_value_mark(v, x);
    lemma_value_mark(w, y);
    match (v, w) {
        (PlistValue::Text(a), PlistValue::Text(b)) => {
            lemma_read_string_line("    "@, a, b, x, y);
        },
        (PlistValue::True, PlistValue::True) => {
            lemma_cancel("    <true/>\n"@, x, y);
        },
        (PlistValue::Array(a), PlistValue::Array(b)) => {
            let p = render::element_lines(a);
            let q = render::element_lines(b);
            lemma_regroup_member("    <array>\n"@, p, "    </array>\n"@, x);
            lemma_regroup_member("    <array>\n"@, q, "    </array>\n"@, y);
            lemma_cancel(
                "    <array>\n"@,
                p + ("    </array>\n"@ + x),
                q + ("    </array>\n"@ + y),
            );
            lemma_read_elements(a, b, x, y);
        },
        (PlistValue::Dict(a), PlistValue::Dict(b)) => {
            let p = render::member_lines(a);
            let q = render::member_lines(b);
            lemma_regroup_member("    <dict>\n"@, p, "    </dict>\n"@, x);
            lemma_regroup_member("    <dict>\n"@, q, "    </dict>\n"@, y);
            lemma_cancel("    <dict>\n"@, p + ("    </dict>\n"@ + x), q + ("    </dict>\n"@ + y));
            lemma_read_members(a, b, x, y);
        },
        _ => {},
    }
}

/// The first entry of a property list stands first.
pub proof fn lemma_entries_from_front(entries: Seq<(Seq<char>, PlistValue)>)
    requires
        entries.len() > 0,
    ensures
        render::entry_lines(entries) == render::entry_text(entries[0]) + render::entry_lines(
            entries.drop_first(),
        ),
    decreases entries.len(),
{
    let first = render::entry_text(entries[0]);
    let last = render::entry_text(entries.last());
    if entries.len() == 1 {
        assert(entries.drop_last() =~= Seq::empty());
        assert(entries.drop_first() =~= Seq::empty());
        assert(render::entry_lines(Seq::empty()) == Seq::<char>::empty());
        assert(render::entry_lines(entries) =~= first);
        assert(first + Seq::<char>::empty() =~= first);
    } else {
        lemma_entries_from_front(entries.drop_last());
        assert(entries.drop_last().drop_first() =~= entries.drop_first().drop_last());
        let middle = render::entry_lines(entries.drop_first().drop_last());
        assert(first + middle + last =~= first + (middle + last));
    }
}

/// What follows the start of a property list: a space before an entry, and a bracket at the end.
proof fn lemma_entry_or_end(entries: Seq<(Seq<char>, PlistValue)>)
    ensures
        (render::entry_lines(entries) + render::plist_foot()).len() > 0,
        (render::entry_lines(entries) + render::plist_foot())[0] == (if entries.len() > 0 {
            ' '
        } else {
            '<'
        }),
{
    reveal_strlit("</dict>\n</plist>\n");
    reveal_strlit("    ");
    let t = render::entry_lines(entries) + render::plist_foot();
    if entries.len() > 0 {
        lemma_entries_from_front(entries);
        let first = render::entry_text(entries[0]);
        assert(first[0] == "    "@[0]);
        assert(t[0] == first[0]);
    } else {
        assert(t[0] == render::plist_foot()[0]);
    }
}

proof fn lemma_read_entries(a: Seq<(Seq<char>, PlistValue)>, b: Seq<(Seq<char>, PlistValue)>)
    requires
        render::entry_lines(a) + render::plist_foot() == render::entry_lines(b)
            + render::plist_foot(),
    ensures
        a == b,
    decreases a.len(),
{
    let foot = render::plist_foot();
    lemma_entry_or_end(a);
    lemma_entry_or_end(b);
    if a.len() == 0 {
        assert(a =~= b);
    } else {
        lemma_entries_from_front(a);
        lemma_entries_from_front(b);
        let ra = render::entry_lines(a.drop_first());
        let rb = render::entry_lines(b.drop_first());
        let ka = render::key_line("    "@, a[0].0);
        let kb = render::key_line("    "@, b[0].0);
        let va = render::value_lines(a[0].1);
        let vb = render::value_lines(b[0].1);
        lemma_regroup_member(ka, va, ra, foot);
        lemma_regroup_member(kb, vb, rb, foot);
        lemma_read_key_line("    "@, a[0].0, b[0].0, va + (ra + foot), vb + (rb + foot));
        lemma_read_value_lines(a[0].1, b[0].1, ra + foot, rb + foot);
        lemma_read_entries(a.drop_first(), b.drop_first());
        assert(a =~= seq![a[0]] + a.drop_first());
        assert(b =~= seq![b[0]] + b.drop_first());
    }
}

/// A property list determines its entries: keys, values and their order.
pub proof fn plist_determines_its_entries(
    a: Seq<(Seq<char>, PlistValue)>,
    b: Seq<(Seq<char>, PlistValue)>,
)
    requires
        render::plist_text(a) == render::plist_text(b),
    ensures
        a == b,
{
    let head = render::plist_head();
    let foot = render::plist_foot();
    let p = render::entry_lines(a);
    let q = render::entry_lines(b);
    assert(head + p + foot =~= head + (p + foot));
    assert(head + q + foot =~= head + (q + foot));
    lemma_cancel(head, p + foot, q + foot);
    lemma_read_entries(a, b);
}

// ---------------------------------------------------------------------------------------------
// Services
// ---------------------------------------------------------------------------------------------
/// The value of a key among the entries of a property list.
pub open spec fn value_of(entries: Seq<(Seq<char>, PlistValue)>, key: Seq<char>) -> Option<
    PlistValue,
>
    decreases entries.len(),
{
    if entries.len() == 0 {
        None
    } else if entries.last().0 == key {
        Some(entries.last().1)
    } else {
        value_of(entries.drop_last(), key)
    }
}

proof fn lemma_value_of_add(
    a: Seq<(Seq<char>, PlistValue)>,
    b: Seq<(Seq<char>, PlistValue)>,
    key: Seq<char>,
)
    ensures
        value_of(a + b, key) == (match value_of(b, key) {
            Some(value) => Some(value),
            None => value_of(a, key),
        }),
    decreases b.len(),
{
    if b.len() == 0 {
        assert(a + b =~= a);
    } else {
        lemma_value_of_add(a, b.drop_last(), key);
        assert((a + b).drop_last() =~= a + b.drop_last());
    }
}

proof fn lemma_value_of_one(entry: (Seq<char>, PlistValue), key: Seq<char>)
    ensures
        value_of(seq![entry], key) == (if entry.0 == key {
            Some(entry.1)
        } else {
            None
        }),
{
    assert(seq![entry].drop_last() =~= Seq::empty());
    assert(value_of(Seq::empty(), key) is None);
}

proof fn lemma_value_of_two(
    first: (Seq<char>, PlistValue),
    second: (Seq<char>, PlistValue),
    key: Seq<char>,
)
    ensures
        value_of(seq![first, second], key) == (if second.0 == key {
            Some(second.1)
        } else if first.0 == key {
            Some(first.1)
        } else {
            None
        }),
{
    assert(seq![first, second].drop_last() =~= seq![first]);
    lemma_value_of_one(first, key);
}

/// The last of the groups that has the key decides.
spec fn or_else(value: Option<PlistValue>, other: Option<PlistValue>) -> Option<PlistValue> {
    match value {
        Some(v) => Some(v),
        None => other,
    }
}

/// The value that an entry gives a key.
spec fn given(name: Seq<char>, value: PlistValue, key: Seq<char>) -> Option<PlistValue> {
    if name == key {
        Some(value)
    } else {
        None
    }
}

/// What each group of entries says of a key.
proof fn lemma_group_values(spec: ServiceSpecView, key: Seq<char>)
    ensures
        value_of(render::command_entries(spec), key) == or_else(
            given(
                "ProgramArguments"@,
                PlistValue::Array(seq![spec.program] + spec.args),
                key,
            ),
            given("Label"@, PlistValue::Text(spec.label), key),
        ),
        value_of(render::identifier_entries(spec), key) == (
        if spec.associated_bundle_identifiers.len() > 0 {
            given(
                "AssociatedBundleIdentifiers"@,
                PlistValue::Array(spec.associated_bundle_identifiers),
                key,
            )
        } else {
            None
        }),
        value_of(render::directory_entries(spec), key) == (match spec.working_dir {
            Some(dir) => given("WorkingDirectory"@, PlistValue::Text(dir), key),
            None => None,
        }),
        value_of(render::env_entries(spec), key) == (if spec.env.len() > 0 {
            given("EnvironmentVariables"@, PlistValue::Dict(render::env_dict(spec.env)), key)
        } else {
            None
        }),
        value_of(render::load_entries(spec), key) == (if spec.run_at_load {
            given("RunAtLoad"@, PlistValue::True, key)
        } else {
            None
        }),
        value_of(render::alive_entries(spec), key) == (if spec.keep_alive {
            given(
                "KeepAlive"@,
                PlistValue::Dict(seq![("SuccessfulExit"@, PlistLeaf::False)]),
                key,
            )
        } else {
            None
        }),
        value_of(render::log_entries(spec), key) == (match spec.log_path {
            Some(path) => or_else(
                given("StandardErrorPath"@, PlistValue::Text(path), key),
                given("StandardOutPath"@, PlistValue::Text(path), key),
            ),
            None => None,
        }),
        value_of(render::class_entries(spec), key) == given(
            "ProcessType"@,
            PlistValue::Text(spec.process_type.name()),
            key,
        ),
{
    let a = render::command_entries(spec);
    lemma_value_of_two(a[0], a[1], key);
    assert(a =~= seq![a[0], a[1]]);
    lemma_value_of_one(
        (
            "AssociatedBundleIdentifiers"@,
            PlistValue::Array(spec.associated_bundle_identifiers),
        ),
        key,
    );
    if let Some(dir) = spec.working_dir {
        lemma_value_of_one(("WorkingDirectory"@, PlistValue::Text(dir)), key);
    }
    lemma_value_of_one(
        ("EnvironmentVariables"@, PlistValue::Dict(render::env_dict(spec.env))),
        key,
    );
    lemma_value_of_one(("RunAtLoad"@, PlistValue::True), key);
    lemma_value_of_one(
        ("KeepAlive"@, PlistValue::Dict(seq![("SuccessfulExit"@, PlistLeaf::False)])),
        key,
    );
    if let Some(path) = spec.log_path {
        lemma_value_of_two(
            ("StandardOutPath"@, PlistValue::Text(path)),
            ("StandardErrorPath"@, PlistValue::Text(path)),
            key,
        );
    }
    lemma_value_of_one(("ProcessType"@, PlistValue::Text(spec.process_type.name())), key);
}

/// The value of a key in the property list of a service is found in the groups of entries.
proof fn lemma_groups(spec: ServiceSpecView, key: Seq<char>)
    ensures
        value_of(render::plist_entries(spec), key) == or_else(
            value_of(render::class_entries(spec), key),
            or_else(
                value_of(render::log_entries(spec), key),
                or_else(
                    value_of(render::alive_entries(spec), key),
                    or_else(
                        value_of(render::load_entries(spec), key),
                        or_else(
                            value_of(render::env_entries(spec), key),
                            or_else(
                                value_of(render::directory_entries(spec), key),
                                or_else(
                                    value_of(render::identifier_entries(spec), key),
                                    value_of(render::command_entries(spec), key),
                                ),
                            ),
                        ),
                    ),
                ),
            ),
        ),
{
    let a = render::command_entries(spec);
    let b = a + render::identifier_entries(spec);
    let c = b + render::directory_entries(spec);
    let d = c + render::env_entries(spec);
    let e = d + render::load_entries(spec);
    let f = e + render::alive_entries(spec);
    let g = f + render::log_entries(spec);
    lemma_value_of_add(a, render::identifier_entries(spec), key);
    lemma_value_of_add(b, render::directory_entries(spec), key);
    lemma_value_of_add(c, render::env_entries(spec), key);
    lemma_value_of_add(d, render::load_entries(spec), key);
    lemma_value_of_add(e, render::alive_entries(spec), key);
    lemma_value_of_add(f, render::log_entries(spec), key);
    lemma_value_of_add(g, render::class_entries(spec), key);
}

/// The keys of a property list are told apart by their lengths, and where these agree by their
/// first characters.
proof fn lemma_key_lengths()
    ensures
        "Label"@.len() == 5,
        "ProgramArguments"@.len() == 16 && "ProgramArguments"@[0] == 'P',
        "AssociatedBundleIdentifiers"@.len() == 27,
        "WorkingDirectory"@.len() == 16 && "WorkingDirectory"@[0] == 'W',
        "EnvironmentVariables"@.len() == 20,
        "RunAtLoad"@.len() == 9 && "RunAtLoad"@[0] == 'R',
        "KeepAlive"@.len() == 9 && "KeepAlive"@[0] == 'K',
        "StandardOutPath"@.len() == 15,
        "StandardErrorPath"@.len() == 17,
        "ProcessType"@.len() == 11,
{
    reveal_strlit("Label");
    reveal_strlit("ProgramArguments");
    reveal_strlit("AssociatedBundleIdentifiers");
    reveal_strlit("WorkingDirectory");
    reveal_strlit("EnvironmentVariables");
    reveal_strlit("RunAtLoad");
    reveal_strlit("KeepAlive");
    reveal_strlit("StandardOutPath");
    reveal_strlit("StandardErrorPath");
    reveal_strlit("ProcessType");
}

/// The property list of a service holds each of its fields under the key for it.
pub proof fn plist_holds_each_field(spec: ServiceSpecView)
    ensures
        value_of(render::plist_entries(spec), "Label"@) == (Some(PlistValue::Text(spec.label))),
        value_of(render::plist_entries(spec), "ProgramArguments"@) == (Some(PlistValue::Array(seq![spec.program] + spec.args))),
        value_of(render::plist_entries(spec), "AssociatedBundleIdentifiers"@) == (if spec.associated_bundle_identifiers.len() > 0 {
            Some(PlistValue::Array(spec.associated_bundle_identifiers))
        } else {
            None
        }),
        value_of(render::plist_entries(spec), "WorkingDirectory"@) == (match spec.working_dir {
            Some(dir) => Some(PlistValue::Text(dir)),
            None => None,
        }),
        value_of(render::plist_entries(spec), "EnvironmentVariables"@) == (if spec.env.len() > 0 {
            Some(PlistValue::Dict(render::env_dict(spec.env)))
        } else {
            None
        }),
        value_of(render::plist_entries(spec), "RunAtLoad"@) == (if spec.run_at_load {
            Some(PlistValue::True)
        } else {
            None
        }),
        value_of(render::plist_entries(spec), "KeepAlive"@) == (if spec.keep_alive {
            Some(PlistValue::Dict(seq![("SuccessfulExit"@, PlistLeaf::False)]))
        } else {
            None
        }),
        value_of(render::plist_entries(spec), "StandardOutPath"@) == (match spec.log_path {
            Some(path) => Some(PlistValue::Text(path)),
            None => None,
        }),
        value_of(render::plist_entries(spec), "StandardErrorPath"@) == (match spec.log_path {
            Some(path) => Some(PlistValue::Text(path)),
            None => None,
        }),
        value_of(render::plist_entries(spec), "ProcessType"@) == (Some(PlistValue::Text(spec.process_type.name()))),
{
    lemma_key_lengths();
    lemma_groups(spec, "Label"@);
    lemma_group_values(spec, "Label"@);
    lemma_groups(spec, "ProgramArguments"@);
    lemma_group_values(spec, "ProgramArguments"@);
    lemma_groups(spec, "AssociatedBundleIdentifiers"@);
    lemma_group_values(spec, "AssociatedBundleIdentifiers"@);
    lemma_groups(spec, "WorkingDirectory"@);
    lemma_group_values(spec, "WorkingDirectory"@);
    lemma_groups(spec, "EnvironmentVariables"@);
    lemma_group_values(spec, "EnvironmentVariables"@);
    lemma_groups(spec, "RunAtLoad"@);
    lemma_group_values(spec, "RunAtLoad"@);
    lemma_groups(spec, "KeepAlive"@);
    lemma_group_values(spec, "KeepAlive"@);
    lemma_groups(spec, "StandardOutPath"@);
    lemma_group_values(spec, "StandardOutPath"@);
    lemma_groups(spec, "StandardErrorPath"@);
    lemma_group_values(spec, "StandardErrorPath"@);
    lemma_groups(spec, "ProcessType"@);
    lemma_group_values(spec, "ProcessType"@);
}

/// The property list of a service has no `SessionCreate` key at its top level, whatever the service
/// holds: the agent stays in the login session.
pub proof fn plist_never_creates_a_session(spec: ServiceSpecView)
    ensures
        value_of(render::plist_entries(spec), "SessionCreate"@) is None,
{
    reveal_strlit("SessionCreate");
    lemma_key_lengths();
    lemma_groups(spec, "SessionCreate"@);
    lemma_group_values(spec, "SessionCreate"@);
}

proof fn lemma_env_dict_is_injective(
    a: Seq<(Seq<char>, Seq<char>)>,
    b: Seq<(Seq<char>, Seq<char>)>,
)
    requires
        render::env_dict(a) == render::env_dict(b),
    ensures
        a == b,
{
    let d = render::env_dict(a);
    let e = render::env_dict(b);
    assert(d.len() == e.len());
    assert forall|i: int| 0 <= i < a.len() implies a[i] == b[i] by {
        assert(d[i] == e[i]);
    }
    assert(a =~= b);
}

/// Two services with the same property list are the same service: nothing that a field holds is
/// lost in the property list or taken for something else.
pub proof fn plist_determines_its_service(a: ServiceSpecView, b: ServiceSpecView)
    requires
        render::plist_text(render::plist_entries(a)) == render::plist_text(
            render::plist_entries(b),
        ),
    ensures
        a == b,
{
    plist_determines_its_entries(render::plist_entries(a), render::plist_entries(b));
    plist_holds_each_field(a);
    plist_holds_each_field(b);
    let p = seq![a.program] + a.args;
    let q = seq![b.program] + b.args;
    assert(p == q);
    assert(a.program == p[0] && b.program == q[0]);
    assert(a.args =~= p.skip(1));
    assert(b.args =~= q.skip(1));
    if a.env.len() > 0 {
        lemma_env_dict_is_injective(a.env, b.env);
    } else {
        assert(a.env =~= b.env);
    }
    if a.associated_bundle_identifiers.len() == 0 {
        assert(a.associated_bundle_identifiers =~= b.associated_bundle_identifiers);
    }
    reveal_strlit("Background");
    reveal_strlit("Standard");
    assert(a.process_type == b.process_type);
}

} // verus!
