//! Laws of the property list of a service.

use crate::render;
use crate::render::{PlistLeaf, PlistValue};
use crate::service::ServiceSpecView;
use crate::xml_laws;
use vstd::prelude::*;

verus! {

// ---------------------------------------------------------------------------------------------
// Which keys a property list has
// ---------------------------------------------------------------------------------------------
/// The element of the dictionary key `key`.
pub open spec fn key_element(key: Seq<char>) -> Seq<char> {
    "<key>"@ + render::xml_text(key) + "</key>"@
}

/// Whether a nested dictionary has the key.
pub open spec fn has_member(members: Seq<(Seq<char>, PlistLeaf)>, key: Seq<char>) -> bool {
    exists|i: int| 0 <= i < members.len() && (#[trigger] members[i]).0 == key
}

/// Whether an entry has the key, or holds a nested dictionary that has it.
pub open spec fn entry_names(entry: (Seq<char>, PlistValue), key: Seq<char>) -> bool {
    ||| entry.0 == key
    ||| entry.1 matches PlistValue::Dict(members) && has_member(members, key)
}

/// Whether one of the entries has the key, or holds a nested dictionary that has it.
pub open spec fn names_key(entries: Seq<(Seq<char>, PlistValue)>, key: Seq<char>) -> bool {
    exists|i: int| 0 <= i < entries.len() && entry_names(#[trigger] entries[i], key)
}

/// Whether no occurrence of `needle` can start in `t`, whatever follows it: each position of `t`
/// is refuted within `t`.
spec fn refutes(t: Seq<char>, needle: Seq<char>) -> bool {
    forall|i: int| 0 <= i < t.len() ==> #[trigger] refuted_at(t, needle, i)
}

spec fn refuted_at(t: Seq<char>, needle: Seq<char>, i: int) -> bool {
    exists|j: int| 0 <= j < needle.len() && i + j < t.len() && #[trigger] needle[j] != t[i + j]
}

proof fn lemma_refutes_add(a: Seq<char>, b: Seq<char>, needle: Seq<char>)
    requires
        refutes(a, needle),
        refutes(b, needle),
    ensures
        refutes(a + b, needle),
{
    let t = a + b;
    assert forall|i: int| 0 <= i < t.len() implies #[trigger] refuted_at(t, needle, i) by {
        if i < a.len() {
            assert(refuted_at(a, needle, i));
            let j = choose|j: int|
                0 <= j < needle.len() && i + j < a.len() && #[trigger] needle[j] != a[i + j];
            assert(needle[j] != t[i + j]);
        } else {
            let k = i - a.len();
            assert(refuted_at(b, needle, k));
            let j = choose|j: int|
                0 <= j < needle.len() && k + j < b.len() && #[trigger] needle[j] != b[k + j];
            assert(needle[j] != t[i + j]);
        }
    }
}

proof fn lemma_refutes_excludes(t: Seq<char>, needle: Seq<char>)
    requires
        refutes(t, needle),
        needle.len() > 0,
    ensures
        !xml_laws::occurs(needle, t),
{
    if xml_laws::occurs(needle, t) {
        let i = choose|i: int|
            0 <= i && i + needle.len() <= t.len() && #[trigger] t.subrange(i, i + needle.len())
                == needle;
        assert(refuted_at(t, needle, i));
        let j = choose|j: int|
            0 <= j < needle.len() && i + j < t.len() && #[trigger] needle[j] != t[i + j];
        assert(t.subrange(i, i + needle.len())[j] == t[i + j]);
    }
}

proof fn lemma_key_element_start(key: Seq<char>)
    ensures
        key_element(key).len() == render::xml_text(key).len() + 11,
        key_element(key)[0] == '<',
        key_element(key)[1] == 'k',
{
    reveal_strlit("<key>");
    reveal_strlit("</key>");
}

/// Whether each `<` among the first `n` characters of `t` starts something other than a key
/// element.
spec fn keyless(t: Seq<char>, n: nat) -> bool
    decreases n,
{
    n == 0 || (keyless(t, (n - 1) as nat) && (t[n - 1] == '<' ==> n < t.len() && t[n as int] != 'k'))
}

proof fn lemma_keyless_at(t: Seq<char>, n: nat, i: int)
    requires
        keyless(t, n),
        0 <= i < n,
    ensures
        t[i] == '<' ==> i + 1 < t.len() && t[i + 1] != 'k',
    decreases n,
{
    if i < n - 1 {
        lemma_keyless_at(t, (n - 1) as nat, i);
    }
}

proof fn lemma_keyless_refutes(t: Seq<char>, key: Seq<char>)
    requires
        keyless(t, t.len()),
    ensures
        refutes(t, key_element(key)),
{
    let needle = key_element(key);
    lemma_key_element_start(key);
    assert forall|i: int| 0 <= i < t.len() implies #[trigger] refuted_at(t, needle, i) by {
        lemma_keyless_at(t, t.len(), i);
        if t[i] == '<' {
            assert(needle[1] != t[i + 1]);
        } else {
            assert(needle[0] != t[i + 0]);
        }
    }
}

proof fn lemma_bracketless_refutes(t: Seq<char>, key: Seq<char>)
    requires
        forall|i: int| 0 <= i < t.len() ==> #[trigger] t[i] != '<',
    ensures
        refutes(t, key_element(key)),
{
    let needle = key_element(key);
    lemma_key_element_start(key);
    assert forall|i: int| 0 <= i < t.len() implies #[trigger] refuted_at(t, needle, i) by {
        assert(needle[0] != t[i + 0]);
    }
}

proof fn lemma_xml_refutes(s: Seq<char>, key: Seq<char>)
    ensures
        refutes(render::xml_text(s), key_element(key)),
{
    xml_laws::xml_text_has_no_markup(s);
    lemma_bracketless_refutes(render::xml_text(s), key);
}

/// The fixed parts of a property list hold no key element.
proof fn lemma_fixed_parts_refute(key: Seq<char>)
    ensures
        refutes("    "@, key_element(key)),
        refutes("        "@, key_element(key)),
        refutes("<string>"@, key_element(key)),
        refutes("</string>\n"@, key_element(key)),
        refutes("</key>\n"@, key_element(key)),
        refutes("    <true/>\n"@, key_element(key)),
        refutes("        <false/>\n"@, key_element(key)),
        refutes("    <array>\n"@, key_element(key)),
        refutes("    </array>\n"@, key_element(key)),
        refutes("    <dict>\n"@, key_element(key)),
        refutes("    </dict>\n"@, key_element(key)),
        refutes(render::plist_foot(), key_element(key)),
{
    reveal_with_fuel(keyless, 20);
    reveal_strlit("    ");
    reveal_strlit("        ");
    reveal_strlit("<string>");
    reveal_strlit("</string>\n");
    reveal_strlit("</key>\n");
    reveal_strlit("    <true/>\n");
    reveal_strlit("        <false/>\n");
    reveal_strlit("    <array>\n");
    reveal_strlit("    </array>\n");
    reveal_strlit("    <dict>\n");
    reveal_strlit("    </dict>\n");
    reveal_strlit("</dict>\n</plist>\n");
    lemma_keyless_refutes("    "@, key);
    lemma_keyless_refutes("        "@, key);
    lemma_keyless_refutes("<string>"@, key);
    lemma_keyless_refutes("</string>\n"@, key);
    lemma_keyless_refutes("</key>\n"@, key);
    lemma_keyless_refutes("    <true/>\n"@, key);
    lemma_keyless_refutes("        <false/>\n"@, key);
    lemma_keyless_refutes("    <array>\n"@, key);
    lemma_keyless_refutes("    </array>\n"@, key);
    lemma_keyless_refutes("    <dict>\n"@, key);
    lemma_keyless_refutes("    </dict>\n"@, key);
    lemma_keyless_refutes("</dict>\n</plist>\n"@, key);
}

proof fn lemma_head_refutes(key: Seq<char>)
    ensures
        refutes(render::plist_head(), key_element(key)),
{
    let a = "<?xml version=\"1.0\" encoding=\"UTF-8\"?>\n"@;
    let b = "<!DOCTYPE plist PUBLIC \"-//Apple//DTD PLIST 1.0//EN\" \"http://www.apple.com/DTDs/PropertyList-1.0.dtd\">\n"@;
    let c = "<plist version=\"1.0\">\n<dict>\n"@;
    assert(keyless(a, a.len())) by {
        reveal_with_fuel(keyless, 42);
        reveal_strlit("<?xml version=\"1.0\" encoding=\"UTF-8\"?>\n");
    }
    assert(keyless(b, b.len())) by {
        reveal_with_fuel(keyless, 30);
        reveal_strlit(
            "<!DOCTYPE plist PUBLIC \"-//Apple//DTD PLIST 1.0//EN\" \"http://www.apple.com/DTDs/PropertyList-1.0.dtd\">\n",
        );
        assert(keyless(b, 26));
        assert(keyless(b, 52));
        assert(keyless(b, 78));
    }
    assert(keyless(c, c.len())) by {
        reveal_with_fuel(keyless, 32);
        reveal_strlit("<plist version=\"1.0\">\n<dict>\n");
    }
    lemma_keyless_refutes(a, key);
    lemma_keyless_refutes(b, key);
    lemma_keyless_refutes(c, key);
    lemma_refutes_add(a, b, key_element(key));
    lemma_refutes_add(a + b, c, key_element(key));
}

proof fn lemma_string_line_refutes(indent: Seq<char>, value: Seq<char>, key: Seq<char>)
    requires
        refutes(indent, key_element(key)),
    ensures
        refutes(render::string_line(indent, value), key_element(key)),
{
    let needle = key_element(key);
    lemma_fixed_parts_refute(key);
    lemma_xml_refutes(value, key);
    lemma_refutes_add(indent, "<string>"@, needle);
    lemma_refutes_add(indent + "<string>"@, render::xml_text(value), needle);
    lemma_refutes_add(
        indent + "<string>"@ + render::xml_text(value),
        "</string>\n"@,
        needle,
    );
}

/// The line of a key holds no element of another key.
proof fn lemma_other_key_line_refutes(indent: Seq<char>, other: Seq<char>, key: Seq<char>)
    requires
        refutes(indent, key_element(key)),
        other != key,
    ensures
        refutes(render::key_line(indent, other), key_element(key)),
{
    let needle = key_element(key);
    let a = render::xml_text(other);
    let b = render::xml_text(key);
    let tag = "<key>"@ + a + "</key>\n"@;
    reveal_strlit("<key>");
    reveal_strlit("</key>");
    reveal_strlit("</key>\n");
    xml_laws::xml_text_is_injective(other, key);
    xml_laws::xml_text_has_no_markup(other);
    xml_laws::xml_text_has_no_markup(key);
    assert(refuted_at(tag, needle, 0)) by {
        if a.len() < b.len() {
            let j: int = 5 + a.len() as int;
            assert(needle[j] == b[a.len() as int]);
            assert(tag[0 + j] == '<');
            assert(needle[j] != tag[0 + j]);
        } else if b.len() < a.len() {
            let j: int = 5 + b.len() as int;
            assert(needle[j] == '<');
            assert(tag[0 + j] == a[b.len() as int]);
            assert(needle[j] != tag[0 + j]);
        } else {
            if forall|k: int| 0 <= k < a.len() ==> a[k] == b[k] {
                assert(a =~= b);
            }
            let k = choose|k: int| 0 <= k < a.len() && a[k] != b[k];
            let j = 5 + k;
            assert(needle[j] == b[k]);
            assert(tag[0 + j] == a[k]);
            assert(needle[j] != tag[0 + j]);
        }
    }
    assert forall|i: int| 0 <= i < tag.len() implies #[trigger] refuted_at(tag, needle, i) by {
        if i > 0 {
            if i == 5 + a.len() {
                assert(tag[i + 1] == '/');
                assert(needle[1] != tag[i + 1]);
            } else {
                if i < 5 {
                    assert(tag[i] == "<key>"@[i]);
                } else if i < 5 + a.len() {
                    assert(tag[i] == a[i - 5]);
                } else {
                    assert(tag[i] == "</key>\n"@[i - 5 - a.len()]);
                }
                assert(needle[0] != tag[i + 0]);
            }
        }
    }
    assert(render::key_line(indent, other) =~= indent + tag);
    lemma_refutes_add(indent, tag, needle);
}

proof fn lemma_elements_refute(items: Seq<Seq<char>>, key: Seq<char>)
    ensures
        refutes(render::element_lines(items), key_element(key)),
    decreases items.len(),
{
    if items.len() > 0 {
        lemma_elements_refute(items.drop_last(), key);
        lemma_fixed_parts_refute(key);
        lemma_string_line_refutes("        "@, items.last(), key);
        lemma_refutes_add(
            render::element_lines(items.drop_last()),
            render::string_line("        "@, items.last()),
            key_element(key),
        );
    }
}

proof fn lemma_members_refute(members: Seq<(Seq<char>, PlistLeaf)>, key: Seq<char>)
    requires
        !has_member(members, key),
    ensures
        refutes(render::member_lines(members), key_element(key)),
    decreases members.len(),
{
    if members.len() > 0 {
        let before = members.drop_last();
        assert(!has_member(before, key)) by {
            if has_member(before, key) {
                let i = choose|i: int| 0 <= i < before.len() && (#[trigger] before[i]).0 == key;
                assert(members[i].0 == key);
            }
        }
        lemma_members_refute(before, key);
        lemma_fixed_parts_refute(key);
        assert(members[members.len() - 1].0 != key);
        lemma_other_key_line_refutes("        "@, members.last().0, key);
        match members.last().1 {
            PlistLeaf::Text(s) => lemma_string_line_refutes("        "@, s, key),
            PlistLeaf::False => {},
        }
        let a = render::member_lines(before);
        let b = render::key_line("        "@, members.last().0);
        lemma_refutes_add(a, b, key_element(key));
        lemma_refutes_add(a + b, render::leaf_line(members.last().1), key_element(key));
    }
}

proof fn lemma_entry_refutes(entry: (Seq<char>, PlistValue), key: Seq<char>)
    requires
        !entry_names(entry, key),
    ensures
        refutes(render::entry_text(entry), key_element(key)),
{
    let needle = key_element(key);
    lemma_fixed_parts_refute(key);
    lemma_other_key_line_refutes("    "@, entry.0, key);
    match entry.1 {
        PlistValue::Text(s) => lemma_string_line_refutes("    "@, s, key),
        PlistValue::True => {},
        PlistValue::Array(items) => {
            lemma_elements_refute(items, key);
            lemma_refutes_add("    <array>\n"@, render::element_lines(items), needle);
            lemma_refutes_add(
                "    <array>\n"@ + render::element_lines(items),
                "    </array>\n"@,
                needle,
            );
        },
        PlistValue::Dict(members) => {
            lemma_members_refute(members, key);
            lemma_refutes_add("    <dict>\n"@, render::member_lines(members), needle);
            lemma_refutes_add(
                "    <dict>\n"@ + render::member_lines(members),
                "    </dict>\n"@,
                needle,
            );
        },
    }
    lemma_refutes_add(
        render::key_line("    "@, entry.0),
        render::value_lines(entry.1),
        needle,
    );
}

proof fn lemma_entries_refute(entries: Seq<(Seq<char>, PlistValue)>, key: Seq<char>)
    requires
        !names_key(entries, key),
    ensures
        refutes(render::entry_lines(entries), key_element(key)),
    decreases entries.len(),
{
    if entries.len() > 0 {
        let before = entries.drop_last();
        assert(!names_key(before, key)) by {
            if names_key(before, key) {
                let i = choose|i: int|
                    0 <= i < before.len() && entry_names(#[trigger] before[i], key);
                assert(entry_names(entries[i], key));
            }
        }
        lemma_entries_refute(before, key);
        assert(!entry_names(entries[entries.len() - 1], key));
        lemma_entry_refutes(entries.last(), key);
        lemma_refutes_add(
            render::entry_lines(before),
            render::entry_text(entries.last()),
            key_element(key),
        );
    }
}

proof fn lemma_regroup(
    indent: Seq<char>,
    opening: Seq<char>,
    name: Seq<char>,
    closing: Seq<char>,
    end: Seq<char>,
)
    ensures
        indent + (opening + name + closing) + end == indent + opening + name + (closing + end),
{
    assert(indent + (opening + name + closing) + end =~= indent + opening + name + (closing
        + end));
}

proof fn lemma_key_line_holds(indent: Seq<char>, key: Seq<char>)
    ensures
        xml_laws::occurs(key_element(key), render::key_line(indent, key)),
{
    let end = seq!['\n'];
    assert("</key>"@ + end =~= "</key>\n"@) by {
        reveal_strlit("</key>");
        reveal_strlit("</key>\n");
    }
    xml_laws::lemma_occurs_self(key_element(key));
    xml_laws::lemma_occurs_in_part(key_element(key), indent, key_element(key), end);
    lemma_regroup(indent, "<key>"@, render::xml_text(key), "</key>"@, end);
}

proof fn lemma_members_hold(members: Seq<(Seq<char>, PlistLeaf)>, key: Seq<char>)
    requires
        has_member(members, key),
    ensures
        xml_laws::occurs(key_element(key), render::member_lines(members)),
    decreases members.len(),
{
    let i = choose|i: int| 0 <= i < members.len() && (#[trigger] members[i]).0 == key;
    let before = members.drop_last();
    let a = render::member_lines(before);
    let b = render::key_line("        "@, members.last().0);
    let c = render::leaf_line(members.last().1);
    if i == members.len() - 1 {
        lemma_key_line_holds("        "@, key);
        xml_laws::lemma_occurs_in_part(key_element(key), a, b, c);
    } else {
        assert(before[i].0 == key);
        lemma_members_hold(before, key);
        xml_laws::lemma_occurs_in_part(key_element(key), Seq::empty(), a, b + c);
        assert(Seq::<char>::empty() + a + (b + c) =~= a + b + c);
    }
}

proof fn lemma_entry_holds(entry: (Seq<char>, PlistValue), key: Seq<char>)
    requires
        entry_names(entry, key),
    ensures
        xml_laws::occurs(key_element(key), render::entry_text(entry)),
{
    let line = render::key_line("    "@, entry.0);
    let value = render::value_lines(entry.1);
    if entry.0 == key {
        lemma_key_line_holds("    "@, key);
        xml_laws::lemma_occurs_in_part(key_element(key), Seq::empty(), line, value);
        assert(Seq::<char>::empty() + line + value =~= line + value);
    } else {
        let members = entry.1->Dict_0;
        lemma_members_hold(members, key);
        let m = render::member_lines(members);
        xml_laws::lemma_occurs_in_part(
            key_element(key),
            line + "    <dict>\n"@,
            m,
            "    </dict>\n"@,
        );
        assert(line + "    <dict>\n"@ + m + "    </dict>\n"@ =~= line + value);
    }
}

proof fn lemma_entries_hold(entries: Seq<(Seq<char>, PlistValue)>, key: Seq<char>)
    requires
        names_key(entries, key),
    ensures
        xml_laws::occurs(key_element(key), render::entry_lines(entries)),
    decreases entries.len(),
{
    let i = choose|i: int| 0 <= i < entries.len() && entry_names(#[trigger] entries[i], key);
    let before = entries.drop_last();
    let a = render::entry_lines(before);
    let b = render::entry_text(entries.last());
    if i == entries.len() - 1 {
        lemma_entry_holds(entries.last(), key);
        xml_laws::lemma_occurs_in_part(key_element(key), a, b, Seq::empty());
        assert(a + b + Seq::<char>::empty() =~= a + b);
    } else {
        assert(entry_names(before[i], key));
        lemma_entries_hold(before, key);
        xml_laws::lemma_occurs_in_part(key_element(key), Seq::empty(), a, b);
        assert(Seq::<char>::empty() + a + b =~= a + b);
    }
}

/// The element of a key occurs in a property list exactly if an entry has the key or holds a
/// dictionary that has it: no value can bring a key in.
pub proof fn plist_has_the_keys_of_its_entries(
    entries: Seq<(Seq<char>, PlistValue)>,
    key: Seq<char>,
)
    ensures
        xml_laws::occurs(key_element(key), render::plist_text(entries)) <==> names_key(
            entries,
            key,
        ),
{
    let head = render::plist_head();
    let lines = render::entry_lines(entries);
    let foot = render::plist_foot();
    if names_key(entries, key) {
        lemma_entries_hold(entries, key);
        xml_laws::lemma_occurs_in_part(key_element(key), head, lines, foot);
    } else {
        lemma_entries_refute(entries, key);
        lemma_head_refutes(key);
        lemma_fixed_parts_refute(key);
        lemma_refutes_add(head, lines, key_element(key));
        lemma_refutes_add(head + lines, foot, key_element(key));
        lemma_key_element_start(key);
        lemma_refutes_excludes(head + lines + foot, key_element(key));
    }
}

// ---------------------------------------------------------------------------------------------
// Which keys the property list of a service has
// ---------------------------------------------------------------------------------------------
/// Whether the environment of a service sets the variable.
pub open spec fn sets_variable(spec: ServiceSpecView, name: Seq<char>) -> bool {
    exists|i: int| 0 <= i < spec.env.len() && (#[trigger] spec.env[i]).0 == name
}

/// Whether the property list of a service has the key, at its top level or in a dictionary.
pub open spec fn service_key(spec: ServiceSpecView, key: Seq<char>) -> bool {
    ||| key == "Label"@
    ||| key == "ProgramArguments"@
    ||| key == "ProcessType"@
    ||| key == "AssociatedBundleIdentifiers"@ && spec.associated_bundle_identifiers.len() > 0
    ||| key == "WorkingDirectory"@ && spec.working_dir is Some
    ||| key == "EnvironmentVariables"@ && spec.env.len() > 0
    ||| key == "RunAtLoad"@ && spec.run_at_load
    ||| (key == "KeepAlive"@ || key == "SuccessfulExit"@) && spec.keep_alive
    ||| (key == "StandardOutPath"@ || key == "StandardErrorPath"@) && spec.log_path is Some
    ||| sets_variable(spec, key)
}

proof fn lemma_names_key_add(
    a: Seq<(Seq<char>, PlistValue)>,
    b: Seq<(Seq<char>, PlistValue)>,
    key: Seq<char>,
)
    ensures
        names_key(a + b, key) <==> names_key(a, key) || names_key(b, key),
{
    let c = a + b;
    if names_key(c, key) {
        let i = choose|i: int| 0 <= i < c.len() && entry_names(#[trigger] c[i], key);
        if i < a.len() {
            assert(entry_names(a[i], key));
        } else {
            assert(entry_names(b[i - a.len()], key));
        }
    }
    if names_key(a, key) {
        let i = choose|i: int| 0 <= i < a.len() && entry_names(#[trigger] a[i], key);
        assert(entry_names(c[i], key));
    }
    if names_key(b, key) {
        let i = choose|i: int| 0 <= i < b.len() && entry_names(#[trigger] b[i], key);
        assert(entry_names(c[a.len() + i], key));
    }
}

proof fn lemma_names_key_one(entry: (Seq<char>, PlistValue), key: Seq<char>)
    ensures
        names_key(seq![entry], key) <==> entry_names(entry, key),
{
    let one = seq![entry];
    if entry_names(entry, key) {
        assert(entry_names(one[0], key));
    }
}

proof fn lemma_names_key_two(
    first: (Seq<char>, PlistValue),
    second: (Seq<char>, PlistValue),
    key: Seq<char>,
)
    ensures
        names_key(seq![first, second], key) <==> entry_names(first, key) || entry_names(
            second,
            key,
        ),
{
    lemma_names_key_one(first, key);
    lemma_names_key_one(second, key);
    lemma_names_key_add(seq![first], seq![second], key);
    assert(seq![first] + seq![second] =~= seq![first, second]);
}

proof fn lemma_env_keys(spec: ServiceSpecView, key: Seq<char>)
    ensures
        has_member(render::env_dict(spec.env), key) <==> sets_variable(spec, key),
{
    let dict = render::env_dict(spec.env);
    if has_member(dict, key) {
        let i = choose|i: int| 0 <= i < dict.len() && (#[trigger] dict[i]).0 == key;
        assert(spec.env[i].0 == key);
    }
    if sets_variable(spec, key) {
        let i = choose|i: int| 0 <= i < spec.env.len() && (#[trigger] spec.env[i]).0 == key;
        assert(dict[i].0 == key);
    }
}

proof fn lemma_alive_keys(key: Seq<char>)
    ensures
        has_member(seq![("SuccessfulExit"@, PlistLeaf::False)], key) <==> key
            == "SuccessfulExit"@,
{
    let members = seq![("SuccessfulExit"@, PlistLeaf::False)];
    assert(members[0].0 == "SuccessfulExit"@);
}

proof fn lemma_service_keys(spec: ServiceSpecView, key: Seq<char>)
    ensures
        names_key(render::plist_entries(spec), key) <==> service_key(spec, key),
{
    let a = render::command_entries(spec);
    let b = a + render::identifier_entries(spec);
    let c = b + render::directory_entries(spec);
    let d = c + render::env_entries(spec);
    let e = d + render::load_entries(spec);
    let f = e + render::alive_entries(spec);
    let g = f + render::log_entries(spec);
    lemma_names_key_add(a, render::identifier_entries(spec), key);
    lemma_names_key_add(b, render::directory_entries(spec), key);
    lemma_names_key_add(c, render::env_entries(spec), key);
    lemma_names_key_add(d, render::load_entries(spec), key);
    lemma_names_key_add(e, render::alive_entries(spec), key);
    lemma_names_key_add(f, render::log_entries(spec), key);
    lemma_names_key_add(g, render::class_entries(spec), key);
    lemma_env_keys(spec, key);
    lemma_alive_keys(key);
    lemma_names_key_two(a[0], a[1], key);
    assert(a =~= seq![a[0], a[1]]);
    lemma_names_key_one(
        (
            "AssociatedBundleIdentifiers"@,
            PlistValue::Array(spec.associated_bundle_identifiers),
        ),
        key,
    );
    if let Some(dir) = spec.working_dir {
        lemma_names_key_one(("WorkingDirectory"@, PlistValue::Text(dir)), key);
    }
    lemma_names_key_one(
        ("EnvironmentVariables"@, PlistValue::Dict(render::env_dict(spec.env))),
        key,
    );
    lemma_names_key_one(("RunAtLoad"@, PlistValue::True), key);
    lemma_names_key_one(
        ("KeepAlive"@, PlistValue::Dict(seq![("SuccessfulExit"@, PlistLeaf::False)])),
        key,
    );
    if let Some(path) = spec.log_path {
        lemma_names_key_two(
            ("StandardOutPath"@, PlistValue::Text(path)),
            ("StandardErrorPath"@, PlistValue::Text(path)),
            key,
        );
    }
    lemma_names_key_one(("ProcessType"@, PlistValue::Text(spec.process_type.name())), key);
}

/// The element of a key occurs in the property list of a service exactly if the service has the
/// field that the key is for, or sets a variable of that name.
pub proof fn plist_has_the_keys_of_its_service(spec: ServiceSpecView, key: Seq<char>)
    ensures
        xml_laws::occurs(
            key_element(key),
            render::plist_text(render::plist_entries(spec)),
        ) <==> service_key(spec, key),
{
    lemma_service_keys(spec, key);
    plist_has_the_keys_of_its_entries(render::plist_entries(spec), key);
}

/// There is no `SessionCreate` key in the property list of a service, unless as the name of an
/// environment variable.
pub proof fn plist_has_no_session_create(spec: ServiceSpecView)
    requires
        !sets_variable(spec, "SessionCreate"@),
    ensures
        !xml_laws::occurs(
            key_element("SessionCreate"@),
            render::plist_text(render::plist_entries(spec)),
        ),
{
    plist_has_the_keys_of_its_service(spec, "SessionCreate"@);
    reveal_strlit("SessionCreate");
    reveal_strlit("Label");
    reveal_strlit("ProgramArguments");
    reveal_strlit("ProcessType");
    reveal_strlit("AssociatedBundleIdentifiers");
    reveal_strlit("WorkingDirectory");
    reveal_strlit("EnvironmentVariables");
    reveal_strlit("RunAtLoad");
    reveal_strlit("KeepAlive");
    reveal_strlit("SuccessfulExit");
    reveal_strlit("StandardOutPath");
    reveal_strlit("StandardErrorPath");
}

/// There is a `KeepAlive` key in the property list of a service exactly if it is kept alive.
pub proof fn plist_keeps_alive_on_demand(spec: ServiceSpecView)
    requires
        !sets_variable(spec, "KeepAlive"@),
    ensures
        xml_laws::occurs(
            key_element("KeepAlive"@),
            render::plist_text(render::plist_entries(spec)),
        ) <==> spec.keep_alive,
{
    plist_has_the_keys_of_its_service(spec, "KeepAlive"@);
    reveal_strlit("KeepAlive");
    reveal_strlit("Label");
    reveal_strlit("ProgramArguments");
    reveal_strlit("ProcessType");
    reveal_strlit("AssociatedBundleIdentifiers");
    reveal_strlit("WorkingDirectory");
    reveal_strlit("EnvironmentVariables");
    reveal_strlit("RunAtLoad");
    assert("KeepAlive"@[0] != "RunAtLoad"@[0]);
    reveal_strlit("SuccessfulExit");
    reveal_strlit("StandardOutPath");
    reveal_strlit("StandardErrorPath");
}

/// There is an `AssociatedBundleIdentifiers` key in the property list of a service exactly if the
/// service has such identifiers.
pub proof fn plist_names_owners_on_demand(spec: ServiceSpecView)
    requires
        !sets_variable(spec, "AssociatedBundleIdentifiers"@),
    ensures
        xml_laws::occurs(
            key_element("AssociatedBundleIdentifiers"@),
            render::plist_text(render::plist_entries(spec)),
        ) <==> spec.associated_bundle_identifiers.len() > 0,
{
    plist_has_the_keys_of_its_service(spec, "AssociatedBundleIdentifiers"@);
    reveal_strlit("AssociatedBundleIdentifiers");
    reveal_strlit("KeepAlive");
    reveal_strlit("Label");
    reveal_strlit("ProgramArguments");
    reveal_strlit("ProcessType");
    reveal_strlit("WorkingDirectory");
    reveal_strlit("EnvironmentVariables");
    reveal_strlit("RunAtLoad");
    reveal_strlit("SuccessfulExit");
    reveal_strlit("StandardOutPath");
    reveal_strlit("StandardErrorPath");
}

/// The program of a service stands first among the program arguments in its property list: there
/// is nothing between the two.
pub proof fn plist_runs_the_program_itself(spec: ServiceSpecView)
    ensures
        render::plist_entries(spec)[1] == (
            "ProgramArguments"@,
            PlistValue::Array(seq![spec.program] + spec.args),
        ),
        xml_laws::occurs(
            render::key_line("    "@, "ProgramArguments"@) + "    <array>\n"@
                + render::string_line("        "@, spec.program),
            render::plist_text(render::plist_entries(spec)),
        ),
{
    let entries = render::plist_entries(spec);
    let items = seq![spec.program] + spec.args;
    let first = render::string_line("        "@, spec.program);
    let needle = render::key_line("    "@, "ProgramArguments"@) + "    <array>\n"@ + first;
    let entry = ("ProgramArguments"@, PlistValue::Array(items));
    lemma_elements_start(spec.program, spec.args);
    let rest = choose|rest: Seq<char>| render::element_lines(items) == first + rest;
    let tail = rest + "    </array>\n"@;
    assert(render::entry_text(entry) =~= Seq::<char>::empty() + needle + tail);
    xml_laws::lemma_occurs_self(needle);
    xml_laws::lemma_occurs_in_part(needle, Seq::empty(), needle, tail);
    assert(entries[1] == entry);
    lemma_entry_occurs(needle, entries, 1);
    xml_laws::lemma_occurs_in_part(
        needle,
        render::plist_head(),
        render::entry_lines(entries),
        render::plist_foot(),
    );
}

/// The elements of an array start with that of the first item.
proof fn lemma_elements_start(first: Seq<char>, rest: Seq<Seq<char>>)
    ensures
        exists|t: Seq<char>|
            render::element_lines(seq![first] + rest) == render::string_line("        "@, first)
                + t,
    decreases rest.len(),
{
    let items = seq![first] + rest;
    let line = render::string_line("        "@, first);
    if rest.len() == 0 {
        assert(items.drop_last() =~= Seq::empty());
        assert(render::element_lines(Seq::empty()) == Seq::<char>::empty());
        assert(render::element_lines(items) =~= line + Seq::<char>::empty());
    } else {
        lemma_elements_start(first, rest.drop_last());
        assert(items.drop_last() =~= seq![first] + rest.drop_last());
        let t = choose|t: Seq<char>|
            render::element_lines(seq![first] + rest.drop_last()) == line + t;
        let last = render::string_line("        "@, rest.last());
        assert(render::element_lines(items) =~= line + (t + last));
    }
}

/// What occurs in an entry occurs in the entries.
proof fn lemma_entry_occurs(needle: Seq<char>, entries: Seq<(Seq<char>, PlistValue)>, i: int)
    requires
        0 <= i < entries.len(),
        xml_laws::occurs(needle, render::entry_text(entries[i])),
    ensures
        xml_laws::occurs(needle, render::entry_lines(entries)),
    decreases entries.len(),
{
    let before = entries.drop_last();
    let a = render::entry_lines(before);
    let b = render::entry_text(entries.last());
    if i == entries.len() - 1 {
        xml_laws::lemma_occurs_in_part(needle, a, b, Seq::empty());
        assert(a + b + Seq::<char>::empty() =~= a + b);
    } else {
        lemma_entry_occurs(needle, before, i);
        xml_laws::lemma_occurs_in_part(needle, Seq::empty(), a, b);
        assert(Seq::<char>::empty() + a + b =~= a + b);
    }
}

} // verus!
