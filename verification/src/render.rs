//! Renderers of the files that describe a service to the host: a launchd property list and a
//! systemd unit.

use crate::service::{ServiceSpec, ServiceSpecView};
use crate::service;
use crate::text;
use vstd::prelude::*;
use vstd::string::*;

verus! {

// ---------------------------------------------------------------------------------------------
// XML text
// ---------------------------------------------------------------------------------------------
/// How `c` is written in XML text.
pub open spec fn xml_char(c: char) -> Seq<char> {
    if c == '&' {
        "&amp;"@
    } else if c == '<' {
        "&lt;"@
    } else if c == '>' {
        "&gt;"@
    } else {
        seq![c]
    }
}

/// How `s` is written in XML text.
pub open spec fn xml_text(s: Seq<char>) -> Seq<char>
    decreases s.len(),
{
    if s.len() == 0 {
        Seq::empty()
    } else {
        xml_text(s.drop_last()) + xml_char(s.last())
    }
}

/// Escapes a string for XML text.
pub fn xml(s: &str) -> (r: String)
    ensures
        r@ == xml_text(s@),
{
    let cs = text::chars_of(s);
    let mut r = String::new();
    let mut i: usize = 0;
    while i < cs.len()
        invariant
            i <= cs.len(),
            cs@ == s@,
            r@ == xml_text(s@.take(i as int)),
        decreases cs.len() - i,
    {
        let c = cs[i];
        assert(s@.take(i + 1).drop_last() =~= s@.take(i as int));
        let ghost before = r@;
        if c == '&' {
            r.append("&amp;");
        } else if c == '<' {
            r.append("&lt;");
        } else if c == '>' {
            r.append("&gt;");
        } else {
            r.push(c);
            assert(r@ =~= before + seq![c]);
        }
        i += 1;
    }
    assert(s@.take(i as int) =~= s@);
    r
}

// ---------------------------------------------------------------------------------------------
// Property lists
// ---------------------------------------------------------------------------------------------
/// A value inside a nested dictionary of a property list.
pub enum PlistLeaf {
    Text(Seq<char>),
    False,
}

/// A value of the top-level dictionary of a property list.
pub enum PlistValue {
    Text(Seq<char>),
    True,
    Array(Seq<Seq<char>>),
    Dict(Seq<(Seq<char>, PlistLeaf)>),
}

/// The environment of a service as a nested dictionary.
pub open spec fn env_dict(env: Seq<(Seq<char>, Seq<char>)>) -> Seq<(Seq<char>, PlistLeaf)> {
    Seq::new(env.len(), |i: int| (env[i].0, PlistLeaf::Text(env[i].1)))
}

/// The entries that every property list starts with. The program is the first of the program
/// arguments.
pub open spec fn command_entries(spec: ServiceSpecView) -> Seq<(Seq<char>, PlistValue)> {
    seq![
        ("Label"@, PlistValue::Text(spec.label)),
        ("ProgramArguments"@, PlistValue::Array(seq![spec.program] + spec.args)),
    ]
}

/// The entry of the associated bundle identifiers, if there are any.
pub open spec fn identifier_entries(spec: ServiceSpecView) -> Seq<(Seq<char>, PlistValue)> {
    if spec.associated_bundle_identifiers.len() > 0 {
        seq![
            (
                "AssociatedBundleIdentifiers"@,
                PlistValue::Array(spec.associated_bundle_identifiers),
            ),
        ]
    } else {
        Seq::empty()
    }
}

/// The entry of the working directory, if it is set.
pub open spec fn directory_entries(spec: ServiceSpecView) -> Seq<(Seq<char>, PlistValue)> {
    match spec.working_dir {
        Some(dir) => seq![("WorkingDirectory"@, PlistValue::Text(dir))],
        None => Seq::empty(),
    }
}

/// The entry of the environment, if it is not empty.
pub open spec fn env_entries(spec: ServiceSpecView) -> Seq<(Seq<char>, PlistValue)> {
    if spec.env.len() > 0 {
        seq![("EnvironmentVariables"@, PlistValue::Dict(env_dict(spec.env)))]
    } else {
        Seq::empty()
    }
}

/// The entry of a service that starts at login.
pub open spec fn load_entries(spec: ServiceSpecView) -> Seq<(Seq<char>, PlistValue)> {
    if spec.run_at_load {
        seq![("RunAtLoad"@, PlistValue::True)]
    } else {
        Seq::empty()
    }
}

/// The entry of a service that is kept alive: it is restarted after any exit but a successful one.
pub open spec fn alive_entries(spec: ServiceSpecView) -> Seq<(Seq<char>, PlistValue)> {
    if spec.keep_alive {
        seq![("KeepAlive"@, PlistValue::Dict(seq![("SuccessfulExit"@, PlistLeaf::False)]))]
    } else {
        Seq::empty()
    }
}

/// The entries of the log file, if it is set.
pub open spec fn log_entries(spec: ServiceSpecView) -> Seq<(Seq<char>, PlistValue)> {
    match spec.log_path {
        Some(path) => seq![
            ("StandardOutPath"@, PlistValue::Text(path)),
            ("StandardErrorPath"@, PlistValue::Text(path)),
        ],
        None => Seq::empty(),
    }
}

/// The entry of the scheduling class.
pub open spec fn class_entries(spec: ServiceSpecView) -> Seq<(Seq<char>, PlistValue)> {
    seq![("ProcessType"@, PlistValue::Text(spec.process_type.name()))]
}

/// The entries of the property list of a service, in order.
pub open spec fn plist_entries(spec: ServiceSpecView) -> Seq<(Seq<char>, PlistValue)> {
    command_entries(spec) + identifier_entries(spec) + directory_entries(spec) + env_entries(spec)
        + load_entries(spec) + alive_entries(spec) + log_entries(spec) + class_entries(spec)
}

/// A line with a dictionary key.
pub open spec fn key_line(indent: Seq<char>, key: Seq<char>) -> Seq<char> {
    indent + "<key>"@ + xml_text(key) + "</key>\n"@
}

/// A line with a string.
pub open spec fn string_line(indent: Seq<char>, value: Seq<char>) -> Seq<char> {
    indent + "<string>"@ + xml_text(value) + "</string>\n"@
}

/// The lines of the elements of an array.
pub open spec fn element_lines(items: Seq<Seq<char>>) -> Seq<char>
    decreases items.len(),
{
    if items.len() == 0 {
        Seq::empty()
    } else {
        element_lines(items.drop_last()) + string_line("        "@, items.last())
    }
}

/// The line of a value of a nested dictionary.
pub open spec fn leaf_line(leaf: PlistLeaf) -> Seq<char> {
    match leaf {
        PlistLeaf::Text(s) => string_line("        "@, s),
        PlistLeaf::False => "        <false/>\n"@,
    }
}

/// The lines of the entries of a nested dictionary.
pub open spec fn member_lines(members: Seq<(Seq<char>, PlistLeaf)>) -> Seq<char>
    decreases members.len(),
{
    if members.len() == 0 {
        Seq::empty()
    } else {
        member_lines(members.drop_last()) + key_line("        "@, members.last().0) + leaf_line(
            members.last().1,
        )
    }
}

/// The lines of a value of the top-level dictionary.
pub open spec fn value_lines(value: PlistValue) -> Seq<char> {
    match value {
        PlistValue::Text(s) => string_line("    "@, s),
        PlistValue::True => "    <true/>\n"@,
        PlistValue::Array(items) => "    <array>\n"@ + element_lines(items) + "    </array>\n"@,
        PlistValue::Dict(members) => "    <dict>\n"@ + member_lines(members) + "    </dict>\n"@,
    }
}

/// The lines of an entry of the top-level dictionary.
pub open spec fn entry_text(entry: (Seq<char>, PlistValue)) -> Seq<char> {
    key_line("    "@, entry.0) + value_lines(entry.1)
}

/// The lines of the entries of the top-level dictionary.
pub open spec fn entry_lines(entries: Seq<(Seq<char>, PlistValue)>) -> Seq<char>
    decreases entries.len(),
{
    if entries.len() == 0 {
        Seq::empty()
    } else {
        entry_lines(entries.drop_last()) + entry_text(entries.last())
    }
}

/// What stands before the entries of a property list.
pub open spec fn plist_head() -> Seq<char> {
    "<?xml version=\"1.0\" encoding=\"UTF-8\"?>\n"@
        + "<!DOCTYPE plist PUBLIC \"-//Apple//DTD PLIST 1.0//EN\" \"http://www.apple.com/DTDs/PropertyList-1.0.dtd\">\n"@
        + "<plist version=\"1.0\">\n<dict>\n"@
}

/// What stands after the entries of a property list.
pub open spec fn plist_foot() -> Seq<char> {
    "</dict>\n</plist>\n"@
}

/// The property list with the given entries.
pub open spec fn plist_text(entries: Seq<(Seq<char>, PlistValue)>) -> Seq<char> {
    plist_head() + entry_lines(entries) + plist_foot()
}

fn push_key(out: &mut String, indent: &str, key: &str)
    ensures
        final(out)@ == old(out)@ + key_line(indent@, key@),
{
    out.append(indent);
    out.append("<key>");
    out.append(xml(key).as_str());
    out.append("</key>\n");
    assert(out@ =~= old(out)@ + key_line(indent@, key@));
}

fn push_string(out: &mut String, indent: &str, value: &str)
    ensures
        final(out)@ == old(out)@ + string_line(indent@, value@),
{
    out.append(indent);
    out.append("<string>");
    out.append(xml(value).as_str());
    out.append("</string>\n");
    assert(out@ =~= old(out)@ + string_line(indent@, value@));
}

proof fn lemma_entry_lines_one(entry: (Seq<char>, PlistValue))
    ensures
        entry_lines(seq![entry]) == entry_text(entry),
{
    assert(seq![entry].drop_last() =~= Seq::empty());
    assert(entry_lines(Seq::empty()) == Seq::<char>::empty());
    assert(entry_lines(seq![entry]) =~= entry_text(entry));
}

/// The lines of two groups of entries are those of the first and then those of the second.
proof fn lemma_entry_lines_add(
    a: Seq<(Seq<char>, PlistValue)>,
    b: Seq<(Seq<char>, PlistValue)>,
)
    ensures
        entry_lines(a + b) == entry_lines(a) + entry_lines(b),
    decreases b.len(),
{
    if b.len() == 0 {
        assert(a + b =~= a);
        assert(entry_lines(a + b) =~= entry_lines(a) + entry_lines(b));
    } else {
        lemma_entry_lines_add(a, b.drop_last());
        assert((a + b).drop_last() =~= a + b.drop_last());
        assert(entry_lines(a + b) =~= entry_lines(a) + entry_lines(b));
    }
}

proof fn lemma_append_entries(
    head: Seq<char>,
    a: Seq<(Seq<char>, PlistValue)>,
    b: Seq<(Seq<char>, PlistValue)>,
)
    ensures
        head + entry_lines(a) + entry_lines(b) == head + entry_lines(a + b),
{
    lemma_entry_lines_add(a, b);
    assert(head + entry_lines(a) + entry_lines(b) =~= head + (entry_lines(a) + entry_lines(b)));
}

fn push_text_entry(out: &mut String, key: &str, value: &str)
    ensures
        final(out)@ == old(out)@ + entry_lines(seq![(key@, PlistValue::Text(value@))]),
{
    push_key(out, "    ", key);
    push_string(out, "    ", value);
    proof {
        lemma_entry_lines_one((key@, PlistValue::Text(value@)));
    }
    assert(out@ =~= old(out)@ + entry_text((key@, PlistValue::Text(value@))));
}

/// Appends the elements of an array: `first`, if there is one, and then `rest`.
fn push_elements(out: &mut String, first: &[&str], rest: &Vec<String>)
    requires
        first@.len() <= 1,
    ensures
        final(out)@ == old(out)@ + element_lines(text::str_texts(first@) + text::texts(rest@)),
{
    let ghost all = text::str_texts(first@) + text::texts(rest@);
    let ghost start = out@;
    assert(all.take(0) =~= Seq::empty());
    assert(out@ =~= start + element_lines(all.take(0)));
    if first.len() == 1 {
        push_string(out, "        ", first[0]);
        assert(all.take(1).drop_last() =~= all.take(0));
        assert(all.take(1).last() == first@[0]@);
        assert(out@ =~= start + element_lines(all.take(1)));
    }
    let ghost k = first@.len() as int;
    let mut i: usize = 0;
    while i < rest.len()
        invariant
            i <= rest.len(),
            k == first@.len(),
            all == text::str_texts(first@) + text::texts(rest@),
            out@ == start + element_lines(all.take(k + i)),
        decreases rest.len() - i,
    {
        push_string(out, "        ", rest[i].as_str());
        assert(all.take(k + i + 1).drop_last() =~= all.take(k + i));
        assert(all.take(k + i + 1).last() == rest@[i as int]@);
        assert(out@ =~= start + element_lines(all.take(k + i + 1)));
        i += 1;
    }
    assert(all.take(k + i) =~= all);
}

fn push_array_entry(out: &mut String, key: &str, first: &[&str], rest: &Vec<String>)
    requires
        first@.len() <= 1,
    ensures
        final(out)@ == old(out)@ + entry_lines(
            seq![(key@, PlistValue::Array(text::str_texts(first@) + text::texts(rest@)))],
        ),
{
    let ghost value = PlistValue::Array(text::str_texts(first@) + text::texts(rest@));
    push_key(out, "    ", key);
    out.append("    <array>\n");
    push_elements(out, first, rest);
    out.append("    </array>\n");
    proof {
        lemma_entry_lines_one((key@, value));
    }
    assert(out@ =~= old(out)@ + entry_text((key@, value)));
}

fn push_command(out: &mut String, spec: &ServiceSpec)
    ensures
        final(out)@ == old(out)@ + entry_lines(command_entries(spec@)),
{
    push_text_entry(out, "Label", spec.label.as_str());
    let program = [spec.program.as_str()];
    push_array_entry(out, "ProgramArguments", &program, &spec.args);
    proof {
        assert(text::str_texts(program@) =~= seq![spec@.program]);
        let label = seq![("Label"@, PlistValue::Text(spec@.label))];
        let arguments = seq![
            ("ProgramArguments"@, PlistValue::Array(seq![spec@.program] + spec@.args)),
        ];
        lemma_entry_lines_add(label, arguments);
        assert(label + arguments =~= command_entries(spec@));
        assert(out@ =~= old(out)@ + (entry_lines(label) + entry_lines(arguments)));
    }
}

fn push_identifiers(out: &mut String, spec: &ServiceSpec)
    ensures
        final(out)@ == old(out)@ + entry_lines(identifier_entries(spec@)),
{
    if spec.associated_bundle_identifiers.len() > 0 {
        let none: [&str; 0] = [];
        push_array_entry(
            out,
            "AssociatedBundleIdentifiers",
            &none,
            &spec.associated_bundle_identifiers,
        );
        assert(text::str_texts(none@) + spec@.associated_bundle_identifiers
            =~= spec@.associated_bundle_identifiers);
    } else {
        assert(out@ =~= old(out)@ + entry_lines(identifier_entries(spec@)));
    }
}

fn push_directory(out: &mut String, spec: &ServiceSpec)
    ensures
        final(out)@ == old(out)@ + entry_lines(directory_entries(spec@)),
{
    if let Some(dir) = &spec.working_dir {
        push_text_entry(out, "WorkingDirectory", dir.as_str());
    } else {
        assert(out@ =~= old(out)@ + entry_lines(directory_entries(spec@)));
    }
}

/// Appends the members of the environment dictionary.
fn push_members(out: &mut String, env: &Vec<(String, String)>)
    ensures
        final(out)@ == old(out)@ + member_lines(env_dict(service::pairs(env@))),
{
    let ghost dict = env_dict(service::pairs(env@));
    let ghost start = out@;
    let mut i: usize = 0;
    assert(dict.take(0) =~= Seq::empty());
    assert(out@ =~= start + member_lines(dict.take(0)));
    while i < env.len()
        invariant
            i <= env.len(),
            dict == env_dict(service::pairs(env@)),
            out@ == start + member_lines(dict.take(i as int)),
        decreases env.len() - i,
    {
        push_key(out, "        ", env[i].0.as_str());
        push_string(out, "        ", env[i].1.as_str());
        assert(dict.take(i + 1).drop_last() =~= dict.take(i as int));
        assert(dict.take(i + 1).last() == (env@[i as int].0@, PlistLeaf::Text(env@[i as int].1@)));
        assert(out@ =~= start + member_lines(dict.take(i + 1)));
        i += 1;
    }
    assert(dict.take(i as int) =~= dict);
}

fn push_env(out: &mut String, spec: &ServiceSpec)
    ensures
        final(out)@ == old(out)@ + entry_lines(env_entries(spec@)),
{
    if spec.env.len() > 0 {
        push_key(out, "    ", "EnvironmentVariables");
        out.append("    <dict>\n");
        push_members(out, &spec.env);
        out.append("    </dict>\n");
        proof {
            let entry = ("EnvironmentVariables"@, PlistValue::Dict(env_dict(spec@.env)));
            lemma_entry_lines_one(entry);
            assert(out@ =~= old(out)@ + entry_text(entry));
        }
    } else {
        assert(out@ =~= old(out)@ + entry_lines(env_entries(spec@)));
    }
}

fn push_load(out: &mut String, spec: &ServiceSpec)
    ensures
        final(out)@ == old(out)@ + entry_lines(load_entries(spec@)),
{
    if spec.run_at_load {
        push_key(out, "    ", "RunAtLoad");
        out.append("    <true/>\n");
        proof {
            let entry = ("RunAtLoad"@, PlistValue::True);
            lemma_entry_lines_one(entry);
            assert(out@ =~= old(out)@ + entry_text(entry));
        }
    } else {
        assert(out@ =~= old(out)@ + entry_lines(load_entries(spec@)));
    }
}

fn push_alive(out: &mut String, spec: &ServiceSpec)
    ensures
        final(out)@ == old(out)@ + entry_lines(alive_entries(spec@)),
{
    if spec.keep_alive {
        push_key(out, "    ", "KeepAlive");
        out.append("    <dict>\n");
        push_key(out, "        ", "SuccessfulExit");
        out.append("        <false/>\n");
        out.append("    </dict>\n");
        proof {
            let members = seq![("SuccessfulExit"@, PlistLeaf::False)];
            assert(members.drop_last() =~= Seq::empty());
            assert(member_lines(members.drop_last()) == Seq::<char>::empty());
            assert(member_lines(members) =~= key_line("        "@, "SuccessfulExit"@)
                + "        <false/>\n"@);
            let entry = ("KeepAlive"@, PlistValue::Dict(members));
            lemma_entry_lines_one(entry);
            assert(out@ =~= old(out)@ + entry_text(entry));
        }
    } else {
        assert(out@ =~= old(out)@ + entry_lines(alive_entries(spec@)));
    }
}

fn push_log(out: &mut String, spec: &ServiceSpec)
    ensures
        final(out)@ == old(out)@ + entry_lines(log_entries(spec@)),
{
    if let Some(path) = &spec.log_path {
        push_text_entry(out, "StandardOutPath", path.as_str());
        push_text_entry(out, "StandardErrorPath", path.as_str());
        proof {
            let first = seq![("StandardOutPath"@, PlistValue::Text(path@))];
            let second = seq![("StandardErrorPath"@, PlistValue::Text(path@))];
            lemma_entry_lines_add(first, second);
            assert(first + second =~= log_entries(spec@));
            assert(out@ =~= old(out)@ + (entry_lines(first) + entry_lines(second)));
        }
    } else {
        assert(out@ =~= old(out)@ + entry_lines(log_entries(spec@)));
    }
}

/// Renders the property list of a launchd agent.
///
/// The program is the first of the `ProgramArguments` itself, with no shell around it, and there
/// is no `SessionCreate` key: it would detach the agent from the login session, whose keychain the
/// agent then could not reach.
pub fn launchd_plist(spec: &ServiceSpec) -> (r: String)
    ensures
        r@ == plist_text(plist_entries(spec@)),
{
    let mut s = String::new();
    s.append("<?xml version=\"1.0\" encoding=\"UTF-8\"?>\n");
    s.append(
        "<!DOCTYPE plist PUBLIC \"-//Apple//DTD PLIST 1.0//EN\" \"http://www.apple.com/DTDs/PropertyList-1.0.dtd\">\n",
    );
    s.append("<plist version=\"1.0\">\n<dict>\n");
    assert(s@ =~= plist_head());
    push_command(&mut s, spec);
    push_identifiers(&mut s, spec);
    push_directory(&mut s, spec);
    push_env(&mut s, spec);
    push_load(&mut s, spec);
    push_alive(&mut s, spec);
    push_log(&mut s, spec);
    push_text_entry(&mut s, "ProcessType", spec.process_type.as_str());
    proof {
        lemma_plist_entries(plist_head(), spec@);
    }
    s.append("</dict>\n</plist>\n");
    s
}

/// The groups of entries, appended one by one, make up the entries.
proof fn lemma_plist_entries(head: Seq<char>, spec: ServiceSpecView)
    ensures
        head + entry_lines(command_entries(spec)) + entry_lines(identifier_entries(spec))
            + entry_lines(directory_entries(spec)) + entry_lines(env_entries(spec)) + entry_lines(
            load_entries(spec),
        ) + entry_lines(alive_entries(spec)) + entry_lines(log_entries(spec)) + entry_lines(
            class_entries(spec),
        ) == head + entry_lines(plist_entries(spec)),
{
    let a = command_entries(spec);
    let b = a + identifier_entries(spec);
    let c = b + directory_entries(spec);
    let d = c + env_entries(spec);
    let e = d + load_entries(spec);
    let f = e + alive_entries(spec);
    let g = f + log_entries(spec);
    lemma_append_entries(head, a, identifier_entries(spec));
    lemma_append_entries(head, b, directory_entries(spec));
    lemma_append_entries(head, c, env_entries(spec));
    lemma_append_entries(head, d, load_entries(spec));
    lemma_append_entries(head, e, alive_entries(spec));
    lemma_append_entries(head, f, log_entries(spec));
    lemma_append_entries(head, g, class_entries(spec));
}

// ---------------------------------------------------------------------------------------------
// systemd units
// ---------------------------------------------------------------------------------------------
/// An argument on a command line: quoted if white space occurs in it.
pub open spec fn unit_argument(arg: Seq<char>) -> Seq<char> {
    if text::has_white_space(arg) {
        "\""@ + arg + "\""@
    } else {
        arg
    }
}

/// A command line: the program and its arguments, separated by spaces.
pub open spec fn unit_command(program: Seq<char>, args: Seq<Seq<char>>) -> Seq<char>
    decreases args.len(),
{
    if args.len() == 0 {
        program
    } else {
        unit_command(program, args.drop_last()) + " "@ + unit_argument(args.last())
    }
}

/// The `Environment` lines of a unit.
pub open spec fn environment_lines(env: Seq<(Seq<char>, Seq<char>)>) -> Seq<Seq<char>> {
    Seq::new(env.len(), |i: int| "Environment="@ + env[i].0 + "="@ + env[i].1)
}

/// The lines that every unit starts with.
pub open spec fn unit_head(spec: ServiceSpecView) -> Seq<Seq<char>> {
    seq![
        "[Unit]"@,
        "Description="@ + spec.label,
        "After=network-online.target"@,
        "Wants=network-online.target"@,
        "StartLimitIntervalSec=60"@,
        "StartLimitBurst=5"@,
        ""@,
        "[Service]"@,
        "Type=simple"@,
        "ExecStart="@ + unit_command(spec.program, spec.args),
    ]
}

/// The line of the working directory, if it is set.
pub open spec fn directory_lines(spec: ServiceSpecView) -> Seq<Seq<char>> {
    match spec.working_dir {
        Some(dir) => seq!["WorkingDirectory="@ + dir],
        None => Seq::empty(),
    }
}

/// The lines of a service that is kept alive.
pub open spec fn restart_lines(spec: ServiceSpecView) -> Seq<Seq<char>> {
    if spec.keep_alive {
        seq!["Restart=always"@, "RestartSec=2"@]
    } else {
        Seq::empty()
    }
}

/// The lines of the log file, if it is set.
pub open spec fn log_lines(spec: ServiceSpecView) -> Seq<Seq<char>> {
    match spec.log_path {
        Some(path) => seq!["StandardOutput=append:"@ + path, "StandardError=append:"@ + path],
        None => Seq::empty(),
    }
}

/// The line of a service that starts at login.
pub open spec fn wanted_lines(spec: ServiceSpecView) -> Seq<Seq<char>> {
    if spec.run_at_load {
        seq!["WantedBy=default.target"@]
    } else {
        Seq::empty()
    }
}

/// The lines of the unit of a service, in order.
pub open spec fn unit_lines(spec: ServiceSpecView) -> Seq<Seq<char>> {
    unit_head(spec) + directory_lines(spec) + environment_lines(spec.env) + restart_lines(spec)
        + log_lines(spec) + seq![""@, "[Install]"@] + wanted_lines(spec)
}

/// A text of lines, each of which ends with a line feed.
pub open spec fn text_of_lines(lines: Seq<Seq<char>>) -> Seq<char>
    decreases lines.len(),
{
    if lines.len() == 0 {
        Seq::empty()
    } else {
        text_of_lines(lines.drop_last()) + lines.last() + "\n"@
    }
}

fn command_line(program: &str, args: &Vec<String>) -> (r: String)
    ensures
        r@ == unit_command(program@, text::texts(args@)),
{
    let ghost all = text::texts(args@);
    let mut r = program.to_owned();
    let mut i: usize = 0;
    assert(all.take(0) =~= Seq::empty());
    while i < args.len()
        invariant
            i <= args.len(),
            all == text::texts(args@),
            r@ == unit_command(program@, all.take(i as int)),
        decreases args.len() - i,
    {
        let ghost before = r@;
        let a = args[i].as_str();
        r.append(" ");
        if text::contains_whitespace(a) {
            r.append("\"");
            r.append(a);
            r.append("\"");
        } else {
            r.append(a);
        }
        assert(r@ =~= before + " "@ + unit_argument(a@));
        assert(all.take(i + 1).drop_last() =~= all.take(i as int));
        assert(all.take(i + 1).last() == a@);
        i += 1;
    }
    assert(all.take(i as int) =~= all);
    r
}

/// The text of two groups of lines is that of the first and then that of the second.
pub proof fn lemma_text_of_lines_add(a: Seq<Seq<char>>, b: Seq<Seq<char>>)
    ensures
        text_of_lines(a + b) == text_of_lines(a) + text_of_lines(b),
    decreases b.len(),
{
    if b.len() == 0 {
        assert(a + b =~= a);
        assert(text_of_lines(a + b) =~= text_of_lines(a) + text_of_lines(b));
    } else {
        lemma_text_of_lines_add(a, b.drop_last());
        assert((a + b).drop_last() =~= a + b.drop_last());
        assert(text_of_lines(a + b) =~= text_of_lines(a) + text_of_lines(b));
    }
}

/// The text of one line is the line and a line feed.
pub proof fn lemma_text_of_line(line: Seq<char>)
    ensures
        text_of_lines(seq![line]) == line + "\n"@,
{
    assert(seq![line].drop_last() =~= Seq::empty());
    assert(text_of_lines(Seq::empty()) == Seq::<char>::empty());
    assert(text_of_lines(seq![line]) =~= line + "\n"@);
}

/// Appends one line that is made of a directive and its value.
fn push_line(out: &mut String, directive: &str, value: &str)
    ensures
        final(out)@ == old(out)@ + text_of_lines(seq![directive@ + value@]),
{
    out.append(directive);
    out.append(value);
    out.append("\n");
    proof {
        lemma_text_of_line(directive@ + value@);
    }
    assert(out@ =~= old(out)@ + ((directive@ + value@) + "\n"@));
}

/// Appends one line.
fn push_plain(out: &mut String, line: &str)
    ensures
        final(out)@ == old(out)@ + text_of_lines(seq![line@]),
{
    push_line(out, line, "");
    proof {
        reveal_strlit("");
        assert(line@ + ""@ =~= line@);
    }
}

proof fn lemma_append_lines(head: Seq<char>, a: Seq<Seq<char>>, b: Seq<Seq<char>>)
    ensures
        head + text_of_lines(a) + text_of_lines(b) == head + text_of_lines(a + b),
{
    lemma_text_of_lines_add(a, b);
    assert(head + text_of_lines(a) + text_of_lines(b) =~= head + (text_of_lines(a)
        + text_of_lines(b)));
}

fn push_unit_section(out: &mut String, label: &str)
    ensures
        final(out)@ == old(out)@ + text_of_lines(
            seq![
                "[Unit]"@,
                "Description="@ + label@,
                "After=network-online.target"@,
                "Wants=network-online.target"@,
                "StartLimitIntervalSec=60"@,
                "StartLimitBurst=5"@,
                ""@,
            ],
        ),
{
    let ghost start = out@;
    push_plain(out, "[Unit]");
    push_line(out, "Description=", label);
    push_plain(out, "After=network-online.target");
    push_plain(out, "Wants=network-online.target");
    push_plain(out, "StartLimitIntervalSec=60");
    push_plain(out, "StartLimitBurst=5");
    push_plain(out, "");
    proof {
        let a = seq!["[Unit]"@];
        let b = a + seq!["Description="@ + label@];
        let c = b + seq!["After=network-online.target"@];
        let d = c + seq!["Wants=network-online.target"@];
        let e = d + seq!["StartLimitIntervalSec=60"@];
        let f = e + seq!["StartLimitBurst=5"@];
        lemma_append_lines(start, a, seq!["Description="@ + label@]);
        lemma_append_lines(start, b, seq!["After=network-online.target"@]);
        lemma_append_lines(start, c, seq!["Wants=network-online.target"@]);
        lemma_append_lines(start, d, seq!["StartLimitIntervalSec=60"@]);
        lemma_append_lines(start, e, seq!["StartLimitBurst=5"@]);
        lemma_append_lines(start, f, seq![""@]);
        assert(f + seq![""@] =~= seq![
            "[Unit]"@,
            "Description="@ + label@,
            "After=network-online.target"@,
            "Wants=network-online.target"@,
            "StartLimitIntervalSec=60"@,
            "StartLimitBurst=5"@,
            ""@,
        ]);
    }
}

fn push_unit_head(out: &mut String, spec: &ServiceSpec)
    ensures
        final(out)@ == old(out)@ + text_of_lines(unit_head(spec@)),
{
    let ghost start = out@;
    push_unit_section(out, spec.label.as_str());
    push_plain(out, "[Service]");
    push_plain(out, "Type=simple");
    let command = command_line(spec.program.as_str(), &spec.args);
    push_line(out, "ExecStart=", command.as_str());
    proof {
        let line = "ExecStart="@ + unit_command(spec@.program, spec@.args);
        let a = unit_head(spec@).take(7);
        let b = a + seq!["[Service]"@];
        let c = b + seq!["Type=simple"@];
        assert(a =~= seq![
            "[Unit]"@,
            "Description="@ + spec@.label,
            "After=network-online.target"@,
            "Wants=network-online.target"@,
            "StartLimitIntervalSec=60"@,
            "StartLimitBurst=5"@,
            ""@,
        ]);
        lemma_append_lines(start, a, seq!["[Service]"@]);
        lemma_append_lines(start, b, seq!["Type=simple"@]);
        lemma_append_lines(start, c, seq![line]);
        assert(c + seq![line] =~= unit_head(spec@));
    }
}

fn push_directory_line(out: &mut String, spec: &ServiceSpec)
    ensures
        final(out)@ == old(out)@ + text_of_lines(directory_lines(spec@)),
{
    if let Some(dir) = &spec.working_dir {
        push_line(out, "WorkingDirectory=", dir.as_str());
    } else {
        assert(out@ =~= old(out)@ + text_of_lines(directory_lines(spec@)));
    }
}

fn push_environment(out: &mut String, env: &Vec<(String, String)>)
    ensures
        final(out)@ == old(out)@ + text_of_lines(environment_lines(service::pairs(env@))),
{
    let ghost all = environment_lines(service::pairs(env@));
    let ghost start = out@;
    let mut i: usize = 0;
    assert(all.take(0) =~= Seq::empty());
    assert(out@ =~= start + text_of_lines(all.take(0)));
    while i < env.len()
        invariant
            i <= env.len(),
            all == environment_lines(service::pairs(env@)),
            out@ == start + text_of_lines(all.take(i as int)),
        decreases env.len() - i,
    {
        let mut directive = "Environment=".to_owned();
        directive.append(env[i].0.as_str());
        directive.append("=");
        push_line(out, directive.as_str(), env[i].1.as_str());
        proof {
            lemma_append_lines(start, all.take(i as int), seq![all[i as int]]);
            assert(all.take(i as int) + seq![all[i as int]] =~= all.take(i + 1));
        }
        i += 1;
    }
    assert(all.take(i as int) =~= all);
}

fn push_restart(out: &mut String, spec: &ServiceSpec)
    ensures
        final(out)@ == old(out)@ + text_of_lines(restart_lines(spec@)),
{
    if spec.keep_alive {
        push_plain(out, "Restart=always");
        push_plain(out, "RestartSec=2");
        proof {
            lemma_append_lines(old(out)@, seq!["Restart=always"@], seq!["RestartSec=2"@]);
            assert(seq!["Restart=always"@] + seq!["RestartSec=2"@] =~= restart_lines(spec@));
        }
    } else {
        assert(out@ =~= old(out)@ + text_of_lines(restart_lines(spec@)));
    }
}

fn push_log_lines(out: &mut String, spec: &ServiceSpec)
    ensures
        final(out)@ == old(out)@ + text_of_lines(log_lines(spec@)),
{
    if let Some(path) = &spec.log_path {
        push_line(out, "StandardOutput=append:", path.as_str());
        push_line(out, "StandardError=append:", path.as_str());
        proof {
            let first = seq!["StandardOutput=append:"@ + path@];
            let second = seq!["StandardError=append:"@ + path@];
            lemma_append_lines(old(out)@, first, second);
            assert(first + second =~= log_lines(spec@));
        }
    } else {
        assert(out@ =~= old(out)@ + text_of_lines(log_lines(spec@)));
    }
}

fn push_install_section(out: &mut String, spec: &ServiceSpec)
    ensures
        final(out)@ == old(out)@ + text_of_lines(seq![""@, "[Install]"@]) + text_of_lines(
            wanted_lines(spec@),
        ),
{
    push_plain(out, "");
    push_plain(out, "[Install]");
    proof {
        lemma_append_lines(old(out)@, seq![""@], seq!["[Install]"@]);
        assert(seq![""@] + seq!["[Install]"@] =~= seq![""@, "[Install]"@]);
    }
    if spec.run_at_load {
        push_plain(out, "WantedBy=default.target");
    } else {
        let ghost now = out@;
        assert(now =~= now + text_of_lines(wanted_lines(spec@)));
    }
}

/// Renders the unit of a systemd user service.
pub fn systemd_unit(spec: &ServiceSpec) -> (r: String)
    ensures
        r@ == text_of_lines(unit_lines(spec@)),
{
    let mut s = String::new();
    push_unit_head(&mut s, spec);
    push_directory_line(&mut s, spec);
    push_environment(&mut s, &spec.env);
    push_restart(&mut s, spec);
    push_log_lines(&mut s, spec);
    push_install_section(&mut s, spec);
    proof {
        let none = Seq::<char>::empty();
        let a = unit_head(spec@);
        let b = a + directory_lines(spec@);
        let c = b + environment_lines(spec@.env);
        let d = c + restart_lines(spec@);
        let e = d + log_lines(spec@);
        let f = e + seq![""@, "[Install]"@];
        lemma_append_lines(none, a, directory_lines(spec@));
        lemma_append_lines(none, b, environment_lines(spec@.env));
        lemma_append_lines(none, c, restart_lines(spec@));
        lemma_append_lines(none, d, log_lines(spec@));
        lemma_append_lines(none, e, seq![""@, "[Install]"@]);
        lemma_append_lines(none, f, wanted_lines(spec@));
        assert(none + text_of_lines(unit_lines(spec@)) =~= text_of_lines(unit_lines(spec@)));
    }
    s
}

} // verus!
