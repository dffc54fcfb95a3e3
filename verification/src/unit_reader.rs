//! A reader of units, and what it reads from the unit of a service.
//!
//! A unit is a list of lines. A line that starts with a bracket opens a section; a line with an
//! equals sign sets the key before the first of them to what follows it.

use crate::render;
use crate::service::ServiceSpecView;
use crate::text;
use crate::text_laws;
use vstd::prelude::*;

verus! {

/// Whether a line opens a section.
pub open spec fn opens_section(line: Seq<char>) -> bool {
    line.len() > 0 && line[0] == '['
}

/// The section that is open after the lines, if `start` was open before them.
pub open spec fn section_after(start: Seq<char>, lines: Seq<Seq<char>>) -> Seq<char>
    decreases lines.len(),
{
    if lines.len() == 0 {
        start
    } else if opens_section(lines.last()) {
        lines.last()
    } else {
        section_after(start, lines.drop_last())
    }
}

/// What a line in the open section sets the key of the section to: nothing or one value.
pub open spec fn set_by(
    open: Seq<char>,
    line: Seq<char>,
    section: Seq<char>,
    key: Seq<char>,
) -> Seq<Seq<char>> {
    match text::split_at_first(line, '=') {
        Some((k, v)) => if !opens_section(line) && open == section && k == key {
            seq![v]
        } else {
            Seq::empty()
        },
        None => Seq::empty(),
    }
}

/// The values that the lines set the key of the section to, in order, if `start` was open before
/// them.
pub open spec fn settings(
    start: Seq<char>,
    lines: Seq<Seq<char>>,
    section: Seq<char>,
    key: Seq<char>,
) -> Seq<Seq<char>>
    decreases lines.len(),
{
    if lines.len() == 0 {
        Seq::empty()
    } else {
        settings(start, lines.drop_last(), section, key) + set_by(
            section_after(start, lines.drop_last()),
            lines.last(),
            section,
            key,
        )
    }
}

/// The values that the unit of a service sets the key of the section to.
pub open spec fn unit_settings(
    spec: ServiceSpecView,
    section: Seq<char>,
    key: Seq<char>,
) -> Seq<Seq<char>> {
    settings(Seq::empty(), render::unit_lines(spec), section, key)
}

proof fn lemma_add(
    start: Seq<char>,
    a: Seq<Seq<char>>,
    b: Seq<Seq<char>>,
    section: Seq<char>,
    key: Seq<char>,
)
    ensures
        section_after(start, a + b) == section_after(section_after(start, a), b),
        settings(start, a + b, section, key) == settings(start, a, section, key) + settings(
            section_after(start, a),
            b,
            section,
            key,
        ),
    decreases b.len(),
{
    if b.len() == 0 {
        assert(a + b =~= a);
        assert(settings(start, a + b, section, key) =~= settings(start, a, section, key)
            + settings(section_after(start, a), b, section, key));
    } else {
        lemma_add(start, a, b.drop_last(), section, key);
        assert((a + b).drop_last() =~= a + b.drop_last());
        assert(settings(start, a + b, section, key) =~= settings(start, a, section, key)
            + settings(section_after(start, a), b, section, key));
    }
}

proof fn lemma_push(
    start: Seq<char>,
    lines: Seq<Seq<char>>,
    line: Seq<char>,
    section: Seq<char>,
    key: Seq<char>,
)
    ensures
        section_after(start, lines.push(line)) == (if opens_section(line) {
            line
        } else {
            section_after(start, lines)
        }),
        settings(start, lines.push(line), section, key) == settings(start, lines, section, key)
            + set_by(section_after(start, lines), line, section, key),
{
    assert(lines.push(line).drop_last() =~= lines);
}

/// What a line `k=v` sets.
proof fn lemma_set(
    open: Seq<char>,
    k: Seq<char>,
    v: Seq<char>,
    line: Seq<char>,
    section: Seq<char>,
    key: Seq<char>,
)
    requires
        line == k + seq!['='] + v,
        k.len() > 0,
        k[0] != '[',
        forall|i: int| 0 <= i < k.len() ==> #[trigger] k[i] != '=',
    ensures
        !opens_section(line),
        set_by(open, line, section, key) == (if open == section && k == key {
            seq![v]
        } else {
            Seq::empty()
        }),
{
    text_laws::splitting_is_at_the_first_separator(k, '=', v);
    assert(line[0] == k[0]);
}

/// A line without an equals sign sets nothing.
proof fn lemma_unset(open: Seq<char>, line: Seq<char>, section: Seq<char>, key: Seq<char>)
    requires
        forall|i: int| 0 <= i < line.len() ==> #[trigger] line[i] != '=',
    ensures
        set_by(open, line, section, key) == Seq::<Seq<char>>::empty(),
{
    text_laws::splitting_is_at_the_first_separator(line, '=', Seq::empty());
}

/// What is set, if `open` is the section and `k` is the key.
spec fn one(
    open: Seq<char>,
    k: Seq<char>,
    v: Seq<char>,
    section: Seq<char>,
    key: Seq<char>,
) -> Seq<Seq<char>> {
    if open == section && k == key {
        seq![v]
    } else {
        Seq::empty()
    }
}

proof fn lemma_unit_section(label: Seq<char>, section: Seq<char>, key: Seq<char>)
    ensures
        ({
            let lines = seq![
                "[Unit]"@,
                "Description="@ + label,
                "After=network-online.target"@,
                "Wants=network-online.target"@,
                "StartLimitIntervalSec=60"@,
                "StartLimitBurst=5"@,
                ""@,
            ];
            let open = "[Unit]"@;
            &&& section_after(Seq::empty(), lines) == open
            &&& settings(Seq::empty(), lines, section, key) == one(
                open,
                "Description"@,
                label,
                section,
                key,
            ) + one(open, "After"@, "network-online.target"@, section, key) + one(
                open,
                "Wants"@,
                "network-online.target"@,
                section,
                key,
            ) + one(open, "StartLimitIntervalSec"@, "60"@, section, key) + one(
                open,
                "StartLimitBurst"@,
                "5"@,
                section,
                key,
            )
        }),
{
    let open = "[Unit]"@;
    let none = Seq::<Seq<char>>::empty();
    let start = Seq::<char>::empty();
    let b = "Description="@ + label;
    let c = "After=network-online.target"@;
    let d = "Wants=network-online.target"@;
    let e = "StartLimitIntervalSec=60"@;
    let f = "StartLimitBurst=5"@;
    assert(opens_section(open) && set_by(start, open, section, key) == none) by {
        reveal_strlit("[Unit]");
        lemma_unset(start, open, section, key);
    }
    assert(!opens_section(b) && set_by(open, b, section, key) == one(
        open,
        "Description"@,
        label,
        section,
        key,
    )) by {
        reveal_strlit("Description=");
        reveal_strlit("Description");
        assert(b =~= "Description"@ + seq!['='] + label);
        lemma_set(open, "Description"@, label, b, section, key);
    }
    assert(!opens_section(c) && set_by(open, c, section, key) == one(
        open,
        "After"@,
        "network-online.target"@,
        section,
        key,
    )) by {
        reveal_strlit("After=network-online.target");
        reveal_strlit("After");
        reveal_strlit("network-online.target");
        assert(c =~= "After"@ + seq!['='] + "network-online.target"@);
        lemma_set(open, "After"@, "network-online.target"@, c, section, key);
    }
    assert(!opens_section(d) && set_by(open, d, section, key) == one(
        open,
        "Wants"@,
        "network-online.target"@,
        section,
        key,
    )) by {
        reveal_strlit("Wants=network-online.target");
        reveal_strlit("Wants");
        reveal_strlit("network-online.target");
        assert(d =~= "Wants"@ + seq!['='] + "network-online.target"@);
        lemma_set(open, "Wants"@, "network-online.target"@, d, section, key);
    }
    assert(!opens_section(e) && set_by(open, e, section, key) == one(
        open,
        "StartLimitIntervalSec"@,
        "60"@,
        section,
        key,
    )) by {
        reveal_strlit("StartLimitIntervalSec=60");
        reveal_strlit("StartLimitIntervalSec");
        reveal_strlit("60");
        assert(e =~= "StartLimitIntervalSec"@ + seq!['='] + "60"@);
        lemma_set(open, "StartLimitIntervalSec"@, "60"@, e, section, key);
    }
    assert(!opens_section(f) && set_by(open, f, section, key) == one(
        open,
        "StartLimitBurst"@,
        "5"@,
        section,
        key,
    )) by {
        reveal_strlit("StartLimitBurst=5");
        reveal_strlit("StartLimitBurst");
        reveal_strlit("5");
        assert(f =~= "StartLimitBurst"@ + seq!['='] + "5"@);
        lemma_set(open, "StartLimitBurst"@, "5"@, f, section, key);
    }
    assert(!opens_section(""@) && set_by(open, ""@, section, key) == none) by {
        reveal_strlit("");
        lemma_unset(open, ""@, section, key);
    }
    let l1 = none.push(open);
    let l2 = l1.push(b);
    let l3 = l2.push(c);
    let l4 = l3.push(d);
    let l5 = l4.push(e);
    let l6 = l5.push(f);
    lemma_push(start, none, open, section, key);
    lemma_push(start, l1, b, section, key);
    lemma_push(start, l2, c, section, key);
    lemma_push(start, l3, d, section, key);
    lemma_push(start, l4, e, section, key);
    lemma_push(start, l5, f, section, key);
    lemma_push(start, l6, ""@, section, key);
    assert(settings(start, l1, section, key) =~= none);
    assert(settings(start, l2, section, key) =~= one(open, "Description"@, label, section, key));
    assert(l6.push(""@) =~= seq![open, b, c, d, e, f, ""@]);
    assert(settings(start, l6, section, key) + none =~= settings(start, l6, section, key));
}

proof fn lemma_service_head(
    program: Seq<char>,
    args: Seq<Seq<char>>,
    section: Seq<char>,
    key: Seq<char>,
)
    ensures
        ({
            let lines = seq![
                "[Service]"@,
                "Type=simple"@,
                "ExecStart="@ + render::unit_command(program, args),
            ];
            let open = "[Service]"@;
            &&& section_after("[Unit]"@, lines) == open
            &&& settings("[Unit]"@, lines, section, key) == one(
                open,
                "Type"@,
                "simple"@,
                section,
                key,
            ) + one(open, "ExecStart"@, render::unit_command(program, args), section, key)
        }),
{
    let open = "[Service]"@;
    let none = Seq::<Seq<char>>::empty();
    let start = "[Unit]"@;
    let b = "Type=simple"@;
    let command = render::unit_command(program, args);
    let c = "ExecStart="@ + command;
    assert(opens_section(open) && set_by(start, open, section, key) == none) by {
        reveal_strlit("[Service]");
        lemma_unset(start, open, section, key);
    }
    assert(!opens_section(b) && set_by(open, b, section, key) == one(
        open,
        "Type"@,
        "simple"@,
        section,
        key,
    )) by {
        reveal_strlit("Type=simple");
        reveal_strlit("Type");
        reveal_strlit("simple");
        assert(b =~= "Type"@ + seq!['='] + "simple"@);
        lemma_set(open, "Type"@, "simple"@, b, section, key);
    }
    assert(!opens_section(c) && set_by(open, c, section, key) == one(
        open,
        "ExecStart"@,
        command,
        section,
        key,
    )) by {
        reveal_strlit("ExecStart=");
        reveal_strlit("ExecStart");
        assert(c =~= "ExecStart"@ + seq!['='] + command);
        lemma_set(open, "ExecStart"@, command, c, section, key);
    }
    let l1 = none.push(open);
    let l2 = l1.push(b);
    lemma_push(start, none, open, section, key);
    lemma_push(start, l1, b, section, key);
    lemma_push(start, l2, c, section, key);
    assert(settings(start, l1, section, key) =~= none);
    assert(settings(start, l2, section, key) =~= one(open, "Type"@, "simple"@, section, key));
    assert(l2.push(c) =~= seq![open, b, c]);
}

proof fn lemma_single(open: Seq<char>, line: Seq<char>, section: Seq<char>, key: Seq<char>)
    requires
        !opens_section(line),
    ensures
        section_after(open, seq![line]) == open,
        settings(open, seq![line], section, key) == set_by(open, line, section, key),
{
    let none = Seq::<Seq<char>>::empty();
    lemma_push(open, none, line, section, key);
    assert(none.push(line) =~= seq![line]);
    assert(none + set_by(open, line, section, key) =~= set_by(open, line, section, key));
}

proof fn lemma_pair(
    open: Seq<char>,
    first: Seq<char>,
    second: Seq<char>,
    section: Seq<char>,
    key: Seq<char>,
)
    requires
        !opens_section(first),
        !opens_section(second),
    ensures
        section_after(open, seq![first, second]) == open,
        settings(open, seq![first, second], section, key) == set_by(open, first, section, key)
            + set_by(open, second, section, key),
{
    lemma_single(open, first, section, key);
    lemma_push(open, seq![first], second, section, key);
    assert(seq![first].push(second) =~= seq![first, second]);
}

proof fn lemma_directory(
    open: Seq<char>,
    spec: ServiceSpecView,
    section: Seq<char>,
    key: Seq<char>,
)
    ensures
        section_after(open, render::directory_lines(spec)) == open,
        settings(open, render::directory_lines(spec), section, key) == (match spec.working_dir {
            Some(dir) => one(open, "WorkingDirectory"@, dir, section, key),
            None => Seq::empty(),
        }),
{
    if let Some(dir) = spec.working_dir {
        let line = "WorkingDirectory="@ + dir;
        reveal_strlit("WorkingDirectory=");
        reveal_strlit("WorkingDirectory");
        assert(line =~= "WorkingDirectory"@ + seq!['='] + dir);
        lemma_set(open, "WorkingDirectory"@, dir, line, section, key);
        lemma_single(open, line, section, key);
    }
}

/// The assignments of environment variables.
pub open spec fn assignments(env: Seq<(Seq<char>, Seq<char>)>) -> Seq<Seq<char>> {
    Seq::new(env.len(), |i: int| env[i].0 + seq!['='] + env[i].1)
}

proof fn lemma_environment(
    open: Seq<char>,
    env: Seq<(Seq<char>, Seq<char>)>,
    section: Seq<char>,
    key: Seq<char>,
)
    ensures
        section_after(open, render::environment_lines(env)) == open,
        settings(open, render::environment_lines(env), section, key) == (if open == section && key
            == "Environment"@ {
            assignments(env)
        } else {
            Seq::empty()
        }),
    decreases env.len(),
{
    let lines = render::environment_lines(env);
    if env.len() > 0 {
        let before = env.drop_last();
        let (k, v) = env.last();
        let value = k + seq!['='] + v;
        let line = "Environment="@ + k + "="@ + v;
        lemma_environment(open, before, section, key);
        assert(lines =~= render::environment_lines(before).push(line));
        reveal_strlit("Environment=");
        reveal_strlit("Environment");
        reveal_strlit("=");
        assert(line =~= "Environment"@ + seq!['='] + value);
        lemma_set(open, "Environment"@, value, line, section, key);
        lemma_push(open, render::environment_lines(before), line, section, key);
        assert(assignments(env) =~= assignments(before) + seq![value]);
        assert(settings(open, lines, section, key) =~= (if open == section && key
            == "Environment"@ {
            assignments(env)
        } else {
            Seq::empty()
        }));
    } else {
        assert(assignments(env) =~= Seq::empty());
    }
}

proof fn lemma_restart(open: Seq<char>, spec: ServiceSpecView, section: Seq<char>, key: Seq<char>)
    ensures
        section_after(open, render::restart_lines(spec)) == open,
        settings(open, render::restart_lines(spec), section, key) == (if spec.keep_alive {
            one(open, "Restart"@, "always"@, section, key) + one(
                open,
                "RestartSec"@,
                "2"@,
                section,
                key,
            )
        } else {
            Seq::empty()
        }),
{
    if spec.keep_alive {
        reveal_strlit("Restart=always");
        reveal_strlit("Restart");
        reveal_strlit("always");
        assert("Restart=always"@ =~= "Restart"@ + seq!['='] + "always"@);
        lemma_set(open, "Restart"@, "always"@, "Restart=always"@, section, key);
        reveal_strlit("RestartSec=2");
        reveal_strlit("RestartSec");
        reveal_strlit("2");
        assert("RestartSec=2"@ =~= "RestartSec"@ + seq!['='] + "2"@);
        lemma_set(open, "RestartSec"@, "2"@, "RestartSec=2"@, section, key);
        lemma_pair(open, "Restart=always"@, "RestartSec=2"@, section, key);
    }
}

proof fn lemma_log(open: Seq<char>, spec: ServiceSpecView, section: Seq<char>, key: Seq<char>)
    ensures
        section_after(open, render::log_lines(spec)) == open,
        settings(open, render::log_lines(spec), section, key) == (match spec.log_path {
            Some(path) => one(open, "StandardOutput"@, "append:"@ + path, section, key) + one(
                open,
                "StandardError"@,
                "append:"@ + path,
                section,
                key,
            ),
            None => Seq::empty(),
        }),
{
    if let Some(path) = spec.log_path {
        let out = "StandardOutput=append:"@ + path;
        let err = "StandardError=append:"@ + path;
        reveal_strlit("append:");
        reveal_strlit("StandardOutput=append:");
        reveal_strlit("StandardOutput");
        assert(out =~= "StandardOutput"@ + seq!['='] + ("append:"@ + path));
        lemma_set(open, "StandardOutput"@, "append:"@ + path, out, section, key);
        reveal_strlit("StandardError=append:");
        reveal_strlit("StandardError");
        assert(err =~= "StandardError"@ + seq!['='] + ("append:"@ + path));
        lemma_set(open, "StandardError"@, "append:"@ + path, err, section, key);
        lemma_pair(open, out, err, section, key);
    }
}

proof fn lemma_install(open: Seq<char>, spec: ServiceSpecView, section: Seq<char>, key: Seq<char>)
    ensures
        settings(
            open,
            seq![""@, "[Install]"@] + render::wanted_lines(spec),
            section,
            key,
        ) == (if spec.run_at_load {
            one("[Install]"@, "WantedBy"@, "default.target"@, section, key)
        } else {
            Seq::empty()
        }),
{
    let none = Seq::<Seq<char>>::empty();
    let head = seq![""@, "[Install]"@];
    reveal_strlit("");
    reveal_strlit("[Install]");
    lemma_unset(open, ""@, section, key);
    lemma_unset(open, "[Install]"@, section, key);
    lemma_single(open, ""@, section, key);
    lemma_push(open, seq![""@], "[Install]"@, section, key);
    assert(seq![""@].push("[Install]"@) =~= head);
    assert(section_after(open, head) == "[Install]"@);
    assert(settings(open, head, section, key) =~= none);
    lemma_add(open, head, render::wanted_lines(spec), section, key);
    if spec.run_at_load {
        reveal_strlit("WantedBy=default.target");
        reveal_strlit("WantedBy");
        reveal_strlit("default.target");
        assert("WantedBy=default.target"@ =~= "WantedBy"@ + seq!['='] + "default.target"@);
        lemma_set(
            "[Install]"@,
            "WantedBy"@,
            "default.target"@,
            "WantedBy=default.target"@,
            section,
            key,
        );
        lemma_single("[Install]"@, "WantedBy=default.target"@, section, key);
        assert(none + one("[Install]"@, "WantedBy"@, "default.target"@, section, key) =~= one(
            "[Install]"@,
            "WantedBy"@,
            "default.target"@,
            section,
            key,
        ));
    } else {
        assert(settings(open, head + render::wanted_lines(spec), section, key) =~= none);
    }
}

/// What the parts of a unit set, one after the other.
spec fn parts(spec: ServiceSpecView, section: Seq<char>, key: Seq<char>) -> Seq<Seq<char>> {
    let unit = "[Unit]"@;
    let service = "[Service]"@;
    (one(unit, "Description"@, spec.label, section, key) + one(
        unit,
        "After"@,
        "network-online.target"@,
        section,
        key,
    ) + one(unit, "Wants"@, "network-online.target"@, section, key) + one(
        unit,
        "StartLimitIntervalSec"@,
        "60"@,
        section,
        key,
    ) + one(unit, "StartLimitBurst"@, "5"@, section, key)) + (one(
        service,
        "Type"@,
        "simple"@,
        section,
        key,
    ) + one(
        service,
        "ExecStart"@,
        render::unit_command(spec.program, spec.args),
        section,
        key,
    )) + (match spec.working_dir {
        Some(dir) => one(service, "WorkingDirectory"@, dir, section, key),
        None => Seq::empty(),
    }) + (if service == section && key == "Environment"@ {
        assignments(spec.env)
    } else {
        Seq::empty()
    }) + (if spec.keep_alive {
        one(service, "Restart"@, "always"@, section, key) + one(
            service,
            "RestartSec"@,
            "2"@,
            section,
            key,
        )
    } else {
        Seq::empty()
    }) + (match spec.log_path {
        Some(path) => one(service, "StandardOutput"@, "append:"@ + path, section, key) + one(
            service,
            "StandardError"@,
            "append:"@ + path,
            section,
            key,
        ),
        None => Seq::empty(),
    }) + (if spec.run_at_load {
        one("[Install]"@, "WantedBy"@, "default.target"@, section, key)
    } else {
        Seq::empty()
    })
}

proof fn lemma_parts(spec: ServiceSpecView, section: Seq<char>, key: Seq<char>)
    ensures
        unit_settings(spec, section, key) == parts(spec, section, key),
{
    let start = Seq::<char>::empty();
    let service = "[Service]"@;
    let head = render::unit_head(spec);
    let h1 = head.take(7);
    let h2 = head.skip(7);
    let a = h1 + h2;
    let b = a + render::directory_lines(spec);
    let c = b + render::environment_lines(spec.env);
    let d = c + render::restart_lines(spec);
    let e = d + render::log_lines(spec);
    let tail = seq![""@, "[Install]"@] + render::wanted_lines(spec);
    assert(h1 =~= seq![
        "[Unit]"@,
        "Description="@ + spec.label,
        "After=network-online.target"@,
        "Wants=network-online.target"@,
        "StartLimitIntervalSec=60"@,
        "StartLimitBurst=5"@,
        ""@,
    ]);
    assert(h2 =~= seq![
        "[Service]"@,
        "Type=simple"@,
        "ExecStart="@ + render::unit_command(spec.program, spec.args),
    ]);
    assert(a =~= head);
    lemma_unit_section(spec.label, section, key);
    lemma_service_head(spec.program, spec.args, section, key);
    lemma_add(start, h1, h2, section, key);
    lemma_directory(service, spec, section, key);
    lemma_add(start, a, render::directory_lines(spec), section, key);
    lemma_environment(service, spec.env, section, key);
    lemma_add(start, b, render::environment_lines(spec.env), section, key);
    lemma_restart(service, spec, section, key);
    lemma_add(start, c, render::restart_lines(spec), section, key);
    lemma_log(service, spec, section, key);
    lemma_add(start, d, render::log_lines(spec), section, key);
    lemma_install(service, spec, section, key);
    lemma_add(start, e, tail, section, key);
    assert(render::unit_lines(spec) =~= e + tail);
}

/// The keys and sections of a unit are told apart by their lengths, and where these agree by one of
/// their characters.
proof fn lemma_names_differ()
    ensures
        "[Unit]"@.len() == 6,
        "[Service]"@.len() == 9 && "[Service]"@[1] == 'S',
        "[Install]"@.len() == 9 && "[Install]"@[1] == 'I',
        "Description"@.len() == 11 && "Description"@[0] == 'D',
        "After"@.len() == 5 && "After"@[0] == 'A',
        "Wants"@.len() == 5 && "Wants"@[0] == 'W',
        "StartLimitIntervalSec"@.len() == 21,
        "StartLimitBurst"@.len() == 15,
        "Type"@.len() == 4,
        "ExecStart"@.len() == 9,
        "WorkingDirectory"@.len() == 16,
        "Environment"@.len() == 11 && "Environment"@[0] == 'E',
        "Restart"@.len() == 7,
        "RestartSec"@.len() == 10,
        "StandardOutput"@.len() == 14,
        "StandardError"@.len() == 13,
        "WantedBy"@.len() == 8,
{
    reveal_strlit("[Unit]");
    reveal_strlit("[Service]");
    reveal_strlit("[Install]");
    reveal_strlit("Description");
    reveal_strlit("After");
    reveal_strlit("Wants");
    reveal_strlit("StartLimitIntervalSec");
    reveal_strlit("StartLimitBurst");
    reveal_strlit("Type");
    reveal_strlit("ExecStart");
    reveal_strlit("WorkingDirectory");
    reveal_strlit("Environment");
    reveal_strlit("Restart");
    reveal_strlit("RestartSec");
    reveal_strlit("StandardOutput");
    reveal_strlit("StandardError");
    reveal_strlit("WantedBy");
}

/// The `[Unit]` section of a unit describes the service by its label, waits for the network, and
/// limits how often the service is started.
pub proof fn unit_section_is_read_back(spec: ServiceSpecView)
    ensures
        unit_settings(spec, "[Unit]"@, "Description"@) == seq![spec.label],
        unit_settings(spec, "[Unit]"@, "After"@) == seq!["network-online.target"@],
        unit_settings(spec, "[Unit]"@, "Wants"@) == seq!["network-online.target"@],
        unit_settings(spec, "[Unit]"@, "StartLimitIntervalSec"@) == seq!["60"@],
        unit_settings(spec, "[Unit]"@, "StartLimitBurst"@) == seq!["5"@],
{
    lemma_names_differ();
    lemma_parts(spec, "[Unit]"@, "Description"@);
    lemma_parts(spec, "[Unit]"@, "After"@);
    lemma_parts(spec, "[Unit]"@, "Wants"@);
    lemma_parts(spec, "[Unit]"@, "StartLimitIntervalSec"@);
    lemma_parts(spec, "[Unit]"@, "StartLimitBurst"@);
    assert(parts(spec, "[Unit]"@, "Description"@) =~= seq![spec.label]);
    assert(parts(spec, "[Unit]"@, "After"@) =~= seq!["network-online.target"@]);
    assert(parts(spec, "[Unit]"@, "Wants"@) =~= seq!["network-online.target"@]);
    assert(parts(spec, "[Unit]"@, "StartLimitIntervalSec"@) =~= seq!["60"@]);
    assert(parts(spec, "[Unit]"@, "StartLimitBurst"@) =~= seq!["5"@]);
}

/// The `[Service]` section of a unit holds each field of the service exactly if the service has it,
/// whatever the other fields hold: the command, the working directory, each environment variable in
/// order, the restart of a service that is kept alive, and the log file, which is appended to.
pub proof fn service_section_is_read_back(spec: ServiceSpecView)
    ensures
        unit_settings(spec, "[Service]"@, "Type"@) == seq!["simple"@],
        unit_settings(spec, "[Service]"@, "ExecStart"@) == seq![
            render::unit_command(spec.program, spec.args),
        ],
        unit_settings(spec, "[Service]"@, "WorkingDirectory"@) == (match spec.working_dir {
            Some(dir) => seq![dir],
            None => Seq::empty(),
        }),
        unit_settings(spec, "[Service]"@, "Environment"@).len() == spec.env.len(),
        forall|i: int|
            0 <= i < spec.env.len() ==> #[trigger] unit_settings(
                spec,
                "[Service]"@,
                "Environment"@,
            )[i] == spec.env[i].0 + seq!['='] + spec.env[i].1,
        unit_settings(spec, "[Service]"@, "Restart"@) == (if spec.keep_alive {
            seq!["always"@]
        } else {
            Seq::empty()
        }),
        unit_settings(spec, "[Service]"@, "RestartSec"@) == (if spec.keep_alive {
            seq!["2"@]
        } else {
            Seq::empty()
        }),
        unit_settings(spec, "[Service]"@, "StandardOutput"@) == (match spec.log_path {
            Some(path) => seq!["append:"@ + path],
            None => Seq::empty(),
        }),
        unit_settings(spec, "[Service]"@, "StandardError"@) == (match spec.log_path {
            Some(path) => seq!["append:"@ + path],
            None => Seq::empty(),
        }),
{
    lemma_names_differ();
    let s = "[Service]"@;
    lemma_parts(spec, s, "Type"@);
    lemma_parts(spec, s, "ExecStart"@);
    lemma_parts(spec, s, "WorkingDirectory"@);
    lemma_parts(spec, s, "Environment"@);
    lemma_parts(spec, s, "Restart"@);
    lemma_parts(spec, s, "RestartSec"@);
    lemma_parts(spec, s, "StandardOutput"@);
    lemma_parts(spec, s, "StandardError"@);
    assert(parts(spec, s, "Type"@) =~= seq!["simple"@]);
    assert(parts(spec, s, "ExecStart"@) =~= seq![render::unit_command(spec.program, spec.args)]);
    assert(parts(spec, s, "WorkingDirectory"@) =~= (match spec.working_dir {
        Some(dir) => seq![dir],
        None => Seq::empty(),
    }));
    assert(parts(spec, s, "Environment"@) =~= assignments(spec.env));
    assert(parts(spec, s, "Restart"@) =~= (if spec.keep_alive {
        seq!["always"@]
    } else {
        Seq::empty()
    }));
    assert(parts(spec, s, "RestartSec"@) =~= (if spec.keep_alive {
        seq!["2"@]
    } else {
        Seq::empty()
    }));
    assert(parts(spec, s, "StandardOutput"@) =~= (match spec.log_path {
        Some(path) => seq!["append:"@ + path],
        None => Seq::empty(),
    }));
    assert(parts(spec, s, "StandardError"@) =~= (match spec.log_path {
        Some(path) => seq!["append:"@ + path],
        None => Seq::empty(),
    }));
}

/// The `[Install]` section of a unit makes the default target want the service exactly if it starts
/// at login.
pub proof fn install_section_is_read_back(spec: ServiceSpecView)
    ensures
        unit_settings(spec, "[Install]"@, "WantedBy"@) == (if spec.run_at_load {
            seq!["default.target"@]
        } else {
            Seq::empty()
        }),
{
    lemma_names_differ();
    lemma_parts(spec, "[Install]"@, "WantedBy"@);
    assert(parts(spec, "[Install]"@, "WantedBy"@) =~= (if spec.run_at_load {
        seq!["default.target"@]
    } else {
        Seq::empty()
    }));
}

/// Whether a key of a section is one that a unit can set.
pub open spec fn unit_key(section: Seq<char>, key: Seq<char>) -> bool {
    ||| section == "[Unit]"@ && (key == "Description"@ || key == "After"@ || key == "Wants"@ || key
        == "StartLimitIntervalSec"@ || key == "StartLimitBurst"@)
    ||| section == "[Service]"@ && (key == "Type"@ || key == "ExecStart"@ || key
        == "WorkingDirectory"@ || key == "Environment"@ || key == "Restart"@ || key
        == "RestartSec"@ || key == "StandardOutput"@ || key == "StandardError"@)
    ||| section == "[Install]"@ && key == "WantedBy"@
}

/// A unit sets nothing else, whatever the fields of the service hold.
pub proof fn unit_sets_nothing_else(spec: ServiceSpecView, section: Seq<char>, key: Seq<char>)
    requires
        !unit_key(section, key),
    ensures
        unit_settings(spec, section, key) == Seq::<Seq<char>>::empty(),
{
    lemma_parts(spec, section, key);
    assert(parts(spec, section, key) =~= Seq::empty());
}

/// The command of a unit is the program followed by each argument in order, with a space before it,
/// and in quotation marks exactly if white space occurs in it.
pub proof fn command_is_program_and_arguments(
    program: Seq<char>,
    args: Seq<Seq<char>>,
    arg: Seq<char>,
)
    ensures
        render::unit_command(program, Seq::empty()) == program,
        render::unit_command(program, args.push(arg)) == render::unit_command(program, args)
            + seq![' '] + (if exists|i: int|
            0 <= i < arg.len() && text::white_space(#[trigger] arg[i]) {
            seq!['"'] + arg + seq!['"']
        } else {
            arg
        }),
{
    reveal_strlit(" ");
    reveal_strlit("\"");
    assert(" "@ =~= seq![' ']);
    assert("\""@ =~= seq!['"']);
    assert(args.push(arg).drop_last() =~= args);
}

/// The text of a unit is its lines, each followed by a line feed.
pub proof fn unit_text_is_its_lines(lines: Seq<Seq<char>>, line: Seq<char>)
    ensures
        render::text_of_lines(Seq::empty()) == Seq::<char>::empty(),
        render::text_of_lines(lines.push(line)) == render::text_of_lines(lines) + line
            + seq!['\n'],
{
    reveal_strlit("\n");
    assert("\n"@ =~= seq!['\n']);
    assert(lines.push(line).drop_last() =~= lines);
}

/// A unit has no line but the openings of its three sections, a blank one before each but the
/// first, and one for each setting.
pub proof fn unit_has_no_stray_lines(spec: ServiceSpecView)
    ensures
        ({
            let lines = render::unit_lines(spec);
            let directory = if spec.working_dir is Some {
                1int
            } else {
                0
            };
            let restart = if spec.keep_alive {
                2int
            } else {
                0
            };
            let log = if spec.log_path is Some {
                2int
            } else {
                0
            };
            let wanted = if spec.run_at_load {
                1int
            } else {
                0
            };
            let n = 10 + directory + spec.env.len() + restart + log;
            &&& lines[0] == seq!['[', 'U', 'n', 'i', 't', ']']
            &&& lines[6].len() == 0
            &&& lines[7] == seq!['[', 'S', 'e', 'r', 'v', 'i', 'c', 'e', ']']
            &&& lines[n].len() == 0
            &&& lines[n + 1] == seq!['[', 'I', 'n', 's', 't', 'a', 'l', 'l', ']']
            &&& lines.len() == n + 2 + wanted
        }),
{
    reveal_strlit("");
    reveal_strlit("[Unit]");
    reveal_strlit("[Service]");
    reveal_strlit("[Install]");
    assert("[Unit]"@ =~= seq!['[', 'U', 'n', 'i', 't', ']']);
    assert("[Service]"@ =~= seq!['[', 'S', 'e', 'r', 'v', 'i', 'c', 'e', ']']);
    assert("[Install]"@ =~= seq!['[', 'I', 'n', 's', 't', 'a', 'l', 'l', ']']);
}

} // verus!
