//! Laws of the unit of a service.

use crate::render;
use crate::service::ServiceSpecView;
use crate::text;
use crate::text_laws;
use vstd::prelude::*;

verus! {

// ---------------------------------------------------------------------------------------------
// Reading a unit back
// ---------------------------------------------------------------------------------------------
/// A text of plain lines has these lines.
pub proof fn lines_read_back(lines: Seq<Seq<char>>)
    requires
        forall|i: int| 0 <= i < lines.len() ==> text_laws::plain_line(#[trigger] lines[i]),
    ensures
        text::lines_of(render::text_of_lines(lines)) == lines,
    decreases lines.len(),
{
    if lines.len() > 0 {
        let first = seq![lines[0]];
        let rest = lines.drop_first();
        assert(lines =~= first + rest);
        render::lemma_text_of_lines_add(first, rest);
        render::lemma_text_of_line(lines[0]);
        text_laws::lemma_first_line(lines[0], render::text_of_lines(rest));
        lines_read_back(rest);
    } else {
        assert(text::lines_of(Seq::empty()) =~= lines);
    }
}

/// A unit is read back line by line, if no field of the service breaks a line.
pub proof fn unit_reads_back(spec: ServiceSpecView)
    requires
        forall|i: int|
            0 <= i < render::unit_lines(spec).len() ==> text_laws::plain_line(
                #[trigger] render::unit_lines(spec)[i],
            ),
    ensures
        text::lines_of(render::text_of_lines(render::unit_lines(spec))) == render::unit_lines(
            spec,
        ),
{
    lines_read_back(render::unit_lines(spec));
}

// ---------------------------------------------------------------------------------------------
// Which lines a unit has
// ---------------------------------------------------------------------------------------------
/// Whether one of the lines starts with `prefix`.
pub open spec fn has_directive(lines: Seq<Seq<char>>, prefix: Seq<char>) -> bool {
    exists|i: int| 0 <= i < lines.len() && text::after_prefix(#[trigger] lines[i], prefix) is Some
}

proof fn lemma_directive_add(a: Seq<Seq<char>>, b: Seq<Seq<char>>, prefix: Seq<char>)
    ensures
        has_directive(a + b, prefix) <==> has_directive(a, prefix) || has_directive(b, prefix),
{
    let c = a + b;
    if has_directive(c, prefix) {
        let i = choose|i: int|
            0 <= i < c.len() && text::after_prefix(#[trigger] c[i], prefix) is Some;
        if i < a.len() {
            assert(text::after_prefix(a[i], prefix) is Some);
        } else {
            assert(text::after_prefix(b[i - a.len()], prefix) is Some);
        }
    }
    if has_directive(a, prefix) {
        let i = choose|i: int|
            0 <= i < a.len() && text::after_prefix(#[trigger] a[i], prefix) is Some;
        assert(text::after_prefix(c[i], prefix) is Some);
    }
    if has_directive(b, prefix) {
        let i = choose|i: int|
            0 <= i < b.len() && text::after_prefix(#[trigger] b[i], prefix) is Some;
        assert(text::after_prefix(c[a.len() + i], prefix) is Some);
    }
}

/// A directive of a unit is one of a group of its lines.
proof fn lemma_directive_in_groups(spec: ServiceSpecView, prefix: Seq<char>)
    ensures
        has_directive(render::unit_lines(spec), prefix) <==> {
            ||| has_directive(render::unit_head(spec), prefix)
            ||| has_directive(render::directory_lines(spec), prefix)
            ||| has_directive(render::environment_lines(spec.env), prefix)
            ||| has_directive(render::restart_lines(spec), prefix)
            ||| has_directive(render::log_lines(spec), prefix)
            ||| has_directive(seq![""@, "[Install]"@], prefix)
            ||| has_directive(render::wanted_lines(spec), prefix)
        },
{
    let a = render::unit_head(spec);
    let b = a + render::directory_lines(spec);
    let c = b + render::environment_lines(spec.env);
    let d = c + render::restart_lines(spec);
    let e = d + render::log_lines(spec);
    let f = e + seq![""@, "[Install]"@];
    lemma_directive_add(a, render::directory_lines(spec), prefix);
    lemma_directive_add(b, render::environment_lines(spec.env), prefix);
    lemma_directive_add(c, render::restart_lines(spec), prefix);
    lemma_directive_add(d, render::log_lines(spec), prefix);
    lemma_directive_add(e, seq![""@, "[Install]"@], prefix);
    lemma_directive_add(f, render::wanted_lines(spec), prefix);
}

/// A line that differs from `prefix` at one of its characters does not start with it.
proof fn lemma_not_directive(line: Seq<char>, prefix: Seq<char>, i: int)
    requires
        0 <= i < prefix.len(),
        i < line.len() ==> line[i] != prefix[i],
    ensures
        text::after_prefix(line, prefix) is None,
{
    if prefix.len() <= line.len() {
        assert(line.take(prefix.len() as int)[i] == line[i]);
    }
}

proof fn lemma_restart_elsewhere(spec: ServiceSpecView)
    ensures
        !has_directive(render::unit_head(spec), "Restart"@),
        !has_directive(render::directory_lines(spec), "Restart"@),
        !has_directive(render::environment_lines(spec.env), "Restart"@),
        !has_directive(render::log_lines(spec), "Restart"@),
        !has_directive(seq![""@, "[Install]"@], "Restart"@),
        !has_directive(render::wanted_lines(spec), "Restart"@),
{
    reveal_strlit("Restart");
    reveal_strlit("[Unit]");
    reveal_strlit("Description=");
    reveal_strlit("After=network-online.target");
    reveal_strlit("Wants=network-online.target");
    reveal_strlit("StartLimitIntervalSec=60");
    reveal_strlit("StartLimitBurst=5");
    reveal_strlit("");
    reveal_strlit("[Service]");
    reveal_strlit("Type=simple");
    reveal_strlit("ExecStart=");
    reveal_strlit("WorkingDirectory=");
    reveal_strlit("Environment=");
    reveal_strlit("StandardOutput=append:");
    reveal_strlit("StandardError=append:");
    reveal_strlit("[Install]");
    reveal_strlit("WantedBy=default.target");
    let head = render::unit_head(spec);
    assert forall|i: int| 0 <= i < head.len() implies text::after_prefix(
        #[trigger] head[i],
        "Restart"@,
    ) is None by {
        lemma_not_directive(head[i], "Restart"@, 0);
    }
    let dir = render::directory_lines(spec);
    assert forall|i: int| 0 <= i < dir.len() implies text::after_prefix(
        #[trigger] dir[i],
        "Restart"@,
    ) is None by {
        lemma_not_directive(dir[i], "Restart"@, 0);
    }
    let env = render::environment_lines(spec.env);
    assert forall|i: int| 0 <= i < env.len() implies text::after_prefix(
        #[trigger] env[i],
        "Restart"@,
    ) is None by {
        lemma_not_directive(env[i], "Restart"@, 0);
    }
    let log = render::log_lines(spec);
    assert forall|i: int| 0 <= i < log.len() implies text::after_prefix(
        #[trigger] log[i],
        "Restart"@,
    ) is None by {
        lemma_not_directive(log[i], "Restart"@, 0);
    }
    let install = seq![""@, "[Install]"@];
    assert forall|i: int| 0 <= i < install.len() implies text::after_prefix(
        #[trigger] install[i],
        "Restart"@,
    ) is None by {
        lemma_not_directive(install[i], "Restart"@, 0);
    }
    let wanted = render::wanted_lines(spec);
    assert forall|i: int| 0 <= i < wanted.len() implies text::after_prefix(
        #[trigger] wanted[i],
        "Restart"@,
    ) is None by {
        lemma_not_directive(wanted[i], "Restart"@, 0);
    }
}

/// A unit has restart directives exactly if the service is kept alive.
pub proof fn unit_restarts_on_demand(spec: ServiceSpecView)
    ensures
        has_directive(render::unit_lines(spec), "Restart"@) <==> spec.keep_alive,
        spec.keep_alive ==> render::unit_lines(spec).contains("Restart=always"@)
            && render::unit_lines(spec).contains("RestartSec=2"@),
{
    lemma_directive_in_groups(spec, "Restart"@);
    lemma_restart_elsewhere(spec);
    if spec.keep_alive {
        let lines = render::restart_lines(spec);
        reveal_strlit("Restart");
        reveal_strlit("Restart=always");
        assert("Restart=always"@.take(7) =~= "Restart"@);
        assert(text::after_prefix(lines[0], "Restart"@) is Some);
        let n: int = render::unit_head(spec).len() + render::directory_lines(spec).len()
            + render::environment_lines(spec.env).len() as int;
        assert(render::unit_lines(spec)[n] == "Restart=always"@);
        assert(render::unit_lines(spec)[n + 1] == "RestartSec=2"@);
    }
}

proof fn lemma_wanted_elsewhere(spec: ServiceSpecView)
    ensures
        !has_directive(render::unit_head(spec), "WantedBy="@),
        !has_directive(render::directory_lines(spec), "WantedBy="@),
        !has_directive(render::environment_lines(spec.env), "WantedBy="@),
        !has_directive(render::restart_lines(spec), "WantedBy="@),
        !has_directive(render::log_lines(spec), "WantedBy="@),
        !has_directive(seq![""@, "[Install]"@], "WantedBy="@),
{
    reveal_strlit("WantedBy=");
    reveal_strlit("[Unit]");
    reveal_strlit("Description=");
    reveal_strlit("After=network-online.target");
    reveal_strlit("Wants=network-online.target");
    reveal_strlit("StartLimitIntervalSec=60");
    reveal_strlit("StartLimitBurst=5");
    reveal_strlit("");
    reveal_strlit("[Service]");
    reveal_strlit("Type=simple");
    reveal_strlit("ExecStart=");
    reveal_strlit("WorkingDirectory=");
    reveal_strlit("Environment=");
    reveal_strlit("Restart=always");
    reveal_strlit("RestartSec=2");
    reveal_strlit("StandardOutput=append:");
    reveal_strlit("StandardError=append:");
    reveal_strlit("[Install]");
    let head = render::unit_head(spec);
    assert forall|i: int| 0 <= i < head.len() implies text::after_prefix(
        #[trigger] head[i],
        "WantedBy="@,
    ) is None by {
        let at: int = if i == 3 {
            4
        } else {
            0
        };
        lemma_not_directive(head[i], "WantedBy="@, at);
    }
    let dir = render::directory_lines(spec);
    assert forall|i: int| 0 <= i < dir.len() implies text::after_prefix(
        #[trigger] dir[i],
        "WantedBy="@,
    ) is None by {
        lemma_not_directive(dir[i], "WantedBy="@, 1);
    }
    let env = render::environment_lines(spec.env);
    assert forall|i: int| 0 <= i < env.len() implies text::after_prefix(
        #[trigger] env[i],
        "WantedBy="@,
    ) is None by {
        lemma_not_directive(env[i], "WantedBy="@, 0);
    }
    let restart = render::restart_lines(spec);
    assert forall|i: int| 0 <= i < restart.len() implies text::after_prefix(
        #[trigger] restart[i],
        "WantedBy="@,
    ) is None by {
        lemma_not_directive(restart[i], "WantedBy="@, 0);
    }
    let log = render::log_lines(spec);
    assert forall|i: int| 0 <= i < log.len() implies text::after_prefix(
        #[trigger] log[i],
        "WantedBy="@,
    ) is None by {
        lemma_not_directive(log[i], "WantedBy="@, 0);
    }
    let install = seq![""@, "[Install]"@];
    assert forall|i: int| 0 <= i < install.len() implies text::after_prefix(
        #[trigger] install[i],
        "WantedBy="@,
    ) is None by {
        lemma_not_directive(install[i], "WantedBy="@, 0);
    }
}

/// A unit is wanted by the default target exactly if the service starts at login, and then its
/// last line says so.
pub proof fn unit_starts_at_login_on_demand(spec: ServiceSpecView)
    ensures
        has_directive(render::unit_lines(spec), "WantedBy="@) <==> spec.run_at_load,
        spec.run_at_load ==> render::unit_lines(spec).last() == "WantedBy=default.target"@,
{
    lemma_directive_in_groups(spec, "WantedBy="@);
    lemma_wanted_elsewhere(spec);
    if spec.run_at_load {
        let lines = render::wanted_lines(spec);
        reveal_strlit("WantedBy=");
        reveal_strlit("WantedBy=default.target");
        assert("WantedBy=default.target"@.take(9) =~= "WantedBy="@);
        assert(text::after_prefix(lines[0], "WantedBy="@) is Some);
    }
}

/// The associated bundle identifiers and the scheduling class of a service leave no trace in its
/// unit.
pub proof fn unit_ignores_owners_and_class(a: ServiceSpecView, b: ServiceSpecView)
    requires
        b == (ServiceSpecView {
            associated_bundle_identifiers: b.associated_bundle_identifiers,
            process_type: b.process_type,
            ..a
        }),
    ensures
        render::text_of_lines(render::unit_lines(a)) == render::text_of_lines(
            render::unit_lines(b),
        ),
{
}

} // verus!
