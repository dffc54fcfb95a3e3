//! Laws of what the operations of the user's systemd manager do and report.

use crate::effect;
use crate::effect::{EffectView, InvocationView, OutcomeView, ReplyView};
use crate::path;
use crate::plan::PlanView;
use crate::render;
use crate::service::{ErrorView, ServiceSpecView, StatusView};
use crate::session::SessionView;
use crate::systemd;
use crate::systemd::{InstallView, QueryView};
use crate::text;
use crate::text_laws;
use vstd::prelude::*;
use vstd::utf8::*;

verus! {

// ---------------------------------------------------------------------------------------------
// Names, places and commands
// ---------------------------------------------------------------------------------------------
/// A unit is named by the label with `.service` behind it, unless the label ends so already; its
/// file stands in the directory of the user's units below `HOME`, or below `/root`.
pub proof fn units_have_their_names_and_files(session: SessionView, label: Seq<char>)
    ensures
        ({
            let home = match session.home {
                Some(home) => home,
                None => "/root"@,
            };
            &&& systemd::unit_directory(session) == path::join_path(home, ".config/systemd/user"@)
            &&& systemd::unit_file(session, label) == path::join_path(
                path::join_path(home, ".config/systemd/user"@),
                label + ".service"@,
            )
            &&& (exists|r: Seq<char>| label == r + ".service"@) ==> systemd::unit_name(label)
                == label
            &&& !(exists|r: Seq<char>| label == r + ".service"@) ==> systemd::unit_name(label)
                == label + ".service"@
        }),
{
    text_laws::suffixes_are_at_the_end(label, ".service"@);
}

/// The manager is found by the runtime directory and the address of the message bus that the
/// environment gives, or else by those that follow from the user's number.
pub proof fn manager_is_found_in_the_session(session: SessionView)
    ensures
        ({
            let directory = match session.runtime_dir {
                Some(dir) => dir,
                None => "/run/user/"@ + text::decimal_text(session.uid as nat),
            };
            let bus = match session.bus_address {
                Some(address) => address,
                None => "unix:path="@ + directory + "/bus"@,
            };
            systemd::manager_env(session) == seq![
                ("XDG_RUNTIME_DIR"@, directory),
                ("DBUS_SESSION_BUS_ADDRESS"@, bus),
            ]
        }),
{
}

/// A `systemctl --user` command with one argument list, in the environment of the manager.
pub open spec fn asks_systemctl(
    session: SessionView,
    effect: Option<EffectView>,
    args: Seq<Seq<char>>,
) -> bool {
    effect == Some(
        EffectView::Run {
            command: InvocationView {
                program: "systemctl"@,
                args,
                env: systemd::manager_env(session),
            },
        },
    )
}

/// What a command that must succeed amounts to: nothing if it ran and exited with zero; otherwise
/// an error that says what was done and why it could not be started, or how it exited and what it
/// wrote, to its error output if there is anything there.
pub open spec fn reports(
    what: Seq<char>,
    outcome: OutcomeView,
    result: Result<(), ErrorView>,
) -> bool {
    match outcome {
        OutcomeView::NotStarted { error } => result == Err::<(), ErrorView>(
            ErrorView::Command(what + ": spawn failed: "@ + error),
        ),
        OutcomeView::Exited { code, stdout, stderr } => {
            let complaint = text::trim_text(text::utf8_lossy(stderr));
            let output = text::trim_text(text::utf8_lossy(stdout));
            let exit = match code {
                Some(c) => text::signed_text(c as int),
                None => "signal"@,
            };
            if code == Some(0i32) {
                result == Ok::<(), ErrorView>(())
            } else if complaint.len() > 0 {
                result == Err::<(), ErrorView>(
                    ErrorView::Command(what + ": exited "@ + exit + ": "@ + complaint),
                )
            } else {
                result == Err::<(), ErrorView>(
                    ErrorView::Command(what + ": exited "@ + exit + ": "@ + output),
                )
            }
        },
    }
}

/// A command that must succeed is reported as an error exactly if it could not be started or
/// exited otherwise than with zero.
pub proof fn failed_commands_are_reported(what: Seq<char>, outcome: OutcomeView)
    ensures
        reports(
            what,
            outcome,
            match effect::run_error(what, outcome) {
                Some(e) => Err(e),
                None => Ok(()),
            },
        ),
        effect::run_error(what, outcome) is None <==> outcome.success(),
        effect::run_error(what, outcome) matches Some(e) ==> e is Command,
{
}

/// The error on a host that systemd does not run.
pub open spec fn is_unsupported(result: Result<(), ErrorView>) -> bool {
    result == Err::<(), ErrorView>(
        ErrorView::Unsupported(
            "daemon-green: systemd not detected (/run/systemd/system missing) — user-service management unsupported on this host"@,
        ),
    )
}

/// Whether an operation first asks for the directory that shows that systemd runs the host, and is
/// over with an error that says so if it is not there.
pub open spec fn detects_systemd(plan: PlanView) -> bool {
    &&& plan.effect() == Some(EffectView::IsDir { path: "/run/systemd/system"@ })
    &&& plan.outcome() is None
    &&& plan.after(ReplyView::Flag(false)).effect() is None
    &&& plan.after(ReplyView::Flag(false)).outcome() matches Some(r) && is_unsupported(r)
}

// ---------------------------------------------------------------------------------------------
// Start, stop and restart
// ---------------------------------------------------------------------------------------------
/// A start enables and starts the unit on a host that systemd runs. It ends well exactly if that
/// command ran and exited with zero, and otherwise with an error that tells why it did not.
pub proof fn start_does_what_the_command_does(
    session: SessionView,
    label: Seq<char>,
    outcome: OutcomeView,
)
    ensures
        ({
            let start = PlanView::fresh(systemd::start_steps(session, label));
            let found = start.after(ReplyView::Flag(true));
            let end = found.after(ReplyView::Ran(outcome));
            &&& detects_systemd(start)
            &&& asks_systemctl(
                session,
                found.effect(),
                seq!["--user"@, "enable"@, "--now"@, systemd::unit_name(label)],
            )
            &&& found.outcome() is None
            &&& end.effect() is None
            &&& end.outcome() matches Some(r) && reports(
                "systemctl --user enable --now"@,
                outcome,
                r,
            )
        }),
        ({
            let end = PlanView::fresh(systemd::start_steps(session, label)).after(
                ReplyView::Flag(true),
            ).after(ReplyView::Ran(outcome));
            &&& end.outcome() == Some(Ok::<(), ErrorView>(())) <==> (outcome matches
                OutcomeView::Exited { code, .. } && code == Some(0i32))
            &&& end.outcome() == Some(Ok::<(), ErrorView>(())) || (end.outcome() matches Some(Err(e))
                && e is Command)
        }),
{
    let steps = systemd::start_steps(session, label);
    assert(steps[1].effect->Run_command.args =~= seq![
        "--user"@,
        "enable"@,
        "--now"@,
        systemd::unit_name(label),
    ]);
}

/// A stop disables and stops the unit on a host that systemd runs. It ends well exactly if that
/// command ran and exited with zero, and otherwise with an error that tells why it did not.
pub proof fn stop_does_what_the_command_does(
    session: SessionView,
    label: Seq<char>,
    outcome: OutcomeView,
)
    ensures
        ({
            let stop = PlanView::fresh(systemd::stop_steps(session, label));
            let found = stop.after(ReplyView::Flag(true));
            let end = found.after(ReplyView::Ran(outcome));
            &&& detects_systemd(stop)
            &&& asks_systemctl(
                session,
                found.effect(),
                seq!["--user"@, "disable"@, "--now"@, systemd::unit_name(label)],
            )
            &&& found.outcome() is None
            &&& end.effect() is None
            &&& end.outcome() matches Some(r) && reports(
                "systemctl --user disable --now"@,
                outcome,
                r,
            )
        }),
        ({
            let end = PlanView::fresh(systemd::stop_steps(session, label)).after(
                ReplyView::Flag(true),
            ).after(ReplyView::Ran(outcome));
            &&& end.outcome() == Some(Ok::<(), ErrorView>(())) <==> (outcome matches
                OutcomeView::Exited { code, .. } && code == Some(0i32))
            &&& end.outcome() == Some(Ok::<(), ErrorView>(())) || (end.outcome() matches Some(Err(e))
                && e is Command)
        }),
{
    let steps = systemd::stop_steps(session, label);
    assert(steps[1].effect->Run_command.args =~= seq![
        "--user"@,
        "disable"@,
        "--now"@,
        systemd::unit_name(label),
    ]);
}

/// A restart clears an earlier failure, however that goes, and restarts the unit, on a host that
/// systemd runs. It ends well exactly if the second command ran and exited with zero, and otherwise
/// with an error that tells why it did not.
pub proof fn restart_does_what_the_command_does(
    session: SessionView,
    label: Seq<char>,
    reset: OutcomeView,
    outcome: OutcomeView,
)
    ensures
        ({
            let restart = PlanView::fresh(systemd::restart_steps(session, label));
            let found = restart.after(ReplyView::Flag(true));
            let cleared = found.after(ReplyView::Ran(reset));
            let end = cleared.after(ReplyView::Ran(outcome));
            &&& detects_systemd(restart)
            &&& asks_systemctl(
                session,
                found.effect(),
                seq!["--user"@, "reset-failed"@, systemd::unit_name(label)],
            )
            &&& found.outcome() is None
            &&& asks_systemctl(
                session,
                cleared.effect(),
                seq!["--user"@, "restart"@, systemd::unit_name(label)],
            )
            &&& cleared.outcome() is None
            &&& end.effect() is None
            &&& end.outcome() matches Some(r) && reports("systemctl --user restart"@, outcome, r)
        }),
        ({
            let end = PlanView::fresh(systemd::restart_steps(session, label)).after(
                ReplyView::Flag(true),
            ).after(ReplyView::Ran(reset)).after(ReplyView::Ran(outcome));
            &&& end.outcome() == Some(Ok::<(), ErrorView>(())) <==> (outcome matches
                OutcomeView::Exited { code, .. } && code == Some(0i32))
            &&& end.outcome() == Some(Ok::<(), ErrorView>(())) || (end.outcome() matches Some(Err(e))
                && e is Command)
        }),
{
    let steps = systemd::restart_steps(session, label);
    assert(steps[1].effect->Run_command.args =~= seq![
        "--user"@,
        "reset-failed"@,
        systemd::unit_name(label),
    ]);
    assert(steps[2].effect->Run_command.args =~= seq![
        "--user"@,
        "restart"@,
        systemd::unit_name(label),
    ]);
}

// ---------------------------------------------------------------------------------------------
// Install
// ---------------------------------------------------------------------------------------------
/// Whether an installation is over, with the given result.
pub open spec fn install_is_over(install: InstallView, result: Result<(), ErrorView>) -> bool {
    install.effect() is None && install.outcome() == Some(result)
}

/// An installation makes the directory of units, writes the unit there and makes the manager read
/// it, in this order, on a host that systemd runs. The first of these that fails ends it, with its
/// error; that a directory or a file could not be written is told as it is.
pub proof fn install_places_the_unit(
    session: SessionView,
    spec: ServiceSpecView,
    message: Seq<char>,
    outcome: OutcomeView,
)
    ensures
        ({
            let install = InstallView::fresh(session, spec);
            let found = install.after(ReplyView::Flag(true));
            let made = found.after(ReplyView::Done);
            let written = made.after(ReplyView::Done);
            let reloaded = written.after(ReplyView::Ran(outcome));
            &&& install.effect() == Some(EffectView::IsDir { path: "/run/systemd/system"@ })
            &&& install.outcome() is None
            &&& install.after(ReplyView::Flag(false)).effect() is None
            &&& install.after(ReplyView::Flag(false)).outcome() matches Some(r)
                && is_unsupported(r)
            &&& found.effect() == Some(
                EffectView::CreateDir { path: systemd::unit_directory(session) },
            )
            &&& found.outcome() is None
            &&& install_is_over(
                found.after(ReplyView::Failed(message)),
                Err(ErrorView::Io(message)),
            )
            &&& made.effect() == Some(
                EffectView::Write {
                    path: systemd::unit_file(session, spec.label),
                    contents: render::text_of_lines(render::unit_lines(spec)),
                },
            )
            &&& made.outcome() is None
            &&& install_is_over(
                made.after(ReplyView::Failed(message)),
                Err(ErrorView::Io(message)),
            )
            &&& asks_systemctl(session, written.effect(), seq!["--user"@, "daemon-reload"@])
            &&& written.outcome() is None
            &&& if outcome matches OutcomeView::Exited { code, .. } && code == Some(0i32) {
                reloaded.outcome() is None
            } else {
                &&& reloaded.effect() is None
                &&& reloaded.outcome() matches Some(r) && r is Err && reports(
                    "systemctl --user daemon-reload"@,
                    outcome,
                    r,
                )
            }
        }),
{
    let steps = systemd::install_steps(session, spec);
    assert(steps[3].effect->Run_command.args =~= seq!["--user"@, "daemon-reload"@]);
}

/// Once the manager has read the unit, lingering is asked for, on behalf of the user whom `USER`,
/// `LOGNAME` or else the command `id -un` names, and the installation has ended well however that
/// goes.
pub proof fn install_asks_for_lingering(
    session: SessionView,
    spec: ServiceSpecView,
    stdout: Seq<u8>,
    stderr: Seq<u8>,
    named: OutcomeView,
    lingering: OutcomeView,
)
    ensures
        ({
            let placed = InstallView::fresh(session, spec).after(ReplyView::Flag(true)).after(
                ReplyView::Done,
            ).after(ReplyView::Done).after(
                ReplyView::Ran(OutcomeView::Exited { code: Some(0), stdout, stderr }),
            );
            let asked = placed.after(ReplyView::Ran(named));
            &&& session.user matches Some(user) ==> lingers_for(placed, user, lingering)
            &&& session.user is None ==> {
                &&& session.logname matches Some(user) ==> lingers_for(placed, user, lingering)
                &&& session.logname is None ==> {
                    &&& placed.effect() == Some(
                        EffectView::Run {
                            command: InvocationView {
                                program: "id"@,
                                args: seq!["-un"@],
                                env: Seq::empty(),
                            },
                        },
                    )
                    &&& placed.outcome() is None
                    &&& match named {
                        OutcomeView::Exited { stdout: name, .. } => if valid_utf8(name) {
                            lingers_for(asked, text::trim_text(decode_utf8(name)), lingering)
                        } else {
                            lingers_for(asked, Seq::empty(), lingering)
                        },
                        OutcomeView::NotStarted { .. } => lingers_for(
                            asked,
                            Seq::empty(),
                            lingering,
                        ),
                    }
                }
            }
        }),
{
}

/// Whether an installation asks for lingering on behalf of the user, and has ended well after that.
pub open spec fn lingers_for(
    install: InstallView,
    user: Seq<char>,
    lingering: OutcomeView,
) -> bool {
    &&& install.effect() == Some(
        EffectView::RunAttached {
            command: InvocationView {
                program: "loginctl"@,
                args: seq!["enable-linger"@, user],
                env: Seq::empty(),
            },
        },
    )
    &&& install.outcome() is None
    &&& install_is_over(install.after(ReplyView::Ran(lingering)), Ok(()))
}

// ---------------------------------------------------------------------------------------------
// Status
// ---------------------------------------------------------------------------------------------
/// Whether a line is an assignment of `value` to `key`: what stands before and after its first
/// equals sign is, trimmed, the one and the other.
pub open spec fn assigns(line: Seq<char>, key: Seq<char>, value: Seq<char>) -> bool {
    exists|k: Seq<char>, v: Seq<char>| #[trigger] assigns_parts(line, k, v, key, value)
}

/// Whether a line is `k`, an equals sign and `v`, where `k` holds no equals sign, and these are,
/// trimmed, `key` and `value`.
pub open spec fn assigns_parts(
    line: Seq<char>,
    k: Seq<char>,
    v: Seq<char>,
    key: Seq<char>,
    value: Seq<char>,
) -> bool {
    &&& line == k + seq!['='] + v
    &&& forall|i: int| 0 <= i < k.len() ==> #[trigger] k[i] != '='
    &&& text::trim_text(k) == key
    &&& text::trim_text(v) == value
}

/// Whether no line assigns anything to `key`.
pub open spec fn unassigned(lines: Seq<Seq<char>>, key: Seq<char>) -> bool {
    forall|i: int, value: Seq<char>|
        0 <= i < lines.len() ==> !#[trigger] assigns(lines[i], key, value)
}

/// Whether the last line that assigns anything to `key` assigns `value`.
pub open spec fn last_assigned(
    lines: Seq<Seq<char>>,
    key: Seq<char>,
    value: Seq<char>,
) -> bool {
    exists|i: int|
        0 <= i < lines.len() && assigns(#[trigger] lines[i], key, value) && unassigned(
            lines.skip(i + 1),
            key,
        )
}

proof fn lemma_assigns(line: Seq<char>, key: Seq<char>, value: Seq<char>)
    ensures
        assigns(line, key, value) <==> (text::split_at_first(line, '=') matches Some((k, v))
            && text::trim_text(k) == key && text::trim_text(v) == value),
{
    if assigns(line, key, value) {
        let (k, v) = choose|k: Seq<char>, v: Seq<char>|
            #[trigger] assigns_parts(line, k, v, key, value);
        text_laws::splitting_is_at_the_first_separator(k, '=', v);
    }
    if let Some((k, v)) = text::split_at_first(line, '=') {
        text::lemma_first_of(line, '=');
        let i = text::first_of(line, '=');
        assert(line =~= k + seq!['='] + v);
        assert forall|j: int| 0 <= j < k.len() implies #[trigger] k[j] != '=' by {
            assert(k[j] == line[j]);
        }
        if text::trim_text(k) == key && text::trim_text(v) == value {
            assert(assigns_parts(line, k, v, key, value));
        }
    }
}

proof fn lemma_unassigned_push(lines: Seq<Seq<char>>, line: Seq<char>, key: Seq<char>)
    ensures
        unassigned(lines.push(line), key) <==> unassigned(lines, key) && (forall|value: Seq<char>|
            !#[trigger] assigns(line, key, value)),
{
    let all = lines.push(line);
    if unassigned(all, key) {
        assert forall|i: int, value: Seq<char>| 0 <= i < lines.len() implies !#[trigger] assigns(
            lines[i],
            key,
            value,
        ) by {
            assert(all[i] == lines[i]);
        }
        assert forall|value: Seq<char>| !#[trigger] assigns(line, key, value) by {
            assert(all[lines.len() as int] == line);
        }
    }
    if unassigned(lines, key) && (forall|value: Seq<char>| !#[trigger] assigns(line, key, value)) {
        assert forall|i: int, value: Seq<char>| 0 <= i < all.len() implies !#[trigger] assigns(
            all[i],
            key,
            value,
        ) by {
            if i < lines.len() {
                assert(all[i] == lines[i]);
            }
        }
    }
}

/// The value of a property is what the last line that assigns to it assigns, and there is none
/// exactly if no line does.
pub proof fn properties_are_last_assigned(lines: Seq<Seq<char>>, key: Seq<char>)
    ensures
        match systemd::property(lines, key) {
            Some(value) => last_assigned(lines, key, value),
            None => unassigned(lines, key),
        },
    decreases lines.len(),
{
    if lines.len() > 0 {
        let before = lines.drop_last();
        let line = lines.last();
        let n = lines.len() - 1;
        properties_are_last_assigned(before, key);
        assert(lines =~= before.push(line));
        lemma_unassigned_push(before, line, key);
        match text::split_at_first(line, '=') {
            Some((k, v)) if text::trim_text(k) == key => {
                lemma_assigns(line, key, text::trim_text(v));
                assert(assigns(lines[n], key, text::trim_text(v)));
                assert(unassigned(lines.skip(n + 1), key));
            },
            _ => {
                assert forall|value: Seq<char>| !#[trigger] assigns(line, key, value) by {
                    lemma_assigns(line, key, value);
                }
                if let Some(value) = systemd::property(before, key) {
                    let i = choose|i: int|
                        0 <= i < before.len() && assigns(#[trigger] before[i], key, value)
                            && unassigned(before.skip(i + 1), key);
                    assert(lines[i] == before[i]);
                    lemma_unassigned_push(before.skip(i + 1), line, key);
                    assert(lines.skip(i + 1) =~= before.skip(i + 1).push(line));
                }
            },
        }
    }
}

/// Whether the lines say that the unit is loaded: the load state is there, is not empty, and is not
/// that of a unit which was not found.
pub open spec fn known_unit(lines: Seq<Seq<char>>) -> bool {
    exists|load: Seq<char>| #[trigger]
        last_assigned(lines, "LoadState"@, load) && load.len() > 0 && load != "not-found"@
}

proof fn lemma_last_assigned_unique(
    lines: Seq<Seq<char>>,
    key: Seq<char>,
    a: Seq<char>,
    b: Seq<char>,
)
    requires
        last_assigned(lines, key, a),
        last_assigned(lines, key, b),
    ensures
        a == b,
{
    let i = choose|i: int|
        0 <= i < lines.len() && assigns(#[trigger] lines[i], key, a) && unassigned(
            lines.skip(i + 1),
            key,
        );
    let j = choose|j: int|
        0 <= j < lines.len() && assigns(#[trigger] lines[j], key, b) && unassigned(
            lines.skip(j + 1),
            key,
        );
    if i < j {
        assert(lines.skip(i + 1)[j - i - 1] == lines[j]);
        assert(!assigns(lines.skip(i + 1)[j - i - 1], key, b));
    } else if j < i {
        assert(lines.skip(j + 1)[i - j - 1] == lines[i]);
        assert(!assigns(lines.skip(j + 1)[i - j - 1], key, a));
    } else {
        lemma_assigns(lines[i], key, a);
        lemma_assigns(lines[i], key, b);
    }
}

proof fn lemma_last_assigned(lines: Seq<Seq<char>>, key: Seq<char>, value: Seq<char>)
    ensures
        last_assigned(lines, key, value) <==> systemd::property(lines, key) == Some(value),
{
    properties_are_last_assigned(lines, key);
    if last_assigned(lines, key, value) {
        match systemd::property(lines, key) {
            Some(other) => lemma_last_assigned_unique(lines, key, value, other),
            None => {
                let i = choose|i: int|
                    0 <= i < lines.len() && assigns(#[trigger] lines[i], key, value) && unassigned(
                        lines.skip(i + 1),
                        key,
                    );
                assert(!assigns(lines[i], key, value));
            },
        }
    }
}

/// The status of a unit follows from its load state and its active state, whatever else is shown
/// and in whatever order: it is not installed if it is not known; a known one runs exactly if it is
/// active or activating, has failed exactly if it is failed, and is stopped otherwise. One that runs
/// has the number that is shown for its main process, if that is a number other than zero; one that
/// failed has the result that is shown, or `failed` if none is.
pub proof fn status_is_the_active_state(output: Seq<char>)
    ensures
        ({
            let lines = text::lines_of(output);
            let status = systemd::show_status(output);
            let up = last_assigned(lines, "ActiveState"@, "active"@) || last_assigned(
                lines,
                "ActiveState"@,
                "activating"@,
            );
            let failed = last_assigned(lines, "ActiveState"@, "failed"@);
            &&& status is NotInstalled <==> !known_unit(lines)
            &&& known_unit(lines) ==> {
                &&& status is Running <==> up
                &&& status is Failed <==> failed
                &&& status is Stopped <==> !up && !failed
            }
            &&& status matches StatusView::Running { pid } ==> (forall|n: u32|
                pid == Some(n) <==> n != 0 && (exists|value: Seq<char>| #[trigger]
                    last_assigned(lines, "ExecMainPID"@, value) && text::parsed_u32(value) == Some(
                        n,
                    )))
            &&& status matches StatusView::Failed { reason } ==> last_assigned(
                lines,
                "Result"@,
                reason,
            ) || (unassigned(lines, "Result"@) && reason == "failed"@)
        }),
{
    let lines = text::lines_of(output);
    let status = systemd::show_status(output);
    reveal_strlit("active");
    reveal_strlit("activating");
    reveal_strlit("failed");
    assert("failed"@ != "active"@) by {
        assert("failed"@[0] != "active"@[0]);
    }
    assert("failed"@.len() != "activating"@.len());
    lemma_last_assigned(lines, "ActiveState"@, "active"@);
    lemma_last_assigned(lines, "ActiveState"@, "activating"@);
    lemma_last_assigned(lines, "ActiveState"@, "failed"@);
    properties_are_last_assigned(lines, "Result"@);
    assert forall|load: Seq<char>| #[trigger]
        last_assigned(lines, "LoadState"@, load) <==> systemd::property(lines, "LoadState"@)
        == Some(load) by {
        lemma_last_assigned(lines, "LoadState"@, load);
    }
    assert forall|value: Seq<char>| #[trigger]
        last_assigned(lines, "ExecMainPID"@, value) <==> systemd::property(lines, "ExecMainPID"@)
        == Some(value) by {
        lemma_last_assigned(lines, "ExecMainPID"@, value);
    }
    if let Some(load) = systemd::property(lines, "LoadState"@) {
        assert(last_assigned(lines, "LoadState"@, load));
    }
    if let Some(value) = systemd::property(lines, "ExecMainPID"@) {
        assert(last_assigned(lines, "ExecMainPID"@, value));
    }
}

/// Whether a question first asks for the directory that shows that systemd runs the host, gives up
/// with an error that says so if it is not there, and otherwise runs the command.
pub open spec fn asks_after_detection<T>(
    question: QueryView<T>,
    answer: spec_fn(OutcomeView) -> Result<T, ErrorView>,
    command: InvocationView,
) -> bool {
    let found = question.after(ReplyView::Flag(true), answer);
    let missing = question.after(ReplyView::Flag(false), answer);
    &&& question.effect() == Some(EffectView::IsDir { path: "/run/systemd/system"@ })
    &&& found.effect() == Some(EffectView::Run { command })
    &&& missing.effect() is None
    &&& missing == (QueryView::<T>::Finished {
        result: Err(
            ErrorView::Unsupported(
                "daemon-green: systemd not detected (/run/systemd/system missing) — user-service management unsupported on this host"@,
            ),
        ),
    })
}

/// The question for the status shows the properties of the unit, and is answered by the status that
/// its output amounts to, whatever the exit code, or by an error if it could not be started.
pub proof fn status_is_what_is_shown(
    session: SessionView,
    label: Seq<char>,
    outcome: OutcomeView,
)
    ensures
        ({
            let answer = |o: OutcomeView| systemd::shown_status(o);
            let question = QueryView::<StatusView>::Detect {
                command: systemd::show_command(session, label),
            };
            &&& asks_after_detection(
                question,
                answer,
                InvocationView {
                    program: "systemctl"@,
                    args: seq![
                        "--user"@,
                        "show"@,
                        systemd::unit_name(label),
                        "-p"@,
                        "LoadState,ActiveState,SubState,ExecMainPID,Result"@,
                    ],
                    env: systemd::manager_env(session),
                },
            )
            &&& question.after(ReplyView::Flag(true), answer).after(
                ReplyView::Ran(outcome),
                answer,
            ) == (QueryView::Finished {
                result: match outcome {
                    OutcomeView::NotStarted { error } => Err(
                        ErrorView::Command("systemctl --user show"@ + ": spawn failed: "@ + error),
                    ),
                    OutcomeView::Exited { stdout, .. } => Ok(
                        systemd::show_status(text::utf8_lossy(stdout)),
                    ),
                },
            })
        }),
{
    assert(systemd::show_command(session, label).args =~= seq![
        "--user"@,
        "show"@,
        systemd::unit_name(label),
        "-p"@,
        "LoadState,ActiveState,SubState,ExecMainPID,Result"@,
    ]);
}

/// The question for the log asks the journal for the last lines of the unit, and is answered by its
/// output, whatever the exit code, or by an error if it could not be started.
pub proof fn log_is_what_the_journal_shows(
    session: SessionView,
    label: Seq<char>,
    lines: nat,
    outcome: OutcomeView,
)
    ensures
        ({
            let answer = |o: OutcomeView| systemd::shown_log(o);
            let question = QueryView::<Seq<char>>::Detect {
                command: systemd::journal_command(session, label, lines),
            };
            &&& asks_after_detection(
                question,
                answer,
                InvocationView {
                    program: "journalctl"@,
                    args: seq![
                        "--user"@,
                        "-u"@,
                        systemd::unit_name(label),
                        "-n"@,
                        text::decimal_text(lines),
                        "--no-pager"@,
                    ],
                    env: systemd::manager_env(session),
                },
            )
            &&& question.after(ReplyView::Flag(true), answer).after(
                ReplyView::Ran(outcome),
                answer,
            ) == (QueryView::Finished {
                result: match outcome {
                    OutcomeView::NotStarted { error } => Err(
                        ErrorView::Command("journalctl --user"@ + ": spawn failed: "@ + error),
                    ),
                    OutcomeView::Exited { stdout, .. } => Ok(text::utf8_lossy(stdout)),
                },
            })
        }),
{
}

/// The message of a command that ran and failed says what was done, how it exited, and what it
/// wrote: to its error output, unless that is blank, and else to its output.
pub proof fn failures_are_described(
    what: Seq<char>,
    code: Option<i32>,
    stderr: Seq<char>,
    stdout: Seq<char>,
)
    ensures
        effect::failure_text(what, code, stderr, stdout) == what + ": exited "@ + (match code {
            Some(c) => text::signed_text(c as int),
            None => "signal"@,
        }) + ": "@ + (if text::trim_text(stderr).len() > 0 {
            text::trim_text(stderr)
        } else {
            text::trim_text(stdout)
        }),
{
}

/// The user is the one whom `USER` names, or else `LOGNAME`, or else the output of a command,
/// trimmed, if it is text.
pub proof fn user_is_named(session: SessionView, reply: ReplyView)
    ensures
        session.user is Some ==> systemd::known_user(session) == session.user,
        session.user is None ==> systemd::known_user(session) == session.logname,
        systemd::identified_user(reply) == (match reply {
            ReplyView::Ran(OutcomeView::Exited { stdout, .. }) => if valid_utf8(stdout) {
                text::trim_text(decode_utf8(stdout))
            } else {
                Seq::empty()
            },
            _ => Seq::empty(),
        }),
{
}

} // verus!
