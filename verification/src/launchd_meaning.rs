//! Laws of what the operations on the agents of a login session do and report.

use crate::effect::{EffectView, InvocationView, OutcomeView, ReplyView};
use crate::launchd;
use crate::launchd::{AgentLogsView, AgentStatusView, LaunchView, Stage};
use crate::path;
use crate::plan::PlanView;
use crate::render;
use crate::service::{ErrorView, ServiceSpecView, StatusView};
use crate::session::SessionView;
use crate::text;
use crate::text_laws;
use vstd::prelude::*;

verus! {

// ---------------------------------------------------------------------------------------------
// Names and places
// ---------------------------------------------------------------------------------------------
/// A file in a directory below `HOME`, or below the current directory without it.
pub open spec fn home_file(
    session: SessionView,
    directory: Seq<char>,
    name: Seq<char>,
) -> Seq<char> {
    match session.home {
        Some(home) => path::join_path(path::join_path(home, directory), name),
        None => path::join_path(path::join_path(Seq::empty(), directory), name),
    }
}

/// The property list of an agent.
pub open spec fn agent_plist(session: SessionView, label: Seq<char>) -> Seq<char> {
    home_file(session, "Library/LaunchAgents"@, label + ".plist"@)
}

/// The log file of an agent that does not name one.
pub open spec fn agent_log(session: SessionView, label: Seq<char>) -> Seq<char> {
    home_file(session, "Library/Logs"@, label + ".log"@)
}

/// The graphical session of the user.
pub open spec fn login(session: SessionView) -> Seq<char> {
    "gui/"@ + text::decimal_text(session.uid as nat)
}

/// An agent in the graphical session of the user.
pub open spec fn target(session: SessionView, label: Seq<char>) -> Seq<char> {
    login(session) + "/"@ + label
}

/// Agents, their property lists and their log files have these names.
pub proof fn agents_have_their_names_and_files(session: SessionView, label: Seq<char>)
    ensures
        launchd::plist_file(session, label) == agent_plist(session, label),
        launchd::default_log_file(session, label) == agent_log(session, label),
        launchd::gui_domain(session.uid) == login(session),
        launchd::gui_service(session.uid, label) == target(session, label),
{
}

/// Whether the effect is a `launchctl` command with the given arguments.
pub open spec fn asks_launchctl(effect: Option<EffectView>, args: Seq<Seq<char>>) -> bool {
    effect == Some(
        EffectView::Run {
            command: InvocationView { program: "launchctl"@, args, env: Seq::empty() },
        },
    )
}

/// Whether an outcome is that of a command which ran and exited with zero.
pub open spec fn went_well(outcome: OutcomeView) -> bool {
    outcome matches OutcomeView::Exited { code, .. } && code == Some(0i32)
}

/// Whether bringing an agent up is over, with the given result.
pub open spec fn launch_is_over(launch: LaunchView, result: Result<(), ErrorView>) -> bool {
    launch.effect() is None && launch.outcome() == Some(result)
}

// ---------------------------------------------------------------------------------------------
// Start
// ---------------------------------------------------------------------------------------------
/// The start of an agent that is installed, whose user is logged in at the console, and which was
/// unloaded: it is to be seen whether the agent is gone.
pub open spec fn unloaded(
    session: SessionView,
    label: Seq<char>,
    active: OutcomeView,
    bootout: OutcomeView,
) -> LaunchView {
    LaunchView::fresh(session, label, Stage::CheckInstalled).after(ReplyView::Flag(true)).after(
        ReplyView::Ran(active),
    ).after(ReplyView::Ran(bootout)).after(ReplyView::Done)
}

/// A start looks for the property list, then for the graphical session, and gives up with an error
/// that says what is missing, before it does anything else. Otherwise it unloads the agent, however
/// that goes, starts the timer, and looks whether the agent is gone.
pub proof fn start_checks_and_unloads(
    session: SessionView,
    label: Seq<char>,
    active: OutcomeView,
    bootout: OutcomeView,
)
    ensures
        ({
            let start = LaunchView::fresh(session, label, Stage::CheckInstalled);
            let installed = start.after(ReplyView::Flag(true));
            let asked = installed.after(ReplyView::Ran(active));
            &&& start.effect() == Some(EffectView::Exists { path: agent_plist(session, label) })
            &&& start.outcome() is None
            &&& launch_is_over(
                start.after(ReplyView::Flag(false)),
                Err(
                    ErrorView::Command(
                        label + ": not installed (no plist at "@ + agent_plist(session, label)
                            + "). Call install() first."@,
                    ),
                ),
            )
            &&& asks_launchctl(installed.effect(), seq!["print"@, login(session)])
            &&& installed.outcome() is None
            &&& !went_well(active) ==> launch_is_over(
                asked,
                Err(
                    ErrorView::Unsupported(
                        "no active GUI login ("@ + login(session)
                            + " missing). Log in at the console once (or enable auto-login) — the agent needs the login session for the keychain."@,
                    ),
                ),
            )
            &&& went_well(active) ==> {
                let timed = asked.after(ReplyView::Ran(bootout));
                let looking = timed.after(ReplyView::Done);
                &&& asks_launchctl(asked.effect(), seq!["bootout"@, target(session, label)])
                &&& asked.outcome() is None
                &&& timed.effect() == Some(EffectView::StartTimer)
                &&& timed.outcome() is None
                &&& looking == unloaded(session, label, active, bootout)
                &&& asks_launchctl(looking.effect(), seq!["print"@, target(session, label)])
                &&& looking.outcome() is None
            }
        }),
{
}

/// An agent that is still there is looked for again after a pause of 150 milliseconds, and the
/// start is then where it was before, for five seconds; after these it gives up with an error. Once
/// the agent is gone, the label is enabled.
pub proof fn start_waits_until_the_agent_is_gone(
    session: SessionView,
    label: Seq<char>,
    active: OutcomeView,
    bootout: OutcomeView,
    seen: OutcomeView,
    elapsed: u64,
)
    requires
        went_well(active),
    ensures
        ({
            let looking = unloaded(session, label, active, bootout);
            let looked = looking.after(ReplyView::Ran(seen));
            let timed = looked.after(ReplyView::Elapsed(elapsed));
            &&& went_well(seen) ==> {
                &&& looked.effect() == Some(EffectView::ReadTimer)
                &&& looked.outcome() is None
                &&& elapsed < 5000 ==> {
                    &&& timed.effect() == Some(EffectView::Sleep { millis: 150 })
                    &&& timed.outcome() is None
                    &&& timed.after(ReplyView::Done) == looking
                }
                &&& elapsed >= 5000 ==> launch_is_over(
                    timed,
                    Err(
                        ErrorView::Command(
                            "launchctl bootout "@ + target(session, label)
                                + ": still loaded after 5 s, so it cannot be loaded again"@,
                        ),
                    ),
                )
            }
            &&& !went_well(seen) ==> {
                &&& asks_launchctl(looked.effect(), seq!["enable"@, target(session, label)])
                &&& looked.outcome() is None
            }
        }),
{
}

/// The start of an agent that is gone and whose label was enabled: it is to be loaded.
pub open spec fn loading(
    session: SessionView,
    label: Seq<char>,
    active: OutcomeView,
    bootout: OutcomeView,
    gone: OutcomeView,
    enabled: OutcomeView,
) -> LaunchView {
    unloaded(session, label, active, bootout).after(ReplyView::Ran(gone)).after(
        ReplyView::Ran(enabled),
    )
}

/// The same start after a load that failed and the pause that follows.
pub open spec fn loading_again(launch: LaunchView, failed: OutcomeView) -> LaunchView {
    launch.after(ReplyView::Ran(failed)).after(ReplyView::Done)
}

/// Whether it is to load the agent plainly; a load that succeeds is followed by a kick, however that
/// goes, and the end, and one that fails by a pause of half a second.
pub open spec fn loads(
    session: SessionView,
    label: Seq<char>,
    launch: LaunchView,
    outcome: OutcomeView,
    kicked: OutcomeView,
) -> bool {
    let next = launch.after(ReplyView::Ran(outcome));
    &&& asks_launchctl(
        launch.effect(),
        seq!["bootstrap"@, login(session), agent_plist(session, label)],
    )
    &&& launch.outcome() is None
    &&& next.outcome() is None
    &&& if went_well(outcome) {
        &&& asks_launchctl(next.effect(), seq!["kickstart"@, "-k"@, target(session, label)])
        &&& launch_is_over(next.after(ReplyView::Ran(kicked)), Ok(()))
    } else {
        next.effect() == Some(EffectView::Sleep { millis: 500 })
    }
}

/// What a load that failed had to say.
pub open spec fn said(outcome: OutcomeView) -> Seq<char> {
    match outcome {
        OutcomeView::NotStarted { error } => error,
        OutcomeView::Exited { stderr, .. } => text::trim_text(text::utf8_lossy(stderr)),
    }
}

/// An agent that is gone is loaded plainly, up to three times, and then by way of `asuser`. The
/// first of these that succeeds is followed by a kick, however that goes, and the start has ended
/// well. If all fail, it ends with an error that tells what the last of them had to say.
pub proof fn start_loads_the_agent(
    session: SessionView,
    label: Seq<char>,
    active: OutcomeView,
    bootout: OutcomeView,
    gone: OutcomeView,
    enabled: OutcomeView,
    first: OutcomeView,
    second: OutcomeView,
    third: OutcomeView,
    outcome: OutcomeView,
    kicked: OutcomeView,
)
    requires
        went_well(active),
        !went_well(gone),
        !went_well(first),
        !went_well(second),
        !went_well(third),
    ensures
        ({
            let one = loading(session, label, active, bootout, gone, enabled);
            let two = loading_again(one, first);
            let three = loading_again(two, second);
            let four = loading_again(three, third);
            let end = four.after(ReplyView::Ran(outcome));
            &&& loads(session, label, one, outcome, kicked)
            &&& loads(session, label, one, first, kicked)
            &&& loads(session, label, two, outcome, kicked)
            &&& loads(session, label, two, second, kicked)
            &&& loads(session, label, three, outcome, kicked)
            &&& loads(session, label, three, third, kicked)
            &&& asks_launchctl(
                four.effect(),
                seq![
                    "asuser"@,
                    text::decimal_text(session.uid as nat),
                    "launchctl"@,
                    "bootstrap"@,
                    login(session),
                    agent_plist(session, label),
                ],
            )
            &&& four.outcome() is None
            &&& if went_well(outcome) {
                &&& asks_launchctl(end.effect(), seq!["kickstart"@, "-k"@, target(session, label)])
                &&& end.outcome() is None
                &&& launch_is_over(end.after(ReplyView::Ran(kicked)), Ok(()))
            } else {
                launch_is_over(
                    end,
                    Err(
                        ErrorView::Command(
                            "launchctl bootstrap "@ + login(session) + " "@ + agent_plist(
                                session,
                                label,
                            ) + " failed after retries + asuser: "@ + (match outcome {
                                OutcomeView::NotStarted { .. } => said(third),
                                OutcomeView::Exited { .. } => said(outcome),
                            }),
                        ),
                    ),
                )
            }
        }),
{
    let one = loading(session, label, active, bootout, gone, enabled);
    assert(one.stage == Stage::Bootstrap && one.tries == 0);
    let two = loading_again(one, first);
    assert(two.stage == Stage::Bootstrap && two.tries == 1);
    let three = loading_again(two, second);
    assert(three.stage == Stage::Bootstrap && three.tries == 2);
    let four = loading_again(three, third);
    assert(four.stage == Stage::AsUser && four.last == said(third));
}

/// A restart kicks the agent. If that went well it is over, and otherwise it goes on as a start
/// does.
pub proof fn restart_kicks_or_starts(
    session: SessionView,
    label: Seq<char>,
    kicked: OutcomeView,
)
    ensures
        ({
            let restart = LaunchView::fresh(session, label, Stage::Kickstart);
            let next = restart.after(ReplyView::Ran(kicked));
            &&& asks_launchctl(
                restart.effect(),
                seq!["kickstart"@, "-k"@, target(session, label)],
            )
            &&& restart.outcome() is None
            &&& if went_well(kicked) {
                launch_is_over(next, Ok(()))
            } else {
                next == LaunchView::fresh(session, label, Stage::CheckInstalled)
            }
        }),
{
}

// ---------------------------------------------------------------------------------------------
// Install and stop
// ---------------------------------------------------------------------------------------------
/// An installation makes the directory of the log file, however that goes, then that of the
/// property list, and writes the property list of the service, with its own log file or else the
/// default one. That the directory or the file could not be written ends it, and is told as it is.
pub proof fn install_places_the_property_list(
    session: SessionView,
    spec: ServiceSpecView,
    log: Seq<char>,
    made: ReplyView,
    message: Seq<char>,
)
    requires
        log == (match spec.log_path {
            Some(path) => path,
            None => agent_log(session, spec.label),
        }),
        made is Done || made is Failed,
    ensures
        ({
            let install = PlanView::fresh(launchd::install_steps(session, spec));
            let prepared = install.after(made);
            let placing = prepared.after(ReplyView::Done);
            let end = placing.after(ReplyView::Done);
            let plist = agent_plist(session, spec.label);
            &&& install.effect() == Some(EffectView::CreateParent { path: log })
            &&& install.outcome() is None
            &&& prepared.effect() == Some(EffectView::CreateParent { path: plist })
            &&& prepared.outcome() is None
            &&& prepared.after(ReplyView::Failed(message)).effect() is None
            &&& prepared.after(ReplyView::Failed(message)).outcome() == Some(
                Err::<(), ErrorView>(ErrorView::Io(message)),
            )
            &&& placing.effect() == Some(
                EffectView::Write {
                    path: plist,
                    contents: render::plist_text(
                        render::plist_entries(ServiceSpecView { log_path: Some(log), ..spec }),
                    ),
                },
            )
            &&& placing.outcome() is None
            &&& placing.after(ReplyView::Failed(message)).effect() is None
            &&& placing.after(ReplyView::Failed(message)).outcome() == Some(
                Err::<(), ErrorView>(ErrorView::Io(message)),
            )
            &&& end.effect() is None
            &&& end.outcome() == Some(Ok::<(), ErrorView>(()))
        }),
{
}

/// A stop unloads the agent. It fails only if the command could not be started.
pub proof fn stop_unloads_the_agent(
    session: SessionView,
    label: Seq<char>,
    outcome: OutcomeView,
)
    ensures
        ({
            let stop = PlanView::fresh(launchd::stop_steps(session, label));
            let end = stop.after(ReplyView::Ran(outcome));
            &&& asks_launchctl(stop.effect(), seq!["bootout"@, target(session, label)])
            &&& stop.outcome() is None
            &&& end.effect() is None
            &&& match outcome {
                OutcomeView::NotStarted { error } => end.outcome() == Some(
                    Err::<(), ErrorView>(
                        ErrorView::Command("launchctl bootout"@ + ": "@ + error),
                    ),
                ),
                OutcomeView::Exited { .. } => end.outcome() == Some(Ok::<(), ErrorView>(())),
            }
        }),
{
}

// ---------------------------------------------------------------------------------------------
// Status
// ---------------------------------------------------------------------------------------------
/// Whether a line gives the number of a process: trimmed, it is `pid = ` and a text that, trimmed,
/// spells the number.
pub open spec fn gives_pid(line: Seq<char>, pid: u32) -> bool {
    exists|value: Seq<char>|
        text::trim_text(line) == "pid = "@ + value && text::parsed_u32(
            #[trigger] text::trim_text(value),
        ) == Some(pid)
}

/// Whether one of the lines gives the number of a process, and none before it gives any.
pub open spec fn first_gives_pid(lines: Seq<Seq<char>>, pid: u32) -> bool {
    exists|i: int|
        0 <= i < lines.len() && gives_pid(#[trigger] lines[i], pid) && (forall|j: int, other: u32|
            0 <= j < i ==> !#[trigger] gives_pid(lines[j], other))
}

/// Whether none of the lines gives the number of a process.
pub open spec fn none_gives_pid(lines: Seq<Seq<char>>) -> bool {
    forall|i: int, pid: u32| 0 <= i < lines.len() ==> !#[trigger] gives_pid(lines[i], pid)
}

proof fn lemma_gives_pid(line: Seq<char>, pid: u32)
    ensures
        gives_pid(line, pid) <==> launchd::line_pid(line) == Some(pid),
{
    let t = text::trim_text(line);
    if gives_pid(line, pid) {
        let value = choose|value: Seq<char>|
            t == "pid = "@ + value && text::parsed_u32(#[trigger] text::trim_text(value)) == Some(
                pid,
            );
        text_laws::prefixes_are_taken_off(t, "pid = "@, value);
    }
    if launchd::line_pid(line) == Some(pid) {
        let value = text::after_prefix(t, "pid = "@)->0;
        text_laws::prefixes_are_taken_off(t, "pid = "@, value);
        assert(text::parsed_u32(text::trim_text(value)) == Some(pid));
    }
}

proof fn lemma_first_pid(lines: Seq<Seq<char>>)
    ensures
        match launchd::first_pid(lines) {
            Some(pid) => first_gives_pid(lines, pid),
            None => none_gives_pid(lines),
        },
    decreases lines.len(),
{
    if lines.len() > 0 {
        let rest = lines.drop_first();
        lemma_first_pid(rest);
        match launchd::line_pid(lines[0]) {
            Some(pid) => {
                lemma_gives_pid(lines[0], pid);
                assert(gives_pid(lines[0], pid));
            },
            None => {
                assert forall|pid: u32| !#[trigger] gives_pid(lines[0], pid) by {
                    lemma_gives_pid(lines[0], pid);
                }
                match launchd::first_pid(rest) {
                    Some(pid) => {
                        let i = choose|i: int|
                            0 <= i < rest.len() && gives_pid(#[trigger] rest[i], pid) && (forall|
                                j: int,
                                other: u32,
                            |
                                0 <= j < i ==> !#[trigger] gives_pid(rest[j], other));
                        assert(lines[i + 1] == rest[i]);
                        assert forall|j: int, other: u32| 0 <= j < i + 1 implies !#[trigger] gives_pid(
                            lines[j],
                            other,
                        ) by {
                            if j > 0 {
                                assert(lines[j] == rest[j - 1]);
                                assert(!gives_pid(rest[j - 1], other));
                            }
                        }
                    },
                    None => {
                        assert forall|j: int, other: u32|
                            0 <= j < lines.len() implies !#[trigger] gives_pid(lines[j], other) by {
                            if j > 0 {
                                assert(lines[j] == rest[j - 1]);
                                assert(!gives_pid(rest[j - 1], other));
                            }
                        }
                    },
                }
            },
        }
    }
}

proof fn lemma_first_gives_pid_unique(lines: Seq<Seq<char>>, a: u32, b: u32)
    requires
        first_gives_pid(lines, a),
        first_gives_pid(lines, b),
    ensures
        a == b,
{
    let i = choose|i: int|
        0 <= i < lines.len() && gives_pid(#[trigger] lines[i], a) && (forall|j: int, other: u32|
            0 <= j < i ==> !#[trigger] gives_pid(lines[j], other));
    let k = choose|k: int|
        0 <= k < lines.len() && gives_pid(#[trigger] lines[k], b) && (forall|j: int, other: u32|
            0 <= j < k ==> !#[trigger] gives_pid(lines[j], other));
    if i < k {
        assert(!gives_pid(lines[i], a));
    } else if k < i {
        assert(!gives_pid(lines[k], b));
    }
    lemma_gives_pid(lines[i], a);
    lemma_gives_pid(lines[i], b);
}

/// A printed agent runs, under a number, exactly if some line gives that number and no line before
/// it gives any, wherever in the output these lines stand; it is stopped exactly if no line gives a
/// number.
pub proof fn printed_agent_runs_under_its_first_pid(output: Seq<char>, pid: u32)
    ensures
        ({
            let lines = text::lines_of(output);
            let status = launchd::print_status(output);
            &&& status == (StatusView::Running { pid: Some(pid) }) <==> first_gives_pid(lines, pid)
            &&& status is Stopped <==> none_gives_pid(lines)
            &&& status is Stopped || (status matches StatusView::Running { pid: p } && p is Some)
        }),
{
    let lines = text::lines_of(output);
    lemma_first_pid(lines);
    if first_gives_pid(lines, pid) {
        match launchd::first_pid(lines) {
            Some(other) => lemma_first_gives_pid_unique(lines, pid, other),
            None => {
                let i = choose|i: int|
                    0 <= i < lines.len() && gives_pid(#[trigger] lines[i], pid) && (forall|
                        j: int,
                        other: u32,
                    |
                        0 <= j < i ==> !#[trigger] gives_pid(lines[j], other));
                assert(!gives_pid(lines[i], pid));
            },
        }
    }
    if let Some(p) = launchd::first_pid(lines) {
        let i = choose|i: int|
            0 <= i < lines.len() && gives_pid(#[trigger] lines[i], p) && (forall|
                j: int,
                other: u32,
            |
                0 <= j < i ==> !#[trigger] gives_pid(lines[j], other));
        assert(gives_pid(lines[i], p));
    }
}

/// The question for the status looks for the property list: without it the agent is not installed.
/// Otherwise the agent is printed: it is an error if that could not be started, the agent is stopped
/// if it exited otherwise than with zero, and else it is as printed.
pub proof fn status_is_what_is_printed(
    session: SessionView,
    label: Seq<char>,
    outcome: OutcomeView,
)
    ensures
        ({
            let question = AgentStatusView::fresh(session, label);
            let found = question.after(ReplyView::Flag(true));
            let end = found.after(ReplyView::Ran(outcome));
            &&& question.effect() == Some(
                EffectView::Exists { path: agent_plist(session, label) },
            )
            &&& question.after(ReplyView::Flag(false)) == (AgentStatusView::Finished {
                result: Ok(StatusView::NotInstalled),
            })
            &&& asks_launchctl(found.effect(), seq!["print"@, target(session, label)])
            &&& end.effect() is None
            &&& match outcome {
                OutcomeView::NotStarted { error } => end == (AgentStatusView::Finished {
                    result: Err(ErrorView::Command("launchctl print: "@ + error)),
                }),
                OutcomeView::Exited { code, stdout, .. } => if code == Some(0i32) {
                    end == (AgentStatusView::Finished {
                        result: Ok(launchd::print_status(text::utf8_lossy(stdout))),
                    })
                } else {
                    end == (AgentStatusView::Finished { result: Ok(StatusView::Stopped) })
                },
            }
        }),
{
}

// ---------------------------------------------------------------------------------------------
// Logs
// ---------------------------------------------------------------------------------------------
/// The log file that the command names: what it wrote, trimmed, if it exited with zero and wrote
/// anything, and else the default one.
pub open spec fn log_named_by(
    session: SessionView,
    label: Seq<char>,
    named: OutcomeView,
) -> Seq<char> {
    match named {
        OutcomeView::Exited { code, stdout, .. } => {
            let written = text::trim_text(text::utf8_lossy(stdout));
            if code == Some(0i32) && written.len() > 0 {
                written
            } else {
                agent_log(session, label)
            }
        },
        OutcomeView::NotStarted { .. } => agent_log(session, label),
    }
}

/// The question for the log reads the name of the log file from the property list. It then looks
/// for the file, and reads it: a missing one is an empty log, one that could not be read is an error
/// that is told as it is, and of another the last lines are given.
pub proof fn log_is_the_tail_of_its_file(
    session: SessionView,
    label: Seq<char>,
    lines: usize,
    named: OutcomeView,
    contents: Seq<char>,
    message: Seq<char>,
)
    ensures
        ({
            let question = AgentLogsView::fresh(session, label, lines);
            let log = log_named_by(session, label, named);
            let looking = question.after(ReplyView::Ran(named));
            let reading = looking.after(ReplyView::Flag(true));
            &&& question.effect() == Some(
                EffectView::Run {
                    command: InvocationView {
                        program: "plutil"@,
                        args: seq![
                            "-extract"@,
                            "StandardOutPath"@,
                            "raw"@,
                            "-o"@,
                            "-"@,
                            agent_plist(session, label),
                        ],
                        env: Seq::empty(),
                    },
                },
            )
            &&& looking.effect() == Some(EffectView::Exists { path: log })
            &&& looking.after(ReplyView::Flag(false)) == (AgentLogsView::Finished {
                result: Ok(Seq::empty()),
            })
            &&& reading.effect() == Some(EffectView::Read { path: log })
            &&& reading.after(ReplyView::Contents(contents)) == (AgentLogsView::Finished {
                result: Ok(text::tail_text(contents, lines as nat)),
            })
            &&& reading.after(ReplyView::Failed(message)) == (AgentLogsView::Finished {
                result: Err(ErrorView::Io(message)),
            })
        }),
{
}

/// The path in an output is all of it, trimmed, if there is anything.
pub proof fn output_is_a_path(output: Seq<char>)
    ensures
        launchd::output_path(output) is Some <==> text::trim_text(output).len() > 0,
        launchd::output_path(output) matches Some(path) ==> path == text::trim_text(output),
{
}

} // verus!
