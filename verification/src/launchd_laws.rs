//! Laws of the agents of a login session.

use crate::effect::{EffectView, OutcomeView, ReplyView};
use crate::launchd;
use crate::launchd::{AgentLogsView, AgentStatusView, LaunchView, Stage};
use crate::path;
use crate::plan::PlanView;
use crate::plist_readback;
use crate::render;
use crate::render::PlistValue;
use crate::service::{ErrorView, ServiceSpecView, StatusView};
use crate::session::SessionView;
use crate::text;
use vstd::prelude::*;

verus! {

// ---------------------------------------------------------------------------------------------
// Places
// ---------------------------------------------------------------------------------------------
/// The property list and the default log file of an agent lie in their places below the home
/// directory.
pub proof fn agent_files_are_below_home(session: SessionView, label: Seq<char>)
    ensures
        launchd::plist_file(session, label) == path::join_path(
            launchd::home_dir(session),
            path::join_path("Library/LaunchAgents"@, label + ".plist"@),
        ),
        launchd::default_log_file(session, label) == path::join_path(
            launchd::home_dir(session),
            path::join_path("Library/Logs"@, label + ".log"@),
        ),
{
    path::join_path_associative(
        launchd::home_dir(session),
        "Library/LaunchAgents"@,
        label + ".plist"@,
    );
    path::join_path_associative(launchd::home_dir(session), "Library/Logs"@, label + ".log"@);
}

/// The property list that an installation writes is the one that a start and a status look for,
/// that a load names, and that the log file is read from.
pub proof fn installed_agent_is_the_one_started(
    session: SessionView,
    spec: ServiceSpecView,
    lines: usize,
)
    ensures
        ({
            let steps = launchd::install_steps(session, spec);
            let start = LaunchView::fresh(session, spec.label, Stage::CheckInstalled);
            &&& steps.last().effect == (EffectView::Write {
                path: start.plist,
                contents: render::plist_text(
                    render::plist_entries(launchd::with_log(session, spec)),
                ),
            })
            &&& start.effect() == Some(EffectView::Exists { path: start.plist })
            &&& start.bootstrap().args.last() == start.plist
            &&& start.bootstrap_asuser().args.last() == start.plist
            &&& AgentStatusView::fresh(session, spec.label).effect() == Some(
                EffectView::Exists { path: start.plist },
            )
            &&& AgentLogsView::fresh(session, spec.label, lines).effect() == Some(
                EffectView::Run { command: launchd::extract_command(start.plist) },
            )
        }),
{
}

// ---------------------------------------------------------------------------------------------
// The log file
// ---------------------------------------------------------------------------------------------
/// An installed agent always has a log file: its own, or the default one, which is where the log
/// is looked for if the property list names none.
pub proof fn installed_agent_has_a_log(session: SessionView, spec: ServiceSpecView)
    ensures
        ({
            let full = launchd::with_log(session, spec);
            &&& full.log_path is Some
            &&& full == (ServiceSpecView { log_path: full.log_path, ..spec })
            &&& spec.log_path is Some ==> full == spec
            &&& spec.log_path is None ==> full.log_path == Some(
                launchd::default_log_file(session, spec.label),
            )
            &&& plist_readback::value_of(render::plist_entries(full), "StandardOutPath"@) == Some(
                PlistValue::Text(full.log_path->0),
            )
            &&& plist_readback::value_of(render::plist_entries(full), "StandardErrorPath"@)
                == Some(PlistValue::Text(full.log_path->0))
        }),
{
    plist_readback::plist_holds_each_field(launchd::with_log(session, spec));
}

/// A text without white space at its margins is what trimming leaves.
proof fn lemma_trim_line(s: Seq<char>)
    requires
        s.len() > 0,
        !text::white_space(s[0]),
        !text::white_space(s.last()),
    ensures
        text::trim_text(s + "\n"@) == s,
{
    reveal_strlit("\n");
    let t = s + "\n"@;
    assert(t[0] == s[0]);
    assert(t.last() == '\n');
    assert(t.drop_last() =~= s);
    assert(text::trim_end_text(s) == s);
}

/// The log of an agent is read from the file that its property list names, if the command prints
/// that on a line of its own.
pub proof fn logs_follow_the_property_list(
    session: SessionView,
    label: Seq<char>,
    lines: usize,
    log: Seq<char>,
    stdout: Seq<u8>,
    stderr: Seq<u8>,
)
    requires
        log.len() > 0,
        !text::white_space(log[0]),
        !text::white_space(log.last()),
    ensures
        text::utf8_lossy(stdout) == log + "\n"@ ==> {
            let question = AgentLogsView::fresh(session, label, lines);
            let named = question.after(
                ReplyView::Ran(OutcomeView::Exited { code: Some(0), stdout, stderr }),
            );
            &&& named.effect() == Some(EffectView::Exists { path: log })
            &&& named.after(ReplyView::Flag(true)).effect() == Some(EffectView::Read { path: log })
        },
{
    lemma_trim_line(log);
}

/// The log of an agent is read from the default file if the command fails.
pub proof fn logs_fall_back_to_the_default(
    session: SessionView,
    label: Seq<char>,
    lines: usize,
    failed: OutcomeView,
)
    requires
        !failed.success(),
    ensures
        ({
            let question = AgentLogsView::fresh(session, label, lines);
            let log = launchd::default_log_file(session, label);
            let unnamed = question.after(ReplyView::Ran(failed));
            &&& unnamed.effect() == Some(EffectView::Exists { path: log })
            &&& unnamed.after(ReplyView::Flag(true)).effect() == Some(
                EffectView::Read { path: log },
            )
        }),
{
}

// ---------------------------------------------------------------------------------------------
// Stop and status
// ---------------------------------------------------------------------------------------------
/// Stopping an agent fails only if the command could not be started: that the agent was not loaded
/// is no failure.
pub proof fn stop_fails_only_without_launchctl(
    session: SessionView,
    label: Seq<char>,
    outcome: OutcomeView,
)
    ensures
        ({
            let end = PlanView::fresh(launchd::stop_steps(session, label)).after(
                ReplyView::Ran(outcome),
            );
            match outcome {
                OutcomeView::NotStarted { error } => end.outcome() == Some(
                    Err::<(), ErrorView>(
                        ErrorView::Command("launchctl bootout"@ + ": "@ + error),
                    ),
                ),
                OutcomeView::Exited { .. } => end.outcome() == Some(Ok::<(), ErrorView>(())),
            }
        }),
{
}

/// An agent without a property list is said not to be installed, and nothing is run to find that
/// out; one with a property list never is.
pub proof fn status_follows_the_property_list(
    session: SessionView,
    label: Seq<char>,
    found: bool,
    outcome: OutcomeView,
)
    ensures
        ({
            let question = AgentStatusView::fresh(session, label);
            let looked = question.after(ReplyView::Flag(found));
            if found {
                let end = looked.after(ReplyView::Ran(outcome));
                &&& end is Finished
                &&& end != (AgentStatusView::Finished { result: Ok(StatusView::NotInstalled) })
            } else {
                looked == (AgentStatusView::Finished { result: Ok(StatusView::NotInstalled) })
            }
        }),
{
}

// ---------------------------------------------------------------------------------------------
// Bringing an agent up
// ---------------------------------------------------------------------------------------------
/// Whether an agent starts to be brought up, by a start or by a restart.
pub open spec fn begins(v: LaunchView) -> bool {
    &&& v.stage == Stage::CheckInstalled || v.stage == Stage::Kickstart
    &&& v.tries == 0
    &&& v.last.len() == 0
    &&& v.error is None
}

/// Whether the reply is one to what is to be done.
pub open spec fn answers(v: LaunchView, reply: ReplyView) -> bool {
    v.effect() matches Some(effect) && effect.answered_by(reply)
}

/// How often what the stage asks for was done.
pub open spec fn visits(v: LaunchView, replies: Seq<ReplyView>, stage: Stage) -> nat
    decreases replies.len(),
{
    if replies.len() == 0 {
        0
    } else {
        let before = replies.drop_last();
        if v.run(before).stage == stage && answers(v.run(before), replies.last()) {
            visits(v, before, stage) + 1
        } else {
            visits(v, before, stage)
        }
    }
}

/// The same agent is brought up all the time.
pub proof fn launch_keeps_its_agent(v: LaunchView, replies: Seq<ReplyView>)
    requires
        begins(v),
    ensures
        v.run(replies).wf(),
        v.run(replies).uid == v.uid,
        v.run(replies).label == v.label,
        v.run(replies).plist == v.plist,
    decreases replies.len(),
{
    if replies.len() > 0 {
        launch_keeps_its_agent(v, replies.drop_last());
    }
}

/// A start of an agent that is not installed, or without a graphical session, fails, and nothing
/// was done but to look for the property list and the session.
pub proof fn start_refuses_before_it_acts(
    session: SessionView,
    label: Seq<char>,
    installed: bool,
    active: OutcomeView,
)
    ensures
        ({
            let start = LaunchView::fresh(session, label, Stage::CheckInstalled);
            let looked = start.after(ReplyView::Flag(installed));
            let asked = looked.after(ReplyView::Ran(active));
            &&& start.effect() == Some(EffectView::Exists { path: start.plist })
            &&& !installed ==> looked.effect() is None && looked.outcome() == Some(
                Err::<(), ErrorView>(launchd::not_installed(label, start.plist)),
            )
            &&& installed ==> looked.effect() == Some(
                EffectView::Run {
                    command: launchd::launchctl_command(
                        seq!["print"@, launchd::gui_domain(session.uid)],
                    ),
                },
            )
            &&& installed && !active.success() ==> asked.effect() is None && asked.outcome() == Some(
                Err::<(), ErrorView>(launchd::no_session(session.uid)),
            )
        }),
{
}

/// A restart kicks an agent that is loaded, and starts another as a start does.
pub proof fn restart_falls_back_to_start(
    session: SessionView,
    label: Seq<char>,
    kicked: OutcomeView,
    replies: Seq<ReplyView>,
)
    ensures
        ({
            let restart = LaunchView::fresh(session, label, Stage::Kickstart);
            let start = LaunchView::fresh(session, label, Stage::CheckInstalled);
            if kicked.success() {
                restart.after(ReplyView::Ran(kicked)).outcome() == Some(Ok::<(), ErrorView>(()))
            } else {
                restart.run(seq![ReplyView::Ran(kicked)] + replies) == start.run(replies)
            }
        }),
    decreases replies.len(),
{
    let restart = LaunchView::fresh(session, label, Stage::Kickstart);
    let first = seq![ReplyView::Ran(kicked)];
    let all = first + replies;
    if replies.len() == 0 {
        assert(all =~= first);
        assert(all.drop_last() =~= Seq::empty());
        assert(restart.run(all.drop_last()) == restart);
    } else {
        restart_falls_back_to_start(session, label, kicked, replies.drop_last());
        assert(all.drop_last() =~= first + replies.drop_last());
    }
}

/// How often an agent was unloaded, enabled and loaded, at each stage.
spec fn counted(v: LaunchView, replies: Seq<ReplyView>) -> bool {
    let now = v.run(replies);
    let bootouts = visits(v, replies, Stage::Bootout);
    let enables = visits(v, replies, Stage::Enable);
    let loads = visits(v, replies, Stage::Bootstrap);
    let asusers = visits(v, replies, Stage::AsUser);
    let kicks = visits(v, replies, Stage::Kick);
    match now.stage {
        Stage::Kickstart | Stage::CheckInstalled | Stage::CheckSession | Stage::Bootout => {
            &&& bootouts == 0
            &&& enables == 0
            &&& loads == 0
            &&& asusers == 0
            &&& kicks == 0
        },
        Stage::StartTimer | Stage::ReadTimer | Stage::Probe | Stage::Pause | Stage::Enable => {
            &&& bootouts == 1
            &&& enables == 0
            &&& loads == 0
            &&& asusers == 0
            &&& kicks == 0
        },
        Stage::Bootstrap | Stage::Settle | Stage::AsUser => {
            &&& bootouts == 1
            &&& enables == 1
            &&& loads == now.tries
            &&& asusers == 0
            &&& kicks == 0
        },
        Stage::Kick => {
            &&& bootouts == 1
            &&& enables == 1
            &&& loaded(now.tries as nat, loads, asusers)
            &&& kicks == 0
        },
        Stage::Finished => match now.error {
            None => {
                ||| bootouts == 0 && enables == 0 && loads == 0 && asusers == 0 && kicks == 0
                ||| bootouts == 1 && enables == 1 && loaded(now.tries as nat, loads, asusers)
                    && kicks == 1
            },
            Some(e) => {
                ||| {
                    &&& bootouts == 0 && enables == 0 && loads == 0 && asusers == 0 && kicks == 0
                    &&& e == launchd::not_installed(v.label, v.plist) || e == launchd::no_session(
                        v.uid,
                    )
                }
                ||| {
                    &&& bootouts == 1 && enables == 0 && loads == 0 && asusers == 0 && kicks == 0
                    &&& e == launchd::still_loaded(v.uid, v.label)
                }
                ||| {
                    &&& bootouts == 1 && enables == 1 && kicks == 0
                    &&& loads == launchd::BOOTSTRAP_TRIES && asusers == 1
                    &&& exists|last: Seq<char>| e == launchd::not_loaded(v.uid, v.plist, last)
                }
            },
        },
    }
}

/// A load succeeded after the given number of failures: a plain one, or the one by way of `asuser`
/// after all plain ones.
spec fn loaded(failures: nat, loads: nat, asusers: nat) -> bool {
    ||| failures < launchd::BOOTSTRAP_TRIES && loads == failures + 1 && asusers == 0
    ||| failures == launchd::BOOTSTRAP_TRIES && loads == failures && asusers == 1
}

proof fn lemma_counted(v: LaunchView, replies: Seq<ReplyView>)
    requires
        begins(v),
    ensures
        counted(v, replies),
    decreases replies.len(),
{
    if replies.len() > 0 {
        let before = replies.drop_last();
        lemma_counted(v, before);
        launch_keeps_its_agent(v, before);
        let was = v.run(before);
        let reply = replies.last();
        if was.stage == Stage::AsUser && reply is Ran && !reply.success() {
            assert(v.run(replies).error == Some(
                launchd::not_loaded(v.uid, v.plist, launchd::asuser_complaint(reply, was.last)),
            ));
        }
    }
}

/// An agent is unloaded, enabled and loaded by way of `asuser` at most once, and loaded plainly at
/// most three times; it is never loaded without having been unloaded and enabled.
pub proof fn loads_are_limited(v: LaunchView, replies: Seq<ReplyView>)
    requires
        begins(v),
    ensures
        visits(v, replies, Stage::Bootout) <= 1,
        visits(v, replies, Stage::Enable) <= visits(v, replies, Stage::Bootout),
        visits(v, replies, Stage::Bootstrap) <= 3 * visits(v, replies, Stage::Enable),
        visits(v, replies, Stage::AsUser) <= 1,
        visits(v, replies, Stage::AsUser) == 1 ==> visits(v, replies, Stage::Bootstrap) == 3,
{
    lemma_counted(v, replies);
    launch_keeps_its_agent(v, replies);
}

/// Bringing an agent up fails for one of four reasons: it is not installed, or there is no
/// graphical session, in both of which cases nothing was unloaded or loaded; it was still loaded
/// when the time for its unload was over, and nothing was loaded; or it could not be loaded in
/// three plain tries and one by way of `asuser`.
pub proof fn launch_gives_up_only_after_every_way(
    v: LaunchView,
    replies: Seq<ReplyView>,
    error: ErrorView,
)
    requires
        begins(v),
        v.run(replies).outcome() == Some(Err::<(), ErrorView>(error)),
    ensures
        ({
            ||| {
                &&& error == launchd::not_installed(v.label, v.plist) || error
                    == launchd::no_session(v.uid)
                &&& visits(v, replies, Stage::Bootout) == 0
                &&& visits(v, replies, Stage::Bootstrap) == 0
                &&& visits(v, replies, Stage::AsUser) == 0
            }
            ||| {
                &&& error == launchd::still_loaded(v.uid, v.label)
                &&& visits(v, replies, Stage::Bootout) == 1
                &&& visits(v, replies, Stage::Bootstrap) == 0
                &&& visits(v, replies, Stage::AsUser) == 0
            }
            ||| {
                &&& exists|last: Seq<char>| error == launchd::not_loaded(v.uid, v.plist, last)
                &&& visits(v, replies, Stage::Bootstrap) == 3
                &&& visits(v, replies, Stage::AsUser) == 1
            }
        }),
{
    lemma_counted(v, replies);
    launch_keeps_its_agent(v, replies);
}

/// An agent that was brought up was kicked last: where a restart found it loaded, or once after a
/// load that succeeded.
pub proof fn launch_ends_with_a_kick(v: LaunchView, replies: Seq<ReplyView>)
    requires
        begins(v),
        replies.len() > 0,
        v.run(replies.drop_last()).outcome() is None,
        v.run(replies).outcome() == Some(Ok::<(), ErrorView>(())),
    ensures
        v.run(replies.drop_last()).effect() == Some(EffectView::Run { command: v.kickstart() }),
        visits(v, replies, Stage::Kick) == visits(v, replies, Stage::Enable),
{
    let before = replies.drop_last();
    launch_keeps_its_agent(v, before);
    lemma_counted(v, replies);
    lemma_counted(v, before);
}

/// Whether the agent was seen to be gone after it was unloaded.
pub open spec fn seen_gone(v: LaunchView, replies: Seq<ReplyView>) -> bool
    decreases replies.len(),
{
    replies.len() > 0 && {
        let before = replies.drop_last();
        ||| seen_gone(v, before)
        ||| {
            &&& visits(v, before, Stage::Bootout) > 0
            &&& v.run(before).stage == Stage::Probe
            &&& replies.last() is Ran
            &&& !replies.last().success()
        }
    }
}

/// Enabling the label comes next only after a look at the agent that did not find it.
pub proof fn label_is_enabled_only_when_gone(v: LaunchView, reply: ReplyView)
    requires
        v.stage != Stage::Enable,
        v.after(reply).stage == Stage::Enable,
    ensures
        v.stage == Stage::Probe,
        reply is Ran,
        !reply.success(),
{
}

/// An agent is neither enabled nor loaded, plainly or by way of `asuser`, nor is that what comes
/// next, before it was seen to be gone after it was unloaded.
pub proof fn load_waits_for_the_unload(v: LaunchView, replies: Seq<ReplyView>)
    requires
        begins(v),
    ensures
        v.run(replies).stage == Stage::Enable ==> seen_gone(v, replies),
        v.run(replies).stage == Stage::Bootstrap ==> seen_gone(v, replies),
        v.run(replies).stage == Stage::AsUser ==> seen_gone(v, replies),
        visits(v, replies, Stage::Enable) > 0 ==> seen_gone(v, replies),
        visits(v, replies, Stage::Bootstrap) > 0 ==> seen_gone(v, replies),
        visits(v, replies, Stage::AsUser) > 0 ==> seen_gone(v, replies),
    decreases replies.len(),
{
    lemma_counted(v, replies);
    if replies.len() > 0 {
        let before = replies.drop_last();
        lemma_counted(v, before);
        load_waits_for_the_unload(v, before);
    }
}

/// How far an agent is from the end of being brought up, at most, not counting further looks at
/// one that is being unloaded.
pub open spec fn distance(v: LaunchView) -> int {
    match v.stage {
        Stage::Kickstart => 18,
        Stage::CheckInstalled => 17,
        Stage::CheckSession => 16,
        Stage::Bootout => 15,
        Stage::StartTimer => 14,
        Stage::Probe => 13,
        Stage::ReadTimer => 12,
        Stage::Pause => 11,
        Stage::Enable => 10,
        Stage::Bootstrap => 9 - 2 * v.tries,
        Stage::Settle => 10 - 2 * v.tries,
        Stage::AsUser => 2,
        Stage::Kick => 1,
        Stage::Finished => 0,
    }
}

/// Whether every reply is one to what was to be done.
pub open spec fn answered(v: LaunchView, replies: Seq<ReplyView>) -> bool
    decreases replies.len(),
{
    replies.len() > 0 ==> {
        let before = replies.drop_last();
        answered(v, before) && answers(v.run(before), replies.last())
    }
}

/// Bringing an agent up goes on steadily: apart from three steps for each look at an agent that is
/// still being unloaded, there are at most as many steps as the distance at the beginning.
pub proof fn launch_comes_to_an_end(v: LaunchView, replies: Seq<ReplyView>)
    requires
        begins(v),
        answered(v, replies),
    ensures
        replies.len() + distance(v.run(replies)) <= distance(v) + 3 * visits(
            v,
            replies,
            Stage::Pause,
        ),
        distance(v.run(replies)) >= 0,
        distance(v.run(replies)) == 0 <==> v.run(replies).outcome() is Some,
    decreases replies.len(),
{
    launch_keeps_its_agent(v, replies);
    if replies.len() > 0 {
        let before = replies.drop_last();
        launch_keeps_its_agent(v, before);
        launch_comes_to_an_end(v, before);
    }
}

/// A reply of a kind that was not due changes nothing.
pub proof fn agents_await_their_replies(
    launch: LaunchView,
    status: AgentStatusView,
    logs: AgentLogsView,
    reply: ReplyView,
)
    ensures
        !answers(launch, reply) ==> launch.after(reply) == launch,
        (status.effect() matches Some(effect) ==> !effect.answered_by(reply)) ==> status.after(
            reply,
        ) == status,
        (logs.effect() matches Some(effect) ==> !effect.answered_by(reply)) ==> logs.after(reply)
            == logs,
{
}

} // verus!
