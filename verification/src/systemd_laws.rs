//! Laws of the user's systemd manager.

use crate::effect::{EffectView, InvocationView, OutcomeView, ReplyView};
use crate::path;
use crate::plan;
use crate::plan::{PlanView, StepView};
use crate::service::{ErrorView, ServiceSpecView, StatusView};
use crate::session::SessionView;
use crate::systemd;
use crate::systemd::{InstallView, QueryView};
use crate::text;
use vstd::prelude::*;

verus! {

// ---------------------------------------------------------------------------------------------
// Names and places
// ---------------------------------------------------------------------------------------------
/// The name of a unit ends with the suffix, and the suffix is never appended twice: the name of a
/// unit names the same unit.
pub proof fn unit_name_has_the_suffix_once(label: Seq<char>)
    ensures
        text::has_suffix(systemd::unit_name(label), ".service"@),
        systemd::unit_name(systemd::unit_name(label)) == systemd::unit_name(label),
{
    let name = label + ".service"@;
    assert(name.skip(name.len() - ".service"@.len()) =~= ".service"@);
}

/// The unit that is started, stopped, restarted and asked for is the one that was installed,
/// unless the label has the suffix already.
pub proof fn installed_unit_is_the_one_started(session: SessionView, label: Seq<char>)
    requires
        !text::has_suffix(label, ".service"@),
    ensures
        systemd::unit_file(session, label) == path::join_path(
            systemd::unit_directory(session),
            systemd::unit_name(label),
        ),
{
}

/// The file of a unit lies in the place of units below the home directory.
pub proof fn unit_file_is_below_home(session: SessionView, label: Seq<char>)
    ensures
        systemd::unit_file(session, label) == path::join_path(
            systemd::home_dir(session),
            path::join_path(".config/systemd/user"@, label + ".service"@),
        ),
{
    path::join_path_associative(
        systemd::home_dir(session),
        ".config/systemd/user"@,
        label + ".service"@,
    );
}

// ---------------------------------------------------------------------------------------------
// Commands
// ---------------------------------------------------------------------------------------------
/// Whether a command finds the user's manager from any shell.
pub open spec fn finds_manager(session: SessionView, command: InvocationView) -> bool {
    command.program == "systemctl"@ || command.program == "journalctl"@ ==> command.env
        == systemd::manager_env(session)
}

/// Whether an effect is no command, or one that finds the user's manager.
pub open spec fn effect_finds_manager(session: SessionView, effect: EffectView) -> bool {
    effect matches EffectView::Run { command } ==> finds_manager(session, command)
}

/// Whether all commands of the steps find the user's manager.
pub open spec fn steps_find_manager(session: SessionView, steps: Seq<StepView>) -> bool {
    forall|i: int|
        0 <= i < steps.len() ==> effect_finds_manager(session, (#[trigger] steps[i]).effect)
}

/// Every command to the user's manager and its journal finds it from any shell.
pub proof fn commands_find_the_manager(
    session: SessionView,
    spec: ServiceSpecView,
    label: Seq<char>,
    lines: nat,
)
    ensures
        steps_find_manager(session, systemd::install_steps(session, spec)),
        steps_find_manager(session, systemd::start_steps(session, label)),
        steps_find_manager(session, systemd::stop_steps(session, label)),
        steps_find_manager(session, systemd::restart_steps(session, label)),
        finds_manager(session, systemd::show_command(session, label)),
        finds_manager(session, systemd::journal_command(session, label, lines)),
{
}

// ---------------------------------------------------------------------------------------------
// Without systemd
// ---------------------------------------------------------------------------------------------
proof fn lemma_detection_stops_plan(steps: Seq<StepView>, replies: Seq<ReplyView>)
    requires
        steps.len() > 0,
        steps[0] == systemd::detect_step(),
        replies.len() > 0,
        replies[0] == ReplyView::Flag(false),
    ensures
        PlanView::fresh(steps).effect() == Some(systemd::detect_effect()),
        PlanView::fresh(steps).run(replies).effect() is None,
        PlanView::fresh(steps).run(replies).outcome() == Some(
            Err::<(), ErrorView>(systemd::no_systemd()),
        ),
{
    assert(steps[0].rejects(replies[0], systemd::no_systemd()));
    plan::plan_stops_at_first_error(steps, replies, 0, systemd::no_systemd());
}

proof fn lemma_detection_stops_install(
    session: SessionView,
    spec: ServiceSpecView,
    replies: Seq<ReplyView>,
)
    requires
        replies.len() > 0,
        replies[0] == ReplyView::Flag(false),
    ensures
        InstallView::fresh(session, spec).run(replies) == (InstallView::Finished {
            result: Err::<(), ErrorView>(systemd::no_systemd()),
        }),
    decreases replies.len(),
{
    let before = replies.drop_last();
    if before.len() > 0 {
        assert(before[0] == replies[0]);
        lemma_detection_stops_install(session, spec, before);
    } else {
        assert(InstallView::fresh(session, spec).run(before) == InstallView::fresh(session, spec));
    }
}

/// On a host that systemd does not run, no operation does anything but find that out, and each
/// ends with an error that says so, whatever is replied later.
pub proof fn nothing_happens_without_systemd(
    session: SessionView,
    spec: ServiceSpecView,
    label: Seq<char>,
    replies: Seq<ReplyView>,
)
    requires
        replies.len() > 0,
        replies[0] == ReplyView::Flag(false),
    ensures
        InstallView::fresh(session, spec).effect() == Some(systemd::detect_effect()),
        InstallView::fresh(session, spec).run(replies).effect() is None,
        InstallView::fresh(session, spec).run(replies).outcome() == Some(
            Err::<(), ErrorView>(systemd::no_systemd()),
        ),
        ({
            let start = PlanView::fresh(systemd::start_steps(session, label));
            &&& start.effect() == Some(systemd::detect_effect())
            &&& start.run(replies).effect() is None
            &&& start.run(replies).outcome() == Some(Err::<(), ErrorView>(systemd::no_systemd()))
        }),
        ({
            let stop = PlanView::fresh(systemd::stop_steps(session, label));
            &&& stop.effect() == Some(systemd::detect_effect())
            &&& stop.run(replies).effect() is None
            &&& stop.run(replies).outcome() == Some(Err::<(), ErrorView>(systemd::no_systemd()))
        }),
        ({
            let restart = PlanView::fresh(systemd::restart_steps(session, label));
            &&& restart.effect() == Some(systemd::detect_effect())
            &&& restart.run(replies).effect() is None
            &&& restart.run(replies).outcome() == Some(
                Err::<(), ErrorView>(systemd::no_systemd()),
            )
        }),
{
    lemma_detection_stops_install(session, spec, replies);
    lemma_detection_stops_plan(systemd::start_steps(session, label), replies);
    lemma_detection_stops_plan(systemd::stop_steps(session, label), replies);
    lemma_detection_stops_plan(systemd::restart_steps(session, label), replies);
}

/// On a host that systemd does not run, a question is not asked, and it is answered with an error
/// that says so, whatever is replied later.
pub proof fn nothing_is_asked_without_systemd<T>(
    command: InvocationView,
    answer: spec_fn(OutcomeView) -> Result<T, ErrorView>,
    later: ReplyView,
)
    ensures
        ({
            let question = QueryView::<T>::Detect { command };
            let end = QueryView::<T>::Finished { result: Err(systemd::no_systemd()) };
            &&& question.effect() == Some(systemd::detect_effect())
            &&& question.after(ReplyView::Flag(false), answer) == end
            &&& end.effect() is None
            &&& end.after(later, answer) == end
        }),
{
}

// ---------------------------------------------------------------------------------------------
// Best effort
// ---------------------------------------------------------------------------------------------
/// Whether the first replies say that the unit was put in its place.
pub open spec fn placed(
    session: SessionView,
    spec: ServiceSpecView,
    replies: Seq<ReplyView>,
) -> bool {
    let steps = systemd::install_steps(session, spec);
    &&& replies.len() >= steps.len()
    &&& forall|i: int| 0 <= i < steps.len() ==> (#[trigger] steps[i]).accepts(replies[i])
}

/// Whether the replies after the first ones say how a command went.
pub open spec fn commands_ran(
    session: SessionView,
    spec: ServiceSpecView,
    replies: Seq<ReplyView>,
) -> bool {
    forall|i: int|
        systemd::install_steps(session, spec).len() <= i < replies.len() ==> #[trigger] replies[i]
            is Ran
}

proof fn lemma_placing(session: SessionView, spec: ServiceSpecView, replies: Seq<ReplyView>)
    requires
        replies.len() < systemd::install_steps(session, spec).len(),
        forall|i: int|
            0 <= i < replies.len() ==> (#[trigger] systemd::install_steps(
                session,
                spec,
            )[i]).accepts(replies[i]),
    ensures
        InstallView::fresh(session, spec).run(replies) == (InstallView::Place {
            plan: PlanView {
                steps: systemd::install_steps(session, spec),
                at: replies.len(),
                error: None,
            },
            known: systemd::known_user(session),
        }),
    decreases replies.len(),
{
    let steps = systemd::install_steps(session, spec);
    if replies.len() > 0 {
        let before = replies.drop_last();
        let n = before.len() as int;
        assert forall|i: int| 0 <= i < before.len() implies (#[trigger] steps[i]).accepts(
            before[i],
        ) by {
            assert(before[i] == replies[i]);
        }
        lemma_placing(session, spec, before);
        assert(steps[n].accepts(replies[n]));
    }
}

proof fn lemma_placed(session: SessionView, spec: ServiceSpecView, replies: Seq<ReplyView>)
    requires
        placed(session, spec, replies),
        commands_ran(session, spec, replies),
    ensures
        ({
            let end = InstallView::fresh(session, spec).run(replies);
            let n = systemd::install_steps(session, spec).len();
            match systemd::known_user(session) {
                Some(user) => if replies.len() == n {
                    end == (InstallView::Linger { user })
                } else {
                    end == (InstallView::Finished { result: Ok::<(), ErrorView>(()) })
                },
                None => if replies.len() == n {
                    end == InstallView::Identify
                } else if replies.len() == n + 1 {
                    end == (InstallView::Linger { user: systemd::identified_user(replies.last()) })
                } else {
                    end == (InstallView::Finished { result: Ok::<(), ErrorView>(()) })
                },
            }
        }),
    decreases replies.len(),
{
    let steps = systemd::install_steps(session, spec);
    let n = steps.len() as int;
    let before = replies.drop_last();
    if replies.len() == n {
        assert forall|i: int| 0 <= i < before.len() implies (#[trigger] steps[i]).accepts(
            before[i],
        ) by {
            assert(before[i] == replies[i]);
        }
        lemma_placing(session, spec, before);
        assert(steps[n - 1].accepts(replies[n - 1]));
    } else {
        assert forall|i: int| 0 <= i < steps.len() implies (#[trigger] steps[i]).accepts(
            before[i],
        ) by {
            assert(before[i] == replies[i]);
        }
        lemma_placed(session, spec, before);
    }
}

/// Once the unit is in its place, an installation does not fail: lingering is asked for exactly
/// once, for the user whom the environment or else `id` names, and then it has ended well, however
/// the commands went.
pub proof fn lingering_is_best_effort(
    session: SessionView,
    spec: ServiceSpecView,
    replies: Seq<ReplyView>,
)
    requires
        placed(session, spec, replies),
        commands_ran(session, spec, replies),
    ensures
        ({
            let end = InstallView::fresh(session, spec).run(replies);
            let n = systemd::install_steps(session, spec).len();
            match systemd::known_user(session) {
                Some(user) => if replies.len() == n {
                    end.effect() == Some(
                        EffectView::RunAttached { command: systemd::linger_command(user) },
                    )
                } else {
                    end.outcome() == Some(Ok::<(), ErrorView>(())) && end.effect() is None
                },
                None => if replies.len() == n {
                    end.effect() == Some(EffectView::Run { command: systemd::id_command() })
                } else if replies.len() == n + 1 {
                    end.effect() == Some(
                        EffectView::RunAttached {
                            command: systemd::linger_command(
                                systemd::identified_user(replies.last()),
                            ),
                        },
                    )
                } else {
                    end.outcome() == Some(Ok::<(), ErrorView>(())) && end.effect() is None
                },
            }
        }),
{
    lemma_placed(session, spec, replies);
}

/// Whether an earlier failure could be cleared makes no difference to a restart.
pub proof fn restart_ignores_the_reset(
    session: SessionView,
    label: Seq<char>,
    reset: ReplyView,
    other: ReplyView,
    restarted: ReplyView,
)
    requires
        reset is Ran,
        other is Ran,
    ensures
        ({
            let plan = PlanView::fresh(systemd::restart_steps(session, label));
            let found = ReplyView::Flag(true);
            plan.after(found).after(reset).after(restarted) == plan.after(found).after(
                other,
            ).after(restarted)
        }),
{
}

// ---------------------------------------------------------------------------------------------
// The state of a unit
// ---------------------------------------------------------------------------------------------
/// The number of a process that a running unit is said to have is never zero.
pub proof fn running_pid_is_not_zero(output: Seq<char>, pid: u32)
    requires
        systemd::show_status(output) == (StatusView::Running { pid: Some(pid) }),
    ensures
        pid != 0,
{
}

/// A unit is said not to be installed exactly if its load state is missing, empty or unknown.
pub proof fn unknown_unit_is_not_installed(output: Seq<char>)
    ensures
        systemd::show_status(output) is NotInstalled <==> {
            let load = systemd::property(text::lines_of(output), "LoadState"@);
            load is None || load->0.len() == 0 || load->0 == "not-found"@
        },
{
}

// ---------------------------------------------------------------------------------------------
// Replies
// ---------------------------------------------------------------------------------------------
/// A reply of a kind that was not due changes nothing.
pub proof fn units_await_their_replies<T>(
    install: InstallView,
    question: QueryView<T>,
    answer: spec_fn(OutcomeView) -> Result<T, ErrorView>,
    reply: ReplyView,
)
    requires
        install matches InstallView::Place { plan, .. } ==> plan.outcome() is None,
    ensures
        (install.effect() matches Some(effect) ==> !effect.answered_by(reply)) ==> install.after(
            reply,
        ) == install,
        (question.effect() matches Some(effect) ==> !effect.answered_by(reply)) ==> question.after(
            reply,
            answer,
        ) == question,
{
}

} // verus!
