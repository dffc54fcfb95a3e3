//! Laws of the models: nothing that a value holds is lost or changed in its model.

use crate::effect;
use crate::effect::{Effect, EffectView, Invocation, Outcome, OutcomeView, Reply, ReplyView};
use crate::launchd;
use crate::launchd::{AgentLogsView, AgentStatusView, LaunchdLogs, LaunchdStatus};
use crate::plan;
use crate::plan::{Check, CheckView, Step};
use crate::service;
use crate::service::{
    Error, ErrorView, ProcessType, ServiceSpec, ServiceStatus, StatusView,
};
use crate::session::{Session, SessionView};
use crate::systemd;
use crate::systemd::{InstallView, QueryView, SystemdInstall, SystemdLogs, SystemdStatus};
use crate::text;
use vstd::prelude::*;

verus! {

/// Whether `model` is the list of the texts in `list`.
pub open spec fn models_texts(list: Seq<String>, model: Seq<Seq<char>>) -> bool {
    &&& model.len() == list.len()
    &&& forall|i: int| 0 <= i < list.len() ==> #[trigger] model[i] == list[i]@
}

/// Whether `model` is the list of the pairs of texts in `list`.
pub open spec fn models_pairs(
    list: Seq<(String, String)>,
    model: Seq<(Seq<char>, Seq<char>)>,
) -> bool {
    &&& model.len() == list.len()
    &&& forall|i: int|
        0 <= i < list.len() ==> (#[trigger] model[i]).0 == list[i].0@ && model[i].1 == list[i].1@
}

/// Whether `model` is the text in `o`, if there is one.
pub open spec fn models_option(o: Option<String>, model: Option<Seq<char>>) -> bool {
    match (o, model) {
        (Some(s), Some(m)) => m == s@,
        (None, None) => true,
        _ => false,
    }
}

/// Lists, pairs and options of text are modelled element by element.
pub proof fn lists_are_modelled(
    list: Seq<String>,
    slices: Seq<&str>,
    pairs: Seq<(String, String)>,
    o: Option<String>,
)
    ensures
        models_texts(list, text::texts(list)),
        text::str_texts(slices).len() == slices.len(),
        forall|i: int|
            0 <= i < slices.len() ==> #[trigger] text::str_texts(slices)[i] == slices[i]@,
        models_pairs(pairs, service::pairs(pairs)),
        models_option(o, text::opt_text(o)),
{
}

/// A service is modelled field by field.
pub proof fn services_are_modelled(spec: ServiceSpec)
    ensures
        spec@.label == spec.label@,
        spec@.program == spec.program@,
        models_texts(spec.args@, spec@.args),
        models_texts(
            spec.associated_bundle_identifiers@,
            spec@.associated_bundle_identifiers,
        ),
        models_option(spec.working_dir, spec@.working_dir),
        models_pairs(spec.env@, spec@.env),
        spec@.run_at_load == spec.run_at_load,
        spec@.keep_alive == spec.keep_alive,
        models_option(spec.log_path, spec@.log_path),
        spec@.process_type == spec.process_type,
{
}

/// A service starts out with its label and its program, starts at login, is kept alive, belongs to
/// the background class, and has nothing else; the classes have the names that launchd gives them.
pub proof fn services_have_their_defaults(label: Seq<char>, program: Seq<char>)
    ensures
        ({
            let plain = service::plain_service(label, program);
            &&& plain.label == label
            &&& plain.program == program
            &&& plain.args.len() == 0
            &&& plain.associated_bundle_identifiers.len() == 0
            &&& plain.working_dir is None
            &&& plain.env.len() == 0
            &&& plain.run_at_load
            &&& plain.keep_alive
            &&& plain.log_path is None
            &&& plain.process_type == ProcessType::Background
        }),
        ProcessType::Background.name() == "Background"@,
        ProcessType::Standard.name() == "Standard"@,
{
}

/// A session is modelled field by field.
pub proof fn sessions_are_modelled(session: Session)
    ensures
        session@.uid == session.uid,
        models_option(session.home, session@.home),
        models_option(session.runtime_dir, session@.runtime_dir),
        models_option(session.bus_address, session@.bus_address),
        models_option(session.user, session@.user),
        models_option(session.logname, session@.logname),
{
}

/// A status, an error and a result are modelled variant by variant.
pub proof fn answers_are_modelled(
    status: ServiceStatus,
    error: Error,
    done: Result<(), Error>,
    told: Result<ServiceStatus, Error>,
    read: Result<String, Error>,
)
    ensures
        match status {
            ServiceStatus::NotInstalled => status@ is NotInstalled,
            ServiceStatus::Stopped => status@ is Stopped,
            ServiceStatus::Running { pid } => status@ == (StatusView::Running { pid }),
            ServiceStatus::Failed { reason } => status@ == (StatusView::Failed { reason: reason@ }),
        },
        match error {
            Error::Command(m) => error@ == ErrorView::Command(m@),
            Error::Unsupported(m) => error@ == ErrorView::Unsupported(m@),
            Error::Io(m) => error@ == ErrorView::Io(m@),
        },
        match done {
            Ok(()) => plan::unit_result(done) == Ok::<(), ErrorView>(()),
            Err(e) => plan::unit_result(done) == Err::<(), ErrorView>(e@),
        },
        plan::opt_unit_result(Some(done)) == Some(plan::unit_result(done)),
        plan::opt_unit_result(None) is None,
        match told {
            Ok(s) => service::status_result(told) == Ok::<StatusView, ErrorView>(s@),
            Err(e) => service::status_result(told) == Err::<StatusView, ErrorView>(e@),
        },
        match read {
            Ok(s) => service::text_result(read) == Ok::<Seq<char>, ErrorView>(s@),
            Err(e) => service::text_result(read) == Err::<Seq<char>, ErrorView>(e@),
        },
        effect::opt_error(Some(error)) == Some(error@),
        effect::opt_error(None) is None,
{
}

/// A command and an effect are modelled field by field.
pub proof fn effects_are_modelled(command: Invocation, effect: Effect)
    ensures
        command@.program == command.program@,
        models_texts(command.args@, command@.args),
        models_pairs(command.env@, command@.env),
        match effect {
            Effect::IsDir { path } => effect@ == (EffectView::IsDir { path: path@ }),
            Effect::Exists { path } => effect@ == (EffectView::Exists { path: path@ }),
            Effect::CreateDir { path } => effect@ == (EffectView::CreateDir { path: path@ }),
            Effect::CreateParent { path } => effect@ == (EffectView::CreateParent { path: path@ }),
            Effect::Write { path, contents } => effect@ == (EffectView::Write {
                path: path@,
                contents: contents@,
            }),
            Effect::Read { path } => effect@ == (EffectView::Read { path: path@ }),
            Effect::Run { command } => effect@ == (EffectView::Run { command: command@ }),
            Effect::RunAttached { command } => effect@ == (EffectView::RunAttached {
                command: command@,
            }),
            Effect::StartTimer => effect@ is StartTimer,
            Effect::ReadTimer => effect@ is ReadTimer,
            Effect::Sleep { millis } => effect@ == (EffectView::Sleep { millis }),
        },
        effect::opt_effect(Some(effect)) == Some(effect@),
        effect::opt_effect(None) is None,
{
}

/// A reply is modelled variant by variant; yes is yes, and a command succeeded exactly if it ran
/// and its exit code is zero.
pub proof fn replies_are_modelled(outcome: Outcome, reply: Reply)
    ensures
        match outcome {
            Outcome::NotStarted { error } => outcome@ == (OutcomeView::NotStarted {
                error: error@,
            }) && !outcome@.success(),
            Outcome::Exited { code, stdout, stderr } => outcome@ == (OutcomeView::Exited {
                code,
                stdout: stdout@,
                stderr: stderr@,
            }) && (outcome@.success() <==> code == Some(0i32)),
        },
        match reply {
            Reply::Flag(b) => reply@ == ReplyView::Flag(b) && (reply@.yes() <==> b),
            Reply::Done => reply@ is Done,
            Reply::Failed(m) => reply@ == ReplyView::Failed(m@),
            Reply::Contents(s) => reply@ == ReplyView::Contents(s@),
            Reply::Ran(o) => reply@ == ReplyView::Ran(o@) && (reply@.success() <==> o@.success()),
            Reply::Elapsed(ms) => reply@ == ReplyView::Elapsed(ms),
        },
        !(reply is Flag) ==> !reply@.yes(),
        !(reply is Ran) ==> !reply@.success(),
{
}

/// Which kinds of replies an effect can have: a question a flag, a change of files that it was done
/// or failed, a read the contents or a failure, a command its outcome, and time what it takes.
pub proof fn effects_have_their_replies(
    path: Seq<char>,
    contents: Seq<char>,
    command: effect::InvocationView,
    millis: u64,
    reply: ReplyView,
)
    ensures
        (EffectView::IsDir { path }).answered_by(reply) <==> reply is Flag,
        (EffectView::Exists { path }).answered_by(reply) <==> reply is Flag,
        (EffectView::CreateDir { path }).answered_by(reply) <==> reply is Done || reply is Failed,
        (EffectView::CreateParent { path }).answered_by(reply) <==> reply is Done || reply is Failed,
        (EffectView::Write { path, contents }).answered_by(reply) <==> reply is Done
            || reply is Failed,
        (EffectView::Read { path }).answered_by(reply) <==> reply is Contents || reply is Failed,
        (EffectView::Run { command }).answered_by(reply) <==> reply is Ran,
        (EffectView::RunAttached { command }).answered_by(reply) <==> reply is Ran,
        EffectView::StartTimer.answered_by(reply) <==> reply is Done,
        EffectView::ReadTimer.answered_by(reply) <==> reply is Elapsed,
        (EffectView::Sleep { millis }).answered_by(reply) <==> reply is Done,
{
}

/// A step is modelled field by field.
pub proof fn steps_are_modelled(step: Step, steps: Seq<Step>)
    ensures
        step@.effect == step.effect@,
        match step.check {
            Check::Ignored => step@.check is Ignored,
            Check::Required { error } => step@.check == (CheckView::Required { error: error@ }),
            Check::Completed => step@.check is Completed,
            Check::Started { context } => step@.check == (CheckView::Started {
                context: context@,
            }),
            Check::Succeeded { context } => step@.check == (CheckView::Succeeded {
                context: context@,
            }),
        },
        plan::step_views(steps).len() == steps.len(),
        forall|i: int| 0 <= i < steps.len() ==> #[trigger] plan::step_views(steps)[i] == steps[i]@,
{
}

/// The operations that are not plans are modelled variant by variant.
pub proof fn operations_are_modelled(
    install: SystemdInstall,
    status: SystemdStatus,
    logs: SystemdLogs,
    agent_status: LaunchdStatus,
    agent_logs: LaunchdLogs,
)
    ensures
        match install {
            SystemdInstall::Place { plan, known } => install@ matches InstallView::Place {
                plan: p,
                known: k,
            } && p == plan@ && models_option(known, k),
            SystemdInstall::Identify => install@ is Identify,
            SystemdInstall::Linger { user } => install@ == (InstallView::Linger { user: user@ }),
            SystemdInstall::Finished { result } => install@ == (InstallView::Finished {
                result: plan::unit_result(result),
            }),
        },
        match status {
            SystemdStatus::Detect { command } => status@ == (QueryView::<StatusView>::Detect {
                command: command@,
            }),
            SystemdStatus::Show { command } => status@ == (QueryView::<StatusView>::Ask {
                command: command@,
            }),
            SystemdStatus::Finished { result } => status@ == (QueryView::Finished {
                result: service::status_result(result),
            }),
        },
        match logs {
            SystemdLogs::Detect { command } => logs@ == (QueryView::<Seq<char>>::Detect {
                command: command@,
            }),
            SystemdLogs::Journal { command } => logs@ == (QueryView::<Seq<char>>::Ask {
                command: command@,
            }),
            SystemdLogs::Finished { result } => logs@ == (QueryView::Finished {
                result: service::text_result(result),
            }),
        },
        match agent_status {
            LaunchdStatus::CheckInstalled { plist, command } => agent_status@ == (
            AgentStatusView::CheckInstalled { plist: plist@, command: command@ }),
            LaunchdStatus::Print { command } => agent_status@ == (AgentStatusView::Print {
                command: command@,
            }),
            LaunchdStatus::Finished { result } => agent_status@ == (AgentStatusView::Finished {
                result: service::status_result(result),
            }),
        },
        match agent_logs {
            LaunchdLogs::Extract { plist, default, lines } => agent_logs@ == (
            AgentLogsView::Extract { plist: plist@, default: default@, lines }),
            LaunchdLogs::CheckLog { log, lines } => agent_logs@ == (AgentLogsView::CheckLog {
                log: log@,
                lines,
            }),
            LaunchdLogs::ReadLog { log, lines } => agent_logs@ == (AgentLogsView::ReadLog {
                log: log@,
                lines,
            }),
            LaunchdLogs::Finished { result } => agent_logs@ == (AgentLogsView::Finished {
                result: service::text_result(result),
            }),
        },
{
}

/// A plain command is its program and its arguments, in an unchanged environment; a `launchctl` and
/// a `systemctl` command hand their arguments on as they are.
pub proof fn commands_hand_their_arguments_on(
    session: SessionView,
    program: Seq<char>,
    args: Seq<Seq<char>>,
)
    ensures
        effect::plain_command(program, args).program == program,
        effect::plain_command(program, args).args == args,
        effect::plain_command(program, args).env.len() == 0,
        launchd::launchctl_command(args).program == "launchctl"@,
        launchd::launchctl_command(args).args == args,
        launchd::launchctl_command(args).env.len() == 0,
        systemd::systemctl_command(session, args).program == "systemctl"@,
        systemd::systemctl_command(session, args).args == seq!["--user"@] + args,
        systemd::systemctl_command(session, args).env == systemd::manager_env(session),
{
}

} // verus!
