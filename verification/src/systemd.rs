//! Linux: units of the user's systemd manager.
//!
//! A unit lives in `~/.config/systemd/user/<label>.service`, so no privileges are needed. Every
//! `systemctl` and `journalctl` command carries `XDG_RUNTIME_DIR` and `DBUS_SESSION_BUS_ADDRESS`,
//! so that it reaches the user's manager from a remote or non-login shell. Lingering keeps the
//! manager alive across logout and starts it at boot.

use crate::effect;
use crate::effect::{
    Effect, EffectView, Invocation, InvocationView, Outcome, OutcomeView, Reply, ReplyView,
};
use crate::path;
use crate::plan;
use crate::plan::{Check, CheckView, Plan, PlanView, Step, StepView};
use crate::render;
use crate::service;
use crate::service::{
    Error, ErrorView, ServiceSpec, ServiceSpecView, ServiceStatus, StatusView,
};
use crate::session::{Session, SessionView};
use crate::text;
use vstd::prelude::*;
use vstd::string::*;
use vstd::utf8::*;

verus! {

/// The user's systemd manager.
#[derive(Clone, Copy, Debug)]
pub struct SystemdUser;

// ---------------------------------------------------------------------------------------------
// Names and places
// ---------------------------------------------------------------------------------------------
/// The user's home directory. Without `HOME` it is that of the superuser.
pub open spec fn home_dir(session: SessionView) -> Seq<char> {
    match session.home {
        Some(home) => home,
        None => "/root"@,
    }
}

/// The directory of the user's units.
pub open spec fn unit_directory(session: SessionView) -> Seq<char> {
    path::join_path(home_dir(session), ".config/systemd/user"@)
}

/// The file of the unit of a service.
pub open spec fn unit_file(session: SessionView, label: Seq<char>) -> Seq<char> {
    path::join_path(unit_directory(session), label + ".service"@)
}

/// The directory of the user's units.
pub fn unit_dir(session: &Session) -> (r: String)
    ensures
        r@ == unit_directory(session@),
{
    match &session.home {
        Some(home) => path::join(home.as_str(), ".config/systemd/user"),
        None => path::join("/root", ".config/systemd/user"),
    }
}

/// The file of the unit of a service.
pub fn unit_path(session: &Session, label: &str) -> (r: String)
    ensures
        r@ == unit_file(session@, label@),
{
    let dir = unit_dir(session);
    let mut name = label.to_owned();
    name.append(".service");
    path::join(dir.as_str(), name.as_str())
}

/// The name of the unit of a service: the label, with the suffix `.service` unless it has it.
pub open spec fn unit_name(label: Seq<char>) -> Seq<char> {
    if text::has_suffix(label, ".service"@) {
        label
    } else {
        label + ".service"@
    }
}

/// The name of the unit of a service.
pub fn svc(label: &str) -> (r: String)
    ensures
        r@ == unit_name(label@),
{
    let mut r = label.to_owned();
    if !text::ends_with(label, ".service") {
        r.append(".service");
    }
    r
}

/// The runtime directory of the user.
pub open spec fn runtime_directory(session: SessionView) -> Seq<char> {
    match session.runtime_dir {
        Some(dir) => dir,
        None => "/run/user/"@ + text::decimal_text(session.uid as nat),
    }
}

/// The address of the user's message bus.
pub open spec fn bus_location(session: SessionView) -> Seq<char> {
    match session.bus_address {
        Some(address) => address,
        None => "unix:path="@ + runtime_directory(session) + "/bus"@,
    }
}

/// The runtime directory of the user.
pub fn runtime_dir(session: &Session) -> (r: String)
    ensures
        r@ == runtime_directory(session@),
{
    match &session.runtime_dir {
        Some(dir) => dir.clone(),
        None => {
            let mut r = "/run/user/".to_owned();
            let uid = text::decimal(session.uid as u64);
            r.append(uid.as_str());
            r
        },
    }
}

/// The address of the user's message bus.
pub fn bus_address(session: &Session) -> (r: String)
    ensures
        r@ == bus_location(session@),
{
    match &session.bus_address {
        Some(address) => address.clone(),
        None => {
            let mut r = "unix:path=".to_owned();
            let dir = runtime_dir(session);
            r.append(dir.as_str());
            r.append("/bus");
            r
        },
    }
}

// ---------------------------------------------------------------------------------------------
// Commands
// ---------------------------------------------------------------------------------------------
/// The variables by which a command finds the user's manager from any shell.
pub open spec fn manager_env(session: SessionView) -> Seq<(Seq<char>, Seq<char>)> {
    seq![
        ("XDG_RUNTIME_DIR"@, runtime_directory(session)),
        ("DBUS_SESSION_BUS_ADDRESS"@, bus_location(session)),
    ]
}

/// The same command, which finds the user's manager from any shell.
fn for_manager(command: Invocation, session: &Session) -> (r: Invocation)
    requires
        command@.env.len() == 0,
    ensures
        r@ == (InvocationView { env: manager_env(session@), ..command@ }),
{
    let xdg = runtime_dir(session);
    let bus = bus_address(session);
    let c = command.with_env("XDG_RUNTIME_DIR", xdg.as_str());
    let c = c.with_env("DBUS_SESSION_BUS_ADDRESS", bus.as_str());
    assert(c@.env =~= manager_env(session@));
    c
}

/// A `systemctl --user` command.
pub open spec fn systemctl_command(session: SessionView, args: Seq<Seq<char>>) -> InvocationView {
    InvocationView {
        program: "systemctl"@,
        args: seq!["--user"@] + args,
        env: manager_env(session),
    }
}

/// A `systemctl --user` command.
pub fn systemctl(session: &Session, args: &[&str]) -> (r: Invocation)
    ensures
        r@ == systemctl_command(session@, text::str_texts(args@)),
{
    let mut list: Vec<String> = Vec::new();
    list.push("--user".to_owned());
    let mut rest = text::words(args);
    list.append(&mut rest);
    assert(text::texts(list@) =~= seq!["--user"@] + text::str_texts(args@));
    let c = Invocation { program: "systemctl".to_owned(), args: list, env: Vec::new() };
    for_manager(c, session)
}

/// The command that shows the state of a unit.
pub open spec fn show_command(session: SessionView, label: Seq<char>) -> InvocationView {
    systemctl_command(
        session,
        seq![
            "show"@,
            unit_name(label),
            "-p"@,
            "LoadState,ActiveState,SubState,ExecMainPID,Result"@,
        ],
    )
}

/// The command that shows the last lines that a unit wrote to the journal.
pub open spec fn journal_command(
    session: SessionView,
    label: Seq<char>,
    lines: nat,
) -> InvocationView {
    InvocationView {
        program: "journalctl"@,
        args: seq![
            "--user"@,
            "-u"@,
            unit_name(label),
            "-n"@,
            text::decimal_text(lines),
            "--no-pager"@,
        ],
        env: manager_env(session),
    }
}

fn show(session: &Session, label: &str) -> (r: Invocation)
    ensures
        r@ == show_command(session@, label@),
{
    let unit = svc(label);
    let args = [
        "show",
        unit.as_str(),
        "-p",
        "LoadState,ActiveState,SubState,ExecMainPID,Result",
    ];
    proof {
        assert(text::str_texts(args@) =~= seq![
            "show"@,
            unit_name(label@),
            "-p"@,
            "LoadState,ActiveState,SubState,ExecMainPID,Result"@,
        ]);
    }
    systemctl(session, &args)
}

fn journalctl(session: &Session, label: &str, lines: usize) -> (r: Invocation)
    ensures
        r@ == journal_command(session@, label@, lines as nat),
{
    let unit = svc(label);
    let n = text::decimal(lines as u64);
    let args = ["--user", "-u", unit.as_str(), "-n", n.as_str(), "--no-pager"];
    proof {
        let goal = journal_command(session@, label@, lines as nat);
        assert(text::str_texts(args@) =~= goal.args);
    }
    for_manager(Invocation::new("journalctl", &args), session)
}

// ---------------------------------------------------------------------------------------------
// Detection
// ---------------------------------------------------------------------------------------------
/// The error on a host that systemd does not run.
pub open spec fn no_systemd() -> ErrorView {
    ErrorView::Unsupported(
        "daemon-green: systemd not detected (/run/systemd/system missing) — user-service management unsupported on this host"@,
    )
}

fn no_systemd_error() -> (r: Error)
    ensures
        r@ == no_systemd(),
{
    Error::Unsupported(
        "daemon-green: systemd not detected (/run/systemd/system missing) — user-service management unsupported on this host".to_owned(),
    )
}

/// The effect that finds out whether systemd runs the host.
pub open spec fn detect_effect() -> EffectView {
    EffectView::IsDir { path: "/run/systemd/system"@ }
}

/// The step that every operation starts with.
pub open spec fn detect_step() -> StepView {
    StepView { effect: detect_effect(), check: CheckView::Required { error: no_systemd() } }
}

fn detect() -> (r: Effect)
    ensures
        r@ == detect_effect(),
{
    Effect::IsDir { path: "/run/systemd/system".to_owned() }
}

/// The step of a command that must succeed.
pub open spec fn command_step(command: InvocationView, context: Seq<char>) -> StepView {
    StepView { effect: EffectView::Run { command }, check: CheckView::Succeeded { context } }
}

fn succeed(command: Invocation, context: &str) -> (r: Step)
    ensures
        r@ == command_step(command@, context@),
{
    Step { effect: Effect::Run { command }, check: Check::Succeeded { context: context.to_owned() } }
}

// ---------------------------------------------------------------------------------------------
// The state of a unit
// ---------------------------------------------------------------------------------------------
/// The trimmed value that the last of the lines `key=value` gives for `key`.
pub open spec fn property(lines: Seq<Seq<char>>, key: Seq<char>) -> Option<Seq<char>>
    decreases lines.len(),
{
    if lines.len() == 0 {
        None
    } else {
        match text::split_at_first(lines.last(), '=') {
            Some((k, v)) => if text::trim_text(k) == key {
                Some(text::trim_text(v))
            } else {
                property(lines.drop_last(), key)
            },
            None => property(lines.drop_last(), key),
        }
    }
}

/// The number of the main process: a number other than zero.
pub open spec fn main_pid(value: Option<Seq<char>>) -> Option<u32> {
    match value {
        Some(v) => match text::parsed_u32(v) {
            Some(pid) => if pid != 0 {
                Some(pid)
            } else {
                None
            },
            None => None,
        },
        None => None,
    }
}

/// The status that the properties of a unit amount to.
pub open spec fn unit_status(
    load: Option<Seq<char>>,
    active: Option<Seq<char>>,
    pid: Option<Seq<char>>,
    result: Option<Seq<char>>,
) -> StatusView {
    if load is None || load == Some("not-found"@) || load->0.len() == 0 {
        StatusView::NotInstalled
    } else if active == Some("active"@) || active == Some("activating"@) {
        StatusView::Running { pid: main_pid(pid) }
    } else if active == Some("failed"@) {
        StatusView::Failed {
            reason: match result {
                Some(r) => r,
                None => "failed"@,
            },
        }
    } else {
        StatusView::Stopped
    }
}

/// The status that the output of `systemctl show` amounts to.
pub open spec fn show_status(output: Seq<char>) -> StatusView {
    let lines = text::lines_of(output);
    unit_status(
        property(lines, "LoadState"@),
        property(lines, "ActiveState"@),
        property(lines, "ExecMainPID"@),
        property(lines, "Result"@),
    )
}

/// The trimmed value that the last of the lines `key=value` gives for `key`.
fn last_property(lines: &Vec<String>, key: &str) -> (r: Option<String>)
    ensures
        text::opt_text(r) == property(text::texts(lines@), key@),
{
    let ghost all = text::texts(lines@);
    let mut i: usize = lines.len();
    assert(all.take(i as int) =~= all);
    while i > 0
        invariant
            i <= lines.len(),
            all == text::texts(lines@),
            property(all.take(i as int), key@) == property(all, key@),
        decreases i,
    {
        assert(all.take(i as int).drop_last() =~= all.take(i - 1));
        assert(all.take(i as int).last() == lines@[i - 1]@);
        if let Some((k, v)) = text::split_once(lines[i - 1].as_str(), '=') {
            let k = text::trim(k.as_str());
            if text::same_text(k.as_str(), key) {
                return Some(text::trim(v.as_str()));
            }
        }
        i -= 1;
    }
    None
}

/// Whether an optional text is the given one.
fn is_text(o: &Option<String>, s: &str) -> (r: bool)
    ensures
        r == (text::opt_text(*o) == Some(s@)),
{
    match o {
        Some(t) => text::same_text(t.as_str(), s),
        None => false,
    }
}

/// The status that the output of `systemctl show` amounts to.
pub fn parse_show(output: &str) -> (r: ServiceStatus)
    ensures
        r@ == show_status(output@),
{
    let lines = text::lines(output);
    let load = last_property(&lines, "LoadState");
    let installed = match &load {
        Some(l) => !l.as_str().is_empty() && !text::same_text(l.as_str(), "not-found"),
        None => false,
    };
    if !installed {
        return ServiceStatus::NotInstalled;
    }
    let active = last_property(&lines, "ActiveState");
    if is_text(&active, "active") || is_text(&active, "activating") {
        let pid = match last_property(&lines, "ExecMainPID") {
            Some(p) => match text::parse_u32(p.as_str()) {
                Some(n) => {
                    if n != 0 {
                        Some(n)
                    } else {
                        None
                    }
                },
                None => None,
            },
            None => None,
        };
        ServiceStatus::Running { pid }
    } else if is_text(&active, "failed") {
        let reason = match last_property(&lines, "Result") {
            Some(r) => r,
            None => "failed".to_owned(),
        };
        ServiceStatus::Failed { reason }
    } else {
        ServiceStatus::Stopped
    }
}

// ---------------------------------------------------------------------------------------------
// Install
// ---------------------------------------------------------------------------------------------
/// The steps that put the unit of a service in its place.
pub open spec fn install_steps(session: SessionView, spec: ServiceSpecView) -> Seq<StepView> {
    seq![
        detect_step(),
        StepView {
            effect: EffectView::CreateDir { path: unit_directory(session) },
            check: CheckView::Completed,
        },
        StepView {
            effect: EffectView::Write {
                path: unit_file(session, spec.label),
                contents: render::text_of_lines(render::unit_lines(spec)),
            },
            check: CheckView::Completed,
        },
        command_step(
            systemctl_command(session, seq!["daemon-reload"@]),
            "systemctl --user daemon-reload"@,
        ),
    ]
}

/// The name of the user that the environment gives.
pub open spec fn known_user(session: SessionView) -> Option<Seq<char>> {
    match session.user {
        Some(name) => Some(name),
        None => session.logname,
    }
}

/// The name of the user that the output of `id` gives: its trimmed text, or nothing if it could
/// not be run or wrote something other than text.
pub open spec fn identified_user(reply: ReplyView) -> Seq<char> {
    match reply {
        ReplyView::Ran(OutcomeView::Exited { stdout, .. }) => if valid_utf8(stdout) {
            text::trim_text(decode_utf8(stdout))
        } else {
            Seq::empty()
        },
        _ => Seq::empty(),
    }
}

/// The name of the user that the environment gives.
pub fn user_from_env(session: &Session) -> (r: Option<String>)
    ensures
        text::opt_text(r) == known_user(session@),
{
    match &session.user {
        Some(name) => Some(name.clone()),
        None => text::copy_opt(&session.logname),
    }
}

/// The name of the user that the output of `id` gives.
pub fn user_from_id(reply: Reply) -> (r: String)
    ensures
        r@ == identified_user(reply@),
{
    match reply {
        Reply::Ran(Outcome::Exited { stdout, .. }) => match text::strict_text(stdout) {
            Some(name) => text::trim(name.as_str()),
            None => String::new(),
        },
        _ => String::new(),
    }
}

/// The installation of a unit. Once the unit is in its place, lingering is asked for; whether it
/// is granted does not matter, as the service works without it while the user is logged in.
#[derive(Debug)]
pub enum SystemdInstall {
    /// The unit is put in its place. The name of the user may be known.
    Place { plan: Plan, known: Option<String> },
    /// The name of the user is asked for.
    Identify,
    /// Lingering is asked for.
    Linger { user: String },
    /// It is over.
    Finished { result: Result<(), Error> },
}

/// The model of a [`SystemdInstall`].
pub enum InstallView {
    Place { plan: PlanView, known: Option<Seq<char>> },
    Identify,
    Linger { user: Seq<char> },
    Finished { result: Result<(), ErrorView> },
}

impl View for SystemdInstall {
    type V = InstallView;

    open spec fn view(&self) -> InstallView {
        match self {
            SystemdInstall::Place { plan, known } => InstallView::Place {
                plan: plan@,
                known: text::opt_text(*known),
            },
            SystemdInstall::Identify => InstallView::Identify,
            SystemdInstall::Linger { user } => InstallView::Linger { user: user@ },
            SystemdInstall::Finished { result } => InstallView::Finished {
                result: plan::unit_result(*result),
            },
        }
    }
}

/// The command that names the user.
pub open spec fn id_command() -> InvocationView {
    effect::plain_command("id"@, seq!["-un"@])
}

/// The command that asks for lingering.
pub open spec fn linger_command(user: Seq<char>) -> InvocationView {
    effect::plain_command("loginctl"@, seq!["enable-linger"@, user])
}

impl InstallView {
    /// The installation of a service of which nothing was done.
    pub open spec fn fresh(session: SessionView, spec: ServiceSpecView) -> InstallView {
        InstallView::Place {
            plan: PlanView::fresh(install_steps(session, spec)),
            known: known_user(session),
        }
    }

    /// What is to be done next, unless it is over.
    pub open spec fn effect(self) -> Option<EffectView> {
        match self {
            InstallView::Place { plan, .. } => plan.effect(),
            InstallView::Identify => Some(EffectView::Run { command: id_command() }),
            InstallView::Linger { user } => Some(
                EffectView::RunAttached { command: linger_command(user) },
            ),
            InstallView::Finished { .. } => None,
        }
    }

    /// The installation after the reply to what was to be done. A reply of another kind leaves it
    /// to be done.
    pub open spec fn after(self, reply: ReplyView) -> InstallView {
        match self {
            InstallView::Place { plan, known } => match plan.after(reply).outcome() {
                None => InstallView::Place { plan: plan.after(reply), known },
                Some(Err(e)) => InstallView::Finished { result: Err(e) },
                Some(Ok(())) => match known {
                    Some(user) => InstallView::Linger { user },
                    None => InstallView::Identify,
                },
            },
            InstallView::Identify => match reply {
                ReplyView::Ran(_) => InstallView::Linger { user: identified_user(reply) },
                _ => self,
            },
            InstallView::Linger { .. } => match reply {
                ReplyView::Ran(_) => InstallView::Finished { result: Ok(()) },
                _ => self,
            },
            InstallView::Finished { .. } => self,
        }
    }

    /// How the installation ended, if it has.
    pub open spec fn outcome(self) -> Option<Result<(), ErrorView>> {
        match self {
            InstallView::Finished { result } => Some(result),
            _ => None,
        }
    }

    /// The installation after a sequence of replies.
    pub open spec fn run(self, replies: Seq<ReplyView>) -> InstallView
        decreases replies.len(),
    {
        if replies.len() == 0 {
            self
        } else {
            self.run(replies.drop_last()).after(replies.last())
        }
    }
}

impl SystemdInstall {
    /// What is to be done next, unless it is over.
    pub fn pending(&self) -> (r: Option<Effect>)
        ensures
            effect::opt_effect(r) == self@.effect(),
    {
        match self {
            SystemdInstall::Place { plan, .. } => plan.pending(),
            SystemdInstall::Identify => {
                let args = ["-un"];
                assert(text::str_texts(args@) =~= seq!["-un"@]);
                Some(Effect::Run { command: Invocation::new("id", &args) })
            },
            SystemdInstall::Linger { user } => {
                let args = ["enable-linger", user.as_str()];
                assert(text::str_texts(args@) =~= seq!["enable-linger"@, user@]);
                Some(Effect::RunAttached { command: Invocation::new("loginctl", &args) })
            },
            SystemdInstall::Finished { .. } => None,
        }
    }

    /// Takes the reply to what was to be done.
    pub fn resume(self, reply: Reply) -> (r: SystemdInstall)
        ensures
            r@ == self@.after(reply@),
    {
        match self {
            SystemdInstall::Place { plan, known } => {
                let plan = plan.resume(reply);
                match plan.outcome() {
                    None => SystemdInstall::Place { plan, known },
                    Some(Ok(())) => match known {
                        Some(user) => SystemdInstall::Linger { user },
                        None => SystemdInstall::Identify,
                    },
                    Some(Err(e)) => SystemdInstall::Finished { result: Err(e) },
                }
            },
            SystemdInstall::Identify => match reply {
                Reply::Ran(outcome) => SystemdInstall::Linger {
                    user: user_from_id(Reply::Ran(outcome)),
                },
                _ => SystemdInstall::Identify,
            },
            SystemdInstall::Linger { user } => match reply {
                Reply::Ran(_) => SystemdInstall::Finished { result: Ok(()) },
                _ => SystemdInstall::Linger { user },
            },
            SystemdInstall::Finished { result } => SystemdInstall::Finished { result },
        }
    }

    /// How the installation ended, if it has.
    pub fn outcome(self) -> (r: Option<Result<(), Error>>)
        ensures
            plan::opt_unit_result(r) == self@.outcome(),
    {
        match self {
            SystemdInstall::Finished { result } => Some(result),
            _ => None,
        }
    }
}

// ---------------------------------------------------------------------------------------------
// Status and logs
// ---------------------------------------------------------------------------------------------
/// The message of a command that could not be started.
pub open spec fn spawn_failure(context: Seq<char>, error: Seq<char>) -> ErrorView {
    ErrorView::Command(context + ": spawn failed: "@ + error)
}

fn spawn_error(context: &str, error: &str) -> (r: Error)
    ensures
        r@ == spawn_failure(context@, error@),
{
    let mut m = context.to_owned();
    m.append(": spawn failed: ");
    m.append(error);
    Error::Command(m)
}

/// The status that running `systemctl show` amounts to. The command succeeds for a unit that is
/// not loaded, too, so only its output counts.
pub open spec fn shown_status(outcome: OutcomeView) -> Result<StatusView, ErrorView> {
    match outcome {
        OutcomeView::NotStarted { error } => Err(spawn_failure("systemctl --user show"@, error)),
        OutcomeView::Exited { stdout, .. } => Ok(show_status(text::utf8_lossy(stdout))),
    }
}

/// The log that running `journalctl` amounts to.
pub open spec fn shown_log(outcome: OutcomeView) -> Result<Seq<char>, ErrorView> {
    match outcome {
        OutcomeView::NotStarted { error } => Err(spawn_failure("journalctl --user"@, error)),
        OutcomeView::Exited { stdout, .. } => Ok(text::utf8_lossy(stdout)),
    }
}

/// The question how a unit is doing.
#[derive(Debug)]
pub enum SystemdStatus {
    /// It is found out whether systemd runs the host.
    Detect { command: Invocation },
    /// The state of the unit is asked for.
    Show { command: Invocation },
    /// It is over.
    Finished { result: Result<ServiceStatus, Error> },
}

/// The question for the log of a unit.
#[derive(Debug)]
pub enum SystemdLogs {
    /// It is found out whether systemd runs the host.
    Detect { command: Invocation },
    /// The journal is asked for.
    Journal { command: Invocation },
    /// It is over.
    Finished { result: Result<String, Error> },
}

/// The model of a question: a command that is run on a host that systemd runs.
pub enum QueryView<T> {
    Detect { command: InvocationView },
    Ask { command: InvocationView },
    Finished { result: Result<T, ErrorView> },
}

impl<T> QueryView<T> {
    /// What is to be done next, unless it is over.
    pub open spec fn effect(self) -> Option<EffectView> {
        match self {
            QueryView::Detect { .. } => Some(detect_effect()),
            QueryView::Ask { command } => Some(EffectView::Run { command }),
            QueryView::Finished { .. } => None,
        }
    }

    /// The question after the reply to what was to be done, where `answer` is what the outcome of
    /// the command amounts to. A reply of another kind leaves it to be done.
    pub open spec fn after(
        self,
        reply: ReplyView,
        answer: spec_fn(OutcomeView) -> Result<T, ErrorView>,
    ) -> QueryView<T> {
        match self {
            QueryView::Detect { command } => match reply {
                ReplyView::Flag(true) => QueryView::Ask { command },
                ReplyView::Flag(false) => QueryView::Finished { result: Err(no_systemd()) },
                _ => self,
            },
            QueryView::Ask { command } => match reply {
                ReplyView::Ran(outcome) => QueryView::Finished { result: answer(outcome) },
                _ => self,
            },
            QueryView::Finished { .. } => self,
        }
    }
}

impl View for SystemdStatus {
    type V = QueryView<StatusView>;

    open spec fn view(&self) -> QueryView<StatusView> {
        match self {
            SystemdStatus::Detect { command } => QueryView::Detect { command: command@ },
            SystemdStatus::Show { command } => QueryView::Ask { command: command@ },
            SystemdStatus::Finished { result } => QueryView::Finished {
                result: service::status_result(*result),
            },
        }
    }
}

impl View for SystemdLogs {
    type V = QueryView<Seq<char>>;

    open spec fn view(&self) -> QueryView<Seq<char>> {
        match self {
            SystemdLogs::Detect { command } => QueryView::Detect { command: command@ },
            SystemdLogs::Journal { command } => QueryView::Ask { command: command@ },
            SystemdLogs::Finished { result } => QueryView::Finished { result: service::text_result(*result) },
        }
    }
}

impl SystemdStatus {
    /// What is to be done next, unless it is over.
    pub fn pending(&self) -> (r: Option<Effect>)
        ensures
            effect::opt_effect(r) == self@.effect(),
    {
        match self {
            SystemdStatus::Detect { .. } => Some(detect()),
            SystemdStatus::Show { command } => Some(Effect::Run { command: command.clone() }),
            SystemdStatus::Finished { .. } => None,
        }
    }

    /// Takes the reply to what was to be done.
    pub fn resume(self, reply: Reply) -> (r: SystemdStatus)
        ensures
            r@ == self@.after(reply@, |o: OutcomeView| shown_status(o)),
    {
        match self {
            SystemdStatus::Detect { command } => match reply {
                Reply::Flag(present) => match SystemdUser::ensure_systemd(present) {
                    Ok(()) => SystemdStatus::Show { command },
                    Err(e) => SystemdStatus::Finished { result: Err(e) },
                },
                _ => SystemdStatus::Detect { command },
            },
            SystemdStatus::Show { command } => match reply {
                Reply::Ran(Outcome::NotStarted { error }) => SystemdStatus::Finished {
                    result: Err(spawn_error("systemctl --user show", error.as_str())),
                },
                Reply::Ran(Outcome::Exited { stdout, .. }) => {
                    let output = text::decode(stdout.as_slice());
                    SystemdStatus::Finished { result: Ok(parse_show(output.as_str())) }
                },
                _ => SystemdStatus::Show { command },
            },
            SystemdStatus::Finished { result } => SystemdStatus::Finished { result },
        }
    }

    /// The answer, if it is there.
    pub fn outcome(self) -> (r: Option<Result<ServiceStatus, Error>>)
        ensures
            r is Some <==> self@ is Finished,
            r matches Some(result) ==> self@ == (QueryView::Finished {
                result: service::status_result(result),
            }),
    {
        match self {
            SystemdStatus::Finished { result } => Some(result),
            _ => None,
        }
    }
}

impl SystemdLogs {
    /// What is to be done next, unless it is over.
    pub fn pending(&self) -> (r: Option<Effect>)
        ensures
            effect::opt_effect(r) == self@.effect(),
    {
        match self {
            SystemdLogs::Detect { .. } => Some(detect()),
            SystemdLogs::Journal { command } => Some(Effect::Run { command: command.clone() }),
            SystemdLogs::Finished { .. } => None,
        }
    }

    /// Takes the reply to what was to be done.
    pub fn resume(self, reply: Reply) -> (r: SystemdLogs)
        ensures
            r@ == self@.after(reply@, |o: OutcomeView| shown_log(o)),
    {
        match self {
            SystemdLogs::Detect { command } => match reply {
                Reply::Flag(present) => match SystemdUser::ensure_systemd(present) {
                    Ok(()) => SystemdLogs::Journal { command },
                    Err(e) => SystemdLogs::Finished { result: Err(e) },
                },
                _ => SystemdLogs::Detect { command },
            },
            SystemdLogs::Journal { command } => match reply {
                Reply::Ran(Outcome::NotStarted { error }) => SystemdLogs::Finished {
                    result: Err(spawn_error("journalctl --user", error.as_str())),
                },
                Reply::Ran(Outcome::Exited { stdout, .. }) => SystemdLogs::Finished {
                    result: Ok(text::decode(stdout.as_slice())),
                },
                _ => SystemdLogs::Journal { command },
            },
            SystemdLogs::Finished { result } => SystemdLogs::Finished { result },
        }
    }

    /// The answer, if it is there.
    pub fn outcome(self) -> (r: Option<Result<String, Error>>)
        ensures
            r is Some <==> self@ is Finished,
            r matches Some(result) ==> self@ == (QueryView::Finished {
                result: service::text_result(result),
            }),
    {
        match self {
            SystemdLogs::Finished { result } => Some(result),
            _ => None,
        }
    }
}

// ---------------------------------------------------------------------------------------------
// Operations
// ---------------------------------------------------------------------------------------------
/// The steps that enable and start a unit.
pub open spec fn start_steps(session: SessionView, label: Seq<char>) -> Seq<StepView> {
    seq![
        detect_step(),
        command_step(
            systemctl_command(session, seq!["enable"@, "--now"@, unit_name(label)]),
            "systemctl --user enable --now"@,
        ),
    ]
}

/// The steps that disable and stop a unit.
pub open spec fn stop_steps(session: SessionView, label: Seq<char>) -> Seq<StepView> {
    seq![
        detect_step(),
        command_step(
            systemctl_command(session, seq!["disable"@, "--now"@, unit_name(label)]),
            "systemctl --user disable --now"@,
        ),
    ]
}

/// The steps that restart a unit. A failure by too many starts is cleared first, as a restart
/// would be refused; whether that succeeds does not matter.
pub open spec fn restart_steps(session: SessionView, label: Seq<char>) -> Seq<StepView> {
    seq![
        detect_step(),
        StepView {
            effect: EffectView::Run {
                command: systemctl_command(session, seq!["reset-failed"@, unit_name(label)]),
            },
            check: CheckView::Ignored,
        },
        command_step(
            systemctl_command(session, seq!["restart"@, unit_name(label)]),
            "systemctl --user restart"@,
        ),
    ]
}

fn detection() -> (r: Step)
    ensures
        r@ == detect_step(),
{
    Step { effect: detect(), check: Check::Required { error: no_systemd_error() } }
}

impl SystemdUser {
    /// The user's systemd manager.
    pub fn new() -> (r: SystemdUser)
        ensures
            r == SystemdUser,
    {
        SystemdUser
    }

    /// An error on a host that systemd does not run.
    pub fn ensure_systemd(present: bool) -> (r: Result<(), Error>)
        ensures
            plan::unit_result(r) == (if present {
                Ok(())
            } else {
                Err(no_systemd())
            }),
    {
        if present {
            Ok(())
        } else {
            Err(no_systemd_error())
        }
    }

    /// The installation of a service.
    pub fn install(&self, session: &Session, spec: &ServiceSpec) -> (r: SystemdInstall)
        ensures
            r@ == InstallView::fresh(session@, spec@),
    {
        let args = ["daemon-reload"];
        assert(text::str_texts(args@) =~= seq!["daemon-reload"@]);
        let steps = vec![
            detection(),
            Step {
                effect: Effect::CreateDir { path: unit_dir(session) },
                check: Check::Completed,
            },
            Step {
                effect: Effect::Write {
                    path: unit_path(session, spec.label.as_str()),
                    contents: render::systemd_unit(spec),
                },
                check: Check::Completed,
            },
            succeed(systemctl(session, &args), "systemctl --user daemon-reload"),
        ];
        assert(plan::step_views(steps@) =~= install_steps(session@, spec@));
        SystemdInstall::Place { plan: Plan::new(steps), known: user_from_env(session) }
    }

    /// Enables and starts the unit of a service.
    pub fn start(&self, session: &Session, label: &str) -> (r: Plan)
        ensures
            r@ == PlanView::fresh(start_steps(session@, label@)),
    {
        let unit = svc(label);
        let args = ["enable", "--now", unit.as_str()];
        assert(text::str_texts(args@) =~= seq!["enable"@, "--now"@, unit@]);
        let steps = vec![
            detection(),
            succeed(systemctl(session, &args), "systemctl --user enable --now"),
        ];
        assert(plan::step_views(steps@) =~= start_steps(session@, label@));
        Plan::new(steps)
    }

    /// Disables and stops the unit of a service.
    pub fn stop(&self, session: &Session, label: &str) -> (r: Plan)
        ensures
            r@ == PlanView::fresh(stop_steps(session@, label@)),
    {
        let unit = svc(label);
        let args = ["disable", "--now", unit.as_str()];
        assert(text::str_texts(args@) =~= seq!["disable"@, "--now"@, unit@]);
        let steps = vec![
            detection(),
            succeed(systemctl(session, &args), "systemctl --user disable --now"),
        ];
        assert(plan::step_views(steps@) =~= stop_steps(session@, label@));
        Plan::new(steps)
    }

    /// Restarts the unit of a service.
    pub fn restart(&self, session: &Session, label: &str) -> (r: Plan)
        ensures
            r@ == PlanView::fresh(restart_steps(session@, label@)),
    {
        let unit = svc(label);
        let reset = ["reset-failed", unit.as_str()];
        assert(text::str_texts(reset@) =~= seq!["reset-failed"@, unit@]);
        let args = ["restart", unit.as_str()];
        assert(text::str_texts(args@) =~= seq!["restart"@, unit@]);
        let steps = vec![
            detection(),
            Step {
                effect: Effect::Run { command: systemctl(session, &reset) },
                check: Check::Ignored,
            },
            succeed(systemctl(session, &args), "systemctl --user restart"),
        ];
        assert(plan::step_views(steps@) =~= restart_steps(session@, label@));
        Plan::new(steps)
    }

    /// Asks how the unit of a service is doing.
    pub fn status(&self, session: &Session, label: &str) -> (r: SystemdStatus)
        ensures
            r@ == (QueryView::<StatusView>::Detect { command: show_command(session@, label@) }),
    {
        SystemdStatus::Detect { command: show(session, label) }
    }

    /// Asks for the last lines that the unit of a service wrote to the journal.
    pub fn logs(&self, session: &Session, label: &str, lines: usize) -> (r: SystemdLogs)
        ensures
            r@ == (QueryView::<Seq<char>>::Detect {
                command: journal_command(session@, label@, lines as nat),
            }),
    {
        SystemdLogs::Detect { command: journalctl(session, label, lines) }
    }
}

} // verus!
