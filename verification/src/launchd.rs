//! macOS: agents of the user's login session.
//!
//! An agent runs in the user's graphical session, so that it reaches the login keychain. Bringing
//! one up takes care: an unload goes on in the background, so the label must be gone before it is
//! loaded again, and one that does not go in time is an error; a label can be disabled, which an
//! unload does not undo; a load can fail and then succeed, or succeed only by way of `asuser`.
//! Without a graphical session nothing is attempted.

use crate::effect;
use crate::effect::{
    Effect, EffectView, Invocation, InvocationView, Outcome, OutcomeView, Reply, ReplyView,
};
use crate::path;
use crate::plan;
use crate::plan::{Check, CheckView, Plan, PlanView, Step, StepView};
use crate::render;
use crate::service;
use crate::service::{
    Error, ErrorView, ServiceSpec, ServiceSpecView, ServiceStatus, StatusView,
};
use crate::session::{Session, SessionView};
use crate::text;
use vstd::prelude::*;
use vstd::string::*;

verus! {

/// The agents of the user's login session.
#[derive(Clone, Copy, Debug)]
pub struct LaunchdAgent;

// ---------------------------------------------------------------------------------------------
// Names and places
// ---------------------------------------------------------------------------------------------
/// The user's home directory. Without `HOME` paths are relative.
pub open spec fn home_dir(session: SessionView) -> Seq<char> {
    match session.home {
        Some(home) => home,
        None => Seq::empty(),
    }
}

/// The file of the property list of an agent.
pub open spec fn plist_file(session: SessionView, label: Seq<char>) -> Seq<char> {
    path::join_path(
        path::join_path(home_dir(session), "Library/LaunchAgents"@),
        label + ".plist"@,
    )
}

/// The log file of an agent that does not name one.
pub open spec fn default_log_file(session: SessionView, label: Seq<char>) -> Seq<char> {
    path::join_path(path::join_path(home_dir(session), "Library/Logs"@), label + ".log"@)
}

/// The user's graphical session.
pub open spec fn gui_domain(uid: u32) -> Seq<char> {
    "gui/"@ + text::decimal_text(uid as nat)
}

/// An agent in the user's graphical session.
pub open spec fn gui_service(uid: u32, label: Seq<char>) -> Seq<char> {
    gui_domain(uid) + "/"@ + label
}

fn home(session: &Session) -> (r: String)
    ensures
        r@ == home_dir(session@),
{
    match &session.home {
        Some(home) => home.clone(),
        None => String::new(),
    }
}

/// The file of the property list of an agent.
pub fn plist_path(session: &Session, label: &str) -> (r: String)
    ensures
        r@ == plist_file(session@, label@),
{
    let home = home(session);
    let dir = path::join(home.as_str(), "Library/LaunchAgents");
    let mut name = label.to_owned();
    name.append(".plist");
    path::join(dir.as_str(), name.as_str())
}

/// The log file of an agent that does not name one.
pub fn default_log(session: &Session, label: &str) -> (r: String)
    ensures
        r@ == default_log_file(session@, label@),
{
    let home = home(session);
    let dir = path::join(home.as_str(), "Library/Logs");
    let mut name = label.to_owned();
    name.append(".log");
    path::join(dir.as_str(), name.as_str())
}

/// The user's graphical session.
pub fn gui_session(uid: u32) -> (r: String)
    ensures
        r@ == gui_domain(uid),
{
    let mut r = "gui/".to_owned();
    let n = text::decimal(uid as u64);
    r.append(n.as_str());
    r
}

/// An agent in the user's graphical session.
pub fn gui_target(uid: u32, label: &str) -> (r: String)
    ensures
        r@ == gui_service(uid, label@),
{
    let mut r = gui_session(uid);
    r.append("/");
    r.append(label);
    r
}

// ---------------------------------------------------------------------------------------------
// Commands
// ---------------------------------------------------------------------------------------------
/// A `launchctl` command.
pub open spec fn launchctl_command(args: Seq<Seq<char>>) -> InvocationView {
    effect::plain_command("launchctl"@, args)
}

/// A `launchctl` command.
pub fn launchctl(args: &[&str]) -> (r: Invocation)
    ensures
        r@ == launchctl_command(text::str_texts(args@)),
{
    Invocation::new("launchctl", args)
}

/// Whether the outcome of printing the graphical session shows that there is one.
pub fn gui_session_active(printed: &Outcome) -> (r: bool)
    ensures
        r == printed@.success(),
{
    printed.succeeded()
}

// ---------------------------------------------------------------------------------------------
// Install and stop
// ---------------------------------------------------------------------------------------------
/// A service with a log file: its own, or the default one.
pub open spec fn with_log(session: SessionView, spec: ServiceSpecView) -> ServiceSpecView {
    ServiceSpecView {
        log_path: match spec.log_path {
            Some(path) => Some(path),
            None => Some(default_log_file(session, spec.label)),
        },
        ..spec
    }
}

/// The steps that put the property list of an agent in its place. That the directory of the log
/// file cannot be created does not matter.
pub open spec fn install_steps(session: SessionView, spec: ServiceSpecView) -> Seq<StepView> {
    let full = with_log(session, spec);
    let plist = plist_file(session, spec.label);
    seq![
        StepView {
            effect: EffectView::CreateParent { path: full.log_path->0 },
            check: CheckView::Ignored,
        },
        StepView {
            effect: EffectView::CreateParent { path: plist },
            check: CheckView::Completed,
        },
        StepView {
            effect: EffectView::Write {
                path: plist,
                contents: render::plist_text(render::plist_entries(full)),
            },
            check: CheckView::Completed,
        },
    ]
}

/// The steps that unload an agent. That it was not loaded is no failure.
pub open spec fn stop_steps(session: SessionView, label: Seq<char>) -> Seq<StepView> {
    seq![
        StepView {
            effect: EffectView::Run {
                command: launchctl_command(seq!["bootout"@, gui_service(session.uid, label)]),
            },
            check: CheckView::Started { context: "launchctl bootout"@ },
        },
    ]
}

// ---------------------------------------------------------------------------------------------
// Bringing an agent up
// ---------------------------------------------------------------------------------------------
/// How long the unload of an agent may take, in milliseconds.
pub const BOOTOUT_WAIT: u64 = 5000;

/// The pause between two looks at an agent that is being unloaded, in milliseconds.
pub const BOOTOUT_PAUSE: u64 = 150;

/// The pause after a failed load, in milliseconds.
pub const BOOTSTRAP_PAUSE: u64 = 500;

/// How often a load is tried.
pub const BOOTSTRAP_TRIES: u32 = 3;

/// How far bringing an agent up has got: what is to be done next.
#[derive(Clone, Copy, Debug, PartialEq, Eq, Structural)]
pub enum Stage {
    /// Kick an agent that may be loaded.
    Kickstart,
    /// See whether the agent is installed.
    CheckInstalled,
    /// See whether there is a graphical session.
    CheckSession,
    /// Unload the agent.
    Bootout,
    /// Start the timer.
    StartTimer,
    /// See whether the agent is still loaded.
    Probe,
    /// Read the timer, as the agent is still loaded.
    ReadTimer,
    /// Wait for the unload to go on.
    Pause,
    /// Enable the label.
    Enable,
    /// Load the agent.
    Bootstrap,
    /// Wait after a failed load.
    Settle,
    /// Load the agent by way of `asuser`.
    AsUser,
    /// Kick the agent that was loaded.
    Kick,
    /// Nothing.
    Finished,
}

/// An agent that is being brought up.
#[derive(Debug)]
pub struct Launch {
    uid: u32,
    label: String,
    plist: String,
    stage: Stage,
    tries: u32,
    last: String,
    error: Option<Error>,
}

/// The model of a [`Launch`]: the user, the agent and its property list, how far it has got, how
/// often a load was tried, what the last failed one had to say, and the error that ended it.
pub struct LaunchView {
    pub uid: u32,
    pub label: Seq<char>,
    pub plist: Seq<char>,
    pub stage: Stage,
    pub tries: u32,
    pub last: Seq<char>,
    pub error: Option<ErrorView>,
}

impl View for Launch {
    type V = LaunchView;

    closed spec fn view(&self) -> LaunchView {
        LaunchView {
            uid: self.uid,
            label: self.label@,
            plist: self.plist@,
            stage: self.stage,
            tries: self.tries,
            last: self.last@,
            error: effect::opt_error(self.error),
        }
    }
}

/// The error of an agent that is not installed.
pub open spec fn not_installed(label: Seq<char>, plist: Seq<char>) -> ErrorView {
    ErrorView::Command(
        label + ": not installed (no plist at "@ + plist + "). Call install() first."@,
    )
}

/// The error of a user who is not logged in at the console.
pub open spec fn no_session(uid: u32) -> ErrorView {
    ErrorView::Unsupported(
        "no active GUI login ("@ + gui_domain(uid)
            + " missing). Log in at the console once (or enable auto-login) — the agent needs the login session for the keychain."@,
    )
}

/// The error of an agent that is still loaded when the time for its unload is over.
pub open spec fn still_loaded(uid: u32, label: Seq<char>) -> ErrorView {
    ErrorView::Command(
        "launchctl bootout "@ + gui_service(uid, label)
            + ": still loaded after 5 s, so it cannot be loaded again"@,
    )
}

/// The error of an agent that could not be loaded.
pub open spec fn not_loaded(uid: u32, plist: Seq<char>, last: Seq<char>) -> ErrorView {
    ErrorView::Command(
        "launchctl bootstrap "@ + gui_domain(uid) + " "@ + plist
            + " failed after retries + asuser: "@ + last,
    )
}

/// What a failed load had to say.
pub open spec fn load_complaint(reply: ReplyView, before: Seq<char>) -> Seq<char> {
    match reply {
        ReplyView::Ran(OutcomeView::NotStarted { error }) => error,
        ReplyView::Ran(OutcomeView::Exited { stderr, .. }) => text::trim_text(
            text::utf8_lossy(stderr),
        ),
        _ => before,
    }
}

/// What a failed load by way of `asuser` had to say. If it could not be started, what the last
/// plain one had to say stands.
pub open spec fn asuser_complaint(reply: ReplyView, before: Seq<char>) -> Seq<char> {
    match reply {
        ReplyView::Ran(OutcomeView::Exited { stderr, .. }) => text::trim_text(
            text::utf8_lossy(stderr),
        ),
        _ => before,
    }
}

/// Whether the timer shows that the unload may still take its time.
pub open spec fn still_waiting(reply: ReplyView) -> bool {
    reply matches ReplyView::Elapsed(ms) && ms < BOOTOUT_WAIT
}

impl LaunchView {
    /// The start of an agent at the given stage.
    pub open spec fn fresh(session: SessionView, label: Seq<char>, stage: Stage) -> LaunchView {
        LaunchView {
            uid: session.uid,
            label,
            plist: plist_file(session, label),
            stage,
            tries: 0,
            last: Seq::empty(),
            error: None,
        }
    }

    /// A load was tried as often as the stage says: never before the label was enabled, fewer
    /// than the greatest number of times before another try, and exactly that often before the way
    /// by `asuser`.
    pub open spec fn wf(self) -> bool {
        &&& self.tries <= BOOTSTRAP_TRIES
        &&& match self.stage {
            Stage::Bootstrap => self.tries < BOOTSTRAP_TRIES,
            Stage::Settle => self.tries > 0,
            Stage::AsUser => self.tries == BOOTSTRAP_TRIES,
            Stage::Kick | Stage::Finished => true,
            _ => self.tries == 0,
        }
        &&& self.error is Some ==> self.stage == Stage::Finished
    }

    /// The command that kicks the agent.
    pub open spec fn kickstart(self) -> InvocationView {
        launchctl_command(seq!["kickstart"@, "-k"@, gui_service(self.uid, self.label)])
    }

    /// The command that loads the agent.
    pub open spec fn bootstrap(self) -> InvocationView {
        launchctl_command(seq!["bootstrap"@, gui_domain(self.uid), self.plist])
    }

    /// The command that loads the agent by way of `asuser`.
    pub open spec fn bootstrap_asuser(self) -> InvocationView {
        launchctl_command(
            seq![
                "asuser"@,
                text::decimal_text(self.uid as nat),
                "launchctl"@,
                "bootstrap"@,
                gui_domain(self.uid),
                self.plist,
            ],
        )
    }

    /// What is to be done next, unless it is over.
    pub open spec fn effect(self) -> Option<EffectView> {
        let target = gui_service(self.uid, self.label);
        match self.stage {
            Stage::Kickstart => Some(EffectView::Run { command: self.kickstart() }),
            Stage::CheckInstalled => Some(EffectView::Exists { path: self.plist }),
            Stage::CheckSession => Some(
                EffectView::Run {
                    command: launchctl_command(seq!["print"@, gui_domain(self.uid)]),
                },
            ),
            Stage::Bootout => Some(
                EffectView::Run { command: launchctl_command(seq!["bootout"@, target]) },
            ),
            Stage::StartTimer => Some(EffectView::StartTimer),
            Stage::Probe => Some(
                EffectView::Run { command: launchctl_command(seq!["print"@, target]) },
            ),
            Stage::ReadTimer => Some(EffectView::ReadTimer),
            Stage::Pause => Some(EffectView::Sleep { millis: BOOTOUT_PAUSE }),
            Stage::Enable => Some(
                EffectView::Run { command: launchctl_command(seq!["enable"@, target]) },
            ),
            Stage::Bootstrap => Some(EffectView::Run { command: self.bootstrap() }),
            Stage::Settle => Some(EffectView::Sleep { millis: BOOTSTRAP_PAUSE }),
            Stage::AsUser => Some(EffectView::Run { command: self.bootstrap_asuser() }),
            Stage::Kick => Some(EffectView::Run { command: self.kickstart() }),
            Stage::Finished => None,
        }
    }

    /// The same agent at another stage.
    pub open spec fn at(self, stage: Stage) -> LaunchView {
        LaunchView { stage, ..self }
    }

    /// The same agent, given up with an error.
    pub open spec fn failed(self, error: ErrorView) -> LaunchView {
        LaunchView { stage: Stage::Finished, error: Some(error), ..self }
    }

    /// The agent after the reply to what was to be done. A reply of another kind leaves it to be
    /// done.
    pub open spec fn after(self, reply: ReplyView) -> LaunchView {
        match self.effect() {
            Some(effect) => if effect.answered_by(reply) {
                self.next(reply)
            } else {
                self
            },
            None => self,
        }
    }

    /// The agent after a reply of the kind that was due.
    pub open spec fn next(self, reply: ReplyView) -> LaunchView {
        match self.stage {
            Stage::Kickstart => if reply.success() {
                self.at(Stage::Finished)
            } else {
                self.at(Stage::CheckInstalled)
            },
            Stage::CheckInstalled => if reply.yes() {
                self.at(Stage::CheckSession)
            } else {
                self.failed(not_installed(self.label, self.plist))
            },
            Stage::CheckSession => if reply.success() {
                self.at(Stage::Bootout)
            } else {
                self.failed(no_session(self.uid))
            },
            Stage::Bootout => self.at(Stage::StartTimer),
            Stage::StartTimer => self.at(Stage::Probe),
            Stage::Probe => if reply.success() {
                self.at(Stage::ReadTimer)
            } else {
                self.at(Stage::Enable)
            },
            Stage::ReadTimer => if still_waiting(reply) {
                self.at(Stage::Pause)
            } else {
                self.failed(still_loaded(self.uid, self.label))
            },
            Stage::Pause => self.at(Stage::Probe),
            Stage::Enable => self.at(Stage::Bootstrap),
            Stage::Bootstrap => if reply.success() {
                self.at(Stage::Kick)
            } else {
                LaunchView {
                    stage: Stage::Settle,
                    tries: (self.tries + 1) as u32,
                    last: load_complaint(reply, self.last),
                    ..self
                }
            },
            Stage::Settle => if self.tries < BOOTSTRAP_TRIES {
                self.at(Stage::Bootstrap)
            } else {
                self.at(Stage::AsUser)
            },
            Stage::AsUser => if reply.success() {
                self.at(Stage::Kick)
            } else {
                self.failed(not_loaded(self.uid, self.plist, asuser_complaint(reply, self.last)))
            },
            Stage::Kick => self.at(Stage::Finished),
            Stage::Finished => self,
        }
    }

    /// How it ended, if it has.
    pub open spec fn outcome(self) -> Option<Result<(), ErrorView>> {
        if self.stage == Stage::Finished {
            match self.error {
                Some(e) => Some(Err(e)),
                None => Some(Ok(())),
            }
        } else {
            None
        }
    }

    /// The agent after a sequence of replies.
    pub open spec fn run(self, replies: Seq<ReplyView>) -> LaunchView
        decreases replies.len(),
    {
        if replies.len() == 0 {
            self
        } else {
            self.run(replies.drop_last()).after(replies.last())
        }
    }
}

fn not_installed_error(label: &str, plist: &str) -> (r: Error)
    ensures
        r@ == not_installed(label@, plist@),
{
    let mut m = label.to_owned();
    m.append(": not installed (no plist at ");
    m.append(plist);
    m.append("). Call install() first.");
    Error::Command(m)
}

fn no_session_error(uid: u32) -> (r: Error)
    ensures
        r@ == no_session(uid),
{
    let mut m = "no active GUI login (".to_owned();
    let domain = gui_session(uid);
    m.append(domain.as_str());
    m.append(
        " missing). Log in at the console once (or enable auto-login) — the agent needs the login session for the keychain.",
    );
    Error::Unsupported(m)
}

fn still_loaded_error(uid: u32, label: &str) -> (r: Error)
    ensures
        r@ == still_loaded(uid, label@),
{
    let mut m = "launchctl bootout ".to_owned();
    let target = gui_target(uid, label);
    m.append(target.as_str());
    m.append(": still loaded after 5 s, so it cannot be loaded again");
    Error::Command(m)
}

fn not_loaded_error(uid: u32, plist: &str, last: &str) -> (r: Error)
    ensures
        r@ == not_loaded(uid, plist@, last@),
{
    let mut m = "launchctl bootstrap ".to_owned();
    let domain = gui_session(uid);
    m.append(domain.as_str());
    m.append(" ");
    m.append(plist);
    m.append(" failed after retries + asuser: ");
    m.append(last);
    Error::Command(m)
}

impl Launch {
    #[verifier::type_invariant]
    closed spec fn valid(self) -> bool {
        self@.wf()
    }

    fn fresh(session: &Session, label: &str, stage: Stage) -> (r: Launch)
        requires
            stage == Stage::CheckInstalled || stage == Stage::Kickstart,
        ensures
            r@ == LaunchView::fresh(session@, label@, stage),
            r@.wf(),
    {
        Launch {
            uid: session.uid,
            label: label.to_owned(),
            plist: plist_path(session, label),
            stage,
            tries: 0,
            last: String::new(),
            error: None,
        }
    }

    fn at(self, stage: Stage) -> (r: Launch)
        requires
            self@.at(stage).wf(),
        ensures
            r@ == self@.at(stage),
            r@.wf(),
    {
        Launch { stage, ..self }
    }

    fn failed(self, error: Error) -> (r: Launch)
        ensures
            r@ == self@.failed(error@),
            r@.wf(),
    {
        proof {
            use_type_invariant(&self);
        }
        Launch { stage: Stage::Finished, error: Some(error), ..self }
    }

    fn kickstart(&self) -> (r: Effect)
        ensures
            r@ == (EffectView::Run { command: self@.kickstart() }),
    {
        let target = gui_target(self.uid, self.label.as_str());
        let args = ["kickstart", "-k", target.as_str()];
        assert(text::str_texts(args@) =~= seq!["kickstart"@, "-k"@, target@]);
        Effect::Run { command: launchctl(&args) }
    }

    fn on_target(&self, verb: &str) -> (r: Effect)
        ensures
            r@ == (EffectView::Run {
                command: launchctl_command(seq![verb@, gui_service(self@.uid, self@.label)]),
            }),
    {
        let target = gui_target(self.uid, self.label.as_str());
        let args = [verb, target.as_str()];
        assert(text::str_texts(args@) =~= seq![verb@, target@]);
        Effect::Run { command: launchctl(&args) }
    }

    fn print_session(&self) -> (r: Effect)
        ensures
            r@ == (EffectView::Run {
                command: launchctl_command(seq!["print"@, gui_domain(self@.uid)]),
            }),
    {
        let domain = gui_session(self.uid);
        let args = ["print", domain.as_str()];
        assert(text::str_texts(args@) =~= seq!["print"@, domain@]);
        Effect::Run { command: launchctl(&args) }
    }

    fn bootstrap(&self) -> (r: Effect)
        ensures
            r@ == (EffectView::Run { command: self@.bootstrap() }),
    {
        let domain = gui_session(self.uid);
        let args = ["bootstrap", domain.as_str(), self.plist.as_str()];
        assert(text::str_texts(args@) =~= seq!["bootstrap"@, domain@, self@.plist]);
        Effect::Run { command: launchctl(&args) }
    }

    fn bootstrap_asuser(&self) -> (r: Effect)
        ensures
            r@ == (EffectView::Run { command: self@.bootstrap_asuser() }),
    {
        let domain = gui_session(self.uid);
        let uid = text::decimal(self.uid as u64);
        let args = [
            "asuser",
            uid.as_str(),
            "launchctl",
            "bootstrap",
            domain.as_str(),
            self.plist.as_str(),
        ];
        assert(text::str_texts(args@) =~= seq![
            "asuser"@,
            uid@,
            "launchctl"@,
            "bootstrap"@,
            domain@,
            self@.plist,
        ]);
        Effect::Run { command: launchctl(&args) }
    }

    /// What is to be done next, unless it is over.
    pub fn pending(&self) -> (r: Option<Effect>)
        ensures
            effect::opt_effect(r) == self@.effect(),
    {
        match self.stage {
            Stage::Kickstart => Some(self.kickstart()),
            Stage::CheckInstalled => Some(Effect::Exists { path: self.plist.clone() }),
            Stage::CheckSession => Some(self.print_session()),
            Stage::Bootout => Some(self.on_target("bootout")),
            Stage::StartTimer => Some(Effect::StartTimer),
            Stage::Probe => Some(self.on_target("print")),
            Stage::ReadTimer => Some(Effect::ReadTimer),
            Stage::Pause => Some(Effect::Sleep { millis: BOOTOUT_PAUSE }),
            Stage::Enable => Some(self.on_target("enable")),
            Stage::Bootstrap => Some(self.bootstrap()),
            Stage::Settle => Some(Effect::Sleep { millis: BOOTSTRAP_PAUSE }),
            Stage::AsUser => Some(self.bootstrap_asuser()),
            Stage::Kick => Some(self.kickstart()),
            Stage::Finished => None,
        }
    }

    fn after_bootstrap(self, reply: Reply) -> (r: Launch)
        requires
            self@.stage == Stage::Bootstrap,
        ensures
            r@ == self@.next(reply@),
            r@.wf(),
    {
        proof {
            use_type_invariant(&self);
        }
        if reply.is_success() {
            return self.at(Stage::Kick);
        }
        let tries: u32 = self.tries + 1;
        match reply {
            Reply::Ran(Outcome::NotStarted { error }) => {
                Launch { stage: Stage::Settle, tries, last: error, ..self }
            },
            Reply::Ran(Outcome::Exited { stderr, .. }) => {
                let text = text::decode(stderr.as_slice());
                Launch { stage: Stage::Settle, tries, last: text::trim(text.as_str()), ..self }
            },
            _ => Launch { stage: Stage::Settle, tries, ..self },
        }
    }

    fn after_asuser(self, reply: Reply) -> (r: Launch)
        requires
            self@.stage == Stage::AsUser,
        ensures
            r@ == self@.next(reply@),
            r@.wf(),
    {
        proof {
            use_type_invariant(&self);
        }
        if reply.is_success() {
            return self.at(Stage::Kick);
        }
        let error = match reply {
            Reply::Ran(Outcome::Exited { stderr, .. }) => {
                let text = text::decode(stderr.as_slice());
                let last = text::trim(text.as_str());
                not_loaded_error(self.uid, self.plist.as_str(), last.as_str())
            },
            _ => not_loaded_error(self.uid, self.plist.as_str(), self.last.as_str()),
        };
        self.failed(error)
    }

    /// Takes the reply to what was to be done.
    pub fn resume(self, reply: Reply) -> (r: Launch)
        ensures
            r@ == self@.after(reply@),
            r@.wf(),
    {
        proof {
            use_type_invariant(&self);
        }
        let answered = match self.pending() {
            Some(effect) => effect.is_answered_by(&reply),
            None => false,
        };
        if answered {
            self.take(reply)
        } else {
            self
        }
    }

    /// Takes a reply of the kind that was due.
    fn take(self, reply: Reply) -> (r: Launch)
        ensures
            r@ == self@.next(reply@),
            r@.wf(),
    {
        proof {
            use_type_invariant(&self);
        }
        match self.stage {
            Stage::Kickstart => {
                if reply.is_success() {
                    self.at(Stage::Finished)
                } else {
                    self.at(Stage::CheckInstalled)
                }
            },
            Stage::CheckInstalled => {
                if reply.is_yes() {
                    self.at(Stage::CheckSession)
                } else {
                    let error = not_installed_error(self.label.as_str(), self.plist.as_str());
                    self.failed(error)
                }
            },
            Stage::CheckSession => {
                let active = match &reply {
                    Reply::Ran(printed) => gui_session_active(printed),
                    _ => false,
                };
                if active {
                    self.at(Stage::Bootout)
                } else {
                    let error = no_session_error(self.uid);
                    self.failed(error)
                }
            },
            Stage::Bootout => self.at(Stage::StartTimer),
            Stage::StartTimer => self.at(Stage::Probe),
            Stage::Probe => {
                if reply.is_success() {
                    self.at(Stage::ReadTimer)
                } else {
                    self.at(Stage::Enable)
                }
            },
            Stage::ReadTimer => {
                let waiting = match reply {
                    Reply::Elapsed(ms) => ms < BOOTOUT_WAIT,
                    _ => false,
                };
                if waiting {
                    self.at(Stage::Pause)
                } else {
                    let error = still_loaded_error(self.uid, self.label.as_str());
                    self.failed(error)
                }
            },
            Stage::Pause => self.at(Stage::Probe),
            Stage::Enable => self.at(Stage::Bootstrap),
            Stage::Bootstrap => self.after_bootstrap(reply),
            Stage::Settle => {
                if self.tries < BOOTSTRAP_TRIES {
                    self.at(Stage::Bootstrap)
                } else {
                    self.at(Stage::AsUser)
                }
            },
            Stage::AsUser => self.after_asuser(reply),
            Stage::Kick => self.at(Stage::Finished),
            Stage::Finished => self,
        }
    }

    /// How it ended, if it has.
    pub fn outcome(&self) -> (r: Option<Result<(), Error>>)
        ensures
            plan::opt_unit_result(r) == self@.outcome(),
    {
        if self.stage == Stage::Finished {
            match &self.error {
                Some(e) => Some(Err(e.clone())),
                None => Some(Ok(())),
            }
        } else {
            None
        }
    }
}

// ---------------------------------------------------------------------------------------------
// Status
// ---------------------------------------------------------------------------------------------
/// The number of the process that a line of `launchctl print` gives.
pub open spec fn line_pid(line: Seq<char>) -> Option<u32> {
    match text::after_prefix(text::trim_text(line), "pid = "@) {
        Some(value) => text::parsed_u32(text::trim_text(value)),
        None => None,
    }
}

/// The number of the process that the first line to give one gives.
pub open spec fn first_pid(lines: Seq<Seq<char>>) -> Option<u32>
    decreases lines.len(),
{
    if lines.len() == 0 {
        None
    } else {
        match line_pid(lines[0]) {
            Some(pid) => Some(pid),
            None => first_pid(lines.drop_first()),
        }
    }
}

/// The status that the output of `launchctl print` amounts to. The output is made for people, so
/// only the number of the process is looked for.
pub open spec fn print_status(output: Seq<char>) -> StatusView {
    match first_pid(text::lines_of(output)) {
        Some(pid) => StatusView::Running { pid: Some(pid) },
        None => StatusView::Stopped,
    }
}

/// The status that running `launchctl print` amounts to: an agent that it does not know is
/// installed and not loaded.
pub open spec fn printed_status(outcome: OutcomeView) -> Result<StatusView, ErrorView> {
    match outcome {
        OutcomeView::NotStarted { error } => Err(
            ErrorView::Command("launchctl print: "@ + error),
        ),
        OutcomeView::Exited { code, stdout, .. } => if code == Some(0i32) {
            Ok(print_status(text::utf8_lossy(stdout)))
        } else {
            Ok(StatusView::Stopped)
        },
    }
}

/// The number of the process that a line of `launchctl print` gives.
fn pid_of_line(line: &str) -> (r: Option<u32>)
    ensures
        r == line_pid(line@),
{
    let line = text::trim(line);
    match text::strip_prefix(line.as_str(), "pid = ") {
        Some(value) => {
            let value = text::trim(value.as_str());
            text::parse_u32(value.as_str())
        },
        None => None,
    }
}

/// The status that the output of `launchctl print` amounts to.
pub fn parse_print(output: &str) -> (r: ServiceStatus)
    ensures
        r@ == print_status(output@),
{
    let lines = text::lines(output);
    let ghost all = text::texts(lines@);
    let mut i: usize = 0;
    assert(all.skip(0) =~= all);
    while i < lines.len()
        invariant
            i <= lines.len(),
            all == text::texts(lines@),
            all == text::lines_of(output@),
            first_pid(all.skip(i as int)) == first_pid(all),
        decreases lines.len() - i,
    {
        assert(all.skip(i as int)[0] == lines@[i as int]@);
        assert(all.skip(i as int).drop_first() =~= all.skip(i + 1));
        if let Some(pid) = pid_of_line(lines[i].as_str()) {
            return ServiceStatus::Running { pid: Some(pid) };
        }
        i += 1;
    }
    ServiceStatus::Stopped
}

/// The question how an agent is doing.
#[derive(Debug)]
pub enum LaunchdStatus {
    /// It is looked for the property list.
    CheckInstalled { plist: String, command: Invocation },
    /// The agent is printed.
    Print { command: Invocation },
    /// It is over.
    Finished { result: Result<ServiceStatus, Error> },
}

/// The model of a [`LaunchdStatus`].
pub enum AgentStatusView {
    CheckInstalled { plist: Seq<char>, command: InvocationView },
    Print { command: InvocationView },
    Finished { result: Result<StatusView, ErrorView> },
}

impl View for LaunchdStatus {
    type V = AgentStatusView;

    open spec fn view(&self) -> AgentStatusView {
        match self {
            LaunchdStatus::CheckInstalled { plist, command } => AgentStatusView::CheckInstalled {
                plist: plist@,
                command: command@,
            },
            LaunchdStatus::Print { command } => AgentStatusView::Print { command: command@ },
            LaunchdStatus::Finished { result } => AgentStatusView::Finished {
                result: service::status_result(*result),
            },
        }
    }
}

impl AgentStatusView {
    /// The question of which nothing was done.
    pub open spec fn fresh(session: SessionView, label: Seq<char>) -> AgentStatusView {
        AgentStatusView::CheckInstalled {
            plist: plist_file(session, label),
            command: launchctl_command(seq!["print"@, gui_service(session.uid, label)]),
        }
    }

    /// What is to be done next, unless it is over.
    pub open spec fn effect(self) -> Option<EffectView> {
        match self {
            AgentStatusView::CheckInstalled { plist, .. } => Some(
                EffectView::Exists { path: plist },
            ),
            AgentStatusView::Print { command } => Some(EffectView::Run { command }),
            AgentStatusView::Finished { .. } => None,
        }
    }

    /// The question after the reply to what was to be done. A reply of another kind leaves it to
    /// be done.
    pub open spec fn after(self, reply: ReplyView) -> AgentStatusView {
        match self {
            AgentStatusView::CheckInstalled { command, .. } => match reply {
                ReplyView::Flag(true) => AgentStatusView::Print { command },
                ReplyView::Flag(false) => AgentStatusView::Finished {
                    result: Ok(StatusView::NotInstalled),
                },
                _ => self,
            },
            AgentStatusView::Print { .. } => match reply {
                ReplyView::Ran(outcome) => AgentStatusView::Finished {
                    result: printed_status(outcome),
                },
                _ => self,
            },
            AgentStatusView::Finished { .. } => self,
        }
    }
}

impl LaunchdStatus {
    /// What is to be done next, unless it is over.
    pub fn pending(&self) -> (r: Option<Effect>)
        ensures
            effect::opt_effect(r) == self@.effect(),
    {
        match self {
            LaunchdStatus::CheckInstalled { plist, .. } => Some(
                Effect::Exists { path: plist.clone() },
            ),
            LaunchdStatus::Print { command } => Some(Effect::Run { command: command.clone() }),
            LaunchdStatus::Finished { .. } => None,
        }
    }

    /// Takes the reply to what was to be done.
    pub fn resume(self, reply: Reply) -> (r: LaunchdStatus)
        ensures
            r@ == self@.after(reply@),
    {
        match self {
            LaunchdStatus::CheckInstalled { plist, command } => match reply {
                Reply::Flag(true) => LaunchdStatus::Print { command },
                Reply::Flag(false) => LaunchdStatus::Finished {
                    result: Ok(ServiceStatus::NotInstalled),
                },
                _ => LaunchdStatus::CheckInstalled { plist, command },
            },
            LaunchdStatus::Print { command } => match reply {
                Reply::Ran(Outcome::NotStarted { error }) => {
                    let mut m = "launchctl print: ".to_owned();
                    m.append(error.as_str());
                    LaunchdStatus::Finished { result: Err(Error::Command(m)) }
                },
                Reply::Ran(Outcome::Exited { code: Some(0), stdout, .. }) => {
                    let output = text::decode(stdout.as_slice());
                    LaunchdStatus::Finished { result: Ok(parse_print(output.as_str())) }
                },
                Reply::Ran(_) => LaunchdStatus::Finished { result: Ok(ServiceStatus::Stopped) },
                _ => LaunchdStatus::Print { command },
            },
            LaunchdStatus::Finished { result } => LaunchdStatus::Finished { result },
        }
    }

    /// The answer, if it is there.
    pub fn outcome(self) -> (r: Option<Result<ServiceStatus, Error>>)
        ensures
            r is Some <==> self@ is Finished,
            r matches Some(result) ==> self@ == (AgentStatusView::Finished {
                result: service::status_result(result),
            }),
    {
        match self {
            LaunchdStatus::Finished { result } => Some(result),
            _ => None,
        }
    }
}

// ---------------------------------------------------------------------------------------------
// Logs
// ---------------------------------------------------------------------------------------------
/// The command that reads the log file from the property list of an agent.
pub open spec fn extract_command(plist: Seq<char>) -> InvocationView {
    effect::plain_command(
        "plutil"@,
        seq!["-extract"@, "StandardOutPath"@, "raw"@, "-o"@, "-"@, plist],
    )
}

/// The path that the output of the command gives: its trimmed text, if that is not empty.
pub open spec fn output_path(output: Seq<char>) -> Option<Seq<char>> {
    if text::trim_text(output).len() > 0 {
        Some(text::trim_text(output))
    } else {
        None
    }
}

/// The log file that running the command gives, if it succeeded.
pub open spec fn extracted_log(reply: ReplyView) -> Option<Seq<char>> {
    match reply {
        ReplyView::Ran(OutcomeView::Exited { code, stdout, .. }) => if code == Some(0i32) {
            output_path(text::utf8_lossy(stdout))
        } else {
            None
        },
        _ => None,
    }
}

/// The path that the output of the command gives.
pub fn path_in_output(output: &str) -> (r: Option<String>)
    ensures
        text::opt_text(r) == output_path(output@),
{
    let path = text::trim(output);
    if path.as_str().is_empty() {
        None
    } else {
        Some(path)
    }
}

/// The log file that the property list of an agent names, if the command to read it succeeded.
pub fn launchctl_extract_stdout(reply: &Reply) -> (r: Option<String>)
    ensures
        text::opt_text(r) == extracted_log(reply@),
{
    match reply {
        Reply::Ran(Outcome::Exited { code: Some(0), stdout, .. }) => {
            let output = text::decode(stdout.as_slice());
            path_in_output(output.as_str())
        },
        _ => None,
    }
}

/// The question for the log of an agent.
#[derive(Debug)]
pub enum LaunchdLogs {
    /// The log file is read from the property list.
    Extract { plist: String, default: String, lines: usize },
    /// It is looked for the log file.
    CheckLog { log: String, lines: usize },
    /// The log file is read.
    ReadLog { log: String, lines: usize },
    /// It is over.
    Finished { result: Result<String, Error> },
}

/// The model of a [`LaunchdLogs`].
pub enum AgentLogsView {
    Extract { plist: Seq<char>, default: Seq<char>, lines: usize },
    CheckLog { log: Seq<char>, lines: usize },
    ReadLog { log: Seq<char>, lines: usize },
    Finished { result: Result<Seq<char>, ErrorView> },
}

impl View for LaunchdLogs {
    type V = AgentLogsView;

    open spec fn view(&self) -> AgentLogsView {
        match self {
            LaunchdLogs::Extract { plist, default, lines } => AgentLogsView::Extract {
                plist: plist@,
                default: default@,
                lines: *lines,
            },
            LaunchdLogs::CheckLog { log, lines } => AgentLogsView::CheckLog {
                log: log@,
                lines: *lines,
            },
            LaunchdLogs::ReadLog { log, lines } => AgentLogsView::ReadLog {
                log: log@,
                lines: *lines,
            },
            LaunchdLogs::Finished { result } => AgentLogsView::Finished {
                result: service::text_result(*result),
            },
        }
    }
}

impl AgentLogsView {
    /// The question of which nothing was done.
    pub open spec fn fresh(session: SessionView, label: Seq<char>, lines: usize) -> AgentLogsView {
        AgentLogsView::Extract {
            plist: plist_file(session, label),
            default: default_log_file(session, label),
            lines,
        }
    }

    /// What is to be done next, unless it is over.
    pub open spec fn effect(self) -> Option<EffectView> {
        match self {
            AgentLogsView::Extract { plist, .. } => Some(
                EffectView::Run { command: extract_command(plist) },
            ),
            AgentLogsView::CheckLog { log, .. } => Some(EffectView::Exists { path: log }),
            AgentLogsView::ReadLog { log, .. } => Some(EffectView::Read { path: log }),
            AgentLogsView::Finished { .. } => None,
        }
    }

    /// The question after the reply to what was to be done: the log file is the one that the
    /// property list names, or else the default one; a missing one is empty, and of another the
    /// last lines are given. A reply of another kind leaves what was to be done to be done.
    pub open spec fn after(self, reply: ReplyView) -> AgentLogsView {
        match self {
            AgentLogsView::Extract { default, lines, .. } => match reply {
                ReplyView::Ran(_) => AgentLogsView::CheckLog {
                    log: match extracted_log(reply) {
                        Some(log) => log,
                        None => default,
                    },
                    lines,
                },
                _ => self,
            },
            AgentLogsView::CheckLog { log, lines } => match reply {
                ReplyView::Flag(true) => AgentLogsView::ReadLog { log, lines },
                ReplyView::Flag(false) => AgentLogsView::Finished { result: Ok(Seq::empty()) },
                _ => self,
            },
            AgentLogsView::ReadLog { lines, .. } => match reply {
                ReplyView::Contents(contents) => AgentLogsView::Finished {
                    result: Ok(text::tail_text(contents, lines as nat)),
                },
                ReplyView::Failed(message) => AgentLogsView::Finished {
                    result: Err(ErrorView::Io(message)),
                },
                _ => self,
            },
            AgentLogsView::Finished { .. } => self,
        }
    }
}

impl LaunchdLogs {
    /// What is to be done next, unless it is over.
    pub fn pending(&self) -> (r: Option<Effect>)
        ensures
            effect::opt_effect(r) == self@.effect(),
    {
        match self {
            LaunchdLogs::Extract { plist, .. } => {
                let args = ["-extract", "StandardOutPath", "raw", "-o", "-", plist.as_str()];
                assert(text::str_texts(args@) =~= extract_command(plist@).args);
                Some(Effect::Run { command: Invocation::new("plutil", &args) })
            },
            LaunchdLogs::CheckLog { log, .. } => Some(Effect::Exists { path: log.clone() }),
            LaunchdLogs::ReadLog { log, .. } => Some(Effect::Read { path: log.clone() }),
            LaunchdLogs::Finished { .. } => None,
        }
    }

    /// Takes the reply to what was to be done.
    pub fn resume(self, reply: Reply) -> (r: LaunchdLogs)
        ensures
            r@ == self@.after(reply@),
    {
        match self {
            LaunchdLogs::Extract { plist, default, lines } => {
                if !matches!(reply, Reply::Ran(_)) {
                    return LaunchdLogs::Extract { plist, default, lines };
                }
                let log = match launchctl_extract_stdout(&reply) {
                    Some(log) => log,
                    None => default,
                };
                LaunchdLogs::CheckLog { log, lines }
            },
            LaunchdLogs::CheckLog { log, lines } => match reply {
                Reply::Flag(true) => LaunchdLogs::ReadLog { log, lines },
                Reply::Flag(false) => LaunchdLogs::Finished { result: Ok(String::new()) },
                _ => LaunchdLogs::CheckLog { log, lines },
            },
            LaunchdLogs::ReadLog { log, lines } => match reply {
                Reply::Contents(contents) => LaunchdLogs::Finished {
                    result: Ok(text::tail_lines(contents.as_str(), lines)),
                },
                Reply::Failed(message) => LaunchdLogs::Finished {
                    result: Err(Error::Io(message)),
                },
                _ => LaunchdLogs::ReadLog { log, lines },
            },
            LaunchdLogs::Finished { result } => LaunchdLogs::Finished { result },
        }
    }

    /// The answer, if it is there.
    pub fn outcome(self) -> (r: Option<Result<String, Error>>)
        ensures
            r is Some <==> self@ is Finished,
            r matches Some(result) ==> self@ == (AgentLogsView::Finished {
                result: service::text_result(result),
            }),
    {
        match self {
            LaunchdLogs::Finished { result } => Some(result),
            _ => None,
        }
    }
}

// ---------------------------------------------------------------------------------------------
// Operations
// ---------------------------------------------------------------------------------------------
impl LaunchdAgent {
    /// The agents of the user's login session.
    pub fn new() -> (r: LaunchdAgent)
        ensures
            r == LaunchdAgent,
    {
        LaunchdAgent
    }

    /// Puts the property list of a service in its place, with a log file in any case.
    pub fn install(&self, session: &Session, spec: &ServiceSpec) -> (r: Plan)
        ensures
            r@ == PlanView::fresh(install_steps(session@, spec@)),
    {
        let mut full = spec.clone();
        let log = match &spec.log_path {
            Some(path) => path.clone(),
            None => default_log(session, spec.label.as_str()),
        };
        full.log_path = Some(log.clone());
        assert(full@ == with_log(session@, spec@));
        let plist = plist_path(session, spec.label.as_str());
        let steps = vec![
            Step { effect: Effect::CreateParent { path: log }, check: Check::Ignored },
            Step { effect: Effect::CreateParent { path: plist.clone() }, check: Check::Completed },
            Step {
                effect: Effect::Write { path: plist, contents: render::launchd_plist(&full) },
                check: Check::Completed,
            },
        ];
        assert(plan::step_views(steps@) =~= install_steps(session@, spec@));
        Plan::new(steps)
    }

    /// Loads an agent that is installed, and kicks it.
    pub fn start(&self, session: &Session, label: &str) -> (r: Launch)
        ensures
            r@ == LaunchView::fresh(session@, label@, Stage::CheckInstalled),
            r@.wf(),
    {
        Launch::fresh(session, label, Stage::CheckInstalled)
    }

    /// Unloads an agent.
    pub fn stop(&self, session: &Session, label: &str) -> (r: Plan)
        ensures
            r@ == PlanView::fresh(stop_steps(session@, label@)),
    {
        let target = gui_target(session.uid, label);
        let args = ["bootout", target.as_str()];
        assert(text::str_texts(args@) =~= seq!["bootout"@, target@]);
        let steps = vec![
            Step {
                effect: Effect::Run { command: launchctl(&args) },
                check: Check::Started { context: "launchctl bootout".to_owned() },
            },
        ];
        assert(plan::step_views(steps@) =~= stop_steps(session@, label@));
        Plan::new(steps)
    }

    /// Kicks an agent that is loaded, and starts another.
    pub fn restart(&self, session: &Session, label: &str) -> (r: Launch)
        ensures
            r@ == LaunchView::fresh(session@, label@, Stage::Kickstart),
            r@.wf(),
    {
        Launch::fresh(session, label, Stage::Kickstart)
    }

    /// Asks how an agent is doing.
    pub fn status(&self, session: &Session, label: &str) -> (r: LaunchdStatus)
        ensures
            r@ == AgentStatusView::fresh(session@, label@),
    {
        let target = gui_target(session.uid, label);
        let args = ["print", target.as_str()];
        assert(text::str_texts(args@) =~= seq!["print"@, target@]);
        LaunchdStatus::CheckInstalled {
            plist: plist_path(session, label),
            command: launchctl(&args),
        }
    }

    /// Asks for the last lines of the log of an agent.
    pub fn logs(&self, session: &Session, label: &str, lines: usize) -> (r: LaunchdLogs)
        ensures
            r@ == AgentLogsView::fresh(session@, label@, lines),
    {
        LaunchdLogs::Extract {
            plist: plist_path(session, label),
            default: default_log(session, label),
            lines,
        }
    }
}

} // verus!
