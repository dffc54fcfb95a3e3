//! What an operation asks of the host, and what the host answers.
//!
//! The library performs no input or output. An operation is a value that names the next effect it
//! needs; the caller performs it and hands the reply back. A reply of a kind that the effect cannot
//! have changes nothing: the effect is still needed.

use crate::service;
use crate::service::{Error, ErrorView};
use crate::text;
use vstd::prelude::*;
use vstd::string::*;

verus! {

// ---------------------------------------------------------------------------------------------
// Commands
// ---------------------------------------------------------------------------------------------
/// A command to run: a program, its arguments, and the variables added to its environment.
#[derive(Debug, PartialEq, Eq)]
pub struct Invocation {
    pub program: String,
    pub args: Vec<String>,
    pub env: Vec<(String, String)>,
}

/// The model of an [`Invocation`].
#[verifier::ext_equal]
pub struct InvocationView {
    pub program: Seq<char>,
    pub args: Seq<Seq<char>>,
    pub env: Seq<(Seq<char>, Seq<char>)>,
}

impl View for Invocation {
    type V = InvocationView;

    open spec fn view(&self) -> InvocationView {
        InvocationView {
            program: self.program@,
            args: text::texts(self.args@),
            env: service::pairs(self.env@),
        }
    }
}

/// A command in an unchanged environment.
pub open spec fn plain_command(program: Seq<char>, args: Seq<Seq<char>>) -> InvocationView {
    InvocationView { program, args, env: Seq::empty() }
}

impl Invocation {
    /// A command in an unchanged environment.
    pub fn new(program: &str, args: &[&str]) -> (r: Invocation)
        ensures
            r@ == plain_command(program@, text::str_texts(args@)),
    {
        Invocation { program: program.to_owned(), args: text::words(args), env: Vec::new() }
    }

    /// The same command with one more variable in its environment.
    pub fn with_env(self, key: &str, value: &str) -> (r: Invocation)
        ensures
            r@ == (InvocationView { env: self@.env.push((key@, value@)), ..self@ }),
    {
        let mut r = self;
        r.env.push((key.to_owned(), value.to_owned()));
        r
    }
}

impl Clone for Invocation {
    fn clone(&self) -> (r: Invocation)
        ensures
            r@ == self@,
    {
        Invocation {
            program: self.program.clone(),
            args: text::copy_texts(&self.args),
            env: service::copy_pairs(&self.env),
        }
    }
}

/// How running a command went.
#[derive(Debug, PartialEq, Eq)]
pub enum Outcome {
    /// It could not be started.
    NotStarted { error: String },
    /// It ran. There is no code if a signal ended it.
    Exited { code: Option<i32>, stdout: Vec<u8>, stderr: Vec<u8> },
}

/// The model of an [`Outcome`].
pub enum OutcomeView {
    NotStarted { error: Seq<char> },
    Exited { code: Option<i32>, stdout: Seq<u8>, stderr: Seq<u8> },
}

impl View for Outcome {
    type V = OutcomeView;

    open spec fn view(&self) -> OutcomeView {
        match self {
            Outcome::NotStarted { error } => OutcomeView::NotStarted { error: error@ },
            Outcome::Exited { code, stdout, stderr } => OutcomeView::Exited {
                code: *code,
                stdout: stdout@,
                stderr: stderr@,
            },
        }
    }
}

impl OutcomeView {
    /// Whether the command ran and reported success.
    pub open spec fn success(self) -> bool {
        self matches OutcomeView::Exited { code, .. } && code == Some(0i32)
    }
}

impl Outcome {
    /// Whether the command ran and reported success.
    pub fn succeeded(&self) -> (r: bool)
        ensures
            r == self@.success(),
    {
        match self {
            Outcome::Exited { code: Some(c), .. } => *c == 0,
            _ => false,
        }
    }
}

/// How an exit code is named: a command that a signal ended has none.
pub open spec fn code_text(code: Option<i32>) -> Seq<char> {
    match code {
        Some(c) => text::signed_text(c as int),
        None => "signal"@,
    }
}

/// What a failed command had to say: its trimmed error output, or its trimmed output if that is
/// empty.
pub open spec fn complaint(stderr: Seq<char>, stdout: Seq<char>) -> Seq<char> {
    if text::trim_text(stderr).len() > 0 {
        text::trim_text(stderr)
    } else {
        text::trim_text(stdout)
    }
}

/// The message of a command that ran and failed.
pub open spec fn failure_text(
    context: Seq<char>,
    code: Option<i32>,
    stderr: Seq<char>,
    stdout: Seq<char>,
) -> Seq<char> {
    context + ": exited "@ + code_text(code) + ": "@ + complaint(stderr, stdout)
}

/// The message of a command that ran and failed.
pub fn failure_message(context: &str, code: Option<i32>, stderr: &str, stdout: &str) -> (r: String)
    ensures
        r@ == failure_text(context@, code, stderr@, stdout@),
{
    let mut r = context.to_owned();
    r.append(": exited ");
    match code {
        Some(c) => {
            let digits = text::signed_decimal(c);
            r.append(digits.as_str());
        },
        None => {
            r.append("signal");
        },
    }
    r.append(": ");
    let tail = text::trim(stderr);
    if tail.as_str().is_empty() {
        let tail = text::trim(stdout);
        r.append(tail.as_str());
    } else {
        r.append(tail.as_str());
    }
    r
}

/// The error of a command that must succeed: none if it did, otherwise why it could not be
/// started, or its exit code and what it had to say.
pub open spec fn run_error(context: Seq<char>, outcome: OutcomeView) -> Option<ErrorView> {
    match outcome {
        OutcomeView::NotStarted { error } => Some(
            ErrorView::Command(context + ": spawn failed: "@ + error),
        ),
        OutcomeView::Exited { code, stdout, stderr } => if code == Some(0i32) {
            None
        } else {
            Some(
                ErrorView::Command(
                    failure_text(
                        context,
                        code,
                        text::utf8_lossy(stderr),
                        text::utf8_lossy(stdout),
                    ),
                ),
            )
        },
    }
}

/// The view of an optional error.
pub open spec fn opt_error(e: Option<Error>) -> Option<ErrorView> {
    match e {
        Some(e) => Some(e@),
        None => None,
    }
}

/// The error of a command that must succeed, if it did not.
pub fn run(context: &str, outcome: &Outcome) -> (r: Option<Error>)
    ensures
        opt_error(r) == run_error(context@, outcome@),
{
    match outcome {
        Outcome::NotStarted { error } => {
            let mut m = context.to_owned();
            m.append(": spawn failed: ");
            m.append(error.as_str());
            Some(Error::Command(m))
        },
        Outcome::Exited { code, stdout, stderr } => {
            if outcome.succeeded() {
                None
            } else {
                let err = text::decode(stderr.as_slice());
                let out = text::decode(stdout.as_slice());
                Some(Error::Command(failure_message(context, *code, err.as_str(), out.as_str())))
            }
        },
    }
}

// ---------------------------------------------------------------------------------------------
// Effects and replies
// ---------------------------------------------------------------------------------------------
/// Something an operation asks the host to do.
#[derive(Debug, PartialEq, Eq)]
pub enum Effect {
    /// Say whether there is a directory at the path.
    IsDir { path: String },
    /// Say whether there is anything at the path.
    Exists { path: String },
    /// Create the directory and the missing ones above it.
    CreateDir { path: String },
    /// Create the directory that holds the path, if it has one, and the missing ones above it.
    CreateParent { path: String },
    /// Replace the contents of a file.
    Write { path: String, contents: String },
    /// Read a file.
    Read { path: String },
    /// Run a command and capture its output.
    Run { command: Invocation },
    /// Run a command on the caller's own input and output.
    RunAttached { command: Invocation },
    /// Start the timer.
    StartTimer,
    /// Say how many milliseconds have passed since the timer was started.
    ReadTimer,
    /// Wait.
    Sleep { millis: u64 },
}

/// The model of an [`Effect`].
pub enum EffectView {
    IsDir { path: Seq<char> },
    Exists { path: Seq<char> },
    CreateDir { path: Seq<char> },
    CreateParent { path: Seq<char> },
    Write { path: Seq<char>, contents: Seq<char> },
    Read { path: Seq<char> },
    Run { command: InvocationView },
    RunAttached { command: InvocationView },
    StartTimer,
    ReadTimer,
    Sleep { millis: u64 },
}

impl View for Effect {
    type V = EffectView;

    open spec fn view(&self) -> EffectView {
        match self {
            Effect::IsDir { path } => EffectView::IsDir { path: path@ },
            Effect::Exists { path } => EffectView::Exists { path: path@ },
            Effect::CreateDir { path } => EffectView::CreateDir { path: path@ },
            Effect::CreateParent { path } => EffectView::CreateParent { path: path@ },
            Effect::Write { path, contents } => EffectView::Write {
                path: path@,
                contents: contents@,
            },
            Effect::Read { path } => EffectView::Read { path: path@ },
            Effect::Run { command } => EffectView::Run { command: command@ },
            Effect::RunAttached { command } => EffectView::RunAttached { command: command@ },
            Effect::StartTimer => EffectView::StartTimer,
            Effect::ReadTimer => EffectView::ReadTimer,
            Effect::Sleep { millis } => EffectView::Sleep { millis: *millis },
        }
    }
}

impl Clone for Effect {
    fn clone(&self) -> (r: Effect)
        ensures
            r@ == self@,
    {
        match self {
            Effect::IsDir { path } => Effect::IsDir { path: path.clone() },
            Effect::Exists { path } => Effect::Exists { path: path.clone() },
            Effect::CreateDir { path } => Effect::CreateDir { path: path.clone() },
            Effect::CreateParent { path } => Effect::CreateParent { path: path.clone() },
            Effect::Write { path, contents } => Effect::Write {
                path: path.clone(),
                contents: contents.clone(),
            },
            Effect::Read { path } => Effect::Read { path: path.clone() },
            Effect::Run { command } => Effect::Run { command: command.clone() },
            Effect::RunAttached { command } => Effect::RunAttached { command: command.clone() },
            Effect::StartTimer => Effect::StartTimer,
            Effect::ReadTimer => Effect::ReadTimer,
            Effect::Sleep { millis } => Effect::Sleep { millis: *millis },
        }
    }
}

/// The view of an optional effect.
pub open spec fn opt_effect(e: Option<Effect>) -> Option<EffectView> {
    match e {
        Some(e) => Some(e@),
        None => None,
    }
}

/// What the host answers to an effect.
#[derive(Debug, PartialEq, Eq)]
pub enum Reply {
    /// To a question: yes or no.
    Flag(bool),
    /// It was done.
    Done,
    /// It failed, and why.
    Failed(String),
    /// The contents of a file.
    Contents(String),
    /// How a command went.
    Ran(Outcome),
    /// The milliseconds on the timer.
    Elapsed(u64),
}

/// The model of a [`Reply`].
pub enum ReplyView {
    Flag(bool),
    Done,
    Failed(Seq<char>),
    Contents(Seq<char>),
    Ran(OutcomeView),
    Elapsed(u64),
}

impl View for Reply {
    type V = ReplyView;

    open spec fn view(&self) -> ReplyView {
        match self {
            Reply::Flag(b) => ReplyView::Flag(*b),
            Reply::Done => ReplyView::Done,
            Reply::Failed(m) => ReplyView::Failed(m@),
            Reply::Contents(s) => ReplyView::Contents(s@),
            Reply::Ran(o) => ReplyView::Ran(o@),
            Reply::Elapsed(ms) => ReplyView::Elapsed(*ms),
        }
    }
}

impl ReplyView {
    /// Whether the answer is yes.
    pub open spec fn yes(self) -> bool {
        self == ReplyView::Flag(true)
    }

    /// Whether a command ran and reported success.
    pub open spec fn success(self) -> bool {
        self matches ReplyView::Ran(o) && o.success()
    }
}

impl EffectView {
    /// Whether the reply is of a kind that the effect can have.
    pub open spec fn answered_by(self, reply: ReplyView) -> bool {
        match self {
            EffectView::IsDir { .. } | EffectView::Exists { .. } => reply is Flag,
            EffectView::CreateDir { .. } | EffectView::CreateParent { .. }
            | EffectView::Write { .. } => reply is Done || reply is Failed,
            EffectView::Read { .. } => reply is Contents || reply is Failed,
            EffectView::Run { .. } | EffectView::RunAttached { .. } => reply is Ran,
            EffectView::StartTimer | EffectView::Sleep { .. } => reply is Done,
            EffectView::ReadTimer => reply is Elapsed,
        }
    }
}

impl Effect {
    /// Whether the reply is of a kind that the effect can have.
    pub fn is_answered_by(&self, reply: &Reply) -> (r: bool)
        ensures
            r == self@.answered_by(reply@),
    {
        match self {
            Effect::IsDir { .. } | Effect::Exists { .. } => matches!(reply, Reply::Flag(_)),
            Effect::CreateDir { .. } | Effect::CreateParent { .. } | Effect::Write { .. } => {
                matches!(reply, Reply::Done | Reply::Failed(_))
            },
            Effect::Read { .. } => matches!(reply, Reply::Contents(_) | Reply::Failed(_)),
            Effect::Run { .. } | Effect::RunAttached { .. } => matches!(reply, Reply::Ran(_)),
            Effect::StartTimer | Effect::Sleep { .. } => matches!(reply, Reply::Done),
            Effect::ReadTimer => matches!(reply, Reply::Elapsed(_)),
        }
    }
}

impl Reply {
    /// Whether the answer is yes.
    pub fn is_yes(&self) -> (r: bool)
        ensures
            r == self@.yes(),
    {
        match self {
            Reply::Flag(b) => *b,
            _ => false,
        }
    }

    /// Whether a command ran and reported success.
    pub fn is_success(&self) -> (r: bool)
        ensures
            r == self@.success(),
    {
        match self {
            Reply::Ran(o) => o.succeeded(),
            _ => false,
        }
    }
}

} // verus!
