//! What a service is, and what can be said of one.

use crate::text;
use vstd::prelude::*;

verus! {

/// The launchd scheduling class of a service.
#[derive(Clone, Copy, Debug, PartialEq, Eq, Structural)]
pub enum ProcessType {
    /// Throttled in favour of the user's foreground work.
    Background,
    /// No special treatment.
    Standard,
}

impl ProcessType {
    /// The name that launchd gives the class.
    pub open spec fn name(self) -> Seq<char> {
        match self {
            ProcessType::Background => "Background"@,
            ProcessType::Standard => "Standard"@,
        }
    }

    /// The name that launchd gives the class.
    pub fn as_str(&self) -> (r: &'static str)
        ensures
            r@ == self.name(),
    {
        match self {
            ProcessType::Background => "Background",
            ProcessType::Standard => "Standard",
        }
    }
}

/// A service: what to run, how, and when. Paths are text.
#[derive(Debug, PartialEq, Eq)]
pub struct ServiceSpec {
    /// The name under which the service is installed.
    pub label: String,
    /// The program, an absolute path.
    pub program: String,
    /// The program's arguments.
    pub args: Vec<String>,
    /// Bundle identifiers of the applications that own the service (macOS only).
    pub associated_bundle_identifiers: Vec<String>,
    /// The directory that the program runs in.
    pub working_dir: Option<String>,
    /// Environment variables, in the order in which they were given.
    pub env: Vec<(String, String)>,
    /// Whether the service starts at login.
    pub run_at_load: bool,
    /// Whether the service is restarted when it goes down.
    pub keep_alive: bool,
    /// The file that receives the program's output.
    pub log_path: Option<String>,
    /// The scheduling class (macOS only).
    pub process_type: ProcessType,
}

/// The model of a [`ServiceSpec`].
#[verifier::ext_equal]
pub struct ServiceSpecView {
    pub label: Seq<char>,
    pub program: Seq<char>,
    pub args: Seq<Seq<char>>,
    pub associated_bundle_identifiers: Seq<Seq<char>>,
    pub working_dir: Option<Seq<char>>,
    pub env: Seq<(Seq<char>, Seq<char>)>,
    pub run_at_load: bool,
    pub keep_alive: bool,
    pub log_path: Option<Seq<char>>,
    pub process_type: ProcessType,
}

/// The views of a sequence of pairs of strings.
pub open spec fn pairs(v: Seq<(String, String)>) -> Seq<(Seq<char>, Seq<char>)> {
    Seq::new(v.len(), |i: int| (v[i].0@, v[i].1@))
}

/// A copy of a list of pairs of strings.
pub fn copy_pairs(list: &Vec<(String, String)>) -> (v: Vec<(String, String)>)
    ensures
        pairs(v@) == pairs(list@),
{
    let mut v: Vec<(String, String)> = Vec::new();
    let mut i: usize = 0;
    while i < list.len()
        invariant
            i <= list.len(),
            v.len() == i,
            forall|j: int|
                0 <= j < i ==> (#[trigger] v@[j]).0@ == list@[j].0@ && v@[j].1@ == list@[j].1@,
        decreases list.len() - i,
    {
        v.push((list[i].0.clone(), list[i].1.clone()));
        i += 1;
    }
    v
}

impl View for ServiceSpec {
    type V = ServiceSpecView;

    open spec fn view(&self) -> ServiceSpecView {
        ServiceSpecView {
            label: self.label@,
            program: self.program@,
            args: text::texts(self.args@),
            associated_bundle_identifiers: text::texts(self.associated_bundle_identifiers@),
            working_dir: text::opt_text(self.working_dir),
            env: pairs(self.env@),
            run_at_load: self.run_at_load,
            keep_alive: self.keep_alive,
            log_path: text::opt_text(self.log_path),
            process_type: self.process_type,
        }
    }
}

impl Clone for ServiceSpec {
    fn clone(&self) -> (r: ServiceSpec)
        ensures
            r@ == self@,
    {
        ServiceSpec {
            label: self.label.clone(),
            program: self.program.clone(),
            args: text::copy_texts(&self.args),
            associated_bundle_identifiers: text::copy_texts(&self.associated_bundle_identifiers),
            working_dir: text::copy_opt(&self.working_dir),
            env: copy_pairs(&self.env),
            run_at_load: self.run_at_load,
            keep_alive: self.keep_alive,
            log_path: text::copy_opt(&self.log_path),
            process_type: self.process_type,
        }
    }
}

/// A service that runs `program` without arguments, starts at login and is kept alive, in the
/// background class.
pub open spec fn plain_service(label: Seq<char>, program: Seq<char>) -> ServiceSpecView {
    ServiceSpecView {
        label,
        program,
        args: Seq::empty(),
        associated_bundle_identifiers: Seq::empty(),
        working_dir: None,
        env: Seq::empty(),
        run_at_load: true,
        keep_alive: true,
        log_path: None,
        process_type: ProcessType::Background,
    }
}

impl ServiceSpec {
    /// A service that runs `program` without arguments, starts at login and is kept alive.
    pub fn new(label: &str, program: &str) -> (r: ServiceSpec)
        ensures
            r@ == plain_service(label@, program@),
    {
        ServiceSpec {
            label: label.to_owned(),
            program: program.to_owned(),
            args: Vec::new(),
            associated_bundle_identifiers: Vec::new(),
            working_dir: None,
            env: Vec::new(),
            run_at_load: true,
            keep_alive: true,
            log_path: None,
            process_type: ProcessType::Background,
        }
    }

    /// Adds one argument.
    pub fn arg(self, arg: &str) -> (r: ServiceSpec)
        ensures
            r@ == (ServiceSpecView { args: self@.args.push(arg@), ..self@ }),
    {
        let mut r = self;
        r.args.push(arg.to_owned());
        r
    }

    /// Adds arguments.
    pub fn args(self, args: &[&str]) -> (r: ServiceSpec)
        ensures
            r@ == (ServiceSpecView { args: self@.args + text::str_texts(args@), ..self@ }),
    {
        let mut r = self;
        let mut more = text::words(args);
        r.args.append(&mut more);
        r
    }

    /// Sets an environment variable.
    pub fn env(self, key: &str, value: &str) -> (r: ServiceSpec)
        ensures
            r@ == (ServiceSpecView { env: self@.env.push((key@, value@)), ..self@ }),
    {
        let mut r = self;
        r.env.push((key.to_owned(), value.to_owned()));
        r
    }

    /// Sets the working directory.
    pub fn working_dir(self, dir: &str) -> (r: ServiceSpec)
        ensures
            r@ == (ServiceSpecView { working_dir: Some(dir@), ..self@ }),
    {
        let mut r = self;
        r.working_dir = Some(dir.to_owned());
        r
    }

    /// Sets the file that receives the program's output.
    pub fn log_path(self, path: &str) -> (r: ServiceSpec)
        ensures
            r@ == (ServiceSpecView { log_path: Some(path@), ..self@ }),
    {
        let mut r = self;
        r.log_path = Some(path.to_owned());
        r
    }

    /// Sets whether the service starts at login.
    pub fn run_at_load(self, on: bool) -> (r: ServiceSpec)
        ensures
            r@ == (ServiceSpecView { run_at_load: on, ..self@ }),
    {
        let mut r = self;
        r.run_at_load = on;
        r
    }

    /// Sets whether the service is restarted when it goes down.
    pub fn keep_alive(self, on: bool) -> (r: ServiceSpec)
        ensures
            r@ == (ServiceSpecView { keep_alive: on, ..self@ }),
    {
        let mut r = self;
        r.keep_alive = on;
        r
    }

    /// Sets the scheduling class.
    pub fn process_type(self, process_type: ProcessType) -> (r: ServiceSpec)
        ensures
            r@ == (ServiceSpecView { process_type, ..self@ }),
    {
        let mut r = self;
        r.process_type = process_type;
        r
    }

    /// Sets the bundle identifiers of the applications that own the service.
    pub fn associated_bundle_identifiers(self, identifiers: &[&str]) -> (r: ServiceSpec)
        ensures
            r@ == (ServiceSpecView {
                associated_bundle_identifiers: text::str_texts(identifiers@),
                ..self@
            }),
    {
        let mut r = self;
        r.associated_bundle_identifiers = text::words(identifiers);
        r
    }
}

/// How a service is doing.
#[derive(Debug, PartialEq, Eq)]
pub enum ServiceStatus {
    /// Nothing is installed under the label.
    NotInstalled,
    /// The service is installed and down.
    Stopped,
    /// The service is up.
    Running { pid: Option<u32> },
    /// The service went down by itself.
    Failed { reason: String },
}

/// The model of a [`ServiceStatus`].
pub enum StatusView {
    NotInstalled,
    Stopped,
    Running { pid: Option<u32> },
    Failed { reason: Seq<char> },
}

impl View for ServiceStatus {
    type V = StatusView;

    open spec fn view(&self) -> StatusView {
        match self {
            ServiceStatus::NotInstalled => StatusView::NotInstalled,
            ServiceStatus::Stopped => StatusView::Stopped,
            ServiceStatus::Running { pid } => StatusView::Running { pid: *pid },
            ServiceStatus::Failed { reason } => StatusView::Failed { reason: reason@ },
        }
    }
}

impl Clone for ServiceStatus {
    fn clone(&self) -> (r: ServiceStatus)
        ensures
            r@ == self@,
    {
        match self {
            ServiceStatus::NotInstalled => ServiceStatus::NotInstalled,
            ServiceStatus::Stopped => ServiceStatus::Stopped,
            ServiceStatus::Running { pid } => ServiceStatus::Running { pid: *pid },
            ServiceStatus::Failed { reason } => ServiceStatus::Failed { reason: reason.clone() },
        }
    }
}

/// Why an operation on a service failed.
#[derive(Debug, PartialEq, Eq)]
pub enum Error {
    /// A command could not be run or reported a failure.
    Command(String),
    /// The host cannot do what was asked.
    Unsupported(String),
    /// A file operation failed.
    Io(String),
}

/// The model of an [`Error`].
pub enum ErrorView {
    Command(Seq<char>),
    Unsupported(Seq<char>),
    Io(Seq<char>),
}

impl View for Error {
    type V = ErrorView;

    open spec fn view(&self) -> ErrorView {
        match self {
            Error::Command(m) => ErrorView::Command(m@),
            Error::Unsupported(m) => ErrorView::Unsupported(m@),
            Error::Io(m) => ErrorView::Io(m@),
        }
    }
}

impl Clone for Error {
    fn clone(&self) -> (r: Error)
        ensures
            r@ == self@,
    {
        match self {
            Error::Command(m) => Error::Command(m.clone()),
            Error::Unsupported(m) => Error::Unsupported(m.clone()),
            Error::Io(m) => Error::Io(m.clone()),
        }
    }
}

/// The model of a result that holds a status.
pub open spec fn status_result(r: Result<ServiceStatus, Error>) -> Result<StatusView, ErrorView> {
    match r {
        Ok(s) => Ok(s@),
        Err(e) => Err(e@),
    }
}

/// The model of a result that holds text.
pub open spec fn text_result(r: Result<String, Error>) -> Result<Seq<char>, ErrorView> {
    match r {
        Ok(s) => Ok(s@),
        Err(e) => Err(e@),
    }
}

} // verus!
