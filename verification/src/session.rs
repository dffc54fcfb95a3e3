//! The user on whose behalf services are managed.

use crate::text;
use vstd::prelude::*;

verus! {

/// The user, and what the environment says. A variable that is not set is `None`, and so is one
/// other than `HOME` that is not text.
#[derive(Debug)]
pub struct Session {
    /// The user's number.
    pub uid: u32,
    /// `HOME`. Paths are text, so a home directory that is not text cannot be given.
    pub home: Option<String>,
    /// `XDG_RUNTIME_DIR`.
    pub runtime_dir: Option<String>,
    /// `DBUS_SESSION_BUS_ADDRESS`.
    pub bus_address: Option<String>,
    /// `USER`.
    pub user: Option<String>,
    /// `LOGNAME`.
    pub logname: Option<String>,
}

/// The model of a [`Session`].
pub struct SessionView {
    pub uid: u32,
    pub home: Option<Seq<char>>,
    pub runtime_dir: Option<Seq<char>>,
    pub bus_address: Option<Seq<char>>,
    pub user: Option<Seq<char>>,
    pub logname: Option<Seq<char>>,
}

impl View for Session {
    type V = SessionView;

    open spec fn view(&self) -> SessionView {
        SessionView {
            uid: self.uid,
            home: text::opt_text(self.home),
            runtime_dir: text::opt_text(self.runtime_dir),
            bus_address: text::opt_text(self.bus_address),
            user: text::opt_text(self.user),
            logname: text::opt_text(self.logname),
        }
    }
}

} // verus!
