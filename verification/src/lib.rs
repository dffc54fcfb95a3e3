//! Per-user background services.
//!
//! A [`service::ServiceSpec`] says what to run, and when. On Linux it becomes a unit of the user's
//! systemd manager ([`systemd::SystemdUser`]), on macOS an agent of the user's login session
//! ([`launchd::LaunchdAgent`]). The library renders the files and decides what is to be done; it
//! performs no input or output. An operation is a value that names the next [`effect::Effect`] it
//! needs and takes the [`effect::Reply`] to it, until it is over.
//!
//! What all this amounts to is stated apart from how it is computed: [`plist_reader`] and
//! [`unit_reader`] read the rendered files back, [`systemd_meaning`] and [`launchd_meaning`] say what
//! each operation does and reports, and the modules whose names end in `_laws`, with
//! [`plist_readback`], hold the other laws.

pub mod effect;
pub mod launchd;
pub mod launchd_laws;
pub mod launchd_meaning;
pub mod path;
pub mod plan;
pub mod plist_laws;
pub mod plist_readback;
pub mod plist_reader;
pub mod render;
pub mod service;
pub mod session;
pub mod systemd;
pub mod systemd_laws;
pub mod systemd_meaning;
pub mod text;
pub mod text_laws;
pub mod unit_laws;
pub mod unit_reader;
pub mod view_laws;
pub mod xml_laws;
