//! The errors the launcher reports.

use vstd::prelude::*;

use crate::text::concat3;

verus! {

/// What went wrong, with a human readable detail.
#[derive(Debug)]
pub enum QuicktermError {
    /// The configuration file could not be used.
    InvalidConfig(String),
    /// A shell name that the configuration does not know.
    UnknownShell(String),
    /// A command template could not be expanded or split.
    Expansion(String),
    /// The menu program could not be run.
    Menu(String),
    /// The window manager's IPC failed.
    Ipc(String),
    /// An input/output operation failed.
    Io(String),
    /// JSON (de)serialisation failed.
    Json(String),
}

/// The message shown for an error: a fixed prefix per kind, then the detail.
pub open spec fn error_message(e: QuicktermError) -> Seq<char> {
    match e {
        QuicktermError::InvalidConfig(m) => "invalid config file: "@ + m@,
        QuicktermError::UnknownShell(m) => "unknown shell: "@ + m@,
        QuicktermError::Expansion(m) => "failed to expand command: "@ + m@,
        QuicktermError::Menu(m) => "failed to run menu: "@ + m@,
        QuicktermError::Ipc(m) => "ipc error: "@ + m@,
        QuicktermError::Io(m) => "io error: "@ + m@,
        QuicktermError::Json(m) => "json error: "@ + m@,
    }
}

impl QuicktermError {
    /// The message shown to the user for this error.
    pub fn message(&self) -> (s: String)
        ensures
            s@ == error_message(*self),
    {
        let r = match self {
            QuicktermError::InvalidConfig(m) => concat3("invalid config file: ", m.as_str(), ""),
            QuicktermError::UnknownShell(m) => concat3("unknown shell: ", m.as_str(), ""),
            QuicktermError::Expansion(m) => concat3("failed to expand command: ", m.as_str(), ""),
            QuicktermError::Menu(m) => concat3("failed to run menu: ", m.as_str(), ""),
            QuicktermError::Ipc(m) => concat3("ipc error: ", m.as_str(), ""),
            QuicktermError::Io(m) => concat3("io error: ", m.as_str(), ""),
            QuicktermError::Json(m) => concat3("json error: ", m.as_str(), ""),
        };
        proof {
            reveal_strlit("");
        }
        assert(r@ == error_message(*self));
        r
    }
}

} // verus!
