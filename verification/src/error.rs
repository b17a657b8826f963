//! Errors of the system layer.
use vstd::prelude::*;

use crate::text::{chars_of, concat};

verus! {

/// `std::io::Error`, carried through the library unopened.
#[verifier::external_type_specification]
#[verifier::external_body]
pub struct ExIoError(std::io::Error);

/// The text of an I/O error: a call of its `Display` implementation
/// (`to_string`). What the text says depends on the operating system's
/// description of the error, so nothing is stated of it.
#[verifier::external_body]
pub(crate) fn io_error_text(e: &std::io::Error) -> String {
    e.to_string()
}

/// Errors that can occur while reading system state.
///
/// These are always recoverable from the desktop's point of view: if a
/// statistic cannot be read, the UI shows a placeholder rather than
/// failing the whole application.
#[derive(Debug)]
pub enum SystemError {
    /// An underlying file could not be read (`/proc`, `/sys`, ...).
    Io(std::io::Error),
    /// The data was read but could not be parsed.
    Parse(String),
}

impl SystemError {
    /// A parse error with the given description.
    pub fn parse(what: &str) -> (e: SystemError)
        ensures
            e matches SystemError::Parse(w) && w@ == what@,
    {
        SystemError::Parse(crate::text::string_of(&chars_of(what)))
    }

    /// The message shown for this error.
    pub fn to_string(&self) -> (s: String)
        ensures
            match self {
                SystemError::Parse(what) => s@ == "could not parse system data: "@ + what@,
                SystemError::Io(_) => exists|t: Seq<char>|
                    s@ == "I/O error while reading system state: "@ + t,
            },
    {
        match self {
            SystemError::Parse(what) => concat("could not parse system data: ", what.as_str()),
            SystemError::Io(e) => {
                let t = io_error_text(e);
                let s = concat("I/O error while reading system state: ", t.as_str());
                assert(s@ == "I/O error while reading system state: "@ + t@);
                s
            },
        }
    }
}

} // verus!
