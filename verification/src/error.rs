//! The errors that the cockpit reports.

use crate::text::{decimal, push_decimal};
use vstd::prelude::*;

verus! {

/// Why an operation failed. The first two carry the text of the underlying error.
#[derive(Debug)]
pub enum CockpitError {
    Io(String),
    Json(String),
    ProcessNotFound(u32),
    KillFailed(u32),
}

/// An error, with its text as a sequence of characters.
pub enum ErrorModel {
    Io(Seq<char>),
    Json(Seq<char>),
    ProcessNotFound(u32),
    KillFailed(u32),
}

impl View for CockpitError {
    type V = ErrorModel;

    open spec fn view(&self) -> ErrorModel {
        match *self {
            CockpitError::Io(text) => ErrorModel::Io(text@),
            CockpitError::Json(text) => ErrorModel::Json(text@),
            CockpitError::ProcessNotFound(pid) => ErrorModel::ProcessNotFound(pid),
            CockpitError::KillFailed(pid) => ErrorModel::KillFailed(pid),
        }
    }
}

impl ErrorModel {
    /// The message that stands for the error in a reply.
    pub open spec fn message(self) -> Seq<char> {
        match self {
            ErrorModel::Io(text) => "I/O error: "@ + text,
            ErrorModel::Json(text) => "JSON error: "@ + text,
            ErrorModel::ProcessNotFound(pid) => "Process not found: PID "@ + decimal(pid as nat),
            ErrorModel::KillFailed(pid) => "Failed to terminate process: PID "@ + decimal(
                pid as nat,
            ),
        }
    }
}

impl CockpitError {
    /// The message that stands for the error in a reply.
    pub fn message(&self) -> (message: String)
        ensures
            message@ == self@.message(),
    {
        match self {
            CockpitError::Io(text) => {
                let mut out = "I/O error: ".to_owned();
                out.append(text.as_str());
                out
            },
            CockpitError::Json(text) => {
                let mut out = "JSON error: ".to_owned();
                out.append(text.as_str());
                out
            },
            CockpitError::ProcessNotFound(pid) => {
                let mut out = "Process not found: PID ".to_owned();
                push_decimal(&mut out, *pid);
                out
            },
            CockpitError::KillFailed(pid) => {
                let mut out = "Failed to terminate process: PID ".to_owned();
                push_decimal(&mut out, *pid);
                out
            },
        }
    }
}

} // verus!
