//! The ways in which a run can end without a rendered response.

use vstd::prelude::*;
use crate::text::{decimal, push_decimal};
use vstd::string::StringExecFns;

verus! {

/// Why a run stopped. Every kind is final: nothing is retried.
#[derive(Debug)]
pub enum RunError {
    /// The input file could not be read: its path and the cause.
    FileRead(String, String),
    /// No request block holds the given line.
    NoRequestBlock(usize),
    /// The block is no request: the reason.
    ParseFailed(String),
    /// The exchange failed below HTTP: the cause.
    Transport(String),
}

/// The single line that reports `e`.
pub open spec fn message_text(e: RunError) -> Seq<char> {
    match e {
        RunError::FileRead(path, cause) => "Error reading "@ + path@ + ": "@ + cause@,
        RunError::NoRequestBlock(line) => "No request block found at line "@ + decimal(
            line as nat,
        ),
        RunError::ParseFailed(reason) => "Parse error: "@ + reason@,
        RunError::Transport(cause) => "Transport error: "@ + cause@,
    }
}

impl RunError {
    /// The single line that reports this error.
    pub fn message(&self) -> (s: String)
        ensures
            s@ == message_text(*self),
    {
        match self {
            RunError::FileRead(path, cause) => {
                let mut s = String::from_str("Error reading ");
                s.append(path.as_str());
                s.append(": ");
                s.append(cause.as_str());
                s
            },
            RunError::NoRequestBlock(line) => {
                let mut s = String::from_str("No request block found at line ");
                push_decimal(&mut s, *line as u128);
                s
            },
            RunError::ParseFailed(reason) => {
                let mut s = String::from_str("Parse error: ");
                s.append(reason.as_str());
                s
            },
            RunError::Transport(cause) => {
                let mut s = String::from_str("Transport error: ");
                s.append(cause.as_str());
                s
            },
        }
    }
}

} // verus!
