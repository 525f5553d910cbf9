//! The failures that the core reports.

use vstd::prelude::*;
use vstd::string::StringExecFns;
use crate::text::{decimal_text, digits_of};

verus! {

/// A failure of one operation on one connection. None of them affects other
/// connections.
#[derive(Debug, Clone, PartialEq, Eq)]
pub enum CoreError {
    /// Connecting, authenticating or opening a channel failed. The attempt is
    /// not repeated.
    Transport(String),
    /// The operation named a connection or session that the registry does
    /// not hold.
    NotFound,
    /// The remote command ended with a status other than zero. `output` is
    /// what it had printed, untrimmed.
    RemoteCommand { status: u32, output: String },
    /// The local file system failed during a transfer.
    Io(String),
    /// The remote side answered with something malformed or unexpected.
    Protocol(String),
    /// The session that should have answered a request has terminated.
    DestinationGone,
}

impl CoreError {
    /// The message for the person at the display.
    pub open spec fn message_of(self) -> Seq<char> {
        match self {
            CoreError::Transport(message) => message@,
            CoreError::NotFound => "connection not found"@,
            CoreError::RemoteCommand { status, output } => "command failed with exit status "@
                + digits_of(status as nat),
            CoreError::Io(message) => message@,
            CoreError::Protocol(message) => message@,
            CoreError::DestinationGone => "the session has terminated"@,
        }
    }

    /// The message for the person at the display.
    pub fn message(&self) -> (text: String)
        ensures
            text@ == self.message_of(),
    {
        match self {
            CoreError::Transport(message) => message.clone(),
            CoreError::NotFound => String::from_str("connection not found"),
            CoreError::RemoteCommand { status, output } => {
                let mut text = String::from_str("command failed with exit status ");
                let digits = decimal_text(*status as u64);
                text.append(digits.as_str());
                text
            },
            CoreError::Io(message) => message.clone(),
            CoreError::Protocol(message) => message.clone(),
            CoreError::DestinationGone => String::from_str("the session has terminated"),
        }
    }
}

} // verus!
