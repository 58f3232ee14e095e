//! Errors as the command line client reports them.
use vstd::prelude::*;

verus! {

/// Why a search from the command line failed.
#[derive(Debug)]
pub enum CliError {
    /// What was asked for cannot be done.
    Usage(String),
    /// What was asked for went wrong.
    Runtime(String),
}

impl CliError {
    /// The message for people.
    pub open spec fn text(self) -> Seq<char> {
        match self {
            CliError::Usage(message) => message@,
            CliError::Runtime(message) => message@,
        }
    }

    /// Whether this is a usage error with the given message.
    pub open spec fn is_usage(self, message: Seq<char>) -> bool {
        self is Usage && self.text() == message
    }

    /// Whether this is a runtime error with the given message.
    pub open spec fn is_runtime(self, message: Seq<char>) -> bool {
        self is Runtime && self.text() == message
    }

    pub fn usage(message: String) -> (result: Self)
        ensures
            result == CliError::Usage(message),
    {
        CliError::Usage(message)
    }

    pub fn runtime(message: String) -> (result: Self)
        ensures
            result == CliError::Runtime(message),
    {
        CliError::Runtime(message)
    }

    /// The code with which the process exits.
    pub fn exit_code(&self) -> (result: u8)
        ensures
            result == if self is Usage {
                2u8
            } else {
                1u8
            },
    {
        match self {
            CliError::Usage(_) => 2,
            CliError::Runtime(_) => 1,
        }
    }

    pub fn message(&self) -> (result: &str)
        ensures
            result@ == self.text(),
    {
        match self {
            CliError::Usage(message) => message.as_str(),
            CliError::Runtime(message) => message.as_str(),
        }
    }
}

} // verus!
