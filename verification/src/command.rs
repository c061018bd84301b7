//! Commands: what the user asks the client to do.

use crate::message::Message;
use vstd::prelude::*;

verus! {

/// `std::io::Error`: why reading a command line failed.
#[verifier::external_type_specification]
#[verifier::external_body]
pub struct ExIoError(std::io::Error);

/// `std::string::FromUtf8Error`: why a command line is no text.
#[verifier::external_type_specification]
#[verifier::external_body]
pub struct ExFromUtf8Error(std::string::FromUtf8Error);

/// `shell_words::ParseError`: why a command line could not be split into words.
#[verifier::external_type_specification]
#[verifier::external_body]
pub struct ExParseError(shell_words::ParseError);

/// A command: its name and its arguments, in order. This layer reads nothing
/// into the arguments.
#[derive(Debug)]
pub struct Command {
    pub name: String,
    pub args: Vec<String>,
}

impl Command {
    /// The command `command` with the arguments `args`.
    pub fn new(command: String, args: Vec<String>) -> (made: Self)
        ensures
            made.name == command,
            made.args == args,
    {
        Self { name: command, args }
    }
}

impl Clone for Command {
    fn clone(&self) -> (r: Self)
        ensures
            r.name == self.name,
            r.args@ == self.args@,
    {
        let mut args: Vec<String> = Vec::new();
        let mut i: usize = 0;
        while i < self.args.len()
            invariant
                i <= self.args.len(),
                args@ == self.args@.take(i as int),
            decreases self.args.len() - i,
        {
            args.push(self.args[i].clone());
            assert(self.args@.take(i + 1) == self.args@.take(i as int).push(self.args@[i as int]));
            i += 1;
        }
        assert(self.args@.take(self.args.len() as int) == self.args@);
        Command { name: self.name.clone(), args }
    }
}

/// What a line of input turns out to be.
pub enum CommandOrMessage {
    Command(Command),
    Message(Message),
}

/// Why a line of input gave no command.
#[derive(Debug)]
pub enum CommandError {
    /// The line could not be read.
    Io(std::io::Error),
    /// The line is no valid text.
    Utf8(std::string::FromUtf8Error),
    /// The line could not be split into words.
    Parse(shell_words::ParseError),
}

impl From<std::io::Error> for CommandError {
    fn from(error: std::io::Error) -> (r: Self) {
        CommandError::Io(error)
    }
}

impl vstd::std_specs::convert::FromSpecImpl<std::io::Error> for CommandError {
    open spec fn obeys_from_spec() -> bool {
        true
    }

    open spec fn from_spec(error: std::io::Error) -> Self {
        CommandError::Io(error)
    }
}

impl From<std::string::FromUtf8Error> for CommandError {
    fn from(error: std::string::FromUtf8Error) -> (r: Self) {
        CommandError::Utf8(error)
    }
}

impl vstd::std_specs::convert::FromSpecImpl<std::string::FromUtf8Error> for CommandError {
    open spec fn obeys_from_spec() -> bool {
        true
    }

    open spec fn from_spec(error: std::string::FromUtf8Error) -> Self {
        CommandError::Utf8(error)
    }
}

impl From<shell_words::ParseError> for CommandError {
    fn from(error: shell_words::ParseError) -> (r: Self) {
        CommandError::Parse(error)
    }
}

impl vstd::std_specs::convert::FromSpecImpl<shell_words::ParseError> for CommandError {
    open spec fn obeys_from_spec() -> bool {
        true
    }

    open spec fn from_spec(error: shell_words::ParseError) -> Self {
        CommandError::Parse(error)
    }
}

} // verus!
