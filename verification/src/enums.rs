//! The result and command types shared by every backend.

use vstd::prelude::*;

verus! {

/// The outcome of one store operation as contracts state it: the view of a
/// [`HandleResult`], with string payloads abstracted to character sequences.
pub enum Outcome {
    Success,
    Value(Seq<char>),
    Failure(Seq<char>),
}

/// The result of one store operation: success with no payload, success with
/// the value that was read (or echoed), or failure with a diagnostic message.
#[derive(Debug, PartialEq, Eq)]
pub enum HandleResult {
    Success,
    Value(String),
    Failure(String),
}

impl View for HandleResult {
    type V = Outcome;

    open spec fn view(&self) -> Outcome {
        match self {
            HandleResult::Success => Outcome::Success,
            HandleResult::Value(s) => Outcome::Value(s@),
            HandleResult::Failure(m) => Outcome::Failure(m@),
        }
    }
}

/// One typed command as the parser hands it to the shell: an operation with
/// its arguments, a request to quit, or a description of a parse failure.
#[derive(Debug, PartialEq, Eq)]
pub enum Command {
    Read(String),
    Write(String, String),
    Delete(String),
    Start,
    Abort,
    Commit,
    Quit,
    ParseError(String),
}

/// The view of a [`Command`], with string payloads abstracted to character
/// sequences.
pub enum CommandModel {
    Read(Seq<char>),
    Write(Seq<char>, Seq<char>),
    Delete(Seq<char>),
    Start,
    Abort,
    Commit,
    Quit,
    ParseError(Seq<char>),
}

impl View for Command {
    type V = CommandModel;

    open spec fn view(&self) -> CommandModel {
        match self {
            Command::Read(k) => CommandModel::Read(k@),
            Command::Write(k, v) => CommandModel::Write(k@, v@),
            Command::Delete(k) => CommandModel::Delete(k@),
            Command::Start => CommandModel::Start,
            Command::Abort => CommandModel::Abort,
            Command::Commit => CommandModel::Commit,
            Command::Quit => CommandModel::Quit,
            Command::ParseError(m) => CommandModel::ParseError(m@),
        }
    }
}

} // verus!
