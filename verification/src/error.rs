//! The one error type of the parser.

use vstd::prelude::*;

verus! {

/// The conditions under which building a command tree or classifying a token fails.
#[derive(Clone, Copy, Debug, PartialEq, Eq, Structural)]
pub enum ErrorKind {
    /// A child command's name is already taken, or holds no ASCII letter.
    InvalidCommandName,
    /// An option's name is already taken, or holds no ASCII letter or digit.
    InvalidOptionName,
    /// An option's short name is not empty, and is already taken or holds no
    /// ASCII letter or digit.
    InvalidOptionShortName,
    /// A token made of one or two dashes and nothing else.
    EmptyOption,
    /// A dashed token that names no declared option.
    UnknownOption,
    /// An option that must have a value stood last in the buffer.
    OptionRequiresValue,
    /// A positional token for which no declared argument is left.
    TooManyArguments,
    /// The command's name cannot be derived from the executable's path.
    Unknown,
}

impl ErrorKind {
    /// The text that an error of this kind shows.
    pub open spec fn message(self) -> Seq<char> {
        match self {
            ErrorKind::InvalidCommandName => "error: invalid command name."@,
            ErrorKind::InvalidOptionName => "error: invalid option name"@,
            ErrorKind::InvalidOptionShortName => "error: invalid option short name"@,
            ErrorKind::EmptyOption => "error: empty option."@,
            ErrorKind::UnknownOption => "error: unknown option."@,
            ErrorKind::OptionRequiresValue => "error: option requires a value"@,
            ErrorKind::TooManyArguments => "error: received too more arguments"@,
            ErrorKind::Unknown => "error: unknown error."@,
        }
    }
}

/// A failure, at build time or while classifying. It is a message; the kind
/// tells the messages apart.
#[derive(Clone, Copy, Debug)]
pub struct Error {
    kind: ErrorKind,
}

impl View for Error {
    type V = ErrorKind;

    closed spec fn view(&self) -> ErrorKind {
        self.kind
    }
}

impl Error {
    pub(crate) fn new(kind: ErrorKind) -> (r: Error)
        ensures
            r@ == kind,
    {
        Error { kind }
    }

    /// The condition that this error reports.
    pub fn kind(&self) -> (k: ErrorKind)
        ensures
            k == self@,
    {
        self.kind
    }

    /// The error's message.
    pub fn to_string(&self) -> (s: String)
        ensures
            s@ == self@.message(),
    {
        match self.kind {
            ErrorKind::InvalidCommandName => "error: invalid command name.".to_owned(),
            ErrorKind::InvalidOptionName => "error: invalid option name".to_owned(),
            ErrorKind::InvalidOptionShortName => "error: invalid option short name".to_owned(),
            ErrorKind::EmptyOption => "error: empty option.".to_owned(),
            ErrorKind::UnknownOption => "error: unknown option.".to_owned(),
            ErrorKind::OptionRequiresValue => "error: option requires a value".to_owned(),
            ErrorKind::TooManyArguments => "error: received too more arguments".to_owned(),
            ErrorKind::Unknown => "error: unknown error.".to_owned(),
        }
    }
}

/// What an optional error holds, as a value of the model.
pub open spec fn error_view(e: Option<Error>) -> Option<ErrorKind> {
    match e {
        Some(e) => Some(e@),
        None => None,
    }
}

} // verus!
