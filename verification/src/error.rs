//! The application's error type.

use vstd::prelude::*;
use vstd::string::*;

use crate::text;

verus! {

pub type AppResult<T> = Result<T, AppError>;

/// An operation that failed, and why.
#[derive(Debug, PartialEq, Eq)]
pub struct FailureContext {
    pub operation: &'static str,
    pub cause: String,
}

impl FailureContext {
    pub fn cause(&self) -> (cause: &str)
        ensures
            cause@ == self.cause@,
    {
        self.cause.as_str()
    }
}

/// What can go wrong.
#[derive(Debug, PartialEq, Eq)]
pub enum AppError {
    /// A value that a caller gave is not acceptable.
    InvalidInput(&'static str),
    /// The operation is not possible in the current state.
    InvalidState(&'static str),
    /// Reading, writing or the operating system failed.
    Io { operation: &'static str, cause: String },
    /// The PTY failed.
    Pty(FailureContext),
    /// The user interface failed.
    Ui(FailureContext),
}

/// An error as a value: texts are sequences of characters.
pub enum ErrorModel {
    InvalidInput(Seq<char>),
    InvalidState(Seq<char>),
    Io(Seq<char>, Seq<char>),
    Pty(Seq<char>, Seq<char>),
    Ui(Seq<char>, Seq<char>),
}

impl View for AppError {
    type V = ErrorModel;

    open spec fn view(&self) -> ErrorModel {
        match self {
            AppError::InvalidInput(message) => ErrorModel::InvalidInput(message@),
            AppError::InvalidState(message) => ErrorModel::InvalidState(message@),
            AppError::Io { operation, cause } => ErrorModel::Io(operation@, cause@),
            AppError::Pty(context) => ErrorModel::Pty(context.operation@, context.cause@),
            AppError::Ui(context) => ErrorModel::Ui(context.operation@, context.cause@),
        }
    }
}

impl ErrorModel {
    /// The operation that failed, where the error names one.
    pub open spec fn operation(self) -> Option<Seq<char>> {
        match self {
            ErrorModel::InvalidInput(_) => None,
            ErrorModel::InvalidState(_) => None,
            ErrorModel::Io(operation, _) => Some(operation),
            ErrorModel::Pty(operation, _) => Some(operation),
            ErrorModel::Ui(operation, _) => Some(operation),
        }
    }

    /// The error in words.
    pub open spec fn text(self) -> Seq<char> {
        match self {
            ErrorModel::InvalidInput(message) => "invalid input: "@ + message,
            ErrorModel::InvalidState(message) => "invalid state: "@ + message,
            ErrorModel::Io(operation, cause) => operation + ": "@ + cause,
            ErrorModel::Pty(operation, cause) => operation + ": "@ + cause,
            ErrorModel::Ui(operation, cause) => operation + ": "@ + cause,
        }
    }
}

impl AppError {
    pub fn io(operation: &'static str, cause: String) -> (error: Self)
        ensures
            error@ == ErrorModel::Io(operation@, cause@),
    {
        AppError::Io { operation, cause }
    }

    pub fn pty_message(operation: &'static str, cause: String) -> (error: Self)
        ensures
            error@ == ErrorModel::Pty(operation@, cause@),
    {
        AppError::Pty(FailureContext { operation, cause })
    }

    pub fn ui_message(operation: &'static str, cause: String) -> (error: Self)
        ensures
            error@ == ErrorModel::Ui(operation@, cause@),
    {
        AppError::Ui(FailureContext { operation, cause })
    }

    pub fn operation(&self) -> (operation: Option<&'static str>)
        ensures
            operation is Some == self@.operation() is Some,
            operation is Some ==> (operation->0)@ == self@.operation()->0,
    {
        match self {
            AppError::InvalidInput(_) => None,
            AppError::InvalidState(_) => None,
            AppError::Io { operation, .. } => Some(*operation),
            AppError::Pty(context) => Some(context.operation),
            AppError::Ui(context) => Some(context.operation),
        }
    }

    /// The error in words.
    pub fn message(&self) -> (message: String)
        ensures
            message@ == self@.text(),
    {
        match self {
            AppError::InvalidInput(message) => text::join2("invalid input: ", message),
            AppError::InvalidState(message) => text::join2("invalid state: ", message),
            AppError::Io { operation, cause } => text::join3(operation, ": ", cause.as_str()),
            AppError::Pty(context) => text::join3(context.operation, ": ", context.cause.as_str()),
            AppError::Ui(context) => text::join3(context.operation, ": ", context.cause.as_str()),
        }
    }
}

/// An error in words holds what is known of it: its message, or the operation that failed first
/// and the cause last. It names an operation exactly where reading, writing, the PTY or the user
/// interface failed.
pub proof fn law_error_text_tells_the_cause(operation: Seq<char>, cause: Seq<char>)
    ensures
        ({
            let io = ErrorModel::Io(operation, cause);
            let pty = ErrorModel::Pty(operation, cause);
            let ui = ErrorModel::Ui(operation, cause);
            let input = ErrorModel::InvalidInput(cause);
            let state = ErrorModel::InvalidState(cause);
            &&& io.text() == pty.text()
            &&& io.text() == ui.text()
            &&& io.text().take(operation.len() as int) == operation
            &&& io.text().skip(io.text().len() - cause.len()) == cause
            &&& io.text().len() >= operation.len() + cause.len()
            &&& input.text().skip(input.text().len() - cause.len()) == cause
            &&& state.text().skip(state.text().len() - cause.len()) == cause
            &&& input.text() != state.text()
            &&& io.operation() == Some(operation)
            &&& pty.operation() == Some(operation)
            &&& ui.operation() == Some(operation)
            &&& input.operation() is None
            &&& state.operation() is None
        }),
{
    let io = ErrorModel::Io(operation, cause);
    let input = ErrorModel::InvalidInput(cause);
    let state = ErrorModel::InvalidState(cause);
    reveal_strlit("invalid input: ");
    reveal_strlit("invalid state: ");
    assert(io.text().take(operation.len() as int) =~= operation);
    assert(io.text().skip(io.text().len() - cause.len()) =~= cause);
    assert(input.text().skip(input.text().len() - cause.len()) =~= cause);
    assert(state.text().skip(state.text().len() - cause.len()) =~= cause);
    assert(input.text()[8] == 'i');
    assert(state.text()[8] == 's');
}

} // verus!
