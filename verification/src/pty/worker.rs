//! Decisions of the threads that read from and write to a PTY.

use vstd::prelude::*;

use crate::domain::event::{TerminalEvent, TerminalFailure};
use crate::error::{AppError, ErrorModel};
use crate::pty::event_queue::PtyEventQueue;

verus! {

/// Depth of the writer's input queue.
pub const MAX_PENDING_WRITE_REQUESTS: usize = 256;

/// Most inputs that are written before a flush.
pub const MAX_USER_INPUT_BATCH_REQUESTS: usize = MAX_PENDING_WRITE_REQUESTS;

pub const WRITER_INPUT_QUEUE_FULL_MESSAGE: &'static str = "pty writer input queue is full";

pub const WRITER_NOT_RUNNING_MESSAGE: &'static str = "pty writer worker is not running";

pub const READ_FAILURE_USER_MESSAGE: &'static str = "terminal output stream failed";

pub const WRITE_FAILURE_USER_MESSAGE: &'static str = "terminal input stream failed";

pub const SHUTDOWN_FAILURE_USER_MESSAGE: &'static str = "terminal shutdown failed";

/// Milliseconds that joining the reader or the writer may take.
pub const READER_JOIN_TIMEOUT_MS: u64 = 2000;

pub const WRITER_JOIN_TIMEOUT_MS: u64 = 2000;

/// A failure report's texts: its operation, what the user is told, the cause.
pub open spec fn failure_texts(failure: TerminalFailure) -> (Option<Seq<char>>, Seq<char>, Seq<char>) {
    (
        match failure.operation {
            Some(operation) => Some(operation@),
            None => None,
        },
        failure.user_message@,
        failure.cause@,
    )
}

/// The report that `failure_texts` gives for an error.
pub open spec fn error_report(user_message: Seq<char>, error: ErrorModel) -> (
    Option<Seq<char>>,
    Seq<char>,
    Seq<char>,
) {
    (error.operation(), user_message, error.text())
}

/// What the user is told of an error.
pub fn terminal_failure_from_app_error(user_message: &str, error: &AppError) -> (failure:
    TerminalFailure)
    ensures
        failure_texts(failure) == error_report(user_message@, error@),
{
    let cause = error.message();
    match error.operation() {
        Some(operation) => TerminalFailure::with_operation(operation, user_message, cause.as_str()),
        None => TerminalFailure::new(user_message, cause.as_str()),
    }
}

/// What one read from the PTY gave.
pub enum ReadOutcome<'a> {
    /// So many bytes; none at the end of the stream.
    Bytes(&'a [u8]),
    /// A signal interrupted the read.
    Interrupted,
    /// The read failed, for this reason.
    Failed(&'a str),
}

/// Queues what a read gave; reports whether the reader goes on.
pub fn reader_step(events: &mut PtyEventQueue, outcome: ReadOutcome<'_>) -> (goes_on: bool)
    requires
        old(events).wf(),
    ensures
        final(events).wf(),
        outcome matches ReadOutcome::Bytes(bytes) ==> (bytes@.len() > 0 ==> (
            final(events)@,
            goes_on,
        ) == old(events)@.push_read(bytes@)),
        outcome matches ReadOutcome::Bytes(bytes) ==> (bytes@.len() == 0 ==> !goes_on
            && final(events)@ == old(events)@.push_control(TerminalEvent::PtyClosed).0),
        outcome is Interrupted ==> goes_on && final(events)@ == old(events)@,
        outcome matches ReadOutcome::Failed(cause) ==> {
            &&& !goes_on
            &&& exists|failure: TerminalFailure|
                {
                    &&& failure_texts(failure) == error_report(
                        READ_FAILURE_USER_MESSAGE@,
                        ErrorModel::Io("read from pty stdout"@, cause@),
                    )
                    &&& final(events)@ == #[trigger] old(events)@.push_control(
                        TerminalEvent::Failure(failure),
                    ).0
                }
        },
{
    match outcome {
        ReadOutcome::Bytes(bytes) => {
            if bytes.len() == 0 {
                events.push(TerminalEvent::PtyClosed);
                false
            } else {
                events.push_output(bytes)
            }
        },
        ReadOutcome::Interrupted => true,
        ReadOutcome::Failed(cause) => {
            let error = AppError::io("read from pty stdout", cause.to_owned());
            let failure = terminal_failure_from_app_error(READ_FAILURE_USER_MESSAGE, &error);
            let ghost reported = failure;
            events.push(TerminalEvent::Failure(failure));
            assert(events@ == old(events)@.push_control(TerminalEvent::Failure(reported)).0);
            false
        },
    }
}

/// Bytes for the child's input.
#[derive(Debug, PartialEq, Eq)]
pub enum PtyWriteRequest {
    /// What the user typed or pasted.
    UserInput(Vec<u8>),
    /// What asks the shell to exit.
    GracefulExit(Vec<u8>),
}

impl PtyWriteRequest {
    pub fn user_input(bytes: Vec<u8>) -> (request: Self)
        ensures
            request == PtyWriteRequest::UserInput(bytes),
    {
        PtyWriteRequest::UserInput(bytes)
    }
}

/// What the writer thread does next.
#[derive(Debug, PartialEq, Eq)]
pub enum WriterAction {
    /// Wait for a request.
    Receive,
    /// Take a request if there is one.
    TryReceive,
    /// Write all of these bytes.
    Write { bytes: Vec<u8>, operation: &'static str },
    /// Flush what was written.
    Flush { operation: &'static str },
    /// End normally.
    Stop,
    /// Report this event and end with this error.
    Fail { event: TerminalEvent, error: AppError },
}

/// What came of the writer's last action.
#[derive(Debug, PartialEq, Eq)]
pub enum WriterInput {
    /// A request was received.
    Request(PtyWriteRequest),
    /// No request is waiting.
    NoRequest,
    /// No request will come any more.
    Closed,
    /// The bytes were written, or flushed.
    Done,
    /// Writing or flushing failed, for this reason.
    Failed(String),
}

/// Where the writer thread is.
#[derive(Debug, PartialEq, Eq)]
pub enum WriterState {
    /// Waiting for a request.
    Idle,
    /// Writing the last of `batched` inputs.
    WritingInput { batched: usize },
    /// Looking for another input after `batched` of them; `wrote` where any
    /// held bytes.
    Polling { batched: usize, wrote: bool },
    /// Flushing a batch, after which `pending` comes.
    FlushingInput { pending: Option<Vec<u8>> },
    WritingExit,
    FlushingExit,
    Stopped,
}

pub const WRITE_INPUT_OPERATION: &'static str = "write to pty stdin";

pub const FLUSH_INPUT_OPERATION: &'static str = "flush pty stdin";

pub const WRITE_EXIT_OPERATION: &'static str = "write graceful pty shutdown";

pub const FLUSH_EXIT_OPERATION: &'static str = "flush graceful pty shutdown";

/// An exit sequence is written and flushed by itself.
pub open spec fn begin_exit(bytes: Vec<u8>) -> (WriterState, WriterAction) {
    if bytes@.len() == 0 {
        (WriterState::Idle, WriterAction::Receive)
    } else {
        (WriterState::WritingExit, WriterAction::Write { bytes, operation: WRITE_EXIT_OPERATION })
    }
}

/// What follows a flushed batch.
pub open spec fn after_batch(pending: Option<Vec<u8>>) -> (WriterState, WriterAction) {
    match pending {
        Some(bytes) => begin_exit(bytes),
        None => (WriterState::Idle, WriterAction::Receive),
    }
}

/// A batch ends with one flush where anything was written.
pub open spec fn end_batch(wrote: bool, pending: Option<Vec<u8>>) -> (WriterState, WriterAction) {
    if wrote {
        (
            WriterState::FlushingInput { pending },
            WriterAction::Flush { operation: FLUSH_INPUT_OPERATION },
        )
    } else {
        after_batch(pending)
    }
}

/// After `batched` inputs, the next is looked for until the batch is full.
pub open spec fn continue_batch(batched: int, wrote: bool) -> (WriterState, WriterAction) {
    if batched < MAX_USER_INPUT_BATCH_REQUESTS {
        (WriterState::Polling { batched: batched as usize, wrote }, WriterAction::TryReceive)
    } else {
        end_batch(wrote, None)
    }
}

/// One more input, the one after `batched` others.
pub open spec fn batch_input(bytes: Vec<u8>, batched: int, wrote: bool) -> (WriterState, WriterAction) {
    if bytes@.len() == 0 {
        continue_batch(batched + 1, wrote)
    } else {
        (
            WriterState::WritingInput { batched: (batched + 1) as usize },
            WriterAction::Write { bytes, operation: WRITE_INPUT_OPERATION },
        )
    }
}

/// The operation that is under way in a state.
pub open spec fn writer_operation(state: WriterState) -> Option<&'static str> {
    match state {
        WriterState::WritingInput { .. } => Some(WRITE_INPUT_OPERATION),
        WriterState::FlushingInput { .. } => Some(FLUSH_INPUT_OPERATION),
        WriterState::WritingExit => Some(WRITE_EXIT_OPERATION),
        WriterState::FlushingExit => Some(FLUSH_EXIT_OPERATION),
        _ => None,
    }
}

/// The writer's answer to everything but a failure: `None` where the input
/// does not belong to the state.
pub open spec fn writer_next(state: WriterState, input: WriterInput) -> Option<
    (WriterState, WriterAction),
> {
    match (state, input) {
        (WriterState::Idle, WriterInput::Request(PtyWriteRequest::UserInput(bytes))) => Some(
            batch_input(bytes, 0, false),
        ),
        (WriterState::Idle, WriterInput::Request(PtyWriteRequest::GracefulExit(bytes))) => Some(
            begin_exit(bytes),
        ),
        (WriterState::Idle, WriterInput::Closed) => Some(
            (WriterState::Stopped, WriterAction::Stop),
        ),
        (WriterState::WritingInput { batched }, WriterInput::Done) => Some(
            continue_batch(batched as int, true),
        ),
        (
            WriterState::Polling { batched, wrote },
            WriterInput::Request(PtyWriteRequest::UserInput(bytes)),
        ) => Some(batch_input(bytes, batched as int, wrote)),
        (
            WriterState::Polling { wrote, .. },
            WriterInput::Request(PtyWriteRequest::GracefulExit(bytes)),
        ) => Some(end_batch(wrote, Some(bytes))),
        (WriterState::Polling { wrote, .. }, WriterInput::NoRequest) => Some(
            end_batch(wrote, None),
        ),
        (WriterState::FlushingInput { pending }, WriterInput::Done) => Some(after_batch(pending)),
        (WriterState::WritingExit, WriterInput::Done) => Some(
            (
                WriterState::FlushingExit,
                WriterAction::Flush { operation: FLUSH_EXIT_OPERATION },
            ),
        ),
        (WriterState::FlushingExit, WriterInput::Done) => Some(
            (WriterState::Idle, WriterAction::Receive),
        ),
        _ => None,
    }
}

/// Whether an input is an answer to the action that a state waits for.
pub open spec fn writer_expects(state: WriterState, input: WriterInput) -> bool {
    writer_next(state, input) is Some || (input is Failed && writer_operation(state) is Some)
}

/// The writer thread's decisions.
#[derive(Debug, PartialEq, Eq)]
pub struct WriterLoop {
    state: WriterState,
}

impl WriterLoop {
    pub closed spec fn state(&self) -> WriterState {
        self.state
    }

    /// Batches never grow past their limit.
    pub open spec fn wf(&self) -> bool {
        match self.state() {
            WriterState::WritingInput { batched } => 0 < batched <= MAX_USER_INPUT_BATCH_REQUESTS,
            WriterState::Polling { batched, .. } => 0 < batched < MAX_USER_INPUT_BATCH_REQUESTS,
            _ => true,
        }
    }

    /// A writer that waits for its first request.
    pub fn new() -> (writer: Self)
        ensures
            writer.wf(),
            writer.state() == WriterState::Idle,
    {
        WriterLoop { state: WriterState::Idle }
    }

    fn begin_exit(&mut self, bytes: Vec<u8>) -> (action: WriterAction)
        ensures
            (final(self).state(), action) == begin_exit(bytes),
    {
        if bytes.len() == 0 {
            self.state = WriterState::Idle;
            WriterAction::Receive
        } else {
            self.state = WriterState::WritingExit;
            WriterAction::Write { bytes, operation: WRITE_EXIT_OPERATION }
        }
    }

    fn after_batch(&mut self, pending: Option<Vec<u8>>) -> (action: WriterAction)
        ensures
            (final(self).state(), action) == after_batch(pending),
    {
        match pending {
            Some(bytes) => self.begin_exit(bytes),
            None => {
                self.state = WriterState::Idle;
                WriterAction::Receive
            },
        }
    }

    fn end_batch(&mut self, wrote: bool, pending: Option<Vec<u8>>) -> (action: WriterAction)
        ensures
            (final(self).state(), action) == end_batch(wrote, pending),
    {
        if wrote {
            self.state = WriterState::FlushingInput { pending };
            WriterAction::Flush { operation: FLUSH_INPUT_OPERATION }
        } else {
            self.after_batch(pending)
        }
    }

    fn continue_batch(&mut self, batched: usize, wrote: bool) -> (action: WriterAction)
        ensures
            (final(self).state(), action) == continue_batch(batched as int, wrote),
    {
        if batched < MAX_USER_INPUT_BATCH_REQUESTS {
            self.state = WriterState::Polling { batched, wrote };
            WriterAction::TryReceive
        } else {
            self.end_batch(wrote, None)
        }
    }

    fn batch_input(&mut self, bytes: Vec<u8>, batched: usize, wrote: bool) -> (action: WriterAction)
        requires
            batched < MAX_USER_INPUT_BATCH_REQUESTS,
        ensures
            (final(self).state(), action) == batch_input(bytes, batched as int, wrote),
    {
        if bytes.len() == 0 {
            self.continue_batch(batched + 1, wrote)
        } else {
            self.state = WriterState::WritingInput { batched: batched + 1 };
            WriterAction::Write { bytes, operation: WRITE_INPUT_OPERATION }
        }
    }

    fn fail(&mut self, operation: &'static str, cause: String, is_input: bool) -> (action:
        WriterAction)
        ensures
            final(self).state() == WriterState::Stopped,
            action matches WriterAction::Fail { event, error } && {
                &&& error@ == ErrorModel::Io(operation@, cause@)
                &&& if is_input {
                    event matches TerminalEvent::StdinWriteFailed(failure) && failure_texts(failure)
                        == error_report(WRITE_FAILURE_USER_MESSAGE@, error@)
                } else {
                    event matches TerminalEvent::Failure(failure) && failure_texts(failure)
                        == error_report(SHUTDOWN_FAILURE_USER_MESSAGE@, error@)
                }
            },
    {
        let error = AppError::io(operation, cause);
        let event = if is_input {
            TerminalEvent::StdinWriteFailed(
                terminal_failure_from_app_error(WRITE_FAILURE_USER_MESSAGE, &error),
            )
        } else {
            TerminalEvent::Failure(
                terminal_failure_from_app_error(SHUTDOWN_FAILURE_USER_MESSAGE, &error),
            )
        };
        self.state = WriterState::Stopped;
        WriterAction::Fail { event, error }
    }

    /// Takes what came of the last action and says what comes next. An input
    /// that answers no action of this state stops the writer.
    pub fn step(&mut self, input: WriterInput) -> (action: WriterAction)
        requires
            old(self).wf(),
        ensures
            final(self).wf(),
            writer_next(old(self).state(), input) is Some ==> (final(self).state(), action)
                == writer_next(old(self).state(), input)->0,
            (writer_next(old(self).state(), input) is None) ==> final(self).state()
                == WriterState::Stopped,
            writer_next(old(self).state(), input) is None && writer_operation(old(self).state())
                is Some && input is Failed ==> {
                let operation = writer_operation(old(self).state())->0;
                action matches WriterAction::Fail { event, error } && {
                    &&& error@ == ErrorModel::Io(operation@, input->Failed_0@)
                    &&& if old(self).state() is WritingInput || old(self).state() is FlushingInput {
                        event matches TerminalEvent::StdinWriteFailed(failure) && failure_texts(
                            failure,
                        ) == error_report(WRITE_FAILURE_USER_MESSAGE@, error@)
                    } else {
                        event matches TerminalEvent::Failure(failure) && failure_texts(failure)
                            == error_report(SHUTDOWN_FAILURE_USER_MESSAGE@, error@)
                    }
                }
            },
            !writer_expects(old(self).state(), input) ==> action == WriterAction::Stop,
    {
        let mut state = WriterState::Stopped;
        std::mem::swap(&mut self.state, &mut state);
        match (state, input) {
            (WriterState::Idle, WriterInput::Request(PtyWriteRequest::UserInput(bytes))) => {
                self.batch_input(bytes, 0, false)
            },
            (WriterState::Idle, WriterInput::Request(PtyWriteRequest::GracefulExit(bytes))) => {
                self.begin_exit(bytes)
            },
            (WriterState::WritingInput { batched }, WriterInput::Done) => self.continue_batch(
                batched,
                true,
            ),
            (
                WriterState::Polling { batched, wrote },
                WriterInput::Request(PtyWriteRequest::UserInput(bytes)),
            ) => self.batch_input(bytes, batched, wrote),
            (
                WriterState::Polling { wrote, .. },
                WriterInput::Request(PtyWriteRequest::GracefulExit(bytes)),
            ) => self.end_batch(wrote, Some(bytes)),
            (WriterState::Polling { wrote, .. }, WriterInput::NoRequest) => self.end_batch(
                wrote,
                None,
            ),
            (WriterState::FlushingInput { pending }, WriterInput::Done) => self.after_batch(
                pending,
            ),
            (WriterState::WritingExit, WriterInput::Done) => {
                self.state = WriterState::FlushingExit;
                WriterAction::Flush { operation: FLUSH_EXIT_OPERATION }
            },
            (WriterState::FlushingExit, WriterInput::Done) => {
                self.state = WriterState::Idle;
                WriterAction::Receive
            },
            (WriterState::WritingInput { .. }, WriterInput::Failed(cause)) => self.fail(
                WRITE_INPUT_OPERATION,
                cause,
                true,
            ),
            (WriterState::FlushingInput { .. }, WriterInput::Failed(cause)) => self.fail(
                FLUSH_INPUT_OPERATION,
                cause,
                true,
            ),
            (WriterState::WritingExit, WriterInput::Failed(cause)) => self.fail(
                WRITE_EXIT_OPERATION,
                cause,
                false,
            ),
            (WriterState::FlushingExit, WriterInput::Failed(cause)) => self.fail(
                FLUSH_EXIT_OPERATION,
                cause,
                false,
            ),
            _ => WriterAction::Stop,
        }
    }
}

/// Input is written as it came, one request at a time: where a request with bytes is taken,
/// these bytes are written next, unless they end a shell whose input was not flushed yet; then
/// the flush comes first, and they after it.
pub proof fn law_requests_are_written_as_they_came(state: WriterState, bytes: Vec<u8>)
    requires
        bytes@.len() > 0,
    ensures
        state is Idle || state is Polling ==> (writer_next(
            state,
            WriterInput::Request(PtyWriteRequest::UserInput(bytes)),
        ) matches Some((next, action)) && next is WritingInput && action == (WriterAction::Write {
            bytes,
            operation: WRITE_INPUT_OPERATION,
        })),
        state is Idle || (state matches WriterState::Polling { wrote, .. } && !wrote) ==> (
        writer_next(
            state,
            WriterInput::Request(PtyWriteRequest::GracefulExit(bytes)),
        ) matches Some((next, action)) && next is WritingExit && action == (WriterAction::Write {
            bytes,
            operation: WRITE_EXIT_OPERATION,
        })),
        (state matches WriterState::Polling { wrote, .. } && wrote) ==> (writer_next(
            state,
            WriterInput::Request(PtyWriteRequest::GracefulExit(bytes)),
        ) matches Some((next, action)) && next == (WriterState::FlushingInput {
            pending: Some(bytes),
        }) && action == (WriterAction::Flush { operation: FLUSH_INPUT_OPERATION })),
        writer_next(
            WriterState::FlushingInput { pending: Some(bytes) },
            WriterInput::Done,
        ) matches Some((next, action)) && next is WritingExit && action == (WriterAction::Write {
            bytes,
            operation: WRITE_EXIT_OPERATION,
        }),
        !(state is Idle || state is Polling) ==> writer_next(
            state,
            WriterInput::Request(PtyWriteRequest::UserInput(bytes)),
        ) is None,
{
}

/// Nothing that was written waits for a flush while the writer waits for a request: after input
/// was written more is looked for, and where there is none, or the batch is full, it is flushed
/// first. What ends a shell is flushed at once.
pub proof fn law_written_bytes_are_flushed(state: WriterState, input: WriterInput)
    requires
        !(input is Failed),
    ensures
        (writer_next(state, input) matches Some((_, action)) && action is Receive) ==> {
            &&& (writer_next(state, input)->0).0 is Idle
            &&& !(state is WritingInput)
            &&& !(state is WritingExit)
            &&& !(state matches WriterState::Polling { wrote, .. } && wrote)
        },
        state is WritingExit && input is Done ==> (writer_next(state, input) matches Some(
            (next, action),
        ) && next is FlushingExit && action == (WriterAction::Flush {
            operation: FLUSH_EXIT_OPERATION,
        })),
        state is FlushingExit && input is Done ==> (writer_next(state, input) matches Some(
            (next, action),
        ) && next is Idle && action is Receive),
        state matches WriterState::WritingInput { batched } ==> (input is Done ==> (writer_next(
            state,
            input,
        ) matches Some((next, action)) && (if batched < 256 {
            action is TryReceive && next == (WriterState::Polling { batched, wrote: true })
        } else {
            action is Flush && next == (WriterState::FlushingInput { pending: None })
        }))),
        (state matches WriterState::Polling { wrote, .. } && wrote) && input is NoRequest ==> (
        writer_next(state, input) matches Some((next, action)) && action == (WriterAction::Flush {
            operation: FLUSH_INPUT_OPERATION,
        })),
        (writer_next(state, input) matches Some((_, action)) && action is Stop) ==> state is Idle
            && input is Closed,
{
}

/// A failure is told by what was being done: writing or flushing input, or what ends a shell.
pub proof fn law_failures_name_what_was_done(state: WriterState)
    ensures
        state is WritingInput ==> writer_operation(state) == Some(WRITE_INPUT_OPERATION),
        state is FlushingInput ==> writer_operation(state) == Some(FLUSH_INPUT_OPERATION),
        state is WritingExit ==> writer_operation(state) == Some(WRITE_EXIT_OPERATION),
        state is FlushingExit ==> writer_operation(state) == Some(FLUSH_EXIT_OPERATION),
        state is Idle || state is Polling || state is Stopped ==> writer_operation(state) is None,
{
}

/// A report holds the user's message, the error's words and the operation that failed, each in
/// its own place.
pub proof fn law_report_tells_the_error(user_message: Seq<char>, error: ErrorModel)
    ensures
        error_report(user_message, error).0 == error.operation(),
        error_report(user_message, error).1 == user_message,
        error_report(user_message, error).2 == error.text(),
{
}

/// The texts of a failure are those that it holds: its operation, where it has one, what the user
/// is told, and the cause.
pub proof fn law_failure_texts_are_its_own(failure: TerminalFailure)
    ensures
        failure_texts(failure).0 is Some <==> failure.operation is Some,
        failure.operation matches Some(operation) ==> failure_texts(failure).0 == Some(operation@),
        failure_texts(failure).1 == failure.user_message@,
        failure_texts(failure).2 == failure.cause@,
{
}

/// Input without bytes is not written, and there is nothing to be flushed for it; it counts as
/// one of its batch.
pub proof fn law_empty_input_is_not_written(state: WriterState, bytes: Vec<u8>)
    requires
        bytes@.len() == 0,
    ensures
        state is Idle ==> writer_next(
            state,
            WriterInput::Request(PtyWriteRequest::UserInput(bytes)),
        ) == Some((WriterState::Polling { batched: 1, wrote: false }, WriterAction::TryReceive)),
        (state matches WriterState::Polling { batched, wrote } && batched < 255) ==> writer_next(
            state,
            WriterInput::Request(PtyWriteRequest::UserInput(bytes)),
        ) == Some(
            (
                WriterState::Polling {
                    batched: (state->Polling_batched + 1) as usize,
                    wrote: state->Polling_wrote,
                },
                WriterAction::TryReceive,
            ),
        ),
        state is Idle ==> writer_next(
            state,
            WriterInput::Request(PtyWriteRequest::GracefulExit(bytes)),
        ) == Some((WriterState::Idle, WriterAction::Receive)),
{
}

/// Inputs of a batch are counted, from the first one on.
pub proof fn law_inputs_of_a_batch_are_counted(state: WriterState, bytes: Vec<u8>)
    requires
        bytes@.len() > 0,
        state matches WriterState::Polling { batched, .. } ==> batched < 256,
    ensures
        state is Idle ==> writer_next(
            state,
            WriterInput::Request(PtyWriteRequest::UserInput(bytes)),
        ) == Some(
            (
                WriterState::WritingInput { batched: 1 },
                WriterAction::Write { bytes, operation: WRITE_INPUT_OPERATION },
            ),
        ),
        state is Polling ==> writer_next(
            state,
            WriterInput::Request(PtyWriteRequest::UserInput(bytes)),
        ) == Some(
            (
                WriterState::WritingInput { batched: (state->Polling_batched + 1) as usize },
                WriterAction::Write { bytes, operation: WRITE_INPUT_OPERATION },
            ),
        ),
{
}

} // verus!
