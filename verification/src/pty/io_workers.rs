//! The reader and writer threads of a session, and how they are joined.
//!
//! `I` is the sending side of the writer's input queue, `H` a thread handle and
//! `D` the receiving side of a thread's completion signal.

use vstd::prelude::*;

use crate::error::{AppError, AppResult, ErrorModel};
use crate::pty::worker::{WRITER_INPUT_QUEUE_FULL_MESSAGE, WRITER_NOT_RUNNING_MESSAGE};
use crate::text;

verus! {

/// Why a request was not queued for the writer.
#[derive(Clone, Copy, Debug, PartialEq, Eq)]
pub enum SendFailure {
    Full,
    Disconnected,
}

/// The error for a request that was not queued.
pub fn write_request_error(failure: SendFailure) -> (error: AppError)
    ensures
        error == AppError::InvalidState(
            match failure {
                SendFailure::Full => WRITER_INPUT_QUEUE_FULL_MESSAGE,
                SendFailure::Disconnected => WRITER_NOT_RUNNING_MESSAGE,
            },
        ),
{
    match failure {
        SendFailure::Full => AppError::InvalidState(WRITER_INPUT_QUEUE_FULL_MESSAGE),
        SendFailure::Disconnected => AppError::InvalidState(WRITER_NOT_RUNNING_MESSAGE),
    }
}

/// Whether an error says that the writer's input queue is full.
pub fn is_writer_input_queue_full_error(error: &AppError) -> (full: bool)
    ensures
        full == (error@ == ErrorModel::InvalidState(WRITER_INPUT_QUEUE_FULL_MESSAGE@)),
{
    match error {
        AppError::InvalidState(message) => text::text_equal(
            message,
            WRITER_INPUT_QUEUE_FULL_MESSAGE,
        ),
        _ => false,
    }
}

/// What waiting for a thread's completion signal gave.
#[derive(Clone, Copy, Debug, PartialEq, Eq)]
pub enum DoneWait {
    Signalled,
    Disconnected,
    TimedOut,
}

/// Whether a thread is known to be done. Without a signal to wait for it is
/// not.
pub fn wait_for_worker_done(wait: Option<DoneWait>) -> (done: bool)
    ensures
        done == (wait == Some(DoneWait::Signalled) || wait == Some(DoneWait::Disconnected)),
{
    match wait {
        None => false,
        Some(DoneWait::TimedOut) => false,
        Some(_) => true,
    }
}

/// A thread and its completion signal.
pub struct WorkerThread<H, D> {
    pub thread: Option<H>,
    pub done: Option<D>,
}

impl<H, D> WorkerThread<H, D> {
    pub fn new(thread: H, done: D) -> (worker: Self)
        ensures
            worker.thread == Some(thread),
            worker.done == Some(done),
    {
        WorkerThread { thread: Some(thread), done: Some(done) }
    }

    pub fn none() -> (worker: Self)
        ensures
            worker.thread is None,
            worker.done is None,
    {
        WorkerThread { thread: None, done: None }
    }

    /// Takes the thread and its signal out, to wait for the one and join the
    /// other. Without a thread the signal is let go.
    pub fn begin_join(&mut self) -> (taken: Option<(H, Option<D>)>)
        ensures
            final(self).thread is None,
            final(self).done is None,
            taken == (match old(self).thread {
                Some(thread) => Some((thread, old(self).done)),
                None => None,
            }),
    {
        let done = self.done.take();
        match self.thread.take() {
            Some(thread) => Some((thread, done)),
            None => None,
        }
    }

    /// Decides on a thread after the wait for its signal: a thread that did
    /// not end in time is kept, with its signal; any other is to be joined.
    pub fn after_wait(&mut self, thread: H, done: Option<D>, wait: DoneWait) -> (join: Option<H>)
        requires
            old(self).thread is None,
            old(self).done is None,
        ensures
            wait is TimedOut && done is Some ==> {
                &&& join is None
                &&& final(self).thread == Some(thread)
                &&& final(self).done == done
            },
            !(wait is TimedOut && done is Some) ==> {
                &&& join == Some(thread)
                &&& final(self).thread is None
                &&& final(self).done is None
            },
    {
        match (done, wait) {
            (Some(done), DoneWait::TimedOut) => {
                self.thread = Some(thread);
                self.done = Some(done);
                None
            },
            _ => Some(thread),
        }
    }
}

/// Which of the two threads is meant.
#[derive(Clone, Copy, Debug, PartialEq, Eq)]
pub enum WorkerKind {
    Reader,
    Writer,
}

pub open spec fn join_operation(kind: WorkerKind) -> Seq<char> {
    match kind {
        WorkerKind::Reader => "join pty reader thread"@,
        WorkerKind::Writer => "join pty writer thread"@,
    }
}

/// The error for a thread that did not end in time.
pub fn join_timeout_error(kind: WorkerKind) -> (error: AppError)
    ensures
        error@ == ErrorModel::Pty(
            join_operation(kind),
            match kind {
                WorkerKind::Reader => "timed out waiting for pty reader thread to exit"@,
                WorkerKind::Writer => "timed out waiting for pty writer thread to exit"@,
            },
        ),
        kind is Reader ==> error@->Pty_0 == "join pty reader thread"@,
        kind is Writer ==> error@->Pty_0 == "join pty writer thread"@,
{
    match kind {
        WorkerKind::Reader => AppError::pty_message(
            "join pty reader thread",
            "timed out waiting for pty reader thread to exit".to_owned(),
        ),
        WorkerKind::Writer => AppError::pty_message(
            "join pty writer thread",
            "timed out waiting for pty writer thread to exit".to_owned(),
        ),
    }
}

/// The result of joining a thread: what it returned, `None` where it panicked.
pub fn join_result(kind: WorkerKind, returned: Option<AppResult<()>>) -> (result: AppResult<()>)
    ensures
        returned is Some ==> result == returned->0,
        returned is None ==> result is Err && (result->Err_0)@ == ErrorModel::Pty(
            join_operation(kind),
            match kind {
                WorkerKind::Reader => "pty reader thread panicked"@,
                WorkerKind::Writer => "pty writer thread panicked"@,
            },
        ),
        returned is None && kind is Reader ==> (result->Err_0)@->Pty_0 == "join pty reader thread"@,
        returned is None && kind is Writer ==> (result->Err_0)@->Pty_0 == "join pty writer thread"@,
{
    match returned {
        Some(result) => result,
        None => match kind {
            WorkerKind::Reader => Err(
                AppError::pty_message(
                    "join pty reader thread",
                    "pty reader thread panicked".to_owned(),
                ),
            ),
            WorkerKind::Writer => Err(
                AppError::pty_message(
                    "join pty writer thread",
                    "pty writer thread panicked".to_owned(),
                ),
            ),
        },
    }
}

/// The threads that serve a session's PTY.
pub struct PtyIoWorkers<I, H, D> {
    pub input: Option<I>,
    pub reader: WorkerThread<H, D>,
    pub writer: WorkerThread<H, D>,
}

/// Threads that outlive their session, to be joined in the background.
pub struct PtyIoWorkerReaper<H, D> {
    pub reader: WorkerThread<H, D>,
    pub writer: WorkerThread<H, D>,
}

impl<I, H, D> PtyIoWorkers<I, H, D> {
    pub open spec fn unjoined(&self) -> bool {
        self.reader.thread is Some || self.writer.thread is Some
    }

    pub fn new(input: I, writer: WorkerThread<H, D>, reader: WorkerThread<H, D>) -> (workers: Self)
        ensures
            workers.input == Some(input),
            workers.writer == writer,
            workers.reader == reader,
    {
        PtyIoWorkers { input: Some(input), reader, writer }
    }

    /// A reader whose writer could not be started.
    pub fn from_reader(reader: WorkerThread<H, D>) -> (workers: Self)
        ensures
            workers.input is None,
            workers.reader == reader,
            workers.writer.thread is None,
            workers.writer.done is None,
    {
        PtyIoWorkers { input: None, reader, writer: WorkerThread::none() }
    }

    pub fn has_unjoined_threads(&self) -> (unjoined: bool)
        ensures
            unjoined == self.unjoined(),
            unjoined == (self.reader.thread is Some || self.writer.thread is Some),
    {
        self.reader.thread.is_some() || self.writer.thread.is_some()
    }

    /// The writer gets no more requests.
    pub fn close_input(&mut self)
        ensures
            final(self).input is None,
            final(self).reader == old(self).reader,
            final(self).writer == old(self).writer,
    {
        self.input = None;
    }

    /// Where user input is sent.
    pub fn user_input_sender(&self) -> (sender: AppResult<&I>)
        ensures
            self.input matches Some(input) ==> sender == Ok::<&I, AppError>(&input),
            self.input is None ==> sender == Err::<&I, AppError>(
                AppError::InvalidState(WRITER_NOT_RUNNING_MESSAGE),
            ),
    {
        match &self.input {
            Some(input) => Ok(input),
            None => Err(AppError::InvalidState(WRITER_NOT_RUNNING_MESSAGE)),
        }
    }

    /// Where an exit sequence is sent; without a writer none is needed.
    pub fn graceful_exit_sender(&self) -> (sender: Option<&I>)
        ensures
            sender == (match self.input {
                Some(input) => Some(&input),
                None => None,
            }),
    {
        self.input.as_ref()
    }

    /// Takes the threads out that are not joined yet.
    pub fn take_reaper(&mut self) -> (reaper: Option<PtyIoWorkerReaper<H, D>>)
        ensures
            reaper is Some <==> old(self).unjoined(),
            !old(self).unjoined() ==> *final(self) == *old(self),
            reaper is Some ==> {
                &&& (reaper->0).reader == old(self).reader
                &&& (reaper->0).writer == old(self).writer
                &&& !final(self).unjoined()
                &&& final(self).input == old(self).input
            },
    {
        if !self.has_unjoined_threads() {
            return None;
        }
        Some(
            PtyIoWorkerReaper {
                reader: WorkerThread {
                    thread: self.reader.thread.take(),
                    done: self.reader.done.take(),
                },
                writer: WorkerThread {
                    thread: self.writer.thread.take(),
                    done: self.writer.done.take(),
                },
            },
        )
    }
}

} // verus!
