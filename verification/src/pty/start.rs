//! The steps of a start: their order, and what a failed one leaves to be cleaned
//! up.
//!
//! The steps are carried out by the caller, who also holds what only a later step
//! needs: the PTY's other side, and the reader and the writer before their threads
//! run.

use vstd::prelude::*;

use crate::error::{AppError, ErrorModel};
use crate::pty::io_workers::{PtyIoWorkers, WorkerThread};
use crate::pty::process::PtyCleanupResources;
use crate::pty::session::{self, StartStep};

verus! {

/// A start under way: the step that is to be taken, with what the steps before it
/// gave.
pub enum StartRun<M, C, H, D> {
    OpenPty,
    TakeWriter { master: M },
    CloneReader { master: M },
    SpawnCommand { master: M },
    SpawnReader { master: M, child: C },
    SpawnWriter { master: M, child: C, reader: WorkerThread<H, D> },
}

/// How a step went.
pub enum StartEvent<M, C, I, H, D> {
    PtyOpened(M),
    WriterTaken,
    ReaderCloned,
    CommandSpawned(C),
    ReaderSpawned(WorkerThread<H, D>),
    WriterSpawned(I, WorkerThread<H, D>),
    Failed(String),
}

/// What follows a step.
pub enum StartAction<M, C, I, H, D> {
    /// Take the next step.
    GoOn(StartRun<M, C, H, D>),
    /// The session has started.
    Finish { master: M, child: C, workers: PtyIoWorkers<I, H, D> },
    /// The start failed before there was a child.
    Fail(AppError),
    /// The start failed with a child running: release these, and report a failure
    /// to do so under `operation`.
    CleanUp {
        resources: PtyCleanupResources<M, C, I, H, D>,
        error: AppError,
        operation: &'static str,
    },
}

impl<M, C, H, D> StartRun<M, C, H, D> {
    pub open spec fn spec_step(&self) -> StartStep {
        match self {
            StartRun::OpenPty => StartStep::OpenPty,
            StartRun::TakeWriter { .. } => StartStep::TakeWriter,
            StartRun::CloneReader { .. } => StartStep::CloneReader,
            StartRun::SpawnCommand { .. } => StartStep::SpawnCommand,
            StartRun::SpawnReader { .. } => StartStep::SpawnReader,
            StartRun::SpawnWriter { .. } => StartStep::SpawnWriter,
        }
    }

    /// The controlling side of the PTY, once there is one.
    pub open spec fn spec_master(&self) -> Option<&M> {
        match self {
            StartRun::OpenPty => None,
            StartRun::TakeWriter { master } => Some(master),
            StartRun::CloneReader { master } => Some(master),
            StartRun::SpawnCommand { master } => Some(master),
            StartRun::SpawnReader { master, .. } => Some(master),
            StartRun::SpawnWriter { master, .. } => Some(master),
        }
    }

    /// Whether a step can go in some way.
    pub open spec fn expects<I>(&self, event: StartEvent<M, C, I, H, D>) -> bool {
        match event {
            StartEvent::PtyOpened(_) => self is OpenPty,
            StartEvent::WriterTaken => self is TakeWriter,
            StartEvent::ReaderCloned => self is CloneReader,
            StartEvent::CommandSpawned(_) => self is SpawnCommand,
            StartEvent::ReaderSpawned(_) => self is SpawnReader,
            StartEvent::WriterSpawned(_, _) => self is SpawnWriter,
            StartEvent::Failed(_) => true,
        }
    }

    /// The start after a step that succeeded, but for the last.
    pub open spec fn advanced<I>(self, event: StartEvent<M, C, I, H, D>) -> Self {
        match (self, event) {
            (StartRun::OpenPty, StartEvent::PtyOpened(master)) => StartRun::TakeWriter { master },
            (StartRun::TakeWriter { master }, StartEvent::WriterTaken) => StartRun::CloneReader {
                master,
            },
            (StartRun::CloneReader { master }, StartEvent::ReaderCloned) => StartRun::SpawnCommand {
                master,
            },
            (
                StartRun::SpawnCommand { master },
                StartEvent::CommandSpawned(child),
            ) => StartRun::SpawnReader { master, child },
            (
                StartRun::SpawnReader { master, child },
                StartEvent::ReaderSpawned(reader),
            ) => StartRun::SpawnWriter { master, child, reader },
            _ => self,
        }
    }

    pub fn new() -> (run: Self)
        ensures
            run is OpenPty,
    {
        StartRun::OpenPty
    }

    /// The step to be taken.
    pub fn step(&self) -> (step: StartStep)
        ensures
            step == self.spec_step(),
    {
        match self {
            StartRun::OpenPty => StartStep::OpenPty,
            StartRun::TakeWriter { .. } => StartStep::TakeWriter,
            StartRun::CloneReader { .. } => StartStep::CloneReader,
            StartRun::SpawnCommand { .. } => StartStep::SpawnCommand,
            StartRun::SpawnReader { .. } => StartStep::SpawnReader,
            StartRun::SpawnWriter { .. } => StartStep::SpawnWriter,
        }
    }

    pub fn master(&self) -> (master: Option<&M>)
        ensures
            master == self.spec_master(),
    {
        match self {
            StartRun::OpenPty => None,
            StartRun::TakeWriter { master } => Some(master),
            StartRun::CloneReader { master } => Some(master),
            StartRun::SpawnCommand { master } => Some(master),
            StartRun::SpawnReader { master, .. } => Some(master),
            StartRun::SpawnWriter { master, .. } => Some(master),
        }
    }

    /// What follows a step that went in some way.
    pub fn after<I>(self, event: StartEvent<M, C, I, H, D>) -> (action: StartAction<M, C, I, H, D>)
        requires
            self.expects(event),
        ensures
            !(event is Failed) && !(self is SpawnWriter) ==> action == StartAction::<
                M,
                C,
                I,
                H,
                D,
            >::GoOn(self.advanced(event)),
            match (self, event) {
                (
                    StartRun::SpawnWriter { master, child, reader },
                    StartEvent::WriterSpawned(input, writer),
                ) => action == (StartAction::Finish {
                    master,
                    child,
                    workers: PtyIoWorkers { input: Some(input), reader, writer },
                }),
                (StartRun::SpawnReader { master, child }, StartEvent::Failed(cause)) => {
                    action matches StartAction::CleanUp { resources, error, operation }
                        && resources == (PtyCleanupResources::<M, C, I, H, D> {
                        master: Some(master),
                        child: Some(child),
                        workers: None,
                    }) && error@ == ErrorModel::Io("spawn pty reader thread"@, cause@)
                        && operation@ == "cleanup pty after reader thread spawn failure"@
                },
                (StartRun::SpawnWriter { master, child, reader }, StartEvent::Failed(cause)) => {
                    action matches StartAction::CleanUp { resources, error, operation }
                        && resources == (PtyCleanupResources::<M, C, I, H, D> {
                        master: Some(master),
                        child: Some(child),
                        workers: Some(
                            PtyIoWorkers {
                                input: None,
                                reader,
                                writer: WorkerThread { thread: None, done: None },
                            },
                        ),
                    }) && error@ == ErrorModel::Io("spawn pty writer thread"@, cause@)
                        && operation@ == "cleanup pty after writer thread spawn failure"@
                },
                (StartRun::OpenPty, StartEvent::Failed(cause)) => action matches StartAction::Fail(
                    error,
                ) && error@ == ErrorModel::Pty("open pty"@, cause@),
                (
                    StartRun::TakeWriter { .. },
                    StartEvent::Failed(cause),
                ) => action matches StartAction::Fail(error) && error@ == ErrorModel::Pty(
                    "take pty writer"@,
                    cause@,
                ),
                (
                    StartRun::CloneReader { .. },
                    StartEvent::Failed(cause),
                ) => action matches StartAction::Fail(error) && error@ == ErrorModel::Pty(
                    "clone pty reader"@,
                    cause@,
                ),
                (
                    StartRun::SpawnCommand { .. },
                    StartEvent::Failed(cause),
                ) => action matches StartAction::Fail(error) && error@ == ErrorModel::Pty(
                    "spawn pty command"@,
                    cause@,
                ),
                _ => true,
            },
    {
        let step = self.step();
        match event {
            StartEvent::Failed(cause) => {
                let error = session::start_error(step, cause);
                let resources = match self {
                    StartRun::SpawnReader { master, child } => PtyCleanupResources {
                        master: Some(master),
                        child: Some(child),
                        workers: None,
                    },
                    StartRun::SpawnWriter { master, child, reader } => PtyCleanupResources {
                        master: Some(master),
                        child: Some(child),
                        workers: Some(PtyIoWorkers::from_reader(reader)),
                    },
                    _ => return StartAction::Fail(error),
                };
                match session::start_cleanup_operation(step) {
                    Some(operation) => StartAction::CleanUp { resources, error, operation },
                    None => StartAction::Fail(error),
                }
            },
            StartEvent::PtyOpened(master) => StartAction::GoOn(StartRun::TakeWriter { master }),
            StartEvent::CommandSpawned(child) => match self {
                StartRun::SpawnCommand { master } => StartAction::GoOn(
                    StartRun::SpawnReader { master, child },
                ),
                run => StartAction::GoOn(run),
            },
            StartEvent::ReaderSpawned(reader) => match self {
                StartRun::SpawnReader { master, child } => StartAction::GoOn(
                    StartRun::SpawnWriter { master, child, reader },
                ),
                run => StartAction::GoOn(run),
            },
            StartEvent::WriterSpawned(input, writer) => match self {
                StartRun::SpawnWriter { master, child, reader } => StartAction::Finish {
                    master,
                    child,
                    workers: PtyIoWorkers::new(input, writer, reader),
                },
                run => StartAction::GoOn(run),
            },
            _ => match self {
                StartRun::TakeWriter { master } => StartAction::GoOn(
                    StartRun::CloneReader { master },
                ),
                StartRun::CloneReader { master } => StartAction::GoOn(
                    StartRun::SpawnCommand { master },
                ),
                run => StartAction::GoOn(run),
            },
        }
    }
}

/// The start after some steps, all of which succeeded.
pub open spec fn after_all<M, C, I, H, D>(
    run: StartRun<M, C, H, D>,
    events: Seq<StartEvent<M, C, I, H, D>>,
) -> StartRun<M, C, H, D>
    decreases events.len(),
{
    if events.len() == 0 {
        run
    } else {
        after_all(run, events.drop_last()).advanced(events.last())
    }
}

/// Whether these can be the first steps of a start, if all succeed.
pub open spec fn can_begin<M, C, I, H, D>(events: Seq<StartEvent<M, C, I, H, D>>) -> bool
    decreases events.len(),
{
    events.len() > 0 ==> {
        let run = after_all(StartRun::OpenPty, events.drop_last());
        &&& can_begin(events.drop_last())
        &&& run.expects(events.last())
        &&& !(events.last() is Failed)
        &&& !(run is SpawnWriter)
    }
}

/// The steps of a start are taken in their order, each once, and what they gave is
/// kept: a child that was spawned and a reader that runs are with the start until it
/// hands them to the session or to the cleanup.
pub proof fn law_start_takes_its_steps_in_order<M, C, I, H, D>(
    events: Seq<StartEvent<M, C, I, H, D>>,
)
    requires
        can_begin(events),
    ensures
        ({
            let run = after_all(StartRun::<M, C, H, D>::OpenPty, events);
            &&& events.len() <= 5
            &&& events.len() == 0 ==> run.spec_step() is OpenPty
            &&& events.len() == 1 ==> run.spec_step() is TakeWriter
            &&& events.len() == 2 ==> run.spec_step() is CloneReader
            &&& events.len() == 3 ==> run.spec_step() is SpawnCommand
            &&& events.len() == 4 ==> run.spec_step() is SpawnReader
            &&& events.len() == 5 ==> run.spec_step() is SpawnWriter
            &&& events.len() >= 1 ==> events[0] is PtyOpened && run.spec_master() == Some(
                &events[0]->PtyOpened_0,
            )
            &&& events.len() >= 2 ==> events[1] is WriterTaken
            &&& events.len() >= 3 ==> events[2] is ReaderCloned
            &&& events.len() >= 4 ==> events[3] is CommandSpawned
            &&& events.len() == 4 ==> run->SpawnReader_child == events[3]->CommandSpawned_0
            &&& events.len() == 5 ==> {
                &&& run->SpawnWriter_child == events[3]->CommandSpawned_0
                &&& events[4] is ReaderSpawned
                &&& run->SpawnWriter_reader == events[4]->ReaderSpawned_0
            }
        }),
    decreases events.len(),
{
    if events.len() > 0 {
        law_start_takes_its_steps_in_order(events.drop_last());
    }
}

/// Every step of a start can fail, and can succeed in its own way only.
pub proof fn law_every_step_can_fail<M, C, I, H, D>(
    run: StartRun<M, C, H, D>,
    event: StartEvent<M, C, I, H, D>,
)
    ensures
        event is Failed ==> run.expects(event),
        run is OpenPty ==> (run.expects(event) <==> event is Failed || event is PtyOpened),
        run is TakeWriter ==> (run.expects(event) <==> event is Failed || event is WriterTaken),
        run is CloneReader ==> (run.expects(event) <==> event is Failed || event is ReaderCloned),
        run is SpawnCommand ==> (run.expects(event) <==> event is Failed
            || event is CommandSpawned),
        run is SpawnReader ==> (run.expects(event) <==> event is Failed
            || event is ReaderSpawned),
        run is SpawnWriter ==> (run.expects(event) <==> event is Failed
            || event is WriterSpawned),
{
}

} // verus!
