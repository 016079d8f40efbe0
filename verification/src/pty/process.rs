//! Ending a session's child process and releasing its resources.

use vstd::prelude::*;
use vstd::string::*;

use crate::error::{AppError, AppResult, ErrorModel};
use crate::pty::io_workers::PtyIoWorkers;

verus! {

/// Milliseconds that a child may take to follow an exit request.
pub const CHILD_GRACEFUL_EXIT_TIMEOUT_MS: u64 = 500;

/// Milliseconds that a child may take to end once it is terminated.
pub const CHILD_FORCED_EXIT_TIMEOUT_MS: u64 = 2000;

/// Milliseconds that detached cleanup may take when the application ends.
/// Covers graceful child exit, forced child exit and bounded worker joins.
pub const DETACHED_CLEANUP_DRAIN_TIMEOUT_MS: u64 = 7000;

/// Milliseconds between two looks at a child.
pub const CHILD_EXIT_POLL_INTERVAL_MS: u64 = 25;

pub const DETACHED_CLEANUP_DRAIN_TIMEOUT_OPERATION: &'static str = "join detached pty cleanup tasks";

pub const NO_RESULT_MESSAGE: &'static str = "pty cleanup task finished without reporting result";

/// What a session holds and a cleanup releases.
pub struct PtyCleanupResources<M, C, I, H, D> {
    pub master: Option<M>,
    pub child: Option<C>,
    pub workers: Option<PtyIoWorkers<I, H, D>>,
}

/// A cleanup that failed, with what it could not release.
pub struct PtyCleanupFailure<M, C, I, H, D> {
    pub error: AppError,
    pub resources: Option<Box<PtyCleanupResources<M, C, I, H, D>>>,
}

impl<M, C, I, H, D> PtyCleanupFailure<M, C, I, H, D> {
    pub fn with_resources(
        error: AppError,
        resources: PtyCleanupResources<M, C, I, H, D>,
    ) -> (failure: Self)
        ensures
            failure.error == error,
            failure.resources == Some(Box::new(resources)),
    {
        PtyCleanupFailure { error, resources: Some(Box::new(resources)) }
    }

    pub fn without_resources(error: AppError) -> (failure: Self)
        ensures
            failure.error == error,
            failure.resources is None,
    {
        PtyCleanupFailure { error, resources: None }
    }

    pub fn into_parts(self) -> (parts: (Option<PtyCleanupResources<M, C, I, H, D>>, AppError))
        ensures
            parts.1 == self.error,
            parts.0 == (match self.resources {
                Some(resources) => Some(*resources),
                None => None,
            }),
    {
        match self.resources {
            Some(resources) => (Some(*resources), self.error),
            None => (None, self.error),
        }
    }
}

impl<M, C, I, H, D> PtyCleanupResources<M, C, I, H, D> {
    pub fn new(
        master: Option<M>,
        child: Option<C>,
        workers: Option<PtyIoWorkers<I, H, D>>,
    ) -> (resources: Self)
        ensures
            resources.master == master,
            resources.child == child,
            resources.workers == workers,
    {
        PtyCleanupResources { master, child, workers }
    }

    /// What a session takes back after a failed cleanup: workers only where
    /// one of their threads still has to be joined.
    pub open spec fn recoverable_workers(self) -> Option<PtyIoWorkers<I, H, D>> {
        match self.workers {
            Some(workers) => if workers.unjoined() {
                Some(workers)
            } else {
                None
            },
            None => None,
        }
    }

    pub fn into_recoverable_parts(self) -> (parts: (
        Option<M>,
        Option<C>,
        Option<PtyIoWorkers<I, H, D>>,
    ))
        ensures
            parts.0 == self.master,
            parts.1 == self.child,
            parts.2 == self.recoverable_workers(),
            parts.2 is Some <==> (self.workers matches Some(workers) && (workers.reader.thread is Some
                || workers.writer.thread is Some)),
            parts.2 is Some ==> parts.2 == self.workers,
    {
        let workers = match self.workers {
            Some(workers) => if workers.has_unjoined_threads() {
                Some(workers)
            } else {
                None
            },
            None => None,
        };
        (self.master, self.child, workers)
    }
}

/// What a shutdown does next.
#[derive(Clone, Copy, Debug, PartialEq, Eq, Structural)]
pub enum ShutdownAction {
    /// Send the shell its exit sequence.
    RequestExit,
    /// Give the writer no more input.
    CloseInput,
    /// Wait for the child to exit by itself.
    WaitForExit,
    /// Terminate the child.
    Terminate,
    /// Let go of the PTY.
    ReleaseMaster,
    JoinWriter,
    JoinReader,
    Finish,
}

/// A shutdown under way.
pub struct ShutdownRun {
    /// What is to be done now.
    pub action: ShutdownAction,
    /// Whether there was a child at the start.
    pub has_child: bool,
    pub has_workers: bool,
    /// Whether the child is asked to exit by itself.
    pub graceful: bool,
    /// The first error.
    pub failure: Option<AppError>,
}

/// Errors after the first are not kept.
pub open spec fn first_failure(failure: Option<AppError>, outcome: AppResult<bool>) -> Option<AppError> {
    match (failure, outcome) {
        (Some(error), _) => Some(error),
        (None, Err(error)) => Some(error),
        (None, Ok(_)) => None,
    }
}

/// The action after `action` gave `outcome`; `failure` is the first error up
/// to now.
pub open spec fn shutdown_action_after(
    run: ShutdownRun,
    outcome: AppResult<bool>,
    failure: Option<AppError>,
) -> ShutdownAction {
    match run.action {
        ShutdownAction::RequestExit => ShutdownAction::CloseInput,
        ShutdownAction::CloseInput => if run.graceful && failure is None {
            ShutdownAction::WaitForExit
        } else if run.has_child {
            ShutdownAction::Terminate
        } else {
            ShutdownAction::ReleaseMaster
        },
        ShutdownAction::WaitForExit => if outcome == Ok::<bool, AppError>(true) {
            ShutdownAction::ReleaseMaster
        } else {
            ShutdownAction::Terminate
        },
        ShutdownAction::Terminate => ShutdownAction::ReleaseMaster,
        ShutdownAction::ReleaseMaster => if run.has_workers {
            ShutdownAction::JoinWriter
        } else {
            ShutdownAction::Finish
        },
        ShutdownAction::JoinWriter => ShutdownAction::JoinReader,
        ShutdownAction::JoinReader => ShutdownAction::Finish,
        ShutdownAction::Finish => ShutdownAction::Finish,
    }
}

/// The shutdown after its action gave `outcome`.
pub open spec fn shutdown_next(run: ShutdownRun, outcome: AppResult<bool>) -> ShutdownRun {
    let failure = if run.action is Finish {
        run.failure
    } else {
        first_failure(run.failure, outcome)
    };
    ShutdownRun { action: shutdown_action_after(run, outcome, failure), failure, ..run }
}

impl ShutdownRun {
    /// The child is asked to exit only where there is one.
    pub fn new(has_child: bool, has_workers: bool, request_graceful_exit: bool) -> (run: Self)
        ensures
            run == (ShutdownRun {
                action: if request_graceful_exit && has_child && has_workers {
                    ShutdownAction::RequestExit
                } else {
                    ShutdownAction::CloseInput
                },
                has_child,
                has_workers,
                graceful: request_graceful_exit && has_child,
                failure: None,
            }),
    {
        let graceful = request_graceful_exit && has_child;
        ShutdownRun {
            action: if graceful && has_workers {
                ShutdownAction::RequestExit
            } else {
                ShutdownAction::CloseInput
            },
            has_child,
            has_workers,
            graceful,
            failure: None,
        }
    }

    /// Takes the outcome of the current action; for a wait, whether the child
    /// exited.
    pub fn report(&mut self, outcome: AppResult<bool>)
        ensures
            *final(self) == shutdown_next(*old(self), outcome),
    {
        let waited_out = match &outcome {
            Ok(exited) => *exited,
            Err(_) => false,
        };
        match self.action {
            ShutdownAction::Finish => {
                return ;
            },
            _ => {},
        }
        if let Err(error) = outcome {
            if self.failure.is_none() {
                self.failure = Some(error);
            }
        }
        self.action =
        match self.action {
            ShutdownAction::RequestExit => ShutdownAction::CloseInput,
            ShutdownAction::CloseInput => {
                if self.graceful && self.failure.is_none() {
                    ShutdownAction::WaitForExit
                } else if self.has_child {
                    ShutdownAction::Terminate
                } else {
                    ShutdownAction::ReleaseMaster
                }
            },
            ShutdownAction::WaitForExit => {
                if waited_out {
                    ShutdownAction::ReleaseMaster
                } else {
                    ShutdownAction::Terminate
                }
            },
            ShutdownAction::Terminate => ShutdownAction::ReleaseMaster,
            ShutdownAction::ReleaseMaster => {
                if self.has_workers {
                    ShutdownAction::JoinWriter
                } else {
                    ShutdownAction::Finish
                }
            },
            ShutdownAction::JoinWriter => ShutdownAction::JoinReader,
            ShutdownAction::JoinReader => ShutdownAction::Finish,
            ShutdownAction::Finish => ShutdownAction::Finish,
        };
    }

    /// The shutdown's result: its first error, with what is left.
    pub fn finish<M, C, I, H, D>(self, resources: PtyCleanupResources<M, C, I, H, D>) -> (result:
        Result<(), PtyCleanupFailure<M, C, I, H, D>>)
        ensures
            self.failure is None ==> result is Ok,
            self.failure matches Some(error) ==> {
                &&& result is Err
                &&& (result->Err_0).error == error
                &&& (result->Err_0).resources == Some(Box::new(resources))
            },
    {
        match self.failure {
            None => Ok(()),
            Some(error) => Err(PtyCleanupFailure::with_resources(error, resources)),
        }
    }
}

/// How far a shutdown is from its end.
pub open spec fn shutdown_steps_left(action: ShutdownAction) -> nat {
    match action {
        ShutdownAction::RequestExit => 7,
        ShutdownAction::CloseInput => 6,
        ShutdownAction::WaitForExit => 5,
        ShutdownAction::Terminate => 4,
        ShutdownAction::ReleaseMaster => 3,
        ShutdownAction::JoinWriter => 2,
        ShutdownAction::JoinReader => 1,
        ShutdownAction::Finish => 0,
    }
}

/// Every outcome brings a shutdown closer to its end, so that it ends after at
/// most seven actions.
pub proof fn law_shutdown_ends(run: ShutdownRun, outcome: AppResult<bool>)
    ensures
        run.action is Finish || shutdown_steps_left(shutdown_next(run, outcome).action)
            < shutdown_steps_left(run.action),
{
}

/// A shutdown reports the first error and no later one replaces it.
pub proof fn law_first_shutdown_error_is_kept(run: ShutdownRun, outcome: AppResult<bool>)
    ensures
        run.failure is Some ==> shutdown_next(run, outcome).failure == run.failure,
        run.failure is None && outcome is Ok ==> shutdown_next(run, outcome).failure is None,
{
}

/// A child is left unterminated only where there was none or the wait saw it
/// exit.
pub proof fn law_child_is_not_left_running(run: ShutdownRun, outcome: AppResult<bool>)
    requires
        run.graceful ==> run.has_child,
        run.has_child,
        !(run.action is Terminate),
        shutdown_steps_left(run.action) > shutdown_steps_left(ShutdownAction::ReleaseMaster),
        shutdown_next(run, outcome).action is ReleaseMaster,
    ensures
        run.action is WaitForExit,
        outcome == Ok::<bool, AppError>(true),
{
}

/// What ending a child by force does next.
pub enum ChildTermination {
    /// See whether the child has ended already.
    PollBefore,
    /// Kill the child.
    Kill,
    /// Killing failed with this error: see whether the child has ended.
    PollAfter(AppError),
    /// Wait for the killed child.
    WaitForced,
    /// Done, with this result.
    Finished(AppResult<()>),
}

impl ChildTermination {
    pub fn begin(has_child: bool) -> (next: Self)
        ensures
            next == (if has_child {
                ChildTermination::PollBefore
            } else {
                ChildTermination::Finished(Ok(()))
            }),
    {
        if has_child {
            ChildTermination::PollBefore
        } else {
            ChildTermination::Finished(Ok(()))
        }
    }

    /// The operation that a look at the child belongs to.
    pub fn poll_operation(&self) -> (operation: &'static str)
        ensures
            operation@ == (match self {
                ChildTermination::PollAfter(_) => "poll pty child after terminate failure"@,
                _ => "poll pty child before terminate"@,
            }),
    {
        match self {
            ChildTermination::PollAfter(_) => "poll pty child after terminate failure",
            _ => "poll pty child before terminate",
        }
    }

    /// Takes what a look at the child gave. A child that has ended needs no
    /// killing, and that it could not be killed does not matter then.
    pub fn after_poll(self, polled: AppResult<Option<u32>>) -> (next: Self)
        ensures
            next == (match (self, polled) {
                (ChildTermination::PollBefore, Ok(None)) => ChildTermination::Kill,
                (ChildTermination::PollAfter(error), Ok(None)) => ChildTermination::Finished(
                    Err(error),
                ),
                (ChildTermination::PollBefore, Ok(Some(_))) => ChildTermination::Finished(Ok(())),
                (ChildTermination::PollAfter(_), Ok(Some(_))) => ChildTermination::Finished(Ok(())),
                (ChildTermination::PollBefore, Err(error)) => ChildTermination::Finished(
                    Err(error),
                ),
                (ChildTermination::PollAfter(_), Err(error)) => ChildTermination::Finished(
                    Err(error),
                ),
                (other, _) => other,
            }),
    {
        match (self, polled) {
            (ChildTermination::PollBefore, Ok(None)) => ChildTermination::Kill,
            (ChildTermination::PollAfter(error), Ok(None)) => ChildTermination::Finished(
                Err(error),
            ),
            (ChildTermination::PollBefore, Ok(Some(_))) => ChildTermination::Finished(Ok(())),
            (ChildTermination::PollAfter(_), Ok(Some(_))) => ChildTermination::Finished(Ok(())),
            (ChildTermination::PollBefore, Err(error)) => ChildTermination::Finished(Err(error)),
            (ChildTermination::PollAfter(_), Err(error)) => ChildTermination::Finished(Err(error)),
            (other, _) => other,
        }
    }

    /// Takes what killing the child gave.
    pub fn after_kill(self, killed: AppResult<()>) -> (next: Self)
        ensures
            next == (match (self, killed) {
                (ChildTermination::Kill, Ok(())) => ChildTermination::WaitForced,
                (ChildTermination::Kill, Err(error)) => ChildTermination::PollAfter(error),
                (other, _) => other,
            }),
    {
        match (self, killed) {
            (ChildTermination::Kill, Ok(())) => ChildTermination::WaitForced,
            (ChildTermination::Kill, Err(error)) => ChildTermination::PollAfter(error),
            (other, _) => other,
        }
    }

    /// Takes whether the killed child ended in time.
    pub fn after_wait(self, waited: AppResult<bool>) -> (next: Self)
        ensures
            !(self is WaitForced) ==> next == self,
            self is WaitForced ==> next is Finished,
            self is WaitForced && waited == Ok::<bool, AppError>(true) ==> next
                == ChildTermination::Finished(Ok(())),
            self is WaitForced && waited == Ok::<bool, AppError>(false) ==> next->Finished_0 is Err
                && (next->Finished_0->Err_0)@ == ErrorModel::Pty(
                "wait for pty child after termination"@,
                "timed out waiting for pty child to exit after termination"@,
            ),
            self is WaitForced && waited is Err ==> next == ChildTermination::Finished(
                Err(waited->Err_0),
            ),
    {
        match (self, waited) {
            (ChildTermination::WaitForced, Ok(true)) => ChildTermination::Finished(Ok(())),
            (ChildTermination::WaitForced, Ok(false)) => ChildTermination::Finished(
                Err(
                    AppError::pty_message(
                        "wait for pty child after termination",
                        "timed out waiting for pty child to exit after termination".to_owned(),
                    ),
                ),
            ),
            (ChildTermination::WaitForced, Err(error)) => ChildTermination::Finished(Err(error)),
            (other, _) => other,
        }
    }
}

/// Keeps a child until a look at it gives its exit code: `polled` is what the
/// look gave, for a session that has a child.
pub fn take_child_exit_code<C>(
    child: &mut Option<C>,
    polled: Result<Option<u32>, String>,
    operation: &'static str,
) -> (code: AppResult<Option<u32>>)
    ensures
        *old(child) is None ==> code == Ok::<Option<u32>, AppError>(None) && *final(child) == *old(child),
        *old(child) is Some && polled is Err ==> {
            &&& code is Err
            &&& (code->Err_0)@ == ErrorModel::Io(operation@, polled->Err_0@)
            &&& *final(child) == *old(child)
        },
        *old(child) is Some && polled is Ok ==> {
            &&& code == Ok::<Option<u32>, AppError>(polled->Ok_0)
            &&& polled->Ok_0 is Some ==> *final(child) is None
            &&& polled->Ok_0 is None ==> *final(child) == *old(child)
        },
{
    if child.is_none() {
        return Ok(None);
    }
    match polled {
        Err(cause) => Err(AppError::io(operation, cause)),
        Ok(code) => {
            if code.is_some() {
                *child = None;
            }
            Ok(code)
        },
    }
}

/// What a wait with a deadline does next.
#[derive(Clone, Copy, Debug, PartialEq, Eq, Structural)]
pub enum WaitStep {
    /// What was waited for is there.
    Reached,
    TimedOut,
    /// Sleep so many milliseconds and look again.
    Sleep(u64),
}

/// One look of a wait: `reached` is what the look saw, `remaining_ms` the time
/// that is left until the deadline.
pub fn wait_step(reached: bool, remaining_ms: u64) -> (step: WaitStep)
    ensures
        step == (if reached {
            WaitStep::Reached
        } else if remaining_ms == 0 {
            WaitStep::TimedOut
        } else if remaining_ms < CHILD_EXIT_POLL_INTERVAL_MS {
            WaitStep::Sleep(remaining_ms)
        } else {
            WaitStep::Sleep(CHILD_EXIT_POLL_INTERVAL_MS)
        }),
        step matches WaitStep::Sleep(ms) ==> 0 < ms <= 25 && ms <= remaining_ms,
        step is Reached <==> reached,
        step is TimedOut <==> !reached && remaining_ms == 0,
{
    if reached {
        WaitStep::Reached
    } else if remaining_ms == 0 {
        WaitStep::TimedOut
    } else if remaining_ms < CHILD_EXIT_POLL_INTERVAL_MS {
        WaitStep::Sleep(remaining_ms)
    } else {
        WaitStep::Sleep(CHILD_EXIT_POLL_INTERVAL_MS)
    }
}

/// A shutdown takes its actions in order: the input is closed after an exit was asked for, an
/// exit is waited for where one was asked for and nothing failed, a child that did not exit is
/// ended by force, and only then is the PTY let go and are the threads joined, the writer before
/// the reader. What is not there is passed over.
pub proof fn law_shutdown_takes_its_actions_in_order(run: ShutdownRun, outcome: AppResult<bool>)
    ensures
        ({
            let next = shutdown_next(run, outcome);
            let unfailed = run.failure is None && outcome is Ok;
            &&& next.has_child == run.has_child
            &&& next.has_workers == run.has_workers
            &&& next.graceful == run.graceful
            &&& run.action is RequestExit ==> next.action is CloseInput
            &&& run.action is CloseInput && run.graceful && unfailed ==> next.action is WaitForExit
            &&& run.action is CloseInput && !(run.graceful && unfailed) && run.has_child
                ==> next.action is Terminate
            &&& run.action is CloseInput && !(run.graceful && unfailed) && !run.has_child
                ==> next.action is ReleaseMaster
            &&& run.action is WaitForExit ==> (if outcome == Ok::<bool, AppError>(true) {
                next.action is ReleaseMaster
            } else {
                next.action is Terminate
            })
            &&& run.action is Terminate ==> next.action is ReleaseMaster
            &&& run.action is ReleaseMaster ==> (if run.has_workers {
                next.action is JoinWriter
            } else {
                next.action is Finish
            })
            &&& run.action is JoinWriter ==> next.action is JoinReader
            &&& run.action is JoinReader ==> next.action is Finish
            &&& run.action is Finish ==> next.action is Finish && next.failure == run.failure
            &&& !(run.action is Finish) && run.failure is None && outcome is Err
                ==> next.failure == Some(outcome->Err_0)
        }),
{
}

/// Workers are taken back after a failed cleanup where one of their threads is still to be
/// joined, as they are, and only there.
pub proof fn law_workers_with_threads_are_taken_back<M, C, I, H, D>(
    resources: PtyCleanupResources<M, C, I, H, D>,
)
    ensures
        resources.recoverable_workers() is Some <==> (resources.workers matches Some(workers) && (
        workers.reader.thread is Some || workers.writer.thread is Some)),
        resources.recoverable_workers() is Some ==> resources.recoverable_workers()
            == resources.workers,
{
}

} // verus!
