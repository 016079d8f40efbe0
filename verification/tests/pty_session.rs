//! Sessions: starting, draining, shutting down, and what failed cleanups leave.

use std::cell::RefCell;

use j3term::domain::event::TerminalEvent;
use j3term::error::{AppError, AppResult};
use j3term::pty::cleanup::{
    collect_finished_detached_cleanup_tasks, detached_cleanup_drain_timeout_error,
    drain_detached_cleanup_step, is_detached_cleanup_timeout_error, recovered_cleanup_error,
    ChannelPoll, DetachedCleanupTask, DrainStep, PtyCleanupTask, TaskOutcome, ThreadPoll,
};
use j3term::pty::event_queue::{PtyEventQueue, READ_BUFFER_SIZE};
use j3term::pty::io_workers::{
    is_writer_input_queue_full_error, join_result, join_timeout_error, write_request_error,
    DoneWait, PtyIoWorkers, SendFailure, WorkerKind, WorkerThread,
};
use j3term::pty::process::{
    take_child_exit_code, wait_step, ChildTermination, PtyCleanupFailure, PtyCleanupResources,
    ShutdownAction, ShutdownRun, WaitStep, CHILD_EXIT_POLL_INTERVAL_MS,
    CHILD_FORCED_EXIT_TIMEOUT_MS, CHILD_GRACEFUL_EXIT_TIMEOUT_MS,
    DETACHED_CLEANUP_DRAIN_TIMEOUT_MS,
};
use j3term::pty::session::{
    begin_drain, end_exited_drain, end_failed_drain, start_cleanup_operation, start_error,
    DrainNext, PortablePtySession, StartDecision, StartStep, CHILD_EXIT_BACKGROUND_POLL_INTERVAL_MS,
    MAX_DRAIN_EVENT_COUNT, MAX_DRAIN_OUTPUT_BYTES,
};
use j3term::pty::start::{StartAction, StartEvent, StartRun};
use j3term::pty::worker::SHUTDOWN_FAILURE_USER_MESSAGE;

/// A child whose behaviour a test sets.
struct Child {
    running_polls: usize,
    only_after_kill: bool,
    kill_fails: bool,
    killed: bool,
    kill_calls: usize,
    polls: usize,
}

impl Child {
    fn exits_after(running_polls: usize) -> Self {
        Child {
            running_polls,
            only_after_kill: false,
            kill_fails: false,
            killed: false,
            kill_calls: 0,
            polls: 0,
        }
    }

    fn exits_only_after_kill() -> Self {
        Child { only_after_kill: true, ..Child::exits_after(0) }
    }

    fn fails_to_kill() -> Self {
        Child { kill_fails: true, ..Child::exits_only_after_kill() }
    }

    fn poll(&mut self) -> Option<u32> {
        self.polls += 1;
        if self.only_after_kill && !self.killed {
            return None;
        }
        if self.running_polls > 0 {
            self.running_polls -= 1;
            return None;
        }
        Some(0)
    }

    fn kill(&mut self) -> AppResult<()> {
        self.kill_calls += 1;
        if self.kill_fails {
            return Err(AppError::io("terminate pty child", "access denied".to_string()));
        }
        self.killed = true;
        Ok(())
    }
}

/// The input side of a writer.
struct Input {
    connected: bool,
    written: RefCell<Vec<u8>>,
}

/// What becomes of a worker's thread.
#[derive(Clone, Copy, Debug, PartialEq)]
enum Thread {
    Ends,
    Panics,
    DoesNotEnd,
    FailsToWriteExit,
}

type Workers = PtyIoWorkers<Input, Thread, u8>;
type Resources = PtyCleanupResources<u8, Child, Input, Thread, u8>;
type Failure = PtyCleanupFailure<u8, Child, Input, Thread, u8>;
type Session = PortablePtySession<u8, Child, Input, Thread, u8, u8>;

fn workers(connected: bool, writer: Thread) -> Workers {
    PtyIoWorkers::new(
        Input { connected, written: RefCell::new(Vec::new()) },
        WorkerThread::new(writer, 1),
        WorkerThread::none(),
    )
}

fn reading(reader: Thread) -> Workers {
    PtyIoWorkers::from_reader(WorkerThread::new(reader, 1))
}

/// What a shutdown did.
struct Record {
    written: Vec<u8>,
    killed: bool,
    kill_calls: usize,
    actions: Vec<ShutdownAction>,
}

fn wait_for_exit(child: &mut Option<Child>, timeout_ms: u64) -> AppResult<bool> {
    let mut left = timeout_ms;
    loop {
        let polled = match child.as_mut() {
            Some(child) => child.poll(),
            None => None,
        };
        take_child_exit_code(child, Ok(polled), "poll pty child during shutdown")?;
        match wait_step(child.is_none(), left) {
            WaitStep::Reached => return Ok(true),
            WaitStep::TimedOut => return Ok(false),
            WaitStep::Sleep(slept) => left -= slept,
        }
    }
}

fn terminate(child: &mut Option<Child>, record: &mut Record) -> AppResult<bool> {
    let mut step = ChildTermination::begin(child.is_some());
    loop {
        step = match step {
            ChildTermination::Finished(result) => return result.map(|_| false),
            ChildTermination::Kill => {
                let running = child.as_mut().unwrap();
                let killed = running.kill();
                record.killed = running.killed;
                record.kill_calls = running.kill_calls;
                ChildTermination::Kill.after_kill(killed)
            }
            ChildTermination::WaitForced => {
                let waited = wait_for_exit(child, CHILD_FORCED_EXIT_TIMEOUT_MS);
                ChildTermination::WaitForced.after_wait(waited)
            }
            poll => {
                let operation = poll.poll_operation();
                let polled = child.as_mut().unwrap().poll();
                let code = take_child_exit_code(child, Ok(polled), operation);
                poll.after_poll(code)
            }
        };
    }
}

fn join(worker: &mut WorkerThread<Thread, u8>, kind: WorkerKind) -> AppResult<bool> {
    let Some((thread, done)) = worker.begin_join() else {
        return Ok(false);
    };
    let wait = if thread == Thread::DoesNotEnd { DoneWait::TimedOut } else { DoneWait::Signalled };
    match worker.after_wait(thread, done, wait) {
        None => Err(join_timeout_error(kind)),
        Some(thread) => join_result(
            kind,
            match thread {
                Thread::Panics => None,
                Thread::FailsToWriteExit => Some(Err(AppError::io(
                    "write graceful pty shutdown",
                    "broken pipe".to_string(),
                ))),
                _ => Some(Ok(())),
            },
        )
        .map(|_| false),
    }
}

fn shutdown(mut resources: Resources, graceful: bool) -> (Result<(), Failure>, Record) {
    let mut record =
        Record { written: Vec::new(), killed: false, kill_calls: 0, actions: Vec::new() };
    let mut run =
        ShutdownRun::new(resources.child.is_some(), resources.workers.is_some(), graceful);
    while run.action != ShutdownAction::Finish {
        record.actions.push(run.action);
        let outcome = match run.action {
            ShutdownAction::RequestExit => {
                match resources.workers.as_ref().unwrap().graceful_exit_sender() {
                    Some(input) if input.connected => {
                        input.written.borrow_mut().extend_from_slice(b"exit\r");
                        record.written.extend_from_slice(b"exit\r");
                        Ok(false)
                    }
                    Some(_) => Err(write_request_error(SendFailure::Disconnected)),
                    None => Ok(false),
                }
            }
            ShutdownAction::CloseInput => {
                if let Some(workers) = resources.workers.as_mut() {
                    workers.close_input();
                }
                Ok(false)
            }
            ShutdownAction::WaitForExit => {
                wait_for_exit(&mut resources.child, CHILD_GRACEFUL_EXIT_TIMEOUT_MS)
            }
            ShutdownAction::Terminate => terminate(&mut resources.child, &mut record),
            ShutdownAction::ReleaseMaster => {
                resources.master = None;
                Ok(false)
            }
            ShutdownAction::JoinWriter => {
                join(&mut resources.workers.as_mut().unwrap().writer, WorkerKind::Writer)
            }
            ShutdownAction::JoinReader => {
                join(&mut resources.workers.as_mut().unwrap().reader, WorkerKind::Reader)
            }
            ShutdownAction::Finish => Ok(false),
        };
        run.report(outcome);
    }
    (run.finish(resources), record)
}

/// A session with its queue, and the cleanups that run beside it.
struct Backend {
    session: Session,
    events: PtyEventQueue,
    old_events: PtyEventQueue,
    running: Vec<Option<Resources>>,
    now_ms: u64,
}

impl Backend {
    fn new() -> Self {
        Backend {
            session: PortablePtySession::new(),
            events: PtyEventQueue::new(),
            old_events: PtyEventQueue::new(),
            running: Vec::new(),
            now_ms: 0,
        }
    }

    fn poll_cleanups(&mut self, outcomes: Vec<Option<Result<(), Failure>>>) -> bool {
        let still: Vec<bool> = outcomes.iter().map(|outcome| outcome.is_none()).collect();
        let mut index = 0;
        self.running.retain(|_| {
            index += 1;
            still[index - 1]
        });
        self.session.poll_cleanup_tasks(&mut self.events, outcomes)
    }

    fn nothing_finished(&mut self) -> bool {
        let outcomes = self.running.iter().map(|_| None).collect();
        self.poll_cleanups(outcomes)
    }

    /// Ends the first cleanup that runs.
    fn finish_cleanup(&mut self, graceful: bool) -> Record {
        let resources = self.running[0].take().unwrap();
        let (result, record) = shutdown(resources, graceful);
        let mut outcomes: Vec<Option<Result<(), Failure>>> = Vec::new();
        outcomes.push(Some(result));
        for _ in 1..self.running.len() {
            outcomes.push(None);
        }
        self.poll_cleanups(outcomes);
        record
    }

    fn shutdown(&mut self) {
        let failed = self.nothing_finished();
        if let Some(resources) = self.session.begin_cleanup(&mut self.events, failed) {
            self.running.push(Some(resources));
            let fresh = self.session.cleanup_started(&mut self.events, 0);
            self.old_events = std::mem::replace(&mut self.events, fresh);
        }
    }

    fn start(&mut self) -> StartDecision {
        self.nothing_finished();
        self.session.begin_start(&mut self.events)
    }

    fn drain(&mut self) -> Vec<TerminalEvent> {
        self.nothing_finished();
        let (mut events, next) = begin_drain(&mut self.events);
        match next {
            DrainNext::ShutDown => {
                self.shutdown();
                end_failed_drain(&mut events, Ok(()));
            }
            DrainNext::PollChild { force } => {
                if self.session.should_poll_child(force, self.now_ms) {
                    let polled = self.session.child.as_mut().unwrap().poll();
                    if let Ok(Some(code)) = self.session.child_polled(Ok(polled)) {
                        end_exited_drain(&mut self.events, &mut events, code);
                    }
                }
            }
        }
        events
    }
}

fn reports(events: &[TerminalEvent], operation: &str) -> bool {
    events.iter().any(|event| {
        matches!(
            event,
            TerminalEvent::Failure(failure)
                if failure.user_message == SHUTDOWN_FAILURE_USER_MESSAGE
                    && failure.operation == Some(operation)
        )
    })
}

#[test]
fn stdin_write_failure_event_does_not_include_input_bytes() {
    let mut backend = Backend::new();
    let input = b"typed-value";

    let result = backend.session.write_input(&mut backend.events, input, Ok(()));

    assert_eq!(
        result,
        Err(AppError::InvalidState("pty writer worker is not available"))
    );
    let events = backend.drain();
    let Some(TerminalEvent::StdinWriteFailed(failure)) = events.first() else {
        panic!("stdin write failure event was not emitted");
    };
    assert!(!failure.user_message.contains("typed-value"));
    assert!(!failure.cause.contains("typed-value"));
}

#[test]
fn writer_input_queue_backpressure_does_not_emit_stdin_failure_event() {
    let mut backend = Backend::new();
    backend.session.workers = Some(workers(true, Thread::Ends));

    let result = backend.session.write_input(
        &mut backend.events,
        b"overflow",
        Err(write_request_error(SendFailure::Full)),
    );

    assert!(matches!(
        result,
        Err(ref error) if is_writer_input_queue_full_error(error)
    ));
    let events = backend.drain();
    assert!(!events.iter().any(|event| matches!(event, TerminalEvent::StdinWriteFailed(_))));
}

#[test]
fn other_write_failures_are_reported_and_no_input_always_succeeds() {
    let mut backend = Backend::new();
    assert_eq!(backend.session.write_input(&mut backend.events, b"", Ok(())), Ok(()));
    assert!(backend.drain().is_empty());

    backend.session.workers = Some(workers(true, Thread::Ends));
    assert_eq!(backend.session.write_input(&mut backend.events, b"a", Ok(())), Ok(()));
    let result = backend.session.write_input(
        &mut backend.events,
        b"a",
        Err(write_request_error(SendFailure::Disconnected)),
    );
    assert_eq!(result, Err(AppError::InvalidState("pty writer worker is not running")));
    assert!(matches!(backend.drain().as_slice(), [TerminalEvent::StdinWriteFailed(_)]));
}

#[test]
fn drain_events_throttles_child_exit_polling_without_lifecycle_events() {
    let mut backend = Backend::new();
    backend.session.child = Some(Child::exits_after(usize::MAX));

    backend.drain();
    backend.events.push(TerminalEvent::PtyOutput(b"output".to_vec()));
    let events = backend.drain();

    assert!(matches!(events.first(), Some(TerminalEvent::PtyOutput(_))));
    assert_eq!(backend.session.child.as_ref().unwrap().polls, 1);

    backend.now_ms = CHILD_EXIT_BACKGROUND_POLL_INTERVAL_MS;
    backend.drain();
    assert_eq!(backend.session.child.as_ref().unwrap().polls, 2);
}

#[test]
fn drain_events_preserves_output_queued_during_child_exit_cleanup() {
    let mut backend = Backend::new();
    backend.session.workers = Some(reading(Thread::Ends));
    backend.session.child = Some(Child::exits_after(0));
    backend.events.push(TerminalEvent::PtyClosed);

    let (mut events, next) = begin_drain(&mut backend.events);
    assert_eq!(next, DrainNext::PollChild { force: true });
    assert!(backend.session.should_poll_child(true, 0));
    backend.events.push(TerminalEvent::PtyOutput(b"final-output".to_vec()));
    assert_eq!(backend.session.child_polled(Ok(Some(0))), Ok(Some(0)));
    end_exited_drain(&mut backend.events, &mut events, 0);

    assert!(events.iter().any(|event| {
        matches!(event, TerminalEvent::PtyOutput(bytes) if bytes.as_slice() == b"final-output")
    }));
    assert!(matches!(
        events.last(),
        Some(TerminalEvent::ChildExited { code: Some(0) })
    ));
    assert!(backend.session.child.is_none());
}

#[test]
fn drain_events_limits_output_bytes_per_call() {
    let mut backend = Backend::new();
    let output_event_count = (MAX_DRAIN_OUTPUT_BYTES / READ_BUFFER_SIZE) + 2;

    for index in 0..output_event_count {
        let mut bytes = vec![0; READ_BUFFER_SIZE];
        bytes[0] = (index % 256) as u8;
        backend.events.push(TerminalEvent::PtyOutput(bytes));
    }

    let first_events = backend.drain();
    let second_events = backend.drain();

    assert_eq!(
        first_events
            .iter()
            .filter(|event| matches!(event, TerminalEvent::PtyOutput(_)))
            .count(),
        MAX_DRAIN_OUTPUT_BYTES / READ_BUFFER_SIZE
    );
    assert_eq!(
        second_events
            .iter()
            .filter(|event| matches!(event, TerminalEvent::PtyOutput(_)))
            .count(),
        2
    );
    assert!(matches!(
        second_events.first(),
        Some(TerminalEvent::PtyOutput(bytes))
            if bytes.first().copied()
                == Some(((MAX_DRAIN_OUTPUT_BYTES / READ_BUFFER_SIZE) % 256) as u8)
    ));
}

#[test]
fn drain_events_limits_control_events_per_call() {
    let mut backend = Backend::new();

    for index in 0..(MAX_DRAIN_EVENT_COUNT + 2) {
        backend.events.push(TerminalEvent::ChildExited { code: Some(index as u32) });
    }

    let first_events = backend.drain();
    let second_events = backend.drain();

    assert_eq!(first_events.len(), MAX_DRAIN_EVENT_COUNT);
    assert_eq!(second_events.len(), 2);
    assert!(matches!(
        second_events.as_slice(),
        [
            TerminalEvent::ChildExited {
                code: Some(first_code)
            },
            TerminalEvent::ChildExited {
                code: Some(second_code)
            }
        ] if *first_code == MAX_DRAIN_EVENT_COUNT as u32
            && *second_code == (MAX_DRAIN_EVENT_COUNT + 1) as u32
    ));
}

#[test]
fn shutdown_requests_graceful_exit_before_forced_termination() {
    let mut backend = Backend::new();
    backend.session.workers = Some(workers(true, Thread::Ends));
    backend.session.child = Some(Child::exits_after(1));

    backend.shutdown();
    assert!(backend.session.child.is_none());
    let record = backend.finish_cleanup(true);

    assert_eq!(record.written, b"exit\r");
    assert!(!record.killed);
    assert_eq!(
        record.actions,
        vec![
            ShutdownAction::RequestExit,
            ShutdownAction::CloseInput,
            ShutdownAction::WaitForExit,
            ShutdownAction::ReleaseMaster,
            ShutdownAction::JoinWriter,
            ShutdownAction::JoinReader,
        ]
    );
    assert!(!backend.session.is_shutdown_pending());
}

#[test]
fn shutdown_falls_back_to_termination_when_graceful_exit_times_out() {
    let mut backend = Backend::new();
    backend.session.workers = Some(workers(true, Thread::Ends));
    backend.session.child = Some(Child::exits_only_after_kill());

    backend.shutdown();
    let record = backend.finish_cleanup(true);

    assert!(record.killed);
    assert_eq!(record.kill_calls, 1);
    assert!(backend.session.child.is_none());
}

#[test]
fn shutdown_returns_before_reader_join_timeout() {
    let mut backend = Backend::new();
    backend.session.workers = Some(reading(Thread::Ends));

    backend.shutdown();

    assert!(backend.session.workers.is_none());
    assert!(backend.session.is_shutdown_pending());
    backend.finish_cleanup(true);
    assert!(backend.session.cleanup_tasks.is_empty());
}

#[test]
fn start_rejects_pending_shutdown_cleanup() {
    let mut backend = Backend::new();
    backend.session.workers = Some(reading(Thread::Ends));

    backend.shutdown();
    let result = backend.start();

    assert!(matches!(
        result,
        StartDecision::Refuse(AppError::InvalidState("pty session is shutting down"))
    ));
    assert!(!backend.session.cleanup_tasks.is_empty());
    backend.finish_cleanup(true);
    assert!(matches!(backend.start(), StartDecision::Open));
}

#[test]
fn start_preserves_pending_cleanup_failure() {
    let mut backend = Backend::new();
    backend.session.workers = Some(workers(true, Thread::FailsToWriteExit));
    backend.session.child = Some(Child::exits_only_after_kill());

    backend.shutdown();
    backend.finish_cleanup(true);
    let result = backend.start();

    assert!(matches!(
        result,
        StartDecision::Refuse(AppError::InvalidState("pty cleanup failure is pending"))
    ));
    assert!(reports(&backend.drain(), "write graceful pty shutdown"));
}

#[test]
fn start_over_a_live_session_is_refused() {
    let mut backend = Backend::new();
    backend.session.child = Some(Child::exits_after(0));

    assert!(matches!(backend.start(), StartDecision::ShutDownFirst));
    assert_eq!(
        backend.session.refuse_live(Ok(())),
        AppError::InvalidState("pty session is shutting down")
    );
    assert_eq!(
        backend.session.refuse_live(Err(AppError::InvalidState("stuck"))),
        AppError::InvalidState("stuck")
    );
}

#[test]
fn cleanup_reports_graceful_exit_request_failure() {
    let resources = PtyCleanupResources::new(
        None,
        Some(Child::exits_only_after_kill()),
        Some(workers(false, Thread::Ends)),
    );

    let (result, record) = shutdown(resources, true);

    let (_, error) = match result {
        Ok(()) => panic!("shutdown unexpectedly hid graceful exit request failure"),
        Err(failure) => failure.into_parts(),
    };
    assert!(matches!(
        error,
        AppError::InvalidState("pty writer worker is not running")
    ));
    assert!(record.killed);
}

#[test]
fn shutdown_reports_graceful_exit_write_failure_after_event_queue_swap() {
    let mut backend = Backend::new();
    backend.session.workers = Some(workers(true, Thread::FailsToWriteExit));
    backend.session.child = Some(Child::exits_only_after_kill());

    backend.shutdown();
    let record = backend.finish_cleanup(true);

    assert!(reports(&backend.drain(), "write graceful pty shutdown"));
    assert!(record.killed);
}

#[test]
fn shutdown_resources_reports_cleanup_failure() {
    let resources = PtyCleanupResources::new(
        Some(9),
        Some(Child::exits_only_after_kill()),
        Some(workers(false, Thread::Ends)),
    );

    let (result, record) = shutdown(resources, true);

    let Err(failure) = result else {
        panic!("shutdown resources unexpectedly hid cleanup failure");
    };
    let (left, error) = failure.into_parts();
    assert!(matches!(
        error,
        AppError::InvalidState("pty writer worker is not running")
    ));
    assert!(record.killed);
    assert!(left.unwrap().master.is_none());
}

#[test]
fn start_failure_reports_cleanup_failure_and_restores_child() {
    let mut backend = Backend::new();
    let resources: Resources = PtyCleanupResources::new(None, Some(Child::fails_to_kill()), None);
    let (cleaned, record) = shutdown(resources, false);

    let error = backend.session.cleanup_after_start_failure(
        cleaned,
        start_error(StartStep::SpawnReader, "reader spawn failed".to_string()),
        start_cleanup_operation(StartStep::SpawnReader).unwrap(),
    );

    assert_eq!(
        error.operation(),
        Some("cleanup pty after reader thread spawn failure")
    );
    let AppError::Pty(context) = &error else {
        panic!("start failure cleanup did not return a pty error");
    };
    assert!(context.cause().contains("spawn pty reader thread"));
    assert!(context.cause().contains("terminate pty child"));
    assert!(backend.session.child.is_some());
    assert_eq!(record.kill_calls, 1);
}

#[test]
fn start_failure_with_a_clean_cleanup_is_reported_alone() {
    let mut backend = Backend::new();

    let error = backend.session.cleanup_after_start_failure(
        Ok(()),
        start_error(StartStep::SpawnWriter, "no thread".to_string()),
        start_cleanup_operation(StartStep::SpawnWriter).unwrap(),
    );

    assert_eq!(error, AppError::io("spawn pty writer thread", "no thread".to_string()));
    assert_eq!(start_cleanup_operation(StartStep::SpawnCommand), None);
    assert_eq!(
        start_error(StartStep::OpenPty, "none left".to_string()),
        AppError::pty_message("open pty", "none left".to_string())
    );
    assert!(!backend.session.has_live_session_resources());
}

#[test]
fn background_cleanup_failure_restores_child() {
    let mut backend = Backend::new();
    backend.session.child = Some(Child::fails_to_kill());

    backend.shutdown();
    let record = backend.finish_cleanup(false);

    assert!(backend.session.child.is_some());
    assert!(reports(&backend.events.drain(), "terminate pty child"));
    assert_eq!(record.kill_calls, 1);
}

#[test]
fn shutdown_reports_reader_thread_join_failure() {
    let resources: Resources = PtyCleanupResources::new(None, None, Some(reading(Thread::Panics)));

    let (result, _) = shutdown(resources, false);

    let Err(failure) = result else {
        panic!("shutdown unexpectedly hid reader thread join failure");
    };
    let (_, error) = failure.into_parts();
    assert!(matches!(
        error,
        AppError::Pty(context) if context.cause() == "pty reader thread panicked"
    ));
}

#[test]
fn shutdown_reports_reader_join_timeout_as_async_failure() {
    let mut backend = Backend::new();
    backend.session.workers = Some(reading(Thread::DoesNotEnd));

    backend.shutdown();
    backend.finish_cleanup(true);

    assert!(backend.session.workers.is_some());
    assert!(reports(&backend.events.drain(), "join pty reader thread"));

    backend.session.workers.as_mut().unwrap().reader.thread = Some(Thread::Ends);
    backend.shutdown();
    backend.finish_cleanup(true);
    backend.drain();
    assert!(backend.session.cleanup_tasks.is_empty() && backend.session.workers.is_none());
}

#[test]
fn shutdown_closes_old_event_queue_for_background_cleanup() {
    let mut backend = Backend::new();
    backend.session.workers = Some(reading(Thread::Ends));
    backend.events.push(TerminalEvent::PtyOutput(b"before".to_vec()));

    backend.shutdown();
    assert!(!backend.old_events.push(TerminalEvent::PtyOutput(b"after-timeout".to_vec())));
    backend.finish_cleanup(true);
    let events = backend.drain();

    assert!(!events.iter().any(|event| {
        matches!(event, TerminalEvent::PtyOutput(bytes) if bytes.as_slice() == b"after-timeout")
    }));
    assert_eq!(events, vec![TerminalEvent::PtyOutput(b"before".to_vec())]);
}

#[test]
fn session_without_resources_has_nothing_to_clean_up() {
    let mut backend = Backend::new();
    backend.events.push(TerminalEvent::PtyClosed);

    backend.shutdown();

    assert!(backend.running.is_empty());
    assert!(backend.drain().is_empty());
    assert_eq!(
        backend.session.resize_target(),
        Err(AppError::InvalidState("pty master is not available"))
    );
    backend.session.started(5, Child::exits_after(0), workers(true, Thread::Ends));
    assert_eq!(backend.session.resize_target(), Ok(&5));
    assert!(backend.session.has_live_session_resources());
}

#[test]
fn cleanup_thread_spawn_failure_preserves_resources() {
    let mut backend = Backend::new();
    backend.session.child = Some(Child::exits_after(0));
    let resources = backend.session.begin_cleanup(&mut backend.events, false).unwrap();
    assert!(backend.session.child.is_none());

    let error = backend.session.cleanup_not_started(PtyCleanupFailure::with_resources(
        AppError::io("spawn pty shutdown thread", "thread spawn refused".to_string()),
        resources,
    ));

    assert!(matches!(
        error,
        AppError::Io {
            operation: "spawn pty shutdown thread",
            ..
        }
    ));
    assert!(backend.session.child.is_some());
}

/// Both attempts at a cleanup that cannot kill its child.
fn failing_cleanup() -> (Failure, AppError, usize) {
    let resources: Resources = PtyCleanupResources::new(None, Some(Child::fails_to_kill()), None);
    let (first, _) = shutdown(resources, false);
    let (left, error) = first.err().unwrap().into_parts();
    let (second, record) = shutdown(left.unwrap(), false);
    let (left, retry_error) = second.err().unwrap().into_parts();
    let failure = PtyCleanupFailure::with_resources(error, left.unwrap());
    (failure, retry_error, record.kill_calls)
}

#[test]
fn dropped_pending_cleanup_task_preserves_failure_for_detached_join() {
    let task = PtyCleanupTask::new();
    assert!(task.must_detach());
    let mut detached: DetachedCleanupTask<Failure> =
        DetachedCleanupTask::new(task.awaiting_result, task.has_thread);
    let (failure, retry_error, kill_calls) = failing_cleanup();

    assert!(detached
        .try_finish(ChannelPoll::Empty, ThreadPoll::Running, ChannelPoll::Empty)
        .is_none());
    let outcome = detached.try_finish(
        ChannelPoll::Value(Err(failure)),
        ThreadPoll::Joined,
        ChannelPoll::Disconnected,
    );

    let Some(TaskOutcome::Reported(Err(failure))) = outcome else {
        panic!("the failure was lost");
    };
    let (_, error) = failure.into_parts();
    let reported = recovered_cleanup_error(error, Some(Err(retry_error)));
    assert_eq!(reported.operation(), Some("cleanup detached pty resources"));
    assert!(reported.message().contains("terminate pty child"));
    assert_eq!(kill_calls, 2);
}

#[test]
fn detached_cleanup_drain_times_out_pending_task() {
    let mut elapsed = 0;
    let error = loop {
        match drain_detached_cleanup_step(1, 10 - elapsed, 10) {
            DrainStep::Finished => panic!("a pending task was passed over"),
            DrainStep::Sleep(slept) => elapsed += slept,
            DrainStep::TimedOut(error) => break error,
        }
    };

    assert_eq!(elapsed, 10);
    assert_eq!(error.operation(), Some("join detached pty cleanup tasks"));
    assert!(is_detached_cleanup_timeout_error(&error));
    assert_eq!(error, detached_cleanup_drain_timeout_error(1, 10));
    assert!(matches!(drain_detached_cleanup_step(0, 0, 10), DrainStep::Finished));
    let AppError::Pty(context) = &error else {
        panic!("{:?}", error);
    };
    assert_eq!(
        context.cause(),
        "timed out after 10 ms waiting for 1 detached pty cleanup task(s) to finish; \
         cleanup continues in background"
    );
}

#[test]
fn finished_detached_cleanup_task_is_collected_without_shutdown_drain() {
    let resources: Resources = PtyCleanupResources::new(None, Some(Child::exits_after(0)), None);
    let (result, _) = shutdown(resources, false);
    let mut detached: DetachedCleanupTask<Failure> = DetachedCleanupTask::new(true, true);

    let Some(TaskOutcome::Reported(outcome)) = detached.try_finish(
        ChannelPoll::Value(result),
        ThreadPoll::Joined,
        ChannelPoll::Disconnected,
    ) else {
        panic!("the task did not finish");
    };
    let (tasks, failures) = collect_finished_detached_cleanup_tasks(vec![(1u8, Some(outcome))]);

    assert!(tasks.is_empty());
    assert!(failures.is_empty());
}

#[test]
fn finished_detached_cleanup_failure_is_collected_for_shutdown_report() {
    let (failure, retry_error, kill_calls) = failing_cleanup();

    let (tasks, mut failures) =
        collect_finished_detached_cleanup_tasks(vec![(1u8, Some(Err(failure)))]);

    assert!(tasks.is_empty());
    assert_eq!(failures.len(), 1);
    let (_, first) = failures.remove(0).into_parts();
    let error = recovered_cleanup_error(first, Some(Err(retry_error)));
    assert_eq!(error.operation(), Some("cleanup detached pty resources"));
    assert!(error.message().contains("terminate pty child"));
    assert_eq!(kill_calls, 2);
}

#[test]
fn detached_cleanup_drain_waits_for_bounded_shutdown_work() {
    let release_at = CHILD_GRACEFUL_EXIT_TIMEOUT_MS + 150;
    let (failure, retry_error, kill_calls) = failing_cleanup();
    let mut outcome = Some(Err(failure));
    let mut retried = Some(Err(retry_error));
    let mut errors: Vec<AppError> = Vec::new();
    let mut tasks = vec![1u8];
    let mut elapsed = 0;
    loop {
        let mut finished = if elapsed < release_at { None } else { outcome.take() };
        let rounds = tasks.into_iter().map(|task| (task, finished.take())).collect();
        let (left, failures) = collect_finished_detached_cleanup_tasks(rounds);
        tasks = left;
        for failure in failures {
            let (_, error) = failure.into_parts();
            errors.push(recovered_cleanup_error(error, retried.take()));
        }
        match drain_detached_cleanup_step(
            tasks.len() as u64,
            DETACHED_CLEANUP_DRAIN_TIMEOUT_MS - elapsed,
            DETACHED_CLEANUP_DRAIN_TIMEOUT_MS,
        ) {
            DrainStep::Finished => break,
            DrainStep::Sleep(slept) => elapsed += slept,
            DrainStep::TimedOut(error) => panic!("{:?}", error),
        }
    }

    assert_eq!(elapsed, release_at);
    assert!(tasks.is_empty());
    assert!(!errors
        .iter()
        .any(|error| error.operation() == Some("join detached pty cleanup tasks")));
    assert!(errors.iter().any(|error| {
        error.operation() == Some("cleanup detached pty resources")
            && error.message().contains("terminate pty child")
    }));
    assert_eq!(kill_calls, 2);
}

#[test]
fn unfinished_tasks_stay_when_others_are_collected() {
    let failed = |message: &'static str| Some(Err(AppError::InvalidState(message)));
    let (left, failures) = collect_finished_detached_cleanup_tasks(vec![
        (1u8, None),
        (2, failed("two")),
        (3, None),
        (4, Some(Ok(()))),
        (5, failed("five")),
    ]);

    assert_eq!(left, vec![1, 3]);
    assert_eq!(
        failures,
        vec![AppError::InvalidState("two"), AppError::InvalidState("five")]
    );
}

#[test]
fn cleanup_task_that_loses_its_result_says_so() {
    let mut task = PtyCleanupTask::new();
    let outcome: Option<TaskOutcome<AppError>> =
        task.try_finish(ChannelPoll::Disconnected, ThreadPoll::Joined);
    assert!(matches!(
        outcome,
        Some(TaskOutcome::Lost(AppError::InvalidState(
            "pty cleanup task finished without reporting result"
        )))
    ));
    assert!(!task.must_detach());

    let mut task = PtyCleanupTask::new();
    let outcome: Option<TaskOutcome<AppError>> =
        task.try_finish(ChannelPoll::Empty, ThreadPoll::Panicked);
    let Some(TaskOutcome::Lost(error)) = outcome else {
        panic!("the panic was lost");
    };
    assert_eq!(error.operation(), Some("join pty shutdown thread"));
}

#[test]
fn waits_sleep_in_short_steps_until_their_deadline() {
    assert_eq!(wait_step(true, 0), WaitStep::Reached);
    assert_eq!(wait_step(false, 0), WaitStep::TimedOut);
    assert_eq!(wait_step(false, 7), WaitStep::Sleep(7));
    assert_eq!(wait_step(false, 500), WaitStep::Sleep(CHILD_EXIT_POLL_INTERVAL_MS));
}

#[test]
fn termination_reports_a_child_that_does_not_end() {
    let next = ChildTermination::WaitForced.after_wait(Ok(false));

    let ChildTermination::Finished(Err(error)) = next else {
        panic!("the wait was taken for an end");
    };
    assert_eq!(error.operation(), Some("wait for pty child after termination"));
    assert!(matches!(
        ChildTermination::PollAfter(AppError::InvalidState("denied")).after_poll(Ok(Some(1))),
        ChildTermination::Finished(Ok(()))
    ));
}

type Start = StartRun<u8, u16, Thread, u8>;
type Event = StartEvent<u8, u16, u32, Thread, u8>;

/// A start after its first steps, all of which succeeded.
fn start_after(count: usize) -> Start {
    let events: Vec<Event> = vec![
        StartEvent::PtyOpened(7),
        StartEvent::WriterTaken,
        StartEvent::ReaderCloned,
        StartEvent::CommandSpawned(70),
        StartEvent::ReaderSpawned(WorkerThread::new(Thread::Ends, 1)),
    ];
    let mut run: Start = StartRun::new();
    for event in events.into_iter().take(count) {
        run = match run.after(event) {
            StartAction::GoOn(next) => next,
            _ => panic!("start ended early"),
        };
    }
    run
}

#[test]
fn start_takes_its_steps_in_order() {
    let steps: Vec<StartStep> = (0..6).map(|count| start_after(count).step()).collect();
    assert_eq!(
        steps,
        vec![
            StartStep::OpenPty,
            StartStep::TakeWriter,
            StartStep::CloneReader,
            StartStep::SpawnCommand,
            StartStep::SpawnReader,
            StartStep::SpawnWriter,
        ]
    );
    assert_eq!(start_after(0).master(), None);
    assert_eq!(start_after(3).master(), Some(&7));

    let writer = WorkerThread::new(Thread::Panics, 2);
    match start_after(5).after(StartEvent::WriterSpawned(9, writer)) {
        StartAction::Finish { master, child, workers } => {
            assert_eq!((master, child), (7, 70));
            assert_eq!(workers.input, Some(9));
            assert_eq!(workers.reader.thread, Some(Thread::Ends));
            assert_eq!(workers.writer.thread, Some(Thread::Panics));
        }
        _ => panic!("start did not finish"),
    }
}

#[test]
fn start_that_fails_before_there_is_a_child_has_nothing_to_clean_up() {
    for (count, operation) in
        ["open pty", "take pty writer", "clone pty reader", "spawn pty command"]
            .into_iter()
            .enumerate()
    {
        let event: Event = StartEvent::Failed("refused".to_string());
        match start_after(count).after(event) {
            StartAction::Fail(error) => {
                assert_eq!(error, AppError::pty_message(operation, "refused".to_string()));
            }
            _ => panic!("{operation} did not fail"),
        }
    }
}

#[test]
fn start_that_fails_with_a_child_hands_it_to_the_cleanup() {
    let event: Event = StartEvent::Failed("refused".to_string());
    match start_after(4).after(event) {
        StartAction::CleanUp { resources, error, operation } => {
            assert_eq!((resources.master, resources.child), (Some(7), Some(70)));
            assert!(resources.workers.is_none());
            assert_eq!(error, AppError::io("spawn pty reader thread", "refused".to_string()));
            assert_eq!(operation, "cleanup pty after reader thread spawn failure");
        }
        _ => panic!("nothing was to be cleaned up"),
    }
    let event: Event = StartEvent::Failed("refused".to_string());
    match start_after(5).after(event) {
        StartAction::CleanUp { resources, error, operation } => {
            let workers = resources.workers.unwrap();
            assert_eq!((resources.master, resources.child), (Some(7), Some(70)));
            assert_eq!(workers.input, None);
            assert_eq!(workers.reader.thread, Some(Thread::Ends));
            assert_eq!(workers.writer.thread, None);
            assert_eq!(error, AppError::io("spawn pty writer thread", "refused".to_string()));
            assert_eq!(operation, "cleanup pty after writer thread spawn failure");
        }
        _ => panic!("nothing was to be cleaned up"),
    }
}
