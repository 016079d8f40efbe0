//! The reader and the writer of a session, and the shell that it runs.

use std::path::PathBuf;

use j3term::domain::event::TerminalEvent;
use j3term::domain::startup::{ShellCommandDialect, StartupDirectory};
use j3term::error::{AppError, AppResult};
use j3term::pty::event_queue::PtyEventQueue;
use j3term::pty::io_workers::{
    is_writer_input_queue_full_error, join_result, join_timeout_error, wait_for_worker_done,
    write_request_error, DoneWait, PtyIoWorkers, SendFailure, WorkerKind, WorkerThread,
};
use j3term::pty::shell::{
    detect_posix_shell, detect_windows_shell, has_execute_permission, is_powershell_path,
    windows_powershell_candidate, DefaultShell, CMD_UTF8_INIT_COMMAND,
    POWERSHELL_UTF8_INIT_COMMAND,
};
use j3term::pty::worker::{
    reader_step, PtyWriteRequest, ReadOutcome, WriterAction, WriterInput, WriterLoop,
    MAX_USER_INPUT_BATCH_REQUESTS,
};

/// A writer that a test plays: the requests that wait, and what was written.
struct Recording {
    waiting: Vec<PtyWriteRequest>,
    bytes: Vec<u8>,
    flushes: usize,
    flushed_at: Vec<usize>,
}

impl Recording {
    fn new(waiting: Vec<PtyWriteRequest>) -> Self {
        Recording { waiting, bytes: Vec::new(), flushes: 0, flushed_at: Vec::new() }
    }

    /// Performs actions up to the next wait for a request.
    fn perform(&mut self, writer: &mut WriterLoop, mut action: WriterAction) -> WriterAction {
        loop {
            let input = match action {
                WriterAction::TryReceive => {
                    if self.waiting.is_empty() {
                        WriterInput::NoRequest
                    } else {
                        WriterInput::Request(self.waiting.remove(0))
                    }
                }
                WriterAction::Write { bytes, .. } => {
                    self.bytes.extend_from_slice(&bytes);
                    WriterInput::Done
                }
                WriterAction::Flush { .. } => {
                    self.flushes += 1;
                    self.flushed_at.push(self.bytes.len());
                    WriterInput::Done
                }
                other => return other,
            };
            action = writer.step(input);
        }
    }
}

fn input(bytes: &[u8]) -> PtyWriteRequest {
    PtyWriteRequest::user_input(bytes.to_vec())
}

#[test]
fn reader_retries_interrupted_read_and_continues_output() {
    let mut events = PtyEventQueue::new();

    assert!(reader_step(&mut events, ReadOutcome::Interrupted));
    assert!(reader_step(&mut events, ReadOutcome::Bytes(b"ready")));
    assert!(!reader_step(&mut events, ReadOutcome::Bytes(b"")));

    let drained = events.drain();
    assert!(matches!(
        drained.as_slice(),
        [TerminalEvent::PtyOutput(bytes), TerminalEvent::PtyClosed]
            if bytes.as_slice() == b"ready"
    ));
}

#[test]
fn failed_read_is_reported_and_ends_the_reader() {
    let mut events = PtyEventQueue::new();

    assert!(!reader_step(&mut events, ReadOutcome::Failed("cable cut")));

    let drained = events.drain();
    let [TerminalEvent::Failure(failure)] = drained.as_slice() else {
        panic!("{:?}", drained);
    };
    assert_eq!(failure.operation, Some("read from pty stdout"));
    assert_eq!(failure.user_message, "terminal output stream failed");
    assert!(failure.cause.contains("cable cut"));
}

#[test]
fn reader_ends_once_the_queue_is_closed() {
    let mut events = PtyEventQueue::new();
    events.close();

    assert!(!reader_step(&mut events, ReadOutcome::Bytes(b"late")));
    assert!(events.drain().is_empty());
}

#[test]
fn user_input_batch_flushes_once_for_contiguous_inputs() {
    let mut recording = Recording::new(vec![input(b"b"), input(b"c")]);
    let mut writer = WriterLoop::new();

    let first = writer.step(WriterInput::Request(input(b"a")));
    let next = recording.perform(&mut writer, first);

    assert!(matches!(next, WriterAction::Receive));
    assert_eq!(recording.bytes, b"abc");
    assert_eq!(recording.flushes, 1);
}

#[test]
fn user_input_batch_preserves_graceful_exit_order() {
    let mut recording = Recording::new(vec![
        input(b"b"),
        PtyWriteRequest::GracefulExit(b"exit".to_vec()),
        input(b"after"),
    ]);
    let mut writer = WriterLoop::new();

    let first = writer.step(WriterInput::Request(input(b"a")));
    let next = recording.perform(&mut writer, first);

    assert!(matches!(next, WriterAction::Receive));
    assert_eq!(recording.bytes, b"abexit");
    assert_eq!(recording.flushed_at, vec![2, 6]);
    assert_eq!(recording.waiting.len(), 1);
    match recording.waiting.remove(0) {
        PtyWriteRequest::UserInput(bytes) => assert_eq!(bytes.as_slice(), b"after"),
        PtyWriteRequest::GracefulExit(_) => {
            panic!("unexpected graceful exit request after pending request")
        }
    }
}

#[test]
fn long_batch_is_flushed_before_it_goes_on() {
    let mut waiting: Vec<PtyWriteRequest> = Vec::new();
    for _ in 0..(MAX_USER_INPUT_BATCH_REQUESTS + 3) {
        waiting.push(input(b"x"));
    }
    let mut recording = Recording::new(waiting);
    let mut writer = WriterLoop::new();

    let first = writer.step(WriterInput::Request(input(b"x")));
    let next = recording.perform(&mut writer, first);

    assert!(matches!(next, WriterAction::Receive));
    assert_eq!(recording.flushed_at, vec![MAX_USER_INPUT_BATCH_REQUESTS]);
    assert_eq!(recording.waiting.len(), 4);
}

#[test]
fn failed_write_names_the_operation_and_no_input() {
    let mut writer = WriterLoop::new();
    let _ = writer.step(WriterInput::Request(input(b"typed-value")));

    let action = writer.step(WriterInput::Failed("broken pipe".to_string()));

    let WriterAction::Fail { event, error } = action else {
        panic!("the writer went on");
    };
    let TerminalEvent::StdinWriteFailed(failure) = event else {
        panic!("{:?}", event);
    };
    assert_eq!(failure.operation, Some("write to pty stdin"));
    assert!(!failure.user_message.contains("typed-value"));
    assert!(!failure.cause.contains("typed-value"));
    assert_eq!(error.operation(), Some("write to pty stdin"));
}

#[test]
fn writer_stops_when_nothing_more_can_come() {
    let mut writer = WriterLoop::new();

    assert!(matches!(writer.step(WriterInput::Closed), WriterAction::Stop));
}

type Workers = PtyIoWorkers<u8, u8, u8>;

#[test]
fn send_user_input_fails_immediately_when_writer_queue_is_full() {
    let workers: Workers = PtyIoWorkers::new(1, WorkerThread::none(), WorkerThread::none());

    assert_eq!(workers.user_input_sender(), Ok(&1));
    let result: AppResult<()> = Err(write_request_error(SendFailure::Full));

    assert!(matches!(
        result,
        Err(AppError::InvalidState(message)) if message == "pty writer input queue is full"
    ));
}

#[test]
fn send_graceful_exit_fails_immediately_when_writer_queue_is_full() {
    let workers: Workers = PtyIoWorkers::new(1, WorkerThread::none(), WorkerThread::none());

    assert_eq!(workers.graceful_exit_sender(), Some(&1));
    let result: AppResult<()> = Err(write_request_error(SendFailure::Full));

    assert!(matches!(
        result,
        Err(AppError::InvalidState(message)) if message == "pty writer input queue is full"
    ));
}

#[test]
fn send_fails_without_a_writer() {
    let mut workers: Workers = PtyIoWorkers::new(1, WorkerThread::none(), WorkerThread::none());
    workers.close_input();

    assert_eq!(
        workers.user_input_sender(),
        Err(AppError::InvalidState("pty writer worker is not running"))
    );
    assert_eq!(workers.graceful_exit_sender(), None);
    assert_eq!(
        write_request_error(SendFailure::Disconnected),
        AppError::InvalidState("pty writer worker is not running")
    );
    assert!(is_writer_input_queue_full_error(&write_request_error(SendFailure::Full)));
    assert!(!is_writer_input_queue_full_error(&write_request_error(SendFailure::Disconnected)));
}

#[test]
fn worker_done_wait_returns_on_timeout() {
    assert!(!wait_for_worker_done(Some(DoneWait::TimedOut)));
    assert!(wait_for_worker_done(Some(DoneWait::Signalled)));
    assert!(wait_for_worker_done(Some(DoneWait::Disconnected)));
}

#[test]
fn reaper_returns_without_joining_unfinished_reader_without_done_signal() {
    let mut workers: Workers =
        PtyIoWorkers::from_reader(WorkerThread { thread: Some(7), done: None });

    let reaper = workers.take_reaper().unwrap();

    assert_eq!(reaper.reader.thread, Some(7));
    assert!(!wait_for_worker_done(None));
    assert!(!workers.has_unjoined_threads());
    assert!(workers.take_reaper().is_none());
}

#[test]
fn thread_is_kept_when_its_join_times_out() {
    let mut worker: WorkerThread<u8, u8> = WorkerThread::new(3, 4);

    let (thread, done) = worker.begin_join().unwrap();
    assert_eq!(worker.after_wait(thread, done, DoneWait::TimedOut), None);
    assert_eq!(worker.thread, Some(3));
    assert_eq!(worker.done, Some(4));

    let (thread, done) = worker.begin_join().unwrap();
    assert_eq!(worker.after_wait(thread, done, DoneWait::Signalled), Some(3));
    assert_eq!(worker.begin_join(), None);
}

#[test]
fn joins_report_panics_timeouts_and_results() {
    let failed = AppError::io("write to pty stdin", "broken pipe".to_string());

    assert_eq!(join_result(WorkerKind::Reader, Some(Ok(()))), Ok(()));
    assert_eq!(
        join_result(WorkerKind::Reader, None),
        Err(AppError::pty_message(
            "join pty reader thread",
            "pty reader thread panicked".to_string()
        ))
    );
    assert_eq!(
        join_result(WorkerKind::Writer, None),
        Err(AppError::pty_message(
            "join pty writer thread",
            "pty writer thread panicked".to_string()
        ))
    );
    assert_eq!(
        join_result(
            WorkerKind::Writer,
            Some(Err(AppError::io("write to pty stdin", "broken pipe".to_string())))
        ),
        Err(failed)
    );
    assert_eq!(join_timeout_error(WorkerKind::Reader).operation(), Some("join pty reader thread"));
    assert_eq!(join_timeout_error(WorkerKind::Writer).operation(), Some("join pty writer thread"));
}

fn argv(command: &portable_pty::CommandBuilder) -> Vec<String> {
    command.get_argv().iter().map(|part| part.to_str().unwrap().to_string()).collect()
}

#[test]
fn command_prompt_builder_uses_explicit_startup_directory() {
    let shell = DefaultShell::CommandPrompt("cmd.exe".to_string());
    let startup_directory = StartupDirectory::new(r"C:\Windows");
    let command = shell.command_builder(Some(&startup_directory));

    assert_eq!(
        command.get_cwd().map(|cwd| PathBuf::from(cwd.as_os_str())),
        Some(PathBuf::from(startup_directory.path()))
    );
}

#[test]
fn command_prompt_builder_initializes_utf8_code_page() {
    let shell = DefaultShell::CommandPrompt("cmd.exe".to_string());
    let command = shell.command_builder(None);

    assert_eq!(argv(&command), vec!["cmd.exe", "/K", CMD_UTF8_INIT_COMMAND]);
}

#[test]
fn powershell_builder_uses_explicit_startup_directory() {
    let shell = DefaultShell::PowerShell("powershell.exe".to_string());
    let startup_directory = StartupDirectory::new(r"C:\Windows");
    let command = shell.command_builder(Some(&startup_directory));

    assert_eq!(
        command.get_cwd().map(|cwd| PathBuf::from(cwd.as_os_str())),
        Some(PathBuf::from(startup_directory.path()))
    );
}

#[test]
fn powershell_builder_initializes_utf8_console_encoding() {
    let shell = DefaultShell::PowerShell("powershell.exe".to_string());
    let command = shell.command_builder(None);

    assert_eq!(
        argv(&command),
        vec!["powershell.exe", "-NoLogo", "-NoExit", "-Command", POWERSHELL_UTF8_INIT_COMMAND]
    );
}

#[test]
fn posix_builder_uses_terminal_environment() {
    let shell = DefaultShell::Posix("/bin/sh".to_string());
    let command = shell.command_builder(None);

    assert_eq!(
        command.get_env("TERM").and_then(|value| value.to_str()),
        Some("xterm-256color")
    );
    assert_eq!(argv(&command), vec!["/bin/sh"]);
    assert!(command.get_cwd().is_none());
}

#[test]
fn posix_shell_detection_falls_back_for_non_executable_file() {
    let candidate = "/tmp/non-executable-shell".to_string();

    assert_eq!(
        detect_posix_shell(Some(candidate), has_execute_permission(0o600)),
        DefaultShell::Posix("/bin/sh".to_string())
    );
}

#[test]
fn posix_shell_detection_accepts_executable_file() {
    let candidate = "/tmp/executable-shell".to_string();

    assert_eq!(
        detect_posix_shell(Some(candidate.clone()), has_execute_permission(0o700)),
        DefaultShell::Posix(candidate)
    );
    assert_eq!(
        detect_posix_shell(Some(String::new()), true),
        DefaultShell::Posix("/bin/sh".to_string())
    );
}

#[test]
fn windows_shell_detection_prefers_what_the_environment_names() {
    assert_eq!(
        detect_windows_shell(Some("PWSH.exe".to_string()), None),
        DefaultShell::PowerShell("PWSH.exe".to_string())
    );
    assert_eq!(
        detect_windows_shell(Some("cmd.exe".to_string()), Some("powershell.exe".to_string())),
        DefaultShell::CommandPrompt("cmd.exe".to_string())
    );
    assert_eq!(
        detect_windows_shell(Some(String::new()), Some("powershell.exe".to_string())),
        DefaultShell::PowerShell("powershell.exe".to_string())
    );
    assert_eq!(
        detect_windows_shell(None, None),
        DefaultShell::CommandPrompt("cmd.exe".to_string())
    );
    assert!(is_powershell_path("/tools/PowerShell.EXE"));
    assert!(!is_powershell_path("/tools/powershell.exe/cmd.exe"));
    assert!(!is_powershell_path("/"));
    assert_eq!(
        windows_powershell_candidate("root"),
        PathBuf::from("root")
            .join("System32")
            .join("WindowsPowerShell")
            .join("v1.0")
            .join("powershell.exe")
            .to_str()
            .unwrap()
    );
}

#[test]
fn shells_have_an_exit_sequence_and_a_dialect() {
    let posix = DefaultShell::Posix("/bin/sh".to_string());
    let prompt = DefaultShell::CommandPrompt("cmd.exe".to_string());
    let powershell = DefaultShell::PowerShell("pwsh.exe".to_string());

    assert_eq!(posix.graceful_exit_sequence(), b"exit\n");
    assert_eq!(prompt.graceful_exit_sequence(), b"exit\r");
    assert_eq!(powershell.graceful_exit_sequence(), b"exit\r");
    assert_eq!(posix.command_dialect(), ShellCommandDialect::Posix);
    assert_eq!(prompt.command_dialect(), ShellCommandDialect::CommandPrompt);
    assert_eq!(powershell.command_dialect(), ShellCommandDialect::PowerShell);
}
