//! Cleanup that runs in the background, and cleanup nobody waits for.

use vstd::prelude::*;
use vstd::string::*;

use crate::error::{AppError, AppResult, ErrorModel};
use crate::pty::process::{
    self, WaitStep, DETACHED_CLEANUP_DRAIN_TIMEOUT_OPERATION, NO_RESULT_MESSAGE,
};
use crate::text;

verus! {

/// What looking into a channel gave.
pub enum ChannelPoll<T> {
    Value(T),
    Empty,
    Disconnected,
}

/// What looking at a thread gave; one that has ended was joined.
#[derive(Clone, Copy, Debug, PartialEq, Eq, Structural)]
pub enum ThreadPoll {
    Running,
    Joined,
    Panicked,
}

/// How a cleanup ended.
pub enum TaskOutcome<F> {
    /// The cleanup reported its result.
    Reported(Result<(), F>),
    /// The cleanup ended without a result of its own.
    Lost(AppError),
}

/// The error for a cleanup thread that panicked.
pub open spec fn panic_error() -> ErrorModel {
    ErrorModel::Pty("join pty shutdown thread"@, "pty shutdown thread panicked"@)
}

pub open spec fn lost_to_panic<F>(outcome: Option<TaskOutcome<F>>) -> bool {
    outcome matches Some(TaskOutcome::Lost(error)) && error@ == panic_error()
}

pub open spec fn lost_without_result<F>(outcome: Option<TaskOutcome<F>>) -> bool {
    outcome matches Some(TaskOutcome::Lost(error)) && error@ == ErrorModel::InvalidState(
        NO_RESULT_MESSAGE@,
    )
}

fn panicked<F>() -> (outcome: Option<TaskOutcome<F>>)
    ensures
        lost_to_panic(outcome),
{
    Some(
        TaskOutcome::Lost(
            AppError::pty_message(
                "join pty shutdown thread",
                "pty shutdown thread panicked".to_owned(),
            ),
        ),
    )
}

/// A cleanup that a session waits for.
#[derive(Clone, Copy, Debug, PartialEq, Eq, Structural)]
pub struct PtyCleanupTask {
    /// Whether its result is still to come.
    pub awaiting_result: bool,
    /// Whether its thread is still to be joined.
    pub has_thread: bool,
}

impl PtyCleanupTask {
    pub fn new() -> (task: Self)
        ensures
            task.awaiting_result,
            task.has_thread,
    {
        PtyCleanupTask { awaiting_result: true, has_thread: true }
    }

    /// Whether its thread turns out to have panicked.
    pub open spec fn panics(self, thread: ThreadPoll) -> bool {
        self.has_thread && thread is Panicked
    }

    /// Whether its thread is left after a look at it.
    pub open spec fn keeps_thread(self, thread: ThreadPoll) -> bool {
        self.has_thread && thread is Running
    }

    /// Takes what its channel and then its thread gave; says how the cleanup
    /// ended, once it has.
    pub fn try_finish<F>(&mut self, received: ChannelPoll<Result<(), F>>, thread: ThreadPoll) -> (
    outcome: Option<TaskOutcome<F>>)
        ensures
            final(self).has_thread == old(self).keeps_thread(thread),
            final(self).has_thread == (old(self).has_thread && thread is Running),
            old(self).has_thread && thread is Panicked ==> !final(self).awaiting_result && (
            outcome matches Some(TaskOutcome::Lost(error)) && error@ == ErrorModel::Pty(
                "join pty shutdown thread"@,
                "pty shutdown thread panicked"@,
            )),
            !(old(self).has_thread && thread is Panicked) && old(self).awaiting_result
                && received is Value ==> outcome == Some(
                TaskOutcome::Reported(received->Value_0),
            ),
            final(self).awaiting_result == (old(self).awaiting_result && received is Empty && !old(self).panics(thread)),
            old(self).panics(thread) ==> lost_to_panic(outcome),
            !old(self).panics(thread) ==> {
                &&& !old(self).awaiting_result || received is Empty ==> outcome is None
                &&& old(self).awaiting_result && received is Value ==> outcome == Some(
                    TaskOutcome::Reported(received->Value_0),
                )
                &&& old(self).awaiting_result && received is Disconnected ==> (if old(self).keeps_thread(thread) {
                    outcome is None
                } else {
                    lost_without_result(outcome)
                })
            },
    {
        let panics = self.has_thread && matches!(thread, ThreadPoll::Panicked);
        self.has_thread = self.has_thread && matches!(thread, ThreadPoll::Running);
        if panics {
            self.awaiting_result = false;
            return panicked();
        }
        if !self.awaiting_result {
            return None;
        }
        match received {
            ChannelPoll::Value(result) => {
                self.awaiting_result = false;
                Some(TaskOutcome::Reported(result))
            },
            ChannelPoll::Empty => None,
            ChannelPoll::Disconnected => {
                self.awaiting_result = false;
                if self.has_thread {
                    None
                } else {
                    Some(TaskOutcome::Lost(AppError::InvalidState(NO_RESULT_MESSAGE)))
                }
            },
        }
    }

    /// Whether something is left to wait for when the task is let go.
    pub fn must_detach(&self) -> (must: bool)
        ensures
            must == (self.awaiting_result || self.has_thread),
    {
        self.awaiting_result || self.has_thread
    }
}

/// A cleanup that no session waits for any more.
pub struct DetachedCleanupTask<F> {
    pub awaiting_result: bool,
    pub has_thread: bool,
    pub result: Option<TaskOutcome<F>>,
}

impl<F> DetachedCleanupTask<F> {
    pub fn new(awaiting_result: bool, has_thread: bool) -> (task: Self)
        ensures
            task == (DetachedCleanupTask { awaiting_result, has_thread, result: None::<TaskOutcome<F>> }),
    {
        DetachedCleanupTask { awaiting_result, has_thread, result: None }
    }

    /// The task after a look into its channel.
    pub open spec fn polled(self, received: ChannelPoll<Result<(), F>>) -> Self {
        if self.result is Some || !self.awaiting_result {
            self
        } else {
            match received {
                ChannelPoll::Value(result) => DetachedCleanupTask {
                    awaiting_result: false,
                    result: Some(TaskOutcome::Reported(result)),
                    ..self
                },
                ChannelPoll::Empty => self,
                ChannelPoll::Disconnected => DetachedCleanupTask {
                    awaiting_result: false,
                    result: Some(TaskOutcome::Lost(AppError::InvalidState(NO_RESULT_MESSAGE))),
                    ..self
                },
            }
        }
    }

    fn poll_result(&mut self, received: ChannelPoll<Result<(), F>>)
        ensures
            *final(self) == old(self).polled(received),
    {
        if self.result.is_some() || !self.awaiting_result {
            return ;
        }
        match received {
            ChannelPoll::Value(result) => {
                self.awaiting_result = false;
                self.result = Some(TaskOutcome::Reported(result));
            },
            ChannelPoll::Empty => {},
            ChannelPoll::Disconnected => {
                self.awaiting_result = false;
                self.result =
                Some(TaskOutcome::Lost(AppError::InvalidState(NO_RESULT_MESSAGE)));
            },
        }
    }

    /// Takes what its channel, its thread and its channel again gave; says how
    /// the cleanup ended, once its thread is gone.
    pub fn try_finish(
        &mut self,
        received: ChannelPoll<Result<(), F>>,
        thread: ThreadPoll,
        received_after: ChannelPoll<Result<(), F>>,
    ) -> (outcome: Option<TaskOutcome<F>>)
        ensures
            ({
                let first = old(self).polled(received);
                let joined = DetachedCleanupTask {
                    has_thread: old(self).has_thread && thread is Running,
                    ..first
                };
                let second = joined.polled(received_after);
                if old(self).has_thread && thread is Panicked {
                    &&& lost_to_panic(outcome)
                    &&& *final(self) == (DetachedCleanupTask { result: None, ..joined })
                } else if second.has_thread {
                    &&& outcome is None
                    &&& *final(self) == second
                } else if second.result is Some {
                    &&& outcome == second.result
                    &&& *final(self) == (DetachedCleanupTask { result: None, ..second })
                } else {
                    &&& *final(self) == second
                    &&& outcome == (if second.awaiting_result {
                        None::<TaskOutcome<F>>
                    } else {
                        Some(TaskOutcome::<F>::Reported(Ok(())))
                    })
                }
            }),
    {
        self.poll_result(received);
        let panics = self.has_thread && matches!(thread, ThreadPoll::Panicked);
        self.has_thread = self.has_thread && matches!(thread, ThreadPoll::Running);
        if panics {
            self.result = None;
            return panicked();
        }
        self.poll_result(received_after);
        if self.has_thread {
            return None;
        }
        if self.result.is_some() {
            return self.result.take();
        }
        if self.awaiting_result {
            None
        } else {
            Some(TaskOutcome::Reported(Ok(())))
        }
    }
}

/// The tasks that are left and the failures that come up when finished tasks
/// are taken out from `index` on; the last task takes the place of one that
/// is taken out.
pub open spec fn collected<T, F>(tasks: Seq<(T, Option<Result<(), F>>)>, index: nat) -> (
    Seq<T>,
    Seq<F>,
)
    decreases tasks.len() - index,
{
    if index >= tasks.len() {
        (tasks.map_values(|task: (T, Option<Result<(), F>>)| task.0), Seq::empty())
    } else {
        match tasks[index as int].1 {
            None => collected(tasks, index + 1),
            Some(result) => {
                let last = tasks.len() - 1;
                let rest = if index == last {
                    tasks.drop_last()
                } else {
                    tasks.update(index as int, tasks[last]).drop_last()
                };
                let (left, failures) = collected(rest, index);
                match result {
                    Ok(()) => (left, failures),
                    Err(failure) => (left, seq![failure] + failures),
                }
            },
        }
    }
}

/// Takes finished tasks out: each task comes with how it ended, where it has.
pub fn collect_finished_detached_cleanup_tasks<T, F>(
    tasks: Vec<(T, Option<Result<(), F>>)>,
) -> (sorted: (Vec<T>, Vec<F>))
    ensures
        (sorted.0@, sorted.1@) == collected(tasks@, 0),
{
    let mut tasks = tasks;
    let mut failures: Vec<F> = Vec::new();
    let mut index: usize = 0;
    let ghost goal = collected(tasks@, 0);
    assert(failures@ + goal.1 =~= goal.1);
    while index < tasks.len()
        invariant
            index <= tasks@.len(),
            goal.0 == collected(tasks@, index as nat).0,
            goal.1 =~= failures@ + collected(tasks@, index as nat).1,
        decreases tasks@.len() - index,
    {
        let ghost before = tasks@;
        let ghost found = failures@;
        if tasks[index].1.is_none() {
            index += 1;
        } else {
            let (_, result) = tasks.swap_remove(index);
            proof {
                let last = before.len() - 1;
                assert(tasks@ =~= (if index == last {
                    before.drop_last()
                } else {
                    before.update(index as int, before[last]).drop_last()
                }));
            }
            if let Some(Err(failure)) = result {
                failures.push(failure);
                assert(found + (seq![failure] + collected(tasks@, index as nat).1) =~= failures@
                    + collected(tasks@, index as nat).1);
            }
        }
    }
    let ghost remaining = tasks@;
    let mut left: Vec<T> = Vec::new();
    let mut position: usize = 0;
    let count: usize = tasks.len();
    while position < count
        invariant
            count == remaining.len(),
            position <= count,
            tasks@ == remaining.skip(position as int),
            left@ =~= remaining.take(position as int).map_values(
                |task: (T, Option<Result<(), F>>)| task.0,
            ),
        decreases count - position,
    {
        let (task, _) = tasks.remove(0);
        left.push(task);
        position += 1;
    }
    assert(remaining.take(count as int) =~= remaining);
    (left, failures)
}

/// What is reported of detached cleanup that did not end in time.
pub open spec fn drain_timeout(task_count: nat, timeout_ms: nat) -> ErrorModel {
    ErrorModel::Pty(
        DETACHED_CLEANUP_DRAIN_TIMEOUT_OPERATION@,
        "timed out after "@ + text::decimal(timeout_ms) + " ms waiting for "@ + text::decimal(
            task_count,
        ) + " detached pty cleanup task(s) to finish; cleanup continues in background"@,
    )
}

/// The error for detached cleanup that did not end in time.
pub fn detached_cleanup_drain_timeout_error(task_count: u64, timeout_ms: u64) -> (error: AppError)
    ensures
        error@ == drain_timeout(task_count as nat, timeout_ms as nat),
{
    let mut cause = "timed out after ".to_owned();
    cause.append(text::decimal_text(timeout_ms).as_str());
    cause.append(" ms waiting for ");
    cause.append(text::decimal_text(task_count).as_str());
    cause.append(" detached pty cleanup task(s) to finish; cleanup continues in background");
    AppError::pty_message(DETACHED_CLEANUP_DRAIN_TIMEOUT_OPERATION, cause)
}

/// Whether an error says that detached cleanup did not end in time.
pub fn is_detached_cleanup_timeout_error(error: &AppError) -> (timed_out: bool)
    ensures
        timed_out == (error@.operation() == Some(DETACHED_CLEANUP_DRAIN_TIMEOUT_OPERATION@)),
{
    match error.operation() {
        Some(operation) => text::text_equal(operation, DETACHED_CLEANUP_DRAIN_TIMEOUT_OPERATION),
        None => false,
    }
}

/// One round of waiting for detached cleanup: `pending` tasks are left after
/// those that ended were taken out.
pub enum DrainStep {
    Finished,
    /// Give up, with this error.
    TimedOut(AppError),
    /// Sleep so many milliseconds and look again.
    Sleep(u64),
}

pub fn drain_detached_cleanup_step(pending: u64, remaining_ms: u64, timeout_ms: u64) -> (step:
    DrainStep)
    ensures
        pending == 0 ==> step is Finished,
        pending > 0 && remaining_ms == 0 ==> step is TimedOut && (step->TimedOut_0)@
            == drain_timeout(pending as nat, timeout_ms as nat),
        pending > 0 && remaining_ms > 0 ==> step == DrainStep::Sleep(
            if remaining_ms < process::CHILD_EXIT_POLL_INTERVAL_MS {
                remaining_ms
            } else {
                process::CHILD_EXIT_POLL_INTERVAL_MS
            },
        ),
{
    match process::wait_step(pending == 0, remaining_ms) {
        WaitStep::Reached => DrainStep::Finished,
        WaitStep::TimedOut => DrainStep::TimedOut(
            detached_cleanup_drain_timeout_error(pending, timeout_ms),
        ),
        WaitStep::Sleep(ms) => DrainStep::Sleep(ms),
    }
}

/// The error to report for a detached cleanup that failed: `retried` is the
/// result of a second attempt, made where resources were left.
pub fn recovered_cleanup_error(error: AppError, retried: Option<AppResult<()>>) -> (reported:
    AppError)
    ensures
        retried matches Some(Err(retry_error)) ==> reported@ == ErrorModel::Pty(
            "cleanup detached pty resources"@,
            error@.text() + "; retry cleanup failed: "@ + retry_error@.text(),
        ),
        !(retried matches Some(Err(_))) ==> reported == error,
{
    match retried {
        Some(Err(retry_error)) => AppError::pty_message(
            "cleanup detached pty resources",
            text::join3(
                error.message().as_str(),
                "; retry cleanup failed: ",
                retry_error.message().as_str(),
            ),
        ),
        _ => error,
    }
}

/// A cleanup that is waited for takes the first thing that its channel gives: a result, or that
/// none will come. After that, and where none is waited for, it takes nothing.
pub proof fn law_first_result_counts<F>(
    task: DetachedCleanupTask<F>,
    received: ChannelPoll<Result<(), F>>,
    later: ChannelPoll<Result<(), F>>,
)
    ensures
        ({
            let polled = task.polled(received);
            let waits = task.awaiting_result && task.result is None;
            &&& polled.has_thread == task.has_thread
            &&& !waits ==> polled == task
            &&& waits && received is Empty ==> polled == task
            &&& waits && !(received is Empty) ==> !polled.awaiting_result && polled.result is Some
                && polled.polled(later) == polled
            &&& waits && received is Value ==> polled.result == Some(
                TaskOutcome::Reported(received->Value_0),
            )
            &&& waits && received is Disconnected ==> polled.result == Some(
                TaskOutcome::<F>::Lost(AppError::InvalidState(NO_RESULT_MESSAGE)),
            )
        }),
{
}

/// Whether one of some cleanups has not ended.
pub open spec fn still_runs<T, F>(tasks: Seq<(T, Option<Result<(), F>>)>, task: T) -> bool {
    exists|i: int|
        0 <= i < tasks.len() && (#[trigger] tasks[i]).0 == task && tasks[i].1 is None
}

/// Whether one of some cleanups has failed in some way.
pub open spec fn has_failed<T, F>(tasks: Seq<(T, Option<Result<(), F>>)>, failure: F) -> bool {
    exists|i: int|
        0 <= i < tasks.len() && (#[trigger] tasks[i]).1 == Some(Err::<(), F>(failure))
}

/// Taking finished cleanups out leaves those that have not ended and no others, and gives the
/// failure of every one that failed and no others.
pub proof fn law_unfinished_cleanups_are_kept<T, F>(
    tasks: Seq<(T, Option<Result<(), F>>)>,
    task: T,
    failure: F,
)
    ensures
        collected(tasks, 0).0.contains(task) <==> still_runs(tasks, task),
        collected(tasks, 0).1.contains(failure) <==> has_failed(tasks, failure),
{
    lemma_collected(tasks, 0, task, failure);
}

proof fn lemma_collected<T, F>(
    tasks: Seq<(T, Option<Result<(), F>>)>,
    index: nat,
    task: T,
    failure: F,
)
    requires
        index <= tasks.len(),
        forall|i: int| 0 <= i < index ==> (#[trigger] tasks[i]).1 is None,
    ensures
        collected(tasks, index).0.contains(task) <==> still_runs(tasks, task),
        collected(tasks, index).1.contains(failure) <==> has_failed(tasks, failure),
    decreases tasks.len() - index,
{
    let (left, failures) = collected(tasks, index);
    if index >= tasks.len() {
        if left.contains(task) {
            let i = choose|i: int| 0 <= i < left.len() && left[i] == task;
            assert(tasks[i].0 == task);
        }
        if still_runs(tasks, task) {
            let i = choose|i: int|
                0 <= i < tasks.len() && (#[trigger] tasks[i]).0 == task && tasks[i].1 is None;
            assert(left[i] == task);
        }
    } else if tasks[index as int].1 is None {
        lemma_collected(tasks, index + 1, task, failure);
    } else {
        let last = tasks.len() - 1;
        let at = index as int;
        let rest = if index == last {
            tasks.drop_last()
        } else {
            tasks.update(at, tasks[last]).drop_last()
        };
        lemma_collected(rest, index, task, failure);
        assert forall|i: int| 0 <= i < rest.len() implies #[trigger] rest[i] == tasks[if i == at {
            last
        } else {
            i
        }] by {}
        assert forall|i: int| 0 <= i < tasks.len() && i != at implies #[trigger] tasks[i]
            == rest[if i == last {
            at
        } else {
            i
        }] by {}
        let (rest_left, rest_failures) = collected(rest, index);
        if still_runs(rest, task) {
            let i = choose|i: int|
                0 <= i < rest.len() && (#[trigger] rest[i]).0 == task && rest[i].1 is None;
            assert(tasks[if i == at {
                last
            } else {
                i
            }].0 == task);
        }
        if still_runs(tasks, task) {
            let i = choose|i: int|
                0 <= i < tasks.len() && (#[trigger] tasks[i]).0 == task && tasks[i].1 is None;
            assert(rest[if i == last {
                at
            } else {
                i
            }].0 == task);
        }
        if has_failed(rest, failure) {
            let i = choose|i: int|
                0 <= i < rest.len() && (#[trigger] rest[i]).1 == Some(Err::<(), F>(failure));
            assert(tasks[if i == at {
                last
            } else {
                i
            }].1 == Some(Err::<(), F>(failure)));
        }
        if has_failed(tasks, failure) {
            let i = choose|i: int|
                0 <= i < tasks.len() && (#[trigger] tasks[i]).1 == Some(Err::<(), F>(failure));
            if i != at {
                assert(rest[if i == last {
                    at
                } else {
                    i
                }].1 == Some(Err::<(), F>(failure)));
            }
        }
        if rest_failures.contains(failure) {
            let i = choose|i: int| 0 <= i < rest_failures.len() && rest_failures[i] == failure;
            match tasks[at].1->0 {
                Ok(()) => {},
                Err(own) => {
                    assert(failures[i + 1] == failure);
                },
            }
        }
        if tasks[at].1 == Some(Err::<(), F>(failure)) {
            assert(failures[0] == failure);
        }
        if failures.contains(failure) {
            let i = choose|i: int| 0 <= i < failures.len() && failures[i] == failure;
            match tasks[at].1->0 {
                Ok(()) => {},
                Err(own) => {
                    if i == 0 {
                        assert(tasks[at].1 == Some(Err::<(), F>(failure)));
                    } else {
                        assert(rest_failures[i - 1] == failure);
                    }
                },
            }
        }
    }
}

/// The thread of a cleanup is left while it runs. One that panicked ends the cleanup; a cleanup
/// without a thread is not ended by one.
pub proof fn law_running_threads_are_left(task: PtyCleanupTask, thread: ThreadPoll)
    ensures
        task.keeps_thread(thread) <==> task.has_thread && thread is Running,
        task.panics(thread) <==> task.has_thread && thread is Panicked,
        !(task.keeps_thread(thread) && task.panics(thread)),
{
}

/// Cleanup that did not end in time is reported with how long it was waited for and how many
/// tasks are left.
pub proof fn law_drain_timeout_tells_its_numbers(task_count: nat, timeout_ms: nat)
    ensures
        drain_timeout(task_count, timeout_ms) is Pty,
        text::holds_text(
            drain_timeout(task_count, timeout_ms)->Pty_1,
            "timed out after "@ + text::decimal(timeout_ms) + " ms"@,
        ),
        text::holds_text(
            drain_timeout(task_count, timeout_ms)->Pty_1,
            " waiting for "@ + text::decimal(task_count) + " detached pty cleanup task(s)"@,
        ),
{
    let told = drain_timeout(task_count, timeout_ms)->Pty_1;
    let waited = "timed out after "@ + text::decimal(timeout_ms) + " ms"@;
    let left = " waiting for "@ + text::decimal(task_count) + " detached pty cleanup task(s)"@;
    reveal_strlit("timed out after ");
    reveal_strlit(" ms");
    reveal_strlit(" waiting for ");
    reveal_strlit(" ms waiting for ");
    reveal_strlit(" detached pty cleanup task(s)");
    reveal_strlit(" detached pty cleanup task(s) to finish; cleanup continues in background");
    let begin: int = 0;
    assert(told.subrange(begin, begin + waited.len()) =~= waited);
    let at = waited.len() as int;
    assert(told.subrange(at, at + left.len()) =~= left);
}

} // verus!
