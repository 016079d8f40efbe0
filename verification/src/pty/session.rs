//! A session: one shell on one PTY, from its start to its cleanup.
//!
//! `M` is the PTY's controlling side, `C` the child process, `I`, `H` and `D`
//! belong to the workers, and `T` is a cleanup under way. The event queue is
//! shared with the workers, so that every decision takes it as an argument.

use vstd::prelude::*;

use crate::domain::event::{self, EventItem, TerminalEvent, TerminalFailure};
use crate::error::{AppError, AppResult, ErrorModel};
use crate::pty::event_queue::{
    PtyEventDrainBudget, PtyEventQueue, QueueModel, MAX_PENDING_EVENT_COUNT,
    MAX_PENDING_OUTPUT_BYTES, READ_BUFFER_SIZE,
};
use crate::pty::io_workers::{self, PtyIoWorkers};
use crate::pty::process::{self, PtyCleanupFailure, PtyCleanupResources};
use crate::pty::worker::{self, SHUTDOWN_FAILURE_USER_MESSAGE, WRITE_FAILURE_USER_MESSAGE};
use crate::text;

verus! {

/// Most events that one drain hands out.
pub const MAX_DRAIN_EVENT_COUNT: usize = 64;

/// Most output bytes that one drain hands out.
pub const MAX_DRAIN_OUTPUT_BYTES: usize = READ_BUFFER_SIZE * 16;

/// Milliseconds between two looks at a child that gave no sign.
pub const CHILD_EXIT_BACKGROUND_POLL_INTERVAL_MS: u64 = 250;

pub const SHUTTING_DOWN_MESSAGE: &'static str = "pty session is shutting down";

/// The queue after one more event is offered, whatever its kind.
pub open spec fn offer(queue: QueueModel, item: EventItem) -> QueueModel {
    match item {
        EventItem::Control(event) => queue.push_control(event).0,
        EventItem::Output(bytes) => queue.push_output_event(bytes).0,
    }
}

/// The queue after events are offered one after the other.
pub open spec fn offer_all(queue: QueueModel, items: Seq<EventItem>) -> QueueModel
    decreases items.len(),
{
    if items.len() == 0 {
        queue
    } else {
        offer(offer_all(queue, items.drop_last()), items.last())
    }
}

/// Whether a failure report is among the items.
pub open spec fn has_failure(items: Seq<EventItem>) -> bool {
    exists|i: int| 0 <= i < items.len() && is_failure(#[trigger] items[i])
}

pub open spec fn is_failure(item: EventItem) -> bool {
    item matches EventItem::Control(event) && event is Failure
}

/// Whether an event suggests that the child may have ended.
pub open spec fn suggests_exit(item: EventItem) -> bool {
    item matches EventItem::Control(event) && (event is PtyClosed || event is StdinWriteFailed
        || event is Failure)
}

pub fn should_poll_child_exit_after_event(event: &TerminalEvent) -> (poll: bool)
    ensures
        poll == suggests_exit(event::event_item(*event)),
{
    match event {
        TerminalEvent::PtyClosed => true,
        TerminalEvent::StdinWriteFailed(_) => true,
        TerminalEvent::Failure(_) => true,
        _ => false,
    }
}

/// Whether a failure report is among the events.
pub fn contains_failure(events: &Vec<TerminalEvent>) -> (found: bool)
    ensures
        found == has_failure(event::event_items(events@)),
{
    let mut index: usize = 0;
    while index < events.len()
        invariant
            index <= events@.len(),
            forall|i: int|
                0 <= i < index ==> !is_failure(#[trigger] event::event_items(events@)[i]),
        decreases events@.len() - index,
    {
        let is_report = match &events[index] {
            TerminalEvent::Failure(_) => true,
            _ => false,
        };
        if is_report {
            assert(is_failure(event::event_items(events@)[index as int]));
            return true;
        }
        index += 1;
    }
    false
}

/// Whether any of the events suggests that the child may have ended.
pub fn any_suggests_exit(events: &Vec<TerminalEvent>) -> (found: bool)
    ensures
        found == exists|i: int| 0 <= i < events@.len() && suggests_exit(
            event::event_item(#[trigger] events@[i]),
        ),
{
    let mut index: usize = 0;
    while index < events.len()
        invariant
            index <= events@.len(),
            forall|i: int|
                0 <= i < index ==> !suggests_exit(event::event_item(#[trigger] events@[i])),
        decreases events@.len() - index,
    {
        if should_poll_child_exit_after_event(&events[index]) {
            return true;
        }
        index += 1;
    }
    false
}

/// Offers events one after the other.
fn send_all(queue: &mut PtyEventQueue, events: Vec<TerminalEvent>)
    requires
        old(queue).wf(),
    ensures
        final(queue).wf(),
        final(queue)@ == offer_all(old(queue)@, event::event_items(events@)),
{
    let ghost start = queue@;
    let ghost all = events@;
    let mut events = events;
    let count: usize = events.len();
    let mut sent: usize = 0;
    while sent < count
        invariant
            queue.wf(),
            count == all.len(),
            sent <= count,
            events@ == all.skip(sent as int),
            queue@ == offer_all(start, event::event_items(all.take(sent as int))),
        decreases count - sent,
    {
        let event = events.remove(0);
        queue.push(event);
        proof {
            let longer = event::event_items(all.take(sent + 1));
            assert(longer.drop_last() =~= event::event_items(all.take(sent as int)));
            assert(longer.last() == event::event_item(all[sent as int]));
        }
        sent += 1;
    }
    assert(all.take(count as int) =~= all);
}

/// Offers the failure report for an error.
fn report_failure(queue: &mut PtyEventQueue, user_message: &str, error: &AppError, is_input: bool)
    requires
        old(queue).wf(),
    ensures
        final(queue).wf(),
        reported(old(queue)@, final(queue)@, user_message@, error@, is_input),
{
    let failure = worker::terminal_failure_from_app_error(user_message, error);
    let ghost report = failure;
    if is_input {
        queue.push(TerminalEvent::StdinWriteFailed(failure));
    } else {
        queue.push(TerminalEvent::Failure(failure));
    }
    assert(worker::failure_texts(report) == worker::error_report(user_message@, error@));
    assert(queue@ == old(queue)@.push_control(failure_event(report, is_input)).0);
}

pub open spec fn failure_event(failure: TerminalFailure, is_input: bool) -> TerminalEvent {
    if is_input {
        TerminalEvent::StdinWriteFailed(failure)
    } else {
        TerminalEvent::Failure(failure)
    }
}

/// `after` is `before` with the report for an error offered.
pub open spec fn reported(
    before: QueueModel,
    after: QueueModel,
    user_message: Seq<char>,
    error: ErrorModel,
    is_input: bool,
) -> bool {
    exists|failure: TerminalFailure|
        {
            &&& worker::failure_texts(failure) == worker::error_report(user_message, error)
            &&& after == #[trigger] before.push_control(failure_event(failure, is_input)).0
        }
}

/// Whether a failure report is pending. Everything pending is taken out and
/// offered again, in the same order.
pub fn has_pending_failure_event(queue: &mut PtyEventQueue) -> (pending: bool)
    requires
        old(queue).wf(),
    ensures
        final(queue).wf(),
        pending == has_failure(old(queue)@.drop_report() + old(queue)@.items),
        final(queue)@ == offer_all(
            old(queue)@.emptied(),
            old(queue)@.drop_report() + old(queue)@.items,
        ),
{
    let events = queue.drain();
    let pending = contains_failure(&events);
    send_all(queue, events);
    pending
}

/// A queue for a new session with what is pending in the old one, which takes
/// no more events.
pub fn carry_over(queue: &mut PtyEventQueue) -> (fresh: PtyEventQueue)
    requires
        old(queue).wf(),
    ensures
        final(queue).wf(),
        final(queue)@ == (QueueModel { closed: true, ..old(queue)@.emptied() }),
        fresh.wf(),
        fresh@ == offer_all(
            QueueModel { items: Seq::empty(), dropped: 0, closed: false },
            old(queue)@.drop_report() + old(queue)@.items,
        ),
{
    let mut fresh = PtyEventQueue::new();
    let events = queue.close_and_drain();
    send_all(&mut fresh, events);
    fresh
}

/// What starting a session does first.
pub enum StartDecision {
    /// Refuse, with this error.
    Refuse(AppError),
    /// Shut the live session down and refuse.
    ShutDownFirst,
    /// Open a PTY.
    Open,
}

/// The steps of a start, in order.
#[derive(Clone, Copy, Debug, PartialEq, Eq, Structural)]
pub enum StartStep {
    OpenPty,
    TakeWriter,
    CloneReader,
    SpawnCommand,
    SpawnReader,
    SpawnWriter,
}

/// The operation that a step's failure is reported under.
pub fn start_operation(step: StartStep) -> (operation: &'static str)
    ensures
        operation@ == (match step {
            StartStep::OpenPty => "open pty"@,
            StartStep::TakeWriter => "take pty writer"@,
            StartStep::CloneReader => "clone pty reader"@,
            StartStep::SpawnCommand => "spawn pty command"@,
            StartStep::SpawnReader => "spawn pty reader thread"@,
            StartStep::SpawnWriter => "spawn pty writer thread"@,
        }),
{
    match step {
        StartStep::OpenPty => "open pty",
        StartStep::TakeWriter => "take pty writer",
        StartStep::CloneReader => "clone pty reader",
        StartStep::SpawnCommand => "spawn pty command",
        StartStep::SpawnReader => "spawn pty reader thread",
        StartStep::SpawnWriter => "spawn pty writer thread",
    }
}

/// The error of a failed step: threads are the operating system's, all else
/// is the PTY's.
pub fn start_error(step: StartStep, cause: String) -> (error: AppError)
    ensures
        step is SpawnReader ==> error@ == ErrorModel::Io("spawn pty reader thread"@, cause@),
        step is SpawnWriter ==> error@ == ErrorModel::Io("spawn pty writer thread"@, cause@),
        step is OpenPty ==> error@ == ErrorModel::Pty("open pty"@, cause@),
        step is TakeWriter ==> error@ == ErrorModel::Pty("take pty writer"@, cause@),
        step is CloneReader ==> error@ == ErrorModel::Pty("clone pty reader"@, cause@),
        step is SpawnCommand ==> error@ == ErrorModel::Pty("spawn pty command"@, cause@),
{
    match step {
        StartStep::SpawnReader => AppError::io(start_operation(step), cause),
        StartStep::SpawnWriter => AppError::io(start_operation(step), cause),
        _ => AppError::pty_message(start_operation(step), cause),
    }
}

/// The operation under which the cleanup after a failed step is reported;
/// before a child runs there is nothing to clean up.
pub fn start_cleanup_operation(step: StartStep) -> (operation: Option<&'static str>)
    ensures
        operation is Some <==> step is SpawnReader || step is SpawnWriter,
        step is SpawnReader ==> (operation->0)@ == "cleanup pty after reader thread spawn failure"@,
        step is SpawnWriter ==> (operation->0)@ == "cleanup pty after writer thread spawn failure"@,
{
    match step {
        StartStep::SpawnReader => Some("cleanup pty after reader thread spawn failure"),
        StartStep::SpawnWriter => Some("cleanup pty after writer thread spawn failure"),
        _ => None,
    }
}

/// What a drain does after the first events were taken out.
#[derive(Clone, Copy, Debug, PartialEq, Eq, Structural)]
pub enum DrainNext {
    /// A failure was reported: shut the session down.
    ShutDown,
    /// Look at the child, whether it is due or not where `force` is set.
    PollChild { force: bool },
}

/// A shell on a PTY.
pub struct PortablePtySession<M, C, I, H, D, T> {
    pub master: Option<M>,
    pub child: Option<C>,
    pub workers: Option<PtyIoWorkers<I, H, D>>,
    pub cleanup_tasks: Vec<T>,
    /// Time of the next look at the child, in milliseconds.
    pub next_child_exit_poll: Option<u64>,
}

impl<M, C, I, H, D, T> PortablePtySession<M, C, I, H, D, T> {
    pub open spec fn live(&self) -> bool {
        self.master is Some || self.child is Some || self.workers is Some
    }

    pub fn new() -> (session: Self)
        ensures
            !session.live(),
            session.cleanup_tasks@.len() == 0,
            session.next_child_exit_poll is None,
    {
        PortablePtySession {
            master: None,
            child: None,
            workers: None,
            cleanup_tasks: Vec::new(),
            next_child_exit_poll: None,
        }
    }

    pub fn has_live_session_resources(&self) -> (live: bool)
        ensures
            live == self.live(),
            live == (self.master is Some || self.child is Some || self.workers is Some),
    {
        self.master.is_some() || self.child.is_some() || self.workers.is_some()
    }

    pub fn is_shutdown_pending(&self) -> (pending: bool)
        ensures
            pending == (self.cleanup_tasks@.len() > 0),
    {
        self.cleanup_tasks.len() > 0
    }

    /// The session after it takes back what a failed cleanup left.
    pub open spec fn restored(self, resources: PtyCleanupResources<M, C, I, H, D>) -> Self {
        PortablePtySession {
            master: resources.master,
            child: resources.child,
            workers: resources.recoverable_workers(),
            ..self
        }
    }

    /// As `restored`, where anything is left.
    pub open spec fn recovered(self, failure: PtyCleanupFailure<M, C, I, H, D>) -> Self {
        match failure.resources {
            Some(resources) => self.restored(*resources),
            None => self,
        }
    }

    pub fn restore_failed_cleanup_resources(
        &mut self,
        resources: PtyCleanupResources<M, C, I, H, D>,
    )
        ensures
            *final(self) == old(self).restored(resources),
    {
        let (master, child, workers) = resources.into_recoverable_parts();
        self.master = master;
        self.child = child;
        self.workers = workers;
    }

    fn recover(&mut self, failure: PtyCleanupFailure<M, C, I, H, D>) -> (error: AppError)
        ensures
            *final(self) == old(self).recovered(failure),
            error == failure.error,
    {
        let (resources, error) = failure.into_parts();
        if let Some(resources) = resources {
            self.restore_failed_cleanup_resources(resources);
        }
        error
    }

    /// What is left of a session after the cleanups gave `outcomes`.
    pub open spec fn after_outcomes(
        self,
        outcomes: Seq<Option<Result<(), PtyCleanupFailure<M, C, I, H, D>>>>,
    ) -> (Option<M>, Option<C>, Option<PtyIoWorkers<I, H, D>>)
        decreases outcomes.len(),
    {
        if outcomes.len() == 0 {
            (self.master, self.child, self.workers)
        } else {
            match outcomes.last() {
                Some(Err(failure)) => match failure.resources {
                    Some(resources) => (
                        resources.master,
                        resources.child,
                        resources.recoverable_workers(),
                    ),
                    None => self.after_outcomes(outcomes.drop_last()),
                },
                _ => self.after_outcomes(outcomes.drop_last()),
            }
        }
    }

    /// Takes the cleanups that ended out: `outcomes` says of each, in order,
    /// how it ended, where it has. Reports whether any failed.
    pub fn poll_cleanup_tasks(
        &mut self,
        queue: &mut PtyEventQueue,
        outcomes: Vec<Option<Result<(), PtyCleanupFailure<M, C, I, H, D>>>>,
    ) -> (reported_failure: bool)
        requires
            old(queue).wf(),
            outcomes@.len() == old(self).cleanup_tasks@.len(),
        ensures
            final(queue).wf(),
            reported_failure == exists|i: int|
                0 <= i < outcomes@.len() && failed_outcome(#[trigger] outcomes@[i]),
            final(self).cleanup_tasks@ == unfinished(old(self).cleanup_tasks@, outcomes@),
            (final(self).master, final(self).child, final(self).workers) == old(self).after_outcomes(outcomes@),
            final(self).next_child_exit_poll == old(self).next_child_exit_poll,
            reported_all(old(queue)@, final(queue)@, outcomes@),
    {
        let ghost all = outcomes@;
        let ghost tasks = self.cleanup_tasks@;
        let mut outcomes = outcomes;
        let mut reported_failure = false;
        let mut index: usize = 0;
        let count: usize = outcomes.len();
        let mut seen: usize = 0;
        assert(all.take(0) =~= Seq::<
            Option<Result<(), PtyCleanupFailure<M, C, I, H, D>>>,
        >::empty());
        assert(unfinished(tasks.take(0), all.take(0)) + tasks.skip(0) =~= tasks);
        while seen < count
            invariant
                queue.wf(),
                count == all.len(),
                count == tasks.len(),
                seen <= count,
                index <= seen,
                outcomes@ == all.skip(seen as int),
                index == unfinished(tasks.take(seen as int), all.take(seen as int)).len(),
                self.cleanup_tasks@ =~= unfinished(tasks.take(seen as int), all.take(seen as int))
                    + tasks.skip(seen as int),
                self.next_child_exit_poll == old(self).next_child_exit_poll,
                (self.master, self.child, self.workers) == old(self).after_outcomes(
                    all.take(seen as int),
                ),
                reported_failure == exists|i: int|
                    0 <= i < seen && failed_outcome(#[trigger] all[i]),
                reported_all(old(queue)@, queue@, all.take(seen as int)),
            decreases count - seen,
        {
            let ghost done = all.take(seen as int);
            let ghost more = all.take(seen + 1);
            let ghost kept = unfinished(tasks.take(seen as int), done);
            proof {
                assert(more.drop_last() =~= done);
                assert(more.last() == all[seen as int]);
                assert(tasks.take(seen + 1).drop_last() =~= tasks.take(seen as int));
                assert(tasks.take(seen + 1).last() == tasks[seen as int]);
            }
            let outcome = outcomes.remove(0);
            match outcome {
                None => {
                    index += 1;
                    assert(kept.push(tasks[seen as int]) + tasks.skip(seen + 1) =~= kept + tasks.skip(
                        seen as int,
                    ));
                },
                Some(result) => {
                    assert((kept + tasks.skip(seen as int)).remove(index as int) =~= kept
                        + tasks.skip(seen + 1));
                    self.cleanup_tasks.remove(index);
                    if let Err(failure) = result {
                        assert(failed_outcome(all[seen as int]));
                        reported_failure = true;
                        let ghost before = queue@;
                        let error = self.recover(failure);
                        report_failure(queue, SHUTDOWN_FAILURE_USER_MESSAGE, &error, false);
                        assert(reported_all(old(queue)@, before, more.drop_last()));
                        assert(more.last() matches Some(Err(f)) && f.error@ == error@);
                        assert(reported(before, queue@, SHUTDOWN_FAILURE_USER_MESSAGE@, error@, false));
                        assert(reported_all(old(queue)@, queue@, more));
                    }
                },
            }
            seen += 1;
        }
        proof {
            assert(all.take(count as int) =~= all);
            assert(tasks.take(count as int) =~= tasks);
            assert(tasks.skip(count as int) =~= Seq::<T>::empty());
            assert(unfinished(tasks, all) + Seq::<T>::empty() =~= unfinished(tasks, all));
        }
        reported_failure
    }

    /// The session's part of a cleanup, after the cleanups under way were
    /// looked at: hands out what is to be released, where there is anything.
    pub fn begin_cleanup(&mut self, queue: &mut PtyEventQueue, cleanup_failed: bool) -> (resources:
        Option<PtyCleanupResources<M, C, I, H, D>>)
        requires
            old(queue).wf(),
        ensures
            final(queue).wf(),
            final(self).cleanup_tasks == old(self).cleanup_tasks,
            !final(self).live(),
            old(self).live() ==> {
                &&& resources == Some(
                    PtyCleanupResources {
                        master: old(self).master,
                        child: old(self).child,
                        workers: old(self).workers,
                    },
                )
                &&& final(self).next_child_exit_poll is None
                &&& final(queue)@ == old(queue)@
            },
            !old(self).live() ==> {
                &&& resources is None
                &&& final(self).next_child_exit_poll == (if old(self).cleanup_tasks@.len() > 0 {
                    old(self).next_child_exit_poll
                } else {
                    None
                })
                &&& final(queue)@ == (if old(self).cleanup_tasks@.len() == 0 && !cleanup_failed {
                    old(queue)@.emptied()
                } else {
                    old(queue)@
                })
            },
    {
        if !self.has_live_session_resources() {
            if self.cleanup_tasks.len() > 0 {
                return None;
            }
            if !cleanup_failed {
                queue.clear();
            }
            self.next_child_exit_poll = None;
            return None;
        }
        self.next_child_exit_poll = None;
        Some(PtyCleanupResources::new(self.master.take(), self.child.take(), self.workers.take()))
    }

    /// A cleanup runs: it is waited for, and what is pending goes to a fresh
    /// queue while the old one takes no more.
    pub fn cleanup_started(&mut self, queue: &mut PtyEventQueue, task: T) -> (fresh: PtyEventQueue)
        requires
            old(queue).wf(),
        ensures
            final(self).cleanup_tasks@ == old(self).cleanup_tasks@.push(task),
            final(self).master == old(self).master,
            final(self).child == old(self).child,
            final(self).workers == old(self).workers,
            final(self).next_child_exit_poll == old(self).next_child_exit_poll,
            final(queue).wf(),
            final(queue)@ == (QueueModel { closed: true, ..old(queue)@.emptied() }),
            fresh.wf(),
            fresh@ == offer_all(
                QueueModel { items: Seq::empty(), dropped: 0, closed: false },
                old(queue)@.drop_report() + old(queue)@.items,
            ),
    {
        self.cleanup_tasks.push(task);
        carry_over(queue)
    }

    /// No cleanup could be started: the session keeps what it had.
    pub fn cleanup_not_started(&mut self, failure: PtyCleanupFailure<M, C, I, H, D>) -> (error:
        AppError)
        ensures
            *final(self) == old(self).recovered(failure),
            error == failure.error,
    {
        self.recover(failure)
    }

    /// The first decision of a start, after the cleanups under way were looked
    /// at. Nothing is started while a failure is pending or a cleanup runs.
    pub fn begin_start(&mut self, queue: &mut PtyEventQueue) -> (decision: StartDecision)
        requires
            old(queue).wf(),
        ensures
            *final(self) == *old(self),
            final(queue).wf(),
            ({
                let pending = old(queue)@.drop_report() + old(queue)@.items;
                let checked = offer_all(old(queue)@.emptied(), pending);
                if has_failure(pending) {
                    &&& decision == StartDecision::Refuse(
                        AppError::InvalidState("pty cleanup failure is pending"),
                    )
                    &&& final(queue)@ == checked
                } else if old(self).cleanup_tasks@.len() > 0 {
                    &&& decision == StartDecision::Refuse(
                        AppError::InvalidState(SHUTTING_DOWN_MESSAGE),
                    )
                    &&& final(queue)@ == checked
                } else if old(self).live() {
                    decision is ShutDownFirst && final(queue)@ == checked
                } else {
                    decision is Open && final(queue)@ == checked.emptied()
                }
            }),
    {
        if has_pending_failure_event(queue) {
            return StartDecision::Refuse(AppError::InvalidState("pty cleanup failure is pending"));
        }
        if self.cleanup_tasks.len() > 0 {
            return StartDecision::Refuse(AppError::InvalidState(SHUTTING_DOWN_MESSAGE));
        }
        if self.has_live_session_resources() {
            return StartDecision::ShutDownFirst;
        }
        queue.clear();
        StartDecision::Open
    }

    /// The error of a start that found a live session, after its shutdown.
    pub fn refuse_live(&self, shut_down: AppResult<()>) -> (error: AppError)
        ensures
            error == (match shut_down {
                Err(error) => error,
                Ok(()) => AppError::InvalidState(SHUTTING_DOWN_MESSAGE),
            }),
    {
        match shut_down {
            Err(error) => error,
            Ok(()) => AppError::InvalidState(SHUTTING_DOWN_MESSAGE),
        }
    }

    /// The error of a start that failed with a child running, after the
    /// cleanup: the cleanup's own failure is reported with it, and what it
    /// left stays with the session.
    pub fn cleanup_after_start_failure(
        &mut self,
        cleaned: Result<(), PtyCleanupFailure<M, C, I, H, D>>,
        start_error: AppError,
        cleanup_operation: &'static str,
    ) -> (error: AppError)
        ensures
            cleaned is Ok ==> {
                &&& error == start_error
                &&& *final(self) == (PortablePtySession { next_child_exit_poll: None, ..*old(self) })
            },
            cleaned matches Err(failure) ==> {
                &&& error@ == ErrorModel::Pty(
                    cleanup_operation@,
                    start_error@.text() + "; cleanup failed: "@ + failure.error@.text(),
                )
                &&& *final(self) == (PortablePtySession {
                    next_child_exit_poll: None,
                    ..*old(self)
                }).recovered(failure)
            },
    {
        self.next_child_exit_poll = None;
        match cleaned {
            Ok(()) => start_error,
            Err(failure) => {
                let cleanup_error = self.recover(failure);
                AppError::pty_message(
                    cleanup_operation,
                    text::join3(
                        start_error.message().as_str(),
                        "; cleanup failed: ",
                        cleanup_error.message().as_str(),
                    ),
                )
            },
        }
    }

    /// All steps of a start succeeded.
    pub fn started(&mut self, master: M, child: C, workers: PtyIoWorkers<I, H, D>)
        ensures
            *final(self) == (PortablePtySession {
                master: Some(master),
                child: Some(child),
                workers: Some(workers),
                next_child_exit_poll: None,
                cleanup_tasks: old(self).cleanup_tasks,
            }),
    {
        self.master = Some(master);
        self.child = Some(child);
        self.workers = Some(workers);
        self.next_child_exit_poll = None;
    }

    /// The PTY to resize.
    pub fn resize_target(&self) -> (target: AppResult<&M>)
        ensures
            self.master matches Some(master) ==> target == Ok::<&M, AppError>(&master),
            self.master is None ==> target == Err::<&M, AppError>(
                AppError::InvalidState("pty master is not available"),
            ),
    {
        match &self.master {
            Some(master) => Ok(master),
            None => Err(AppError::InvalidState("pty master is not available")),
        }
    }

    /// The result of writing input: `sent` is what handing it to the workers
    /// gave, where there are any. A failure is reported as an event too,
    /// unless the input queue was merely full; no input at all always
    /// succeeds.
    pub fn write_input(&self, queue: &mut PtyEventQueue, bytes: &[u8], sent: AppResult<()>) -> (
    result: AppResult<()>)
        requires
            old(queue).wf(),
        ensures
            final(queue).wf(),
            bytes@.len() == 0 ==> result is Ok && final(queue)@ == old(queue)@,
            bytes@.len() > 0 && self.workers is None ==> {
                &&& result == Err::<(), AppError>(
                    AppError::InvalidState("pty writer worker is not available"),
                )
                &&& reported(
                    old(queue)@,
                    final(queue)@,
                    WRITE_FAILURE_USER_MESSAGE@,
                    result->Err_0@,
                    true,
                )
            },
            bytes@.len() > 0 && self.workers is Some ==> result == sent,
            bytes@.len() > 0 && self.workers is Some ==> (match sent {
                Err(error) if error@ != ErrorModel::InvalidState(
                    worker::WRITER_INPUT_QUEUE_FULL_MESSAGE@,
                ) => reported(
                    old(queue)@,
                    final(queue)@,
                    WRITE_FAILURE_USER_MESSAGE@,
                    error@,
                    true,
                ),
                _ => final(queue)@ == old(queue)@,
            }),
    {
        if bytes.len() == 0 {
            return Ok(());
        }
        if self.workers.is_none() {
            let error = AppError::InvalidState("pty writer worker is not available");
            report_failure(queue, WRITE_FAILURE_USER_MESSAGE, &error, true);
            return Err(error);
        }
        if let Err(error) = &sent {
            if !io_workers::is_writer_input_queue_full_error(error) {
                report_failure(queue, WRITE_FAILURE_USER_MESSAGE, error, true);
            }
        }
        sent
    }

    /// Whether to look at the child now. A look that nothing asked for comes
    /// at most every `CHILD_EXIT_BACKGROUND_POLL_INTERVAL_MS`.
    pub fn should_poll_child(&mut self, force: bool, now_ms: u64) -> (poll: bool)
        requires
            now_ms + CHILD_EXIT_BACKGROUND_POLL_INTERVAL_MS <= u64::MAX,
        ensures
            poll == (old(self).child is Some && (force || !(
            old(self).next_child_exit_poll matches Some(next) && now_ms < next))),
            *final(self) == (PortablePtySession {
                next_child_exit_poll: if old(self).child is None {
                    None
                } else if poll {
                    Some((now_ms + CHILD_EXIT_BACKGROUND_POLL_INTERVAL_MS) as u64)
                } else {
                    old(self).next_child_exit_poll
                },
                ..*old(self)
            }),
    {
        if self.child.is_none() {
            self.next_child_exit_poll = None;
            return false;
        }
        let due = match self.next_child_exit_poll {
            Some(next) => next <= now_ms,
            None => true,
        };
        if !force && !due {
            return false;
        }
        self.next_child_exit_poll = Some(now_ms + CHILD_EXIT_BACKGROUND_POLL_INTERVAL_MS);
        true
    }

    /// Takes what a look at the child gave: an exit code lets go of the child.
    pub fn child_polled(&mut self, polled: Result<Option<u32>, String>) -> (code: AppResult<
        Option<u32>,
    >)
        ensures
            final(self).master == old(self).master,
            final(self).workers == old(self).workers,
            final(self).cleanup_tasks == old(self).cleanup_tasks,
            final(self).next_child_exit_poll == old(self).next_child_exit_poll,
            old(self).child is None ==> code == Ok::<Option<u32>, AppError>(None),
            old(self).child is Some && polled is Err ==> code is Err && (code->Err_0)@
                == ErrorModel::Io("poll pty child"@, polled->Err_0@),
            old(self).child is Some && polled is Ok ==> code == Ok::<Option<u32>, AppError>(
                polled->Ok_0,
            ),
            final(self).child == (if polled matches Ok(Some(_)) {
                None
            } else {
                old(self).child
            }),
    {
        process::take_child_exit_code(&mut self.child, polled, "poll pty child")
    }
}

/// What one drain may hand out.
pub fn drain_budget() -> (budget: PtyEventDrainBudget)
    ensures
        budget.max_events == MAX_DRAIN_EVENT_COUNT,
        budget.max_output_bytes == MAX_DRAIN_OUTPUT_BYTES,
        budget.max_events == 64,
        budget.max_output_bytes == 128 * 1024,
{
    PtyEventDrainBudget::new(MAX_DRAIN_EVENT_COUNT, MAX_DRAIN_OUTPUT_BYTES)
}

/// Hands out the first events of a drain and says what comes next.
pub fn begin_drain(queue: &mut PtyEventQueue) -> (drained: (Vec<TerminalEvent>, DrainNext))
    requires
        old(queue).wf(),
    ensures
        final(queue).wf(),
        ({
            let budget = PtyEventDrainBudget {
                max_events: MAX_DRAIN_EVENT_COUNT,
                max_output_bytes: MAX_DRAIN_OUTPUT_BYTES,
            };
            let handed = old(queue)@.budgeted_events(budget);
            &&& final(queue)@ == old(queue)@.budgeted_rest(budget)
            &&& event::event_items(drained.0@) == handed
            &&& drained.1 == (if has_failure(handed) {
                DrainNext::ShutDown
            } else {
                DrainNext::PollChild {
                    force: exists|i: int| 0 <= i < handed.len() && suggests_exit(#[trigger] handed[i]),
                }
            })
        }),
{
    let events = queue.drain_with_budget(drain_budget());
    if contains_failure(&events) {
        return (events, DrainNext::ShutDown);
    }
    let force = any_suggests_exit(&events);
    proof {
        let handed = event::event_items(events@);
        if force {
            let i = choose|i: int| 0 <= i < events@.len() && suggests_exit(
                event::event_item(#[trigger] events@[i]),
            );
            assert(suggests_exit(handed[i]));
        } else {
            assert forall|i: int| 0 <= i < handed.len() implies !suggests_exit(#[trigger] handed[i]) by {
                assert(!suggests_exit(event::event_item(events@[i])));
            }
        }
    }
    (events, DrainNext::PollChild { force })
}

/// Ends a drain that found a failure: a failed shutdown is reported with it.
pub fn end_failed_drain(events: &mut Vec<TerminalEvent>, shut_down: AppResult<()>)
    ensures
        shut_down is Ok ==> final(events)@ == old(events)@,
        shut_down matches Err(error) ==> exists|failure: TerminalFailure|
            {
                &&& worker::failure_texts(failure) == worker::error_report(
                    SHUTDOWN_FAILURE_USER_MESSAGE@,
                    error@,
                )
                &&& final(events)@ == #[trigger] old(events)@.push(TerminalEvent::Failure(failure))
            },
{
    if let Err(error) = shut_down {
        let failure = worker::terminal_failure_from_app_error(
            SHUTDOWN_FAILURE_USER_MESSAGE,
            &error,
        );
        let ghost report = failure;
        events.push(TerminalEvent::Failure(failure));
        assert(events@ == old(events)@.push(TerminalEvent::Failure(report)));
    }
}

/// Ends a drain during which the child turned out to have exited: the exit is
/// queued, and what the budget has left is handed out.
pub fn end_exited_drain(queue: &mut PtyEventQueue, events: &mut Vec<TerminalEvent>, code: u32)
    requires
        old(queue).wf(),
    ensures
        final(queue).wf(),
        ({
            let queued = old(queue)@.push_control(TerminalEvent::ChildExited { code: Some(code) }).0;
            let handed = event::event_items(old(events)@);
            let left = PtyEventDrainBudget {
                max_events: crate::pty::event_queue::remaining(
                    MAX_DRAIN_EVENT_COUNT as nat,
                    handed.len(),
                ) as usize,
                max_output_bytes: crate::pty::event_queue::remaining(
                    MAX_DRAIN_OUTPUT_BYTES as nat,
                    event::total_bytes(handed),
                ) as usize,
            };
            &&& final(queue)@ == queued.budgeted_rest(left)
            &&& event::event_items(final(events)@) == handed + queued.budgeted_events(left)
        }),
{
    queue.push(TerminalEvent::ChildExited { code: Some(code) });
    let ghost queued = queue@;
    let left = drain_budget().remaining_after(events.as_slice());
    if left.has_event_capacity() {
        let mut more = queue.drain_with_budget(left);
        let ghost added = more@;
        events.append(&mut more);
        assert(event::event_items(events@) =~= event::event_items(old(events)@)
            + event::event_items(added));
    } else {
        assert(event::event_items(events@) =~= event::event_items(old(events)@)
            + queued.budgeted_events(left));
    }
}

/// Whether a cleanup ended with a failure.
pub open spec fn failed_outcome<F>(outcome: Option<Result<(), F>>) -> bool {
    outcome matches Some(Err(_))
}

/// The tasks whose outcome is still open, in order.
pub open spec fn unfinished<T, F>(tasks: Seq<T>, outcomes: Seq<Option<Result<(), F>>>) -> Seq<T>
    decreases outcomes.len(),
{
    if outcomes.len() == 0 {
        Seq::empty()
    } else {
        let rest = unfinished(tasks.drop_last(), outcomes.drop_last());
        if outcomes.last() is None {
            rest.push(tasks.last())
        } else {
            rest
        }
    }
}

/// `after` is `before` with a report offered for each failed cleanup, in
/// order.
pub open spec fn reported_all<M, C, I, H, D>(
    before: QueueModel,
    after: QueueModel,
    outcomes: Seq<Option<Result<(), PtyCleanupFailure<M, C, I, H, D>>>>,
) -> bool
    decreases outcomes.len(),
{
    if outcomes.len() == 0 {
        after == before
    } else {
        match outcomes.last() {
            Some(Err(failure)) => exists|middle: QueueModel|
                {
                    &&& reported_all(before, middle, outcomes.drop_last())
                    &&& #[trigger] reported(
                        middle,
                        after,
                        SHUTDOWN_FAILURE_USER_MESSAGE@,
                        failure.error@,
                        false,
                    )
                },
            _ => reported_all(before, after, outcomes.drop_last()),
        }
    }
}

/// Looking for a pending failure leaves an open queue as it is, unless output
/// was thrown away since the last drain.
pub proof fn law_failure_check_changes_nothing(queue: QueueModel)
    requires
        !queue.closed,
        queue.dropped == 0,
        queue.items.len() <= MAX_PENDING_EVENT_COUNT,
        event::total_bytes(queue.items) <= MAX_PENDING_OUTPUT_BYTES,
    ensures
        offer_all(queue.emptied(), queue.drop_report() + queue.items) == queue,
{
    assert(queue.drop_report() + queue.items =~= queue.items);
    lemma_offer_all_fits(queue.emptied(), queue.items);
    assert(queue.emptied().items + queue.items =~= queue.items);
}

/// Events that fit behind what is pending are all taken, in order.
pub proof fn lemma_offer_all_fits(queue: QueueModel, items: Seq<EventItem>)
    requires
        !queue.closed,
        queue.items.len() + items.len() <= MAX_PENDING_EVENT_COUNT,
        event::total_bytes(queue.items + items) <= MAX_PENDING_OUTPUT_BYTES,
    ensures
        offer_all(queue, items) == (QueueModel { items: queue.items + items, ..queue }),
    decreases items.len(),
{
    if items.len() == 0 {
        assert(queue.items + items =~= queue.items);
    } else {
        let fewer = items.drop_last();
        let all = queue.items + items;
        assert(all.drop_last() =~= queue.items + fewer);
        assert(all.last() == items.last());
        assert(event::total_bytes(all) == event::total_bytes(all.drop_last()) + event::item_bytes(
            all.last(),
        ));
        lemma_offer_all_fits(queue, fewer);
        assert((queue.items + fewer).push(items.last()) =~= all);
    }
}

/// A session that is shut down and cleaned up hands out, on its fresh queue,
/// exactly what was pending on the old one, as long as nothing was thrown
/// away.
pub proof fn law_cleanup_keeps_pending_events(queue: QueueModel)
    requires
        queue.dropped == 0,
        queue.items.len() <= MAX_PENDING_EVENT_COUNT,
        event::total_bytes(queue.items) <= MAX_PENDING_OUTPUT_BYTES,
    ensures
        offer_all(
            QueueModel { items: Seq::empty(), dropped: 0, closed: false },
            queue.drop_report() + queue.items,
        ).items == queue.items,
{
    let fresh = QueueModel { items: Seq::empty(), dropped: 0, closed: false };
    assert(queue.drop_report() + queue.items =~= queue.items);
    assert(fresh.items + queue.items =~= queue.items);
    lemma_offer_all_fits(fresh, queue.items);
}

/// The tasks whose outcome is open stay, in order, and no others do.
pub proof fn law_open_tasks_stay<T, F>(
    tasks: Seq<T>,
    outcomes: Seq<Option<Result<(), F>>>,
    i: int,
)
    requires
        tasks.len() == outcomes.len(),
    ensures
        0 <= i < tasks.len() && outcomes[i] is None ==> unfinished(tasks, outcomes).contains(
            tasks[i],
        ),
        (forall|j: int| 0 <= j < outcomes.len() ==> (#[trigger] outcomes[j]) is None) ==> unfinished(
            tasks,
            outcomes,
        ) == tasks,
        (forall|j: int| 0 <= j < outcomes.len() ==> (#[trigger] outcomes[j]) is Some) ==> unfinished(
            tasks,
            outcomes,
        ).len() == 0,
        unfinished(tasks, outcomes).len() <= tasks.len(),
    decreases tasks.len(),
{
    if tasks.len() > 0 {
        let rest = outcomes.drop_last();
        law_open_tasks_stay(tasks.drop_last(), rest, i);
        assert(forall|j: int| 0 <= j < rest.len() ==> #[trigger] rest[j] == outcomes[j]);
        let before = unfinished(tasks.drop_last(), rest);
        let after = unfinished(tasks, outcomes);
        if 0 <= i < tasks.len() && outcomes[i] is None {
            if i == tasks.len() - 1 {
                assert(after[after.len() - 1] == tasks[i]);
            } else {
                assert(rest[i] is None);
                assert(tasks.drop_last()[i] == tasks[i]);
                let at = choose|at: int| 0 <= at < before.len() && before[at] == tasks[i];
                assert(after[at] == tasks[i]);
            }
        }
        if forall|j: int| 0 <= j < outcomes.len() ==> (#[trigger] outcomes[j]) is None {
            assert(outcomes[outcomes.len() - 1] is None);
            assert(after =~= tasks);
        }
        if forall|j: int| 0 <= j < outcomes.len() ==> (#[trigger] outcomes[j]) is Some {
            assert(outcomes[outcomes.len() - 1] is Some);
        }
    } else {
        assert(unfinished(tasks, outcomes) =~= tasks);
    }
}

/// The end of the output, a failed write and a reported failure suggest that the child has
/// ended; output, output that was dropped and the child's own exit do not.
pub proof fn law_what_suggests_an_exit(event: TerminalEvent)
    ensures
        suggests_exit(event::event_item(event)) <==> event is PtyClosed || event is StdinWriteFailed
            || event is Failure,
        is_failure(event::event_item(event)) <==> event is Failure,
{
}

/// A failure of input is reported as one, and any other as a failure of the session.
pub proof fn law_failures_are_reported_by_where_they_came_up(failure: TerminalFailure)
    ensures
        failure_event(failure, true) == TerminalEvent::StdinWriteFailed(failure),
        failure_event(failure, false) == TerminalEvent::Failure(failure),
{
}

/// Events are offered one after the other, in their order: to offer some and then the rest is to
/// offer all of them.
pub proof fn law_events_are_offered_in_order(queue: QueueModel, items: Seq<EventItem>, count: int)
    requires
        0 <= count <= items.len(),
    ensures
        offer_all(queue, items) == offer_all(
            offer_all(queue, items.take(count)),
            items.skip(count),
        ),
        items.len() == 0 ==> offer_all(queue, items) == queue,
        items.len() == 1 ==> offer_all(queue, items) == (match items[0] {
            EventItem::Control(event) => queue.push_control(event).0,
            EventItem::Output(bytes) => queue.push_output_event(bytes).0,
        }),
    decreases items.len(),
{
    let rest = items.skip(count);
    if items.len() == 1 {
        assert(items.drop_last() =~= Seq::<EventItem>::empty());
        assert(offer_all(queue, items.drop_last()) == queue);
    }
    if count < items.len() {
        law_events_are_offered_in_order(queue, items.drop_last(), count);
        assert(rest.drop_last() =~= items.drop_last().skip(count));
        assert(items.drop_last().take(count) =~= items.take(count));
        assert(rest.last() == items.last());
    } else {
        assert(items.take(count) =~= items);
        assert(rest =~= Seq::<EventItem>::empty());
    }
}

/// A failure is among some items where one of them reports a failure.
pub proof fn law_failures_are_found(items: Seq<EventItem>)
    ensures
        has_failure(items) <==> exists|i: int|
            0 <= i < items.len() && ((#[trigger] items[i]) matches EventItem::Control(event)
                && event is Failure),
{
    if has_failure(items) {
        let i = choose|i: int| 0 <= i < items.len() && is_failure(#[trigger] items[i]);
        assert(items[i] matches EventItem::Control(event) && event is Failure);
    }
    if exists|i: int|
        0 <= i < items.len() && ((#[trigger] items[i]) matches EventItem::Control(event)
            && event is Failure) {
        let i = choose|i: int|
            0 <= i < items.len() && ((#[trigger] items[i]) matches EventItem::Control(event)
                && event is Failure);
        assert(is_failure(items[i]));
    }
}

/// Cleanups that did not fail are not reported; the report of one that failed, the last of
/// them, is offered behind those of the others.
pub proof fn law_only_failed_cleanups_are_reported<M, C, I, H, D>(
    before: QueueModel,
    after: QueueModel,
    outcomes: Seq<Option<Result<(), PtyCleanupFailure<M, C, I, H, D>>>>,
)
    ensures
        (forall|i: int| 0 <= i < outcomes.len() ==> !((#[trigger] outcomes[i]) matches Some(Err(_))))
            ==> (reported_all(before, after, outcomes) <==> after == before),
        outcomes.len() > 0 && (outcomes.last() matches Some(Err(_))) && reported_all(
            before,
            after,
            outcomes,
        ) ==> exists|middle: QueueModel, failure: TerminalFailure|
            {
                &&& reported_all(before, middle, outcomes.drop_last())
                &&& worker::failure_texts(failure) == worker::error_report(
                    SHUTDOWN_FAILURE_USER_MESSAGE@,
                    (outcomes.last()->0)->Err_0.error@,
                )
                &&& after == #[trigger] middle.push_control(TerminalEvent::Failure(failure)).0
            },
    decreases outcomes.len(),
{
    if outcomes.len() > 0 {
        law_only_failed_cleanups_are_reported(before, after, outcomes.drop_last());
        if forall|i: int| 0 <= i < outcomes.len() ==> !((#[trigger] outcomes[i]) matches Some(Err(_))) {
            assert forall|i: int| 0 <= i < outcomes.drop_last().len() implies !((
            #[trigger] outcomes.drop_last()[i]) matches Some(Err(_))) by {
                assert(outcomes.drop_last()[i] == outcomes[i]);
            }
            assert(!(outcomes[outcomes.len() - 1] matches Some(Err(_))));
        }
        if (outcomes.last() matches Some(Err(_))) && reported_all(before, after, outcomes) {
            let error = (outcomes.last()->0)->Err_0.error@;
            let middle = choose|middle: QueueModel|
                {
                    &&& reported_all(before, middle, outcomes.drop_last())
                    &&& #[trigger] reported(
                        middle,
                        after,
                        SHUTDOWN_FAILURE_USER_MESSAGE@,
                        error,
                        false,
                    )
                };
            let failure = choose|failure: TerminalFailure|
                {
                    &&& worker::failure_texts(failure) == worker::error_report(
                        SHUTDOWN_FAILURE_USER_MESSAGE@,
                        error,
                    )
                    &&& after == #[trigger] middle.push_control(failure_event(failure, false)).0
                };
            assert(after == middle.push_control(TerminalEvent::Failure(failure)).0);
        }
    }
}

/// A failed cleanup gives the session back what it holds still, and a session whose failed
/// cleanup holds nothing stays as it is. The session's other cleanups go on.
pub proof fn law_failed_cleanup_gives_back_what_it_holds<M, C, I, H, D, T>(
    session: PortablePtySession<M, C, I, H, D, T>,
    failure: PtyCleanupFailure<M, C, I, H, D>,
)
    ensures
        failure.resources is None ==> session.recovered(failure) == session,
        failure.resources matches Some(resources) ==> {
            &&& session.recovered(failure).master == resources.master
            &&& session.recovered(failure).child == resources.child
            &&& session.recovered(failure).workers == resources.recoverable_workers()
            &&& session.recovered(failure).cleanup_tasks == session.cleanup_tasks
            &&& session.recovered(failure).next_child_exit_poll == session.next_child_exit_poll
        },
{
}

/// Whether a cleanup failed and holds something still.
pub open spec fn holds_resources<M, C, I, H, D>(
    outcome: Option<Result<(), PtyCleanupFailure<M, C, I, H, D>>>,
) -> bool {
    outcome matches Some(Err(failure)) && failure.resources is Some
}

/// Of some cleanups the last one that failed and holds something still says what the session has
/// afterwards; where there is none, the session has what it had.
pub proof fn law_last_failed_cleanup_gives_back<M, C, I, H, D, T>(
    session: PortablePtySession<M, C, I, H, D, T>,
    outcomes: Seq<Option<Result<(), PtyCleanupFailure<M, C, I, H, D>>>>,
    i: int,
)
    ensures
        (forall|j: int| 0 <= j < outcomes.len() ==> !holds_resources(#[trigger] outcomes[j]))
            ==> session.after_outcomes(outcomes) == (
            session.master,
            session.child,
            session.workers,
        ),
        0 <= i < outcomes.len() && holds_resources(outcomes[i]) && (forall|j: int|
            i < j < outcomes.len() ==> !holds_resources(#[trigger] outcomes[j])) ==> {
            let resources = ((outcomes[i]->0)->Err_0.resources)->0;
            session.after_outcomes(outcomes) == (
                resources.master,
                resources.child,
                resources.recoverable_workers(),
            )
        },
    decreases outcomes.len(),
{
    if outcomes.len() > 0 {
        let rest = outcomes.drop_last();
        law_last_failed_cleanup_gives_back(session, rest, i);
        assert(forall|j: int| 0 <= j < rest.len() ==> #[trigger] rest[j] == outcomes[j]);
        assert(outcomes.last() == outcomes[outcomes.len() - 1]);
    }
}

} // verus!
