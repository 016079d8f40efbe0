//! Saving the command panel in the background.
//!
//! `R` is the receiving side of a save worker's result.

use vstd::prelude::*;

use crate::error::{AppError, AppResult};
use crate::pty::cleanup::ChannelPoll;

verus! {

/// Milliseconds between a change and its save.
pub const COMMAND_PANEL_SAVE_DEBOUNCE_MS: u64 = 250;

/// Milliseconds between two looks for a save's result.
pub const COMMAND_PANEL_SAVE_RESULT_POLL_MS: u64 = 16;

/// What is said where a save keeps a window from closing.
pub const STILL_SAVING_MESSAGE: &'static str = "command panel settings save is still running; try closing again";

/// Milliseconds that a window waits for a save before it closes.
pub const COMMAND_PANEL_SAVE_SHUTDOWN_WAIT_MS: u64 = 500;

/// A save under way.
pub struct CommandPanelSaveTask<R> {
    pub generation: u64,
    pub receiver: R,
}

/// What a look for a save's result found.
pub enum CommandPanelSavePoll {
    Pending,
    Finished(AppResult<()>),
    /// This save is not under way any more.
    Missing,
}

/// What waiting for a save before closing gave.
pub enum CommandPanelSaveShutdownWait<R> {
    Finished { generation: u64, result: AppResult<()> },
    Delayed(CommandPanelSaveTask<R>),
}

/// Whether a window may close, as far as saving goes.
#[derive(Clone, Copy, Debug, PartialEq, Eq, Structural)]
pub enum CommandPanelShutdownSave {
    Complete,
    Delayed,
}

/// What a wait for a result gave.
pub enum ResultWait<T> {
    Value(T),
    TimedOut,
    Disconnected,
}

impl<R> CommandPanelSaveTask<R> {
    /// Decides on the wait for this save: a save that is not done in time is
    /// kept.
    pub fn wait_before_shutdown(self, waited: ResultWait<AppResult<()>>) -> (wait: AppResult<
        CommandPanelSaveShutdownWait<R>,
    >)
        ensures
            waited matches ResultWait::Value(result) ==> wait == Ok::<_, AppError>(
                CommandPanelSaveShutdownWait::<R>::Finished { generation: self.generation, result },
            ),
            waited is TimedOut ==> wait == Ok::<_, AppError>(
                CommandPanelSaveShutdownWait::Delayed(self),
            ),
            waited is Disconnected ==> wait == Err::<CommandPanelSaveShutdownWait<R>, AppError>(
                AppError::InvalidState("command panel save worker stopped before shutdown"),
            ),
    {
        match waited {
            ResultWait::Value(result) => Ok(
                CommandPanelSaveShutdownWait::Finished { generation: self.generation, result },
            ),
            ResultWait::TimedOut => Ok(CommandPanelSaveShutdownWait::Delayed(self)),
            ResultWait::Disconnected => Err(
                AppError::InvalidState("command panel save worker stopped before shutdown"),
            ),
        }
    }
}

/// Which save is due, and which is under way.
pub struct CommandPanelSaveState<R> {
    pub generation: u64,
    pub pending: bool,
    pub in_progress: Option<CommandPanelSaveTask<R>>,
}

impl<R> CommandPanelSaveState<R> {
    pub fn new() -> (state: Self)
        ensures
            state.generation == 0,
            !state.pending,
            state.in_progress is None,
    {
        CommandPanelSaveState { generation: 0, pending: false, in_progress: None }
    }

    pub open spec fn current(&self, generation: u64) -> bool {
        self.pending && self.generation == generation
    }

    /// A change is to be saved; only the newest request counts.
    pub fn schedule_next(&mut self) -> (generation: u64)
        ensures
            final(self).pending,
            generation == final(self).generation,
            final(self).generation == (if old(self).generation == u64::MAX {
                u64::MAX
            } else {
                (old(self).generation + 1) as u64
            }),
            final(self).in_progress == old(self).in_progress,
    {
        self.pending = true;
        self.generation = self.generation.saturating_add(1);
        self.generation
    }

    /// Whether a request is the newest one and still due.
    pub fn is_current(&self, generation: u64) -> (current: bool)
        ensures
            current == self.current(generation),
    {
        self.pending && self.generation == generation
    }

    /// Nothing is due any more, unless a newer request came.
    pub fn mark_saved(&mut self, generation: u64)
        ensures
            *final(self) == (CommandPanelSaveState {
                pending: old(self).pending && old(self).generation != generation,
                ..*old(self)
            }),
    {
        if self.generation == generation {
            self.pending = false;
        }
    }

    /// A worker saves the newest request; refused where it is not the newest
    /// or another save is under way.
    pub fn mark_save_started(&mut self, generation: u64, receiver: R) -> (started: bool)
        ensures
            started == (old(self).current(generation) && old(self).in_progress is None),
            !started ==> *final(self) == *old(self),
            started ==> *final(self) == (CommandPanelSaveState {
                generation: old(self).generation,
                pending: false,
                in_progress: Some(CommandPanelSaveTask { generation, receiver }),
            }),
    {
        if !self.is_current(generation) || self.in_progress.is_some() {
            return false;
        }
        self.pending = false;
        self.in_progress = Some(CommandPanelSaveTask { generation, receiver });
        true
    }

    /// The save under way, if it is this one.
    pub open spec fn runs(&self, generation: u64) -> bool {
        self.in_progress matches Some(task) && task.generation == generation
    }

    /// No worker could be started.
    pub fn clear_save_in_progress(&mut self, generation: u64)
        ensures
            old(self).runs(generation) ==> *final(self) == (CommandPanelSaveState {
                in_progress: None,
                ..*old(self)
            }),
            !old(self).runs(generation) ==> *final(self) == *old(self),
    {
        let is_this = match &self.in_progress {
            Some(task) => task.generation == generation,
            None => false,
        };
        if is_this {
            self.in_progress = None;
        }
    }

    /// Takes what a look into the worker's channel gave.
    pub fn poll_save_result(&mut self, generation: u64, received: ChannelPoll<AppResult<()>>) -> (poll:
        CommandPanelSavePoll)
        ensures
            !old(self).runs(generation) ==> poll is Missing && *final(self) == *old(self),
            old(self).runs(generation) && received is Empty ==> poll is Pending && *final(self)
                == *old(self),
            old(self).runs(generation) && !(received is Empty) ==> {
                &&& poll == CommandPanelSavePoll::Finished(
                    match received {
                        ChannelPoll::Value(result) => result,
                        _ => Err(AppError::InvalidState("command panel save worker stopped")),
                    },
                )
                &&& *final(self) == (CommandPanelSaveState {
                    generation: old(self).generation,
                    pending: old(self).pending && old(self).generation != generation,
                    in_progress: None::<CommandPanelSaveTask<R>>,
                })
            },
    {
        let is_this = match &self.in_progress {
            Some(task) => task.generation == generation,
            None => false,
        };
        if !is_this {
            return CommandPanelSavePoll::Missing;
        }
        match received {
            ChannelPoll::Value(result) => {
                self.in_progress = None;
                self.mark_saved(generation);
                CommandPanelSavePoll::Finished(result)
            },
            ChannelPoll::Empty => CommandPanelSavePoll::Pending,
            ChannelPoll::Disconnected => {
                self.in_progress = None;
                self.mark_saved(generation);
                CommandPanelSavePoll::Finished(
                    Err(AppError::InvalidState("command panel save worker stopped")),
                )
            },
        }
    }

    pub fn take_save_in_progress(&mut self) -> (task: Option<CommandPanelSaveTask<R>>)
        ensures
            task == old(self).in_progress,
            *final(self) == (CommandPanelSaveState { in_progress: None, ..*old(self) }),
    {
        self.in_progress.take()
    }

    pub fn restore_save_in_progress(&mut self, task: CommandPanelSaveTask<R>)
        ensures
            *final(self) == (CommandPanelSaveState {
                in_progress: if old(self).in_progress is None {
                    Some(task)
                } else {
                    old(self).in_progress
                },
                ..*old(self)
            }),
    {
        if self.in_progress.is_none() {
            self.in_progress = Some(task);
        }
    }

    pub fn has_pending_save(&self) -> (pending: bool)
        ensures
            pending == self.pending,
    {
        self.pending
    }

    pub fn save_in_progress(&self) -> (running: bool)
        ensures
            running == (self.in_progress is Some),
    {
        self.in_progress.is_some()
    }

    /// Whether a request that came due is to be handed to a worker now.
    pub fn flush_due(&self, generation: u64) -> (due: bool)
        ensures
            due == (self.current(generation) && self.in_progress is None),
    {
        self.is_current(generation) && !self.save_in_progress()
    }

    /// What follows the end of a save: whether the panel is saved as it is,
    /// whether to save again, and the error to report.
    pub fn after_save(&self, result: AppResult<()>) -> (next: (bool, bool, Option<AppError>))
        ensures
            next.0 == (result is Ok && !self.pending),
            next.1 == self.pending,
            next.2 == (match result {
                Ok(()) => None,
                Err(error) => Some(error),
            }),
    {
        let pending = self.has_pending_save();
        match result {
            Ok(()) => (!pending, pending, None),
            Err(error) => (false, pending, Some(error)),
        }
    }

    /// Takes what waiting for the save under way gave, before the window
    /// closes. Says whether it may close, and whether the panel is saved as
    /// it is; a failed save keeps it open.
    pub fn finish_before_shutdown(&mut self, wait: CommandPanelSaveShutdownWait<R>) -> (finished:
        AppResult<(CommandPanelShutdownSave, bool)>)
        requires
            old(self).in_progress is None,
        ensures
            wait matches CommandPanelSaveShutdownWait::Delayed(task) ==> {
                &&& finished == Ok::<_, AppError>((CommandPanelShutdownSave::Delayed, false))
                &&& *final(self) == (CommandPanelSaveState {
                    in_progress: Some(task),
                    ..*old(self)
                })
            },
            wait matches CommandPanelSaveShutdownWait::Finished { generation, result } ==> (
            match result {
                Err(error) => finished == Err::<(CommandPanelShutdownSave, bool), AppError>(error)
                    && *final(self) == *old(self),
                Ok(()) => {
                    &&& *final(self) == (CommandPanelSaveState {
                        pending: old(self).pending && old(self).generation != generation,
                        ..*old(self)
                    })
                    &&& finished == Ok::<_, AppError>(
                        (CommandPanelShutdownSave::Complete, !final(self).pending),
                    )
                },
            }),
    {
        match wait {
            CommandPanelSaveShutdownWait::Delayed(task) => {
                self.restore_save_in_progress(task);
                Ok((CommandPanelShutdownSave::Delayed, false))
            },
            CommandPanelSaveShutdownWait::Finished { generation, result } => {
                match result {
                    Err(error) => Err(error),
                    Ok(()) => {
                        self.mark_saved(generation);
                        Ok((CommandPanelShutdownSave::Complete, !self.has_pending_save()))
                    },
                }
            },
        }
    }
}

/// Whether a window that is asked to close goes on to shut its session down:
/// not while its settings are not saved.
pub fn close_requested(saved: AppResult<CommandPanelShutdownSave>) -> (result: AppResult<()>)
    ensures
        result == (match saved {
            Ok(CommandPanelShutdownSave::Complete) => Ok::<(), AppError>(()),
            Ok(CommandPanelShutdownSave::Delayed) => Err(
                AppError::InvalidState(STILL_SAVING_MESSAGE),
            ),
            Err(error) => Err(error),
        }),
{
    match saved {
        Ok(CommandPanelShutdownSave::Complete) => Ok(()),
        Ok(CommandPanelShutdownSave::Delayed) => Err(AppError::InvalidState(STILL_SAVING_MESSAGE)),
        Err(error) => Err(error),
    }
}

/// A newer request makes an earlier one count no more, as long as the count
/// of requests can grow.
pub proof fn law_newer_request_replaces_older<R>(
    before: CommandPanelSaveState<R>,
    after: CommandPanelSaveState<R>,
    older: u64,
)
    requires
        before.current(older),
        before.generation < u64::MAX,
        after.pending,
        after.generation == before.generation + 1,
    ensures
        !after.current(older),
        after.current(after.generation),
{
}

} // verus!
