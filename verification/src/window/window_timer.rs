//! How often a window with a timer of its own looks for terminal events: it
//! adapts in two steps.

use vstd::prelude::*;

use crate::error::AppResult;

verus! {

/// Milliseconds between two looks while something happens.
pub const PTY_ACTIVE_TIMER_MS: u32 = 33;

/// Milliseconds between two looks while nothing happens.
pub const PTY_IDLE_TIMER_MS: u32 = 100;

/// Looks in vain after which it looks less often.
pub const PTY_IDLE_TIMER_BACKOFF_TICKS: u8 = 10;

/// Milliseconds between two looks while nothing happens for long.
pub const PTY_SUSTAINED_IDLE_TIMER_MS: u32 = 250;

/// Looks in vain after which it looks less often still.
pub const PTY_SUSTAINED_IDLE_TIMER_BACKOFF_TICKS: u8 = 20;

/// A window's timer.
#[derive(Clone, Copy, Debug, PartialEq, Eq, Structural)]
pub struct WindowRuntimeState {
    pub timer_active: bool,
    pub timer_interval_ms: u32,
    pub idle_pty_drain_ticks: u8,
}

/// What is to be done with the timer.
#[derive(Clone, Copy, Debug, PartialEq, Eq, Structural)]
pub enum TimerAction {
    Keep,
    /// Set it to so many milliseconds.
    SetTo(u32),
    Kill,
}

/// The time between two looks after so many in vain.
pub open spec fn interval_after(idle_ticks: int) -> u32 {
    if idle_ticks >= PTY_SUSTAINED_IDLE_TIMER_BACKOFF_TICKS {
        PTY_SUSTAINED_IDLE_TIMER_MS
    } else if idle_ticks >= PTY_IDLE_TIMER_BACKOFF_TICKS {
        PTY_IDLE_TIMER_MS
    } else {
        PTY_ACTIVE_TIMER_MS
    }
}

/// How many looks in vain there were, as far as they are counted.
pub open spec fn ticks_after(ticks: u8, had_events: bool) -> u8 {
    if had_events {
        0
    } else if ticks == u8::MAX {
        u8::MAX
    } else {
        (ticks + 1) as u8
    }
}

impl Default for WindowRuntimeState {
    fn default() -> (state: Self)
        ensures
            state == (WindowRuntimeState {
                timer_active: false,
                timer_interval_ms: PTY_ACTIVE_TIMER_MS,
                idle_pty_drain_ticks: 0,
            }),
    {
        WindowRuntimeState::new()
    }
}

impl WindowRuntimeState {
    pub fn new() -> (state: Self)
        ensures
            state == (WindowRuntimeState {
                timer_active: false,
                timer_interval_ms: PTY_ACTIVE_TIMER_MS,
                idle_pty_drain_ticks: 0,
            }),
    {
        WindowRuntimeState {
            timer_active: false,
            timer_interval_ms: PTY_ACTIVE_TIMER_MS,
            idle_pty_drain_ticks: 0,
        }
    }

    /// Starts the timer unless it runs.
    pub fn start_timer(&mut self) -> (action: TimerAction)
        ensures
            action == (if old(self).timer_active {
                TimerAction::Keep
            } else {
                TimerAction::SetTo(PTY_ACTIVE_TIMER_MS)
            }),
            *final(self) == (if old(self).timer_active {
                *old(self)
            } else {
                WindowRuntimeState { idle_pty_drain_ticks: 0, ..*old(self) }
            }),
    {
        if self.timer_active {
            return TimerAction::Keep;
        }
        self.idle_pty_drain_ticks = 0;
        TimerAction::SetTo(PTY_ACTIVE_TIMER_MS)
    }

    /// Stops the timer if it runs; it counts as stopped whatever the system
    /// says.
    pub fn stop_timer(&mut self) -> (action: TimerAction)
        ensures
            action == (if old(self).timer_active {
                TimerAction::Kill
            } else {
                TimerAction::Keep
            }),
            *final(self) == (if old(self).timer_active {
                WindowRuntimeState {
                    timer_active: false,
                    timer_interval_ms: PTY_ACTIVE_TIMER_MS,
                    idle_pty_drain_ticks: 0,
                }
            } else {
                *old(self)
            }),
    {
        if !self.timer_active {
            return TimerAction::Keep;
        }
        self.timer_active = false;
        self.timer_interval_ms = PTY_ACTIVE_TIMER_MS;
        self.idle_pty_drain_ticks = 0;
        TimerAction::Kill
    }

    /// The milliseconds until the next look.
    pub fn desired_pty_timer_interval_after_drain(&mut self, had_events: bool) -> (interval_ms: u32)
        ensures
            interval_ms == interval_after(final(self).idle_pty_drain_ticks as int),
            *final(self) == (WindowRuntimeState {
                idle_pty_drain_ticks: ticks_after(old(self).idle_pty_drain_ticks, had_events),
                ..*old(self)
            }),
    {
        if had_events {
            self.idle_pty_drain_ticks = 0;
            return PTY_ACTIVE_TIMER_MS;
        }
        self.idle_pty_drain_ticks = self.idle_pty_drain_ticks.saturating_add(1);
        if self.idle_pty_drain_ticks >= PTY_SUSTAINED_IDLE_TIMER_BACKOFF_TICKS {
            PTY_SUSTAINED_IDLE_TIMER_MS
        } else if self.idle_pty_drain_ticks >= PTY_IDLE_TIMER_BACKOFF_TICKS {
            PTY_IDLE_TIMER_MS
        } else {
            PTY_ACTIVE_TIMER_MS
        }
    }

    /// What is to be done with the timer after a look.
    pub fn update_pty_timer_after_drain(&mut self, had_events: bool) -> (action: TimerAction)
        ensures
            *final(self) == (WindowRuntimeState {
                idle_pty_drain_ticks: ticks_after(old(self).idle_pty_drain_ticks, had_events),
                ..*old(self)
            }),
            action == (if !old(self).timer_active || old(self).timer_interval_ms == interval_after(
                final(self).idle_pty_drain_ticks as int,
            ) {
                TimerAction::Keep
            } else {
                TimerAction::SetTo(interval_after(final(self).idle_pty_drain_ticks as int))
            }),
    {
        let interval_ms = self.desired_pty_timer_interval_after_drain(had_events);
        if !self.timer_active || self.timer_interval_ms == interval_ms {
            return TimerAction::Keep;
        }
        TimerAction::SetTo(interval_ms)
    }

    /// Takes note of whether the timer could be set.
    pub fn timer_set(&mut self, interval_ms: u32, set: AppResult<()>) -> (result: AppResult<()>)
        ensures
            result == set,
            *final(self) == (if set is Ok {
                WindowRuntimeState {
                    timer_active: true,
                    timer_interval_ms: interval_ms,
                    ..*old(self)
                }
            } else {
                *old(self)
            }),
    {
        if set.is_ok() {
            self.timer_active = true;
            self.timer_interval_ms = interval_ms;
        }
        set
    }
}

/// `count` looks in vain, one after the other.
pub open spec fn after_idle_ticks(ticks: u8, count: nat) -> u8
    decreases count,
{
    if count == 0 {
        ticks
    } else {
        ticks_after(after_idle_ticks(ticks, (count - 1) as nat), false)
    }
}

/// The timer slows down in two steps while nothing happens, stays slow, and is
/// quick again as soon as something does.
pub proof fn law_timer_slows_down_in_two_steps(count: nat)
    ensures
        after_idle_ticks(0, count) == (if count > u8::MAX {
            u8::MAX as nat
        } else {
            count
        }),
        interval_after(after_idle_ticks(0, count) as int) == (if count >= 20 {
            250u32
        } else if count >= 10 {
            100u32
        } else {
            33u32
        }),
        interval_after(ticks_after(after_idle_ticks(0, count), true) as int) == 33u32,
    decreases count,
{
    if count > 0 {
        law_timer_slows_down_in_two_steps((count - 1) as nat);
    }
}

} // verus!
