//! How often a window looks for terminal events.

use vstd::prelude::*;

verus! {

/// Milliseconds between two looks while something happens.
pub const PTY_ACTIVE_TIMER_MS: u64 = 33;

/// Milliseconds between two looks while nothing happens for long.
pub const PTY_IDLE_TIMER_MS: u64 = 250;

/// Empty looks after which a window looks less often.
pub const PTY_IDLE_BACKOFF_AFTER_EMPTY_DRAINS: u8 = 3;

/// What a look for terminal events found.
#[derive(Clone, Debug, PartialEq, Eq)]
pub struct TerminalTimerDrain {
    pub had_events: bool,
    pub needs_active_poll: bool,
    pub active_tab_dirty: bool,
    pub failure_cause: Option<String>,
}

/// A timer that can be set anew: only the newest setting counts.
#[derive(Clone, Copy, Debug, PartialEq, Eq, Structural)]
pub struct PtyDrainTimerState {
    pub generation: u64,
    pub empty_drain_count: u8,
}

impl Default for PtyDrainTimerState {
    fn default() -> (timer: Self)
        ensures
            timer == (PtyDrainTimerState { generation: 0, empty_drain_count: 0 }),
    {
        PtyDrainTimerState { generation: 0, empty_drain_count: 0 }
    }
}

impl PtyDrainTimerState {
    /// Sets the timer; what fires it must present the generation.
    pub fn schedule_next(&mut self) -> (generation: u64)
        ensures
            generation == final(self).generation,
            final(self).generation == (if old(self).generation == u64::MAX {
                u64::MAX
            } else {
                (old(self).generation + 1) as u64
            }),
            final(self).empty_drain_count == old(self).empty_drain_count,
    {
        self.generation = self.generation.saturating_add(1);
        self.generation
    }

    /// Whether a firing belongs to the newest setting.
    pub fn is_current(&self, generation: u64) -> (current: bool)
        ensures
            current == (self.generation == generation),
    {
        self.generation == generation
    }

    pub fn record_activity(&mut self)
        ensures
            *final(self) == (PtyDrainTimerState { empty_drain_count: 0, ..*old(self) }),
    {
        self.empty_drain_count = 0;
    }

    /// The timer after a look, `None` where it failed, and the time until the
    /// next one.
    pub open spec fn after_drain(self, active: Option<bool>) -> (Self, u64) {
        if active == Some(false) {
            let count: u8 = if self.empty_drain_count == u8::MAX {
                u8::MAX
            } else {
                (self.empty_drain_count + 1) as u8
            };
            (
                PtyDrainTimerState { empty_drain_count: count, ..self },
                if count >= PTY_IDLE_BACKOFF_AFTER_EMPTY_DRAINS {
                    PTY_IDLE_TIMER_MS
                } else {
                    PTY_ACTIVE_TIMER_MS
                },
            )
        } else {
            (PtyDrainTimerState { empty_drain_count: 0, ..self }, PTY_ACTIVE_TIMER_MS)
        }
    }

    /// The milliseconds until the next look.
    pub fn interval_after_drain(&mut self, drain: Option<&TerminalTimerDrain>) -> (interval_ms: u64)
        ensures
            (*final(self), interval_ms) == old(self).after_drain(
                match drain {
                    Some(found) => Some(found.had_events || found.needs_active_poll),
                    None => None,
                },
            ),
    {
        match drain {
            Some(found) => {
                if found.had_events || found.needs_active_poll {
                    self.empty_drain_count = 0;
                    PTY_ACTIVE_TIMER_MS
                } else {
                    self.empty_drain_count = self.empty_drain_count.saturating_add(1);
                    if self.empty_drain_count >= PTY_IDLE_BACKOFF_AFTER_EMPTY_DRAINS {
                        PTY_IDLE_TIMER_MS
                    } else {
                        PTY_ACTIVE_TIMER_MS
                    }
                }
            },
            None => {
                self.empty_drain_count = 0;
                PTY_ACTIVE_TIMER_MS
            },
        }
    }
}

/// `count` empty looks, one after the other.
pub open spec fn after_empty_drains(timer: PtyDrainTimerState, count: nat) -> PtyDrainTimerState
    decreases count,
{
    if count == 0 {
        timer
    } else {
        after_empty_drains(timer, (count - 1) as nat).after_drain(Some(false)).0
    }
}

/// A timer backs off after three empty looks and stays so until something
/// happens; then it is quick again at once.
pub proof fn law_timer_backs_off_and_resets(timer: PtyDrainTimerState, count: nat)
    requires
        timer.empty_drain_count == 0,
    ensures
        ({
            let idle = after_empty_drains(timer, count);
            &&& idle.empty_drain_count == (if count > u8::MAX {
                u8::MAX as nat
            } else {
                count
            })
            &&& idle.after_drain(Some(false)).1 == (if count + 1
                >= PTY_IDLE_BACKOFF_AFTER_EMPTY_DRAINS {
                PTY_IDLE_TIMER_MS
            } else {
                PTY_ACTIVE_TIMER_MS
            })
            &&& idle.after_drain(Some(false)).1 == (if count >= 2 {
                250u64
            } else {
                33u64
            })
            &&& idle.after_drain(Some(true)).1 == 33
            &&& idle.after_drain(None).1 == 33
            &&& idle.after_drain(None).0.empty_drain_count == 0
            &&& idle.generation == timer.generation
            &&& idle.after_drain(Some(true)).1 == PTY_ACTIVE_TIMER_MS
            &&& idle.after_drain(Some(true)).0.empty_drain_count == 0
        }),
    decreases count,
{
    if count > 0 {
        law_timer_backs_off_and_resets(timer, (count - 1) as nat);
    }
}

} // verus!
