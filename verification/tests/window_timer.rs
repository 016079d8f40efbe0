//! The timer of a window that looks for terminal output.

use j3term::error::AppError;
use j3term::window::window_timer::{
    TimerAction, WindowRuntimeState, PTY_ACTIVE_TIMER_MS, PTY_IDLE_TIMER_BACKOFF_TICKS,
    PTY_IDLE_TIMER_MS, PTY_SUSTAINED_IDLE_TIMER_BACKOFF_TICKS, PTY_SUSTAINED_IDLE_TIMER_MS,
};

#[test]
fn pty_timer_interval_slows_after_repeated_idle_drains() {
    let mut runtime = WindowRuntimeState::default();

    for _ in 1..PTY_IDLE_TIMER_BACKOFF_TICKS {
        assert_eq!(
            runtime.desired_pty_timer_interval_after_drain(false),
            PTY_ACTIVE_TIMER_MS
        );
    }

    assert_eq!(
        runtime.desired_pty_timer_interval_after_drain(false),
        PTY_IDLE_TIMER_MS
    );
    let idle_ticks_before_sustained =
        PTY_SUSTAINED_IDLE_TIMER_BACKOFF_TICKS - PTY_IDLE_TIMER_BACKOFF_TICKS - 1;
    for _ in 0..idle_ticks_before_sustained {
        assert_eq!(
            runtime.desired_pty_timer_interval_after_drain(false),
            PTY_IDLE_TIMER_MS
        );
    }
    assert_eq!(
        runtime.desired_pty_timer_interval_after_drain(false),
        PTY_SUSTAINED_IDLE_TIMER_MS
    );
    assert_eq!(
        runtime.desired_pty_timer_interval_after_drain(false),
        PTY_SUSTAINED_IDLE_TIMER_MS
    );
}

#[test]
fn pty_timer_interval_returns_to_active_after_event() {
    let mut runtime = WindowRuntimeState::default();

    for _ in 0..PTY_SUSTAINED_IDLE_TIMER_BACKOFF_TICKS {
        runtime.desired_pty_timer_interval_after_drain(false);
    }

    assert_eq!(
        runtime.desired_pty_timer_interval_after_drain(true),
        PTY_ACTIVE_TIMER_MS
    );
    assert_eq!(
        runtime.desired_pty_timer_interval_after_drain(false),
        PTY_ACTIVE_TIMER_MS
    );
}

#[test]
fn timer_is_set_once_and_killed_once() {
    let mut runtime = WindowRuntimeState::new();

    assert_eq!(runtime.start_timer(), TimerAction::SetTo(PTY_ACTIVE_TIMER_MS));
    assert_eq!(runtime.timer_set(PTY_ACTIVE_TIMER_MS, Ok(())), Ok(()));
    assert_eq!(runtime.start_timer(), TimerAction::Keep);
    assert_eq!(runtime.stop_timer(), TimerAction::Kill);
    assert_eq!(runtime.stop_timer(), TimerAction::Keep);
}

#[test]
fn timer_that_cannot_be_set_stays_as_it_was() {
    let mut runtime = WindowRuntimeState::new();
    runtime.start_timer();

    assert!(runtime.timer_set(PTY_ACTIVE_TIMER_MS, Err(AppError::InvalidState("full"))).is_err());
    assert!(!runtime.timer_active);
}

#[test]
fn timer_slows_down_while_nothing_comes() {
    let mut runtime = WindowRuntimeState::new();
    runtime.start_timer();
    runtime.timer_set(PTY_ACTIVE_TIMER_MS, Ok(())).unwrap();

    for _ in 1..PTY_IDLE_TIMER_BACKOFF_TICKS {
        assert_eq!(runtime.update_pty_timer_after_drain(false), TimerAction::Keep);
    }
    assert_eq!(
        runtime.update_pty_timer_after_drain(false),
        TimerAction::SetTo(PTY_IDLE_TIMER_MS)
    );
    runtime.timer_set(PTY_IDLE_TIMER_MS, Ok(())).unwrap();
    assert_eq!(
        runtime.update_pty_timer_after_drain(true),
        TimerAction::SetTo(PTY_ACTIVE_TIMER_MS)
    );
}
