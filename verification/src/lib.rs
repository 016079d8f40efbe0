//! Verified core of the j3Term desktop terminal.

pub mod config;
pub mod distribution;
pub mod domain;
pub mod emulator;
pub mod error;
pub mod linux_desktop;
pub mod num;
pub mod paths;
pub mod pty;
pub mod renderer;
pub mod terminal;
pub mod text;
pub mod window;
