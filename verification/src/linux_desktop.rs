//! The application's entry in a Linux desktop: its desktop file and its icons.

pub mod entry;
pub mod files;
pub mod install;
pub mod run;
