//! Values that the terminal, its windows and its PTY sessions exchange.

pub mod command_button;
pub mod command_panel;
pub mod event;
pub mod font;
pub mod geometry;
pub mod layout;
pub mod panel_laws;
pub mod rows;
pub mod startup;
pub mod terminal;
