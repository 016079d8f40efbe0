//! What windows decide: timers, saving, pointers, keys and drawing.

pub mod arguments;
pub mod drawing;
pub mod drawing_laws;
pub mod failure;
pub mod grid;
pub mod invalidation;
pub mod keys;
pub mod menus;
pub mod panel_session;
pub mod panel_view;
pub mod pointer;
pub mod relayout;
pub mod resize;
pub mod save;
pub mod scroll;
pub mod surface;
pub mod text_cache;
pub mod timers;
pub mod view;
pub mod widgets;
pub mod window_timer;
