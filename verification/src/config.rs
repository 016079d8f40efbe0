//! The settings file: what it holds, where it is and how it is written.

pub mod disk;
pub mod file;
pub mod partial;
pub mod store;
pub mod write;
