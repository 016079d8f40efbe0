//! What is painted, and where.

pub mod brushes;
pub mod encoding;
pub mod geometry;
pub mod paint;
pub mod paint_laws;
