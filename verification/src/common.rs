//! Primitives shared by every component.

pub mod base;
pub mod bytes;
pub mod grid;
pub mod queue;
