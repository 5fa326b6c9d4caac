//! The engines, one state machine per command type.

pub mod cs_engine;
pub mod kernel_engine;
pub mod mem_engine;
