//! Cycle-driven functional model of a small GPU-like accelerator: the command
//! pipeline, the engine state machines, the thread-block scheduler and the
//! cluster-side state machine that turns block batches into warps.

pub mod common;
pub mod glug;
pub mod glul;
pub mod host;
pub mod top;
