//! The command pipeline: frontend, decode and dispatch, engines, completion
//! ring, and the orchestrator that steps them in a fixed order.

pub mod completion;
pub mod decode_dispatch;
pub mod engine;
pub mod engines;
pub mod frontend;
pub mod glug;
pub mod model;
pub mod stream;
