//! Frontend: the FIFO of raw commands that wait to be decoded.

use crate::common::base::{Command, Configurable};
use crate::common::queue::Queue;
use vstd::prelude::*;

verus! {

#[derive(Debug, Clone, Copy)]
pub struct FrontendConfig {
    pub command_queue_size: usize,
}

impl Default for FrontendConfig {
    fn default() -> (c: Self)
        ensures
            c.command_queue_size == 4,
    {
        FrontendConfig { command_queue_size: 4 }
    }
}

pub struct Frontend {
    pub command_queue: Queue<Command>,
}

impl Configurable<FrontendConfig> for Frontend {
    open spec fn config_ok(config: FrontendConfig) -> bool {
        true
    }

    fn new(config: FrontendConfig) -> (f: Self)
        ensures
            f.command_queue@ == Seq::<Command>::empty(),
            f.command_queue.capacity() == config.command_queue_size,
    {
        Frontend { command_queue: Queue::new(config.command_queue_size) }
    }
}

} // verus!
