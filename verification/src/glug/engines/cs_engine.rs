//! Control/status engine: reserved for later use; always idle, it drives no
//! substrate.

use crate::common::base::{Clocked, CmdType, Configurable, DMAReq, Event, MemReq, SimErr};
use crate::glug::engine::EngineCommand;
use crate::glul::glul::{GLULReq, GLULStatus};
use vstd::prelude::*;

verus! {

#[derive(Debug, Default, Clone, Copy)]
pub struct CSEngineConfig {}

pub struct CSEngine {}

impl CSEngine {
    /// The command is accepted and nothing is done with it.
    pub fn set_cmd(&mut self, _cmd: EngineCommand, _completion_idx: usize)
        ensures
            *final(self) == *old(self),
    {
    }

    pub fn busy(&self) -> (b: bool)
        ensures
            !b,
    {
        false
    }

    pub fn cmd_type(&self) -> (t: CmdType)
        ensures
            t == CmdType::CSR,
    {
        CmdType::CSR
    }

    pub fn get_dma_req(&self) -> (r: Option<&DMAReq>)
        ensures
            r is None,
    {
        None
    }

    pub fn get_mem_req(&self) -> (r: Option<&MemReq>)
        ensures
            r is None,
    {
        None
    }

    pub fn get_glul_req(&self) -> (r: Option<&GLULReq>)
        ensures
            r is None,
    {
        None
    }

    pub fn set_gluls(&mut self, _gluls: Vec<GLULStatus>)
        ensures
            *final(self) == *old(self),
    {
    }

    pub fn get_completion(&self) -> (r: Option<(Event, usize)>)
        ensures
            r is None,
    {
        None
    }
}

impl Configurable<CSEngineConfig> for CSEngine {
    open spec fn config_ok(config: CSEngineConfig) -> bool {
        true
    }

    fn new(_config: CSEngineConfig) -> Self {
        CSEngine {  }
    }
}

impl Clocked for CSEngine {
    open spec fn clock_wf(&self) -> bool {
        true
    }

    fn tick(&mut self) -> (r: Result<(), SimErr>)
        ensures
            r is Ok,
            *final(self) == *old(self),
    {
        Ok(())
    }

    fn busy(&mut self) -> (b: bool)
        ensures
            !b,
    {
        false
    }
}

} // verus!
