//! The top level: the orchestrator under a cycle counter with an optional
//! budget.

use crate::common::base::{Command, Configurable, Event, SimErr};
use crate::glug::glug::{initial, valid_command, GLUGConfig, TickResult, TickWork, GLUG};
use crate::glug::completion::CompletionConfig;
use crate::glug::decode_dispatch::DecodeDispatchConfig;
use crate::glug::engine::EngineConfig;
use crate::glug::engines::cs_engine::CSEngineConfig;
use crate::glug::engines::kernel_engine::KernelEngineConfig;
use crate::glug::engines::mem_engine::MemEngineConfig;
use crate::glug::frontend::FrontendConfig;
use crate::glug::model::GLUGModel;
use vstd::prelude::*;

verus! {

#[derive(Debug, Clone, Copy)]
pub struct SimConfig {
    /// The cycle budget; 0 means none.
    pub timeout_cycles: u64,
}

impl Default for SimConfig {
    fn default() -> (c: Self)
        ensures
            c.timeout_cycles == 0,
    {
        SimConfig { timeout_cycles: 0 }
    }
}

#[derive(Debug, Default, Clone)]
pub struct TopConfig {
    pub sim: SimConfig,
    pub glug: GLUGConfig,
}

impl TopConfig {
    /// Puts the configuration together from the sections of a configuration
    /// file: the sections given on their own take the place of the sections
    /// of the same name inside `glug`, and the three engine sections take
    /// their places inside `engine`.
    pub fn assemble(
        sim: SimConfig,
        glug: GLUGConfig,
        frontend: FrontendConfig,
        decode_dispatch: DecodeDispatchConfig,
        completion: CompletionConfig,
        engine: EngineConfig,
        kernel_engine: KernelEngineConfig,
        mem_engine: MemEngineConfig,
        cs_engine: CSEngineConfig,
    ) -> (top: TopConfig)
        ensures
            top.sim == sim,
            top.glug.frontend == frontend,
            top.glug.decode_dispatch == decode_dispatch,
            top.glug.completion == completion,
            top.glug.engine == (EngineConfig {
                kernel_engine_config: kernel_engine,
                mem_engine_config: mem_engine,
                cs_engine_config: cs_engine,
                ..engine
            }),
            top.glug.gluls == glug.gluls,
            top.glug.gluon_log_level == glug.gluon_log_level,
            top.glug.muon_log_level == glug.muon_log_level,
    {
        let mut glug = glug;
        let mut engine = engine;
        engine.kernel_engine_config = kernel_engine;
        engine.mem_engine_config = mem_engine;
        engine.cs_engine_config = cs_engine;
        glug.frontend = frontend;
        glug.decode_dispatch = decode_dispatch;
        glug.engine = engine;
        glug.completion = completion;
        TopConfig { sim, glug }
    }
}

pub struct Top {
    glug: GLUG,
    cycles_elapsed: u64,
    cycles_timeout: u64,
}

impl Top {
    /// The orchestrator under the counter.
    pub closed spec fn glug(&self) -> GLUG {
        self.glug
    }

    /// The cycles counted so far; the count stops at the largest `u64`.
    pub closed spec fn elapsed(&self) -> u64 {
        self.cycles_elapsed
    }

    /// The cycle budget; 0 means none.
    pub closed spec fn timeout(&self) -> u64 {
        self.cycles_timeout
    }

    pub open spec fn wf(&self) -> bool {
        self.glug().wf()
    }

    /// The counter and the budget are as in `before`.
    pub open spec fn clock_kept(&self, before: &Top) -> bool {
        self.elapsed() == before.elapsed() && self.timeout() == before.timeout()
    }

    pub fn new(config: TopConfig) -> (top: Self)
        ensures
            top.wf(),
            top.glug()@ == initial(config.glug),
            top.glug().pending_ids() == Seq::<u8>::empty(),
            top.elapsed() == 0,
            top.timeout() == config.sim.timeout_cycles,
    {
        Top {
            glug: GLUG::new(config.glug),
            cycles_elapsed: 0,
            cycles_timeout: config.sim.timeout_cycles,
        }
    }

    /// Latches `command` for the frontend.
    pub fn submit_command(&mut self, command: Command)
        requires
            old(self).wf(),
            valid_command(command@),
        ensures
            final(self).wf(),
            final(self).clock_kept(old(self)),
            final(self).glug()@ == (GLUGModel { latch: Some(command@), ..old(self).glug()@ }),
            final(self).glug().pending_ids() == old(self).glug().pending_ids(),
    {
        self.glug.submit_command(command);
    }

    /// Pops the completion at the head of the ring, if it was written.
    /// Completions come out in the order in which their commands were
    /// released from the frontend.
    pub fn get_completion(&mut self) -> (event: Option<Event>)
        requires
            old(self).wf(),
            !old(self).glug()@.in_tick,
        ensures
            final(self).wf(),
            final(self).clock_kept(old(self)),
            final(self).glug()@ == old(self).glug()@.pop(),
            match event {
                Some(e) => old(self).glug()@.popped() == Some(e@)
                    && old(self).glug().pending_ids().len() > 0
                    && e@[0] == old(self).glug().pending_ids()[0]
                    && final(self).glug().pending_ids()
                        == old(self).glug().pending_ids().drop_first(),
                None => old(self).glug()@.popped() is None && final(self).glug().pending_ids()
                    == old(self).glug().pending_ids(),
            },
    {
        self.glug.get_completion()
    }

    pub fn cycles_elapsed(&self) -> (n: u64)
        ensures
            n == self.elapsed(),
    {
        self.cycles_elapsed
    }

    /// Whether a latched command waits to enter the frontend FIFO.
    pub fn busy(&self) -> (b: bool)
        ensures
            b == (self.glug()@.latch is Some),
    {
        self.glug.busy()
    }

    /// Runs the first half of a cycle of the orchestrator and says what the
    /// outside has to do before the cycle can end.
    pub fn begin_tick(&mut self) -> (work: TickWork)
        requires
            old(self).wf(),
            !old(self).glug()@.in_tick,
        ensures
            final(self).wf(),
            final(self).clock_kept(old(self)),
            final(self).glug()@ == old(self).glug()@.begin(),
            work@ == final(self).glug()@.work(),
            final(self).glug().pending_ids() == old(self).glug().pending_ids(),
    {
        self.glug.begin_tick()
    }

    /// Whether the budget is used up after `elapsed` cycles.
    pub open spec fn timed_out(timeout: u64, elapsed: u64) -> bool {
        timeout != 0 && elapsed >= timeout
    }

    /// Runs the second half of the cycle and counts the cycle; reports a
    /// timeout when the count has reached the budget.
    pub fn tick(&mut self, result: TickResult) -> (r: Result<(), SimErr>)
        requires
            old(self).wf(),
            old(self).glug()@.in_tick,
            result.gluls@.len() == old(self).glug()@.gluls.len(),
            old(self).glug()@.answered_by(result.data()),
        ensures
            final(self).wf(),
            final(self).glug()@ == old(self).glug()@.end(result.gluls@, result.data()),
            final(self).glug().pending_ids() == if old(self).glug()@.before_release(
                result.gluls@,
                result.data(),
            ).releases() {
                old(self).glug().pending_ids().push(
                    old(self).glug()@.before_release(result.gluls@, result.data()).queued[0][1],
                )
            } else {
                old(self).glug().pending_ids()
            },
            final(self).timeout() == old(self).timeout(),
            final(self).elapsed() == if old(self).elapsed() == u64::MAX {
                u64::MAX
            } else {
                (old(self).elapsed() + 1) as u64
            },
            r == if Top::timed_out(final(self).timeout(), final(self).elapsed()) {
                Err::<(), SimErr>(SimErr::TIMEOUT)
            } else {
                Ok(())
            },
    {
        let _ = self.glug.tick(result);
        self.cycles_elapsed = if self.cycles_elapsed == u64::MAX {
            u64::MAX
        } else {
            self.cycles_elapsed + 1
        };
        if self.cycles_timeout != 0 && self.cycles_elapsed >= self.cycles_timeout {
            Err(SimErr::TIMEOUT)
        } else {
            Ok(())
        }
    }
}

impl Configurable<TopConfig> for Top {
    open spec fn config_ok(config: TopConfig) -> bool {
        true
    }

    fn new(config: TopConfig) -> (top: Self)
        ensures
            top.wf(),
            top.glug()@ == initial(config.glug),
            top.elapsed() == 0,
            top.timeout() == config.sim.timeout_cycles,
    {
        Top::new(config)
    }
}

} // verus!
