//! What every engine shares: the decoded command it works on, and the one
//! interface through which the orchestrator drives engines of any kind.

use crate::common::base::{
    Clocked, CmdType, Command, Configurable, DMAReq, Event, ExecErr, MemReq, MemReqView, SimErr,
    ThreadBlocksView,
};
use crate::glug::engines::cs_engine::{CSEngine, CSEngineConfig};
use crate::glug::engines::kernel_engine::{
    KernelEngine, KernelEngineConfig, KernelEngineState, KernelModel,
};
use crate::glug::engines::mem_engine::{MemCommand, MemEngine, MemEngineConfig, MemModel};
use crate::glul::glul::{GLULReq, GLULStatus};
use vstd::prelude::*;

verus! {

/// The engine-specific part of a command: its id and the 14 payload bytes.
#[derive(Debug, Clone, Copy)]
pub struct EngineCommand {
    id: u8,
    bytes: [u8; 14],
}

/// An engine command as the contracts see it.
pub struct EngineCommandView {
    pub id: u8,
    pub payload: Seq<u8>,
}

impl View for EngineCommand {
    type V = EngineCommandView;

    open spec fn view(&self) -> EngineCommandView {
        EngineCommandView { id: self.spec_id(), payload: self.spec_payload() }
    }
}

impl EngineCommand {
    /// The id of the command this was decoded from.
    pub closed spec fn spec_id(&self) -> u8 {
        self.id
    }

    /// The 14 payload bytes.
    pub closed spec fn spec_payload(&self) -> Seq<u8> {
        self.bytes@
    }

    /// Every payload is 14 bytes long.
    pub proof fn lemma_len(self)
        ensures
            self.spec_payload().len() == 14,
    {
    }

    pub fn from_command(cmd: Command) -> (e: Self)
        ensures
            e.spec_id() == cmd@[1],
            e.spec_payload() == cmd@.subrange(2, 16),
    {
        proof {
            cmd.lemma_len();
        }
        let b: [u8; 16] = cmd.bytes();
        let bytes: [u8; 14] = [
            b[2],
            b[3],
            b[4],
            b[5],
            b[6],
            b[7],
            b[8],
            b[9],
            b[10],
            b[11],
            b[12],
            b[13],
            b[14],
            b[15],
        ];
        assert(bytes@ =~= cmd@.subrange(2, 16));
        EngineCommand { id: cmd.id(), bytes }
    }

    #[verifier::when_used_as_spec(spec_id)]
    pub fn id(&self) -> (id: u8)
        ensures
            id == self.spec_id(),
    {
        self.id
    }

    pub fn payload(&self) -> (p: &[u8; 14])
        ensures
            p@ == self.spec_payload(),
    {
        &self.bytes
    }
}

impl Default for EngineCommand {
    fn default() -> (e: Self)
        ensures
            e.spec_id() == 0,
            e.spec_payload() == Seq::new(14, |i: int| 0u8),
    {
        let bytes: [u8; 14] = [0, 0, 0, 0, 0, 0, 0, 0, 0, 0, 0, 0, 0, 0];
        assert(bytes@ =~= Seq::new(14, |i: int| 0u8));
        EngineCommand { id: 0, bytes }
    }
}

/// How many engines of each kind to build, and how to build them.
#[derive(Debug, Clone, Copy)]
pub struct EngineConfig {
    pub num_kernel_engines: usize,
    pub num_mem_engines: usize,
    pub num_cs_engines: usize,
    pub kernel_engine_config: KernelEngineConfig,
    pub mem_engine_config: MemEngineConfig,
    pub cs_engine_config: CSEngineConfig,
}

impl Default for EngineConfig {
    fn default() -> (c: Self)
        ensures
            c.num_kernel_engines == 1,
            c.num_mem_engines == 1,
            c.num_cs_engines == 1,
    {
        EngineConfig {
            num_kernel_engines: 1,
            num_mem_engines: 1,
            num_cs_engines: 1,
            kernel_engine_config: KernelEngineConfig {  },
            mem_engine_config: MemEngineConfig {  },
            cs_engine_config: CSEngineConfig {  },
        }
    }
}

/// An engine of one of the three kinds.
pub enum Engine {
    Kernel(KernelEngine),
    Mem(MemEngine),
    CS(CSEngine),
}

/// An engine as the contracts see it.
pub enum EngineModel {
    Kernel(KernelModel),
    Mem(MemModel),
    CS,
}

impl View for Engine {
    type V = EngineModel;

    open spec fn view(&self) -> EngineModel {
        match self {
            Engine::Kernel(e) => EngineModel::Kernel(e@),
            Engine::Mem(e) => EngineModel::Mem(e@),
            Engine::CS(_) => EngineModel::CS,
        }
    }
}

impl EngineModel {
    pub open spec fn inv(self) -> bool {
        match self {
            EngineModel::Kernel(m) => m.inv(),
            EngineModel::Mem(m) => m.inv(),
            EngineModel::CS => true,
        }
    }

    /// No answer waits to be looked at: the state between two cycles.
    pub open spec fn quiet(self) -> bool {
        match self {
            EngineModel::Kernel(m) => m.quiet(),
            EngineModel::Mem(m) => m.quiet(),
            EngineModel::CS => true,
        }
    }

    pub open spec fn busy(self) -> bool {
        match self {
            EngineModel::Kernel(m) => m.busy(),
            EngineModel::Mem(m) => m.busy(),
            EngineModel::CS => false,
        }
    }

    pub open spec fn cmd_type(self) -> CmdType {
        match self {
            EngineModel::Kernel(_) => CmdType::KERNEL,
            EngineModel::Mem(_) => CmdType::MEM,
            EngineModel::CS => CmdType::CSR,
        }
    }

    /// The engine can decode the command.
    pub open spec fn accepts(self, cmd: EngineCommandView) -> bool {
        self is Mem ==> MemCommand::valid(cmd)
    }

    /// The bulk copy that waits to be serviced.
    pub open spec fn dma_pending(self) -> Option<DMAReq> {
        match self {
            EngineModel::Kernel(m) => m.dma_pending(),
            EngineModel::Mem(m) => m.dma_pending(),
            EngineModel::CS => None,
        }
    }

    /// The memory access that waits to be serviced.
    pub open spec fn mem_pending(self) -> Option<MemReqView> {
        match self {
            EngineModel::Kernel(m) => m.mem_pending(),
            EngineModel::Mem(m) => m.mem_pending(),
            EngineModel::CS => None,
        }
    }

    /// The batch that waits to be taken to its cluster, and the cluster.
    pub open spec fn glul_req(self) -> Option<(ThreadBlocksView, usize)> {
        match self {
            EngineModel::Kernel(m) => m.glul_req,
            _ => None,
        }
    }

    /// The completion that waits to be written to the ring: the event and
    /// the ticket of its slot.
    pub open spec fn completion(self) -> Option<(Seq<u8>, usize)> {
        match self {
            EngineModel::Kernel(m) => m.completion(),
            EngineModel::Mem(m) => m.completion(),
            EngineModel::CS => None,
        }
    }

    /// `data` answers the memory access that waits: the bytes read for a
    /// read, nothing for a write.
    pub open spec fn answers(self, data: Option<Seq<u8>>) -> bool {
        match self.mem_pending() {
            Some(q) => if q.write {
                data is None
            } else {
                data is Some && data.unwrap().len() >= q.bytes
            },
            None => false,
        }
    }

    pub open spec fn set_cmd(self, cmd: EngineCommandView, ticket: usize) -> EngineModel {
        match self {
            EngineModel::Kernel(m) => EngineModel::Kernel(m.set_cmd(cmd, ticket)),
            EngineModel::Mem(m) => EngineModel::Mem(m.set_cmd(cmd, ticket)),
            EngineModel::CS => EngineModel::CS,
        }
    }

    pub open spec fn done_dma_req(self) -> EngineModel {
        match self {
            EngineModel::Kernel(m) => EngineModel::Kernel(m.done_dma_req()),
            EngineModel::Mem(m) => EngineModel::Mem(m.done_dma_req()),
            EngineModel::CS => EngineModel::CS,
        }
    }

    pub open spec fn set_mem_resp(self, data: Option<Seq<u8>>) -> EngineModel {
        match self {
            EngineModel::Kernel(m) => EngineModel::Kernel(m.set_mem_resp(data.unwrap())),
            EngineModel::Mem(m) => EngineModel::Mem(m.set_mem_resp()),
            EngineModel::CS => EngineModel::CS,
        }
    }

    pub open spec fn clear_glul_req(self) -> EngineModel {
        match self {
            EngineModel::Kernel(m) => EngineModel::Kernel(m.clear_glul_req()),
            _ => self,
        }
    }

    pub open spec fn notify_glul_done(self, tbs: nat) -> EngineModel {
        match self {
            EngineModel::Kernel(m) => EngineModel::Kernel(m.notify_glul_done(tbs)),
            _ => self,
        }
    }

    pub open spec fn notify_glul_err(self, err: ExecErr) -> EngineModel {
        match self {
            EngineModel::Kernel(m) => EngineModel::Kernel(m.notify_glul_err(err)),
            _ => self,
        }
    }

    pub open spec fn set_gluls(self, gluls: Seq<GLULStatus>) -> EngineModel {
        match self {
            EngineModel::Kernel(m) => EngineModel::Kernel(m.set_gluls(gluls)),
            _ => self,
        }
    }

    pub open spec fn tick(self) -> EngineModel {
        match self {
            EngineModel::Kernel(m) => EngineModel::Kernel(m.tick()),
            EngineModel::Mem(m) => EngineModel::Mem(m.tick()),
            EngineModel::CS => EngineModel::CS,
        }
    }

    /// The id and the ticket of the command that the engine works on.
    pub open spec fn cmd_ticket(self) -> Option<(u8, usize)> {
        match self {
            EngineModel::Kernel(m) => match m.cmd {
                Some((c, t)) => Some((c.id, t)),
                None => None,
            },
            EngineModel::Mem(m) => match m.cmd {
                Some((c, t)) => Some((c.id, t)),
                None => None,
            },
            EngineModel::CS => None,
        }
    }

    /// The id and the ticket of a command that ended and that the engine no
    /// longer works on.
    pub open spec fn report_ticket(self) -> Option<(u8, usize)> {
        match self {
            EngineModel::Mem(m) => m.report,
            _ => None,
        }
    }

    /// The engine is a kernel engine that is scheduling blocks.
    pub open spec fn scheduling(self) -> bool {
        self matches EngineModel::Kernel(m) && m.state == KernelEngineState::S3
    }
}

/// Every step of an engine keeps its invariant and leaves no answer
/// unlooked at.
pub proof fn lemma_tick_keeps_inv(m: EngineModel)
    requires
        m.inv(),
    ensures
        m.tick().inv(),
        m.tick().quiet(),
{
    match m {
        EngineModel::Kernel(k) => crate::glug::engines::kernel_engine::lemma_tick_keeps_inv(k),
        EngineModel::Mem(k) => crate::glug::engines::mem_engine::lemma_tick_keeps_inv(k),
        EngineModel::CS => {},
    }
}

/// A bulk copy is serviced once for each posting: once the engine was told
/// that the copy is done, it offers it no more, neither before nor after its
/// next step.
pub proof fn lemma_dma_serviced_once(m: EngineModel)
    requires
        m.inv(),
        m.dma_pending() is Some,
    ensures
        m.done_dma_req().inv(),
        m.done_dma_req().dma_pending() is None,
        m.done_dma_req().tick().dma_pending() is None,
{
    match m {
        EngineModel::Kernel(k) => crate::glug::engines::kernel_engine::lemma_tick_keeps_inv(
            k.done_dma_req(),
        ),
        EngineModel::Mem(k) => crate::glug::engines::mem_engine::lemma_tick_keeps_inv(
            k.done_dma_req(),
        ),
        EngineModel::CS => {},
    }
}

/// A memory access is serviced once for each posting: once the engine has
/// its answer, it offers the access no more, neither before nor after its
/// next step.
pub proof fn lemma_mem_serviced_once(m: EngineModel, data: Option<Seq<u8>>)
    requires
        m.inv(),
        m.answers(data),
    ensures
        m.set_mem_resp(data).inv(),
        m.set_mem_resp(data).mem_pending() is None,
        m.set_mem_resp(data).tick().mem_pending() is None,
{
    match m {
        EngineModel::Kernel(k) => crate::glug::engines::kernel_engine::lemma_tick_keeps_inv(
            k.set_mem_resp(data.unwrap()),
        ),
        EngineModel::Mem(k) => crate::glug::engines::mem_engine::lemma_tick_keeps_inv(
            k.set_mem_resp(),
        ),
        EngineModel::CS => {},
    }
}

/// An engine reports on a command once: after the step that follows a
/// report it has nothing to report.
pub proof fn lemma_completion_once(m: EngineModel)
    requires
        m.inv(),
        m.completion() is Some,
    ensures
        m.tick().completion() is None,
{
}

impl Engine {
    pub open spec fn wf(&self) -> bool {
        match self {
            Engine::Kernel(e) => e.wf(),
            Engine::Mem(e) => e.wf(),
            Engine::CS(_) => true,
        }
    }

    /// A well-formed engine satisfies the model's invariant.
    pub proof fn lemma_wf(&self)
        requires
            self.wf(),
        ensures
            self@.inv(),
    {
        match self {
            Engine::Kernel(e) => e.lemma_wf(),
            Engine::Mem(e) => e.lemma_wf(),
            Engine::CS(_) => {},
        }
    }

    /// Takes a command to work on, with the ticket of its completion slot.
    pub fn set_cmd(&mut self, cmd: EngineCommand, completion_idx: usize)
        requires
            old(self).wf(),
            !old(self)@.busy(),
            old(self)@.accepts(cmd@),
        ensures
            final(self).wf(),
            final(self)@ == old(self)@.set_cmd(cmd@, completion_idx),
    {
        match self {
            Engine::Kernel(e) => e.set_cmd(cmd, completion_idx),
            Engine::Mem(e) => e.set_cmd(cmd, completion_idx),
            Engine::CS(e) => e.set_cmd(cmd, completion_idx),
        }
    }

    pub fn busy(&self) -> (b: bool)
        ensures
            b == self@.busy(),
    {
        match self {
            Engine::Kernel(e) => e.busy(),
            Engine::Mem(e) => e.busy(),
            Engine::CS(e) => e.busy(),
        }
    }

    pub fn cmd_type(&self) -> (t: CmdType)
        ensures
            t == self@.cmd_type(),
    {
        match self {
            Engine::Kernel(e) => e.cmd_type(),
            Engine::Mem(e) => e.cmd_type(),
            Engine::CS(e) => e.cmd_type(),
        }
    }

    /// The bulk copy that waits to be serviced, if any.
    pub fn get_dma_req(&self) -> (r: Option<&DMAReq>)
        ensures
            match r {
                Some(d) => self@.dma_pending() == Some(*d),
                None => self@.dma_pending() is None,
            },
    {
        match self {
            Engine::Kernel(e) => e.get_dma_req(),
            Engine::Mem(e) => e.get_dma_req(),
            Engine::CS(e) => e.get_dma_req(),
        }
    }

    /// Tells the engine that its bulk copy was carried out.
    pub fn done_dma_req(&mut self)
        requires
            old(self).wf(),
            old(self)@.dma_pending() is Some,
        ensures
            final(self).wf(),
            final(self)@ == old(self)@.done_dma_req(),
            final(self)@.dma_pending() is None,
    {
        match self {
            Engine::Kernel(e) => e.done_dma_req(),
            Engine::Mem(e) => e.done_dma_req(),
            Engine::CS(_) => {},
        }
    }

    /// The memory access that waits to be serviced, if any.
    pub fn get_mem_req(&self) -> (r: Option<&MemReq>)
        requires
            self.wf(),
        ensures
            match r {
                Some(q) => self@.mem_pending() == Some(q@),
                None => self@.mem_pending() is None,
            },
    {
        match self {
            Engine::Kernel(e) => e.get_mem_req(),
            Engine::Mem(e) => e.get_mem_req(),
            Engine::CS(e) => e.get_mem_req(),
        }
    }

    /// Hands the engine the answer to its memory access: the bytes read for
    /// a read, nothing for a write.
    pub fn set_mem_resp(&mut self, data: Option<&Vec<u8>>)
        requires
            old(self).wf(),
            old(self)@.answers(
                match data {
                    Some(bytes) => Some(bytes@),
                    None => None,
                },
            ),
        ensures
            final(self).wf(),
            final(self)@ == old(self)@.set_mem_resp(
                match data {
                    Some(bytes) => Some(bytes@),
                    None => None,
                },
            ),
            final(self)@.mem_pending() is None,
    {
        proof {
            self.lemma_wf();
        }
        match self {
            Engine::Kernel(e) => e.set_mem_resp(data),
            Engine::Mem(e) => e.set_mem_resp(data),
            Engine::CS(_) => {},
        }
    }

    /// The batch that waits to be taken to its cluster, if any.
    pub fn get_glul_req(&self) -> (r: Option<&GLULReq>)
        ensures
            match r {
                Some(q) => q.thread_blocks is Some && self@.glul_req() == Some(
                    (q.thread_blocks.unwrap()@, q.idx),
                ),
                None => self@.glul_req() is None,
            },
    {
        match self {
            Engine::Kernel(e) => e.get_glul_req(),
            Engine::Mem(e) => e.get_glul_req(),
            Engine::CS(e) => e.get_glul_req(),
        }
    }

    /// Drops the batch that was posted.
    pub fn clear_glul_req(&mut self)
        requires
            old(self).wf(),
            old(self)@.glul_req() is Some,
        ensures
            final(self).wf(),
            final(self)@ == old(self)@.clear_glul_req(),
    {
        match self {
            Engine::Kernel(e) => e.clear_glul_req(),
            _ => {},
        }
    }

    /// Tells a kernel engine that `tbs` more of its blocks are done.
    pub fn notify_glul_done(&mut self, tbs: usize)
        requires
            old(self).wf(),
            old(self)@ matches EngineModel::Kernel(m) && (m.state == KernelEngineState::S3
                ==> m.tb_done + tbs + m.posted_blocks() <= m.tb_ctr),
        ensures
            final(self).wf(),
            final(self)@ == old(self)@.notify_glul_done(tbs as nat),
    {
        match self {
            Engine::Kernel(e) => e.notify_glul_done(tbs),
            _ => {},
        }
    }

    /// Tells a kernel engine that one of its batches faulted.
    pub fn notify_glul_err(&mut self, err: ExecErr)
        requires
            old(self).wf(),
            old(self)@ is Kernel,
        ensures
            final(self).wf(),
            final(self)@ == old(self)@.notify_glul_err(err),
    {
        match self {
            Engine::Kernel(e) => e.notify_glul_err(err),
            _ => {},
        }
    }

    /// Shows the engine the clusters it may schedule on. While a batch is
    /// posted, the clusters shown must have the resources they had.
    pub fn set_gluls(&mut self, gluls: Vec<GLULStatus>)
        requires
            old(self).wf(),
            old(self)@ matches EngineModel::Kernel(m) ==> (m.glul_req matches Some((tb, idx))
                ==> idx < gluls@.len() && gluls@[idx as int].config == m.gluls[idx as int].config),
        ensures
            final(self).wf(),
            final(self)@ == old(self)@.set_gluls(gluls@),
    {
        match self {
            Engine::Kernel(e) => e.set_gluls(gluls),
            Engine::Mem(e) => e.set_gluls(gluls),
            Engine::CS(e) => e.set_gluls(gluls),
        }
    }

    /// The event to write to the ring and the ticket of its slot, if the
    /// engine has a command to report on.
    pub fn get_completion(&self) -> (r: Option<(Event, usize)>)
        requires
            self.wf(),
        ensures
            match r {
                Some((event, ticket)) => self@.completion() == Some((event@, ticket)),
                None => self@.completion() is None,
            },
    {
        match self {
            Engine::Kernel(e) => e.get_completion(),
            Engine::Mem(e) => e.get_completion(),
            Engine::CS(e) => e.get_completion(),
        }
    }
}

impl Clocked for Engine {
    open spec fn clock_wf(&self) -> bool {
        self.wf()
    }

    fn tick(&mut self) -> (r: Result<(), SimErr>)
        ensures
            r is Ok,
            final(self).wf(),
            final(self)@ == old(self)@.tick(),
            final(self)@.quiet(),
    {
        match self {
            Engine::Kernel(e) => e.tick(),
            Engine::Mem(e) => e.tick(),
            Engine::CS(e) => e.tick(),
        }
    }

    fn busy(&mut self) -> (b: bool)
        ensures
            b == old(self)@.busy(),
    {
        match self {
            Engine::Kernel(e) => Clocked::busy(e),
            Engine::Mem(e) => Clocked::busy(e),
            Engine::CS(e) => Clocked::busy(e),
        }
    }
}

impl EngineConfig {
    /// The number of engines of all kinds.
    pub fn num_engines(&self) -> (n: usize)
        requires
            self.num_kernel_engines + self.num_mem_engines + self.num_cs_engines <= usize::MAX,
        ensures
            n == self.num_kernel_engines + self.num_mem_engines + self.num_cs_engines,
    {
        self.num_kernel_engines + self.num_mem_engines + self.num_cs_engines
    }

    /// The engine that `generate_engines` puts at index `i`: kernel engines
    /// first, then memory engines, then control/status engines, all at rest.
    pub open spec fn fresh_at(&self, i: int) -> EngineModel {
        if i < self.num_kernel_engines {
            EngineModel::Kernel(KernelModel::idle())
        } else if i < self.num_kernel_engines + self.num_mem_engines {
            EngineModel::Mem(MemModel::idle())
        } else {
            EngineModel::CS
        }
    }

    /// Builds the engines.
    pub fn generate_engines(&self) -> (engines: Vec<Engine>)
        ensures
            engines@.len() == self.num_kernel_engines + self.num_mem_engines
                + self.num_cs_engines,
            forall|i: int|
                0 <= i < engines@.len() ==> (#[trigger] engines@[i]).wf() && engines@[i]@
                    == self.fresh_at(i),
    {
        let mut engines: Vec<Engine> = Vec::new();
        let mut k: usize = 0;
        while k < self.num_kernel_engines
            invariant
                k <= self.num_kernel_engines,
                engines@.len() == k,
                forall|i: int|
                    0 <= i < engines@.len() ==> (#[trigger] engines@[i]).wf() && engines@[i]@
                        == self.fresh_at(i),
            decreases self.num_kernel_engines - k,
        {
            engines.push(Engine::Kernel(KernelEngine::new(self.kernel_engine_config)));
            k += 1;
        }
        let mut m: usize = 0;
        while m < self.num_mem_engines
            invariant
                m <= self.num_mem_engines,
                engines@.len() == self.num_kernel_engines + m,
                forall|i: int|
                    0 <= i < engines@.len() ==> (#[trigger] engines@[i]).wf() && engines@[i]@
                        == self.fresh_at(i),
            decreases self.num_mem_engines - m,
        {
            engines.push(Engine::Mem(MemEngine::new(self.mem_engine_config)));
            m += 1;
        }
        let mut c: usize = 0;
        while c < self.num_cs_engines
            invariant
                c <= self.num_cs_engines,
                engines@.len() == self.num_kernel_engines + self.num_mem_engines + c,
                forall|i: int|
                    0 <= i < engines@.len() ==> (#[trigger] engines@[i]).wf() && engines@[i]@
                        == self.fresh_at(i),
            decreases self.num_cs_engines - c,
        {
            engines.push(Engine::CS(CSEngine::new(self.cs_engine_config)));
            c += 1;
        }
        engines
    }
}

} // verus!
