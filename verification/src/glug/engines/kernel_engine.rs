//! Kernel engine: copies a kernel image to the device, reads its header, and
//! hands its thread blocks to the clusters in raster order until all are done
//! or one faults.

use crate::common::base::{
    event_of, Clocked, CmdType, Configurable, DMADir, DMAReq, Event, ExecErr, MemReq, MemReqView,
    MemResp, SimErr, ThreadBlocks, ThreadBlocksView,
};
use crate::common::bytes::{le_u32, read_le_u32};
use crate::common::grid::{
    lemma_raster_range_concat, lemma_volume_bound, raster_point, raster_range, volume, volume_of,
};
use crate::glug::engine::{EngineCommand, EngineCommandView};
use crate::glul::glul::{GLULReq, GLULStatus};
use vstd::prelude::*;

verus! {

/// Where the engine is with its kernel: idle, copying the image in, reading
/// the header, scheduling blocks, succeeded, reporting.
#[derive(Debug, Clone, Copy, PartialEq, Eq, Structural)]
pub enum KernelEngineState {
    S0,
    S1,
    S2,
    S3,
    S4,
    S5,
}

#[derive(Default, Debug, Clone, Copy)]
pub struct KernelEngineConfig {}

/// The payload of a KERNEL command.
#[derive(Debug, Clone, Copy)]
pub struct KernelCommand {
    pub id: u8,
    pub host_addr: u32,
    pub sz: u32,
    pub gpu_addr: u32,
}

impl KernelCommand {
    /// The command that a payload encodes: three little-endian words.
    pub open spec fn decode(id: u8, payload: Seq<u8>) -> KernelCommand {
        KernelCommand {
            id,
            host_addr: le_u32(payload, 0),
            sz: le_u32(payload, 4),
            gpu_addr: le_u32(payload, 8),
        }
    }

    pub fn from_engine_cmd(cmd: EngineCommand) -> (k: Self)
        ensures
            k == KernelCommand::decode(cmd.spec_id(), cmd.spec_payload()),
    {
        proof {
            cmd.lemma_len();
        }
        let payload = cmd.payload();
        KernelCommand {
            id: cmd.id(),
            host_addr: read_le_u32(payload.as_slice(), 0),
            sz: read_le_u32(payload.as_slice(), 4),
            gpu_addr: read_le_u32(payload.as_slice(), 8),
        }
    }

    pub fn id(&self) -> (id: u8)
        ensures
            id == self.id,
    {
        self.id
    }
}

/// The number of bytes of a kernel header.
pub const PAYLOAD_BYTES: u32 = 58;

/// The header at the start of a kernel image in device memory.
#[derive(Debug, Clone, Copy)]
pub struct KernelPayload {
    pub start_pc: u32,
    pub kernel_pc: u32,
    pub params_sz: u32,
    pub binary_sz: u32,
    pub stack_base_addr: u32,
    pub tls_base_addr: u32,
    pub grid: (u32, u32, u32),
    pub block: (u32, u32, u32),
    pub printf_host_addr: u32,
    pub regs_per_thread: u8,
    pub shmem_per_block: u32,
    pub flags: u8,
}

impl KernelPayload {
    /// The header that the first 58 bytes of `b` encode, every word
    /// little-endian, the fields packed in this order.
    pub open spec fn decode(b: Seq<u8>) -> KernelPayload {
        KernelPayload {
            start_pc: le_u32(b, 0),
            kernel_pc: le_u32(b, 4),
            params_sz: le_u32(b, 8),
            binary_sz: le_u32(b, 12),
            stack_base_addr: le_u32(b, 16),
            tls_base_addr: le_u32(b, 20),
            grid: (le_u32(b, 24), le_u32(b, 28), le_u32(b, 32)),
            block: (le_u32(b, 36), le_u32(b, 40), le_u32(b, 44)),
            printf_host_addr: le_u32(b, 48),
            regs_per_thread: b[52],
            shmem_per_block: le_u32(b, 53),
            flags: b[57],
        }
    }

    pub fn from_bytes(bytes: &[u8]) -> (p: Self)
        requires
            bytes@.len() >= PAYLOAD_BYTES,
        ensures
            p == KernelPayload::decode(bytes@),
    {
        KernelPayload {
            start_pc: read_le_u32(bytes, 0),
            kernel_pc: read_le_u32(bytes, 4),
            params_sz: read_le_u32(bytes, 8),
            binary_sz: read_le_u32(bytes, 12),
            stack_base_addr: read_le_u32(bytes, 16),
            tls_base_addr: read_le_u32(bytes, 20),
            grid: (read_le_u32(bytes, 24), read_le_u32(bytes, 28), read_le_u32(bytes, 32)),
            block: (read_le_u32(bytes, 36), read_le_u32(bytes, 40), read_le_u32(bytes, 44)),
            printf_host_addr: read_le_u32(bytes, 48),
            regs_per_thread: bytes[52],
            shmem_per_block: read_le_u32(bytes, 53),
            flags: bytes[57],
        }
    }

    /// A header of zeros: an empty grid of empty blocks.
    pub open spec fn blank() -> KernelPayload {
        KernelPayload {
            start_pc: 0,
            kernel_pc: 0,
            params_sz: 0,
            binary_sz: 0,
            stack_base_addr: 0,
            tls_base_addr: 0,
            grid: (0, 0, 0),
            block: (0, 0, 0),
            printf_host_addr: 0,
            regs_per_thread: 0,
            shmem_per_block: 0,
            flags: 0,
        }
    }
}

/// The blocks that cluster `i` would take of a kernel with header `p`: none
/// while it is busy.
pub open spec fn offer(gluls: Seq<GLULStatus>, p: KernelPayload, i: int) -> nat {
    if gluls[i].busy {
        0
    } else {
        gluls[i].config.admissible(p.regs_per_thread, p.shmem_per_block, volume(p.block))
    }
}

/// The scheduler's choice among the first `n` clusters: the index and the
/// offer of the cluster with the smallest positive offer, the lowest index
/// among equals; `None` when none of them offers anything.
pub open spec fn pick_upto(gluls: Seq<GLULStatus>, p: KernelPayload, n: nat) -> Option<
    (nat, nat),
>
    decreases n,
{
    if n == 0 {
        None
    } else {
        let prev = pick_upto(gluls, p, (n - 1) as nat);
        let a = offer(gluls, p, n - 1);
        if a > 0 && (prev is None || a < prev.unwrap().1) {
            Some(((n - 1) as nat, a))
        } else {
            prev
        }
    }
}

/// The scheduler's choice among all clusters.
pub open spec fn pick(gluls: Seq<GLULStatus>, p: KernelPayload) -> Option<(nat, nat)> {
    pick_upto(gluls, p, gluls.len())
}

/// What `pick_upto` returns is a cluster with a positive offer that no
/// cluster before `n` undercuts and no earlier cluster matches; and it
/// returns one whenever some cluster offers anything.
pub proof fn lemma_pick_upto(gluls: Seq<GLULStatus>, p: KernelPayload, n: nat)
    requires
        n <= gluls.len(),
    ensures
        match pick_upto(gluls, p, n) {
            Some((i, a)) => {
                &&& i < n
                &&& a == offer(gluls, p, i as int)
                &&& a > 0
                &&& forall|j: int| 0 <= j < n && offer(gluls, p, j) > 0 ==> a <= offer(gluls, p, j)
                &&& forall|j: int| 0 <= j < i ==> offer(gluls, p, j) != a
            },
            None => forall|j: int| 0 <= j < n ==> offer(gluls, p, j) == 0,
        },
    decreases n,
{
    if n > 0 {
        lemma_pick_upto(gluls, p, (n - 1) as nat);
    }
}

/// The engine as the contracts see it.
pub struct KernelModel {
    /// The command being worked on, with its completion ticket.
    pub cmd: Option<(KernelCommand, usize)>,
    /// The bulk copy posted, if any.
    pub dma: Option<DMAReq>,
    /// Whether the header read is posted.
    pub mem_posted: bool,
    /// The bytes that answered the header read, if they arrived.
    pub resp: Option<Seq<u8>>,
    pub state: KernelEngineState,
    /// The header, once read.
    pub payload: KernelPayload,
    /// Blocks handed out so far.
    pub tb_ctr: nat,
    /// Blocks of the grid.
    pub total_tb: nat,
    /// Blocks reported done so far.
    pub tb_done: nat,
    /// The clusters as last shown to the engine.
    pub gluls: Seq<GLULStatus>,
    /// The batch posted and the cluster it is for, if any.
    pub glul_req: Option<(ThreadBlocksView, usize)>,
    /// The outcome to report, once known.
    pub err: Option<Result<(), ExecErr>>,
}

impl KernelModel {
    /// The engine at rest, before it was shown any cluster.
    pub open spec fn idle() -> KernelModel {
        KernelModel {
            cmd: None,
            dma: None,
            mem_posted: false,
            resp: None,
            state: KernelEngineState::S0,
            payload: KernelPayload::blank(),
            tb_ctr: 0,
            total_tb: 0,
            tb_done: 0,
            gluls: Seq::empty(),
            glul_req: None,
            err: None,
        }
    }

    /// The copy that brings the image of `cmd` to the device.
    pub open spec fn image_copy(cmd: KernelCommand, done: bool) -> DMAReq {
        DMAReq {
            dir: DMADir::H2D,
            src_addr: cmd.host_addr,
            target_addr: cmd.gpu_addr,
            sz: cmd.sz,
            done,
        }
    }

    /// The read that fetches the header of `cmd`.
    pub open spec fn header_read(cmd: KernelCommand) -> MemReqView {
        MemReqView { addr: cmd.gpu_addr, write: false, bytes: PAYLOAD_BYTES, data: Seq::empty() }
    }

    /// The batch that holds blocks `lo` to `hi` of the kernel.
    pub open spec fn batch(cmd: KernelCommand, p: KernelPayload, lo: nat, hi: nat)
        -> ThreadBlocksView {
        ThreadBlocksView {
            pc: p.start_pc,
            block_dim: p.block,
            block_idxs: raster_range(p.grid, lo, hi),
            regs: p.regs_per_thread as u32,
            shmem: p.shmem_per_block,
            bp: cmd.gpu_addr,
        }
    }

    /// Blocks in the batch that is posted and not yet taken.
    pub open spec fn posted_blocks(self) -> nat {
        match self.glul_req {
            Some((tb, _)) => tb.block_idxs.len(),
            None => 0,
        }
    }

    /// Nothing is posted to any substrate.
    pub open spec fn nothing_posted(self) -> bool {
        self.dma is None && !self.mem_posted && self.resp is None && self.glul_req is None
    }

    /// What holds of the engine between any two calls.
    pub open spec fn inv(self) -> bool {
        &&& self.gluls.len() <= usize::MAX
        &&& self.inv_of_state()
    }

    /// What holds of the engine in the state it is in.
    pub open spec fn inv_of_state(self) -> bool {
        match self.state {
            KernelEngineState::S0 => self.nothing_posted() && self.err is None,
            KernelEngineState::S1 => {
                &&& self.cmd is Some
                &&& !self.mem_posted && self.resp is None && self.glul_req is None
                &&& self.err is None
                &&& self.tb_ctr == 0 && self.tb_done == 0
                &&& self.dma matches Some(d)
                    ==> d == KernelModel::image_copy(self.cmd.unwrap().0, d.done)
            },
            KernelEngineState::S2 => {
                &&& self.cmd is Some
                &&& self.dma is None && self.glul_req is None
                &&& self.err is None
                &&& self.tb_ctr == 0 && self.tb_done == 0
                &&& self.resp matches Some(bytes)
                    ==> self.mem_posted && bytes.len() >= PAYLOAD_BYTES
            },
            KernelEngineState::S3 => {
                &&& self.cmd is Some
                &&& self.dma is None && !self.mem_posted && self.resp is None
                &&& self.err is None
                &&& self.total_tb == volume(self.payload.grid)
                &&& self.tb_done + self.posted_blocks() <= self.tb_ctr <= self.total_tb
                &&& self.glul_req matches Some((tb, idx)) ==> {
                    &&& tb.block_idxs.len() >= 1
                    &&& tb.block_dim == self.payload.block
                    &&& idx < self.gluls.len()
                    &&& self.gluls[idx as int].config.fits(volume(tb.block_dim),
                        tb.block_idxs.len())
                }
            },
            KernelEngineState::S4 => {
                &&& self.cmd is Some
                &&& self.nothing_posted()
                &&& self.err is None
                &&& self.tb_done == self.total_tb
            },
            KernelEngineState::S5 => {
                &&& self.cmd is Some
                &&& self.nothing_posted()
                &&& self.err is Some
            },
        }
    }

    /// No answer waits to be looked at: the state between two cycles.
    pub open spec fn quiet(self) -> bool {
        (self.dma matches Some(d) ==> !d.done) && self.resp is None
    }

    pub open spec fn busy(self) -> bool {
        self.state != KernelEngineState::S0 || self.cmd is Some
    }

    /// The bulk copy that waits to be serviced.
    pub open spec fn dma_pending(self) -> Option<DMAReq> {
        match self.dma {
            Some(d) => if d.done {
                None
            } else {
                Some(d)
            },
            None => None,
        }
    }

    /// The memory access that waits to be serviced.
    pub open spec fn mem_pending(self) -> Option<MemReqView> {
        if self.mem_posted && self.resp is None && self.cmd is Some {
            Some(KernelModel::header_read(self.cmd.unwrap().0))
        } else {
            None
        }
    }

    /// The completion that waits to be written to the ring.
    pub open spec fn completion(self) -> Option<(Seq<u8>, usize)> {
        if self.err is Some && self.cmd is Some {
            Some((event_of(self.cmd.unwrap().0.id, self.err->0), self.cmd.unwrap().1))
        } else {
            None
        }
    }

    pub open spec fn set_cmd(self, cmd: EngineCommandView, ticket: usize) -> KernelModel {
        KernelModel { cmd: Some((KernelCommand::decode(cmd.id, cmd.payload), ticket)), ..self }
    }

    pub open spec fn done_dma_req(self) -> KernelModel {
        KernelModel { dma: Some(DMAReq { done: true, ..self.dma->0 }), ..self }
    }

    pub open spec fn set_mem_resp(self, data: Seq<u8>) -> KernelModel {
        KernelModel { resp: Some(data), ..self }
    }

    pub open spec fn clear_glul_req(self) -> KernelModel {
        KernelModel { glul_req: None, ..self }
    }

    /// Blocks reported done count only while the kernel is being scheduled.
    pub open spec fn notify_glul_done(self, tbs: nat) -> KernelModel {
        if self.state == KernelEngineState::S3 {
            KernelModel { tb_done: self.tb_done + tbs, ..self }
        } else {
            self
        }
    }

    /// A fault ends the scheduling at once and drops the batch that was
    /// posted; outside of scheduling it is ignored.
    pub open spec fn notify_glul_err(self, err: ExecErr) -> KernelModel {
        if self.state == KernelEngineState::S3 {
            KernelModel {
                state: KernelEngineState::S5,
                err: Some(Err(err)),
                glul_req: None,
                ..self
            }
        } else {
            self
        }
    }

    pub open spec fn set_gluls(self, gluls: Seq<GLULStatus>) -> KernelModel {
        KernelModel { gluls, ..self }
    }

    /// One scheduling step: post the next batch if blocks are left, nothing
    /// is posted and some cluster offers room; then see whether all blocks
    /// are done.
    pub open spec fn schedule(self) -> KernelModel {
        let available = (self.total_tb - self.tb_ctr) as nat;
        let state = if self.tb_done == self.total_tb {
            KernelEngineState::S4
        } else {
            KernelEngineState::S3
        };
        if available > 0 && self.glul_req is None && pick(self.gluls, self.payload) is Some {
            let (idx, a) = pick(self.gluls, self.payload)->0;
            let n = if a <= available {
                a
            } else {
                available
            };
            KernelModel {
                glul_req: Some(
                    (
                        KernelModel::batch(self.cmd.unwrap().0, self.payload, self.tb_ctr,
                            self.tb_ctr + n),
                        idx as usize,
                    ),
                ),
                tb_ctr: self.tb_ctr + n,
                state,
                ..self
            }
        } else {
            KernelModel { state, ..self }
        }
    }

    /// One step of the state machine.
    pub open spec fn tick(self) -> KernelModel {
        match self.state {
            KernelEngineState::S0 => if self.cmd is Some {
                KernelModel { state: KernelEngineState::S1, tb_ctr: 0, tb_done: 0, ..self }
            } else {
                self
            },
            KernelEngineState::S1 => match self.dma {
                Some(d) => if d.done {
                    KernelModel { dma: None, state: KernelEngineState::S2, ..self }
                } else {
                    self
                },
                None => KernelModel {
                    dma: Some(KernelModel::image_copy(self.cmd.unwrap().0, false)),
                    ..self
                },
            },
            KernelEngineState::S2 => if self.mem_posted {
                match self.resp {
                    Some(bytes) => KernelModel {
                        mem_posted: false,
                        resp: None,
                        payload: KernelPayload::decode(bytes),
                        total_tb: volume(KernelPayload::decode(bytes).grid),
                        state: KernelEngineState::S3,
                        ..self
                    },
                    None => self,
                }
            } else {
                KernelModel { mem_posted: true, ..self }
            },
            KernelEngineState::S3 => self.schedule(),
            KernelEngineState::S4 => KernelModel {
                state: KernelEngineState::S5,
                err: Some(Ok(())),
                ..self
            },
            KernelEngineState::S5 => KernelModel {
                state: KernelEngineState::S0,
                cmd: None,
                err: None,
                ..self
            },
        }
    }
}

/// What can happen to a kernel engine while it schedules the blocks of a
/// kernel.
pub enum KernelStep {
    /// One step of its state machine.
    Tick,
    /// A cluster reports so many blocks done.
    Done(nat),
    /// The batch posted is taken to its cluster.
    Taken,
    /// The engine is shown the clusters.
    Shown(Seq<GLULStatus>),
}

impl KernelModel {
    /// The engine after `step`.
    pub open spec fn apply(self, step: KernelStep) -> KernelModel {
        match step {
            KernelStep::Tick => self.tick(),
            KernelStep::Done(k) => self.notify_glul_done(k),
            KernelStep::Taken => self.clear_glul_req(),
            KernelStep::Shown(gluls) => self.set_gluls(gluls),
        }
    }

    /// `step` may happen to the engine: it is scheduling; blocks reported
    /// done were handed out before; and clusters shown while a batch is
    /// posted include the cluster it is for, with the resources it had.
    pub open spec fn admits(self, step: KernelStep) -> bool {
        &&& self.state == KernelEngineState::S3
        &&& step matches KernelStep::Done(k) ==> self.tb_done + k + self.posted_blocks()
            <= self.tb_ctr
        &&& step matches KernelStep::Shown(gluls) ==> gluls.len() <= usize::MAX && (
        self.glul_req matches Some((tb, idx)) ==> idx < gluls.len() && gluls[idx as int].config
            == self.gluls[idx as int].config)
    }

    /// The engine after `steps`, in order.
    pub open spec fn run(self, steps: Seq<KernelStep>) -> KernelModel
        decreases steps.len(),
    {
        if steps.len() == 0 {
            self
        } else {
            self.run(steps.drop_last()).apply(steps.last())
        }
    }

    /// Each of `steps` may happen when its turn comes.
    pub open spec fn admits_all(self, steps: Seq<KernelStep>) -> bool
        decreases steps.len(),
    {
        steps.len() == 0 || (self.admits_all(steps.drop_last()) && self.run(
            steps.drop_last(),
        ).admits(steps.last()))
    }

    /// The blocks that `step` hands out: those of the batch that it posts.
    pub open spec fn hands_out(self, step: KernelStep) -> Seq<(u32, u32, u32)> {
        if step is Tick && self.glul_req is None && self.tick().glul_req is Some {
            self.tick().glul_req.unwrap().0.block_idxs
        } else {
            Seq::empty()
        }
    }
}

/// The blocks reported done in `steps`, all told.
pub open spec fn blocks_done(steps: Seq<KernelStep>) -> nat
    decreases steps.len(),
{
    if steps.len() == 0 {
        0
    } else {
        blocks_done(steps.drop_last()) + match steps.last() {
            KernelStep::Done(k) => k,
            _ => 0,
        }
    }
}

/// The blocks of all the batches that the engine posts in `steps`, in the
/// order of posting.
pub open spec fn blocks_issued(m: KernelModel, steps: Seq<KernelStep>) -> Seq<(u32, u32, u32)>
    decreases steps.len(),
{
    if steps.len() == 0 {
        Seq::empty()
    } else {
        blocks_issued(m, steps.drop_last()) + m.run(steps.drop_last()).hands_out(steps.last())
    }
}

/// A scheduling step keeps the invariant, and the batch it posts holds the
/// next blocks of the raster order.
pub proof fn lemma_schedule(m: KernelModel)
    requires
        m.inv(),
        m.state == KernelEngineState::S3,
    ensures
        m.schedule().inv(),
        m.schedule().payload == m.payload,
        m.schedule().total_tb == m.total_tb,
        m.schedule().tb_done == m.tb_done,
        m.schedule().tb_ctr >= m.tb_ctr,
        m.hands_out(KernelStep::Tick) == raster_range(
            m.payload.grid,
            m.tb_ctr,
            m.schedule().tb_ctr,
        ),
        m.schedule().state == KernelEngineState::S3 || (m.schedule().state
            == KernelEngineState::S4 && m.tb_done == m.total_tb),
{
    let available = (m.total_tb - m.tb_ctr) as nat;
    if available > 0 && m.glul_req is None && pick(m.gluls, m.payload) is Some {
        let (idx, a) = pick(m.gluls, m.payload).unwrap();
        let n = if a <= available {
            a
        } else {
            available
        };
        lemma_pick_upto(m.gluls, m.payload, m.gluls.len());
        m.gluls[idx as int].config.lemma_admissible_bound(
            m.payload.regs_per_thread,
            m.payload.shmem_per_block,
            volume(m.payload.block),
        );
        m.gluls[idx as int].config.lemma_admissible_fits(
            m.payload.regs_per_thread,
            m.payload.shmem_per_block,
            volume(m.payload.block),
            n,
        );
    } else {
        assert(m.hands_out(KernelStep::Tick) =~= raster_range(m.payload.grid, m.tb_ctr, m.tb_ctr));
    }
}

/// Every step keeps the invariant and leaves no answer unlooked at; a
/// request that was answered is gone after the step.
pub proof fn lemma_tick_keeps_inv(m: KernelModel)
    requires
        m.inv(),
    ensures
        m.tick().inv(),
        m.tick().quiet(),
        m.dma matches Some(d) && d.done ==> m.tick().dma_pending() is None,
        m.resp is Some ==> m.tick().mem_pending() is None,
        m.state != KernelEngineState::S0 ==> m.tick().cmd == m.cmd || m.tick().cmd is None,
{
    if m.state == KernelEngineState::S3 {
        lemma_schedule(m);
    }
}

/// From the moment a kernel enters scheduling, whatever steps follow: the
/// blocks counted done are those reported done, and the batches posted,
/// joined in order, are the start of the raster order of the grid. When the
/// engine then declares success, the blocks reported done are as many as the
/// grid has, and the batches posted are the whole raster order.
pub proof fn lemma_kernel_run(m: KernelModel, steps: Seq<KernelStep>)
    requires
        m.inv(),
        m.state == KernelEngineState::S3,
        m.tb_done == 0,
        m.tb_ctr == 0,
        m.admits_all(steps),
    ensures
        m.run(steps).inv(),
        m.run(steps).payload == m.payload,
        m.run(steps).tb_done == blocks_done(steps),
        blocks_issued(m, steps) == raster_range(m.payload.grid, 0, m.run(steps).tb_ctr),
        m.run(steps).state == KernelEngineState::S3 || m.run(steps).state
            == KernelEngineState::S4,
        m.run(steps).state == KernelEngineState::S4 ==> blocks_done(steps) == volume(
            m.payload.grid,
        ) && blocks_issued(m, steps) == raster_range(m.payload.grid, 0, volume(m.payload.grid)),
    decreases steps.len(),
{
    if steps.len() == 0 {
        assert(blocks_issued(m, steps) =~= raster_range(m.payload.grid, 0, 0));
    } else {
        let before = steps.drop_last();
        lemma_kernel_run(m, before);
        let pre = m.run(before);
        match steps.last() {
            KernelStep::Tick => {
                lemma_schedule(pre);
                lemma_raster_range_concat(m.payload.grid, 0, pre.tb_ctr, pre.tick().tb_ctr);
            },
            _ => {},
        }
    }
}

pub struct KernelEngine {
    cmd: Option<(KernelCommand, usize)>,
    dma_req: Option<DMAReq>,
    mem_req: Option<MemReq>,
    mem_resp: Option<MemResp>,
    state: KernelEngineState,
    payload: KernelPayload,
    tb_ctr: u128,
    total_tb: u128,
    tb_done: u128,
    gluls: Vec<GLULStatus>,
    glul_req: GLULReq,
    err: Option<Result<(), ExecErr>>,
}

impl View for KernelEngine {
    type V = KernelModel;

    closed spec fn view(&self) -> KernelModel {
        KernelModel {
            cmd: self.cmd,
            dma: self.dma_req,
            mem_posted: self.mem_req is Some,
            resp: match self.mem_resp {
                Some(r) => match r.data {
                    Some(d) => Some(d@),
                    None => Some(Seq::empty()),
                },
                None => None,
            },
            state: self.state,
            payload: self.payload,
            tb_ctr: self.tb_ctr as nat,
            total_tb: self.total_tb as nat,
            tb_done: self.tb_done as nat,
            gluls: self.gluls@,
            glul_req: match self.glul_req.thread_blocks {
                Some(tb) => Some((tb@, self.glul_req.idx)),
                None => None,
            },
            err: self.err,
        }
    }
}

impl KernelEngine {
    /// The model's invariant holds, and the header read that is posted is the
    /// one for the command.
    pub closed spec fn wf(&self) -> bool {
        &&& self@.inv()
        &&& self.mem_req matches Some(q) ==> self.cmd is Some && q@ == KernelModel::header_read(
            self.cmd.unwrap().0,
        )
    }

    /// A well-formed engine satisfies the model's invariant.
    pub proof fn lemma_wf(&self)
        requires
            self.wf(),
        ensures
            self@.inv(),
    {
    }

    /// Takes a command to work on, with the ticket of its completion slot.
    pub fn set_cmd(&mut self, cmd: EngineCommand, completion_idx: usize)
        requires
            old(self).wf(),
            !old(self)@.busy(),
        ensures
            final(self).wf(),
            final(self)@ == old(self)@.set_cmd(cmd@, completion_idx),
    {
        self.cmd = Some((KernelCommand::from_engine_cmd(cmd), completion_idx));
    }

    pub fn busy(&self) -> (b: bool)
        ensures
            b == self@.busy(),
    {
        !matches!(self.state, KernelEngineState::S0) || self.cmd.is_some()
    }

    pub fn cmd_type(&self) -> (t: CmdType)
        ensures
            t == CmdType::KERNEL,
    {
        CmdType::KERNEL
    }

    /// Shows the engine the clusters it may schedule on. While a batch is
    /// posted, the clusters shown must have the resources they had.
    pub fn set_gluls(&mut self, gluls: Vec<GLULStatus>)
        requires
            old(self).wf(),
            old(self)@.glul_req matches Some((tb, idx)) ==> idx < gluls@.len()
                && gluls@[idx as int].config == old(self)@.gluls[idx as int].config,
        ensures
            final(self).wf(),
            final(self)@ == old(self)@.set_gluls(gluls@),
    {
        assert(gluls@.len() <= usize::MAX) by {
            assert(gluls@.len() == gluls.len());
        }
        self.gluls = gluls;
    }

    /// The bulk copy that waits to be serviced, if any.
    pub fn get_dma_req(&self) -> (r: Option<&DMAReq>)
        ensures
            match r {
                Some(d) => self@.dma_pending() == Some(*d),
                None => self@.dma_pending() is None,
            },
    {
        match &self.dma_req {
            Some(d) => if d.done {
                None
            } else {
                Some(d)
            },
            None => None,
        }
    }

    /// Tells the engine that its bulk copy was carried out.
    pub fn done_dma_req(&mut self)
        requires
            old(self).wf(),
            old(self)@.dma_pending() is Some,
        ensures
            final(self).wf(),
            final(self)@ == old(self)@.done_dma_req(),
            final(self)@.dma_pending() is None,
    {
        match self.dma_req {
            Some(d) => {
                self.dma_req = Some(
                    DMAReq {
                        dir: d.dir,
                        src_addr: d.src_addr,
                        target_addr: d.target_addr,
                        sz: d.sz,
                        done: true,
                    },
                );
            },
            None => {},
        }
    }

    /// The memory access that waits to be serviced, if any.
    pub fn get_mem_req(&self) -> (r: Option<&MemReq>)
        requires
            self.wf(),
        ensures
            match r {
                Some(q) => self@.mem_pending() == Some(q@),
                None => self@.mem_pending() is None,
            },
    {
        if self.mem_resp.is_some() {
            None
        } else {
            self.mem_req.as_ref()
        }
    }

    /// Hands the engine the bytes that its header read returned.
    pub fn set_mem_resp(&mut self, data: Option<&Vec<u8>>)
        requires
            old(self).wf(),
            old(self)@.mem_pending() is Some,
            data matches Some(bytes) && bytes@.len() >= PAYLOAD_BYTES,
        ensures
            final(self).wf(),
            final(self)@ == old(self)@.set_mem_resp(data->0@),
            final(self)@.mem_pending() is None,
    {
        match data {
            Some(bytes) => {
                self.mem_resp = Some(MemResp { data: Some(bytes.clone()) });
            },
            None => {},
        }
    }

    /// The batch that waits to be taken to its cluster, if any.
    pub fn get_glul_req(&self) -> (r: Option<&GLULReq>)
        ensures
            match r {
                Some(q) => q.thread_blocks is Some && self@.glul_req == Some(
                    (q.thread_blocks->0@, q.idx),
                ),
                None => self@.glul_req is None,
            },
    {
        if self.glul_req.thread_blocks.is_some() {
            Some(&self.glul_req)
        } else {
            None
        }
    }

    /// Drops the batch that was posted.
    pub fn clear_glul_req(&mut self)
        requires
            old(self).wf(),
        ensures
            final(self).wf(),
            final(self)@ == old(self)@.clear_glul_req(),
    {
        self.glul_req.thread_blocks = None;
    }

    /// Counts `tbs` more blocks as done. Blocks reported while no kernel is
    /// being scheduled are dropped.
    pub fn notify_glul_done(&mut self, tbs: usize)
        requires
            old(self).wf(),
            old(self)@.state == KernelEngineState::S3
                ==> old(self)@.tb_done + tbs + old(self)@.posted_blocks() <= old(self)@.tb_ctr,
        ensures
            final(self).wf(),
            final(self)@ == old(self)@.notify_glul_done(tbs as nat),
    {
        if matches!(self.state, KernelEngineState::S3) {
            self.tb_done = self.tb_done + tbs as u128;
        }
    }

    /// Ends the kernel with the fault `err`. A fault reported while no
    /// kernel is being scheduled is dropped.
    pub fn notify_glul_err(&mut self, err: ExecErr)
        requires
            old(self).wf(),
        ensures
            final(self).wf(),
            final(self)@ == old(self)@.notify_glul_err(err),
    {
        if matches!(self.state, KernelEngineState::S3) {
            self.state = KernelEngineState::S5;
            self.err = Some(Err(err));
            self.glul_req.thread_blocks = None;
        }
    }

    /// The event to write to the ring and the ticket of its slot, once the
    /// outcome of the kernel is known.
    pub fn get_completion(&self) -> (r: Option<(Event, usize)>)
        requires
            self.wf(),
        ensures
            match r {
                Some((event, ticket)) => self@.completion() == Some((event@, ticket)),
                None => self@.completion() is None,
            },
    {
        match (self.err, self.cmd) {
            (Some(outcome), Some((cmd, ticket))) => Some(
                (Event::from_kernel_err(cmd.id, outcome), ticket),
            ),
            _ => None,
        }
    }

    /// The scheduler's choice among the clusters last shown.
    fn pick_glul(&self, tb_size: u128) -> (r: Option<(usize, usize)>)
        requires
            tb_size == volume(self.payload.block),
        ensures
            match r {
                Some((i, a)) => pick(self@.gluls, self@.payload) == Some((i as nat, a as nat)),
                None => pick(self@.gluls, self@.payload) is None,
            },
    {
        proof {
            lemma_volume_bound(self.payload.block);
        }
        let mut best: Option<(usize, usize)> = None;
        let mut i: usize = 0;
        while i < self.gluls.len()
            invariant
                i <= self.gluls@.len(),
                tb_size == volume(self.payload.block),
                tb_size <= 0xffff_ffff * 0xffff_ffff * 0xffff_ffff,
                match best {
                    Some((j, a)) => pick_upto(self.gluls@, self.payload, i as nat) == Some(
                        (j as nat, a as nat),
                    ),
                    None => pick_upto(self.gluls@, self.payload, i as nat) is None,
                },
            decreases self.gluls@.len() - i,
        {
            let glul = &self.gluls[i];
            let a: usize = if glul.busy {
                0
            } else {
                glul.config.admissible_blocks(
                    self.payload.regs_per_thread,
                    self.payload.shmem_per_block,
                    tb_size,
                )
            };
            let better: bool = a > 0 && match best {
                Some((_, b)) => a < b,
                None => true,
            };
            if better {
                best = Some((i, a));
            }
            i += 1;
        }
        best
    }

    /// Builds the batch of blocks `lo` to `hi` of the kernel.
    fn build_batch(&self, lo: u128, hi: u128) -> (tb: ThreadBlocks)
        requires
            self.cmd is Some,
            lo <= hi <= volume(self.payload.grid),
            hi - lo <= usize::MAX,
        ensures
            tb@ == KernelModel::batch(self.cmd.unwrap().0, self.payload, lo as nat, hi as nat),
    {
        let mut block_idxs: Vec<(u32, u32, u32)> = Vec::new();
        let mut at: u128 = lo;
        while at < hi
            invariant
                lo <= at <= hi <= volume(self.payload.grid),
                block_idxs@ == raster_range(self.payload.grid, lo as nat, at as nat),
            decreases hi - at,
        {
            block_idxs.push(raster_point(self.payload.grid, at));
            at = at + 1;
            assert(block_idxs@ =~= raster_range(self.payload.grid, lo as nat, at as nat));
        }
        let gpu_addr: u32 = match self.cmd {
            Some((cmd, _)) => cmd.gpu_addr,
            None => 0,
        };
        ThreadBlocks {
            pc: self.payload.start_pc,
            block_dim: self.payload.block,
            block_idxs,
            regs: self.payload.regs_per_thread as u32,
            shmem: self.payload.shmem_per_block,
            bp: gpu_addr,
        }
    }

    /// One scheduling step.
    fn schedule(&mut self)
        requires
            old(self).wf(),
            old(self)@.state == KernelEngineState::S3,
        ensures
            final(self).wf(),
            final(self)@ == old(self)@.schedule(),
    {
        let available: u128 = self.total_tb - self.tb_ctr;
        if available > 0 && self.glul_req.thread_blocks.is_none() {
            let tb_size: u128 = volume_of(self.payload.block);
            match self.pick_glul(tb_size) {
                Some((idx, a)) => {
                    let n: u128 = if a as u128 <= available {
                        a as u128
                    } else {
                        available
                    };
                    proof {
                        lemma_pick_upto(self@.gluls, self@.payload, self@.gluls.len());
                        self.gluls@[idx as int].config.lemma_admissible_fits(
                            self.payload.regs_per_thread,
                            self.payload.shmem_per_block,
                            volume(self.payload.block),
                            n as nat,
                        );
                    }
                    let tb = self.build_batch(self.tb_ctr, self.tb_ctr + n);
                    self.glul_req = GLULReq { thread_blocks: Some(tb), idx };
                    self.tb_ctr = self.tb_ctr + n;
                },
                None => {},
            }
        }
        if self.tb_done == self.total_tb {
            self.state = KernelEngineState::S4;
        }
    }
}

impl Configurable<KernelEngineConfig> for KernelEngine {
    open spec fn config_ok(config: KernelEngineConfig) -> bool {
        true
    }

    fn new(_config: KernelEngineConfig) -> (e: Self)
        ensures
            e.wf(),
            e@ == KernelModel::idle(),
    {
        KernelEngine {
            cmd: None,
            dma_req: None,
            mem_req: None,
            mem_resp: None,
            state: KernelEngineState::S0,
            payload: KernelPayload {
                start_pc: 0,
                kernel_pc: 0,
                params_sz: 0,
                binary_sz: 0,
                stack_base_addr: 0,
                tls_base_addr: 0,
                grid: (0, 0, 0),
                block: (0, 0, 0),
                printf_host_addr: 0,
                regs_per_thread: 0,
                shmem_per_block: 0,
                flags: 0,
            },
            tb_ctr: 0,
            total_tb: 0,
            tb_done: 0,
            gluls: Vec::new(),
            glul_req: GLULReq { thread_blocks: None, idx: 0 },
            err: None,
        }
    }
}

impl Clocked for KernelEngine {
    open spec fn clock_wf(&self) -> bool {
        self.wf()
    }

    fn tick(&mut self) -> (r: Result<(), SimErr>)
        ensures
            r is Ok,
            final(self).wf(),
            final(self)@ == old(self)@.tick(),
            final(self)@.quiet(),
    {
        match self.state {
            KernelEngineState::S0 => {
                if self.cmd.is_some() {
                    self.state = KernelEngineState::S1;
                    self.tb_ctr = 0;
                    self.tb_done = 0;
                }
            },
            KernelEngineState::S1 => {
                match self.dma_req {
                    Some(d) => {
                        if d.done {
                            self.dma_req = None;
                            self.state = KernelEngineState::S2;
                        }
                    },
                    None => {
                        match self.cmd {
                            Some((cmd, _)) => {
                                self.dma_req = Some(
                                    DMAReq {
                                        dir: DMADir::H2D,
                                        src_addr: cmd.host_addr,
                                        target_addr: cmd.gpu_addr,
                                        sz: cmd.sz,
                                        done: false,
                                    },
                                );
                            },
                            None => {},
                        }
                    },
                }
            },
            KernelEngineState::S2 => {
                if self.mem_req.is_some() {
                    let resp = self.mem_resp.take();
                    match resp {
                        Some(MemResp { data: Some(bytes) }) => {
                            let payload = KernelPayload::from_bytes(bytes.as_slice());
                            self.payload = payload;
                            self.total_tb = volume_of(payload.grid);
                            self.mem_req = None;
                            self.state = KernelEngineState::S3;
                        },
                        _ => {},
                    }
                } else {
                    match self.cmd {
                        Some((cmd, _)) => {
                            self.mem_req = Some(
                                MemReq {
                                    addr: cmd.gpu_addr,
                                    write: false,
                                    bytes: PAYLOAD_BYTES,
                                    data: Vec::new(),
                                },
                            );
                        },
                        None => {},
                    }
                }
            },
            KernelEngineState::S3 => {
                self.schedule();
            },
            KernelEngineState::S4 => {
                self.state = KernelEngineState::S5;
                self.err = Some(Ok(()));
            },
            KernelEngineState::S5 => {
                self.state = KernelEngineState::S0;
                self.cmd = None;
                self.err = None;
            },
        }
        Ok(())
    }

    fn busy(&mut self) -> (b: bool)
        ensures
            b == old(self)@.busy(),
    {
        !matches!(self.state, KernelEngineState::S0) || self.cmd.is_some()
    }
}

} // verus!
