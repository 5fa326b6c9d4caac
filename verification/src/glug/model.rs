//! The orchestrator as a mathematical object: its state, and each phase of a
//! cycle as a function from state to state.
//!
//! A cycle runs its phases in this order:
//!
//! 1. every cluster's acknowledgement is taken to the engine it is for, and
//!    a fault kills every batch of that engine;
//! 2. every engine's completion is written to its slot of the ring;
//! 3. every engine's posted batch is taken to the cluster it is for;
//! 4. every cluster advances one step;
//! 5. the first engine that has a memory access waiting gets its answer;
//! 6. the first engine that has a bulk copy waiting is told it is done;
//! 7. every engine is shown the clusters and advances one step;
//! 8. the head of each FIFO of decode and dispatch goes to the first engine
//!    of its type that is not busy;
//! 9. the latched command enters the frontend FIFO if it has room;
//! 10. the head of the frontend FIFO is released if it may go.
//!
//! Phases 1 to 3 make up the first half of a cycle, phases 4 to 10 the
//! second; between the two the outside does the work that phases 4 to 6
//! speak of.

use crate::common::base::{
    cmd_type_of, ok_event, zeros16, CmdType, DMAReq, MemReqView,
};
use crate::glug::completion::{offset_of, ticket_at};
use crate::glug::engine::{EngineCommandView, EngineModel};
use crate::glul::glul::{ExecOutcome, GLULModel, GLULStatus, GLULWorkView};
use vstd::prelude::*;

verus! {

/// The state of the orchestrator.
pub struct GLUGModel {
    /// The command latched by the host, if one waits.
    pub latch: Option<Seq<u8>>,
    /// The commands in the frontend FIFO, head first.
    pub queued: Seq<Seq<u8>>,
    pub queue_cap: nat,
    /// The FIFOs of decode and dispatch: decoded commands with the tickets of
    /// their completion slots.
    pub kq: Seq<(EngineCommandView, usize)>,
    pub kq_cap: nat,
    pub mq: Seq<(EngineCommandView, usize)>,
    pub mq_cap: nat,
    pub csq: Seq<(EngineCommandView, usize)>,
    pub csq_cap: nat,
    /// The ticket of the head slot of the ring.
    pub head: usize,
    /// The slots of the ring, head first: the event and whether it was
    /// written.
    pub slots: Seq<(Seq<u8>, bool)>,
    pub ring_cap: nat,
    pub engines: Seq<EngineModel>,
    pub gluls: Seq<GLULModel>,
    /// Whether the first half of a cycle was run and the second was not.
    pub in_tick: bool,
}

/// What the outside has to do between the two halves of a cycle.
pub struct WorkView {
    pub gluls: Seq<GLULWorkView>,
    pub mem: Option<MemReqView>,
    pub dma: Option<DMAReq>,
}

/// The first of the first `n` engines that has a memory access waiting.
pub open spec fn first_mem_upto(engines: Seq<EngineModel>, n: int) -> Option<int>
    decreases n,
{
    if n <= 0 {
        None
    } else {
        match first_mem_upto(engines, n - 1) {
            Some(i) => Some(i),
            None => if engines[n - 1].mem_pending() is Some {
                Some(n - 1)
            } else {
                None
            },
        }
    }
}

/// The first of the first `n` engines that has a bulk copy waiting.
pub open spec fn first_dma_upto(engines: Seq<EngineModel>, n: int) -> Option<int>
    decreases n,
{
    if n <= 0 {
        None
    } else {
        match first_dma_upto(engines, n - 1) {
            Some(i) => Some(i),
            None => if engines[n - 1].dma_pending() is Some {
                Some(n - 1)
            } else {
                None
            },
        }
    }
}

/// The first of the first `n` engines that is of type `t` and not busy.
pub open spec fn first_idle_upto(engines: Seq<EngineModel>, t: CmdType, n: int) -> Option<int>
    decreases n,
{
    if n <= 0 {
        None
    } else {
        match first_idle_upto(engines, t, n - 1) {
            Some(i) => Some(i),
            None => if engines[n - 1].cmd_type() == t && !engines[n - 1].busy() {
                Some(n - 1)
            } else {
                None
            },
        }
    }
}

/// The engine whose memory access is serviced in this cycle: the first that
/// has one waiting.
pub open spec fn first_mem(engines: Seq<EngineModel>) -> Option<int> {
    first_mem_upto(engines, engines.len() as int)
}

/// The engine whose bulk copy is serviced in this cycle: the first that has
/// one waiting.
pub open spec fn first_dma(engines: Seq<EngineModel>) -> Option<int> {
    first_dma_upto(engines, engines.len() as int)
}

/// The engine that takes the next command of type `t`: the first of that
/// type that is not busy.
pub open spec fn first_idle(engines: Seq<EngineModel>, t: CmdType) -> Option<int> {
    first_idle_upto(engines, t, engines.len() as int)
}

/// The engine chosen has an access waiting, and no engine before it has.
pub proof fn lemma_first_mem(engines: Seq<EngineModel>, n: int)
    requires
        0 <= n <= engines.len(),
    ensures
        match first_mem_upto(engines, n) {
            Some(i) => 0 <= i < n && engines[i].mem_pending() is Some && forall|j: int|
                0 <= j < i ==> (#[trigger] engines[j]).mem_pending() is None,
            None => forall|j: int| 0 <= j < n ==> (#[trigger] engines[j]).mem_pending() is None,
        },
    decreases n,
{
    if n > 0 {
        lemma_first_mem(engines, n - 1);
    }
}

/// The engine chosen has a copy waiting, and no engine before it has.
pub proof fn lemma_first_dma(engines: Seq<EngineModel>, n: int)
    requires
        0 <= n <= engines.len(),
    ensures
        match first_dma_upto(engines, n) {
            Some(i) => 0 <= i < n && engines[i].dma_pending() is Some && forall|j: int|
                0 <= j < i ==> (#[trigger] engines[j]).dma_pending() is None,
            None => forall|j: int| 0 <= j < n ==> (#[trigger] engines[j]).dma_pending() is None,
        },
    decreases n,
{
    if n > 0 {
        lemma_first_dma(engines, n - 1);
    }
}

/// The engine chosen is of the type and not busy, and no engine before it
/// is both.
pub proof fn lemma_first_idle(engines: Seq<EngineModel>, t: CmdType, n: int)
    requires
        0 <= n <= engines.len(),
    ensures
        match first_idle_upto(engines, t, n) {
            Some(i) => 0 <= i < n && engines[i].cmd_type() == t && !engines[i].busy()
                && forall|j: int|
                0 <= j < i ==> !((#[trigger] engines[j]).cmd_type() == t && !engines[j].busy()),
            None => forall|j: int|
                0 <= j < n ==> !((#[trigger] engines[j]).cmd_type() == t && !engines[j].busy()),
        },
    decreases n,
{
    if n > 0 {
        lemma_first_idle(engines, t, n - 1);
    }
}

/// The clusters after every batch of engine `e` was killed.
pub open spec fn kill_all(gluls: Seq<GLULModel>, e: usize) -> Seq<GLULModel> {
    Seq::new(gluls.len(), |g: int| gluls[g].kill(e))
}

/// What the scheduler sees of the clusters.
pub open spec fn statuses(gluls: Seq<GLULModel>) -> Seq<GLULStatus> {
    Seq::new(gluls.len(), |g: int| GLULStatus { config: gluls[g].config, busy: gluls[g].busy })
}

/// A FIFO of decode and dispatch and the engines, after the head of the FIFO
/// went to the first engine of type `t` that is not busy, if there is such
/// an engine and the FIFO is not empty.
pub open spec fn dispatched(
    q: Seq<(EngineCommandView, usize)>,
    engines: Seq<EngineModel>,
    t: CmdType,
) -> (Seq<(EngineCommandView, usize)>, Seq<EngineModel>) {
    match first_idle(engines, t) {
        Some(e) => if q.len() > 0 {
            (q.drop_first(), engines.update(e, engines[e].set_cmd(q[0].0, q[0].1)))
        } else {
            (q, engines)
        },
        None => (q, engines),
    }
}

/// In a cycle one memory access is serviced, that of the first engine that
/// has one waiting: that engine has its answer afterwards and offers the
/// access no more, and no other engine is touched.
pub proof fn lemma_one_mem_per_cycle(m: GLUGModel, data: Option<Seq<u8>>)
    requires
        forall|e: int| 0 <= e < m.engines.len() ==> (#[trigger] m.engines[e]).inv(),
        m.answered_by(data),
    ensures
        m.serve_mem(data).engines.len() == m.engines.len(),
        match first_mem(m.engines) {
            Some(i) => m.serve_mem(data).engines[i].mem_pending() is None && forall|j: int|
                0 <= j < m.engines.len() && j != i ==> m.serve_mem(data).engines[j]
                    == m.engines[j],
            None => m.serve_mem(data) == m,
        },
{
    lemma_first_mem(m.engines, m.engines.len() as int);
    if first_mem(m.engines) is Some {
        let i = first_mem(m.engines).unwrap();
        let q = m.engines[i].mem_pending().unwrap();
        crate::glug::engine::lemma_mem_serviced_once(
            m.engines[i],
            if q.write {
                None
            } else {
                data
            },
        );
    }
}

/// In a cycle one bulk copy is serviced, that of the first engine that has
/// one waiting: that engine offers the copy no more afterwards, and no other
/// engine is touched.
pub proof fn lemma_one_dma_per_cycle(m: GLUGModel)
    requires
        forall|e: int| 0 <= e < m.engines.len() ==> (#[trigger] m.engines[e]).inv(),
    ensures
        m.serve_dma().engines.len() == m.engines.len(),
        match first_dma(m.engines) {
            Some(i) => m.serve_dma().engines[i].dma_pending() is None && forall|j: int|
                0 <= j < m.engines.len() && j != i ==> m.serve_dma().engines[j] == m.engines[j],
            None => m.serve_dma() == m,
        },
{
    lemma_first_dma(m.engines, m.engines.len() as int);
    if first_dma(m.engines) is Some {
        crate::glug::engine::lemma_dma_serviced_once(m.engines[first_dma(m.engines).unwrap()]);
    }
}

impl GLUGModel {
    /// Phase 1 for cluster `g`.
    pub open spec fn drain_one(self, g: int) -> GLUGModel {
        let gluls = self.gluls.update(g, self.gluls[g].ack());
        match self.gluls[g].ack_result() {
            Some(Ok((e, n))) => GLUGModel {
                gluls,
                engines: self.engines.update(
                    e as int,
                    self.engines[e as int].notify_glul_done(n as nat),
                ),
                ..self
            },
            Some(Err((e, err))) => GLUGModel {
                gluls: kill_all(gluls, e),
                engines: self.engines.update(e as int, self.engines[e as int].notify_glul_err(err)),
                ..self
            },
            None => GLUGModel { gluls, ..self },
        }
    }

    /// Phase 1 for the first `n` clusters, in order.
    pub open spec fn drain_upto(self, n: int) -> GLUGModel
        decreases n,
    {
        if n <= 0 {
            self
        } else {
            self.drain_upto(n - 1).drain_one(n - 1)
        }
    }

    /// Phase 2 for engine `e`.
    pub open spec fn report_one(self, e: int) -> GLUGModel {
        match self.engines[e].completion() {
            Some((event, t)) => GLUGModel {
                slots: self.slots.update(offset_of(self.head, t), (event, true)),
                ..self
            },
            None => self,
        }
    }

    /// Phase 2 for the first `n` engines, in order.
    pub open spec fn report_upto(self, n: int) -> GLUGModel
        decreases n,
    {
        if n <= 0 {
            self
        } else {
            self.report_upto(n - 1).report_one(n - 1)
        }
    }

    /// Phase 3 for engine `e`.
    pub open spec fn submit_one(self, e: int) -> GLUGModel {
        match self.engines[e].glul_req() {
            Some((tb, idx)) => GLUGModel {
                gluls: self.gluls.update(idx as int, self.gluls[idx as int].submit(tb, e as usize)),
                engines: self.engines.update(e, self.engines[e].clear_glul_req()),
                ..self
            },
            None => self,
        }
    }

    /// Phase 3 for the first `n` engines, in order.
    pub open spec fn submit_upto(self, n: int) -> GLUGModel
        decreases n,
    {
        if n <= 0 {
            self
        } else {
            self.submit_upto(n - 1).submit_one(n - 1)
        }
    }

    /// The first half of a cycle: phases 1 to 3.
    pub open spec fn begin(self) -> GLUGModel {
        let n = self.engines.len() as int;
        GLUGModel {
            in_tick: true,
            ..self.drain_upto(self.gluls.len() as int).report_upto(n).submit_upto(n)
        }
    }

    /// What the outside has to do before the second half: for each cluster
    /// what its step needs, then the one memory access and the one bulk copy
    /// that are serviced in this cycle.
    pub open spec fn work(self) -> WorkView {
        WorkView {
            gluls: Seq::new(self.gluls.len(), |g: int| self.gluls[g].work()),
            mem: match first_mem(self.engines) {
                Some(i) => self.engines[i].mem_pending(),
                None => None,
            },
            dma: match first_dma(self.engines) {
                Some(i) => self.engines[i].dma_pending(),
                None => None,
            },
        }
    }

    /// The answer that the memory access serviced in this cycle needs is at
    /// hand: the bytes read, if it is a read.
    pub open spec fn answered_by(self, data: Option<Seq<u8>>) -> bool {
        match self.work().mem {
            Some(q) => q.write || (data is Some && data.unwrap().len() >= q.bytes),
            None => true,
        }
    }

    /// Phase 4: `outcomes[g]` is what the cores of cluster `g` reported.
    pub open spec fn tick_gluls(self, outcomes: Seq<ExecOutcome>) -> GLUGModel {
        GLUGModel {
            gluls: Seq::new(self.gluls.len(), |g: int| self.gluls[g].tick(outcomes[g])),
            ..self
        }
    }

    /// Phase 5: `data` is what was read, if the access was a read.
    pub open spec fn serve_mem(self, data: Option<Seq<u8>>) -> GLUGModel {
        match first_mem(self.engines) {
            Some(i) => GLUGModel {
                engines: self.engines.update(
                    i,
                    self.engines[i].set_mem_resp(
                        if self.engines[i].mem_pending().unwrap().write {
                            None
                        } else {
                            data
                        },
                    ),
                ),
                ..self
            },
            None => self,
        }
    }

    /// Phase 6.
    pub open spec fn serve_dma(self) -> GLUGModel {
        match first_dma(self.engines) {
            Some(i) => GLUGModel {
                engines: self.engines.update(i, self.engines[i].done_dma_req()),
                ..self
            },
            None => self,
        }
    }

    /// Phase 7.
    pub open spec fn tick_engines(self) -> GLUGModel {
        GLUGModel {
            engines: Seq::new(
                self.engines.len(),
                |e: int| self.engines[e].set_gluls(statuses(self.gluls)).tick(),
            ),
            ..self
        }
    }

    /// Phase 8: the kernel FIFO first, then the memory FIFO, then the
    /// control/status FIFO.
    pub open spec fn dispatch(self) -> GLUGModel {
        let (kq, e1) = dispatched(self.kq, self.engines, CmdType::KERNEL);
        let (mq, e2) = dispatched(self.mq, e1, CmdType::MEM);
        let (csq, e3) = dispatched(self.csq, e2, CmdType::CSR);
        GLUGModel { kq, mq, csq, engines: e3, ..self }
    }

    /// Phase 9.
    pub open spec fn ingest(self) -> GLUGModel {
        if self.latch is Some && self.queued.len() != self.queue_cap {
            GLUGModel { latch: None, queued: self.queued.push(self.latch.unwrap()), ..self }
        } else {
            self
        }
    }

    /// The FIFO of decode and dispatch for commands of type `t` exists and
    /// has room.
    pub open spec fn can_enqueue(self, t: CmdType) -> bool {
        match t {
            CmdType::KERNEL => self.kq.len() != self.kq_cap,
            CmdType::MEM => self.mq.len() != self.mq_cap,
            CmdType::CSR => self.csq.len() != self.csq_cap,
            _ => false,
        }
    }

    /// The head of the frontend FIFO may go: a fence when the ring is empty,
    /// any other command when the FIFO of its type has room; and in either
    /// case only when the ring has a slot left.
    pub open spec fn releases(self) -> bool {
        &&& self.queued.len() > 0
        &&& self.slots.len() != self.ring_cap
        &&& if self.queued[0][0] == 3 {
            self.slots.len() == 0
        } else {
            self.can_enqueue(cmd_type_of(self.queued[0][0]))
        }
    }

    /// Phase 10: a released command gets the slot behind the last; a fence
    /// is complete at once, any other command goes to the FIFO of its type.
    pub open spec fn release(self) -> GLUGModel {
        if self.releases() {
            let cmd = self.queued[0];
            let ticket = ticket_at(self.head, self.slots.len() as int);
            let entry = (EngineCommandView { id: cmd[1], payload: cmd.subrange(2, 16) }, ticket);
            let rest = GLUGModel { queued: self.queued.drop_first(), ..self };
            match cmd_type_of(cmd[0]) {
                CmdType::FENCE => GLUGModel {
                    slots: self.slots.push((ok_event(cmd[1]), true)),
                    ..rest
                },
                CmdType::KERNEL => GLUGModel {
                    slots: self.slots.push((zeros16(), false)),
                    kq: self.kq.push(entry),
                    ..rest
                },
                CmdType::MEM => GLUGModel {
                    slots: self.slots.push((zeros16(), false)),
                    mq: self.mq.push(entry),
                    ..rest
                },
                _ => GLUGModel {
                    slots: self.slots.push((zeros16(), false)),
                    csq: self.csq.push(entry),
                    ..rest
                },
            }
        } else {
            self
        }
    }

    /// Phases 4 to 9.
    pub open spec fn before_release(
        self,
        outcomes: Seq<ExecOutcome>,
        data: Option<Seq<u8>>,
    ) -> GLUGModel {
        self.tick_gluls(outcomes).serve_mem(data).serve_dma().tick_engines().dispatch().ingest()
    }

    /// The second half of a cycle: phases 4 to 10.
    pub open spec fn end(self, outcomes: Seq<ExecOutcome>, data: Option<Seq<u8>>) -> GLUGModel {
        GLUGModel { in_tick: false, ..self.before_release(outcomes, data).release() }
    }

    /// Popping the head of the ring, if it was written.
    pub open spec fn pop(self) -> GLUGModel {
        if self.slots.len() > 0 && self.slots[0].1 {
            GLUGModel { head: ticket_at(self.head, 1), slots: self.slots.drop_first(), ..self }
        } else {
            self
        }
    }

    /// The event that popping returns.
    pub open spec fn popped(self) -> Option<Seq<u8>> {
        if self.slots.len() > 0 && self.slots[0].1 {
            Some(self.slots[0].0)
        } else {
            None
        }
    }
}

} // verus!
