//! The orchestrator: composes frontend, decode and dispatch, engines,
//! completion ring and clusters, and steps them in a fixed order of phases.
//!
//! The cores of a cluster, the device memory and the host memory live outside
//! of this crate. A cycle is therefore made of two calls: `begin_tick` runs
//! the phases up to the point where the outside has to act and says what it
//! has to do; `tick` takes what came of it and runs the remaining phases.

use crate::common::base::{
    cmd_type_of, Clocked, CmdType, Command, Configurable, DMAReq, Event, MemReq, SimErr,
};
use crate::glug::completion::{
    lemma_offset_after_pop, lemma_offset_injective, offset_of, ticket_at,
    Completion, CompletionConfig,
};
use crate::glug::decode_dispatch::{DecodeDispatch, DecodeDispatchConfig};
use crate::glug::engine::{Engine, EngineCommand, EngineCommandView, EngineConfig, EngineModel};
use crate::glug::engines::kernel_engine::KernelEngineState;
use crate::glug::engines::mem_engine::MemCommand;
use crate::glug::frontend::{Frontend, FrontendConfig};
use crate::glug::model::{
    dispatched, first_dma, first_dma_upto, first_idle, first_idle_upto, first_mem, first_mem_upto,
        kill_all,
    lemma_first_dma, lemma_first_idle, lemma_first_mem, statuses, GLUGModel,
    WorkView,
};
use crate::glul::glul::{
    ExecOutcome, GLULConfig, GLULModel, GLULStatus, GLULWork, GLUL,
};
use vstd::prelude::*;

verus! {

#[derive(Debug, Default, Clone)]
pub struct GLUGConfig {
    pub frontend: FrontendConfig,
    pub decode_dispatch: DecodeDispatchConfig,
    pub engine: EngineConfig,
    pub completion: CompletionConfig,
    pub gluls: Vec<GLULConfig>,
    pub gluon_log_level: u64,
    pub muon_log_level: u64,
}

/// A command that the pipeline can decode: a MEM command names a known
/// operation.
pub open spec fn valid_command(bytes: Seq<u8>) -> bool {
    bytes[0] == 1 ==> bytes[2] <= 1
}

/// Where the command of a reserved completion slot is.
enum Place {
    /// In the kernel FIFO of decode and dispatch.
    Kq,
    /// In the memory FIFO.
    Mq,
    /// In the control/status FIFO.
    Csq,
    /// With the engine of this index.
    Engine(int),
    /// Nowhere: it was a fence, or its engine has let go of it.
    Nobody,
}

/// What is known of a reserved completion slot: the id of its command and
/// where the command is.
struct Entry {
    id: u8,
    place: Place,
}

/// Blocks of engine `e` that the clusters hold.
spec fn in_flight(gluls: Seq<GLULModel>, e: int) -> nat
    decreases gluls.len(),
{
    if gluls.len() == 0 {
        0
    } else {
        in_flight(gluls.drop_last(), e) + held_blocks(gluls.last(), e)
    }
}

/// Blocks of engine `e` that one cluster holds.
spec fn held_blocks(g: GLULModel, e: int) -> nat {
    if g.batch is Some && g.engine_idx == e {
        g.batch.unwrap().block_idxs.len()
    } else {
        0
    }
}

/// Slot `t` of the ring is reserved for a command with id `id` that is at
/// `place`.
spec fn booked(head: usize, slots: Seq<(Event, bool)>, book: Seq<Entry>, place: Place, id: u8,
    t: usize) -> bool {
    &&& offset_of(head, t) < book.len()
    &&& book[offset_of(head, t)].place == place
    &&& book[offset_of(head, t)].id == id
}

/// Slot `t` of the ring holds its event.
spec fn filled(head: usize, slots: Seq<(Event, bool)>, t: usize) -> bool {
    offset_of(head, t) < slots.len() && slots[offset_of(head, t)].1
}

/// Slot `t` of the ring is reserved and does not hold its event.
spec fn vacant(head: usize, slots: Seq<(Event, bool)>, t: usize) -> bool {
    offset_of(head, t) < slots.len() && !slots[offset_of(head, t)].1
}

/// Entry `i` of a FIFO of decode and dispatch has its slot booked and
/// empty.
spec fn entry_ok(
    head: usize,
    slots: Seq<(Event, bool)>,
    book: Seq<Entry>,
    q: Seq<(EngineCommand, usize)>,
    place: Place,
    i: int,
) -> bool {
    booked(head, slots, book, place, q[i].0.spec_id(), q[i].1) && vacant(head, slots, q[i].1)
}

/// Every entry of a FIFO has its slot booked and empty, and no two entries
/// share a slot.
spec fn fifo_ok(
    head: usize,
    slots: Seq<(Event, bool)>,
    book: Seq<Entry>,
    q: Seq<(EngineCommand, usize)>,
    place: Place,
) -> bool {
    &&& forall|i: int| 0 <= i < q.len() ==> #[trigger] entry_ok(head, slots, book, q, place, i)
    &&& forall|i: int, j: int| 0 <= i < j < q.len() ==> (#[trigger] q[i]).1 != (#[trigger] q[j]).1
}

/// The slots of engine `e` are booked; they are empty, but for the slot that
/// the engine's completion was written to in this cycle.
spec fn engine_ok(
    head: usize,
    slots: Seq<(Event, bool)>,
    book: Seq<Entry>,
    m: EngineModel,
    e: int,
    lo: int,
    hi: int,
) -> bool {
    let reported = lo <= e && e < hi;
    &&& m.cmd_ticket() matches Some((id, t)) ==> {
        &&& booked(head, slots, book, Place::Engine(e), id, t)
        &&& if reported && m is Kernel && m.completion() is Some {
            filled(head, slots, t)
        } else {
            vacant(head, slots, t)
        }
    }
    &&& m.report_ticket() matches Some((id, t)) ==> {
        &&& booked(head, slots, book, Place::Engine(e), id, t)
        &&& if reported {
            filled(head, slots, t)
        } else {
            vacant(head, slots, t)
        }
    }
    &&& m.cmd_ticket() is Some && m.report_ticket() is Some ==> m.cmd_ticket().unwrap().1
        != m.report_ticket().unwrap().1
}

/// Every slot that holds its event holds the id of the command it was
/// reserved for.
spec fn ids_ok(slots: Seq<(Event, bool)>, book: Seq<Entry>) -> bool {
    &&& book.len() == slots.len()
    &&& forall|k: int| 0 <= k < book.len() && (#[trigger] slots[k]).1
        ==> slots[k].0@[0] == book[k].id
}

/// Popping the head of the ring keeps every booked, empty slot booked and
/// empty.
proof fn lemma_pop_keeps(
    head: usize,
    slots: Seq<(Event, bool)>,
    book: Seq<Entry>,
    place: Place,
    id: u8,
    t: usize,
)
    requires
        slots.len() > 0,
        slots[0].1,
        book.len() == slots.len(),
        booked(head, slots, book, place, id, t),
        vacant(head, slots, t),
    ensures
        booked(ticket_at(head, 1), slots.drop_first(), book.drop_first(), place, id, t),
        vacant(ticket_at(head, 1), slots.drop_first(), t),
        offset_of(ticket_at(head, 1), t) == offset_of(head, t) - 1,
{
    lemma_offset_after_pop(head, t);
}

/// Replacing one cluster changes the blocks in flight by what that cluster
/// held and holds.
proof fn lemma_in_flight_update(gluls: Seq<GLULModel>, g: int, m: GLULModel, e: int)
    requires
        0 <= g < gluls.len(),
    ensures
        in_flight(gluls.update(g, m), e) == in_flight(gluls, e) - held_blocks(gluls[g], e)
            + held_blocks(m, e),
    decreases gluls.len(),
{
    let after = gluls.update(g, m);
    if g == gluls.len() - 1 {
        assert(after.drop_last() =~= gluls.drop_last());
    } else {
        assert(after.drop_last() =~= gluls.drop_last().update(g, m));
        lemma_in_flight_update(gluls.drop_last(), g, m, e);
    }
}

/// The blocks in flight are at least what any one cluster holds.
proof fn lemma_in_flight_covers(gluls: Seq<GLULModel>, g: int, e: int)
    requires
        0 <= g < gluls.len(),
    ensures
        in_flight(gluls, e) >= held_blocks(gluls[g], e),
    decreases gluls.len(),
{
    if g < gluls.len() - 1 {
        lemma_in_flight_covers(gluls.drop_last(), g, e);
    }
}

/// Clusters that only lose batches hold no more blocks than before.
proof fn lemma_in_flight_shrinks(before: Seq<GLULModel>, after: Seq<GLULModel>, e: int)
    requires
        before.len() == after.len(),
        forall|g: int|
            0 <= g < after.len() ==> ((#[trigger] after[g]).batch is Some ==> before[g].batch
                == after[g].batch && before[g].engine_idx == after[g].engine_idx),
    ensures
        in_flight(after, e) <= in_flight(before, e),
    decreases before.len(),
{
    if before.len() > 0 {
        lemma_in_flight_shrinks(before.drop_last(), after.drop_last(), e);
    }
}

/// While no cluster holds a batch of engine `e`, none of its blocks is in
/// flight.
proof fn lemma_in_flight_none(gluls: Seq<GLULModel>, e: int)
    requires
        forall|g: int| 0 <= g < gluls.len() ==> held_blocks(#[trigger] gluls[g], e) == 0,
    ensures
        in_flight(gluls, e) == 0,
    decreases gluls.len(),
{
    if gluls.len() > 0 {
        lemma_in_flight_none(gluls.drop_last(), e);
    }
}

/// An engine that takes a command holds the command's id and ticket, if it
/// holds anything.
proof fn lemma_ticket_id(m: EngineModel, cmd: EngineCommand, ticket: usize)
    ensures
        m.set_cmd(cmd@, ticket).report_ticket() == m.report_ticket(),
        m is CS ==> m.set_cmd(cmd@, ticket).cmd_ticket() is None,
        !(m is CS) ==> m.set_cmd(cmd@, ticket).cmd_ticket() == Some((cmd.spec_id(), ticket)),
{
}

/// The orchestrator as built from `config`: everything empty and at rest,
/// one cluster per cluster configuration, and every engine shown the
/// clusters.
pub open spec fn initial(config: GLUGConfig) -> GLUGModel {
    let gluls = Seq::new(config.gluls@.len(), |g: int| GLULModel::idle(config.gluls@[g]));
    GLUGModel {
        latch: None,
        queued: Seq::empty(),
        queue_cap: config.frontend.command_queue_size as nat,
        kq: Seq::empty(),
        kq_cap: config.decode_dispatch.kq_size as nat,
        mq: Seq::empty(),
        mq_cap: config.decode_dispatch.mq_size as nat,
        csq: Seq::empty(),
        csq_cap: config.decode_dispatch.csq_size as nat,
        head: 0,
        slots: Seq::empty(),
        ring_cap: config.completion.event_queue_size as nat,
        engines: Seq::new(
            (config.engine.num_kernel_engines + config.engine.num_mem_engines
                + config.engine.num_cs_engines) as nat,
            |e: int| config.engine.fresh_at(e).set_gluls(statuses(gluls)),
        ),
        gluls,
        in_tick: false,
    }
}

/// A FIFO of decode and dispatch as the contracts see it.
spec fn fifo_view(q: Seq<(EngineCommand, usize)>) -> Seq<(EngineCommandView, usize)> {
    Seq::new(q.len(), |i: int| (q[i].0@, q[i].1))
}

/// The slots of the ring as the contracts see them.
spec fn slots_view(slots: Seq<(Event, bool)>) -> Seq<(Seq<u8>, bool)> {
    Seq::new(slots.len(), |k: int| (slots[k].0@, slots[k].1))
}

/// What the outside has to do in a cycle.
pub struct TickWork {
    /// For each cluster, in order, what to do with its cores.
    pub gluls: Vec<GLULWork>,
    /// The device-memory access to carry out after that, if any.
    pub mem: Option<MemReq>,
    /// The bulk copy to carry out last, if any.
    pub dma: Option<DMAReq>,
}

/// What came of the outside's work in a cycle.
pub struct TickResult {
    /// For each cluster, in order, what its cores reported; of account only
    /// for a cluster that was asked to advance its cores.
    pub gluls: Vec<ExecOutcome>,
    /// The bytes read, if the device-memory access was a read.
    pub mem_data: Option<Vec<u8>>,
}

/// What the scheduler sees of each cluster.
fn snapshot(gluls: &Vec<GLUL>) -> (v: Vec<GLULStatus>)
    ensures
        v@.len() == gluls@.len(),
        forall|g: int|
            0 <= g < v@.len() ==> (#[trigger] v@[g]).config == gluls@[g]@.config && v@[g].busy
                == gluls@[g]@.busy,
{
    let mut v: Vec<GLULStatus> = Vec::new();
    let mut g: usize = 0;
    while g < gluls.len()
        invariant
            g <= gluls@.len(),
            v@.len() == g,
            forall|k: int|
                0 <= k < v@.len() ==> (#[trigger] v@[k]).config == gluls@[k]@.config && v@[k].busy
                    == gluls@[k]@.busy,
        decreases gluls@.len() - g,
    {
        let status = gluls[g].get_status();
        v.push(GLULStatus { config: status.config, busy: status.busy });
        g += 1;
    }
    v
}

pub struct GLUG {
    cmd_valid: bool,
    cmd: Command,
    frontend: Frontend,
    decode_dispatch: DecodeDispatch,
    engines: Vec<Engine>,
    completion: Completion,
    gluls: Vec<GLUL>,
    in_tick: bool,
    book: Ghost<Seq<Entry>>,
}

impl View for TickWork {
    type V = WorkView;

    open spec fn view(&self) -> WorkView {
        WorkView {
            gluls: Seq::new(self.gluls@.len(), |g: int| self.gluls@[g]@),
            mem: match self.mem {
                Some(q) => Some(q@),
                None => None,
            },
            dma: self.dma,
        }
    }
}

impl TickResult {
    /// The bytes read, as the contracts see them.
    pub open spec fn data(&self) -> Option<Seq<u8>> {
        match self.mem_data {
            Some(bytes) => Some(bytes@),
            None => None,
        }
    }
}

impl View for GLUG {
    type V = GLUGModel;

    closed spec fn view(&self) -> GLUGModel {
        GLUGModel {
            latch: self.latch(),
            queued: Seq::new(
                self.frontend.command_queue@.len(),
                |i: int| self.frontend.command_queue@[i]@,
            ),
            queue_cap: self.frontend.command_queue.capacity() as nat,
            kq: fifo_view(self.decode_dispatch.kq.q@),
            kq_cap: self.decode_dispatch.kq.q.capacity() as nat,
            mq: fifo_view(self.decode_dispatch.mq.q@),
            mq_cap: self.decode_dispatch.mq.q.capacity() as nat,
            csq: fifo_view(self.decode_dispatch.csq.q@),
            csq_cap: self.decode_dispatch.csq.q.capacity() as nat,
            head: self.completion.head(),
            slots: slots_view(self.completion.slots()),
            ring_cap: self.completion.capacity() as nat,
            engines: self.engine_models(),
            gluls: self.glul_models(),
            in_tick: self.in_tick,
        }
    }
}

impl GLUG {
    /// The command latched by the host, if one waits.
    spec fn latch(&self) -> Option<Seq<u8>> {
        if self.cmd_valid {
            Some(self.cmd@)
        } else {
            None
        }
    }

    /// The ids of the commands that were released from the frontend and
    /// whose completions were not popped yet, in the order of their release.
    pub closed spec fn pending_ids(&self) -> Seq<u8> {
        Seq::new(self.book@.len(), |k: int| self.book@[k].id)
    }

    /// The engines, as the contracts see them.
    spec fn engine_models(&self) -> Seq<EngineModel> {
        Seq::new(self.engines@.len(), |i: int| self.engines@[i]@)
    }

    /// The clusters, as the contracts see them.
    spec fn glul_models(&self) -> Seq<GLULModel> {
        Seq::new(self.gluls@.len(), |i: int| self.gluls@[i]@)
    }

    /// Every engine is well formed and knows the clusters' resources.
    spec fn inv_engines(&self) -> bool {
        forall|e: int|
            0 <= e < self.engines@.len() ==> {
                &&& (#[trigger] self.engines@[e]).wf()
                &&& self.engines@[e]@ matches EngineModel::Kernel(m) ==> {
                    &&& m.gluls.len() == self.gluls@.len()
                    &&& forall|g: int|
                        0 <= g < m.gluls.len() ==> (#[trigger] m.gluls[g]).config
                            == self.gluls@[g]@.config
                }
            }
    }

    /// Every cluster is well formed, and a cluster holds a batch only of a
    /// kernel engine that is scheduling.
    spec fn inv_gluls(&self) -> bool {
        forall|g: int|
            0 <= g < self.gluls@.len() ==> {
                &&& (#[trigger] self.gluls@[g]).wf()
                &&& self.gluls@[g]@.batch is Some ==> {
                    &&& self.gluls@[g]@.batch.unwrap().block_idxs.len() >= 1
                    &&& self.gluls@[g]@.engine_idx < self.engines@.len()
                    &&& self.engines@[self.gluls@[g]@.engine_idx as int]@.scheduling()
                }
            }
    }

    /// No kernel engine has more blocks done, posted and in flight than it
    /// has handed out.
    spec fn inv_blocks(&self) -> bool {
        forall|e: int|
            0 <= e < self.engines@.len()
                ==> (#[trigger] self.engines@[e]@ matches EngineModel::Kernel(
                m,
            ) ==> (m.state == KernelEngineState::S3 ==> m.tb_done + m.posted_blocks() + in_flight(
                self.glul_models(),
                e,
            ) <= m.tb_ctr))
    }

    /// Every command that waits to be decoded can be decoded.
    spec fn inv_valid(&self) -> bool {
        &&& self.cmd_valid ==> valid_command(self.cmd@)
        &&& forall|i: int|
            0 <= i < self.frontend.command_queue@.len() ==> valid_command(
                (#[trigger] self.frontend.command_queue@[i])@,
            )
        &&& forall|i: int|
            0 <= i < self.decode_dispatch.mq.q@.len()
                ==> MemCommand::valid((#[trigger] self.decode_dispatch.mq.q@[i]).0@)
    }

    /// Every command between release and completion has its slot in the
    /// ring, and no two share one. The engines from `lo` up to `hi` are
    /// those whose completions of this cycle are in the ring already.
    spec fn tickets_ok(&self, lo: int, hi: int) -> bool {
        let head = self.completion.head();
        let slots = self.completion.slots();
        &&& ids_ok(slots, self.book@)
        &&& fifo_ok(head, slots, self.book@, self.decode_dispatch.kq.q@, Place::Kq)
        &&& fifo_ok(head, slots, self.book@, self.decode_dispatch.mq.q@, Place::Mq)
        &&& fifo_ok(head, slots, self.book@, self.decode_dispatch.csq.q@, Place::Csq)
        &&& forall|e: int|
            0 <= e < self.engines@.len() ==> #[trigger] engine_ok(
                head,
                slots,
                self.book@,
                self.engines@[e]@,
                e,
                lo,
                hi,
            )
    }

    /// `tickets_ok` for the state between two calls.
    spec fn inv_tickets(&self) -> bool {
        if self.in_tick {
            self.tickets_ok(0, self.engines@.len() as int)
        } else {
            self.tickets_ok(0, 0)
        }
    }

    /// Everything but the tickets.
    spec fn inv_rest(&self) -> bool {
        &&& self.completion.wf()
        &&& self.decode_dispatch.wf()
        &&& self.frontend.command_queue.wf()
        &&& self.inv_engines()
        &&& self.inv_gluls()
        &&& self.inv_blocks()
        &&& self.inv_valid()
    }

    /// What holds of the orchestrator between any two calls.
    pub closed spec fn wf(&self) -> bool {
        self.inv_rest() && self.inv_tickets()
    }

    /// Everything but the engines and the clusters is as it was in
    /// `before`.
    spec fn pipeline_kept(&self, before: &GLUG) -> bool {
        &&& self.cmd_valid == before.cmd_valid
        &&& self.cmd == before.cmd
        &&& self.frontend == before.frontend
        &&& self.decode_dispatch == before.decode_dispatch
        &&& self.completion == before.completion
        &&& self.in_tick == before.in_tick
        &&& self.book@ == before.book@
        &&& self.engines@.len() == before.engines@.len()
        &&& self.gluls@.len() == before.gluls@.len()
        &&& forall|g: int|
            0 <= g < self.gluls@.len() ==> (#[trigger] self.gluls@[g])@.config
                == before.gluls@[g]@.config
    }

    /// Phase 1 for one cluster: takes its acknowledgement, if it has one,
    /// to the engine that submitted the batch; on a fault, kills every batch
    /// of that engine.
    fn drain_glul(&mut self, g: usize)
        requires
            old(self).wf(),
            !old(self).in_tick,
            g < old(self).gluls@.len(),
        ensures
            final(self).wf(),
            final(self).pipeline_kept(old(self)),
            final(self)@ == old(self)@.drain_one(g as int),
    {
        let ghost gluls0 = self.glul_models();
        let ghost engines0 = self.engine_models();
        let ack = self.gluls[g].try_acknowledge_done_err();
        proof {
            assert(self.glul_models() =~= gluls0.update(g as int, self.gluls@[g as int]@));
            assert(gluls0[g as int].inv()) by {
                old(self).gluls@[g as int].lemma_wf();
            }
        }
        match ack {
            Some(Ok((e, n))) => {
                proof {
                    lemma_in_flight_update(gluls0, g as int, self.gluls@[g as int]@, e as int);
                    lemma_in_flight_covers(gluls0, g as int, e as int);
                    assert(old(self).engines@[e as int]@.scheduling());
                }
                self.engines[e].notify_glul_done(n);
                proof {
                    let gluls1 = self.glul_models();
                    assert forall|x: int| 0 <= x < self.engines@.len() && x != e implies in_flight(
                        gluls1,
                        x,
                    ) <= in_flight(gluls0, x) by {
                        lemma_in_flight_update(gluls0, g as int, self.gluls@[g as int]@, x);
                    }
                    assert(self.inv_blocks());
                    assert forall|x: int| 0 <= x < self.engines@.len() implies #[trigger] engine_ok(
                        self.completion.head(),
                        self.completion.slots(),
                        self.book@,
                        self.engines@[x]@,
                        x,
                        0,
                        0,
                    ) by {
                        assert(engine_ok(
                            self.completion.head(),
                            self.completion.slots(),
                            self.book@,
                            old(self).engines@[x]@,
                            x,
                            0,
                            0,
                        ));
                    }
                    assert(self.inv_tickets());
                    assert(self.inv_gluls());
                    assert(self.inv_engines());
                    assert(self.engine_models() =~= engines0.update(
                        e as int,
                        engines0[e as int].notify_glul_done(n as nat),
                    ));
                }
            },
            Some(Err((e, err))) => {
                proof {
                    assert(old(self).engines@[e as int]@.scheduling());
                }
                self.engines[e].notify_glul_err(err);
                let ghost gluls1 = self.glul_models();
                self.kill_all(e, Ghost(*old(self)));
                proof {
                    assert(self.engine_models() =~= engines0.update(
                        e as int,
                        engines0[e as int].notify_glul_err(err),
                    ));
                    assert(self.glul_models() =~= kill_all(gluls1, e));
                }
            },
            None => {
                assert(self.glul_models() =~= gluls0);
                assert(gluls0.update(g as int, gluls0[g as int].ack()) =~= gluls0);
            },
        }
    }

    /// Kills every batch of engine `e`, which has just left scheduling.
    fn kill_all(&mut self, e: usize, Ghost(start): Ghost<GLUG>)
        requires
            start.wf(),
            !start.in_tick,
            e < start.engines@.len(),
            start.engines@[e as int]@.scheduling(),
            old(self).pipeline_kept(&start),
            old(self).engines@ == start.engines@.update(e as int, old(self).engines@[e as int]),
            old(self).engines@[e as int].wf(),
            old(self).engines@[e as int]@ == start.engines@[e as int]@.notify_glul_err(
                old(self).engines@[e as int]@->Kernel_0.err.unwrap()->Err_0,
            ),
            forall|g: int|
                0 <= g < old(self).gluls@.len()
                    ==> (#[trigger] old(self).gluls@[g]).wf()
                    && (old(self).gluls@[g]@ == start.gluls@[g]@
                    || old(self).gluls@[g]@ == start.gluls@[g]@.ack()),
        ensures
            final(self).wf(),
            final(self).pipeline_kept(&start),
            final(self).engines@ == old(self).engines@,
            forall|g: int|
                0 <= g < final(self).gluls@.len()
                    ==> (#[trigger] final(self).gluls@[g])@ == old(self).gluls@[g]@.kill(e),
    {
        let ghost mid = *self;
        let mut k: usize = 0;
        while k < self.gluls.len()
            invariant
                k <= self.gluls@.len(),
                start.wf(),
                !start.in_tick,
                e < start.engines@.len(),
                start.engines@[e as int]@.scheduling(),
                self.pipeline_kept(&start),
                self.engines@ == mid.engines@,
                mid.engines@ == start.engines@.update(e as int, mid.engines@[e as int]),
                mid.engines@[e as int].wf(),
                mid.engines@[e as int]@ == start.engines@[e as int]@.notify_glul_err(
                    mid.engines@[e as int]@->Kernel_0.err.unwrap()->Err_0,
                ),
                forall|g: int|
                    0 <= g < self.gluls@.len() ==> (#[trigger] self.gluls@[g]).wf() && (
                    self.gluls@[g]@.batch is Some ==> start.gluls@[g]@.batch is Some
                        && self.gluls@[g]@.engine_idx == start.gluls@[g]@.engine_idx
                        && self.gluls@[g]@.batch == start.gluls@[g]@.batch),
                forall|g: int|
                    0 <= g < k ==> !(#[trigger] self.gluls@[g])@.holds_for(e),
                self.gluls@.len() == mid.gluls@.len(),
                forall|g: int|
                    0 <= g < self.gluls@.len() ==> (#[trigger] self.gluls@[g])@ == (if g < k {
                        mid.gluls@[g]@.kill(e)
                    } else {
                        mid.gluls@[g]@
                    }),
            decreases self.gluls@.len() - k,
        {
            self.gluls[k].try_kill(e);
            k += 1;
        }
        proof {
            let gluls1 = self.glul_models();
            let gluls0 = start.glul_models();
            assert forall|x: int| 0 <= x < self.engines@.len() implies in_flight(gluls1, x)
                <= in_flight(gluls0, x) by {
                lemma_in_flight_shrinks(gluls0, gluls1, x);
            }
            assert(self.inv_engines());
            assert(self.inv_gluls());
            assert(self.inv_blocks());
            assert forall|x: int| 0 <= x < self.engines@.len() implies #[trigger] engine_ok(
                self.completion.head(),
                self.completion.slots(),
                self.book@,
                self.engines@[x]@,
                x,
                0,
                0,
            ) by {
                assert(engine_ok(
                    self.completion.head(),
                    self.completion.slots(),
                    self.book@,
                    start.engines@[x]@,
                    x,
                    0,
                    0,
                ));
            }
            assert(self.inv_tickets());
            assert(self.inv_valid());
        }
    }

    /// Phase 2 for one engine: writes its completion, if it has one, to the
    /// slot reserved for it.
    fn report_engine(&mut self, e: usize)
        requires
            old(self).inv_rest(),
            !old(self).in_tick,
            e < old(self).engines@.len(),
            old(self).tickets_ok(0, e as int),
        ensures
            final(self).inv_rest(),
            final(self).tickets_ok(0, e + 1),
            final(self).cmd_valid == old(self).cmd_valid,
            final(self).cmd == old(self).cmd,
            final(self).frontend == old(self).frontend,
            final(self).decode_dispatch == old(self).decode_dispatch,
            final(self).in_tick == old(self).in_tick,
            final(self).book@ == old(self).book@,
            final(self).engines@ == old(self).engines@,
            final(self).gluls@ == old(self).gluls@,
            final(self).completion.capacity() == old(self).completion.capacity(),
            final(self)@ == old(self)@.report_one(e as int),
    {
        let ghost head = self.completion.head();
        let ghost slots = self.completion.slots();
        let ghost book = self.book@;
        let ghost m = self.engines@[e as int]@;
        proof {
            assert(engine_ok(head, slots, book, m, e as int, 0, e as int));
            self.engines@[e as int].lemma_wf();
        }
        let completion = self.engines[e].get_completion();
        match completion {
            Some((event, t)) => {
                self.completion.set(t, event);
                proof {
                    let k = offset_of(head, t);
                    let slots1 = self.completion.slots();
                    assert(book[k].place == Place::Engine(e as int));
                    assert(event@[0] == book[k].id);
                    let kq = self.decode_dispatch.kq.q@;
                    let mq = self.decode_dispatch.mq.q@;
                    let csq = self.decode_dispatch.csq.q@;
                    assert forall|i: int| 0 <= i < kq.len() implies #[trigger] entry_ok(
                        head,
                        slots1,
                        book,
                        kq,
                        Place::Kq,
                        i,
                    ) by {
                        assert(entry_ok(head, slots, book, kq, Place::Kq, i));
                    }
                    assert forall|i: int| 0 <= i < mq.len() implies #[trigger] entry_ok(
                        head,
                        slots1,
                        book,
                        mq,
                        Place::Mq,
                        i,
                    ) by {
                        assert(entry_ok(head, slots, book, mq, Place::Mq, i));
                    }
                    assert forall|i: int| 0 <= i < csq.len() implies #[trigger] entry_ok(
                        head,
                        slots1,
                        book,
                        csq,
                        Place::Csq,
                        i,
                    ) by {
                        assert(entry_ok(head, slots, book, csq, Place::Csq, i));
                    }
                    assert forall|x: int| 0 <= x < self.engines@.len() implies #[trigger] engine_ok(
                        head,
                        slots1,
                        book,
                        self.engines@[x]@,
                        x,
                        0,
                        e + 1,
                    ) by {
                        assert(engine_ok(head, slots, book, self.engines@[x]@, x, 0, e as int));
                        if x == e {
                            let mx = self.engines@[x]@;
                            if mx.cmd_ticket() is Some && mx.report_ticket() is Some && offset_of(
                                head,
                                mx.cmd_ticket().unwrap().1,
                            ) == offset_of(head, mx.report_ticket().unwrap().1) {
                                lemma_offset_injective(
                                    head,
                                    mx.cmd_ticket().unwrap().1,
                                    mx.report_ticket().unwrap().1,
                                );
                            }
                        }
                    }
                    assert(ids_ok(slots1, book));
                    assert(slots_view(slots1) =~= slots_view(slots).update(k, (event@, true)));
                }
            },
            None => {
                proof {
                    assert forall|x: int| 0 <= x < self.engines@.len() implies #[trigger] engine_ok(
                        head,
                        slots,
                        book,
                        self.engines@[x]@,
                        x,
                        0,
                        e + 1,
                    ) by {
                        assert(engine_ok(head, slots, book, self.engines@[x]@, x, 0, e as int));
                    }
                }
            },
        }
    }

    /// Phase 3 for one engine: takes the batch it has posted, if any, to the
    /// cluster it is for, and clears the posting.
    fn submit_engine(&mut self, e: usize, Ghost(lo): Ghost<int>, Ghost(hi): Ghost<int>)
        requires
            old(self).inv_rest(),
            old(self).tickets_ok(lo, hi),
            e < old(self).engines@.len(),
        ensures
            final(self).inv_rest(),
            final(self).tickets_ok(lo, hi),
            final(self).pipeline_kept(old(self)),
            final(self)@ == old(self)@.submit_one(e as int),
    {
        let ghost gluls0 = self.glul_models();
        let ghost engines0 = self.engine_models();
        let ghost m = self.engines@[e as int]@;
        proof {
            self.engines@[e as int].lemma_wf();
        }
        let req = match self.engines[e].get_glul_req() {
            Some(q) => match &q.thread_blocks {
                Some(tb) => Some((tb.clone(), q.idx)),
                None => None,
            },
            None => None,
        };
        match req {
            Some((tb, idx)) => {
                proof {
                    assert(m.scheduling());
                    assert(self.gluls@[idx as int].wf());
                }
                self.gluls[idx].submit_thread_block(tb, e);
                self.engines[e].clear_glul_req();
                proof {
                    let gluls1 = self.glul_models();
                    assert(gluls1 =~= gluls0.update(idx as int, self.gluls@[idx as int]@));
                    assert(self.engine_models() =~= engines0.update(
                        e as int,
                        engines0[e as int].clear_glul_req(),
                    ));
                    assert forall|x: int| 0 <= x < self.engines@.len() implies in_flight(gluls1, x)
                        == in_flight(gluls0, x) - held_blocks(gluls0[idx as int], x) + held_blocks(
                        gluls1[idx as int],
                        x,
                    ) by {
                        lemma_in_flight_update(gluls0, idx as int, self.gluls@[idx as int]@, x);
                    }
                    assert(self.inv_engines());
                    assert(self.inv_gluls());
                    assert(self.inv_blocks());
                    assert forall|x: int| 0 <= x < self.engines@.len() implies #[trigger] engine_ok(
                        self.completion.head(),
                        self.completion.slots(),
                        self.book@,
                        self.engines@[x]@,
                        x,
                        lo,
                        hi,
                    ) by {
                        assert(engine_ok(
                            self.completion.head(),
                            self.completion.slots(),
                            self.book@,
                            old(self).engines@[x]@,
                            x,
                            lo,
                            hi,
                        ));
                    }
                }
            },
            None => {},
        }
    }

    /// The first engine that has a memory access waiting.
    fn find_mem(&self) -> (r: Option<usize>)
        requires
            self.inv_engines(),
        ensures
            match r {
                Some(i) => first_mem(self.engine_models()) == Some(i as int) && i
                    < self.engines@.len(),
                None => first_mem(self.engine_models()) is None,
            },
    {
        let ghost models = self.engine_models();
        let mut i: usize = 0;
        while i < self.engines.len()
            invariant
                i <= self.engines@.len(),
                self.inv_engines(),
                models == self.engine_models(),
                first_mem_upto(models, i as int) is None,
            decreases self.engines@.len() - i,
        {
            assert(self.engines@[i as int].wf());
            if self.engines[i].get_mem_req().is_some() {
                proof {
                    lemma_first_mem(models, models.len() as int);
                    lemma_first_mem(models, i as int);
                    lemma_first_mem(models, i + 1);
                }
                return Some(i);
            }
            i += 1;
        }
        None
    }

    /// The first engine that has a bulk copy waiting.
    fn find_dma(&self) -> (r: Option<usize>)
        ensures
            match r {
                Some(i) => first_dma(self.engine_models()) == Some(i as int) && i
                    < self.engines@.len(),
                None => first_dma(self.engine_models()) is None,
            },
    {
        let ghost models = self.engine_models();
        let mut i: usize = 0;
        while i < self.engines.len()
            invariant
                i <= self.engines@.len(),
                models == self.engine_models(),
                first_dma_upto(models, i as int) is None,
            decreases self.engines@.len() - i,
        {
            if self.engines[i].get_dma_req().is_some() {
                proof {
                    lemma_first_dma(models, models.len() as int);
                    lemma_first_dma(models, i as int);
                    lemma_first_dma(models, i + 1);
                }
                return Some(i);
            }
            i += 1;
        }
        None
    }

    /// Runs the first phases of a cycle: takes the clusters' acknowledgements
    /// to the engines, writes the engines' completions to the ring, and takes
    /// the engines' batches to the clusters. Says what the outside has to do
    /// before the cycle can end: for each cluster what its next step needs,
    /// and the one memory access and the one bulk copy that are serviced in
    /// this cycle, those of the first engine that has one waiting.
    pub fn begin_tick(&mut self) -> (work: TickWork)
        requires
            old(self).wf(),
            !old(self)@.in_tick,
        ensures
            final(self).wf(),
            final(self)@ == old(self)@.begin(),
            work@ == final(self)@.work(),
            final(self).pending_ids() == old(self).pending_ids(),
    {
        let ghost m0 = self@;
        let ghost n = self.engines@.len() as int;
        let mut g: usize = 0;
        while g < self.gluls.len()
            invariant
                g <= self.gluls@.len(),
                self.wf(),
                !self.in_tick,
                self.pipeline_kept(old(self)),
                self@ == m0.drain_upto(g as int),
            decreases self.gluls@.len() - g,
        {
            self.drain_glul(g);
            g += 1;
        }
        let ghost m1 = self@;
        let mut e: usize = 0;
        while e < self.engines.len()
            invariant
                e <= self.engines@.len(),
                n == self.engines@.len(),
                self.inv_rest(),
                !self.in_tick,
                self.tickets_ok(0, e as int),
                self.book@ == old(self).book@,
                self.gluls@.len() == old(self).gluls@.len(),
                self@ == m1.report_upto(e as int),
            decreases self.engines@.len() - e,
        {
            self.report_engine(e);
            e += 1;
        }
        let ghost m2 = self@;
        let mut e: usize = 0;
        while e < self.engines.len()
            invariant
                e <= self.engines@.len(),
                n == self.engines@.len(),
                self.inv_rest(),
                !self.in_tick,
                self.tickets_ok(0, n),
                self.book@ == old(self).book@,
                self.gluls@.len() == old(self).gluls@.len(),
                self@ == m2.submit_upto(e as int),
            decreases self.engines@.len() - e,
        {
            self.submit_engine(e, Ghost(0), Ghost(n));
            e += 1;
        }
        proof {
            assert(m0.gluls.len() == self.gluls@.len());
            assert(m0.engines.len() == n);
        }
        self.in_tick = true;
        let mut gluls: Vec<GLULWork> = Vec::new();
        let mut g: usize = 0;
        while g < self.gluls.len()
            invariant
                g <= self.gluls@.len(),
                self.inv_rest(),
                gluls@.len() == g,
                forall|k: int|
                    0 <= k < gluls@.len()
                        ==> (#[trigger] gluls@[k])@ == self.glul_models()[k].work(),
            decreases self.gluls@.len() - g,
        {
            assert(self.gluls@[g as int].wf());
            gluls.push(self.gluls[g].work());
            g += 1;
        }
        let mem = match self.find_mem() {
            Some(i) => {
                assert(self.engines@[i as int].wf());
                match self.engines[i].get_mem_req() {
                    Some(q) => Some(q.duplicate()),
                    None => None,
                }
            },
            None => None,
        };
        let dma = match self.find_dma() {
            Some(i) => match self.engines[i].get_dma_req() {
                Some(d) => Some(*d),
                None => None,
            },
            None => None,
        };
        let work = TickWork { gluls, mem, dma };
        proof {
            lemma_first_mem(self.engine_models(), n);
            lemma_first_dma(self.engine_models(), n);
            assert(work@.gluls =~= self@.work().gluls);
        }
        work
    }

    /// The tickets of every engine are as they were in `before`, and so is
    /// everything else that the ticket invariant speaks of.
    spec fn tickets_kept(&self, before: &GLUG) -> bool {
        &&& self.completion == before.completion
        &&& self.decode_dispatch == before.decode_dispatch
        &&& self.book@ == before.book@
        &&& self.engines@.len() == before.engines@.len()
        &&& forall|x: int|
            0 <= x < self.engines@.len() ==> (#[trigger] self.engines@[x])@.cmd_ticket()
                == before.engines@[x]@.cmd_ticket() && self.engines@[x]@.report_ticket()
                == before.engines@[x]@.report_ticket() && (self.engines@[x]@.completion() is Some)
                == (before.engines@[x]@.completion() is Some) && (self.engines@[x]@ is Kernel)
                == (before.engines@[x]@ is Kernel)
    }

    /// Tickets that were in order stay in order while no ticket changes
    /// hands.
    proof fn lemma_tickets_kept(&self, before: &GLUG, lo: int, hi: int)
        requires
            before.tickets_ok(lo, hi),
            self.tickets_kept(before),
        ensures
            self.tickets_ok(lo, hi),
    {
        assert forall|x: int| 0 <= x < self.engines@.len() implies #[trigger] engine_ok(
            self.completion.head(),
            self.completion.slots(),
            self.book@,
            self.engines@[x]@,
            x,
            lo,
            hi,
        ) by {
            assert(engine_ok(
                before.completion.head(),
                before.completion.slots(),
                before.book@,
                before.engines@[x]@,
                x,
                lo,
                hi,
            ));
        }
    }

    /// Phase 4 for one cluster: one step of its state machine.
    fn tick_glul(&mut self, g: usize, outcome: ExecOutcome)
        requires
            old(self).inv_rest(),
            g < old(self).gluls@.len(),
        ensures
            final(self).inv_rest(),
            final(self).pipeline_kept(old(self)),
            final(self).engines@ == old(self).engines@,
            final(self).gluls@.len() == old(self).gluls@.len(),
            forall|k: int|
                0 <= k < final(self).gluls@.len() ==> (#[trigger] final(self).gluls@[k])@ == (if k
                    == g {
                    old(self).gluls@[k]@.tick(outcome)
                } else {
                    old(self).gluls@[k]@
                }),
    {
        let ghost gluls0 = self.glul_models();
        assert(self.gluls@[g as int].wf());
        let _ = self.gluls[g].tick(outcome);
        proof {
            let gluls1 = self.glul_models();
            assert(gluls1 =~= gluls0.update(g as int, self.gluls@[g as int]@));
            assert forall|x: int| 0 <= x < self.engines@.len() implies in_flight(gluls1, x)
                == in_flight(gluls0, x) by {
                lemma_in_flight_update(gluls0, g as int, self.gluls@[g as int]@, x);
            }
            assert(self.inv_gluls());
            assert(self.inv_blocks());
            assert(self.inv_engines());
        }
    }

    /// Phase 5: hands the first engine that has a memory access waiting the
    /// answer to it.
    fn serve_mem(&mut self, data: &Option<Vec<u8>>)
        requires
            old(self).inv_rest(),
            old(self)@.answered_by(
                match data {
                    Some(bytes) => Some(bytes@),
                    None => None,
                },
            ),
        ensures
            final(self).inv_rest(),
            final(self).pipeline_kept(old(self)),
            final(self).tickets_kept(old(self)),
            final(self).gluls@ == old(self).gluls@,
            final(self)@ == old(self)@.serve_mem(
                match data {
                    Some(bytes) => Some(bytes@),
                    None => None,
                },
            ),
    {
        let ghost engines0 = self.engine_models();
        let ghost view = match data {
            Some(bytes) => Some(bytes@),
            None => None,
        };
        match self.find_mem() {
            Some(i) => {
                proof {
                    assert(self.engines@[i as int].wf());
                    self.engines@[i as int].lemma_wf();
                    lemma_first_mem(self.engine_models(), self.engines@.len() as int);
                }
                let write: bool = match self.engines[i].get_mem_req() {
                    Some(q) => q.write,
                    None => true,
                };
                if write {
                    self.engines[i].set_mem_resp(None);
                } else {
                    self.engines[i].set_mem_resp(data.as_ref());
                }
                proof {
                    assert(self.engine_models() =~= engines0.update(
                        i as int,
                        engines0[i as int].set_mem_resp(
                            if write {
                                None
                            } else {
                                view
                            },
                        ),
                    ));
                    assert(self.glul_models() =~= old(self).glul_models());
                    assert(self.inv_engines());
                    assert(self.inv_gluls());
                    assert(self.inv_blocks());
                }
            },
            None => {},
        }
    }

    /// Phase 6: tells the first engine that has a bulk copy waiting that the
    /// copy was carried out.
    fn serve_dma(&mut self)
        requires
            old(self).inv_rest(),
        ensures
            final(self).inv_rest(),
            final(self).pipeline_kept(old(self)),
            final(self).tickets_kept(old(self)),
            final(self).gluls@ == old(self).gluls@,
            final(self)@ == old(self)@.serve_dma(),
    {
        let ghost engines0 = self.engine_models();
        match self.find_dma() {
            Some(i) => {
                proof {
                    assert(self.engines@[i as int].wf());
                    self.engines@[i as int].lemma_wf();
                    lemma_first_dma(self.engine_models(), self.engines@.len() as int);
                }
                self.engines[i].done_dma_req();
                proof {
                    assert(self.engine_models() =~= engines0.update(
                        i as int,
                        engines0[i as int].done_dma_req(),
                    ));
                    assert(self.glul_models() =~= old(self).glul_models());
                    assert(self.inv_engines());
                    assert(self.inv_gluls());
                    assert(self.inv_blocks());
                }
            },
            None => {},
        }
    }

    /// Phase 7 for one engine: shows it the clusters as they are now, then
    /// one step of its state machine.
    fn tick_engine(&mut self, e: usize)
        requires
            old(self).inv_rest(),
            e < old(self).engines@.len(),
            old(self).tickets_ok(e as int, old(self).engines@.len() as int),
        ensures
            final(self).inv_rest(),
            final(self).tickets_ok(e + 1, old(self).engines@.len() as int),
            final(self).pipeline_kept(old(self)),
            final(self).gluls@ == old(self).gluls@,
            forall|x: int|
                0 <= x < final(self).engines@.len() ==> (#[trigger] final(self).engines@[x])@
                    == (if x == e {
                    old(self).engines@[x]@.set_gluls(statuses(old(self).glul_models())).tick()
                } else {
                    old(self).engines@[x]@
                }),
    {
        let ghost n = self.engines@.len() as int;
        let ghost gluls0 = self.glul_models();
        let ghost m0 = self.engines@[e as int]@;
        let ghost head = self.completion.head();
        let ghost slots = self.completion.slots();
        let ghost book = self.book@;
        proof {
            assert(self.engines@[e as int].wf());
            self.engines@[e as int].lemma_wf();
            assert(engine_ok(head, slots, book, m0, e as int, e as int, n));
        }
        let v = snapshot(&self.gluls);
        assert(v@ =~= statuses(gluls0));
        self.engines[e].set_gluls(v);
        let ghost m1 = self.engines@[e as int]@;
        let _ = self.engines[e].tick();
        proof {
            let m2 = self.engines@[e as int]@;
            self.engines@[e as int].lemma_wf();
            assert(m2 == m1.tick());
            assert(self.glul_models() =~= gluls0);
            if !m0.scheduling() {
                assert forall|g: int| 0 <= g < gluls0.len() implies held_blocks(
                    #[trigger] gluls0[g],
                    e as int,
                ) == 0 by {
                    assert(self.gluls@[g].wf());
                }
                lemma_in_flight_none(gluls0, e as int);
            }
            assert forall|g: int| 0 <= g < self.gluls@.len() && self.gluls@[g]@.batch is Some
                && self.gluls@[g]@.engine_idx == e implies m2.scheduling() by {
                assert(self.gluls@[g].wf());
                lemma_in_flight_covers(gluls0, g, e as int);
            }
            assert(self.inv_engines());
            assert(self.inv_gluls());
            assert(self.inv_blocks());
            assert forall|x: int| 0 <= x < self.engines@.len() implies #[trigger] engine_ok(
                head,
                slots,
                book,
                self.engines@[x]@,
                x,
                e + 1,
                n,
            ) by {
                assert(engine_ok(head, slots, book, old(self).engines@[x]@, x, e as int, n));
            }
        }
    }

    /// The first engine of type `t` that is not busy.
    fn find_idle(&self, t: CmdType) -> (r: Option<usize>)
        ensures
            match r {
                Some(e) => {
                    &&& e < self.engines@.len()
                    &&& first_idle(self.engine_models(), t) == Some(e as int)
                    &&& self.engines@[e as int]@.cmd_type() == t
                    &&& !self.engines@[e as int]@.busy()
                },
                None => first_idle(self.engine_models(), t) is None,
            },
    {
        let ghost models = self.engine_models();
        let mut e: usize = 0;
        while e < self.engines.len()
            invariant
                e <= self.engines@.len(),
                models == self.engine_models(),
                first_idle_upto(models, t, e as int) is None,
            decreases self.engines@.len() - e,
        {
            if self.engines[e].cmd_type() == t && !self.engines[e].busy() {
                proof {
                    lemma_first_idle(models, t, models.len() as int);
                    lemma_first_idle(models, t, e as int);
                    lemma_first_idle(models, t, e + 1);
                }
                return Some(e);
            }
            e += 1;
        }
        None
    }

    /// The FIFO of decode and dispatch that serves `which`.
    spec fn fifo(&self, which: CmdType) -> Seq<(EngineCommand, usize)> {
        match which {
            CmdType::KERNEL => self.decode_dispatch.kq.q@,
            CmdType::MEM => self.decode_dispatch.mq.q@,
            _ => self.decode_dispatch.csq.q@,
        }
    }

    /// Phase 8 for one FIFO: hands its head to the first engine of its type
    /// that is not busy, if there is one.
    fn dispatch(&mut self, which: CmdType)
        requires
            old(self).inv_rest(),
            old(self).tickets_ok(0, 0),
            which == CmdType::KERNEL || which == CmdType::MEM || which == CmdType::CSR,
        ensures
            final(self).inv_rest(),
            final(self).tickets_ok(0, 0),
            final(self).cmd_valid == old(self).cmd_valid,
            final(self).cmd == old(self).cmd,
            final(self).frontend == old(self).frontend,
            final(self).completion == old(self).completion,
            final(self).in_tick == old(self).in_tick,
            final(self).pending_ids() == old(self).pending_ids(),
            final(self).engines@.len() == old(self).engines@.len(),
            final(self).gluls@ == old(self).gluls@,
            (fifo_view(final(self).fifo(which)), final(self).engine_models()) == dispatched(
                fifo_view(old(self).fifo(which)),
                old(self).engine_models(),
                which,
            ),
            which != CmdType::KERNEL
                ==> final(self).decode_dispatch.kq == old(self).decode_dispatch.kq,
            which != CmdType::MEM
                ==> final(self).decode_dispatch.mq == old(self).decode_dispatch.mq,
            which != CmdType::CSR
                ==> final(self).decode_dispatch.csq == old(self).decode_dispatch.csq,
            final(self).decode_dispatch.kq.q.capacity()
                == old(self).decode_dispatch.kq.q.capacity(),
            final(self).decode_dispatch.mq.q.capacity()
                == old(self).decode_dispatch.mq.q.capacity(),
            final(self).decode_dispatch.csq.q.capacity()
                == old(self).decode_dispatch.csq.q.capacity(),
    {
        let ghost head = self.completion.head();
        let ghost slots = self.completion.slots();
        let ghost book = self.book@;
        let ghost engines0 = self.engine_models();
        let ghost kq = self.decode_dispatch.kq.q@;
        let ghost mq = self.decode_dispatch.mq.q@;
        let ghost csq = self.decode_dispatch.csq.q@;
        let ghost q0 = self.fifo(which);
        let ghost place = match which {
            CmdType::KERNEL => Place::Kq,
            CmdType::MEM => Place::Mq,
            _ => Place::Csq,
        };
        let ghost ids = self.pending_ids();
        let found = self.find_idle(which);
        match found {
            Some(e) => {
                let popped = match which {
                    CmdType::KERNEL => self.decode_dispatch.kq.q.pop(),
                    CmdType::MEM => self.decode_dispatch.mq.q.pop(),
                    _ => self.decode_dispatch.csq.q.pop(),
                };
                match popped {
                    Some((cmd, ticket)) => {
                        let ghost k = offset_of(head, ticket);
                        proof {
                            assert(entry_ok(head, slots, book, q0, place, 0));
                            assert(self.engines@[e as int].wf());
                            self.engines@[e as int].lemma_wf();
                            assert(engine_ok(head, slots, book, self.engines@[e as int]@, e as int,
                                0, 0));
                        }
                        self.engines[e].set_cmd(cmd, ticket);
                        proof {
                            let m = self.engines@[e as int]@;
                            let new_place = if m is CS {
                                Place::Nobody
                            } else {
                                Place::Engine(e as int)
                            };
                            let book1 = book.update(k, Entry { id: cmd.spec_id(),
                                place: new_place });
                            self.book@ = book1;
                            let kq1 = self.decode_dispatch.kq.q@;
                            let mq1 = self.decode_dispatch.mq.q@;
                            let csq1 = self.decode_dispatch.csq.q@;
                            assert forall|i: int| 0 <= i < kq1.len() implies #[trigger] entry_ok(
                                head,
                                slots,
                                book1,
                                kq1,
                                Place::Kq,
                                i,
                            ) by {
                                if which == CmdType::KERNEL {
                                    assert(entry_ok(head, slots, book, kq, Place::Kq, i + 1));
                                    assert(kq[0].1 != kq[i + 1].1);
                                    if offset_of(head, kq[i + 1].1) == k {
                                        lemma_offset_injective(head, kq[i + 1].1, ticket);
                                    }
                                } else {
                                    assert(entry_ok(head, slots, book, kq, Place::Kq, i));
                                }
                            }
                            assert forall|i: int| 0 <= i < mq1.len() implies #[trigger] entry_ok(
                                head,
                                slots,
                                book1,
                                mq1,
                                Place::Mq,
                                i,
                            ) by {
                                if which == CmdType::MEM {
                                    assert(entry_ok(head, slots, book, mq, Place::Mq, i + 1));
                                    assert(mq[0].1 != mq[i + 1].1);
                                    if offset_of(head, mq[i + 1].1) == k {
                                        lemma_offset_injective(head, mq[i + 1].1, ticket);
                                    }
                                } else {
                                    assert(entry_ok(head, slots, book, mq, Place::Mq, i));
                                }
                            }
                            assert forall|i: int| 0 <= i < csq1.len() implies #[trigger] entry_ok(
                                head,
                                slots,
                                book1,
                                csq1,
                                Place::Csq,
                                i,
                            ) by {
                                if which == CmdType::CSR {
                                    assert(entry_ok(head, slots, book, csq, Place::Csq, i + 1));
                                    assert(csq[0].1 != csq[i + 1].1);
                                    if offset_of(head, csq[i + 1].1) == k {
                                        lemma_offset_injective(head, csq[i + 1].1, ticket);
                                    }
                                } else {
                                    assert(entry_ok(head, slots, book, csq, Place::Csq, i));
                                }
                            }
                            assert forall|i: int, j: int| 0 <= i < j < kq1.len()
                                implies (#[trigger] kq1[i]).1
                                != (#[trigger] kq1[j]).1 by {
                                if which == CmdType::KERNEL {
                                    assert(kq[i + 1].1 != kq[j + 1].1);
                                }
                            }
                            assert forall|i: int, j: int| 0 <= i < j < mq1.len()
                                implies (#[trigger] mq1[i]).1
                                != (#[trigger] mq1[j]).1 by {
                                if which == CmdType::MEM {
                                    assert(mq[i + 1].1 != mq[j + 1].1);
                                }
                            }
                            assert forall|i: int, j: int| 0 <= i < j < csq1.len()
                                implies (#[trigger] csq1[i]).1
                                != (#[trigger] csq1[j]).1 by {
                                if which == CmdType::CSR {
                                    assert(csq[i + 1].1 != csq[j + 1].1);
                                }
                            }
                            assert forall|x: int| 0 <= x < self.engines@.len()
                                implies #[trigger] engine_ok(
                                head,
                                slots,
                                book1,
                                self.engines@[x]@,
                                x,
                                0,
                                0,
                            ) by {
                                assert(engine_ok(head, slots, book, old(self).engines@[x]@, x, 0,
                                    0));
                                if x == e {
                                    lemma_ticket_id(old(self).engines@[x]@, cmd, ticket);
                                }
                            }
                            assert(ids_ok(slots, book1));
                            assert(self.pending_ids() =~= ids);
                            assert(self.glul_models() =~= old(self).glul_models());
                            assert forall|i: int| 0 <= i < mq1.len()
                                implies MemCommand::valid((#[trigger] mq1[i]).0@) by {
                                if which == CmdType::MEM {
                                    assert(MemCommand::valid(mq[i + 1].0@));
                                }
                            }
                            assert(self.inv_valid());
                            assert(self.inv_engines());
                            assert(self.inv_gluls());
                            assert(self.inv_blocks());
                            assert(self.engine_models() =~= engines0.update(
                                e as int,
                                engines0[e as int].set_cmd(cmd@, ticket),
                            ));
                            assert(fifo_view(self.fifo(which)) =~= fifo_view(q0).drop_first());
                        }
                    },
                    None => {
                        assert(self.engine_models() =~= engines0);
                    },
                }
            },
            None => {
                assert(self.engine_models() =~= engines0);
            },
        }
    }

    /// Phase 9: moves the latched command into the frontend FIFO if it has
    /// room.
    fn ingest(&mut self)
        requires
            old(self).inv_rest(),
        ensures
            final(self).inv_rest(),
            final(self).decode_dispatch == old(self).decode_dispatch,
            final(self).completion == old(self).completion,
            final(self).in_tick == old(self).in_tick,
            final(self).book@ == old(self).book@,
            final(self).engines@ == old(self).engines@,
            final(self).gluls@ == old(self).gluls@,
            final(self)@ == old(self)@.ingest(),
    {
        if self.cmd_valid {
            if self.frontend.command_queue.push(self.cmd) {
                self.cmd_valid = false;
                self.cmd = Command::default();
            }
        }
        proof {
            assert(self.glul_models() =~= old(self).glul_models());
            assert(self@.queued =~= old(self)@.ingest().queued);
        }
    }

    /// Phase 10: releases the head of the frontend FIFO into decode and
    /// dispatch if it may go: a fence when the ring is empty, any other
    /// command when the FIFO of its type has room; and in either case only
    /// when the ring has a slot left for it. A fence has nothing to do and is
    /// complete at once.
    fn release(&mut self)
        requires
            old(self).inv_rest(),
            old(self).tickets_ok(0, 0),
        ensures
            final(self).inv_rest(),
            final(self).tickets_ok(0, 0),
            final(self).cmd_valid == old(self).cmd_valid,
            final(self).cmd == old(self).cmd,
            final(self).in_tick == old(self).in_tick,
            final(self).engines@ == old(self).engines@,
            final(self).gluls@ == old(self).gluls@,
            final(self)@ == old(self)@.release(),
            final(self).pending_ids() == if old(self)@.releases() {
                old(self).pending_ids().push(old(self)@.queued[0][1])
            } else {
                old(self).pending_ids()
            },
    {
        let ghost head = self.completion.head();
        let ghost slots = self.completion.slots();
        let ghost book = self.book@;
        let ghost kq = self.decode_dispatch.kq.q@;
        let ghost mq = self.decode_dispatch.mq.q@;
        let ghost csq = self.decode_dispatch.csq.q@;
        let ghost ids = self.pending_ids();
        let ghost fq = self.frontend.command_queue@;
        let go: bool = match self.frontend.command_queue.peek() {
            Some(cmd) => {
                let t = cmd.cmd_type();
                let free: bool = match t {
                    CmdType::FENCE => self.completion.empty(),
                    _ => self.decode_dispatch.can_enqueue(t),
                };
                free && !self.completion.full()
            },
            None => false,
        };
        if go {
            match self.frontend.command_queue.pop() {
                Some(cmd) => {
                    match self.completion.allocate() {
                        Some(ticket) => {
                            let ghost slots1 = self.completion.slots();
                            let ghost n = slots.len() as int;
                            let ghost place = match cmd_type_of(cmd@[0]) {
                                CmdType::KERNEL => Place::Kq,
                                CmdType::MEM => Place::Mq,
                                CmdType::CSR => Place::Csq,
                                _ => Place::Nobody,
                            };
                            proof {
                                cmd.lemma_len();
                                assert(offset_of(head, ticket) == n);
                                assert(valid_command(fq[0]@));
                            }
                            let ghost dd0 = self.decode_dispatch;
                            if cmd.is_fence() {
                                self.completion.set(ticket, Event::from_ok(cmd.id()));
                            } else {
                                self.decode_dispatch.enqueue(cmd, ticket);
                                proof {
                                    let t = cmd_type_of(cmd@[0]);
                                    let dd1 = self.decode_dispatch;
                                    assert(dd1.entries(CmdType::KERNEL) == dd1.kq.q@);
                                    assert(dd1.entries(CmdType::MEM) == dd1.mq.q@);
                                    assert(dd1.entries(CmdType::CSR) == dd1.csq.q@);
                                    assert(dd0.entries(CmdType::KERNEL) == kq);
                                    assert(dd0.entries(CmdType::MEM) == mq);
                                    assert(dd0.entries(CmdType::CSR) == csq);
                                    assert(dd1.entries(t) =~= dd0.entries(t).push(
                                        dd1.entries(t).last(),
                                    ));
                                }
                            }
                            proof {
                                let slots2 = self.completion.slots();
                                let book1 = book.push(Entry { id: cmd@[1], place });
                                self.book@ = book1;
                                let kq1 = self.decode_dispatch.kq.q@;
                                let mq1 = self.decode_dispatch.mq.q@;
                                let csq1 = self.decode_dispatch.csq.q@;
                                assert forall|i: int| 0 <= i < kq1.len()
                                    implies #[trigger] entry_ok(
                                    head,
                                    slots2,
                                    book1,
                                    kq1,
                                    Place::Kq,
                                    i,
                                ) by {
                                    if i < kq.len() {
                                        assert(entry_ok(head, slots, book, kq, Place::Kq, i));
                                    }
                                }
                                assert forall|i: int| 0 <= i < mq1.len()
                                    implies #[trigger] entry_ok(
                                    head,
                                    slots2,
                                    book1,
                                    mq1,
                                    Place::Mq,
                                    i,
                                ) by {
                                    if i < mq.len() {
                                        assert(entry_ok(head, slots, book, mq, Place::Mq, i));
                                    }
                                }
                                assert forall|i: int| 0 <= i < csq1.len()
                                    implies #[trigger] entry_ok(
                                    head,
                                    slots2,
                                    book1,
                                    csq1,
                                    Place::Csq,
                                    i,
                                ) by {
                                    if i < csq.len() {
                                        assert(entry_ok(head, slots, book, csq, Place::Csq, i));
                                    }
                                }
                                assert forall|i: int, j: int| 0
                                    <= i < j < kq1.len() implies (#[trigger] kq1[i]).1
                                    != (#[trigger] kq1[j]).1 by {
                                    if j >= kq.len() {
                                        assert(entry_ok(head, slots, book, kq, Place::Kq, i));
                                    }
                                }
                                assert forall|i: int, j: int| 0
                                    <= i < j < mq1.len() implies (#[trigger] mq1[i]).1
                                    != (#[trigger] mq1[j]).1 by {
                                    if j >= mq.len() {
                                        assert(entry_ok(head, slots, book, mq, Place::Mq, i));
                                    }
                                }
                                assert forall|i: int, j: int| 0
                                    <= i < j < csq1.len() implies (#[trigger] csq1[i]).1
                                    != (#[trigger] csq1[j]).1 by {
                                    if j >= csq.len() {
                                        assert(entry_ok(head, slots, book, csq, Place::Csq, i));
                                    }
                                }
                                assert forall|x: int| 0 <= x < self.engines@.len()
                                    implies #[trigger] engine_ok(
                                    head,
                                    slots2,
                                    book1,
                                    self.engines@[x]@,
                                    x,
                                    0,
                                    0,
                                ) by {
                                    assert(engine_ok(head, slots, book, self.engines@[x]@, x, 0,
                                        0));
                                }
                                assert(ids_ok(slots2, book1));
                                assert(self.pending_ids() =~= ids.push(cmd@[1]));
                                assert(self.glul_models() =~= old(self).glul_models());
                                assert forall|i: int| 0 <= i < mq1.len()
                                    implies MemCommand::valid((#[trigger] mq1[i]).0@) by {
                                    if i < mq.len() {
                                        assert(MemCommand::valid(mq[i].0@));
                                    }
                                }
                                assert forall|i: int|
                                    0 <= i < self.frontend.command_queue@.len()
                                        implies valid_command(
                                    (#[trigger] self.frontend.command_queue@[i])@,
                                ) by {
                                    assert(valid_command(fq[i + 1]@));
                                }
                                assert(self.inv_valid());
                                assert(self.inv_engines());
                                assert(self.inv_gluls());
                                assert(self.inv_blocks());
                                let want = old(self)@.release();
                                assert(self@.queued =~= want.queued);
                                assert(self@.slots =~= want.slots);
                                assert(self@.kq =~= want.kq);
                                assert(self@.mq =~= want.mq);
                                assert(self@.csq =~= want.csq);
                            }
                        },
                        None => {},
                    }
                },
                None => {},
            }
        } else {
            proof {
                if fq.len() > 0 {
                    fq[0].lemma_len();
                }
            }
        }
    }

    /// With no engine in the range, the range does not matter.
    proof fn lemma_tickets_range(&self, n: int)
        requires
            self.tickets_ok(n, n),
        ensures
            self.tickets_ok(0, 0),
    {
        assert forall|x: int| 0 <= x < self.engines@.len() implies #[trigger] engine_ok(
            self.completion.head(),
            self.completion.slots(),
            self.book@,
            self.engines@[x]@,
            x,
            0,
            0,
        ) by {
            assert(engine_ok(
                self.completion.head(),
                self.completion.slots(),
                self.book@,
                self.engines@[x]@,
                x,
                n,
                n,
            ));
        }
    }

    /// Phase 4.
    fn tick_gluls(&mut self, outcomes: &Vec<ExecOutcome>)
        requires
            old(self).inv_rest(),
            old(self).tickets_ok(0, old(self).engines@.len() as int),
            outcomes@.len() == old(self).gluls@.len(),
        ensures
            final(self).inv_rest(),
            final(self).tickets_ok(0, old(self).engines@.len() as int),
            final(self).pipeline_kept(old(self)),
            final(self).engines@ == old(self).engines@,
            final(self)@ == old(self)@.tick_gluls(outcomes@),
    {
        let ghost n = self.engines@.len() as int;
        let ghost m0 = self@;
        let mut g: usize = 0;
        while g < self.gluls.len()
            invariant
                g <= self.gluls@.len(),
                n == self.engines@.len(),
                self.inv_rest(),
                self.tickets_ok(0, n),
                self.pipeline_kept(old(self)),
                self.engines@ == old(self).engines@,
                outcomes@.len() == self.gluls@.len(),
                forall|k: int|
                    0 <= k < self.gluls@.len() ==> (#[trigger] self.gluls@[k])@ == (if k < g {
                        old(self).gluls@[k]@.tick(outcomes@[k])
                    } else {
                        old(self).gluls@[k]@
                    }),
            decreases self.gluls@.len() - g,
        {
            let ghost before = *self;
            self.tick_glul(g, outcomes[g]);
            proof {
                self.lemma_tickets_kept(&before, 0, n);
            }
            g += 1;
        }
        proof {
            assert(self.engine_models() =~= old(self).engine_models());
            assert(self.glul_models() =~= m0.tick_gluls(outcomes@).gluls);
        }
    }

    /// Phase 7.
    fn tick_engines(&mut self)
        requires
            old(self).inv_rest(),
            old(self).tickets_ok(0, old(self).engines@.len() as int),
        ensures
            final(self).inv_rest(),
            final(self).tickets_ok(0, 0),
            final(self).pipeline_kept(old(self)),
            final(self)@ == old(self)@.tick_engines(),
    {
        let ghost n = self.engines@.len() as int;
        let ghost m0 = self@;
        let mut e: usize = 0;
        while e < self.engines.len()
            invariant
                e <= n,
                n == self.engines@.len(),
                self.inv_rest(),
                self.tickets_ok(e as int, n),
                self.pipeline_kept(old(self)),
                self.gluls@ == old(self).gluls@,
                forall|x: int|
                    0 <= x < self.engines@.len() ==> (#[trigger] self.engines@[x])@ == (if x < e {
                        old(self).engines@[x]@.set_gluls(
                            statuses(old(self).glul_models()),
                        ).tick()
                    } else {
                        old(self).engines@[x]@
                    }),
            decreases self.engines@.len() - e,
        {
            proof {
                assert(self.glul_models() =~= old(self).glul_models());
            }
            self.tick_engine(e);
            e += 1;
        }
        proof {
            self.lemma_tickets_range(n);
            assert(self.glul_models() =~= old(self).glul_models());
            assert(self.engine_models() =~= m0.tick_engines().engines);
        }
    }

    /// Phase 8.
    fn dispatch_all(&mut self)
        requires
            old(self).inv_rest(),
            old(self).tickets_ok(0, 0),
        ensures
            final(self).inv_rest(),
            final(self).tickets_ok(0, 0),
            final(self).cmd_valid == old(self).cmd_valid,
            final(self).cmd == old(self).cmd,
            final(self).frontend == old(self).frontend,
            final(self).completion == old(self).completion,
            final(self).in_tick == old(self).in_tick,
            final(self).pending_ids() == old(self).pending_ids(),
            final(self)@ == old(self)@.dispatch(),
    {
        let ghost m0 = self@;
        self.dispatch(CmdType::KERNEL);
        proof {
            assert(self.glul_models() =~= m0.gluls);
        }
        self.dispatch(CmdType::MEM);
        self.dispatch(CmdType::CSR);
        proof {
            assert(self.glul_models() =~= m0.gluls);
        }
    }

    /// Runs the second half of the cycle that `begin_tick` began, given what
    /// came of the outside's work: phases 4 to 10.
    ///
    /// A released command takes the next place in the order of completions.
    /// A fence is released only when no earlier command has a completion
    /// that was not popped.
    pub fn tick(&mut self, result: TickResult) -> (r: Result<(), SimErr>)
        requires
            old(self).wf(),
            old(self)@.in_tick,
            result.gluls@.len() == old(self)@.gluls.len(),
            old(self)@.answered_by(result.data()),
        ensures
            r is Ok,
            final(self).wf(),
            final(self)@ == old(self)@.end(result.gluls@, result.data()),
            final(self).pending_ids() == if old(self)@.before_release(
                result.gluls@,
                result.data(),
            ).releases() {
                old(self).pending_ids().push(
                    old(self)@.before_release(result.gluls@, result.data()).queued[0][1],
                )
            } else {
                old(self).pending_ids()
            },
            old(self)@.before_release(result.gluls@, result.data()).releases()
                && old(self)@.before_release(result.gluls@, result.data()).queued[0][0]
                == 3 ==> old(self).pending_ids().len() == 0,
    {
        let ghost n = self.engines@.len() as int;
        let ghost ids = self.pending_ids();
        let ghost m0 = self@;
        self.tick_gluls(&result.gluls);
        let ghost before = *self;
        self.serve_mem(&result.mem_data);
        proof {
            self.lemma_tickets_kept(&before, 0, n);
        }
        let ghost before = *self;
        self.serve_dma();
        proof {
            self.lemma_tickets_kept(&before, 0, n);
        }
        self.tick_engines();
        self.dispatch_all();
        let ghost before = *self;
        self.ingest();
        proof {
            self.lemma_tickets_kept(&before, 0, 0);
            assert(self@.slots == m0.slots);
            assert(ids.len() == m0.slots.len());
        }
        self.release();
        self.in_tick = false;
        Ok(())
    }

    /// The commands between release and pop are those that have a slot in
    /// the ring, slot for slot; and an event that was written carries the id
    /// of the command that its slot was reserved for.
    pub proof fn lemma_pending(&self)
        requires
            self.wf(),
        ensures
            self.pending_ids().len() == self@.slots.len(),
            forall|k: int|
                0 <= k < self@.slots.len() && (#[trigger] self@.slots[k]).1 ==> self@.slots[k].0[0]
                    == self.pending_ids()[k],
    {
        assert forall|k: int| 0 <= k < self@.slots.len()
            && (#[trigger] self@.slots[k]).1 implies self@.slots[k].0[0]
            == self.pending_ids()[k] by {
            assert(self.completion.slots()[k].1);
        }
    }

    /// Every engine of a well-formed orchestrator satisfies its invariant,
    /// and so does every cluster.
    pub proof fn lemma_parts(&self)
        requires
            self.wf(),
        ensures
            forall|e: int| 0 <= e < self@.engines.len() ==> (#[trigger] self@.engines[e]).inv(),
            forall|g: int| 0 <= g < self@.gluls.len() ==> (#[trigger] self@.gluls[g]).inv(),
    {
        assert forall|e: int| 0 <= e < self@.engines.len()
            implies (#[trigger] self@.engines[e]).inv() by {
            assert(self.engines@[e].wf());
            self.engines@[e].lemma_wf();
        }
        assert forall|g: int| 0 <= g < self@.gluls.len()
            implies (#[trigger] self@.gluls[g]).inv() by {
            assert(self.gluls@[g].wf());
            self.gluls@[g].lemma_wf();
        }
    }

    /// Latches `command` for the frontend. A command that was latched and
    /// not taken yet is overwritten: the host submits only when `busy` says
    /// false.
    pub fn submit_command(&mut self, command: Command)
        requires
            old(self).wf(),
            valid_command(command@),
        ensures
            final(self).wf(),
            final(self)@ == (GLUGModel { latch: Some(command@), ..old(self)@ }),
            final(self).pending_ids() == old(self).pending_ids(),
    {
        self.cmd_valid = true;
        self.cmd = command;
        proof {
            assert(self.glul_models() =~= old(self).glul_models());
            assert(self.engine_models() =~= old(self).engine_models());
        }
    }

    /// Pops the completion at the head of the ring, if it was written.
    /// Completions come out in the order in which their commands were
    /// released from the frontend.
    pub fn get_completion(&mut self) -> (event: Option<Event>)
        requires
            old(self).wf(),
            !old(self)@.in_tick,
        ensures
            final(self).wf(),
            final(self)@ == old(self)@.pop(),
            match event {
                Some(e) => old(self)@.popped() == Some(e@) && old(self).pending_ids().len() > 0
                    && e@[0] == old(self).pending_ids()[0]
                        && final(self).pending_ids() == old(self).pending_ids().drop_first(),
                None => old(self)@.popped() is None
                    && final(self).pending_ids() == old(self).pending_ids(),
            },
    {
        let ghost head = self.completion.head();
        let ghost slots = self.completion.slots();
        let ghost ids = self.pending_ids();
        let event = self.completion.pop_completion();
        if event.is_some() {
            proof {
                let book = self.book@;
                let head1 = self.completion.head();
                let slots1 = self.completion.slots();
                self.book@ = book.drop_first();
                let kq = self.decode_dispatch.kq.q@;
                let mq = self.decode_dispatch.mq.q@;
                let csq = self.decode_dispatch.csq.q@;
                assert forall|i: int| 0 <= i < kq.len() implies #[trigger] entry_ok(
                    head1,
                    slots1,
                    self.book@,
                    kq,
                    Place::Kq,
                    i,
                ) by {
                    assert(entry_ok(head, slots, book, kq, Place::Kq, i));
                    lemma_pop_keeps(head, slots, book, Place::Kq, kq[i].0.spec_id(), kq[i].1);
                }
                assert forall|i: int| 0 <= i < mq.len() implies #[trigger] entry_ok(
                    head1,
                    slots1,
                    self.book@,
                    mq,
                    Place::Mq,
                    i,
                ) by {
                    assert(entry_ok(head, slots, book, mq, Place::Mq, i));
                    lemma_pop_keeps(head, slots, book, Place::Mq, mq[i].0.spec_id(), mq[i].1);
                }
                assert forall|i: int| 0 <= i < csq.len() implies #[trigger] entry_ok(
                    head1,
                    slots1,
                    self.book@,
                    csq,
                    Place::Csq,
                    i,
                ) by {
                    assert(entry_ok(head, slots, book, csq, Place::Csq, i));
                    lemma_pop_keeps(head, slots, book, Place::Csq, csq[i].0.spec_id(), csq[i].1);
                }
                assert forall|e: int| 0 <= e < self.engines@.len() implies #[trigger] engine_ok(
                    head1,
                    slots1,
                    self.book@,
                    self.engines@[e]@,
                    e,
                    0,
                    0,
                ) by {
                    let m = self.engines@[e]@;
                    assert(engine_ok(head, slots, book, m, e, 0, 0));
                    if m.cmd_ticket() is Some {
                        let (id, t) = m.cmd_ticket().unwrap();
                        lemma_pop_keeps(head, slots, book, Place::Engine(e), id, t);
                    }
                    if m.report_ticket() is Some {
                        let (id, t) = m.report_ticket().unwrap();
                        lemma_pop_keeps(head, slots, book, Place::Engine(e), id, t);
                    }
                }
                assert(ids_ok(slots1, self.book@)) by {
                    assert forall|k: int|
                        0 <= k < self.book@.len()
                            && (#[trigger] slots1[k]).1 implies slots1[k].0@[0]
                        == self.book@[k].id by {
                        assert(slots[k + 1].1);
                    }
                }
                assert(self.pending_ids() =~= ids.drop_first());
                assert(slots[0].1);
                assert(slots_view(slots1) =~= slots_view(slots).drop_first());
            }
        }
        proof {
            assert(self.glul_models() =~= old(self).glul_models());
            assert(self.engine_models() =~= old(self).engine_models());
        }
        event
    }

    /// Whether a latched command waits to enter the frontend FIFO.
    pub fn busy(&self) -> (b: bool)
        ensures
            b == (self@.latch is Some),
    {
        self.cmd_valid
    }
}

impl Configurable<GLUGConfig> for GLUG {
    open spec fn config_ok(config: GLUGConfig) -> bool {
        true
    }

    fn new(config: GLUGConfig) -> (glug: Self)
        ensures
            glug.wf(),
            glug@ == initial(config),
            glug.pending_ids() == Seq::<u8>::empty(),
    {
        let mut gluls: Vec<GLUL> = Vec::new();
        let mut g: usize = 0;
        while g < config.gluls.len()
            invariant
                g <= config.gluls@.len(),
                gluls@.len() == g,
                forall|k: int|
                    0 <= k < gluls@.len() ==> (#[trigger] gluls@[k]).wf() && gluls@[k]@
                        == GLULModel::idle(config.gluls@[k]),
            decreases config.gluls@.len() - g,
        {
            gluls.push(GLUL::new(config.gluls[g]));
            g += 1;
        }
        let mut engines = config.engine.generate_engines();
        let ghost models = Seq::new(gluls@.len(), |g: int| gluls@[g]@);
        let mut e: usize = 0;
        while e < engines.len()
            invariant
                e <= engines@.len(),
                forall|k: int|
                    0 <= k < gluls@.len() ==> (#[trigger] gluls@[k]).wf() && gluls@[k]@
                        == GLULModel::idle(config.gluls@[k]),
                models == Seq::new(gluls@.len(), |g: int| gluls@[g]@),
                engines@.len() == config.engine.num_kernel_engines
                    + config.engine.num_mem_engines + config.engine.num_cs_engines,
                forall|i: int|
                    0 <= i < engines@.len() ==> (#[trigger] engines@[i]).wf() && engines@[i]@
                        == (if i < e {
                        config.engine.fresh_at(i).set_gluls(statuses(models))
                    } else {
                        config.engine.fresh_at(i)
                    }),
            decreases engines@.len() - e,
        {
            let v = snapshot(&gluls);
            assert(v@ =~= statuses(models));
            engines[e].set_gluls(v);
            e += 1;
        }
        let glug = GLUG {
            cmd_valid: false,
            cmd: Command::default(),
            frontend: Frontend::new(config.frontend),
            decode_dispatch: DecodeDispatch::new(config.decode_dispatch),
            engines,
            completion: Completion::new(config.completion),
            gluls,
            in_tick: false,
            book: Ghost(Seq::empty()),
        };
        proof {
            assert(glug.pending_ids() =~= Seq::<u8>::empty());
            assert(glug@.queued =~= initial(config).queued);
            assert(glug@.kq =~= initial(config).kq);
            assert(glug@.mq =~= initial(config).mq);
            assert(glug@.csq =~= initial(config).csq);
            assert(glug@.slots =~= initial(config).slots);
            assert(glug@.gluls =~= initial(config).gluls);
            assert(models =~= glug@.gluls);
            assert forall|i: int| 0 <= i < glug@.engines.len() implies glug@.engines[i] == initial(
                config,
            ).engines[i] by {
                assert(glug.engines@[i].wf());
            }
            assert(glug@.engines =~= initial(config).engines);
            assert forall|i: int| 0 <= i < glug.engines@.len() implies #[trigger] engine_ok(
                glug.completion.head(),
                glug.completion.slots(),
                glug.book@,
                glug.engines@[i]@,
                i,
                0,
                0,
            ) by {
                assert(glug.engines@[i].wf());
            }
            assert(glug.inv_engines()) by {
                assert forall|i: int| 0 <= i < glug.engines@.len()
                    implies (#[trigger] glug.engines@[i]).wf() by {}
            }
            assert(glug.inv_blocks()) by {
                assert forall|i: int| 0 <= i < glug.engines@.len()
                    implies !(#[trigger] glug.engines@[i])@.scheduling() by {
                    assert(glug.engines@[i].wf());
                }
            }
        }
        glug
    }
}

} // verus!
