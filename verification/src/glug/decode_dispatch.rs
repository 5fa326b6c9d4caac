//! Decode and dispatch: one FIFO per engine type, each entry a decoded
//! command with the ticket of its completion slot.

use crate::common::base::{cmd_type_of, CmdType, Command, Configurable};
use crate::common::queue::Queue;
use crate::glug::engine::EngineCommand;
use vstd::prelude::*;

verus! {

#[derive(Debug, Clone, Copy)]
pub struct DecodeDispatchConfig {
    pub kq_size: usize,
    pub mq_size: usize,
    pub csq_size: usize,
}

impl Default for DecodeDispatchConfig {
    fn default() -> (c: Self)
        ensures
            c.kq_size == 4,
            c.mq_size == 4,
            c.csq_size == 4,
    {
        DecodeDispatchConfig { kq_size: 4, mq_size: 4, csq_size: 4 }
    }
}

/// The FIFO of one engine type.
pub struct EngineQueue {
    pub q: Queue<(EngineCommand, usize)>,
    pub engine_type: CmdType,
}

/// The three FIFOs: kernel, memory, control/status.
pub struct DecodeDispatch {
    pub kq: EngineQueue,
    pub mq: EngineQueue,
    pub csq: EngineQueue,
}

impl DecodeDispatch {
    /// Each FIFO serves the type it was made for.
    pub open spec fn wf(&self) -> bool {
        &&& self.kq.engine_type == CmdType::KERNEL
        &&& self.mq.engine_type == CmdType::MEM
        &&& self.csq.engine_type == CmdType::CSR
        &&& self.kq.q.wf()
        &&& self.mq.q.wf()
        &&& self.csq.q.wf()
    }

    /// The FIFO of `cmd_type` exists and has room.
    pub open spec fn spec_can_enqueue(&self, cmd_type: CmdType) -> bool {
        match cmd_type {
            CmdType::KERNEL => self.kq.q@.len() != self.kq.q.capacity(),
            CmdType::MEM => self.mq.q@.len() != self.mq.q.capacity(),
            CmdType::CSR => self.csq.q@.len() != self.csq.q.capacity(),
            _ => false,
        }
    }

    #[verifier::when_used_as_spec(spec_can_enqueue)]
    pub fn can_enqueue(&self, cmd_type: CmdType) -> (b: bool)
        requires
            self.wf(),
        ensures
            b == self.spec_can_enqueue(cmd_type),
    {
        match cmd_type {
            CmdType::KERNEL => !self.kq.q.full(),
            CmdType::MEM => !self.mq.q.full(),
            CmdType::CSR => !self.csq.q.full(),
            _ => false,
        }
    }

    /// The entries of the FIFO that serves `cmd_type`; none for a type that
    /// has no FIFO.
    pub open spec fn entries(&self, cmd_type: CmdType) -> Seq<(EngineCommand, usize)> {
        match cmd_type {
            CmdType::KERNEL => self.kq.q@,
            CmdType::MEM => self.mq.q@,
            CmdType::CSR => self.csq.q@,
            _ => Seq::empty(),
        }
    }

    /// The three FIFOs have the bounds they had in `before`.
    pub open spec fn bounds_kept(&self, before: &DecodeDispatch) -> bool {
        &&& self.kq.q.capacity() == before.kq.q.capacity()
        &&& self.mq.q.capacity() == before.mq.q.capacity()
        &&& self.csq.q.capacity() == before.csq.q.capacity()
    }

    /// Decodes `cmd` and appends it, with its ticket, to the FIFO of its
    /// type. A command whose FIFO is full, or that has none, is dropped.
    pub fn enqueue(&mut self, cmd: Command, completion_idx: usize)
        requires
            old(self).wf(),
        ensures
            final(self).wf(),
            final(self).bounds_kept(old(self)),
            forall|t: CmdType|
                t != cmd_type_of(cmd@[0]) || !old(self).spec_can_enqueue(t)
                    ==> final(self).entries(t) == old(self).entries(t),
            old(self).spec_can_enqueue(cmd_type_of(cmd@[0])) ==> decoded_onto(
                old(self).entries(cmd_type_of(cmd@[0])),
                final(self).entries(cmd_type_of(cmd@[0])),
                cmd,
                completion_idx,
            ),
    {
        proof {
            cmd.lemma_len();
        }
        let engine_cmd = EngineCommand::from_command(cmd);
        match cmd.cmd_type() {
            CmdType::KERNEL => {
                self.kq.q.push((engine_cmd, completion_idx));
                assert(self.kq.q@.drop_last() =~= old(self).kq.q@ || self.kq.q@ == old(self).kq.q@);
            },
            CmdType::MEM => {
                self.mq.q.push((engine_cmd, completion_idx));
                assert(self.mq.q@.drop_last() =~= old(self).mq.q@ || self.mq.q@ == old(self).mq.q@);
            },
            CmdType::CSR => {
                self.csq.q.push((engine_cmd, completion_idx));
                assert(self.csq.q@.drop_last() =~= old(self).csq.q@
                    || self.csq.q@ == old(self).csq.q@);
            },
            _ => {},
        }
    }
}

/// `after` is `before` with one more entry at its end: the id and the
/// payload of `cmd`, with `ticket`.
pub open spec fn decoded_onto(
    before: Seq<(EngineCommand, usize)>,
    after: Seq<(EngineCommand, usize)>,
    cmd: Command,
    ticket: usize,
) -> bool {
    &&& after.len() == before.len() + 1
    &&& after.drop_last() == before
    &&& after.last().1 == ticket
    &&& after.last().0.spec_id() == cmd@[1]
    &&& after.last().0.spec_payload() == cmd@.subrange(2, 16)
}

impl Configurable<DecodeDispatchConfig> for DecodeDispatch {
    open spec fn config_ok(config: DecodeDispatchConfig) -> bool {
        true
    }

    fn new(config: DecodeDispatchConfig) -> (d: Self)
        ensures
            d.wf(),
            d.kq.q@.len() == 0 && d.kq.q.capacity() == config.kq_size,
            d.mq.q@.len() == 0 && d.mq.q.capacity() == config.mq_size,
            d.csq.q@.len() == 0 && d.csq.q.capacity() == config.csq_size,
    {
        DecodeDispatch {
            kq: EngineQueue { q: Queue::new(config.kq_size), engine_type: CmdType::KERNEL },
            mq: EngineQueue { q: Queue::new(config.mq_size), engine_type: CmdType::MEM },
            csq: EngineQueue { q: Queue::new(config.csq_size), engine_type: CmdType::CSR },
        }
    }
}

} // verus!
