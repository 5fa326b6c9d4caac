//! Memory engine: carries out COPY commands as one bulk copy and SET commands
//! as one device-memory write.

use crate::common::base::{
    ok_event, Clocked, CmdType, Configurable, DMADir, DMAReq, Event, MemReq, MemReqView,
    MemResp, SimErr,
};
use crate::common::bytes::{le_u32, read_le_u32};
use crate::glug::engine::{EngineCommand, EngineCommandView};
use crate::glul::glul::{GLULReq, GLULStatus};
use vstd::prelude::*;

verus! {

#[derive(Debug, Default, Clone, Copy)]
pub struct MemEngineConfig {}

/// Where the engine is with its command: idle, about to post the copy,
/// waiting for the copy, about to post the write, waiting for the write.
#[derive(Debug, Default, Clone, Copy, PartialEq, Eq, Structural)]
pub enum MemEngineState {
    #[default]
    I,
    C0,
    C1,
    S0,
    S1,
}

#[derive(Debug, Default, Clone, Copy, PartialEq, Eq, Structural)]
pub enum MemOp {
    #[default]
    COPY,
    SET,
}

impl MemOp {
    /// The operation that an op byte names, if it names one.
    pub open spec fn spec_decode(value: u8) -> Option<MemOp> {
        if value == 0 {
            Some(MemOp::COPY)
        } else if value == 1 {
            Some(MemOp::SET)
        } else {
            None
        }
    }

    #[verifier::when_used_as_spec(spec_decode)]
    pub fn decode(value: u8) -> (op: Option<MemOp>)
        ensures
            op == MemOp::spec_decode(value),
    {
        if value == 0 {
            Some(MemOp::COPY)
        } else if value == 1 {
            Some(MemOp::SET)
        } else {
            None
        }
    }
}

/// The payload of a MEM command: the operation and its 13 argument bytes.
#[derive(Debug, Clone, Copy)]
pub struct MemCommand {
    pub id: u8,
    pub op: MemOp,
    pub bytes: [u8; 13],
}

/// The arguments of a COPY.
#[derive(Debug, Default, Clone, Copy)]
pub struct CopyCommand {
    pub src: u32,
    pub dst: u32,
    pub len: u32,
    pub flags: u8,
}

impl CopyCommand {
    /// The arguments that 13 bytes encode: three little-endian words and the
    /// flags.
    pub open spec fn decode(b: Seq<u8>) -> CopyCommand {
        CopyCommand { src: le_u32(b, 0), dst: le_u32(b, 4), len: le_u32(b, 8), flags: b[12] }
    }

    pub fn from_bytes(bytes: [u8; 13]) -> (c: Self)
        ensures
            c == CopyCommand::decode(bytes@),
    {
        CopyCommand {
            src: read_le_u32(bytes.as_slice(), 0),
            dst: read_le_u32(bytes.as_slice(), 4),
            len: read_le_u32(bytes.as_slice(), 8),
            flags: bytes[12],
        }
    }

    /// The direction that the flags ask for: bit 0 set means host to device.
    pub open spec fn spec_dir(self) -> DMADir {
        if self.flags % 2 == 1 {
            DMADir::H2D
        } else {
            DMADir::D2H
        }
    }

    #[verifier::when_used_as_spec(spec_dir)]
    pub fn dir(self) -> (d: DMADir)
        ensures
            d == self.spec_dir(),
    {
        if self.flags % 2 == 1 {
            DMADir::H2D
        } else {
            DMADir::D2H
        }
    }
}

/// The arguments of a SET.
#[derive(Debug, Default, Clone, Copy)]
pub struct SetCommand {
    pub dst: u32,
    pub value: u32,
    pub len: u32,
    pub flags: u8,
}

impl SetCommand {
    /// The arguments that 13 bytes encode: three little-endian words and the
    /// flags.
    pub open spec fn decode(b: Seq<u8>) -> SetCommand {
        SetCommand { dst: le_u32(b, 0), value: le_u32(b, 4), len: le_u32(b, 8), flags: b[12] }
    }

    pub fn from_bytes(bytes: [u8; 13]) -> (c: Self)
        ensures
            c == SetCommand::decode(bytes@),
    {
        SetCommand {
            dst: read_le_u32(bytes.as_slice(), 0),
            value: read_le_u32(bytes.as_slice(), 4),
            len: read_le_u32(bytes.as_slice(), 8),
            flags: bytes[12],
        }
    }

    /// The byte that the write stores: the low byte of the value.
    pub open spec fn fill(self) -> u8 {
        (self.value % 0x100) as u8
    }
}

/// A MEM command as the contracts see it.
pub struct MemCommandView {
    pub id: u8,
    pub op: MemOp,
    pub args: Seq<u8>,
}

impl View for MemCommand {
    type V = MemCommandView;

    open spec fn view(&self) -> MemCommandView {
        MemCommandView { id: self.id, op: self.op, args: self.bytes@ }
    }
}

impl MemCommand {
    /// An engine command names a memory operation when its first payload
    /// byte is a known op.
    pub open spec fn valid(cmd: EngineCommandView) -> bool {
        cmd.payload[0] <= 1
    }

    /// The command that a valid engine command encodes: the op, then its 13
    /// argument bytes.
    pub open spec fn decode(cmd: EngineCommandView) -> MemCommandView {
        MemCommandView {
            id: cmd.id,
            op: MemOp::spec_decode(cmd.payload[0]).unwrap(),
            args: cmd.payload.subrange(1, 14),
        }
    }

    pub fn from_engine_cmd(cmd: EngineCommand) -> (m: Self)
        requires
            MemCommand::valid(cmd@),
        ensures
            m@ == MemCommand::decode(cmd@),
    {
        proof {
            cmd.lemma_len();
        }
        let p = cmd.payload();
        let op: MemOp = if p[0] == 0 {
            MemOp::COPY
        } else {
            MemOp::SET
        };
        let bytes: [u8; 13] = [
            p[1],
            p[2],
            p[3],
            p[4],
            p[5],
            p[6],
            p[7],
            p[8],
            p[9],
            p[10],
            p[11],
            p[12],
            p[13],
        ];
        assert(bytes@ =~= cmd.spec_payload().subrange(1, 14));
        MemCommand { id: cmd.id(), op, bytes }
    }
}

/// The engine as the contracts see it.
pub struct MemModel {
    /// The command being worked on, with its completion ticket.
    pub cmd: Option<(MemCommandView, usize)>,
    /// The bulk copy posted, if any.
    pub dma: Option<DMAReq>,
    /// The write posted, if any.
    pub mem: Option<MemReqView>,
    /// Whether the write was answered.
    pub answered: bool,
    pub state: MemEngineState,
    /// The id and the ticket of the command that just ended, until the next
    /// step.
    pub report: Option<(u8, usize)>,
}

impl MemModel {
    /// The engine at rest.
    pub open spec fn idle() -> MemModel {
        MemModel {
            cmd: None,
            dma: None,
            mem: None,
            answered: false,
            state: MemEngineState::I,
            report: None,
        }
    }

    /// The bulk copy that a COPY with arguments `args` asks for.
    pub open spec fn copy_req(args: Seq<u8>, done: bool) -> DMAReq {
        let c = CopyCommand::decode(args);
        DMAReq { dir: c.spec_dir(), src_addr: c.src, target_addr: c.dst, sz: c.len, done }
    }

    /// The write that a SET with arguments `args` asks for: `len` bytes, each
    /// the low byte of the value.
    pub open spec fn set_req(args: Seq<u8>) -> MemReqView {
        let c = SetCommand::decode(args);
        MemReqView {
            addr: c.dst,
            write: true,
            bytes: c.len,
            data: Seq::new(c.len as nat, |i: int| c.fill()),
        }
    }

    /// What holds of the engine between any two calls.
    pub open spec fn inv(self) -> bool {
        match self.state {
            MemEngineState::I => self.dma is None && self.mem is None && !self.answered,
            MemEngineState::C0 => {
                &&& self.cmd is Some && self.cmd.unwrap().0.op == MemOp::COPY
                &&& self.dma is None && self.mem is None && !self.answered
                &&& self.report is None
            },
            MemEngineState::C1 => {
                &&& self.cmd is Some
                &&& self.mem is None && !self.answered
                &&& self.report is None
                &&& self.dma matches Some(d) && d == MemModel::copy_req(
                    self.cmd.unwrap().0.args,
                    d.done,
                )
            },
            MemEngineState::S0 => {
                &&& self.cmd is Some && self.cmd.unwrap().0.op == MemOp::SET
                &&& self.dma is None && self.mem is None && !self.answered
                &&& self.report is None
            },
            MemEngineState::S1 => {
                &&& self.cmd is Some
                &&& self.dma is None
                &&& self.report is None
                &&& self.mem == Some(MemModel::set_req(self.cmd.unwrap().0.args))
            },
        }
    }

    /// No answer waits to be looked at: the state between two cycles.
    pub open spec fn quiet(self) -> bool {
        (self.dma matches Some(d) ==> !d.done) && !self.answered
    }

    pub open spec fn busy(self) -> bool {
        self.state != MemEngineState::I || self.cmd is Some
    }

    /// The bulk copy that waits to be serviced.
    pub open spec fn dma_pending(self) -> Option<DMAReq> {
        match self.dma {
            Some(d) => if d.done {
                None
            } else {
                Some(d)
            },
            None => None,
        }
    }

    /// The memory access that waits to be serviced.
    pub open spec fn mem_pending(self) -> Option<MemReqView> {
        if self.answered {
            None
        } else {
            self.mem
        }
    }

    /// The completion that waits to be written to the ring.
    pub open spec fn completion(self) -> Option<(Seq<u8>, usize)> {
        match self.report {
            Some((id, ticket)) => Some((ok_event(id), ticket)),
            None => None,
        }
    }

    pub open spec fn set_cmd(self, cmd: EngineCommandView, ticket: usize) -> MemModel {
        MemModel { cmd: Some((MemCommand::decode(cmd), ticket)), ..self }
    }

    pub open spec fn done_dma_req(self) -> MemModel {
        MemModel { dma: Some(DMAReq { done: true, ..self.dma.unwrap() }), ..self }
    }

    pub open spec fn set_mem_resp(self) -> MemModel {
        MemModel { answered: true, ..self }
    }

    /// One step of the state machine.
    pub open spec fn tick(self) -> MemModel {
        match self.state {
            MemEngineState::I => match self.cmd {
                Some((cmd, _)) => MemModel {
                    state: match cmd.op {
                        MemOp::COPY => MemEngineState::C0,
                        MemOp::SET => MemEngineState::S0,
                    },
                    report: None,
                    ..self
                },
                None => MemModel { report: None, ..self },
            },
            MemEngineState::C0 => MemModel {
                dma: Some(MemModel::copy_req(self.cmd.unwrap().0.args, false)),
                state: MemEngineState::C1,
                ..self
            },
            MemEngineState::C1 => if self.dma.unwrap().done {
                MemModel {
                    cmd: None,
                    dma: None,
                    state: MemEngineState::I,
                    report: Some((self.cmd.unwrap().0.id, self.cmd.unwrap().1)),
                    ..self
                }
            } else {
                self
            },
            MemEngineState::S0 => MemModel {
                mem: Some(MemModel::set_req(self.cmd.unwrap().0.args)),
                state: MemEngineState::S1,
                ..self
            },
            MemEngineState::S1 => if self.answered {
                MemModel {
                    cmd: None,
                    mem: None,
                    answered: false,
                    state: MemEngineState::I,
                    report: Some((self.cmd.unwrap().0.id, self.cmd.unwrap().1)),
                    ..self
                }
            } else {
                self
            },
        }
    }
}

/// Every step keeps the invariant and leaves no answer unlooked at; a
/// request that was answered is gone after the step.
pub proof fn lemma_tick_keeps_inv(m: MemModel)
    requires
        m.inv(),
    ensures
        m.tick().inv(),
        m.tick().quiet(),
        m.dma matches Some(d) && d.done ==> m.tick().dma_pending() is None,
        m.answered ==> m.tick().mem_pending() is None,
{
}

pub struct MemEngine {
    cmd: Option<(MemCommand, usize)>,
    dma_req: Option<DMAReq>,
    mem_req: Option<MemReq>,
    mem_resp: Option<MemResp>,
    state: MemEngineState,
    report: Option<(u8, usize)>,
}

impl View for MemEngine {
    type V = MemModel;

    closed spec fn view(&self) -> MemModel {
        MemModel {
            cmd: match self.cmd {
                Some((c, t)) => Some((c@, t)),
                None => None,
            },
            dma: self.dma_req,
            mem: match self.mem_req {
                Some(q) => Some(q@),
                None => None,
            },
            answered: self.mem_resp is Some,
            state: self.state,
            report: self.report,
        }
    }
}

/// `n` copies of `byte`.
fn filled(byte: u8, n: u32) -> (v: Vec<u8>)
    ensures
        v@ == Seq::new(n as nat, |i: int| byte),
{
    let mut v: Vec<u8> = Vec::new();
    let mut i: u32 = 0;
    while i < n
        invariant
            i <= n,
            v@ == Seq::new(i as nat, |k: int| byte),
        decreases n - i,
    {
        v.push(byte);
        i += 1;
        assert(v@ =~= Seq::new(i as nat, |k: int| byte));
    }
    v
}

impl MemEngine {
    pub closed spec fn wf(&self) -> bool {
        self@.inv()
    }

    /// A well-formed engine satisfies the model's invariant.
    pub proof fn lemma_wf(&self)
        requires
            self.wf(),
        ensures
            self@.inv(),
    {
    }

    /// Takes a command to work on, with the ticket of its completion slot.
    pub fn set_cmd(&mut self, cmd: EngineCommand, completion_idx: usize)
        requires
            old(self).wf(),
            !old(self)@.busy(),
            MemCommand::valid(cmd@),
        ensures
            final(self).wf(),
            final(self)@ == old(self)@.set_cmd(cmd@, completion_idx),
    {
        self.cmd = Some((MemCommand::from_engine_cmd(cmd), completion_idx));
    }

    pub fn busy(&self) -> (b: bool)
        ensures
            b == self@.busy(),
    {
        !matches!(self.state, MemEngineState::I) || self.cmd.is_some()
    }

    pub fn cmd_type(&self) -> (t: CmdType)
        ensures
            t == CmdType::MEM,
    {
        CmdType::MEM
    }

    /// The engine schedules nothing: the clusters shown are ignored.
    pub fn set_gluls(&mut self, _gluls: Vec<GLULStatus>)
        ensures
            *final(self) == *old(self),
    {
    }

    /// The bulk copy that waits to be serviced, if any.
    pub fn get_dma_req(&self) -> (r: Option<&DMAReq>)
        ensures
            match r {
                Some(d) => self@.dma_pending() == Some(*d),
                None => self@.dma_pending() is None,
            },
    {
        match &self.dma_req {
            Some(d) => if d.done {
                None
            } else {
                Some(d)
            },
            None => None,
        }
    }

    /// Tells the engine that its bulk copy was carried out.
    pub fn done_dma_req(&mut self)
        requires
            old(self).wf(),
            old(self)@.dma_pending() is Some,
        ensures
            final(self).wf(),
            final(self)@ == old(self)@.done_dma_req(),
            final(self)@.dma_pending() is None,
    {
        match self.dma_req {
            Some(d) => {
                self.dma_req = Some(
                    DMAReq {
                        dir: d.dir,
                        src_addr: d.src_addr,
                        target_addr: d.target_addr,
                        sz: d.sz,
                        done: true,
                    },
                );
            },
            None => {},
        }
    }

    /// The memory access that waits to be serviced, if any.
    pub fn get_mem_req(&self) -> (r: Option<&MemReq>)
        ensures
            match r {
                Some(q) => self@.mem_pending() == Some(q@),
                None => self@.mem_pending() is None,
            },
    {
        if self.mem_resp.is_some() {
            None
        } else {
            self.mem_req.as_ref()
        }
    }

    /// Tells the engine that its write was carried out. The engine never
    /// reads, so no data comes with the answer.
    pub fn set_mem_resp(&mut self, data: Option<&Vec<u8>>)
        requires
            old(self).wf(),
            old(self)@.mem_pending() is Some,
            data is None,
        ensures
            final(self).wf(),
            final(self)@ == old(self)@.set_mem_resp(),
            final(self)@.mem_pending() is None,
    {
        self.mem_resp = Some(MemResp { data: None });
    }

    /// The engine posts no batch.
    pub fn get_glul_req(&self) -> (r: Option<&GLULReq>)
        ensures
            r is None,
    {
        None
    }

    /// The event to write to the ring and the ticket of its slot, for the
    /// command that ended in the last step.
    pub fn get_completion(&self) -> (r: Option<(Event, usize)>)
        ensures
            match r {
                Some((event, ticket)) => self@.completion() == Some((event@, ticket)),
                None => self@.completion() is None,
            },
    {
        match self.report {
            Some((id, ticket)) => Some((Event::from_ok(id), ticket)),
            None => None,
        }
    }
}

impl Configurable<MemEngineConfig> for MemEngine {
    open spec fn config_ok(config: MemEngineConfig) -> bool {
        true
    }

    fn new(_config: MemEngineConfig) -> (e: Self)
        ensures
            e.wf(),
            e@ == MemModel::idle(),
    {
        MemEngine {
            cmd: None,
            dma_req: None,
            mem_req: None,
            mem_resp: None,
            state: MemEngineState::I,
            report: None,
        }
    }
}

impl Clocked for MemEngine {
    open spec fn clock_wf(&self) -> bool {
        self.wf()
    }

    fn tick(&mut self) -> (r: Result<(), SimErr>)
        ensures
            r is Ok,
            final(self).wf(),
            final(self)@ == old(self)@.tick(),
            final(self)@.quiet(),
    {
        match self.state {
            MemEngineState::I => {
                self.report = None;
                match self.cmd {
                    Some((cmd, _)) => {
                        match cmd.op {
                            MemOp::COPY => {
                                self.state = MemEngineState::C0;
                            },
                            MemOp::SET => {
                                self.state = MemEngineState::S0;
                            },
                        }
                    },
                    None => {},
                }
            },
            MemEngineState::C0 => {
                match self.cmd {
                    Some((cmd, _)) => {
                        let copy = CopyCommand::from_bytes(cmd.bytes);
                        self.dma_req = Some(
                            DMAReq {
                                dir: copy.dir(),
                                src_addr: copy.src,
                                target_addr: copy.dst,
                                sz: copy.len,
                                done: false,
                            },
                        );
                        self.state = MemEngineState::C1;
                    },
                    None => {},
                }
            },
            MemEngineState::C1 => {
                match (self.dma_req, self.cmd) {
                    (Some(d), Some((cmd, ticket))) => {
                        if d.done {
                            self.cmd = None;
                            self.dma_req = None;
                            self.state = MemEngineState::I;
                            self.report = Some((cmd.id, ticket));
                        }
                    },
                    _ => {},
                }
            },
            MemEngineState::S0 => {
                match self.cmd {
                    Some((cmd, _)) => {
                        let set = SetCommand::from_bytes(cmd.bytes);
                        self.mem_req = Some(
                            MemReq {
                                addr: set.dst,
                                write: true,
                                bytes: set.len,
                                data: filled((set.value % 0x100) as u8, set.len),
                            },
                        );
                        self.state = MemEngineState::S1;
                    },
                    None => {},
                }
            },
            MemEngineState::S1 => {
                match self.cmd {
                    Some((cmd, ticket)) => {
                        if self.mem_resp.is_some() {
                            self.cmd = None;
                            self.mem_req = None;
                            self.mem_resp = None;
                            self.state = MemEngineState::I;
                            self.report = Some((cmd.id, ticket));
                        }
                    },
                    None => {},
                }
            },
        }
        Ok(())
    }

    fn busy(&mut self) -> (b: bool)
        ensures
            b == old(self)@.busy(),
    {
        !matches!(self.state, MemEngineState::I) || self.cmd.is_some()
    }
}

} // verus!
