//! Records exchanged between the host, the command pipeline and the engines.

use crate::common::bytes::{le_byte, le_u32, read_le_u32, write_le_u32};
use vstd::prelude::*;
use vstd::std_specs::convert::FromSpecImpl;

verus! {

/// What a command asks for, as told by its first byte.
#[derive(Debug, Default, Clone, Copy, PartialEq, Eq, Structural)]
pub enum CmdType {
    #[default]
    NOP,
    KERNEL,
    MEM,
    CSR,
    FENCE,
    UNDEFINED,
}

/// Why a cycle could not end normally.
#[derive(Debug, Clone, Copy, PartialEq, Eq, Structural)]
pub enum SimErr {
    TIMEOUT,
    EXECUTION,
}

/// How a command ended, as reported in the second byte of its event.
#[derive(Debug, Clone, Copy, PartialEq, Eq, Structural)]
pub enum Completion {
    OK,
    EXECUTION,
}

impl Completion {
    /// The wire value of the kind.
    pub open spec fn spec_code(self) -> u8 {
        match self {
            Completion::OK => 0,
            Completion::EXECUTION => 1,
        }
    }

    #[verifier::when_used_as_spec(spec_code)]
    pub fn code(self) -> (c: u8)
        ensures
            c == self.spec_code(),
    {
        match self {
            Completion::OK => 0,
            Completion::EXECUTION => 1,
        }
    }
}

/// A fault raised by a warp: where it was and which warp it was.
#[derive(Debug, Clone, Copy, PartialEq, Eq, Structural)]
pub struct ExecErr {
    pub pc: u32,
    pub warp_id: u32,
}

/// A component advanced one step per cycle.
pub trait Clocked: Sized {
    /// What must hold between any two steps.
    spec fn clock_wf(&self) -> bool;

    fn tick(&mut self) -> (r: Result<(), SimErr>)
        requires
            old(self).clock_wf(),
        ensures
            final(self).clock_wf(),
    ;

    fn busy(&mut self) -> (b: bool)
        ensures
            *final(self) == *old(self),
    ;
}

/// A component built from a configuration record.
pub trait Configurable<T: Default>: Sized {
    /// The configurations that the component can be built from.
    spec fn config_ok(config: T) -> bool;

    fn new(config: T) -> Self
        requires
            Self::config_ok(config),
    ;
}

/// A raw 16-byte host command. Its view is the 16 bytes.
#[derive(Debug, Clone, Copy)]
pub struct Command {
    bytes: [u8; 16],
}

/// Sixteen zero bytes.
pub open spec fn zeros16() -> Seq<u8> {
    Seq::new(16, |i: int| 0u8)
}

impl Default for Command {
    fn default() -> (c: Self)
        ensures
            c@ == zeros16(),
    {
        let bytes: [u8; 16] = [0, 0, 0, 0, 0, 0, 0, 0, 0, 0, 0, 0, 0, 0, 0, 0];
        assert(bytes@ =~= zeros16());
        Command { bytes }
    }
}

impl View for Command {
    type V = Seq<u8>;

    closed spec fn view(&self) -> Seq<u8> {
        self.bytes@
    }
}

/// The command type that a first byte stands for.
pub open spec fn cmd_type_of(b: u8) -> CmdType {
    if b == 0 {
        CmdType::KERNEL
    } else if b == 1 {
        CmdType::MEM
    } else if b == 2 {
        CmdType::CSR
    } else if b == 3 {
        CmdType::FENCE
    } else {
        CmdType::UNDEFINED
    }
}

impl Command {
    /// Every command is 16 bytes long.
    pub proof fn lemma_len(self)
        ensures
            self@.len() == 16,
    {
    }

    pub fn from_bytes(bytes: [u8; 16]) -> (c: Self)
        ensures
            c@ == bytes@,
    {
        Command { bytes }
    }

    /// The command's bytes.
    pub fn bytes(&self) -> (b: [u8; 16])
        ensures
            b@ == self@,
    {
        self.bytes
    }

    pub fn cmd_type(&self) -> (t: CmdType)
        ensures
            t == cmd_type_of(self@[0]),
    {
        let b: u8 = self.bytes[0];
        if b == 0 {
            CmdType::KERNEL
        } else if b == 1 {
            CmdType::MEM
        } else if b == 2 {
            CmdType::CSR
        } else if b == 3 {
            CmdType::FENCE
        } else {
            CmdType::UNDEFINED
        }
    }

    /// The opaque id that the completion event echoes.
    pub fn id(&self) -> (id: u8)
        ensures
            id == self@[1],
    {
        self.bytes[1]
    }

    pub fn is_fence(&self) -> (b: bool)
        ensures
            b == (self@[0] == 3),
    {
        match self.cmd_type() {
            CmdType::FENCE => true,
            _ => false,
        }
    }

    /// Bytes `i..j` of the command.
    pub fn slice(&self, i: usize, j: usize) -> (s: &[u8])
        requires
            i <= j <= 16,
        ensures
            s@ == self@.subrange(i as int, j as int),
    {
        vstd::slice::slice_subrange(self.bytes.as_slice(), i, j)
    }
}

/// Direction of a bulk copy between host memory and device memory.
#[derive(Debug, Default, Clone, Copy, PartialEq, Eq, Structural)]
pub enum DMADir {
    #[default]
    H2D,
    D2H,
}

impl From<bool> for DMADir {
    fn from(value: bool) -> (d: Self) {
        if !value {
            DMADir::D2H
        } else {
            DMADir::H2D
        }
    }
}

impl FromSpecImpl<bool> for DMADir {
    open spec fn obeys_from_spec() -> bool {
        true
    }

    open spec fn from_spec(value: bool) -> Self {
        if value {
            DMADir::H2D
        } else {
            DMADir::D2H
        }
    }
}

/// A bulk copy posted by an engine; `done` is raised by whoever serviced it.
#[derive(Debug, Default, Clone, Copy)]
pub struct DMAReq {
    pub dir: DMADir,
    pub src_addr: u32,
    pub target_addr: u32,
    pub sz: u32,
    pub done: bool,
}

/// A device-memory access posted by an engine; `data` is what a write stores.
#[derive(Debug, Default, Clone)]
pub struct MemReq {
    pub addr: u32,
    pub write: bool,
    pub bytes: u32,
    pub data: Vec<u8>,
}

/// A device-memory access as the contracts see it.
pub struct MemReqView {
    pub addr: u32,
    pub write: bool,
    pub bytes: u32,
    pub data: Seq<u8>,
}

impl View for MemReq {
    type V = MemReqView;

    open spec fn view(&self) -> MemReqView {
        MemReqView { addr: self.addr, write: self.write, bytes: self.bytes, data: self.data@ }
    }
}

impl MemReq {
    /// A request with the same fields and the same data.
    pub fn duplicate(&self) -> (r: MemReq)
        ensures
            r@ == self@,
    {
        MemReq { addr: self.addr, write: self.write, bytes: self.bytes, data: self.data.clone() }
    }
}

/// The answer to a device-memory access; reads carry the bytes read.
#[derive(Debug, Default, Clone)]
pub struct MemResp {
    pub data: Option<Vec<u8>>,
}

/// One thread block of a launch, named by its linear id.
#[derive(Debug, Default, Clone, Copy)]
pub struct ThreadBlock {
    pub id: u32,
    pub pc: u32,
    pub dim: (u16, u16, u16),
    pub regs: u32,
    pub shmem: u32,
}

/// A batch of thread blocks of one kernel, sent to one cluster at a time.
#[derive(Debug, Default)]
pub struct ThreadBlocks {
    pub pc: u32,
    pub block_dim: (u32, u32, u32),
    pub block_idxs: Vec<(u32, u32, u32)>,
    pub regs: u32,
    pub shmem: u32,
    /// Base pointer of the kernel image in device memory.
    pub bp: u32,
}

/// A batch of thread blocks as the contracts see it.
pub struct ThreadBlocksView {
    pub pc: u32,
    pub block_dim: (u32, u32, u32),
    pub block_idxs: Seq<(u32, u32, u32)>,
    pub regs: u32,
    pub shmem: u32,
    pub bp: u32,
}

impl View for ThreadBlocks {
    type V = ThreadBlocksView;

    open spec fn view(&self) -> ThreadBlocksView {
        ThreadBlocksView {
            pc: self.pc,
            block_dim: self.block_dim,
            block_idxs: self.block_idxs@,
            regs: self.regs,
            shmem: self.shmem,
            bp: self.bp,
        }
    }
}

impl Clone for ThreadBlocks {
    fn clone(&self) -> (r: Self)
        ensures
            r@ == self@,
    {
        let mut block_idxs: Vec<(u32, u32, u32)> = Vec::new();
        let mut i: usize = 0;
        while i < self.block_idxs.len()
            invariant
                i <= self.block_idxs@.len(),
                block_idxs@ == self.block_idxs@.subrange(0, i as int),
            decreases self.block_idxs@.len() - i,
        {
            block_idxs.push(self.block_idxs[i]);
            i += 1;
            assert(block_idxs@ =~= self.block_idxs@.subrange(0, i as int));
        }
        assert(block_idxs@ =~= self.block_idxs@);
        ThreadBlocks {
            pc: self.pc,
            block_dim: self.block_dim,
            block_idxs,
            regs: self.regs,
            shmem: self.shmem,
            bp: self.bp,
        }
    }
}

/// A 16-byte completion record. Its view is the 16 bytes.
#[derive(Debug, Clone, Copy)]
pub struct Event {
    bytes: [u8; 16],
}

impl Default for Event {
    fn default() -> (e: Self)
        ensures
            e@ == zeros16(),
    {
        let bytes: [u8; 16] = [0, 0, 0, 0, 0, 0, 0, 0, 0, 0, 0, 0, 0, 0, 0, 0];
        assert(bytes@ =~= zeros16());
        Event { bytes }
    }
}

impl View for Event {
    type V = Seq<u8>;

    closed spec fn view(&self) -> Seq<u8> {
        self.bytes@
    }
}

/// The record of a command that ended well: its id, then zeros.
pub open spec fn ok_event(cmd_id: u8) -> Seq<u8> {
    Seq::new(
        16,
        |i: int|
            if i == 0 {
                cmd_id
            } else {
                0u8
            },
    )
}

/// The record of a command whose kernel faulted: id, kind, faulting pc and
/// warp id, both little-endian, then zeros.
pub open spec fn fault_event(cmd_id: u8, err: ExecErr) -> Seq<u8> {
    Seq::new(
        16,
        |i: int|
            if i == 0 {
                cmd_id
            } else if i == 1 {
                1u8
            } else if i < 6 {
                le_byte(err.pc, i - 2)
            } else if i < 10 {
                le_byte(err.warp_id, i - 6)
            } else {
                0u8
            },
    )
}

/// The record that reports `outcome` for the command `cmd_id`.
pub open spec fn event_of(cmd_id: u8, outcome: Result<(), ExecErr>) -> Seq<u8> {
    match outcome {
        Ok(_) => ok_event(cmd_id),
        Err(err) => fault_event(cmd_id, err),
    }
}

impl Event {
    /// Every event is 16 bytes long.
    pub proof fn lemma_len(self)
        ensures
            self@.len() == 16,
    {
    }

    pub fn from_kernel_err(cmd_id: u8, err: Result<(), ExecErr>) -> (e: Self)
        ensures
            e@ == event_of(cmd_id, err),
    {
        match err {
            Err(err) => {
                let pc: [u8; 4] = write_le_u32(err.pc);
                let warp: [u8; 4] = write_le_u32(err.warp_id);
                let bytes: [u8; 16] = [
                    cmd_id,
                    Completion::EXECUTION.code(),
                    pc[0],
                    pc[1],
                    pc[2],
                    pc[3],
                    warp[0],
                    warp[1],
                    warp[2],
                    warp[3],
                    0,
                    0,
                    0,
                    0,
                    0,
                    0,
                ];
                assert(bytes@ =~= fault_event(cmd_id, err));
                Event { bytes }
            },
            Ok(_) => Event::from_ok(cmd_id),
        }
    }

    pub fn from_ok(cmd_id: u8) -> (e: Self)
        ensures
            e@ == ok_event(cmd_id),
    {
        let bytes: [u8; 16] = [
            cmd_id,
            Completion::OK.code(),
            0,
            0,
            0,
            0,
            0,
            0,
            0,
            0,
            0,
            0,
            0,
            0,
            0,
            0,
        ];
        assert(bytes@ =~= ok_event(cmd_id));
        Event { bytes }
    }

    /// The fault that the record carries in bytes 2 to 9.
    pub fn to_exec_err(&self) -> (err: ExecErr)
        ensures
            err.pc == le_u32(self@, 2),
            err.warp_id == le_u32(self@, 6),
    {
        ExecErr {
            pc: read_le_u32(self.bytes.as_slice(), 2),
            warp_id: read_le_u32(self.bytes.as_slice(), 6),
        }
    }

    /// The record's bytes, as they go on the wire.
    pub fn bytes(&self) -> (b: [u8; 16])
        ensures
            b@ == self@,
    {
        self.bytes
    }

    /// The id of the command that the record reports on.
    pub fn cmd_id(&self) -> (id: u8)
        ensures
            id == self@[0],
    {
        self.bytes[0]
    }

    /// How the command ended; any kind byte other than 0 reads as a fault.
    pub fn kind(&self) -> (k: Completion)
        ensures
            k == if self@[1] == 0 {
                Completion::OK
            } else {
                Completion::EXECUTION
            },
    {
        if self.bytes[1] == 0 {
            Completion::OK
        } else {
            Completion::EXECUTION
        }
    }
}

/// A fault survives the trip through its event.
pub proof fn lemma_fault_roundtrip(cmd_id: u8, err: ExecErr)
    ensures
        le_u32(fault_event(cmd_id, err), 2) == err.pc,
        le_u32(fault_event(cmd_id, err), 6) == err.warp_id,
        fault_event(cmd_id, err)[0] == cmd_id,
        fault_event(cmd_id, err)[1] == Completion::EXECUTION.spec_code(),
{
}

} // verus!
