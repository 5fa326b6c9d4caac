use gluon::common::base::{
    CmdType, Command, Completion as Kind, Configurable, DMADir, Event, ExecErr,
};
use gluon::common::bytes::{read_le_u32, write_le_u32};
use gluon::common::grid::{raster_point, volume_of};
use gluon::common::queue::Queue;
use gluon::glug::completion::{Completion, CompletionConfig};
use gluon::glug::decode_dispatch::{DecodeDispatch, DecodeDispatchConfig};
use gluon::glug::engine::{EngineCommand, EngineConfig};
use gluon::glug::engines::kernel_engine::{KernelCommand, KernelPayload};
use gluon::glug::engines::mem_engine::{CopyCommand, MemCommand, MemOp, SetCommand};
use gluon::glug::stream::{Stream, StreamConfig};
use gluon::glul::glul::{ExecOutcome, GLULConfig, GLULStatus, GLULWork, GLUL};
use gluon::common::base::ThreadBlocks;
use gluon::host::{HostRegion, RangeErr};
use gluon::glug::engines::cs_engine::CSEngineConfig;
use gluon::glug::engines::kernel_engine::KernelEngineConfig;
use gluon::glug::engines::mem_engine::MemEngineConfig;
use gluon::glug::frontend::FrontendConfig;
use gluon::glug::glug::GLUGConfig;
use gluon::top::{SimConfig, TopConfig};

#[test]
fn queue_is_fifo_and_bounded() {
    let mut q: Queue<u32> = Queue::new(2);
    assert!(q.empty());
    assert!(!q.full());
    assert!(q.push(1));
    assert!(q.push(2));
    assert!(q.full());
    assert!(!q.push(3));
    assert_eq!(q.len(), 2);
    assert_eq!(q.peek(), Some(&1));
    *q.get_mut(1).unwrap() = 20;
    assert!(q.get_mut(2).is_none());
    assert_eq!(q.pop(), Some(1));
    assert_eq!(q.pop(), Some(20));
    assert_eq!(q.pop(), None);
    assert_eq!(q.peek(), None);
}

#[test]
fn queue_of_no_capacity_takes_nothing() {
    let mut q: Queue<u8> = Queue::new(0);
    assert!(q.full() && q.empty());
    assert!(!q.push(1));
    assert_eq!(q.len(), 0);
}

#[test]
fn command_fields() {
    let mut b = [0u8; 16];
    for (i, v) in b.iter_mut().enumerate() {
        *v = i as u8 + 1;
    }
    b[0] = 2;
    let c = Command::from_bytes(b);
    assert_eq!(c.cmd_type(), CmdType::CSR);
    assert_eq!(c.id(), 2);
    assert!(!c.is_fence());
    assert_eq!(c.slice(2, 6), &[3, 4, 5, 6]);
    assert_eq!(c.slice(16, 16), &[] as &[u8]);
    assert_eq!(c.bytes(), b);
    for (byte, want) in [
        (0u8, CmdType::KERNEL),
        (1, CmdType::MEM),
        (2, CmdType::CSR),
        (3, CmdType::FENCE),
        (4, CmdType::UNDEFINED),
        (255, CmdType::UNDEFINED),
    ] {
        let mut b = [0u8; 16];
        b[0] = byte;
        assert_eq!(Command::from_bytes(b).cmd_type(), want);
    }
    assert_eq!(Command::default().bytes(), [0u8; 16]);
}

#[test]
fn event_encodings() {
    let ok = Event::from_kernel_err(9, Ok(()));
    assert_eq!(ok.bytes(), Event::from_ok(9).bytes());
    assert_eq!(ok.cmd_id(), 9);
    assert_eq!(ok.kind(), Kind::OK);
    let bad = Event::from_kernel_err(1, Err(ExecErr { pc: 0x0403_0201, warp_id: 0x0807_0605 }));
    assert_eq!(bad.bytes(), [1, 1, 1, 2, 3, 4, 5, 6, 7, 8, 0, 0, 0, 0, 0, 0]);
    assert_eq!(bad.kind(), Kind::EXECUTION);
    assert_eq!(bad.to_exec_err(), ExecErr { pc: 0x0403_0201, warp_id: 0x0807_0605 });
    assert_eq!(Kind::OK.code(), 0);
    assert_eq!(Kind::EXECUTION.code(), 1);
    assert_eq!(Event::default().bytes(), [0u8; 16]);
}

#[test]
fn little_endian_words() {
    assert_eq!(write_le_u32(0x1234_5678), [0x78, 0x56, 0x34, 0x12]);
    assert_eq!(write_le_u32(u32::MAX), [0xff; 4]);
    assert_eq!(read_le_u32(&[9, 0x78, 0x56, 0x34, 0x12], 1), 0x1234_5678);
    assert_eq!(read_le_u32(&[0xff; 4], 0), u32::MAX);
    assert_eq!(read_le_u32(&write_le_u32(0xdead_beef), 0), 0xdead_beef);
}

#[test]
fn dma_direction_from_flag() {
    assert_eq!(DMADir::from(true), DMADir::H2D);
    assert_eq!(DMADir::from(false), DMADir::D2H);
}

#[test]
fn raster_is_x_fastest() {
    let d = (3, 2, 2);
    assert_eq!(volume_of(d), 12);
    assert_eq!(raster_point(d, 0), (0, 0, 0));
    assert_eq!(raster_point(d, 1), (1, 0, 0));
    assert_eq!(raster_point(d, 3), (0, 1, 0));
    assert_eq!(raster_point(d, 6), (0, 0, 1));
    assert_eq!(raster_point(d, 11), (2, 1, 1));
    assert_eq!(volume_of((u32::MAX, u32::MAX, u32::MAX)), (u32::MAX as u128).pow(3));
    assert_eq!(volume_of((0, 5, 5)), 0);
}

#[test]
fn ring_tickets_survive_pops() {
    let mut ring = Completion::new(CompletionConfig { event_queue_size: 2 });
    assert!(ring.empty());
    let a = ring.allocate().unwrap();
    let b = ring.allocate().unwrap();
    assert!(ring.full());
    assert_eq!(ring.allocate(), None);
    assert_eq!(ring.len(), 2);
    // The head is not set: nothing comes out, however often we ask.
    ring.set(b, Event::from_ok(2));
    assert!(ring.pop_completion().is_none());
    assert!(ring.pop_completion().is_none());
    ring.set(a, Event::from_ok(1));
    assert_eq!(ring.pop_completion().unwrap().cmd_id(), 1);
    // `b` still names its slot after the head was popped.
    let c = ring.allocate().unwrap();
    ring.set(c, Event::from_ok(3));
    assert_eq!(ring.pop_completion().unwrap().cmd_id(), 2);
    assert_eq!(ring.pop_completion().unwrap().cmd_id(), 3);
    assert!(ring.pop_completion().is_none());
    assert!(ring.empty());
    assert_eq!(CompletionConfig::default().event_queue_size, 4);
}

#[test]
fn ring_sets_out_of_order_pop_in_order() {
    let mut ring = Completion::new(CompletionConfig { event_queue_size: 4 });
    let t: Vec<usize> = (0..4).map(|_| ring.allocate().unwrap()).collect();
    for (i, k) in [3usize, 1, 0, 2].iter().enumerate() {
        ring.set(t[*k], Event::from_ok(*k as u8));
        let _ = i;
    }
    let mut out = Vec::new();
    while let Some(e) = ring.pop_completion() {
        out.push(e.cmd_id());
    }
    assert_eq!(out, vec![0, 1, 2, 3]);
}

#[test]
fn decode_dispatch_sorts_by_type() {
    let mut dd = DecodeDispatch::new(DecodeDispatchConfig { kq_size: 1, mq_size: 2, csq_size: 0 });
    assert!(dd.can_enqueue(CmdType::KERNEL));
    assert!(dd.can_enqueue(CmdType::MEM));
    assert!(!dd.can_enqueue(CmdType::CSR));
    assert!(!dd.can_enqueue(CmdType::FENCE));
    assert!(!dd.can_enqueue(CmdType::UNDEFINED));
    assert!(!dd.can_enqueue(CmdType::NOP));
    let mut b = [0u8; 16];
    b[1] = 42;
    b[2] = 7;
    dd.enqueue(Command::from_bytes(b), 5);
    assert!(!dd.can_enqueue(CmdType::KERNEL));
    assert_eq!(dd.kq.q.len(), 1);
    let (cmd, ticket) = dd.kq.q.pop().unwrap();
    assert_eq!(cmd.id(), 42);
    assert_eq!(cmd.payload()[0], 7);
    assert_eq!(ticket, 5);
    b[0] = 2;
    dd.enqueue(Command::from_bytes(b), 6);
    assert_eq!(dd.csq.q.len(), 0);
    b[0] = 1;
    dd.enqueue(Command::from_bytes(b), 7);
    dd.enqueue(Command::from_bytes(b), 8);
    dd.enqueue(Command::from_bytes(b), 9);
    assert_eq!(dd.mq.q.len(), 2);
    assert_eq!(dd.mq.q.pop().unwrap().1, 7);
    assert_eq!(dd.mq.q.pop().unwrap().1, 8);
    let d = DecodeDispatchConfig::default();
    assert_eq!((d.kq_size, d.mq_size, d.csq_size), (4, 4, 4));
}

#[test]
fn engine_command_takes_id_and_payload() {
    let mut b = [0u8; 16];
    for (i, v) in b.iter_mut().enumerate() {
        *v = 0x10 + i as u8;
    }
    let e = EngineCommand::from_command(Command::from_bytes(b));
    assert_eq!(e.id(), 0x11);
    assert_eq!(e.payload(), &b[2..16]);
    let k = KernelCommand::from_engine_cmd(e);
    assert_eq!(k.id(), 0x11);
    assert_eq!(k.host_addr, 0x1514_1312);
    assert_eq!(k.sz, 0x1918_1716);
    assert_eq!(k.gpu_addr, 0x1d1c_1b1a);
}

#[test]
fn kernel_payload_layout() {
    let mut b = Vec::new();
    for w in 1u32..=12 {
        b.extend_from_slice(&(w * 0x0101_0101).to_le_bytes());
    }
    b.extend_from_slice(&0xAABB_CCDDu32.to_le_bytes()); // printf_host_addr
    b.push(0x21); // regs_per_thread
    b.extend_from_slice(&0x1122_3344u32.to_le_bytes()); // shmem_per_block
    b.push(0x80); // flags
    b.push(0xEE); // what follows the header is not read
    assert_eq!(b.len(), 59);
    let p = KernelPayload::from_bytes(&b);
    assert_eq!(p.start_pc, 0x0101_0101);
    assert_eq!(p.kernel_pc, 0x0202_0202);
    assert_eq!(p.params_sz, 0x0303_0303);
    assert_eq!(p.binary_sz, 0x0404_0404);
    assert_eq!(p.stack_base_addr, 0x0505_0505);
    assert_eq!(p.tls_base_addr, 0x0606_0606);
    assert_eq!(p.grid, (0x0707_0707, 0x0808_0808, 0x0909_0909));
    assert_eq!(p.block, (0x0a0a_0a0a, 0x0b0b_0b0b, 0x0c0c_0c0c));
    assert_eq!(p.printf_host_addr, 0xAABB_CCDD);
    assert_eq!(p.regs_per_thread, 0x21);
    assert_eq!(p.shmem_per_block, 0x1122_3344);
    assert_eq!(p.flags, 0x80);
}

#[test]
fn mem_commands_decode() {
    assert_eq!(MemOp::decode(0), Some(MemOp::COPY));
    assert_eq!(MemOp::decode(1), Some(MemOp::SET));
    assert_eq!(MemOp::decode(2), None);
    let mut b = [0u8; 16];
    b[0] = 1;
    b[1] = 3;
    b[2] = 1;
    for i in 3..16 {
        b[i] = i as u8;
    }
    let m = MemCommand::from_engine_cmd(EngineCommand::from_command(Command::from_bytes(b)));
    assert_eq!(m.id, 3);
    assert_eq!(m.op, MemOp::SET);
    assert_eq!(m.bytes, [3, 4, 5, 6, 7, 8, 9, 10, 11, 12, 13, 14, 15]);
    let s = SetCommand::from_bytes(m.bytes);
    assert_eq!(s.dst, 0x0605_0403);
    assert_eq!(s.value, 0x0a09_0807);
    assert_eq!(s.len, 0x0e0d_0c0b);
    assert_eq!(s.flags, 15);
    let c = CopyCommand::from_bytes(m.bytes);
    assert_eq!(c.src, 0x0605_0403);
    assert_eq!(c.dst, 0x0a09_0807);
    assert_eq!(c.len, 0x0e0d_0c0b);
    assert_eq!(c.flags, 15);
    assert_eq!(c.dir(), DMADir::H2D);
    assert_eq!(CopyCommand { flags: 0xfe, ..c }.dir(), DMADir::D2H);
}

#[test]
fn admissible_blocks_formula() {
    let cfg = GLULConfig::default();
    assert_eq!(
        (cfg.id, cfg.num_cores, cfg.num_warps, cfg.num_lanes, cfg.regs_per_core, cfg.shmem),
        (0, 4, 4, 16, 256, 4096)
    );
    assert_eq!(GLULConfig::default_id(3).id, 3);
    // One warp per block, one core per block: the cores limit, 4.
    assert_eq!(cfg.admissible_blocks(8, 0, 16), 4);
    // 65 threads: 5 warps, 2 cores per block: 2 blocks.
    assert_eq!(cfg.admissible_blocks(8, 0, 65), 2);
    // Registers limit: 256 * 4 / (64 * 16) = 1.
    assert_eq!(cfg.admissible_blocks(64, 0, 16), 1);
    // Registers exhausted: 256 * 4 / (128 * 16) = 0.
    assert_eq!(cfg.admissible_blocks(128, 0, 16), 0);
    // Shared memory limit: 4096 / 2048 = 2.
    assert_eq!(cfg.admissible_blocks(8, 2048, 16), 2);
    assert_eq!(cfg.admissible_blocks(8, 4097, 16), 0);
    // A block too large for the cluster: 17 warps, 5 cores per block.
    assert_eq!(cfg.admissible_blocks(8, 0, 16 * 17), 0);
    // An empty block still takes one warp.
    assert_eq!(cfg.admissible_blocks(0, 0, 0), 4);
    let none = GLULConfig { num_lanes: 0, ..cfg };
    assert_eq!(none.admissible_blocks(8, 0, 16), 0);
    let none = GLULConfig { num_warps: 0, ..cfg };
    assert_eq!(none.admissible_blocks(8, 0, 16), 0);
    let none = GLULConfig { num_cores: 0, ..cfg };
    assert_eq!(none.admissible_blocks(8, 0, 16), 0);
    assert!(!GLULStatus::new(cfg).busy);
}

fn batch(blocks: Vec<(u32, u32, u32)>, dim: (u32, u32, u32)) -> ThreadBlocks {
    ThreadBlocks { pc: 0x80, block_dim: dim, block_idxs: blocks, regs: 8, shmem: 0, bp: 0x3000 }
}

#[test]
fn cluster_runs_a_batch_and_acknowledges_once() {
    let mut g = GLUL::new(GLULConfig::default());
    assert!(!g.busy() && !g.get_status().busy);
    assert!(matches!(g.work(), GLULWork::Idle));
    assert!(g.try_acknowledge_done_err().is_none());
    g.submit_thread_block(batch(vec![(0, 0, 0), (1, 0, 0)], (16, 2, 1)), 5);
    assert!(!g.get_status().busy);
    assert!(matches!(g.work(), GLULWork::Reset));
    assert!(g.tick(ExecOutcome::Running).is_ok());
    assert!(g.busy() && g.get_status().busy);
    match g.work() {
        GLULWork::Spawn(plan) => {
            // 32 threads: 2 warps, 1 core per block.
            assert_eq!(plan.len(), 2);
            assert_eq!((plan[0].core, plan[1].core), (0, 1));
            assert_eq!((plan[0].block_idx, plan[1].block_idx), ((0, 0, 0), (1, 0, 0)));
            assert_eq!(plan[0].pc, 0x80);
            assert_eq!(plan[0].warps.len(), 2);
            assert_eq!(plan[0].warps[0].len(), 16);
            assert_eq!(plan[0].warps[0][15], (15, 0, 0));
            assert_eq!(plan[0].warps[1][0], (0, 1, 0));
            assert_eq!(plan[1].warps, plan[0].warps);
        }
        _ => panic!("expected a spawn"),
    }
    g.tick(ExecOutcome::Running).unwrap();
    assert!(matches!(g.work(), GLULWork::Execute(2)));
    g.tick(ExecOutcome::Running).unwrap();
    assert!(matches!(g.work(), GLULWork::Execute(2)));
    assert!(g.busy() && g.get_status().busy);
    g.tick(ExecOutcome::Retired).unwrap();
    assert!(g.busy() && g.get_status().busy);
    assert!(g.try_acknowledge_done_err().is_none());
    g.tick(ExecOutcome::Running).unwrap();
    assert!(!g.busy() && !g.get_status().busy);
    assert_eq!(g.try_acknowledge_done_err(), Some(Ok((5, 2))));
    assert_eq!(g.try_acknowledge_done_err(), None);
    assert_eq!(g.try_acknowledge_done_err(), None);
    assert!(matches!(g.work(), GLULWork::Idle));
    g.tick(ExecOutcome::Running).unwrap();
    assert!(!g.busy());
}

#[test]
fn cluster_reports_a_fault() {
    let mut g = GLUL::new(GLULConfig::default());
    g.submit_thread_block(batch(vec![(0, 0, 0)], (16, 1, 1)), 1);
    g.tick(ExecOutcome::Running).unwrap();
    g.tick(ExecOutcome::Running).unwrap();
    g.tick(ExecOutcome::Fault(ExecErr { pc: 7, warp_id: 1 })).unwrap();
    g.tick(ExecOutcome::Running).unwrap();
    assert_eq!(
        g.try_acknowledge_done_err(),
        Some(Err((1, ExecErr { pc: 7, warp_id: 1 })))
    );
    assert_eq!(g.try_acknowledge_done_err(), None);
}

#[test]
fn kill_stops_only_the_engines_own_batch() {
    let mut g = GLUL::new(GLULConfig::default());
    g.submit_thread_block(batch(vec![(0, 0, 0)], (16, 1, 1)), 1);
    g.tick(ExecOutcome::Running).unwrap();
    g.tick(ExecOutcome::Running).unwrap();
    g.try_kill(2);
    assert!(g.busy());
    assert!(matches!(g.work(), GLULWork::Execute(1)));
    g.try_kill(1);
    assert!(!g.busy() && !g.get_status().busy);
    assert!(matches!(g.work(), GLULWork::Idle));
    assert_eq!(g.try_acknowledge_done_err(), None);
    g.tick(ExecOutcome::Retired).unwrap();
    assert!(!g.busy());
    assert_eq!(g.try_acknowledge_done_err(), None);
}

#[test]
fn spawn_plan_splits_warps_over_cores() {
    // 80 threads of 16 lanes: 5 warps on cores of 4 warps: 2 cores per
    // block, 3 warps on the first and 2 on the second.
    let mut g = GLUL::new(GLULConfig::default());
    g.submit_thread_block(batch(vec![(4, 0, 0), (5, 0, 0)], (8, 10, 1)), 0);
    g.tick(ExecOutcome::Running).unwrap();
    match g.work() {
        GLULWork::Spawn(plan) => {
            assert_eq!(plan.len(), 4);
            let cores: Vec<usize> = plan.iter().map(|p| p.core).collect();
            assert_eq!(cores, vec![0, 1, 2, 3]);
            let blocks: Vec<(u32, u32, u32)> = plan.iter().map(|p| p.block_idx).collect();
            assert_eq!(blocks, vec![(4, 0, 0), (4, 0, 0), (5, 0, 0), (5, 0, 0)]);
            let warps: Vec<usize> = plan.iter().map(|p| p.warps.len()).collect();
            assert_eq!(warps, vec![3, 2, 3, 2]);
            let threads: Vec<(u32, u32, u32)> =
                plan[0].warps.iter().chain(plan[1].warps.iter()).flatten().copied().collect();
            let mut want = Vec::new();
            for y in 0..10 {
                for x in 0..8 {
                    want.push((x, y, 0));
                }
            }
            assert_eq!(threads, want);
        }
        _ => panic!("expected a spawn"),
    }
    g.tick(ExecOutcome::Running).unwrap();
    assert!(matches!(g.work(), GLULWork::Execute(4)));
}

#[test]
fn last_warp_may_be_short() {
    let mut g = GLUL::new(GLULConfig::default());
    g.submit_thread_block(batch(vec![(0, 0, 0)], (5, 4, 1)), 0);
    g.tick(ExecOutcome::Running).unwrap();
    match g.work() {
        GLULWork::Spawn(plan) => {
            assert_eq!(plan.len(), 1);
            let lens: Vec<usize> = plan[0].warps.iter().map(|w| w.len()).collect();
            assert_eq!(lens, vec![16, 4]);
            assert_eq!(plan[0].warps[1], vec![(1, 3, 0), (2, 3, 0), (3, 3, 0), (4, 3, 0)]);
        }
        _ => panic!("expected a spawn"),
    }
}

#[test]
fn streams_let_one_command_fly() {
    let cfg = StreamConfig { num_sq: 2, sq_entries: vec![1, 2] };
    let mut s = Stream::new(cfg);
    let a = Command::from_bytes([0, 1, 0, 0, 0, 0, 0, 0, 0, 0, 0, 0, 0, 0, 0, 0]);
    let b = Command::from_bytes([0, 2, 0, 0, 0, 0, 0, 0, 0, 0, 0, 0, 0, 0, 0, 0]);
    assert!(s.can_enqueue(0));
    s.enqueue(0, a);
    assert!(!s.can_enqueue(0));
    s.enqueue(0, b);
    s.enqueue(1, b);
    s.enqueue(1, a);
    assert!(!s.can_enqueue(1));
    assert_eq!(s.try_pop(0).unwrap().id(), 1);
    assert!(s.try_pop(0).is_none());
    assert_eq!(s.try_pop(1).unwrap().id(), 2);
    assert!(s.try_pop(1).is_none());
    s.clear_in_flight(1);
    assert_eq!(s.try_pop(1).unwrap().id(), 1);
    s.clear_in_flight(0);
    // The stream is empty: the pop gives nothing and still marks it in flight.
    assert!(s.try_pop(0).is_none());
    s.enqueue(0, b);
    assert!(s.try_pop(0).is_none());
    s.clear_in_flight(0);
    assert_eq!(s.try_pop(0).unwrap().id(), 2);
    let d = StreamConfig::default();
    assert_eq!(d.num_sq, 4);
    assert_eq!(d.sq_entries, vec![8, 8, 8, 8]);
}

#[test]
fn engines_are_built_in_kind_order() {
    let cfg = EngineConfig { num_kernel_engines: 2, num_mem_engines: 1, ..EngineConfig::default() };
    assert_eq!(cfg.num_engines(), 4);
    let engines = cfg.generate_engines();
    let kinds: Vec<CmdType> = engines.iter().map(|e| e.cmd_type()).collect();
    assert_eq!(kinds, vec![CmdType::KERNEL, CmdType::KERNEL, CmdType::MEM, CmdType::CSR]);
    assert!(engines.iter().all(|e| !e.busy()));
    assert_eq!(EngineConfig::default().num_engines(), 3);
}

#[test]
fn host_region_rewrites_kernel_commands_only() {
    let region = HostRegion { base: 0x1000_0000, size: 0x100 };
    let mut k = [0u8; 16];
    k[1] = 7;
    k[2..6].copy_from_slice(&0x40u32.to_le_bytes());
    k[6..10].copy_from_slice(&0xC0u32.to_le_bytes());
    k[10..14].copy_from_slice(&0x3000u32.to_le_bytes());
    let out = region.localize(k).unwrap().bytes();
    assert_eq!(&out[2..6], &0x1000_0040u32.to_le_bytes());
    assert_eq!(&out[..2], &k[..2]);
    assert_eq!(&out[6..], &k[6..]);
    // One byte past the end of the buffer.
    k[6..10].copy_from_slice(&0xC1u32.to_le_bytes());
    assert_eq!(region.localize(k).err(), Some(RangeErr::OutOfRegion));
    k[2..6].copy_from_slice(&u32::MAX.to_le_bytes());
    k[6..10].copy_from_slice(&u32::MAX.to_le_bytes());
    assert_eq!(region.localize(k).err(), Some(RangeErr::OutOfRegion));
    let high = HostRegion { base: 0xffff_ffc0, size: 0x100 };
    k[2..6].copy_from_slice(&0x3fu32.to_le_bytes());
    k[6..10].copy_from_slice(&1u32.to_le_bytes());
    assert_eq!(&high.localize(k).unwrap().bytes()[2..6], &[0xff; 4]);
    k[2..6].copy_from_slice(&0x40u32.to_le_bytes());
    assert_eq!(high.localize(k).err(), Some(RangeErr::AddressTooWide));
    // Other commands pass untouched, whatever they hold.
    let mut m = [0xffu8; 16];
    m[0] = 1;
    assert_eq!(region.localize(m).unwrap().bytes(), m);
    m[0] = 3;
    assert_eq!(region.localize(m).unwrap().bytes(), m);
}

#[test]
fn top_config_sections_override_those_under_glug() {
    let mut glug = GLUGConfig::default();
    glug.frontend = FrontendConfig { command_queue_size: 9 };
    glug.completion = CompletionConfig { event_queue_size: 9 };
    glug.gluls = vec![GLULConfig::default_id(2)];
    glug.gluon_log_level = 3;
    glug.muon_log_level = 4;
    let engine = EngineConfig { num_mem_engines: 5, ..EngineConfig::default() };
    let top = TopConfig::assemble(
        SimConfig { timeout_cycles: 77 },
        glug,
        FrontendConfig { command_queue_size: 2 },
        DecodeDispatchConfig { kq_size: 1, mq_size: 2, csq_size: 3 },
        CompletionConfig { event_queue_size: 6 },
        engine,
        KernelEngineConfig {},
        MemEngineConfig {},
        CSEngineConfig {},
    );
    assert_eq!(top.sim.timeout_cycles, 77);
    assert_eq!(top.glug.frontend.command_queue_size, 2);
    assert_eq!(top.glug.completion.event_queue_size, 6);
    assert_eq!(top.glug.decode_dispatch.mq_size, 2);
    assert_eq!(top.glug.engine.num_mem_engines, 5);
    assert_eq!(top.glug.engine.num_kernel_engines, 1);
    assert_eq!(top.glug.gluls.len(), 1);
    assert_eq!(top.glug.gluls[0].id, 2);
    assert_eq!((top.glug.gluon_log_level, top.glug.muon_log_level), (3, 4));
    assert_eq!(SimConfig::default().timeout_cycles, 0);
    assert_eq!(FrontendConfig::default().command_queue_size, 4);
}
