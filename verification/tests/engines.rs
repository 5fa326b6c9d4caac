use gluon::common::base::{Clocked, CmdType, Command, Configurable, DMADir, ExecErr};
use gluon::glug::engine::{Engine, EngineCommand, EngineConfig};
use gluon::glug::engines::cs_engine::{CSEngine, CSEngineConfig};
use gluon::glug::engines::kernel_engine::{KernelEngine, KernelEngineConfig, PAYLOAD_BYTES};
use gluon::glug::engines::mem_engine::{MemEngine, MemEngineConfig};
use gluon::glul::glul::{GLULConfig, GLULStatus};

fn engine_cmd(bytes: [u8; 16]) -> EngineCommand {
    EngineCommand::from_command(Command::from_bytes(bytes))
}

fn kernel_bytes(id: u8, host: u32, sz: u32, gpu: u32) -> [u8; 16] {
    let mut b = [0u8; 16];
    b[1] = id;
    b[2..6].copy_from_slice(&host.to_le_bytes());
    b[6..10].copy_from_slice(&sz.to_le_bytes());
    b[10..14].copy_from_slice(&gpu.to_le_bytes());
    b
}

fn image(grid: (u32, u32, u32), block: (u32, u32, u32), regs: u8, shmem: u32) -> Vec<u8> {
    let mut h = Vec::new();
    for v in [0x1234u32, 0x5678, 0, 0, 0, 0, grid.0, grid.1, grid.2, block.0, block.1, block.2, 0] {
        h.extend_from_slice(&v.to_le_bytes());
    }
    h.push(regs);
    h.extend_from_slice(&shmem.to_le_bytes());
    h.push(0);
    h
}

fn free(n: usize) -> Vec<GLULStatus> {
    (0..n).map(|i| GLULStatus { config: GLULConfig::default_id(i), busy: false }).collect()
}

/// Takes a kernel engine from idle to the point where it schedules.
fn scheduling_engine(grid: (u32, u32, u32), gluls: Vec<GLULStatus>) -> KernelEngine {
    let mut e = KernelEngine::new(KernelEngineConfig {});
    e.set_gluls(gluls);
    e.set_cmd(engine_cmd(kernel_bytes(3, 0x100, 0x200, 0x3000)), 11);
    e.tick().unwrap(); // idle -> copy
    e.tick().unwrap(); // posts the copy
    e.done_dma_req();
    e.tick().unwrap(); // copy -> header
    e.tick().unwrap(); // posts the read
    e.set_mem_resp(Some(&image(grid, (16, 1, 1), 8, 0)));
    e.tick().unwrap(); // header -> scheduling
    e
}

#[test]
fn kernel_engine_walks_its_states() {
    let mut e = KernelEngine::new(KernelEngineConfig {});
    assert!(!e.busy());
    assert_eq!(e.cmd_type(), CmdType::KERNEL);
    e.tick().unwrap();
    assert!(!e.busy());
    e.set_gluls(free(1));
    e.set_cmd(engine_cmd(kernel_bytes(3, 0x100, 0x200, 0x3000)), 11);
    assert!(e.busy());
    assert!(e.get_dma_req().is_none());
    e.tick().unwrap();
    assert!(e.get_dma_req().is_none());
    e.tick().unwrap();
    {
        let d = e.get_dma_req().unwrap();
        assert_eq!(d.dir, DMADir::H2D);
        assert_eq!((d.src_addr, d.target_addr, d.sz, d.done), (0x100, 0x3000, 0x200, false));
    }
    // Nobody serviced the copy: the engine waits.
    e.tick().unwrap();
    assert!(e.get_dma_req().is_some());
    assert!(e.get_mem_req().is_none());
    e.done_dma_req();
    assert!(e.get_dma_req().is_none());
    e.tick().unwrap();
    assert!(e.get_dma_req().is_none());
    assert!(e.get_mem_req().is_none());
    e.tick().unwrap();
    {
        let q = e.get_mem_req().unwrap();
        assert_eq!((q.addr, q.write, q.bytes), (0x3000, false, 58));
        assert_eq!(PAYLOAD_BYTES, 58);
        assert!(q.data.is_empty());
    }
    e.tick().unwrap();
    assert!(e.get_mem_req().is_some());
    e.set_mem_resp(Some(&image((3, 1, 1), (16, 2, 1), 8, 64)));
    assert!(e.get_mem_req().is_none());
    e.tick().unwrap();
    assert!(e.get_mem_req().is_none());
    assert!(e.get_glul_req().is_none());
    e.tick().unwrap();
    {
        let r = e.get_glul_req().unwrap();
        assert_eq!(r.idx, 0);
        let tb = r.thread_blocks.as_ref().unwrap();
        assert_eq!(tb.pc, 0x1234);
        assert_eq!(tb.bp, 0x3000);
        assert_eq!(tb.block_dim, (16, 2, 1));
        assert_eq!((tb.regs, tb.shmem), (8, 64));
        assert_eq!(tb.block_idxs, vec![(0, 0, 0), (1, 0, 0), (2, 0, 0)]);
    }
    assert!(e.get_completion().is_none());
    // The batch stays posted until it is taken; no second one is posted.
    e.tick().unwrap();
    assert_eq!(e.get_glul_req().unwrap().thread_blocks.as_ref().unwrap().block_idxs.len(), 3);
    e.clear_glul_req();
    assert!(e.get_glul_req().is_none());
    e.tick().unwrap();
    assert!(e.get_glul_req().is_none());
    e.notify_glul_done(2);
    e.tick().unwrap();
    assert!(e.get_completion().is_none());
    e.notify_glul_done(1);
    e.tick().unwrap(); // scheduling -> success
    assert!(e.get_completion().is_none());
    e.tick().unwrap(); // success -> report
    let (event, ticket) = e.get_completion().unwrap();
    assert_eq!(ticket, 11);
    assert_eq!(event.bytes(), [3, 0, 0, 0, 0, 0, 0, 0, 0, 0, 0, 0, 0, 0, 0, 0]);
    assert!(e.busy());
    e.tick().unwrap(); // report -> idle
    assert!(e.get_completion().is_none());
    assert!(!e.busy());
}

#[test]
fn scheduler_takes_the_smallest_offer_and_the_lowest_index() {
    let small = GLULConfig { num_cores: 2, ..GLULConfig::default_id(1) };
    let gluls = vec![
        GLULStatus { config: GLULConfig::default_id(0), busy: false },
        GLULStatus { config: small, busy: false },
        GLULStatus { config: small, busy: false },
    ];
    let mut e = scheduling_engine((9, 1, 1), gluls.clone());
    e.tick().unwrap();
    let r = e.get_glul_req().unwrap();
    assert_eq!(r.idx, 1);
    assert_eq!(r.thread_blocks.as_ref().unwrap().block_idxs, vec![(0, 0, 0), (1, 0, 0)]);
    e.clear_glul_req();
    // Cluster 1 is busy now: the next batch goes to the other small one.
    let mut shown = gluls.clone();
    shown[1].busy = true;
    e.set_gluls(shown);
    e.tick().unwrap();
    let r = e.get_glul_req().unwrap();
    assert_eq!(r.idx, 2);
    assert_eq!(r.thread_blocks.as_ref().unwrap().block_idxs, vec![(2, 0, 0), (3, 0, 0)]);
    e.clear_glul_req();
    let mut shown = gluls.clone();
    shown[1].busy = true;
    shown[2].busy = true;
    e.set_gluls(shown);
    e.tick().unwrap();
    let r = e.get_glul_req().unwrap();
    assert_eq!(r.idx, 0);
    assert_eq!(r.thread_blocks.as_ref().unwrap().block_idxs.len(), 4);
    e.clear_glul_req();
    // All busy: nothing is posted.
    let shown: Vec<GLULStatus> =
        gluls.iter().map(|g| GLULStatus { config: g.config, busy: true }).collect();
    e.set_gluls(shown);
    e.tick().unwrap();
    assert!(e.get_glul_req().is_none());
    // One block is left: the batch is cut to it.
    e.set_gluls(gluls);
    e.tick().unwrap();
    assert_eq!(e.get_glul_req().unwrap().thread_blocks.as_ref().unwrap().block_idxs, vec![(8, 0, 0)]);
}

#[test]
fn fault_ends_the_kernel_and_later_reports_are_dropped() {
    let mut e = scheduling_engine((8, 1, 1), free(1));
    e.tick().unwrap();
    e.clear_glul_req();
    e.tick().unwrap();
    assert!(e.get_glul_req().is_some());
    e.notify_glul_err(ExecErr { pc: 0x10, warp_id: 2 });
    assert!(e.get_glul_req().is_none());
    let (event, ticket) = e.get_completion().unwrap();
    assert_eq!(ticket, 11);
    assert_eq!(event.bytes(), [3, 1, 0x10, 0, 0, 0, 2, 0, 0, 0, 0, 0, 0, 0, 0, 0]);
    e.notify_glul_done(4);
    e.notify_glul_err(ExecErr { pc: 0x99, warp_id: 9 });
    assert_eq!(e.get_completion().unwrap().0.bytes()[2], 0x10);
    e.tick().unwrap();
    assert!(!e.busy());
    assert!(e.get_completion().is_none());
    e.notify_glul_done(4);
    e.tick().unwrap();
    assert!(!e.busy());
}

#[test]
fn mem_engine_copy() {
    let mut e = MemEngine::new(MemEngineConfig {});
    assert_eq!(e.cmd_type(), CmdType::MEM);
    let mut b = [0u8; 16];
    b[0] = 1;
    b[1] = 5;
    b[2] = 0;
    b[3..7].copy_from_slice(&0x111u32.to_le_bytes());
    b[7..11].copy_from_slice(&0x222u32.to_le_bytes());
    b[11..15].copy_from_slice(&0x333u32.to_le_bytes());
    b[15] = 0x02; // bit 0 clear: device to host
    e.set_cmd(engine_cmd(b), 4);
    assert!(e.busy());
    e.tick().unwrap();
    assert!(e.get_dma_req().is_none());
    e.tick().unwrap();
    {
        let d = e.get_dma_req().unwrap();
        assert_eq!(d.dir, DMADir::D2H);
        assert_eq!((d.src_addr, d.target_addr, d.sz, d.done), (0x111, 0x222, 0x333, false));
    }
    e.tick().unwrap();
    assert!(e.get_dma_req().is_some());
    assert!(e.get_completion().is_none());
    e.done_dma_req();
    assert!(e.get_dma_req().is_none());
    e.tick().unwrap();
    assert!(!e.busy());
    let (event, ticket) = e.get_completion().unwrap();
    assert_eq!((event.bytes()[0], event.bytes()[1], ticket), (5, 0, 4));
    e.tick().unwrap();
    assert!(e.get_completion().is_none());
    assert!(e.get_mem_req().is_none() && e.get_glul_req().is_none());
}

#[test]
fn mem_engine_set() {
    let mut e = MemEngine::new(MemEngineConfig {});
    let mut b = [0u8; 16];
    b[0] = 1;
    b[1] = 6;
    b[2] = 1;
    b[3..7].copy_from_slice(&0x40u32.to_le_bytes());
    b[7..11].copy_from_slice(&0x1ffu32.to_le_bytes());
    b[11..15].copy_from_slice(&5u32.to_le_bytes());
    e.set_cmd(engine_cmd(b), 0);
    e.tick().unwrap();
    e.tick().unwrap();
    {
        let q = e.get_mem_req().unwrap();
        assert_eq!((q.addr, q.write, q.bytes), (0x40, true, 5));
        assert_eq!(q.data, vec![0xff; 5]);
    }
    e.tick().unwrap();
    assert!(e.get_mem_req().is_some());
    e.set_mem_resp(None);
    assert!(e.get_mem_req().is_none());
    // A command can be taken as soon as the engine is idle again, while the
    // report on the last one is still to be fetched.
    e.tick().unwrap();
    assert!(!e.busy());
    b[1] = 7;
    e.set_cmd(engine_cmd(b), 1);
    let (event, ticket) = e.get_completion().unwrap();
    assert_eq!((event.bytes()[0], ticket), (6, 0));
    e.tick().unwrap();
    assert!(e.get_completion().is_none());
    assert!(e.busy());
}

#[test]
fn cs_engine_is_always_idle() {
    let mut e = CSEngine::new(CSEngineConfig {});
    assert_eq!(e.cmd_type(), CmdType::CSR);
    let mut b = [0u8; 16];
    b[0] = 2;
    e.set_cmd(engine_cmd(b), 3);
    assert!(!e.busy());
    e.tick().unwrap();
    assert!(!e.busy());
    assert!(e.get_dma_req().is_none());
    assert!(e.get_mem_req().is_none());
    assert!(e.get_glul_req().is_none());
    assert!(e.get_completion().is_none());
}

#[test]
fn engines_of_any_kind_are_driven_alike() {
    let mut engines = EngineConfig::default().generate_engines();
    for e in engines.iter_mut() {
        e.set_gluls(free(1));
        assert!(e.tick().is_ok());
        assert!(!e.busy());
        assert!(e.get_completion().is_none());
    }
    let mut b = [0u8; 16];
    b[0] = 1;
    b[1] = 9;
    b[2] = 1;
    b[11] = 1;
    match &mut engines[1] {
        Engine::Mem(_) => {}
        _ => panic!("the second engine is the memory engine"),
    }
    engines[1].set_cmd(engine_cmd(b), 2);
    engines[1].tick().unwrap();
    engines[1].tick().unwrap();
    assert_eq!(engines[1].get_mem_req().unwrap().data, vec![0]);
    engines[1].set_mem_resp(None);
    engines[1].tick().unwrap();
    assert_eq!(engines[1].get_completion().unwrap().1, 2);
}
