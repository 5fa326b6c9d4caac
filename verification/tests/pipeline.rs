use gluon::common::base::{Command, Configurable, DMADir, Event, ExecErr, SimErr};
use gluon::glug::completion::CompletionConfig;
use gluon::glug::decode_dispatch::DecodeDispatchConfig;
use gluon::glug::engine::EngineConfig;
use gluon::glug::frontend::FrontendConfig;
use gluon::glug::glug::{GLUGConfig, TickResult, GLUG};
use gluon::glul::glul::{ExecOutcome, GLULConfig, GLULWork};
use gluon::top::{SimConfig, Top, TopConfig};

/// Everything outside of the library that a cycle touches.
struct World {
    dram: Vec<u8>,
    host: Vec<u8>,
    fault: Option<ExecErr>,
    /// Blocks of every batch that was spawned, in order.
    spawned: Vec<Vec<(u32, u32, u32)>>,
    /// Lanes of the first warp of the first core of the last batch spawned.
    first_warp: Vec<(u32, u32, u32)>,
    resets: usize,
    mem_served: usize,
    dma_served: usize,
    busy_while_executing: bool,
}

fn world() -> World {
    World {
        dram: vec![0u8; 0x10000],
        host: vec![0u8; 0x10000],
        fault: None,
        spawned: Vec::new(),
        first_warp: Vec::new(),
        resets: 0,
        mem_served: 0,
        dma_served: 0,
        busy_while_executing: false,
    }
}

fn config(gluls: usize, cq: usize, eq: usize) -> GLUGConfig {
    let mut cfg = GLUGConfig::default();
    cfg.frontend = FrontendConfig { command_queue_size: cq };
    cfg.decode_dispatch = DecodeDispatchConfig::default();
    cfg.engine = EngineConfig::default();
    cfg.completion = CompletionConfig { event_queue_size: eq };
    cfg.gluls = (0..gluls).map(GLULConfig::default_id).collect();
    cfg
}

fn cycle(glug: &mut GLUG, w: &mut World) {
    let work = glug.begin_tick();
    let mut outcomes = Vec::new();
    for item in &work.gluls {
        match item {
            GLULWork::Idle => outcomes.push(ExecOutcome::Running),
            GLULWork::Reset => {
                w.resets += 1;
                outcomes.push(ExecOutcome::Running);
            }
            GLULWork::Spawn(plan) => {
                let mut blocks = Vec::new();
                for entry in plan {
                    if !blocks.contains(&entry.block_idx) {
                        blocks.push(entry.block_idx);
                    }
                }
                w.first_warp = plan[0].warps[0].clone();
                w.spawned.push(blocks);
                outcomes.push(ExecOutcome::Running);
            }
            GLULWork::Execute(_) => match w.fault {
                Some(f) => outcomes.push(ExecOutcome::Fault(f)),
                None => outcomes.push(ExecOutcome::Retired),
            },
        }
    }
    let mut mem_data = None;
    if let Some(q) = &work.mem {
        w.mem_served += 1;
        let at = q.addr as usize;
        if q.write {
            w.dram[at..at + q.data.len()].copy_from_slice(&q.data);
        } else {
            mem_data = Some(w.dram[at..at + q.bytes as usize].to_vec());
        }
    }
    if let Some(d) = &work.dma {
        w.dma_served += 1;
        let (s, t, n) = (d.src_addr as usize, d.target_addr as usize, d.sz as usize);
        match d.dir {
            DMADir::H2D => w.dram[t..t + n].copy_from_slice(&w.host[s..s + n]),
            DMADir::D2H => w.host[t..t + n].copy_from_slice(&w.dram[s..s + n]),
        }
    }
    assert!(glug.tick(TickResult { gluls: outcomes, mem_data }).is_ok());
}

fn le(v: u32) -> [u8; 4] {
    v.to_le_bytes()
}

fn kernel_cmd(id: u8, host_addr: u32, sz: u32, gpu_addr: u32) -> Command {
    let mut b = [0u8; 16];
    b[0] = 0;
    b[1] = id;
    b[2..6].copy_from_slice(&le(host_addr));
    b[6..10].copy_from_slice(&le(sz));
    b[10..14].copy_from_slice(&le(gpu_addr));
    Command::from_bytes(b)
}

fn mem_set_cmd(id: u8, dst: u32, value: u32, len: u32) -> Command {
    let mut b = [0u8; 16];
    b[0] = 1;
    b[1] = id;
    b[2] = 1;
    b[3..7].copy_from_slice(&le(dst));
    b[7..11].copy_from_slice(&le(value));
    b[11..15].copy_from_slice(&le(len));
    Command::from_bytes(b)
}

fn mem_copy_cmd(id: u8, src: u32, dst: u32, len: u32, flags: u8) -> Command {
    let mut b = [0u8; 16];
    b[0] = 1;
    b[1] = id;
    b[2] = 0;
    b[3..7].copy_from_slice(&le(src));
    b[7..11].copy_from_slice(&le(dst));
    b[11..15].copy_from_slice(&le(len));
    b[15] = flags;
    Command::from_bytes(b)
}

fn fence_cmd(id: u8) -> Command {
    let mut b = [0u8; 16];
    b[0] = 3;
    b[1] = id;
    Command::from_bytes(b)
}

fn header(grid: (u32, u32, u32), block: (u32, u32, u32), regs: u8, shmem: u32) -> Vec<u8> {
    let mut h = Vec::new();
    h.extend_from_slice(&le(0x40)); // start_pc
    h.extend_from_slice(&le(0x44)); // kernel_pc
    h.extend_from_slice(&le(0)); // params_sz
    h.extend_from_slice(&le(0)); // binary_sz
    h.extend_from_slice(&le(0)); // stack_base_addr
    h.extend_from_slice(&le(0)); // tls_base_addr
    for v in [grid.0, grid.1, grid.2, block.0, block.1, block.2] {
        h.extend_from_slice(&le(v));
    }
    h.extend_from_slice(&le(0)); // printf_host_addr
    h.push(regs);
    h.extend_from_slice(&le(shmem));
    h.push(0); // flags
    assert_eq!(h.len(), 58);
    h
}

fn put_kernel(w: &mut World, at: usize, grid: (u32, u32, u32), block: (u32, u32, u32)) {
    let h = header(grid, block, 8, 0);
    w.host[at..at + 58].copy_from_slice(&h);
}

/// Runs cycles, popping completions after each, until `want` events came or
/// `limit` cycles passed.
fn drive(glug: &mut GLUG, w: &mut World, want: usize, limit: usize) -> Vec<Event> {
    let mut events = Vec::new();
    for _ in 0..limit {
        cycle(glug, w);
        while let Some(e) = glug.get_completion() {
            events.push(e);
        }
        if events.len() >= want {
            break;
        }
    }
    events
}

#[test]
fn single_kernel_two_blocks_one_submission() {
    let mut glug = GLUG::new(config(1, 4, 4));
    let mut w = world();
    put_kernel(&mut w, 0x100, (2, 1, 1), (16, 1, 1));
    glug.submit_command(kernel_cmd(5, 0x100, 58, 0x3000));
    let events = drive(&mut glug, &mut w, 1, 100);
    assert_eq!(events.len(), 1);
    assert_eq!(events[0].bytes()[0], 5);
    assert_eq!(events[0].bytes()[1], 0);
    assert_eq!(w.spawned, vec![vec![(0, 0, 0), (1, 0, 0)]]);
    assert_eq!(w.resets, 1);
    assert_eq!(w.first_warp.len(), 16);
    assert_eq!(w.first_warp[0], (0, 0, 0));
    assert_eq!(w.first_warp[15], (15, 0, 0));
    assert_eq!(&w.dram[0x3000..0x3000 + 58], &header((2, 1, 1), (16, 1, 1), 8, 0)[..]);
}

#[test]
fn mem_set_fills_dram() {
    let mut glug = GLUG::new(config(1, 4, 4));
    let mut w = world();
    glug.submit_command(mem_set_cmd(7, 0x1000, 0xAB, 64));
    let events = drive(&mut glug, &mut w, 1, 100);
    assert_eq!(events.len(), 1);
    assert_eq!(events[0].bytes(), [7, 0, 0, 0, 0, 0, 0, 0, 0, 0, 0, 0, 0, 0, 0, 0]);
    assert_eq!(&w.dram[0x1000..0x1040], &[0xABu8; 64][..]);
    assert_eq!(w.dram[0x0fff], 0);
    assert_eq!(w.dram[0x1040], 0);
    assert_eq!(w.mem_served, 1);
}

#[test]
fn mem_set_stores_low_byte_of_value() {
    let mut glug = GLUG::new(config(1, 4, 4));
    let mut w = world();
    glug.submit_command(mem_set_cmd(1, 0x20, 0x1234_56CD, 3));
    let events = drive(&mut glug, &mut w, 1, 100);
    assert_eq!(events.len(), 1);
    assert_eq!(&w.dram[0x20..0x23], &[0xCD, 0xCD, 0xCD]);
}

#[test]
fn mem_copy_host_to_device() {
    let mut glug = GLUG::new(config(1, 4, 4));
    let mut w = world();
    for i in 0..256usize {
        w.host[0x500 + i] = i as u8;
    }
    glug.submit_command(mem_copy_cmd(9, 0x500, 0x2000, 256, 1));
    let events = drive(&mut glug, &mut w, 1, 100);
    assert_eq!(events.len(), 1);
    assert_eq!(events[0].bytes()[0], 9);
    assert_eq!(events[0].bytes()[1], 0);
    let want: Vec<u8> = (0..256usize).map(|i| i as u8).collect();
    assert_eq!(&w.dram[0x2000..0x2100], &want[..]);
    assert_eq!(w.dma_served, 1);
}

#[test]
fn mem_copy_device_to_host() {
    let mut glug = GLUG::new(config(1, 4, 4));
    let mut w = world();
    for i in 0..32usize {
        w.dram[0x700 + i] = (i as u8) ^ 0x5a;
    }
    glug.submit_command(mem_copy_cmd(2, 0x700, 0x900, 32, 0));
    let events = drive(&mut glug, &mut w, 1, 100);
    assert_eq!(events.len(), 1);
    let want: Vec<u8> = (0..32usize).map(|i| (i as u8) ^ 0x5a).collect();
    assert_eq!(&w.host[0x900..0x920], &want[..]);
}

#[test]
fn fence_waits_for_earlier_completions() {
    let mut glug = GLUG::new(config(1, 4, 4));
    let mut w = world();
    put_kernel(&mut w, 0x100, (1, 1, 1), (16, 1, 1));
    let cmds = [kernel_cmd(1, 0x100, 58, 0x3000), fence_cmd(2), mem_set_cmd(3, 0x1000, 1, 4)];
    let mut next = 0;
    let mut ids = Vec::new();
    let mut kernel_popped_at = None;
    let mut fence_seen_at = None;
    for t in 0..200 {
        if next < cmds.len() && !glug.busy() {
            glug.submit_command(cmds[next]);
            next += 1;
        }
        cycle(&mut glug, &mut w);
        // Hold the kernel's completion back for a while: the fence must
        // wait for it to be popped, not only to be written.
        if t >= 40 {
            while let Some(e) = glug.get_completion() {
                if e.bytes()[0] == 1 {
                    kernel_popped_at = Some(t);
                }
                if e.bytes()[0] == 2 {
                    fence_seen_at = Some(t);
                }
                ids.push(e.bytes()[0]);
            }
        }
        if ids.len() == 3 {
            break;
        }
    }
    assert_eq!(ids, vec![1, 2, 3]);
    assert_eq!(kernel_popped_at, Some(40));
    assert!(fence_seen_at.unwrap() > 40);
    // The set came after the fence: nothing was written before cycle 40.
    assert_eq!(&w.dram[0x1000..0x1004], &[1, 1, 1, 1]);
}

#[test]
fn fence_holds_later_commands_back() {
    let mut glug = GLUG::new(config(1, 4, 4));
    let mut w = world();
    put_kernel(&mut w, 0x100, (1, 1, 1), (16, 1, 1));
    let cmds = [kernel_cmd(1, 0x100, 58, 0x3000), fence_cmd(2), mem_set_cmd(3, 0x1000, 1, 4)];
    let mut next = 0;
    for _ in 0..60 {
        if next < cmds.len() && !glug.busy() {
            glug.submit_command(cmds[next]);
            next += 1;
        }
        cycle(&mut glug, &mut w);
    }
    // No completion was popped, so the fence is still in the frontend and
    // the set behind it has not run.
    assert_eq!(&w.dram[0x1000..0x1004], &[0, 0, 0, 0]);
    assert_eq!(w.mem_served, 1);
    let first = glug.get_completion().unwrap();
    assert_eq!(first.bytes()[0], 1);
    assert!(glug.get_completion().is_none());
}

#[test]
fn backpressure_with_queues_of_one() {
    let mut glug = GLUG::new(config(1, 1, 1));
    let mut w = world();
    glug.submit_command(mem_set_cmd(1, 0x10, 0x11, 4));
    assert!(glug.busy());
    cycle(&mut glug, &mut w);
    assert!(!glug.busy());
    glug.submit_command(mem_set_cmd(2, 0x20, 0x22, 4));
    assert!(glug.busy());
    cycle(&mut glug, &mut w);
    // The second command has entered the frontend; it cannot be released
    // while the ring's one slot is taken by the first.
    assert!(!glug.busy());
    let events = drive(&mut glug, &mut w, 2, 100);
    let ids: Vec<u8> = events.iter().map(|e| e.bytes()[0]).collect();
    assert_eq!(ids, vec![1, 2]);
    assert_eq!(&w.dram[0x10..0x14], &[0x11; 4]);
    assert_eq!(&w.dram[0x20..0x24], &[0x22; 4]);
}

#[test]
fn latch_stays_occupied_while_frontend_is_full() {
    let mut glug = GLUG::new(config(1, 1, 1));
    let mut w = world();
    glug.submit_command(mem_set_cmd(1, 0x10, 0x11, 4));
    cycle(&mut glug, &mut w);
    glug.submit_command(mem_set_cmd(2, 0x20, 0x22, 4));
    cycle(&mut glug, &mut w);
    glug.submit_command(mem_set_cmd(3, 0x30, 0x33, 4));
    // Command 2 sits in the frontend's one place and cannot leave it before
    // the completion of command 1 is popped: command 3 stays latched.
    for _ in 0..30 {
        cycle(&mut glug, &mut w);
        assert!(glug.busy());
    }
    let events = drive(&mut glug, &mut w, 3, 200);
    let ids: Vec<u8> = events.iter().map(|e| e.bytes()[0]).collect();
    assert_eq!(ids, vec![1, 2, 3]);
}

#[test]
fn execution_error_is_reported_and_cluster_goes_idle() {
    let mut glug = GLUG::new(config(1, 4, 4));
    let mut w = world();
    w.fault = Some(ExecErr { pc: 0xDEAD, warp_id: 3 });
    put_kernel(&mut w, 0x100, (1, 1, 1), (16, 1, 1));
    glug.submit_command(kernel_cmd(4, 0x100, 58, 0x3000));
    let events = drive(&mut glug, &mut w, 1, 100);
    assert_eq!(events.len(), 1);
    let b = events[0].bytes();
    assert_eq!(b[0], 4);
    assert_eq!(b[1], 1);
    assert_eq!(&b[2..6], &[0xAD, 0xDE, 0, 0]);
    assert_eq!(&b[6..10], &[3, 0, 0, 0]);
    assert_eq!(&b[10..16], &[0u8; 6]);
    assert_eq!(events[0].to_exec_err(), ExecErr { pc: 0xDEAD, warp_id: 3 });
    // The cluster asks for nothing more.
    let work = glug.begin_tick();
    assert!(matches!(work.gluls[0], GLULWork::Idle));
    assert!(work.mem.is_none() && work.dma.is_none());
}

#[test]
fn kernel_blocks_go_out_in_raster_order() {
    let mut glug = GLUG::new(config(1, 4, 4));
    let mut w = world();
    put_kernel(&mut w, 0x100, (3, 2, 2), (16, 1, 1));
    glug.submit_command(kernel_cmd(1, 0x100, 58, 0x3000));
    let events = drive(&mut glug, &mut w, 1, 400);
    assert_eq!(events.len(), 1);
    assert_eq!(events[0].bytes()[1], 0);
    let all: Vec<(u32, u32, u32)> = w.spawned.iter().flatten().copied().collect();
    let mut want = Vec::new();
    for z in 0..2 {
        for y in 0..2 {
            for x in 0..3 {
                want.push((x, y, z));
            }
        }
    }
    assert_eq!(all, want);
    // Four blocks fit on the cluster at once.
    assert_eq!(w.spawned.iter().map(|b| b.len()).collect::<Vec<_>>(), vec![4, 4, 4]);
}

#[test]
fn two_clusters_share_a_kernel() {
    let mut glug = GLUG::new(config(2, 4, 4));
    let mut w = world();
    put_kernel(&mut w, 0x100, (8, 1, 1), (16, 1, 1));
    glug.submit_command(kernel_cmd(1, 0x100, 58, 0x3000));
    let events = drive(&mut glug, &mut w, 1, 400);
    assert_eq!(events.len(), 1);
    let mut all: Vec<(u32, u32, u32)> = w.spawned.iter().flatten().copied().collect();
    assert_eq!(all.len(), 8);
    all.sort();
    all.dedup();
    assert_eq!(all.len(), 8);
}

#[test]
fn empty_grid_completes_without_submission() {
    let mut glug = GLUG::new(config(1, 4, 4));
    let mut w = world();
    put_kernel(&mut w, 0x100, (0, 1, 1), (16, 1, 1));
    glug.submit_command(kernel_cmd(6, 0x100, 58, 0x3000));
    let events = drive(&mut glug, &mut w, 1, 100);
    assert_eq!(events.len(), 1);
    assert_eq!(events[0].bytes()[0], 6);
    assert!(w.spawned.is_empty());
}

#[test]
fn one_request_of_each_kind_per_cycle() {
    let mut cfg = config(1, 4, 4);
    cfg.engine.num_mem_engines = 2;
    let mut glug = GLUG::new(cfg);
    let mut w = world();
    let cmds = [mem_set_cmd(1, 0x10, 1, 4), mem_set_cmd(2, 0x20, 2, 4)];
    let mut next = 0;
    let mut ids = Vec::new();
    for _ in 0..100 {
        if next < cmds.len() && !glug.busy() {
            glug.submit_command(cmds[next]);
            next += 1;
        }
        let before = w.mem_served;
        cycle(&mut glug, &mut w);
        assert!(w.mem_served - before <= 1);
        while let Some(e) = glug.get_completion() {
            ids.push(e.bytes()[0]);
        }
    }
    assert_eq!(ids, vec![1, 2]);
    // Each write was carried out once.
    assert_eq!(w.mem_served, 2);
}

#[test]
fn completions_follow_release_order_across_engines() {
    let mut glug = GLUG::new(config(1, 4, 4));
    let mut w = world();
    put_kernel(&mut w, 0x100, (4, 1, 1), (16, 1, 1));
    let cmds = [
        kernel_cmd(10, 0x100, 58, 0x3000),
        mem_set_cmd(11, 0x10, 1, 4),
        mem_set_cmd(12, 0x20, 2, 4),
    ];
    let mut next = 0;
    let mut ids = Vec::new();
    for _ in 0..200 {
        if next < cmds.len() && !glug.busy() {
            glug.submit_command(cmds[next]);
            next += 1;
        }
        cycle(&mut glug, &mut w);
        while let Some(e) = glug.get_completion() {
            ids.push(e.bytes()[0]);
        }
    }
    // The sets finish long before the kernel and still come out after it.
    assert_eq!(ids, vec![10, 11, 12]);
}

#[test]
fn top_counts_cycles_and_times_out() {
    let mut cfg = TopConfig::default();
    cfg.sim = SimConfig { timeout_cycles: 3 };
    cfg.glug = config(1, 4, 4);
    let mut top = Top::new(cfg);
    assert_eq!(top.cycles_elapsed(), 0);
    for want in 1..=2u64 {
        let work = top.begin_tick();
        let outcomes = work.gluls.iter().map(|_| ExecOutcome::Running).collect();
        assert_eq!(top.tick(TickResult { gluls: outcomes, mem_data: None }), Ok(()));
        assert_eq!(top.cycles_elapsed(), want);
    }
    let work = top.begin_tick();
    let outcomes = work.gluls.iter().map(|_| ExecOutcome::Running).collect();
    assert_eq!(top.tick(TickResult { gluls: outcomes, mem_data: None }), Err(SimErr::TIMEOUT));
    assert_eq!(top.cycles_elapsed(), 3);
}

#[test]
fn top_without_budget_never_times_out() {
    let mut cfg = TopConfig::default();
    cfg.glug = config(1, 4, 4);
    let mut top = Top::new(cfg);
    top.submit_command(fence_cmd(8));
    assert!(top.busy());
    let mut seen = None;
    for _ in 0..20 {
        let work = top.begin_tick();
        let outcomes = work.gluls.iter().map(|_| ExecOutcome::Running).collect();
        assert_eq!(top.tick(TickResult { gluls: outcomes, mem_data: None }), Ok(()));
        if let Some(e) = top.get_completion() {
            seen = Some(e.bytes()[0]);
        }
    }
    assert_eq!(seen, Some(8));
    assert_eq!(top.cycles_elapsed(), 20);
    assert!(!top.busy());
}

#[test]
fn fault_kills_the_kernels_other_batches_and_the_next_kernel_runs() {
    let mut glug = GLUG::new(config(2, 4, 4));
    let mut w = world();
    w.fault = Some(ExecErr { pc: 0x44, warp_id: 1 });
    put_kernel(&mut w, 0x100, (16, 1, 1), (16, 1, 1));
    glug.submit_command(kernel_cmd(1, 0x100, 58, 0x3000));
    let events = drive(&mut glug, &mut w, 1, 200);
    assert_eq!(events.len(), 1);
    assert_eq!(&events[0].bytes()[..3], &[1, 1, 0x44]);
    // Both clusters are idle again and nothing is left over.
    for _ in 0..5 {
        cycle(&mut glug, &mut w);
    }
    let work = glug.begin_tick();
    assert!(work.gluls.iter().all(|g| matches!(g, GLULWork::Idle)));
    let outcomes = work.gluls.iter().map(|_| ExecOutcome::Running).collect();
    glug.tick(TickResult { gluls: outcomes, mem_data: None }).unwrap();
    assert!(glug.get_completion().is_none());
    // A second kernel is not disturbed by the first.
    w.fault = None;
    w.spawned.clear();
    put_kernel(&mut w, 0x200, (3, 1, 1), (16, 1, 1));
    glug.submit_command(kernel_cmd(2, 0x200, 58, 0x4000));
    let events = drive(&mut glug, &mut w, 1, 200);
    assert_eq!(events.len(), 1);
    assert_eq!(&events[0].bytes()[..2], &[2, 0]);
    let all: Vec<(u32, u32, u32)> = w.spawned.iter().flatten().copied().collect();
    assert_eq!(all, vec![(0, 0, 0), (1, 0, 0), (2, 0, 0)]);
}

#[test]
fn two_kernel_engines_run_two_kernels() {
    let mut cfg = config(2, 4, 4);
    cfg.engine.num_kernel_engines = 2;
    let mut glug = GLUG::new(cfg);
    let mut w = world();
    put_kernel(&mut w, 0x100, (2, 1, 1), (16, 1, 1));
    put_kernel(&mut w, 0x200, (2, 1, 1), (16, 1, 1));
    let cmds = [kernel_cmd(1, 0x100, 58, 0x3000), kernel_cmd(2, 0x200, 58, 0x4000)];
    let mut next = 0;
    let mut ids = Vec::new();
    for _ in 0..300 {
        if next < cmds.len() && !glug.busy() {
            glug.submit_command(cmds[next]);
            next += 1;
        }
        cycle(&mut glug, &mut w);
        while let Some(e) = glug.get_completion() {
            assert_eq!(e.bytes()[1], 0);
            ids.push(e.bytes()[0]);
        }
    }
    assert_eq!(ids, vec![1, 2]);
}

#[test]
fn undecodable_command_stays_at_the_head() {
    let mut glug = GLUG::new(config(1, 2, 4));
    let mut w = world();
    let mut b = [0u8; 16];
    b[0] = 9;
    glug.submit_command(Command::from_bytes(b));
    cycle(&mut glug, &mut w);
    assert!(!glug.busy());
    glug.submit_command(fence_cmd(1));
    for _ in 0..20 {
        cycle(&mut glug, &mut w);
    }
    // The fence sits behind a command of no known type and is never released.
    assert!(glug.get_completion().is_none());
    assert!(!glug.busy());
}
