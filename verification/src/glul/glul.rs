//! A cluster takes one batch of thread blocks at a time, spreads the blocks
//! over its cores as warps, runs them, and reports the batch done or faulted.

use crate::common::base::{Configurable, ExecErr, SimErr, ThreadBlocks, ThreadBlocksView};
use crate::common::grid::{
    lemma_raster_range_concat, lemma_volume_bound, raster_point, raster_range, volume, volume_of,
};
use vstd::arithmetic::div_mod::{
    lemma_div_basics, lemma_div_is_ordered, lemma_div_nonincreasing,
    lemma_fundamental_div_mod, lemma_fundamental_div_mod_converse, lemma_mod_bound,
    lemma_multiply_divide_le,
};
use vstd::arithmetic::mul::lemma_mul_upper_bound;
use vstd::prelude::*;

verus! {

/// Resources of one cluster.
#[derive(Debug, Clone, Copy)]
pub struct GLULConfig {
    pub id: usize,
    pub num_cores: usize,
    pub num_warps: usize,
    pub num_lanes: usize,
    pub regs_per_core: usize,
    pub shmem: usize,
}

impl Default for GLULConfig {
    fn default() -> (c: Self)
        ensures
            c == GLULConfig::spec_default_id(0),
    {
        GLULConfig { id: 0, num_cores: 4, num_warps: 4, num_lanes: 16, regs_per_core: 256,
            shmem: 4096 }
    }
}

/// `a / b` rounded up; 0 when `b` is 0.
pub open spec fn ceil_div(a: nat, b: nat) -> nat {
    if b == 0 {
        0
    } else {
        ((a + b - 1) / (b as int)) as nat
    }
}

/// Warps that one block of `threads` threads needs on `lanes`-wide cores: at
/// least one.
pub open spec fn warps_per_tb(threads: nat, lanes: nat) -> nat {
    if ceil_div(threads, lanes) < 1 {
        1
    } else {
        ceil_div(threads, lanes)
    }
}

/// Cores that one block needs when a core holds `warps` warps.
pub open spec fn cores_per_tb(threads: nat, lanes: nat, warps: nat) -> nat {
    ceil_div(warps_per_tb(threads, lanes), warps)
}

/// Warps of one block that each of its cores gets; the last core may get
/// fewer.
pub open spec fn warps_per_core(threads: nat, lanes: nat, warps: nat) -> nat {
    ceil_div(warps_per_tb(threads, lanes), cores_per_tb(threads, lanes, warps))
}

/// The smaller of two numbers.
pub open spec fn least(a: nat, b: nat) -> nat {
    if a <= b {
        a
    } else {
        b
    }
}

/// A block needs at least one core, and never more cores than warps.
pub proof fn lemma_cores_per_tb_positive(threads: nat, lanes: nat, warps: nat)
    requires
        lanes > 0,
        warps > 0,
    ensures
        warps_per_tb(threads, lanes) >= 1,
        cores_per_tb(threads, lanes, warps) >= 1,
        cores_per_tb(threads, lanes, warps) <= warps_per_tb(threads, lanes),
{
    let w = warps_per_tb(threads, lanes) as int;
    let k = warps as int;
    lemma_div_is_ordered(k, w + k - 1, k);
    lemma_div_basics(k);
    // (w + k - 1) / k <= w, as w + k - 1 <= w * k for w, k >= 1
    assert(w + k - 1 <= k * w) by (nonlinear_arith)
        requires
            w >= 1,
            k >= 1,
    ;
    lemma_multiply_divide_le(w + k - 1, k, w);
}

/// `a / b` rounded up.
pub fn ceil_div_of(a: u128, b: u128) -> (q: u128)
    requires
        b > 0,
        a + b <= u128::MAX,
    ensures
        q == ceil_div(a as nat, b as nat),
{
    (a + b - 1) / b
}

impl GLULConfig {
    /// The stock cluster, under the given id.
    pub open spec fn spec_default_id(id: usize) -> GLULConfig {
        GLULConfig { id, num_cores: 4, num_warps: 4, num_lanes: 16, regs_per_core: 256,
            shmem: 4096 }
    }

    pub fn default_id(id: usize) -> (c: Self)
        ensures
            c == GLULConfig::spec_default_id(id),
    {
        GLULConfig { id, num_cores: 4, num_warps: 4, num_lanes: 16, regs_per_core: 256,
            shmem: 4096 }
    }

    /// Blocks of one kernel that the cluster can hold at once: the least of
    /// what its cores, its registers and its shared memory allow. A kernel
    /// that uses no registers, or no shared memory, is not limited by them. A
    /// cluster without lanes or without warp slots holds none.
    pub open spec fn admissible(
        &self,
        regs_per_thread: u8,
        shmem_per_block: u32,
        threads: nat,
    ) -> nat {
        if self.num_lanes == 0 || self.num_warps == 0 {
            0
        } else {
            let cores_limit = (self.num_cores as nat) / cores_per_tb(
                threads,
                self.num_lanes as nat,
                self.num_warps as nat,
            );
            let reg_limit = ((self.regs_per_core as nat) * (self.num_cores as nat)) / ((
            regs_per_thread as nat) * (self.num_lanes as nat));
            let shmem_limit = (self.shmem as nat) / (shmem_per_block as nat);
            let by_regs = if regs_per_thread == 0 {
                cores_limit
            } else {
                least(cores_limit, reg_limit)
            };
            if shmem_per_block == 0 {
                by_regs
            } else {
                least(by_regs, shmem_limit)
            }
        }
    }

    /// The cluster never admits more blocks than it has cores.
    pub proof fn lemma_admissible_bound(
        &self,
        regs_per_thread: u8,
        shmem_per_block: u32,
        threads: nat,
    )
        ensures
            self.admissible(regs_per_thread, shmem_per_block, threads) <= self.num_cores,
            self.num_lanes > 0 && self.num_warps > 0 ==> self.admissible(
                regs_per_thread,
                shmem_per_block,
                threads,
            ) * cores_per_tb(threads, self.num_lanes as nat, self.num_warps as nat)
                <= self.num_cores,
    {
        if self.num_lanes > 0 && self.num_warps > 0 {
            let cpt = cores_per_tb(threads, self.num_lanes as nat, self.num_warps as nat) as int;
            lemma_cores_per_tb_positive(threads, self.num_lanes as nat, self.num_warps as nat);
            lemma_div_nonincreasing(self.num_cores as int, cpt);
            let cores_limit = self.num_cores as int / cpt;
            vstd::arithmetic::div_mod::lemma_fundamental_div_mod(self.num_cores as int, cpt);
            vstd::arithmetic::div_mod::lemma_mod_bound(self.num_cores as int, cpt);
            let n = self.admissible(regs_per_thread, shmem_per_block, threads) as int;
            assert(n <= cores_limit);
            assert(n * cpt <= self.num_cores) by (nonlinear_arith)
                requires
                    0 <= n <= cores_limit,
                    cpt >= 1,
                    cpt * cores_limit <= self.num_cores,
            ;
        }
    }

    /// A batch of `n` blocks of `threads` threads each finds room on the
    /// cluster's cores.
    pub open spec fn fits(&self, threads: nat, n: nat) -> bool {
        &&& self.num_lanes > 0
        &&& self.num_warps > 0
        &&& n * cores_per_tb(threads, self.num_lanes as nat, self.num_warps as nat)
            <= self.num_cores
    }

    /// Whatever the scheduler admits fits, and so does any smaller batch.
    pub proof fn lemma_admissible_fits(
        &self,
        regs_per_thread: u8,
        shmem_per_block: u32,
        threads: nat,
        n: nat,
    )
        requires
            1 <= n <= self.admissible(regs_per_thread, shmem_per_block, threads),
        ensures
            self.fits(threads, n),
    {
        self.lemma_admissible_bound(regs_per_thread, shmem_per_block, threads);
        let a = self.admissible(regs_per_thread, shmem_per_block, threads) as int;
        let cpt = cores_per_tb(threads, self.num_lanes as nat, self.num_warps as nat) as int;
        assert(n * cpt <= a * cpt) by (nonlinear_arith)
            requires
                0 <= n <= a,
                0 <= cpt,
        ;
    }

    /// Computes `admissible` for a kernel whose blocks have `threads`
    /// threads.
    pub fn admissible_blocks(&self, regs_per_thread: u8, shmem_per_block: u32, threads: u128) -> (n:
        usize)
        requires
            threads <= 0xffff_ffff * 0xffff_ffff * 0xffff_ffff,
        ensures
            n == self.admissible(regs_per_thread, shmem_per_block, threads as nat),
    {
        if self.num_lanes == 0 || self.num_warps == 0 {
            return 0;
        }
        let lanes: u128 = self.num_lanes as u128;
        let warps: u128 = self.num_warps as u128;
        let cores: u128 = self.num_cores as u128;
        let fit: u128 = ceil_div_of(threads, lanes);
        let wpt: u128 = if fit < 1 {
            1
        } else {
            fit
        };
        proof {
            lemma_cores_per_tb_positive(threads as nat, lanes as nat, warps as nat);
            lemma_div_nonincreasing((threads + lanes - 1) as int, lanes as int);
            self.lemma_admissible_bound(regs_per_thread, shmem_per_block, threads as nat);
            lemma_mul_upper_bound(
                self.regs_per_core as int,
                0xffff_ffff_ffff_ffff,
                self.num_cores as int,
                0xffff_ffff_ffff_ffff,
            );
            lemma_mul_upper_bound(
                regs_per_thread as int,
                0xff,
                self.num_lanes as int,
                0xffff_ffff_ffff_ffff,
            );
        }
        let cpt: u128 = ceil_div_of(wpt, warps);
        let cores_limit: u128 = cores / cpt;
        let by_regs: u128 = if regs_per_thread == 0 {
            cores_limit
        } else {
            let regs: u128 = (self.regs_per_core as u128) * cores;
            let need: u128 = (regs_per_thread as u128) * lanes;
            assert(need > 0) by (nonlinear_arith)
                requires
                    need == (regs_per_thread as int) * (lanes as int),
                    regs_per_thread > 0,
                    lanes > 0,
            ;
            let reg_limit: u128 = regs / need;
            if cores_limit <= reg_limit {
                cores_limit
            } else {
                reg_limit
            }
        };
        let n: u128 = if shmem_per_block == 0 {
            by_regs
        } else {
            let shmem_limit: u128 = (self.shmem as u128) / (shmem_per_block as u128);
            if by_regs <= shmem_limit {
                by_regs
            } else {
                shmem_limit
            }
        };
        n as usize
    }
}

/// A batch posted by an engine for the cluster at index `idx`.
#[derive(Debug, Default, Clone)]
pub struct GLULReq {
    pub thread_blocks: Option<ThreadBlocks>,
    pub idx: usize,
}

/// What the scheduler sees of a cluster: its resources and whether it holds
/// a batch it has not finished.
#[derive(Debug, Default, Clone, Copy)]
pub struct GLULStatus {
    pub config: GLULConfig,
    pub busy: bool,
}

impl Configurable<GLULConfig> for GLULStatus {
    open spec fn config_ok(config: GLULConfig) -> bool {
        true
    }

    fn new(config: GLULConfig) -> (s: Self)
        ensures
            s.config == config,
            !s.busy,
    {
        GLULStatus { config, busy: false }
    }
}

/// Where a cluster is with its batch: idle, spawning warps, executing, or
/// draining.
#[derive(Debug, Clone, Copy, PartialEq, Eq, Structural)]
pub enum GLULState {
    S0,
    S1,
    S2,
    S3,
}

/// The threads of warp `w` of a block of extent `dim` on `lanes`-wide cores,
/// lane by lane: the next `lanes` threads of the block's raster order, fewer
/// in the last warp.
pub open spec fn warp_threads(dim: (u32, u32, u32), lanes: nat, w: nat) -> Seq<(u32, u32, u32)> {
    raster_range(dim, least(w * lanes, volume(dim)), least((w + 1) * lanes, volume(dim)))
}

/// The warps that core `c` of a block's cores gets: the next
/// `warps_per_core` warps of the block, fewer on the last core.
pub open spec fn core_warps(dim: (u32, u32, u32), lanes: nat, warps: nat, c: nat) -> Seq<
    Seq<(u32, u32, u32)>,
> {
    let wpt = warps_per_tb(volume(dim), lanes);
    let wpc = warps_per_core(volume(dim), lanes, warps);
    let lo = least(c * wpc, wpt);
    let hi = least((c + 1) * wpc, wpt);
    Seq::new((hi - lo) as nat, |j: int| warp_threads(dim, lanes, (lo + j) as nat))
}

/// The lanes of `warps`, warp after warp.
pub open spec fn joined(warps: Seq<Seq<(u32, u32, u32)>>) -> Seq<(u32, u32, u32)>
    decreases warps.len(),
{
    if warps.len() == 0 {
        Seq::empty()
    } else {
        joined(warps.drop_last()) + warps.last()
    }
}

/// The threads that the first `c` cores of a block run, core after core.
pub open spec fn block_threads(dim: (u32, u32, u32), lanes: nat, warps: nat, c: nat) -> Seq<
    (u32, u32, u32),
>
    decreases c,
{
    if c == 0 {
        Seq::empty()
    } else {
        block_threads(dim, lanes, warps, (c - 1) as nat) + joined(
            core_warps(dim, lanes, warps, (c - 1) as nat),
        )
    }
}

/// Rounding up never falls short: `ceil_div(a, b)` times `b` reaches `a`.
pub proof fn lemma_ceil_div_reaches(a: nat, b: nat)
    requires
        b > 0,
    ensures
        ceil_div(a, b) * b >= a,
{
    let x = (a + b - 1) as int;
    lemma_fundamental_div_mod(x, b as int);
    lemma_mod_bound(x, b as int);
    assert((x / (b as int)) * b == b * (x / (b as int))) by (nonlinear_arith);
}

/// Consecutive warps, joined, are a stretch of the raster order of the
/// block.
proof fn lemma_joined_warps(
    dim: (u32, u32, u32),
    lanes: nat,
    lo: nat,
    ws: Seq<Seq<(u32, u32, u32)>>,
)
    requires
        forall|j: int| 0 <= j < ws.len()
            ==> #[trigger] ws[j] == warp_threads(dim, lanes, (lo + j) as nat),
    ensures
        joined(ws) == raster_range(
            dim,
            least(lo * lanes, volume(dim)),
            least((lo + ws.len()) * lanes, volume(dim)),
        ),
    decreases ws.len(),
{
    let t = volume(dim);
    if ws.len() == 0 {
        assert(joined(ws) =~= raster_range(dim, least(lo * lanes, t), least(lo * lanes, t)));
    } else {
        let before = ws.drop_last();
        let n = before.len();
        lemma_joined_warps(dim, lanes, lo, before);
        assert(ws.last() == warp_threads(dim, lanes, (lo + n) as nat));
        assert(lo * lanes <= (lo + n) * lanes <= (lo + n + 1) * lanes) by (nonlinear_arith)
            requires
                lo >= 0,
                n >= 0,
                lanes >= 0,
        ;
        lemma_raster_range_concat(
            dim,
            least(lo * lanes, t),
            least((lo + n) * lanes, t),
            least((lo + n + 1) * lanes, t),
        );
    }
}

/// The first `c` cores of a block run the first threads of the block's
/// raster order, each thread once.
proof fn lemma_block_threads_upto(dim: (u32, u32, u32), lanes: nat, warps: nat, c: nat)
    requires
        lanes > 0,
        warps > 0,
    ensures
        block_threads(dim, lanes, warps, c) == raster_range(
            dim,
            0,
            least(
                least(c * warps_per_core(volume(dim), lanes, warps), warps_per_tb(volume(dim),
                    lanes))
                    * lanes,
                volume(dim),
            ),
        ),
    decreases c,
{
    let t = volume(dim);
    let wpt = warps_per_tb(t, lanes);
    let wpc = warps_per_core(t, lanes, warps);
    if c == 0 {
        assert(0 * wpc == 0 && 0 * lanes == 0) by (nonlinear_arith);
        assert(block_threads(dim, lanes, warps, c) =~= raster_range(dim, 0, 0));
    } else {
        let p = (c - 1) as nat;
        lemma_block_threads_upto(dim, lanes, warps, p);
        let lo = least(p * wpc, wpt);
        let hi = least(c * wpc, wpt);
        assert(p * wpc <= c * wpc) by (nonlinear_arith)
            requires
                p <= c,
                wpc >= 0,
        ;
        let ws = core_warps(dim, lanes, warps, p);
        assert(ws.len() == hi - lo);
        lemma_joined_warps(dim, lanes, lo, ws);
        assert(lo * lanes <= hi * lanes) by (nonlinear_arith)
            requires
                lo <= hi,
                lanes >= 0,
        ;
        lemma_raster_range_concat(dim, 0, least(lo * lanes, t), least(hi * lanes, t));
    }
}

/// The cores of a block, between them, run every thread of the block once,
/// in raster order: no thread is lost where the warps do not fill the cores
/// evenly, or the threads the last warp.
pub proof fn lemma_block_is_covered(dim: (u32, u32, u32), lanes: nat, warps: nat)
    requires
        lanes > 0,
        warps > 0,
    ensures
        block_threads(dim, lanes, warps, cores_per_tb(volume(dim), lanes, warps)) == raster_range(
            dim,
            0,
            volume(dim),
        ),
{
    let t = volume(dim);
    let wpt = warps_per_tb(t, lanes);
    let cpt = cores_per_tb(t, lanes, warps);
    let wpc = warps_per_core(t, lanes, warps);
    lemma_cores_per_tb_positive(t, lanes, warps);
    lemma_block_threads_upto(dim, lanes, warps, cpt);
    lemma_ceil_div_reaches(wpt, cpt);
    lemma_ceil_div_reaches(t, lanes);
    assert(cpt * wpc == wpc * cpt) by (nonlinear_arith);
    assert(wpt * lanes >= t) by (nonlinear_arith)
        requires
            wpt >= ceil_div(t, lanes),
            ceil_div(t, lanes) * lanes >= t,
            lanes >= 0,
    ;
}

/// The warps to spawn on one core for one block.
#[derive(Debug)]
pub struct CoreSpawn {
    pub core: usize,
    pub pc: u32,
    pub block_idx: (u32, u32, u32),
    /// For each warp, the thread index of each lane.
    pub warps: Vec<Vec<(u32, u32, u32)>>,
}

/// A `CoreSpawn` as the contracts see it.
pub struct CoreSpawnView {
    pub core: usize,
    pub pc: u32,
    pub block_idx: (u32, u32, u32),
    pub warps: Seq<Seq<(u32, u32, u32)>>,
}

impl View for CoreSpawn {
    type V = CoreSpawnView;

    open spec fn view(&self) -> CoreSpawnView {
        CoreSpawnView {
            core: self.core,
            pc: self.pc,
            block_idx: self.block_idx,
            warps: Seq::new(self.warps@.len(), |i: int| self.warps@[i]@),
        }
    }
}

/// How a batch is laid out on a cluster: block `b` takes the cores
/// `b * cores_per_tb` onwards, one entry per core, in core order.
pub open spec fn spawn_plan(cfg: GLULConfig, tb: ThreadBlocksView) -> Seq<CoreSpawnView> {
    let cpt = cores_per_tb(volume(tb.block_dim), cfg.num_lanes as nat, cfg.num_warps as nat);
    Seq::new(
        tb.block_idxs.len() * cpt,
        |e: int|
            CoreSpawnView {
                core: e as usize,
                pc: tb.pc,
                block_idx: tb.block_idxs[e / (cpt as int)],
                warps: core_warps(
                    tb.block_dim,
                    cfg.num_lanes as nat,
                    cfg.num_warps as nat,
                    (e % (cpt as int)) as nat,
                ),
            },
    )
}

/// What the cluster needs done outside of it in the coming step.
#[derive(Debug)]
pub enum GLULWork {
    /// Nothing.
    Idle,
    /// Reset every core and the interconnect.
    Reset,
    /// Spawn these warps.
    Spawn(Vec<CoreSpawn>),
    /// Advance the first so many cores one step, then the interconnect.
    Execute(usize),
}

/// A `GLULWork` as the contracts see it.
pub enum GLULWorkView {
    Idle,
    Reset,
    Spawn(Seq<CoreSpawnView>),
    Execute(usize),
}

impl View for GLULWork {
    type V = GLULWorkView;

    open spec fn view(&self) -> GLULWorkView {
        match self {
            GLULWork::Idle => GLULWorkView::Idle,
            GLULWork::Reset => GLULWorkView::Reset,
            GLULWork::Spawn(plan) => GLULWorkView::Spawn(Seq::new(plan@.len(), |i: int| plan@[i]@)),
            GLULWork::Execute(n) => GLULWorkView::Execute(*n),
        }
    }
}

/// What came of advancing the scheduled cores one step.
#[derive(Debug, Clone, Copy, PartialEq, Eq, Structural)]
pub enum ExecOutcome {
    /// Some warp has not retired yet.
    Running,
    /// Every warp of every scheduled core has retired.
    Retired,
    /// A core reported a fault.
    Fault(ExecErr),
}

/// The cluster as the contracts see it.
pub struct GLULModel {
    pub config: GLULConfig,
    /// The flag that the cluster publishes to the scheduler.
    pub busy: bool,
    /// The number of cores, counted from core 0, that run warps.
    pub scheduled: nat,
    pub state: GLULState,
    /// The batch held: pending, running, or finished and not acknowledged.
    pub batch: Option<ThreadBlocksView>,
    /// The engine that submitted the batch.
    pub engine_idx: usize,
    /// Whether the batch has finished and waits to be acknowledged.
    pub done: bool,
    /// How the batch ended.
    pub err: Result<(), ExecErr>,
}

impl GLULModel {
    /// The cluster at rest.
    pub open spec fn idle(config: GLULConfig) -> GLULModel {
        GLULModel {
            config,
            busy: false,
            scheduled: 0,
            state: GLULState::S0,
            batch: None,
            engine_idx: 0,
            done: false,
            err: Ok(()),
        }
    }

    /// What holds of the cluster between any two calls: it is busy exactly
    /// while it is not idle, it holds a batch whenever it is not idle or has
    /// something to acknowledge, and the batch it holds finds room on it.
    pub open spec fn inv(self) -> bool {
        &&& self.busy == (self.state != GLULState::S0)
        &&& self.state != GLULState::S0 ==> self.batch is Some && !self.done
        &&& self.done ==> self.batch is Some
        &&& self.scheduled <= self.config.num_cores
        &&& (self.state == GLULState::S0 || self.state == GLULState::S1) ==> self.scheduled == 0
        &&& self.batch matches Some(tb) ==> self.config.fits(
            volume(tb.block_dim),
            tb.block_idxs.len(),
        )
    }

    /// A batch was submitted and not started yet.
    pub open spec fn pending(self) -> bool {
        self.state == GLULState::S0 && self.batch is Some && !self.done
    }

    /// The cores that the batch held takes.
    pub open spec fn cores_needed(self) -> nat {
        match self.batch {
            Some(tb) => tb.block_idxs.len() * cores_per_tb(
                volume(tb.block_dim),
                self.config.num_lanes as nat,
                self.config.num_warps as nat,
            ),
            None => 0,
        }
    }

    /// What the coming step needs done outside.
    pub open spec fn work(self) -> GLULWorkView {
        match self.state {
            GLULState::S0 => if self.pending() {
                GLULWorkView::Reset
            } else {
                GLULWorkView::Idle
            },
            GLULState::S1 => GLULWorkView::Spawn(spawn_plan(self.config, self.batch.unwrap())),
            GLULState::S2 => GLULWorkView::Execute(self.scheduled as usize),
            GLULState::S3 => GLULWorkView::Idle,
        }
    }

    /// One step of the state machine; `outcome` is what the cores reported
    /// if they were advanced.
    pub open spec fn tick(self, outcome: ExecOutcome) -> GLULModel {
        match self.state {
            GLULState::S0 => if self.pending() {
                GLULModel { busy: true, state: GLULState::S1, ..self }
            } else {
                self
            },
            GLULState::S1 => GLULModel {
                scheduled: self.cores_needed(),
                state: GLULState::S2,
                ..self
            },
            GLULState::S2 => match outcome {
                ExecOutcome::Fault(e) => GLULModel { err: Err(e), state: GLULState::S3, ..self },
                ExecOutcome::Retired => GLULModel { err: Ok(()), state: GLULState::S3, ..self },
                ExecOutcome::Running => self,
            },
            GLULState::S3 => GLULModel {
                done: true,
                state: GLULState::S0,
                scheduled: 0,
                busy: false,
                ..self
            },
        }
    }

    pub open spec fn submit(self, tb: ThreadBlocksView, engine_idx: usize) -> GLULModel {
        GLULModel { batch: Some(tb), engine_idx, done: false, ..self }
    }

    /// What acknowledging returns: the engine and the number of blocks of a
    /// batch that finished well, or the engine and the fault.
    pub open spec fn ack_result(self) -> Option<Result<(usize, usize), (usize, ExecErr)>> {
        if self.done {
            match self.err {
                Ok(_) => Some(Ok((self.engine_idx, self.batch.unwrap().block_idxs.len() as usize))),
                Err(e) => Some(Err((self.engine_idx, e))),
            }
        } else {
            None
        }
    }

    /// The cluster after acknowledging: the finished batch is gone.
    pub open spec fn ack(self) -> GLULModel {
        if self.done {
            GLULModel { done: false, batch: None, ..self }
        } else {
            self
        }
    }

    /// The cluster holds a batch of engine `engine_idx`.
    pub open spec fn holds_for(self, engine_idx: usize) -> bool {
        self.batch is Some && self.engine_idx == engine_idx
    }

    /// The cluster after its batch was killed if it was of `engine_idx`.
    pub open spec fn kill(self, engine_idx: usize) -> GLULModel {
        if self.holds_for(engine_idx) {
            GLULModel {
                state: GLULState::S0,
                done: false,
                busy: false,
                batch: None,
                scheduled: 0,
                ..self
            }
        } else {
            self
        }
    }
}

/// At every step the busy flag tells whether the cluster is in one of its
/// three working states.
pub proof fn lemma_busy_iff_working(m: GLULModel)
    requires
        m.inv(),
    ensures
        m.busy <==> (m.state == GLULState::S1 || m.state == GLULState::S2 || m.state
            == GLULState::S3),
{
}

/// Every step keeps the invariant.
pub proof fn lemma_tick_keeps_inv(m: GLULModel, outcome: ExecOutcome)
    requires
        m.inv(),
    ensures
        m.tick(outcome).inv(),
{
}

/// A batch is acknowledged once: after an acknowledgement there is nothing
/// to acknowledge until another batch has run.
pub proof fn lemma_ack_once(m: GLULModel)
    ensures
        m.ack().ack_result() is None,
        m.ack().ack() == m.ack(),
{
}

/// The thread indices at positions `lo` to `hi` of the raster order of `dim`.
fn threads_of_warp(dim: (u32, u32, u32), lo: u128, hi: u128) -> (lanes: Vec<(u32, u32, u32)>)
    requires
        lo <= hi <= volume(dim),
    ensures
        lanes@ == raster_range(dim, lo as nat, hi as nat),
{
    let mut lanes: Vec<(u32, u32, u32)> = Vec::new();
    let mut at: u128 = lo;
    while at < hi
        invariant
            lo <= at <= hi <= volume(dim),
            lanes@ == raster_range(dim, lo as nat, at as nat),
        decreases hi - at,
    {
        lanes.push(raster_point(dim, at));
        at = at + 1;
        assert(lanes@ =~= raster_range(dim, lo as nat, at as nat));
    }
    lanes
}

/// The warps `w_lo` to `w_hi` of a block, given where the threads of warp
/// `w_lo` start; also returns where the threads of warp `w_hi` start.
fn warps_of_core(
    dim: (u32, u32, u32),
    lanes: u128,
    threads: u128,
    w_lo: u128,
    w_hi: u128,
    t_lo: u128,
) -> (r: (Vec<Vec<(u32, u32, u32)>>, u128))
    requires
        lanes >= 1,
        threads == volume(dim),
        w_lo <= w_hi,
        t_lo == least((w_lo * lanes) as nat, threads as nat),
    ensures
        r.0@.len() == w_hi - w_lo,
        forall|j: int|
            0 <= j < r.0@.len() ==> (#[trigger] r.0@[j])@ == warp_threads(
                dim,
                lanes as nat,
                (w_lo + j) as nat,
            ),
        r.1 == least((w_hi * lanes) as nat, threads as nat),
{
    let mut warps: Vec<Vec<(u32, u32, u32)>> = Vec::new();
    let mut w: u128 = w_lo;
    let mut t: u128 = t_lo;
    while w < w_hi
        invariant
            lanes >= 1,
            threads == volume(dim),
            w_lo <= w <= w_hi,
            t == least((w * lanes) as nat, threads as nat),
            warps@.len() == w - w_lo,
            forall|j: int|
                0 <= j < warps@.len() ==> (#[trigger] warps@[j])@ == warp_threads(
                    dim,
                    lanes as nat,
                    (w_lo + j) as nat,
                ),
        decreases w_hi - w,
    {
        let t_hi: u128 = if lanes <= threads - t {
            t + lanes
        } else {
            threads
        };
        assert(t_hi == least(((w + 1) * lanes) as nat, threads as nat)) by (nonlinear_arith)
            requires
                t == least((w * lanes) as nat, threads as nat),
                t_hi == (if lanes <= threads - t {
                    t + lanes
                } else {
                    threads as int
                }),
                0 <= w,
                0 <= lanes,
        ;
        warps.push(threads_of_warp(dim, t, t_hi));
        t = t_hi;
        w = w + 1;
    }
    (warps, t)
}

pub struct GLUL {
    status: GLULStatus,
    scheduled: usize,
    state: GLULState,
    thread_blocks: Option<ThreadBlocks>,
    engine_idx: usize,
    done: bool,
    err: Result<(), ExecErr>,
}

impl View for GLUL {
    type V = GLULModel;

    closed spec fn view(&self) -> GLULModel {
        GLULModel {
            config: self.status.config,
            busy: self.status.busy,
            scheduled: self.scheduled as nat,
            state: self.state,
            batch: match self.thread_blocks {
                Some(tb) => Some(tb@),
                None => None,
            },
            engine_idx: self.engine_idx,
            done: self.done,
            err: self.err,
        }
    }
}

impl GLUL {
    pub closed spec fn wf(&self) -> bool {
        self@.inv()
    }

    /// A well-formed cluster satisfies the model's invariant.
    pub proof fn lemma_wf(&self)
        requires
            self.wf(),
        ensures
            self@.inv(),
    {
    }

    /// Hands the cluster a batch of engine `engine_idx`. The batch replaces
    /// whatever batch the cluster held.
    pub fn submit_thread_block(&mut self, thread_blocks: ThreadBlocks, engine_idx: usize)
        requires
            old(self).wf(),
            old(self)@.config.fits(
                volume(thread_blocks@.block_dim),
                thread_blocks@.block_idxs.len(),
            ),
        ensures
            final(self).wf(),
            final(self)@ == old(self)@.submit(thread_blocks@, engine_idx),
    {
        self.thread_blocks = Some(thread_blocks);
        self.engine_idx = engine_idx;
        self.done = false;
    }

    /// Reports the batch that finished, once: the engine and the number of
    /// blocks if it ended well, the engine and the fault if not. The batch is
    /// gone afterwards.
    pub fn try_acknowledge_done_err(&mut self) -> (r: Option<
        Result<(usize, usize), (usize, ExecErr)>,
    >)
        requires
            old(self).wf(),
        ensures
            final(self).wf(),
            r == old(self)@.ack_result(),
            final(self)@ == old(self)@.ack(),
    {
        if self.done {
            self.done = false;
            let n: usize = match &self.thread_blocks {
                Some(tb) => tb.block_idxs.len(),
                None => 0,
            };
            self.thread_blocks = None;
            match self.err {
                Ok(_) => Some(Ok((self.engine_idx, n))),
                Err(e) => Some(Err((self.engine_idx, e))),
            }
        } else {
            None
        }
    }

    /// Drops the batch held if engine `engine_idx` submitted it, and returns
    /// the cluster to idle at once.
    pub fn try_kill(&mut self, engine_idx: usize)
        requires
            old(self).wf(),
        ensures
            final(self).wf(),
            final(self)@ == old(self)@.kill(engine_idx),
    {
        if self.thread_blocks.is_some() && self.engine_idx == engine_idx {
            self.done = false;
            self.state = GLULState::S0;
            self.status.busy = false;
            self.thread_blocks = None;
            self.scheduled = 0;
        }
    }

    pub fn get_status(&self) -> (s: &GLULStatus)
        ensures
            s.config == self@.config,
            s.busy == self@.busy,
    {
        &self.status
    }

    /// One step of the state machine; `outcome` is what the cores reported
    /// if the step before asked to advance them.
    pub fn tick(&mut self, outcome: ExecOutcome) -> (r: Result<(), SimErr>)
        requires
            old(self).wf(),
        ensures
            r is Ok,
            final(self).wf(),
            final(self)@ == old(self)@.tick(outcome),
    {
        match self.state {
            GLULState::S0 => {
                if self.thread_blocks.is_some() && !self.done {
                    self.status.busy = true;
                    self.state = GLULState::S1;
                }
            },
            GLULState::S1 => {
                self.scheduled = self.cores_needed();
                self.state = GLULState::S2;
            },
            GLULState::S2 => {
                match outcome {
                    ExecOutcome::Fault(e) => {
                        self.err = Err(e);
                        self.state = GLULState::S3;
                    },
                    ExecOutcome::Retired => {
                        self.err = Ok(());
                        self.state = GLULState::S3;
                    },
                    ExecOutcome::Running => {},
                }
            },
            GLULState::S3 => {
                self.done = true;
                self.state = GLULState::S0;
                self.scheduled = 0;
                self.status.busy = false;
            },
        }
        Ok(())
    }

    /// What the coming step needs done outside of the cluster.
    pub fn work(&self) -> (w: GLULWork)
        requires
            self.wf(),
        ensures
            w@ == self@.work(),
    {
        match self.state {
            GLULState::S0 => if self.thread_blocks.is_some() && !self.done {
                GLULWork::Reset
            } else {
                GLULWork::Idle
            },
            GLULState::S1 => match &self.thread_blocks {
                Some(tb) => GLULWork::Spawn(self.plan(tb)),
                None => GLULWork::Idle,
            },
            GLULState::S2 => GLULWork::Execute(self.scheduled),
            GLULState::S3 => GLULWork::Idle,
        }
    }

    /// Lays the batch out on the cores.
    fn plan(&self, tb: &ThreadBlocks) -> (plan: Vec<CoreSpawn>)
        requires
            self@.config.fits(volume(tb@.block_dim), tb@.block_idxs.len()),
        ensures
            Seq::new(plan@.len(), |i: int| plan@[i]@) == spawn_plan(self@.config, tb@),
    {
        let ghost cfg = self@.config;
        let ghost lanes_n = cfg.num_lanes as nat;
        let ghost warps_n = cfg.num_warps as nat;
        let ghost want = spawn_plan(cfg, tb@);
        let dim = tb.block_dim;
        let n: usize = tb.block_idxs.len();
        let mut plan: Vec<CoreSpawn> = Vec::new();
        if n == 0 {
            assert(0 * cores_per_tb(volume(dim), lanes_n, warps_n) == 0) by (nonlinear_arith);
            assert(Seq::new(plan@.len(), |i: int| plan@[i]@) =~= want);
            return plan;
        }
        let cpt: usize = self.cores_per_block(dim, n);
        proof {
            lemma_volume_bound(dim);
            lemma_cores_per_tb_positive(volume(dim), lanes_n, warps_n);
            lemma_div_nonincreasing((volume(dim) + lanes_n - 1) as int, lanes_n as int);
        }
        let lanes: u128 = self.status.config.num_lanes as u128;
        let threads: u128 = volume_of(dim);
        let fit: u128 = ceil_div_of(threads, lanes);
        let wpt: u128 = if fit < 1 {
            1
        } else {
            fit
        };
        let wpc: u128 = ceil_div_of(wpt, cpt as u128);
        let mut b: usize = 0;
        while b < n
            invariant
                b <= n,
                n == tb@.block_idxs.len(),
                n * cpt <= cfg.num_cores,
                cpt >= 1,
                cfg == self@.config,
                lanes_n == cfg.num_lanes,
                warps_n == cfg.num_warps,
                lanes == lanes_n,
                lanes >= 1,
                dim == tb@.block_dim,
                threads == volume(dim),
                threads <= 0xffff_ffff * 0xffff_ffff * 0xffff_ffff,
                wpt == warps_per_tb(volume(dim), lanes_n),
                wpc == warps_per_core(volume(dim), lanes_n, warps_n),
                cpt == cores_per_tb(volume(dim), lanes_n, warps_n),
                want == spawn_plan(cfg, tb@),
                plan@.len() == b * cpt,
                forall|e: int| 0 <= e < plan@.len() ==> (#[trigger] plan@[e])@ == want[e],
            decreases n - b,
        {
            let mut c: usize = 0;
            let mut w: u128 = 0;
            let mut t: u128 = 0;
            assert(0 * wpc == 0 && 0 * lanes == 0) by (nonlinear_arith);
            while c < cpt
                invariant
                    b < n,
                    c <= cpt,
                    n == tb@.block_idxs.len(),
                    n * cpt <= cfg.num_cores,
                    cpt >= 1,
                    lanes_n == cfg.num_lanes,
                    warps_n == cfg.num_warps,
                    lanes == lanes_n,
                    lanes >= 1,
                    dim == tb@.block_dim,
                    threads == volume(dim),
                    threads <= 0xffff_ffff * 0xffff_ffff * 0xffff_ffff,
                    wpt == warps_per_tb(volume(dim), lanes_n),
                    wpc == warps_per_core(volume(dim), lanes_n, warps_n),
                    cpt == cores_per_tb(volume(dim), lanes_n, warps_n),
                    want == spawn_plan(cfg, tb@),
                    w == least((c * wpc) as nat, wpt as nat),
                    t == least((w * lanes) as nat, threads as nat),
                    plan@.len() == b * cpt + c,
                    forall|e: int| 0 <= e < plan@.len() ==> (#[trigger] plan@[e])@ == want[e],
                decreases cpt - c,
            {
                let w_hi: u128 = if wpc <= wpt - w {
                    w + wpc
                } else {
                    wpt
                };
                assert(w_hi == least(((c + 1) * wpc) as nat, wpt as nat)) by (nonlinear_arith)
                    requires
                        w == least((c * wpc) as nat, wpt as nat),
                        w_hi == (if wpc <= wpt - w {
                            w + wpc
                        } else {
                            wpt as int
                        }),
                        0 <= c,
                        0 <= wpc,
                ;
                let (warps, t_next) = warps_of_core(dim, lanes, threads, w, w_hi, t);
                let e: usize = {
                    assert(b * cpt + c < n * cpt) by (nonlinear_arith)
                        requires
                            0 <= b < n,
                            0 <= c < cpt,
                    ;
                    b * cpt + c
                };
                proof {
                    lemma_fundamental_div_mod_converse(e as int, cpt as int, b as int, c as int);
                    assert(Seq::new(warps@.len(), |i: int| warps@[i]@) =~= core_warps(
                        dim,
                        lanes_n,
                        warps_n,
                        c as nat,
                    ));
                    assert(e < tb@.block_idxs.len() * (cpt as nat)) by (nonlinear_arith)
                        requires
                            e < n * cpt,
                            n == tb@.block_idxs.len(),
                    ;
                }
                plan.push(CoreSpawn { core: e, pc: tb.pc, block_idx: tb.block_idxs[b], warps });
                assert(plan@[e as int]@ == want[e as int]);
                w = w_hi;
                t = t_next;
                c += 1;
            }
            b += 1;
            assert(b * cpt == (b - 1) * cpt + cpt) by (nonlinear_arith);
        }
        assert(Seq::new(plan@.len(), |i: int| plan@[i]@) =~= want);
        plan
    }

    /// Whether the cluster is in one of its working states.
    pub fn busy(&self) -> (b: bool)
        ensures
            b == (self@.state != GLULState::S0),
    {
        !matches!(self.state, GLULState::S0)
    }

    /// The cores that the batch held takes.
    fn cores_needed(&self) -> (n: usize)
        requires
            self.wf(),
        ensures
            n == self@.cores_needed(),
    {
        match &self.thread_blocks {
            Some(tb) => {
                let blocks: usize = tb.block_idxs.len();
                if blocks == 0 {
                    assert(0 * cores_per_tb(
                        volume(tb@.block_dim),
                        self.status.config.num_lanes as nat,
                        self.status.config.num_warps as nat,
                    ) == 0) by (nonlinear_arith);
                    0
                } else {
                    let cpt: usize = self.cores_per_block(tb.block_dim, blocks);
                    blocks * cpt
                }
            },
            None => 0,
        }
    }

    /// Cores that one block of extent `dim` takes, for a batch of `blocks`
    /// blocks that fits.
    fn cores_per_block(&self, dim: (u32, u32, u32), blocks: usize) -> (cpt: usize)
        requires
            blocks >= 1,
            self@.config.fits(volume(dim), blocks as nat),
        ensures
            cpt == cores_per_tb(
                volume(dim),
                self@.config.num_lanes as nat,
                self@.config.num_warps as nat,
            ),
            blocks * cpt <= self@.config.num_cores,
            cpt >= 1,
    {
        proof {
            lemma_volume_bound(dim);
            lemma_cores_per_tb_positive(
                volume(dim),
                self.status.config.num_lanes as nat,
                self.status.config.num_warps as nat,
            );
            lemma_div_nonincreasing(
                (volume(dim) + self.status.config.num_lanes - 1) as int,
                self.status.config.num_lanes as int,
            );
        }
        let lanes: u128 = self.status.config.num_lanes as u128;
        let warps: u128 = self.status.config.num_warps as u128;
        let threads: u128 = volume_of(dim);
        let fit: u128 = ceil_div_of(threads, lanes);
        let wpt: u128 = if fit < 1 {
            1
        } else {
            fit
        };
        let cpt: u128 = ceil_div_of(wpt, warps);
        assert(cpt <= blocks * cpt) by (nonlinear_arith)
            requires
                blocks >= 1,
                cpt >= 0,
        ;
        cpt as usize
    }
}

impl Configurable<GLULConfig> for GLUL {
    open spec fn config_ok(config: GLULConfig) -> bool {
        true
    }

    fn new(config: GLULConfig) -> (g: Self)
        ensures
            g.wf(),
            g@ == GLULModel::idle(config),
    {
        GLUL {
            status: GLULStatus { config, busy: false },
            scheduled: 0,
            state: GLULState::S0,
            thread_blocks: None,
            engine_idx: 0,
            done: false,
            err: Ok(()),
        }
    }
}

} // verus!
