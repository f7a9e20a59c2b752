//! The per-frame schedule of the feedback pipeline.
//!
//! Each tick the scheduler runs the same ordered passes: the state pass
//! (reseed or evolve) reads the persistent feedback source and writes the
//! other half of the ping-pong pair, the sharpen pass reads that fresh
//! state, and the vignette pass produces the displayed image. Passes run
//! strictly in order and each writes a texture distinct from every
//! texture it reads, so no draw observes its own partial output. The
//! ping-pong roles swap at the end of the frame: what was written becomes
//! the next frame's feedback source.

use vstd::prelude::*;

use crate::image::{
    apply_op, op_at_spec, op_wf, tex_eqv, tex_wf, zero_texture, Op, Texture, MAX_DIM, SEED_LIMIT,
    STRENGTH_LIMIT,
};
use crate::program::PipelineError;

verus! {

/// Fixed-point seconds added to the clock each tick (about one sixtieth).
pub const TICK: i64 = 16;

/// Largest elapsed time the clock carries.
pub const TIME_LIMIT: i64 = 1_000_000_000;

/// The explicit per-tick state threaded through the scheduler: elapsed
/// fixed-point time and the frame index, never ambient globals.
#[derive(Clone, Copy, PartialEq, Eq, Structural, Debug)]
pub struct FrameState {
    pub time: i64,
    pub frame: u32,
}

impl FrameState {
    /// The state of the first frame.
    pub fn start() -> (s: FrameState)
        ensures
            s.time == 0,
            s.frame == 0,
    {
        FrameState { time: 0, frame: 0 }
    }

    /// Advance one tick: time grows by exactly `TICK`, the frame index
    /// by one.
    pub fn advance(&mut self)
        requires
            old(self).time <= TIME_LIMIT - TICK,
            old(self).frame < u32::MAX,
        ensures
            final(self).time == old(self).time + TICK,
            final(self).frame == old(self).frame + 1,
    {
        self.time = self.time + TICK;
        self.frame = self.frame + 1;
    }
}

/// The role a persistent texture plays in the current frame.
#[derive(Clone, Copy, PartialEq, Eq, Structural, Debug)]
pub enum Role {
    Ping,
    Pong,
}

/// Tunable parameters of the feedback pipeline.
#[derive(Clone, Copy, PartialEq, Eq, Structural, Debug)]
pub struct FeedbackConfig {
    /// Reseed the persistent state every this many frames.
    pub reseed_interval: u32,
    /// Seed of the reseed noise.
    pub seed: i64,
    /// Fixed-point strength of the sharpen pass.
    pub sharpen_strength: i64,
}

/// The configuration is in bounds.
pub open spec fn cfg_wf(c: FeedbackConfig) -> bool {
    c.reseed_interval >= 1 && 0 <= c.seed <= SEED_LIMIT && 0 <= c.sharpen_strength
        <= STRENGTH_LIMIT
}

/// The feedback pipeline: its configuration, the ping-pong pair of
/// persistent state textures, the two auxiliary render targets, and the
/// parity that says which half of the pair feeds the current frame.
#[derive(Clone, Debug)]
pub struct FeedbackPipeline {
    pub cfg: FeedbackConfig,
    pub ping: Texture,
    pub pong: Texture,
    pub sharp: Texture,
    pub screen: Texture,
    pub parity: bool,
}

/// All four targets share one size and are in bounds, as is the
/// configuration.
pub open spec fn fp_wf(p: FeedbackPipeline) -> bool {
    &&& cfg_wf(p.cfg)
    &&& tex_wf(p.ping)
    &&& tex_wf(p.pong)
    &&& tex_wf(p.sharp)
    &&& tex_wf(p.screen)
    &&& p.pong.width == p.ping.width && p.pong.height == p.ping.height
    &&& p.sharp.width == p.ping.width && p.sharp.height == p.ping.height
    &&& p.screen.width == p.ping.width && p.screen.height == p.ping.height
}

/// The role read as feedback source this frame.
pub open spec fn source_role_spec(p: FeedbackPipeline) -> Role {
    if p.parity {
        Role::Pong
    } else {
        Role::Ping
    }
}

/// The role written by the state pass this frame.
pub open spec fn dest_role_spec(p: FeedbackPipeline) -> Role {
    if p.parity {
        Role::Ping
    } else {
        Role::Pong
    }
}

/// The texture read as feedback source this frame.
pub open spec fn source_tex_spec(p: FeedbackPipeline) -> Texture {
    if p.parity {
        p.pong
    } else {
        p.ping
    }
}

/// The texture written by the state pass this frame.
pub open spec fn dest_tex_spec(p: FeedbackPipeline) -> Texture {
    if p.parity {
        p.ping
    } else {
        p.pong
    }
}

/// Within any one frame the feedback source and the state target are
/// never the same texture: the self-read hazard cannot arise.
pub proof fn lemma_roles_distinct(p: FeedbackPipeline)
    ensures
        source_role_spec(p) != dest_role_spec(p),
{
}

/// The frame is due for a reseed.
pub open spec fn reseed_due(cfg: FeedbackConfig, fs: FrameState) -> bool {
    (fs.frame as int) % (cfg.reseed_interval as int) == 0
}

/// The operator the state pass applies this frame.
pub open spec fn state_op_spec(cfg: FeedbackConfig, fs: FrameState) -> Op {
    if reseed_due(cfg, fs) {
        Op::Reseed { seed: cfg.seed }
    } else {
        Op::Evolve
    }
}

/// The reseed happens exactly at whole multiples of the configured
/// interval and nowhere else; every other frame evolves the prior state.
pub proof fn lemma_reseed_boundary(cfg: FeedbackConfig, fs: FrameState)
    requires
        cfg_wf(cfg),
    ensures
        reseed_due(cfg, fs) <==> state_op_spec(cfg, fs) == (Op::Reseed { seed: cfg.seed }),
        !reseed_due(cfg, fs) <==> state_op_spec(cfg, fs) == Op::Evolve,
{
}

impl FeedbackPipeline {
    /// Allocate the pipeline's fixed set of render targets, zeroed, with
    /// the ping half of the pair feeding the first frame. Allocation
    /// fails, before any frame renders, exactly when the requested size
    /// is outside what the backend can carry.
    pub fn new(width: usize, height: usize, cfg: FeedbackConfig) -> (r: Result<
        FeedbackPipeline,
        PipelineError,
    >)
        requires
            cfg_wf(cfg),
        ensures
            r is Ok <==> (1 <= width <= MAX_DIM && 1 <= height <= MAX_DIM),
            (match r {
                Ok(p) => {
                    &&& fp_wf(p)
                    &&& p.cfg == cfg
                    &&& p.parity == false
                    &&& p.ping.width == width && p.ping.height == height
                    &&& forall|x: int, y: int|
                        0 <= x < width && 0 <= y < height ==> p.ping.data@[y]@[x] == 0
                            && p.pong.data@[y]@[x] == 0
                },
                Err(e) => e matches PipelineError::ResourceExhaustion,
            }),
    {
        if width < 1 || width > MAX_DIM || height < 1 || height > MAX_DIM {
            return Err(PipelineError::ResourceExhaustion);
        }
        let ping = zero_texture(width, height);
        let pong = zero_texture(width, height);
        let sharp = zero_texture(width, height);
        let screen = zero_texture(width, height);
        Ok(FeedbackPipeline { cfg, ping, pong, sharp, screen, parity: false })
    }

    /// The role read as feedback source this frame.
    pub fn source_role(&self) -> (r: Role)
        ensures
            r == source_role_spec(*self),
    {
        if self.parity {
            Role::Pong
        } else {
            Role::Ping
        }
    }

    /// The role written by the state pass this frame.
    pub fn dest_role(&self) -> (r: Role)
        ensures
            r == dest_role_spec(*self),
    {
        if self.parity {
            Role::Ping
        } else {
            Role::Pong
        }
    }

    /// Run one frame: the state pass (reseed on due frames, evolve
    /// otherwise) reads the feedback source and writes the other half of
    /// the ping-pong pair, the sharpen pass reads that fresh state, the
    /// vignette pass produces the displayed image, and the roles swap,
    /// so the texture written this frame is the source of the next. The
    /// whole frame is a function of the prior source contents and the
    /// frame state alone.
    pub fn step(&mut self, fs: &FrameState)
        requires
            fp_wf(*old(self)),
        ensures
            fp_wf(*final(self)),
            final(self).cfg == old(self).cfg,
            final(self).parity == !old(self).parity,
            final(self).ping.width == old(self).ping.width,
            final(self).ping.height == old(self).ping.height,
            source_role_spec(*final(self)) == dest_role_spec(*old(self)),
            dest_tex_spec(*final(self)) == source_tex_spec(*old(self)),
            forall|x: int, y: int|
                0 <= x < old(self).ping.width && 0 <= y < old(self).ping.height ==> source_tex_spec(
                    *final(self),
                ).data@[y]@[x] == op_at_spec(
                    state_op_spec(old(self).cfg, *fs),
                    source_tex_spec(*old(self)),
                    x,
                    y,
                ),
            forall|x: int, y: int|
                0 <= x < old(self).ping.width && 0 <= y < old(self).ping.height ==> final(self)
                    .sharp.data@[y]@[x] == op_at_spec(
                    Op::Sharpen { strength: old(self).cfg.sharpen_strength },
                    source_tex_spec(*final(self)),
                    x,
                    y,
                ),
            forall|x: int, y: int|
                0 <= x < old(self).ping.width && 0 <= y < old(self).ping.height ==> final(self)
                    .screen.data@[y]@[x] == op_at_spec(Op::Vignette, final(self).sharp, x, y),
    {
        let op = if self.frame_due(fs) {
            Op::Reseed { seed: self.cfg.seed }
        } else {
            Op::Evolve
        };
        let newstate = if self.parity {
            apply_op(&op, &self.pong)
        } else {
            apply_op(&op, &self.ping)
        };
        let sharp = apply_op(&Op::Sharpen { strength: self.cfg.sharpen_strength }, &newstate);
        let screen = apply_op(&Op::Vignette, &sharp);
        if self.parity {
            self.ping = newstate;
        } else {
            self.pong = newstate;
        }
        self.sharp = sharp;
        self.screen = screen;
        self.parity = !self.parity;
    }

    /// Whether this frame is due for a reseed.
    fn frame_due(&self, fs: &FrameState) -> (r: bool)
        requires
            cfg_wf(self.cfg),
        ensures
            r == reseed_due(self.cfg, *fs),
    {
        fs.frame % self.cfg.reseed_interval == 0
    }
}

/// Re-running the state pass with an identical frame state over a
/// feedback source holding identical contents reproduces identical
/// output at every pixel: there is no hidden nondeterminism in a frame.
pub proof fn lemma_pipeline_deterministic(
    a: FeedbackPipeline,
    b: FeedbackPipeline,
    fs: FrameState,
    x: int,
    y: int,
)
    requires
        fp_wf(a),
        fp_wf(b),
        a.cfg == b.cfg,
        a.parity == b.parity,
        tex_eqv(source_tex_spec(a), source_tex_spec(b)),
        0 <= x < source_tex_spec(a).width,
        0 <= y < source_tex_spec(a).height,
    ensures
        op_at_spec(state_op_spec(a.cfg, fs), source_tex_spec(a), x, y) == op_at_spec(
            state_op_spec(b.cfg, fs),
            source_tex_spec(b),
            x,
            y,
        ),
{
    crate::image::lemma_op_deterministic(
        state_op_spec(a.cfg, fs),
        source_tex_spec(a),
        source_tex_spec(b),
        x,
        y,
    );
}

/// Where a pass draws to: the visible surface or one offscreen target.
#[derive(Clone, Copy, PartialEq, Eq, Structural, Debug)]
pub enum Target {
    Screen,
    Offscreen { id: u32 },
}

/// One scheduled pass: its draw target and the textures it samples.
#[derive(Clone, Debug)]
pub struct PassDesc {
    pub target: Target,
    pub sources: Vec<u32>,
}

/// The pass draws into the offscreen texture `t`.
pub open spec fn writes_tex(p: PassDesc, t: u32) -> bool {
    p.target == (Target::Offscreen { id: t })
}

/// A pass is free of the self-read hazard: its offscreen target is not
/// among the textures it samples.
pub open spec fn pass_hazard_free(p: PassDesc) -> bool {
    forall|i: int| 0 <= i < p.sources@.len() ==> !writes_tex(p, #[trigger] p.sources@[i])
}

/// Check a single pass for the self-read hazard.
pub fn check_pass(p: &PassDesc) -> (r: bool)
    ensures
        r == pass_hazard_free(*p),
{
    let target = p.target;
    match target {
        Target::Screen => true,
        Target::Offscreen { id } => {
            proof {
                assert(p.target == (Target::Offscreen { id }));
            }
            let mut i: usize = 0;
            while i < p.sources.len()
                invariant
                    i <= p.sources@.len(),
                    p.target == (Target::Offscreen { id }),
                    forall|j: int| 0 <= j < i ==> !writes_tex(*p, #[trigger] p.sources@[j]),
                decreases p.sources@.len() - i,
            {
                if p.sources[i] == id {
                    proof {
                        assert(writes_tex(*p, p.sources@[i as int]));
                    }
                    return false;
                }
                i += 1;
            }
            true
        },
    }
}

/// Validate a whole pass sequence at setup: `true` exactly when no pass
/// in the schedule reads the texture it writes.
pub fn check_schedule(passes: &Vec<PassDesc>) -> (r: bool)
    ensures
        r == (forall|i: int|
            0 <= i < passes@.len() ==> pass_hazard_free(#[trigger] passes@[i])),
{
    let mut i: usize = 0;
    while i < passes.len()
        invariant
            i <= passes@.len(),
            forall|j: int| 0 <= j < i ==> pass_hazard_free(#[trigger] passes@[j]),
        decreases passes@.len() - i,
    {
        if !check_pass(&passes[i]) {
            return false;
        }
        i += 1;
    }
    true
}

} // verus!
