//! Persistent image state and the per-pixel feedback operators.
//!
//! A texture is a fixed-size grid of fixed-point scalar samples (one
//! channel, `SCALE` standing for full brightness). Sampling wraps at the
//! edges, as a repeat-mode texture does. Each operator reads one texture
//! and produces the value of one output pixel; a whole-texture pass
//! applies an operator everywhere, always writing a texture distinct from
//! the one it reads.

use vstd::prelude::*;

use crate::fixed::{clamp_spec, fx_clamp, fx_tdiv, tdiv_spec, SCALE};

verus! {

/// Largest width or height of a texture.
pub const MAX_DIM: usize = 4096;

/// Largest magnitude a stored sample may reach.
pub const VAL_LIMIT: i64 = 1_000_000_000;

/// Largest noise seed.
pub const SEED_LIMIT: i64 = 1_000_000_000;

/// Largest sharpening strength (fixed-point, `SCALE` = strength one).
pub const STRENGTH_LIMIT: i64 = 1_000_000;

/// A single-channel fixed-point image, stored as rows.
#[derive(Clone, Debug)]
pub struct Texture {
    pub width: usize,
    pub height: usize,
    pub data: Vec<Vec<i64>>,
}

/// A texture in bounds: consistent dimensions, samples in `[0, VAL_LIMIT]`.
pub open spec fn tex_wf(t: Texture) -> bool {
    &&& 1 <= t.width <= MAX_DIM
    &&& 1 <= t.height <= MAX_DIM
    &&& t.data@.len() == t.height
    &&& forall|y: int| 0 <= y < t.height ==> (#[trigger] t.data@[y])@.len() == t.width
    &&& forall|y: int, x: int|
        0 <= y < t.height && 0 <= x < t.width ==> 0 <= (#[trigger] t.data@[y]@[x])
            <= VAL_LIMIT
}

/// One-step repeat wrap: brings an index one texel out of range back in.
pub open spec fn wrap_spec(i: int, n: int) -> int {
    if i < 0 {
        i + n
    } else if i >= n {
        i - n
    } else {
        i
    }
}

/// The sample at `(x, y)`, wrapping one step at the edges.
pub open spec fn sample_spec(t: Texture, x: int, y: int) -> int {
    t.data@[wrap_spec(y, t.height as int)]@[wrap_spec(x, t.width as int)] as int
}

/// Apply a one-texel offset to an index, wrapping at the edges.
pub fn wrap_off(i: usize, n: usize, d: i64) -> (r: usize)
    requires
        i < n,
        -1 <= d <= 1,
    ensures
        r == wrap_spec(i + d, n as int),
        r < n,
{
    if d < 0 {
        if i == 0 {
            n - 1
        } else {
            i - 1
        }
    } else if d > 0 {
        if i + 1 == n {
            0
        } else {
            i + 1
        }
    } else {
        i
    }
}

/// Fetch the sample at `(x + dx, y + dy)`, wrapping at the edges.
pub fn sample_off(t: &Texture, x: usize, y: usize, dx: i64, dy: i64) -> (v: i64)
    requires
        tex_wf(*t),
        x < t.width,
        y < t.height,
        -1 <= dx <= 1,
        -1 <= dy <= 1,
    ensures
        v == sample_spec(*t, x + dx, y + dy),
        0 <= v <= VAL_LIMIT,
{
    let xi = wrap_off(x, t.width, dx);
    let yi = wrap_off(y, t.height, dy);
    t.data[yi][xi]
}

/// Sign of a fixed-point scalar.
pub open spec fn sgn_spec(v: int) -> int {
    if v > 0 {
        1
    } else if v < 0 {
        -1
    } else {
        0
    }
}

/// Central-difference gradient of the sampled field at `(x, y)`.
pub open spec fn grad_x_spec(t: Texture, x: int, y: int) -> int {
    sample_spec(t, x + 1, y) - sample_spec(t, x - 1, y)
}

/// Central-difference gradient of the sampled field at `(x, y)`.
pub open spec fn grad_y_spec(t: Texture, x: int, y: int) -> int {
    sample_spec(t, x, y + 1) - sample_spec(t, x, y - 1)
}

/// Estimate the image gradient at `(x, y)` by central differences.
pub fn gradient(t: &Texture, x: usize, y: usize) -> (g: (i64, i64))
    requires
        tex_wf(*t),
        x < t.width,
        y < t.height,
    ensures
        g.0 == grad_x_spec(*t, x as int, y as int),
        g.1 == grad_y_spec(*t, x as int, y as int),
{
    let gx = sample_off(t, x, y, 1, 0) - sample_off(t, x, y, -1, 0);
    let gy = sample_off(t, x, y, 0, 1) - sample_off(t, x, y, 0, -1);
    (gx, gy)
}

/// 3x3 box blur of the sampled field around `(x, y)`.
pub open spec fn blur_spec(t: Texture, x: int, y: int) -> int {
    (sample_spec(t, x - 1, y - 1) + sample_spec(t, x, y - 1) + sample_spec(t, x + 1, y - 1)
        + sample_spec(t, x - 1, y) + sample_spec(t, x, y) + sample_spec(t, x + 1, y)
        + sample_spec(t, x - 1, y + 1) + sample_spec(t, x, y + 1) + sample_spec(
        t,
        x + 1,
        y + 1,
    )) / 9
}

/// The blur of a well-formed texture is in range.
pub proof fn lemma_blur_range(t: Texture, x: int, y: int)
    requires
        tex_wf(t),
        0 <= x < t.width,
        0 <= y < t.height,
    ensures
        0 <= blur_spec(t, x, y) <= VAL_LIMIT,
{
    let s = sample_spec(t, x - 1, y - 1) + sample_spec(t, x, y - 1) + sample_spec(t, x + 1, y - 1)
        + sample_spec(t, x - 1, y) + sample_spec(t, x, y) + sample_spec(t, x + 1, y)
        + sample_spec(t, x - 1, y + 1) + sample_spec(t, x, y + 1) + sample_spec(t, x + 1, y + 1);
    vstd::arithmetic::div_mod::lemma_div_pos_is_pos(s, 9);
    vstd::arithmetic::div_mod::lemma_div_is_ordered(s, 9 * (VAL_LIMIT as int), 9);
    vstd::arithmetic::div_mod::lemma_div_multiples_vanish(VAL_LIMIT as int, 9);
}

/// 3x3 box blur of the texture at `(x, y)`.
pub fn blur(t: &Texture, x: usize, y: usize) -> (v: i64)
    requires
        tex_wf(*t),
        x < t.width,
        y < t.height,
    ensures
        v == blur_spec(*t, x as int, y as int),
        0 <= v <= VAL_LIMIT,
{
    proof {
        lemma_blur_range(*t, x as int, y as int);
    }
    let s = sample_off(t, x, y, -1, -1) + sample_off(t, x, y, 0, -1) + sample_off(t, x, y, 1, -1)
        + sample_off(t, x, y, -1, 0) + sample_off(t, x, y, 0, 0) + sample_off(t, x, y, 1, 0)
        + sample_off(t, x, y, -1, 1) + sample_off(t, x, y, 0, 1) + sample_off(t, x, y, 1, 1);
    s / 9
}

/// Unsharp-mask sharpen: the sample plus `strength` times its deviation
/// from the local blur, clamped back into storage range.
pub open spec fn sharpen_spec(t: Texture, x: int, y: int, strength: int) -> int {
    let c = sample_spec(t, x, y);
    let b = blur_spec(t, x, y);
    clamp_spec(c + tdiv_spec((c - b) * strength, SCALE as int), 0, VAL_LIMIT as int)
}

/// Unsharp-mask sharpen of the texture at `(x, y)`.
pub fn sharpen(t: &Texture, x: usize, y: usize, strength: i64) -> (v: i64)
    requires
        tex_wf(*t),
        x < t.width,
        y < t.height,
        0 <= strength <= STRENGTH_LIMIT,
    ensures
        v == sharpen_spec(*t, x as int, y as int, strength as int),
        0 <= v <= VAL_LIMIT,
{
    let c = sample_off(t, x, y, 0, 0);
    let b = blur(t, x, y);
    proof {
        assert((c - b) * strength <= 1_000_000_000_000_000 && (c - b) * strength
            >= -1_000_000_000_000_000) by (nonlinear_arith)
            requires
                -1_000_000_000 <= c - b <= 1_000_000_000,
                0 <= strength <= 1_000_000,
        ;
    }
    let d = fx_tdiv((c - b) * strength, SCALE);
    fx_clamp(c + d, 0, VAL_LIMIT)
}

/// Vignette weight at `(x, y)`: a polynomial falloff toward the edges,
/// in fixed point (largest near the centre, zero on the border).
pub open spec fn vig_weight_spec(x: int, y: int, w: int, h: int) -> int {
    let ux = x * (SCALE as int) / w;
    let uy = y * (SCALE as int) / h;
    3 * (ux * ((SCALE as int) - ux)) * (uy * ((SCALE as int) - uy)) / ((SCALE as int) * (
    SCALE as int) * (SCALE as int))
}

/// Vignette and greyscale reduction: the sample scaled by the falloff
/// weight and brightened by half, clamped into storage range.
pub open spec fn vignette_spec(t: Texture, x: int, y: int) -> int {
    let wgt = vig_weight_spec(x, y, t.width as int, t.height as int);
    clamp_spec(wgt * sample_spec(t, x, y) * 3 / (2 * (SCALE as int)), 0, VAL_LIMIT as int)
}

/// The normalized pixel coordinate lies in `[0, SCALE)`.
proof fn lemma_unit_coord(x: int, w: int)
    requires
        0 <= x < w,
        0 < w,
    ensures
        0 <= x * (SCALE as int) / w < SCALE as int,
{
    vstd::arithmetic::mul::lemma_mul_inequality(x, w - 1, SCALE as int);
    vstd::arithmetic::div_mod::lemma_div_pos_is_pos(x * (SCALE as int), w);
    vstd::arithmetic::div_mod::lemma_div_is_ordered(x * (SCALE as int), (w - 1) * (SCALE as int), w);
    assert((w - 1) * (SCALE as int) < w * (SCALE as int)) by (nonlinear_arith)
        requires
            0 < w,
    ;
    assert((w - 1) * (SCALE as int) / w < SCALE as int) by {
        if (w - 1) * (SCALE as int) / w >= SCALE as int {
            vstd::arithmetic::div_mod::lemma_fundamental_div_mod((w - 1) * (SCALE as int), w);
            vstd::arithmetic::mul::lemma_mul_inequality(
                SCALE as int,
                (w - 1) * (SCALE as int) / w,
                w,
            );
            assert(false);
        }
    }
}

/// The vignette weight lies in `[0, 188]`.
pub proof fn lemma_vig_weight_range(x: int, y: int, w: int, h: int)
    requires
        0 <= x < w,
        0 <= y < h,
        0 < w,
        0 < h,
    ensures
        0 <= vig_weight_spec(x, y, w, h) <= 188,
{
    lemma_unit_coord(x, w);
    lemma_unit_coord(y, h);
    let ux = x * (SCALE as int) / w;
    let uy = y * (SCALE as int) / h;
    let a1 = ux * ((SCALE as int) - ux);
    let a2 = uy * ((SCALE as int) - uy);
    assert(0 <= ux * (1000 - ux) <= 250_000) by (nonlinear_arith)
        requires
            0 <= ux <= 999,
    ;
    assert(0 <= uy * (1000 - uy) <= 250_000) by (nonlinear_arith)
        requires
            0 <= uy <= 999,
    ;
    let num = 3 * a1 * a2;
    assert(0 <= 3 * a1 * a2 <= 187_500_000_000) by (nonlinear_arith)
        requires
            0 <= a1 <= 250_000,
            0 <= a2 <= 250_000,
    ;
    vstd::arithmetic::div_mod::lemma_div_pos_is_pos(num, 1_000_000_000);
    vstd::arithmetic::div_mod::lemma_div_is_ordered(num, 188_000_000_000, 1_000_000_000);
}

/// Vignette and greyscale shade of the texture at `(x, y)`.
pub fn vignette(t: &Texture, x: usize, y: usize) -> (v: i64)
    requires
        tex_wf(*t),
        x < t.width,
        y < t.height,
    ensures
        v == vignette_spec(*t, x as int, y as int),
        0 <= v <= VAL_LIMIT,
{
    proof {
        lemma_vig_weight_range(x as int, y as int, t.width as int, t.height as int);
        lemma_unit_coord(x as int, t.width as int);
        lemma_unit_coord(y as int, t.height as int);
    }
    let ux = (x as i64 * SCALE) / (t.width as i64);
    let uy = (y as i64 * SCALE) / (t.height as i64);
    proof {
        assert(0 <= ux * (1000 - ux) <= 250_000) by (nonlinear_arith)
            requires
                0 <= ux <= 999,
        ;
        assert(0 <= uy * (1000 - uy) <= 250_000) by (nonlinear_arith)
            requires
                0 <= uy <= 999,
        ;
    }
    let a1 = ux * (SCALE - ux);
    let a2 = uy * (SCALE - uy);
    proof {
        assert(0 <= 3 * a1 * a2 <= 187_500_000_000) by (nonlinear_arith)
            requires
                0 <= a1 <= 250_000,
                0 <= a2 <= 250_000,
        ;
    }
    let wgt = 3 * a1 * a2 / (SCALE * SCALE * SCALE);
    let c = sample_off(t, x, y, 0, 0);
    proof {
        assert(0 <= wgt * c * 3 <= 600_000_000_000) by (nonlinear_arith)
            requires
                0 <= wgt <= 188,
                0 <= c <= 1_000_000_000,
        ;
        vstd::arithmetic::div_mod::lemma_div_pos_is_pos(wgt * c * 3, 2 * (SCALE as int));
    }
    let raw = wgt * c * 3 / (2 * SCALE);
    fx_clamp(raw, 0, VAL_LIMIT)
}

/// Deterministic pseudo-random noise in the half-open `[0, SCALE)`, a
/// pure function of the pixel coordinate and the seed.
pub open spec fn noise_spec(x: int, y: int, seed: int) -> int {
    ((x * 127_817 + y * 337_211 + seed * 104_729 + 40_507) % 1_000_003) % (SCALE as int)
}

/// Pseudo-random noise at `(x, y)` for the given seed.
pub fn noise(x: usize, y: usize, seed: i64) -> (v: i64)
    requires
        x <= MAX_DIM,
        y <= MAX_DIM,
        0 <= seed <= SEED_LIMIT,
    ensures
        v == noise_spec(x as int, y as int, seed as int),
        0 <= v < SCALE,
{
    let h = (x as i64 * 127_817 + y as i64 * 337_211 + seed * 104_729 + 40_507) % 1_000_003;
    h % SCALE
}

/// Advection by the image gradient: the blur sampled one texel upstream
/// of the local gradient direction, the evolution step of the feedback
/// simulation.
pub open spec fn evolve_spec(t: Texture, x: int, y: int) -> int {
    let sx = wrap_spec(x - sgn_spec(grad_x_spec(t, x, y)), t.width as int);
    let sy = wrap_spec(y - sgn_spec(grad_y_spec(t, x, y)), t.height as int);
    blur_spec(t, sx, sy)
}

/// Sign of a fixed-point scalar.
pub fn sgn(v: i64) -> (r: i64)
    ensures
        r == sgn_spec(v as int),
        -1 <= r <= 1,
{
    if v > 0 {
        1
    } else if v < 0 {
        -1
    } else {
        0
    }
}

/// Evolve the feedback state at `(x, y)`: blur advected by the gradient.
pub fn evolve(t: &Texture, x: usize, y: usize) -> (v: i64)
    requires
        tex_wf(*t),
        x < t.width,
        y < t.height,
    ensures
        v == evolve_spec(*t, x as int, y as int),
        0 <= v <= VAL_LIMIT,
{
    let (gx, gy) = gradient(t, x, y);
    let sx = wrap_off(x, t.width, -sgn(gx));
    let sy = wrap_off(y, t.height, -sgn(gy));
    blur(t, sx, sy)
}

/// One per-pixel operator of the feedback processor.
#[derive(Clone, Copy, Debug)]
pub enum Op {
    /// Reinitialize with pseudo-random noise from the seed.
    Reseed { seed: i64 },
    /// Gradient-advected blur of the previous state.
    Evolve,
    /// Plain 3x3 box blur.
    Blur,
    /// Unsharp-mask sharpen with the given fixed-point strength.
    Sharpen { strength: i64 },
    /// Vignette falloff and greyscale shade.
    Vignette,
}

/// The operator's parameters are in bounds.
pub open spec fn op_wf(op: Op) -> bool {
    match op {
        Op::Reseed { seed } => 0 <= seed <= SEED_LIMIT,
        Op::Sharpen { strength } => 0 <= strength <= STRENGTH_LIMIT,
        _ => true,
    }
}

/// The value the operator produces at `(x, y)` when reading `t`.
pub open spec fn op_at_spec(op: Op, t: Texture, x: int, y: int) -> int {
    match op {
        Op::Reseed { seed } => noise_spec(x, y, seed as int),
        Op::Evolve => evolve_spec(t, x, y),
        Op::Blur => blur_spec(t, x, y),
        Op::Sharpen { strength } => sharpen_spec(t, x, y, strength as int),
        Op::Vignette => vignette_spec(t, x, y),
    }
}

/// Evaluate one operator at one pixel.
pub fn op_at(op: &Op, t: &Texture, x: usize, y: usize) -> (v: i64)
    requires
        tex_wf(*t),
        op_wf(*op),
        x < t.width,
        y < t.height,
    ensures
        v == op_at_spec(*op, *t, x as int, y as int),
        0 <= v <= VAL_LIMIT,
{
    match op {
        Op::Reseed { seed } => noise(x, y, *seed),
        Op::Evolve => evolve(t, x, y),
        Op::Blur => blur(t, x, y),
        Op::Sharpen { strength } => sharpen(t, x, y, *strength),
        Op::Vignette => vignette(t, x, y),
    }
}

/// Run one operator over the whole source texture, producing a fresh
/// output texture of the same size: the written texture is never the
/// texture being read.
pub fn apply_op(op: &Op, src: &Texture) -> (out: Texture)
    requires
        tex_wf(*src),
        op_wf(*op),
    ensures
        tex_wf(out),
        out.width == src.width,
        out.height == src.height,
        forall|x: int, y: int|
            0 <= x < out.width && 0 <= y < out.height ==> out.data@[y]@[x] == op_at_spec(
                *op,
                *src,
                x,
                y,
            ),
{
    let w = src.width;
    let h = src.height;
    let mut rows: Vec<Vec<i64>> = Vec::new();
    let mut y: usize = 0;
    while y < h
        invariant
            tex_wf(*src),
            op_wf(*op),
            w == src.width,
            h == src.height,
            y <= h,
            rows@.len() == y,
            forall|yy: int| 0 <= yy < y ==> (#[trigger] rows@[yy])@.len() == w,
            forall|xx: int, yy: int|
                0 <= xx < w && 0 <= yy < y ==> (#[trigger] rows@[yy]@[xx]) == op_at_spec(
                    *op,
                    *src,
                    xx,
                    yy,
                ),
            forall|xx: int, yy: int|
                0 <= xx < w && 0 <= yy < y ==> 0 <= (#[trigger] rows@[yy]@[xx]) <= VAL_LIMIT,
        decreases h - y,
    {
        let mut row: Vec<i64> = Vec::new();
        let mut x: usize = 0;
        while x < w
            invariant
                tex_wf(*src),
                op_wf(*op),
                w == src.width,
                h == src.height,
                y < h,
                x <= w,
                row@.len() == x,
                forall|xx: int|
                    0 <= xx < x ==> (#[trigger] row@[xx]) == op_at_spec(*op, *src, xx, y as int),
                forall|xx: int| 0 <= xx < x ==> 0 <= (#[trigger] row@[xx]) <= VAL_LIMIT,
            decreases w - x,
        {
            let v = op_at(op, src, x, y);
            row.push(v);
            x += 1;
        }
        rows.push(row);
        y += 1;
    }
    Texture { width: w, height: h, data: rows }
}

/// Build a texture of the given size filled with zero samples.
pub fn zero_texture(width: usize, height: usize) -> (out: Texture)
    requires
        1 <= width <= MAX_DIM,
        1 <= height <= MAX_DIM,
    ensures
        tex_wf(out),
        out.width == width,
        out.height == height,
        forall|x: int, y: int|
            0 <= x < width && 0 <= y < height ==> out.data@[y]@[x] == 0,
{
    let mut rows: Vec<Vec<i64>> = Vec::new();
    let mut y: usize = 0;
    while y < height
        invariant
            y <= height,
            rows@.len() == y,
            forall|yy: int| 0 <= yy < y ==> (#[trigger] rows@[yy])@.len() == width,
            forall|xx: int, yy: int|
                0 <= xx < width && 0 <= yy < y ==> (#[trigger] rows@[yy]@[xx]) == 0,
        decreases height - y,
    {
        let mut row: Vec<i64> = Vec::new();
        let mut x: usize = 0;
        while x < width
            invariant
                x <= width,
                row@.len() == x,
                forall|xx: int| 0 <= xx < x ==> (#[trigger] row@[xx]) == 0,
            decreases width - x,
        {
            row.push(0);
            x += 1;
        }
        rows.push(row);
        y += 1;
    }
    Texture { width, height, data: rows }
}

/// The contents of a texture, as a sequence of rows.
pub open spec fn tex_view(t: Texture) -> Seq<Seq<i64>> {
    t.data@.map_values(|r: Vec<i64>| r@)
}

/// Two textures hold the same dimensions and the same contents.
pub open spec fn tex_eqv(a: Texture, b: Texture) -> bool {
    a.width == b.width && a.height == b.height && tex_view(a) == tex_view(b)
}

/// Equal contents give equal samples (for indices at most one wrap out).
pub proof fn lemma_sample_eqv(a: Texture, b: Texture, x: int, y: int)
    requires
        tex_eqv(a, b),
        tex_wf(a),
        tex_wf(b),
        -1 <= x <= a.width,
        -1 <= y <= a.height,
    ensures
        sample_spec(a, x, y) == sample_spec(b, x, y),
{
    let wy = wrap_spec(y, a.height as int);
    let wx = wrap_spec(x, a.width as int);
    assert(tex_view(a)[wy] == a.data@[wy]@);
    assert(tex_view(b)[wy] == b.data@[wy]@);
}

/// No hidden state: every operator is a function of the source contents
/// and the pixel coordinate alone, so re-running a pass over identical
/// inputs reproduces identical output.
pub proof fn lemma_op_deterministic(op: Op, a: Texture, b: Texture, x: int, y: int)
    requires
        tex_eqv(a, b),
        tex_wf(a),
        tex_wf(b),
        0 <= x < a.width,
        0 <= y < a.height,
    ensures
        op_at_spec(op, a, x, y) == op_at_spec(op, b, x, y),
{
    let w = a.width as int;
    let h = a.height as int;
    assert forall|xx: int, yy: int| -1 <= xx <= w && -1 <= yy <= h implies sample_spec(a, xx, yy)
        == sample_spec(b, xx, yy) by {
        lemma_sample_eqv(a, b, xx, yy);
    }
    match op {
        Op::Evolve => {
            let sx = wrap_spec(x - sgn_spec(grad_x_spec(a, x, y)), w);
            let sy = wrap_spec(y - sgn_spec(grad_y_spec(a, x, y)), h);
            assert(grad_x_spec(a, x, y) == grad_x_spec(b, x, y));
            assert(grad_y_spec(a, x, y) == grad_y_spec(b, x, y));
            assert(0 <= sx < w && 0 <= sy < h);
            assert(blur_spec(a, sx, sy) == blur_spec(b, sx, sy));
        },
        _ => {},
    }
}

} // verus!
