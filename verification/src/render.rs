//! The raymarch pass evaluated per pixel: a camera swaying with elapsed
//! time, a ray through each pixel's normalized device coordinate, the
//! distance-field march, and the pseudo-lighting shade of a hit.

use vstd::prelude::*;

use crate::fixed::{abs_spec, clamp_spec, fx_abs, fx_clamp, fx_tdiv, tdiv_spec, SCALE};
use crate::image::MAX_DIM;
use crate::pipeline::{FrameState, TIME_LIMIT};
use crate::sdf::{
    hit_point, in_box, march, march_spec, normal, normal_spec, ray_point_spec, scene_wf,
    vnormalize, vnormalize_spec, Ray, Scene, Vec3, ORIGIN_LIMIT, T_FAR,
};

verus! {

/// How far behind the scene the camera sits, fixed point.
pub const CAM_DEPTH: i64 = 7_000;

/// Amplitude of the camera sway.
pub const CAM_AMP: i64 = 100;

/// Half period of the camera sway along `x`, fixed-point seconds (the
/// full triangle period matches a sine of angular rate two fifths).
pub const CAM_HALF_X: i64 = 7_854;

/// Half period of the camera sway along `y`, fixed-point seconds (the
/// full triangle period matches a cosine of angular rate three fifths).
pub const CAM_HALF_Y: i64 = 5_236;

/// Phase lead that starts the `x` sway at zero, rising, as a sine does.
pub const CAM_PHASE_X: i64 = 3_927;

/// Phase lead that starts the `y` sway at its crest, as a cosine does.
pub const CAM_PHASE_Y: i64 = 5_236;

/// Half period of the ambient shading ripple, fixed-point radians.
pub const WAVE_HALF: i64 = 3_141;

/// A periodic triangle oscillation of the given half period and
/// amplitude: the camera sway as a pure function of elapsed time.
pub open spec fn osc_spec(t: int, period: int, amp: int) -> int
    recommends
        t >= 0,
        period > 0,
{
    let ph = t % (2 * period);
    if ph < period {
        -amp + 2 * amp * ph / period
    } else {
        amp - 2 * amp * (ph - period) / period
    }
}

/// The oscillation stays within its amplitude.
pub proof fn lemma_osc_range(t: int, period: int, amp: int)
    requires
        t >= 0,
        0 < period,
        0 < amp,
    ensures
        -amp <= osc_spec(t, period, amp) <= amp,
{
    let ph = t % (2 * period);
    assert(0 <= ph < 2 * period);
    if ph < period {
        vstd::arithmetic::div_mod::lemma_div_pos_is_pos(2 * amp * ph, period);
        vstd::arithmetic::mul::lemma_mul_inequality(ph, period, 2 * amp);
        vstd::arithmetic::div_mod::lemma_div_is_ordered(
            2 * amp * ph,
            2 * amp * period,
            period,
        );
        vstd::arithmetic::div_mod::lemma_div_multiples_vanish(2 * amp, period);
        assert(2 * amp * period == period * (2 * amp));
    } else {
        vstd::arithmetic::div_mod::lemma_div_pos_is_pos(2 * amp * (ph - period), period);
        vstd::arithmetic::mul::lemma_mul_inequality(ph - period, period, 2 * amp);
        vstd::arithmetic::div_mod::lemma_div_is_ordered(
            2 * amp * (ph - period),
            2 * amp * period,
            period,
        );
        vstd::arithmetic::div_mod::lemma_div_multiples_vanish(2 * amp, period);
        assert(2 * amp * period == period * (2 * amp));
    }
}

/// A periodic triangle oscillation of the given half period and amplitude.
pub fn osc(t: i64, period: i64, amp: i64) -> (r: i64)
    requires
        0 <= t,
        0 < period <= 100_000,
        0 < amp <= 1_000,
    ensures
        r == osc_spec(t as int, period as int, amp as int),
        -amp <= r <= amp,
{
    proof {
        lemma_osc_range(t as int, period as int, amp as int);
    }
    let ph = t % (2 * period);
    proof {
        assert(0 <= 2 * amp * ph <= 400_000_000) by (nonlinear_arith)
            requires
                0 <= ph < 200_000,
                0 < amp <= 1_000,
        ;
        assert(0 <= 2 * amp * (if ph >= period {
            ph - period
        } else {
            0
        }) <= 400_000_000) by (nonlinear_arith)
            requires
                0 <= ph < 200_000,
                0 < period,
                0 < amp <= 1_000,
        ;
    }
    if ph < period {
        -amp + 2 * amp * ph / period
    } else {
        amp - 2 * amp * (ph - period) / period
    }
}

/// The virtual camera position: a gentle sway around the axis, a fixed
/// distance behind the scene, as a pure function of elapsed time. At
/// time zero it sits at `(0, CAM_AMP, -CAM_DEPTH)`: the `x` sway starts
/// at zero rising and the `y` sway at its crest.
pub open spec fn camera_spec(time: int) -> Vec3 {
    Vec3 {
        x: osc_spec(time + CAM_PHASE_X as int, CAM_HALF_X as int, CAM_AMP as int) as i64,
        y: osc_spec(time + CAM_PHASE_Y as int, CAM_HALF_Y as int, CAM_AMP as int) as i64,
        z: (-CAM_DEPTH) as i64,
    }
}

/// The virtual camera position at the given elapsed time.
pub fn camera(time: i64) -> (ro: Vec3)
    requires
        0 <= time <= TIME_LIMIT,
    ensures
        ro == camera_spec(time as int),
        in_box(ro, ORIGIN_LIMIT as int),
{
    let x = osc(time + CAM_PHASE_X, CAM_HALF_X, CAM_AMP);
    let y = osc(time + CAM_PHASE_Y, CAM_HALF_Y, CAM_AMP);
    Vec3 { x, y, z: -CAM_DEPTH }
}

/// A triangle ripple standing in for the cosine of the ambient term:
/// periodic in its argument, ranging over `[-SCALE, SCALE]`.
pub open spec fn wave_spec(u: int) -> int
    recommends
        u >= 0,
{
    let ph = u % (2 * (WAVE_HALF as int));
    if ph < WAVE_HALF as int {
        (SCALE as int) - 2 * (SCALE as int) * ph / (WAVE_HALF as int)
    } else {
        -(SCALE as int) + 2 * (SCALE as int) * (ph - WAVE_HALF as int) / (WAVE_HALF as int)
    }
}

/// The ripple stays within `[-SCALE, SCALE]`.
pub proof fn lemma_wave_range(u: int)
    requires
        u >= 0,
    ensures
        -SCALE <= wave_spec(u) <= SCALE,
{
    let hp = WAVE_HALF as int;
    assert(hp == 3_141);
    assert(SCALE as int == 1_000);
    let ph = u % (2 * hp);
    assert(0 <= ph < 2 * hp);
    if ph < hp {
        let q = 2 * (SCALE as int) * ph / hp;
        assert(2 * (SCALE as int) * ph == 2_000 * ph) by (nonlinear_arith)
            requires
                (SCALE as int) == 1_000,
        ;
        vstd::arithmetic::div_mod::lemma_div_pos_is_pos(2_000 * ph, 3_141);
        vstd::arithmetic::div_mod::lemma_div_is_ordered(2_000 * ph, 6_282_000, 3_141);
        assert(6_282_000int / 3_141 == 2_000);
        assert(q == 2_000 * ph / 3_141);
        assert(0 <= q <= 2_000);
    } else {
        let q = 2 * (SCALE as int) * (ph - hp) / hp;
        assert(2 * (SCALE as int) * (ph - hp) == 2_000 * (ph - hp)) by (nonlinear_arith)
            requires
                (SCALE as int) == 1_000,
        ;
        vstd::arithmetic::div_mod::lemma_div_pos_is_pos(2_000 * (ph - hp), 3_141);
        vstd::arithmetic::div_mod::lemma_div_is_ordered(2_000 * (ph - hp), 6_282_000, 3_141);
        assert(6_282_000int / 3_141 == 2_000);
        assert(q == 2_000 * (ph - hp) / 3_141);
        assert(0 <= q <= 2_000);
    }
}

/// A triangle ripple standing in for the cosine of the ambient term.
pub fn wave(u: i64) -> (r: i64)
    requires
        0 <= u <= 4_000_000_000,
    ensures
        r == wave_spec(u as int),
        -SCALE <= r <= SCALE,
{
    proof {
        lemma_wave_range(u as int);
    }
    let ph = u % (2 * WAVE_HALF);
    if ph < WAVE_HALF {
        SCALE - 2 * SCALE * ph / WAVE_HALF
    } else {
        -SCALE + 2 * SCALE * (ph - WAVE_HALF) / WAVE_HALF
    }
}

/// One output pixel, channels in `[0, SCALE]`.
#[derive(Clone, Copy, PartialEq, Eq, Structural, Debug)]
pub struct Color {
    pub r: i64,
    pub g: i64,
    pub b: i64,
}

/// The distance-modulated ambient term, ranging over `[50, 950]`.
pub open spec fn ambient_spec(t: int) -> int {
    500 + tdiv_spec(45 * wave_spec(7 * abs_spec(t)), 100)
}

/// The fixed pseudo-lighting combination: warm and cool channels driven
/// by the normal's components, scaled by the distance-modulated ambient.
pub open spec fn shade_spec(n: Vec3, t: int) -> Color {
    let base_r = n.y - tdiv_spec(n.z as int, 5);
    let base_g = tdiv_spec(n.y as int, 5) - tdiv_spec(n.z as int, 2);
    let base_b = tdiv_spec(3 * n.y, 10) - tdiv_spec(n.z as int, 2);
    let amb = ambient_spec(t);
    let factor_rg = 700 + tdiv_spec(amb, 2);
    let factor_b = 700 + amb;
    Color {
        r: clamp_spec(tdiv_spec(base_r * factor_rg, SCALE as int), 0, SCALE as int) as i64,
        g: clamp_spec(tdiv_spec(base_g * factor_rg, SCALE as int), 0, SCALE as int) as i64,
        b: clamp_spec(tdiv_spec(base_b * factor_b, SCALE as int), 0, SCALE as int) as i64,
    }
}

/// Shade a hit from its surface normal and marched distance.
pub fn shade(n: Vec3, t: i64) -> (c: Color)
    requires
        in_box(n, SCALE as int),
        -110_000_000 <= t <= T_FAR,
    ensures
        c == shade_spec(n, t as int),
        0 <= c.r <= SCALE && 0 <= c.g <= SCALE && 0 <= c.b <= SCALE,
{
    proof {
        crate::fixed::lemma_tdiv_bound(n.z as int, 5, 1_000);
        crate::fixed::lemma_tdiv_bound(n.y as int, 5, 1_000);
        crate::fixed::lemma_tdiv_bound(n.z as int, 2, 1_000);
        crate::fixed::lemma_tdiv_bound(3 * (n.y as int), 10, 3_000);
    }
    let base_r = n.y - fx_tdiv(n.z, 5);
    let base_g = fx_tdiv(n.y, 5) - fx_tdiv(n.z, 2);
    let base_b = fx_tdiv(3 * n.y, 10) - fx_tdiv(n.z, 2);
    let w = wave(7 * fx_abs(t));
    proof {
        crate::fixed::lemma_tdiv_bound(45 * (w as int), 100, 45_000);
    }
    let amb = 500 + fx_tdiv(45 * w, 100);
    proof {
        crate::fixed::lemma_tdiv_bound(amb as int, 2, 950);
    }
    let factor_rg = 700 + fx_tdiv(amb, 2);
    let factor_b = 700 + amb;
    proof {
        assert(-2_000_000 <= base_r * factor_rg <= 2_000_000) by (nonlinear_arith)
            requires
                -1_300 <= base_r <= 1_300,
                0 <= factor_rg <= 1_200,
        ;
        assert(-2_000_000 <= base_g * factor_rg <= 2_000_000) by (nonlinear_arith)
            requires
                -1_300 <= base_g <= 1_300,
                0 <= factor_rg <= 1_200,
        ;
        assert(-3_000_000 <= base_b * factor_b <= 3_000_000) by (nonlinear_arith)
            requires
                -1_300 <= base_b <= 1_300,
                0 <= factor_b <= 1_700,
        ;
    }
    let r = fx_clamp(fx_tdiv(base_r * factor_rg, SCALE), 0, SCALE);
    let g = fx_clamp(fx_tdiv(base_g * factor_rg, SCALE), 0, SCALE);
    let b = fx_clamp(fx_tdiv(base_b * factor_b, SCALE), 0, SCALE);
    Color { r, g, b }
}

/// One pixel of the raymarch pass: build the pixel's ray from the camera
/// and the normalized device coordinate, march the field, and shade the
/// hit; a miss is black. A pure function of the scene, the frame state
/// and the pixel coordinate.
pub open spec fn render_pixel_spec(s: Scene, fs: FrameState, x: int, y: int, w: int, h: int) -> Color {
    let ro = camera_spec(fs.time as int);
    let uvx = tdiv_spec((2 * x - w) * (SCALE as int), h);
    let uvy = tdiv_spec((h - 2 * y) * (SCALE as int), h);
    let rd = vnormalize_spec(
        Vec3 { x: (uvx - ro.x) as i64, y: (uvy - ro.y) as i64, z: (0 - ro.z) as i64 },
    );
    let ray = Ray { origin: ro, dir: rd };
    match march_spec(s, ray) {
        Some(t) => shade_spec(normal_spec(s, ray_point_spec(ray, t)), t),
        None => Color { r: 0, g: 0, b: 0 },
    }
}

/// Render one pixel of the raymarch pass.
pub fn render_pixel(scene: &Scene, fs: &FrameState, x: usize, y: usize, w: usize, h: usize) -> (c:
    Color)
    requires
        scene_wf(*scene),
        1 <= w <= MAX_DIM,
        1 <= h <= MAX_DIM,
        x < w,
        y < h,
        0 <= fs.time <= TIME_LIMIT,
    ensures
        c == render_pixel_spec(*scene, *fs, x as int, y as int, w as int, h as int),
        0 <= c.r <= SCALE && 0 <= c.g <= SCALE && 0 <= c.b <= SCALE,
{
    let ro = camera(fs.time);
    let uvx = fx_tdiv((2 * (x as i64) - (w as i64)) * SCALE, h as i64);
    let uvy = fx_tdiv(((h as i64) - 2 * (y as i64)) * SCALE, h as i64);
    let rd = vnormalize(Vec3 { x: uvx - ro.x, y: uvy - ro.y, z: 0 - ro.z });
    let ray = Ray { origin: ro, dir: rd };
    match march(scene, &ray) {
        Some(t) => {
            let p = hit_point(&ray, t);
            let n = normal(scene, p);
            shade(n, t)
        },
        None => Color { r: 0, g: 0, b: 0 },
    }
}

/// Render a whole frame of the raymarch pass: row-major pixels, each the
/// pure function of scene, frame state and coordinate that
/// `render_pixel_spec` gives — the first frame (and every frame) is
/// deterministic and reproducible.
pub fn render_frame(scene: &Scene, fs: &FrameState, w: usize, h: usize) -> (img: Vec<Vec<Color>>)
    requires
        scene_wf(*scene),
        1 <= w <= MAX_DIM,
        1 <= h <= MAX_DIM,
        0 <= fs.time <= TIME_LIMIT,
    ensures
        img@.len() == h,
        forall|yy: int| 0 <= yy < h ==> (#[trigger] img@[yy])@.len() == w,
        forall|xx: int, yy: int|
            0 <= xx < w && 0 <= yy < h ==> (#[trigger] img@[yy]@[xx]) == render_pixel_spec(
                *scene,
                *fs,
                xx,
                yy,
                w as int,
                h as int,
            ),
{
    let mut rows: Vec<Vec<Color>> = Vec::new();
    let mut y: usize = 0;
    while y < h
        invariant
            scene_wf(*scene),
            1 <= w <= MAX_DIM,
            1 <= h <= MAX_DIM,
            0 <= fs.time <= TIME_LIMIT,
            y <= h,
            rows@.len() == y,
            forall|yy: int| 0 <= yy < y ==> (#[trigger] rows@[yy])@.len() == w,
            forall|xx: int, yy: int|
                0 <= xx < w && 0 <= yy < y ==> (#[trigger] rows@[yy]@[xx]) == render_pixel_spec(
                    *scene,
                    *fs,
                    xx,
                    yy,
                    w as int,
                    h as int,
                ),
        decreases h - y,
    {
        let mut row: Vec<Color> = Vec::new();
        let mut x: usize = 0;
        while x < w
            invariant
                scene_wf(*scene),
                1 <= w <= MAX_DIM,
                1 <= h <= MAX_DIM,
                0 <= fs.time <= TIME_LIMIT,
                y < h,
                x <= w,
                row@.len() == x,
                forall|xx: int|
                    0 <= xx < x ==> (#[trigger] row@[xx]) == render_pixel_spec(
                        *scene,
                        *fs,
                        xx,
                        y as int,
                        w as int,
                        h as int,
                    ),
            decreases w - x,
        {
            let c = render_pixel(scene, fs, x, y, w, h);
            row.push(c);
            x += 1;
        }
        rows.push(row);
        y += 1;
    }
    rows
}

} // verus!
