//! The signed-distance-field scene and its raymarching evaluator.
//!
//! A scene blends spheres and folded spike structures together with the
//! smooth minimum; the evaluator walks a ray through the field, advancing each
//! step by the distance the field reports, until it either converges on a
//! surface (the report drops below `EPS`) or gives up (step cap reached or
//! the far plane passed) and declares the pixel background.

use vstd::prelude::*;

use crate::fixed::{
    abs_spec, fx_tdiv, isqrt, isqrt_spec, lemma_isqrt_spec_bounds, lemma_isqrt_square,
    lemma_smoothmin_bounds, lemma_square_monotonic, smoothmin, smoothmin_spec,
    tdiv_spec, BLEND_LIMIT, EPS, ISQRT_INPUT_LIMIT, SCALE,
};

verus! {

/// Largest coordinate magnitude of a point the field is evaluated at.
pub const POS_LIMIT: i64 = 601_000_000;

/// Largest coordinate magnitude of a sphere centre.
pub const CENTER_LIMIT: i64 = 100_000_000;

/// Largest sphere radius.
pub const RAD_LIMIT: i64 = 100_000_000;

/// Largest coordinate magnitude of a ray origin.
pub const ORIGIN_LIMIT: i64 = 100_000_000;

/// Largest coordinate magnitude of a ray direction (unit length).
pub const DIR_LIMIT: i64 = 1_000;

/// The far plane: marching past this distance is background. It exceeds
/// the farthest possible hit — the widest origin box plus the farthest
/// surface point any sphere in bounds can offer — so no true hit within
/// the admitted domain is ever cut off.
pub const T_FAR: i64 = 500_000_000;

/// Upper bound on any single sphere distance evaluated in bounds.
pub const SD_MAX: i64 = 1_402_000_000;

/// Lower bound on the blended field over a well-formed scene.
pub const MAP_MIN: i64 = -108_000_000;

/// Most spheres a scene may blend.
pub const MAX_SPHERES: usize = 16;

/// Step cap of the raymarcher.
pub const STEP_CAP: u32 = 64;

/// A fixed-point position or direction in space.
#[derive(Clone, Copy, PartialEq, Eq, Structural, Debug)]
pub struct Vec3 {
    pub x: i64,
    pub y: i64,
    pub z: i64,
}

/// Every coordinate of `v` lies in `[-lim, lim]`.
pub open spec fn in_box(v: Vec3, lim: int) -> bool {
    -lim <= v.x <= lim && -lim <= v.y <= lim && -lim <= v.z <= lim
}

/// Componentwise difference (the operands are kept small enough that the
/// difference always fits).
pub open spec fn vsub_spec(a: Vec3, b: Vec3) -> Vec3 {
    Vec3 { x: (a.x - b.x) as i64, y: (a.y - b.y) as i64, z: (a.z - b.z) as i64 }
}

/// Squared Euclidean length.
pub open spec fn norm2_spec(v: Vec3) -> int {
    v.x * v.x + v.y * v.y + v.z * v.z
}

/// Euclidean length, rounded down to the fixed-point grid.
pub open spec fn vlen_spec(v: Vec3) -> int {
    isqrt_spec(norm2_spec(v))
}

/// The length of a vector with coordinates in `[-lim, lim]` lies in `[0, 2*lim]`.
pub proof fn lemma_vlen_bound(v: Vec3, lim: int)
    requires
        0 <= lim <= 1_600_000_000,
        in_box(v, lim),
    ensures
        0 <= vlen_spec(v) <= 2 * lim,
        0 <= norm2_spec(v) <= 3 * lim * lim,
{
    assert(0 <= norm2_spec(v) <= 3 * lim * lim) by (nonlinear_arith)
        requires
            -lim <= v.x <= lim,
            -lim <= v.y <= lim,
            -lim <= v.z <= lim,
            0 <= lim,
    ;
    lemma_isqrt_spec_bounds(norm2_spec(v));
    let r = vlen_spec(v);
    if r > 2 * lim {
        assert((2 * lim + 1) * (2 * lim + 1) > 3 * lim * lim) by (nonlinear_arith)
            requires
                0 <= lim,
        ;
        lemma_square_monotonic(2 * lim + 1, r);
        assert(false);
    }
}

/// Euclidean length of a fixed-point vector.
pub fn vlen(v: Vec3) -> (r: i64)
    requires
        in_box(v, 1_600_000_000),
    ensures
        r == vlen_spec(v),
        0 <= r,
{
    proof {
        lemma_vlen_bound(v, 1_600_000_000);
        assert(norm2_spec(v) <= ISQRT_INPUT_LIMIT);
        assert(0 <= v.x * v.x <= 2_560_000_000_000_000_000 && 0 <= v.y * v.y
            <= 2_560_000_000_000_000_000 && 0 <= v.z * v.z <= 2_560_000_000_000_000_000)
            by (nonlinear_arith)
            requires
                in_box(v, 1_600_000_000),
        ;
    }
    let n2 = v.x * v.x + v.y * v.y + v.z * v.z;
    isqrt(n2)
}

/// Componentwise difference of two fixed-point vectors.
pub fn vsub(a: Vec3, b: Vec3) -> (r: Vec3)
    requires
        in_box(a, 1_600_000_000),
        in_box(b, 1_600_000_000),
    ensures
        r == vsub_spec(a, b),
{
    Vec3 { x: a.x - b.x, y: a.y - b.y, z: a.z - b.z }
}

/// A spherical primitive of the distance field.
#[derive(Clone, Copy, PartialEq, Eq, Structural, Debug)]
pub struct Sphere {
    pub center: Vec3,
    pub radius: i64,
}

/// A sphere in bounds: centre near the origin, positive bounded radius.
pub open spec fn sphere_wf(s: Sphere) -> bool {
    in_box(s.center, CENTER_LIMIT as int) && 0 < s.radius <= RAD_LIMIT
}

/// Signed distance from `p` to the surface of sphere `s`.
pub open spec fn sphere_dist_spec(s: Sphere, p: Vec3) -> int {
    vlen_spec(vsub_spec(p, s.center)) - s.radius
}

/// The distance to a well-formed sphere from a point in bounds.
pub proof fn lemma_sphere_dist_bounds(s: Sphere, p: Vec3)
    requires
        sphere_wf(s),
        in_box(p, POS_LIMIT as int),
    ensures
        -RAD_LIMIT <= sphere_dist_spec(s, p) <= SD_MAX,
{
    lemma_vlen_bound(vsub_spec(p, s.center), 701_000_000);
}

/// Signed distance from `p` to the surface of sphere `s`.
pub fn sphere_dist(s: &Sphere, p: Vec3) -> (r: i64)
    requires
        sphere_wf(*s),
        in_box(p, POS_LIMIT as int),
    ensures
        r == sphere_dist_spec(*s, p),
        -RAD_LIMIT <= r <= SD_MAX,
{
    proof {
        lemma_sphere_dist_bounds(*s, p);
    }
    let d = vsub(p, s.center);
    let l = vlen(d);
    l - s.radius
}

/// A symmetry fold: a point on the negative side of the plane through
/// the origin with normal `d` is reflected across it; the positive side
/// is left untouched.
pub open spec fn fold_spec(p: Vec3, d: Vec3) -> Vec3 {
    let dp = tdiv_spec(p.x * d.x + p.y * d.y + p.z * d.z, SCALE as int);
    if dp >= 0 {
        p
    } else {
        Vec3 {
            x: (p.x + tdiv_spec((-2 * dp) * d.x, SCALE as int)) as i64,
            y: (p.y + tdiv_spec((-2 * dp) * d.y, SCALE as int)) as i64,
            z: (p.z + tdiv_spec((-2 * dp) * d.z, SCALE as int)) as i64,
        }
    }
}

/// A fold of a point in a box against a unit-length direction stays
/// within seven times the box.
pub proof fn lemma_fold_box(p: Vec3, d: Vec3, lim: int)
    requires
        0 <= lim <= 100_000_000,
        in_box(p, lim),
        in_box(d, SCALE as int),
    ensures
        in_box(fold_spec(p, d), 7 * lim),
{
    let s = p.x * d.x + p.y * d.y + p.z * d.z;
    assert(abs_spec(p.x * d.x) <= lim * 1_000 && abs_spec(p.y * d.y) <= lim * 1_000 && abs_spec(
        p.z * d.z,
    ) <= lim * 1_000) by (nonlinear_arith)
        requires
            in_box(p, lim),
            in_box(d, 1_000),
            0 <= lim,
    ;
    assert(abs_spec(s) <= 3 * lim * 1_000);
    crate::fixed::lemma_tdiv_bound(s, 1_000, 3 * lim * 1_000);
    vstd::arithmetic::div_mod::lemma_div_multiples_vanish(3 * lim, 1_000);
    assert(3 * lim * 1_000 == 1_000 * (3 * lim));
    let dp = tdiv_spec(s, SCALE as int);
    assert(abs_spec(dp) <= 3 * lim);
    if dp < 0 {
        let m = -2 * dp;
        assert(abs_spec(m * d.x) <= 6 * lim * 1_000) by (nonlinear_arith)
            requires
                0 <= m <= 6 * lim,
                -1_000 <= d.x <= 1_000,
                0 <= lim,
        ;
        assert(abs_spec(m * d.y) <= 6 * lim * 1_000) by (nonlinear_arith)
            requires
                0 <= m <= 6 * lim,
                -1_000 <= d.y <= 1_000,
                0 <= lim,
        ;
        assert(abs_spec(m * d.z) <= 6 * lim * 1_000) by (nonlinear_arith)
            requires
                0 <= m <= 6 * lim,
                -1_000 <= d.z <= 1_000,
                0 <= lim,
        ;
        crate::fixed::lemma_tdiv_bound(m * d.x, 1_000, 6 * lim * 1_000);
        crate::fixed::lemma_tdiv_bound(m * d.y, 1_000, 6 * lim * 1_000);
        crate::fixed::lemma_tdiv_bound(m * d.z, 1_000, 6 * lim * 1_000);
        vstd::arithmetic::div_mod::lemma_div_multiples_vanish(6 * lim, 1_000);
        assert(6 * lim * 1_000 == 1_000 * (6 * lim));
    }
}

/// Reflect `p` across the plane through the origin with unit normal `d`
/// when it lies on the negative side; leave it unchanged otherwise.
pub fn fold(p: Vec3, d: Vec3) -> (r: Vec3)
    requires
        in_box(p, 100_000_000),
        in_box(d, SCALE as int),
    ensures
        r == fold_spec(p, d),
{
    proof {
        assert(abs_spec(p.x * d.x) <= 100_000_000_000 && abs_spec(p.y * d.y) <= 100_000_000_000
            && abs_spec(p.z * d.z) <= 100_000_000_000) by (nonlinear_arith)
            requires
                in_box(p, 100_000_000),
                in_box(d, 1_000),
        ;
    }
    let s = p.x * d.x + p.y * d.y + p.z * d.z;
    proof {
        assert(SCALE as int == 1_000);
        crate::fixed::lemma_tdiv_bound(s as int, 1_000, 300_000_000_000);
        assert(300_000_000_000int / 1_000int == 300_000_000);
    }
    let dp = fx_tdiv(s, SCALE);
    proof {
        assert(dp == tdiv_spec(s as int, 1_000));
        assert(-300_000_000 <= dp <= 300_000_000);
    }
    if dp >= 0 {
        p
    } else {
        let neg: i64 = -dp;
        let m = 2 * neg;
        proof {
            assert(abs_spec(m * d.x) <= 600_000_000_000 && abs_spec(m * d.y)
                <= 600_000_000_000 && abs_spec(m * d.z) <= 600_000_000_000)
                by (nonlinear_arith)
                requires
                    0 <= m <= 600_000_000,
                    in_box(d, 1_000),
            ;
            crate::fixed::lemma_tdiv_bound((m * d.x) as int, SCALE as int, 600_000_000_000);
            crate::fixed::lemma_tdiv_bound((m * d.y) as int, SCALE as int, 600_000_000_000);
            crate::fixed::lemma_tdiv_bound((m * d.z) as int, SCALE as int, 600_000_000_000);
        }
        let x = p.x + fx_tdiv(m * d.x, SCALE);
        let y = p.y + fx_tdiv(m * d.y, SCALE);
        let z = p.z + fx_tdiv(m * d.z, SCALE);
        Vec3 { x, y, z }
    }
}

/// A per-axis rotation of the `x`,`y` plane (about the `z` axis) by an
/// angle given through its fixed-point cosine and sine.
pub open spec fn rotate_xy_spec(p: Vec3, c: int, s: int) -> Vec3 {
    Vec3 {
        x: tdiv_spec(c * p.x - s * p.y, SCALE as int) as i64,
        y: tdiv_spec(s * p.x + c * p.y, SCALE as int) as i64,
        z: p.z,
    }
}

/// A per-axis rotation of the `x`,`z` plane (about the `y` axis) by an
/// angle given through its fixed-point cosine and sine.
pub open spec fn rotate_xz_spec(p: Vec3, c: int, s: int) -> Vec3 {
    Vec3 {
        x: tdiv_spec(c * p.x - s * p.z, SCALE as int) as i64,
        y: p.y,
        z: tdiv_spec(s * p.x + c * p.z, SCALE as int) as i64,
    }
}

/// A rotated point stays within twice the box of the input.
pub proof fn lemma_rotate_box(p: Vec3, c: int, s: int, lim: int)
    requires
        0 <= lim <= 1_000_000,
        in_box(p, lim),
        -(SCALE as int) <= c <= SCALE as int,
        -(SCALE as int) <= s <= SCALE as int,
    ensures
        in_box(rotate_xy_spec(p, c, s), 2 * lim),
        in_box(rotate_xz_spec(p, c, s), 2 * lim),
{
    assert(abs_spec(c * p.x - s * p.y) <= 2 * lim * 1_000 && abs_spec(s * p.x + c * p.y) <= 2
        * lim * 1_000 && abs_spec(c * p.x - s * p.z) <= 2 * lim * 1_000 && abs_spec(
        s * p.x + c * p.z,
    ) <= 2 * lim * 1_000) by (nonlinear_arith)
        requires
            in_box(p, lim),
            0 <= lim,
            -1_000 <= c <= 1_000,
            -1_000 <= s <= 1_000,
    ;
    crate::fixed::lemma_tdiv_bound(c * p.x - s * p.y, 1_000, 2 * lim * 1_000);
    crate::fixed::lemma_tdiv_bound(s * p.x + c * p.y, 1_000, 2 * lim * 1_000);
    crate::fixed::lemma_tdiv_bound(c * p.x - s * p.z, 1_000, 2 * lim * 1_000);
    crate::fixed::lemma_tdiv_bound(s * p.x + c * p.z, 1_000, 2 * lim * 1_000);
    vstd::arithmetic::div_mod::lemma_div_multiples_vanish(2 * lim, 1_000);
    assert(2 * lim * 1_000 == 1_000 * (2 * lim));
}

/// Rotate the `x`,`y` plane of `p` by the angle with cosine `c`, sine `s`.
pub fn rotate_xy(p: Vec3, c: i64, s: i64) -> (r: Vec3)
    requires
        in_box(p, 1_000_000),
        -SCALE <= c <= SCALE,
        -SCALE <= s <= SCALE,
    ensures
        r == rotate_xy_spec(p, c as int, s as int),
{
    proof {
        assert(abs_spec(c * p.x) <= 1_000_000_000 && abs_spec(s * p.y) <= 1_000_000_000
            && abs_spec(s * p.x) <= 1_000_000_000 && abs_spec(c * p.y) <= 1_000_000_000)
            by (nonlinear_arith)
            requires
                in_box(p, 1_000_000),
                -1_000 <= c <= 1_000,
                -1_000 <= s <= 1_000,
        ;
    }
    let x = fx_tdiv(c * p.x - s * p.y, SCALE);
    let y = fx_tdiv(s * p.x + c * p.y, SCALE);
    Vec3 { x, y, z: p.z }
}

/// Rotate the `x`,`z` plane of `p` by the angle with cosine `c`, sine `s`.
pub fn rotate_xz(p: Vec3, c: i64, s: i64) -> (r: Vec3)
    requires
        in_box(p, 1_000_000),
        -SCALE <= c <= SCALE,
        -SCALE <= s <= SCALE,
    ensures
        r == rotate_xz_spec(p, c as int, s as int),
{
    proof {
        assert(abs_spec(c * p.x) <= 1_000_000_000 && abs_spec(s * p.z) <= 1_000_000_000
            && abs_spec(s * p.x) <= 1_000_000_000 && abs_spec(c * p.z) <= 1_000_000_000)
            by (nonlinear_arith)
            requires
                in_box(p, 1_000_000),
                -1_000 <= c <= 1_000,
                -1_000 <= s <= 1_000,
        ;
    }
    let x = fx_tdiv(c * p.x - s * p.z, SCALE);
    let z = fx_tdiv(s * p.x + c * p.z, SCALE);
    Vec3 { x, y: p.y, z }
}

/// The three symmetry folds of the spike structure, against the fixed
/// tetrahedral fold axes.
pub open spec fn fold3_spec(u: Vec3) -> Vec3 {
    fold_spec(
        fold_spec(
            fold_spec(u, Vec3 { x: 0, y: 577, z: 816 }),
            Vec3 { x: 707, y: 577, z: -408i64 },
        ),
        Vec3 { x: -707i64, y: 577, z: -408i64 },
    )
}

/// One arm of the spike structure: the folded coordinates summed and
/// tapered by the arm length.
pub open spec fn spike_arm_spec(u: Vec3) -> int {
    let f = fold3_spec(u);
    tdiv_spec((f.x + f.y + f.z) * 10, 26)
}

/// One arm of the spike structure, for a direction within twice unit.
pub fn spike_arm(u: Vec3) -> (r: i64)
    requires
        in_box(u, 2_000),
    ensures
        r == spike_arm_spec(u),
        -800_000 <= r <= 800_000,
{
    let a = Vec3 { x: 0, y: 577, z: 816 };
    let b = Vec3 { x: 707, y: 577, z: -408 };
    let c = Vec3 { x: -707, y: 577, z: -408 };
    proof {
        lemma_fold_box(u, a, 2_000);
        lemma_fold_box(fold_spec(u, a), b, 14_000);
        lemma_fold_box(fold_spec(fold_spec(u, a), b), c, 98_000);
    }
    let f1 = fold(u, a);
    let f2 = fold(f1, b);
    let f3 = fold(f2, c);
    let s = f3.x + f3.y + f3.z;
    proof {
        crate::fixed::lemma_tdiv_bound(s as int * 10, 26, 20_580_000);
    }
    fx_tdiv(s * 10, 26)
}

/// A spike primitive of the distance field: the structure of blended
/// arms the symmetry folds carve out of the unit directions, opening
/// with the given aperture as the evaluation point recedes.
#[derive(Clone, Copy, PartialEq, Eq, Structural, Debug)]
pub struct Spike {
    pub aperture: i64,
}

/// A spike in bounds: positive bounded aperture.
pub open spec fn spike_wf(s: Spike) -> bool {
    0 < s.aperture <= RAD_LIMIT
}

/// Signed distance of the spike structure at `p`: the arm along `p`'s
/// direction and its two quarter-turned copies, each cut against the
/// aperture by a smooth maximum, blended together, and tapered.
#[verifier::opaque]
pub open spec fn spike_dist_spec(s: Spike, p: Vec3) -> int {
    let u = vnormalize_spec(p);
    let angle = vlen_spec(p);
    let gap = -(angle - s.aperture);
    let d0 = -smoothmin_spec(-spike_arm_spec(u), gap, SCALE as int);
    let d1 = -smoothmin_spec(
        -spike_arm_spec(rotate_xz_spec(u, 0, SCALE as int)),
        gap,
        SCALE as int,
    );
    let d2 = -smoothmin_spec(
        -spike_arm_spec(rotate_xy_spec(u, 0, SCALE as int)),
        gap,
        SCALE as int,
    );
    tdiv_spec(smoothmin_spec(smoothmin_spec(d0, d1, 240), d2, 240) * 9, 10)
}

/// The spike's final taper toward its true surface.
fn spike_taper(m2: i64) -> (r: i64)
    requires
        -900_000 <= m2 <= 1_302_000_000,
    ensures
        r == tdiv_spec(m2 as int * 9, 10),
        -RAD_LIMIT <= r <= SD_MAX,
{
    proof {
        if m2 < 0 {
            crate::fixed::lemma_tdiv_bound(m2 as int * 9, 10, 8_100_000);
        } else {
            vstd::arithmetic::div_mod::lemma_div_pos_is_pos(m2 as int * 9, 10);
            crate::fixed::lemma_tdiv_bound(m2 as int * 9, 10, 11_718_000_000);
        }
    }
    fx_tdiv(m2 * 9, 10)
}

/// One lobe of the spike: the arm cut against the receding aperture by
/// a smooth maximum.
fn spike_lobe(arm: i64, gap: i64) -> (r: i64)
    requires
        -800_000 <= arm <= 800_000,
        -1_300_000_000 <= gap <= 100_000_000,
    ensures
        r == -smoothmin_spec(-arm as int, gap as int, SCALE as int),
        arm <= r <= 1_300_000_250,
        -800_000 <= r,
{
    -smoothmin(-arm, gap, SCALE)
}

/// Signed distance of the spike structure at `p`.
#[verifier::rlimit(100)]
pub fn spike_dist(s: &Spike, p: Vec3) -> (r: i64)
    requires
        spike_wf(*s),
        in_box(p, POS_LIMIT as int),
    ensures
        r == spike_dist_spec(*s, p),
        -RAD_LIMIT <= r <= SD_MAX,
{
    proof {
        lemma_vlen_bound(p, POS_LIMIT as int);
    }
    let u = vnormalize(p);
    let angle = vlen(p);
    let gap = -(angle - s.aperture);
    proof {
        lemma_rotate_box(u, 0, SCALE as int, 1_000);
    }
    let a0 = spike_arm(u);
    let d0 = spike_lobe(a0, gap);
    let u1 = rotate_xz(u, 0, SCALE);
    let a1 = spike_arm(u1);
    let d1 = spike_lobe(a1, gap);
    let u2 = rotate_xy(u, 0, SCALE);
    let a2 = spike_arm(u2);
    let d2 = spike_lobe(a2, gap);
    let m1 = smoothmin(d0, d1, 240);
    let m2 = smoothmin(m1, d2, 240);
    proof {
        reveal(spike_dist_spec);
    }
    spike_taper(m2)
}

/// A distance-field scene: spheres and spikes blended with the smooth
/// minimum.
#[derive(Clone, Debug)]
pub struct Scene {
    pub spheres: Vec<Sphere>,
    pub spikes: Vec<Spike>,
    pub blend: i64,
}

/// A scene in bounds: at least one sphere, every primitive well formed,
/// positive blend.
pub open spec fn scene_wf(s: Scene) -> bool {
    &&& 1 <= s.spheres@.len() <= MAX_SPHERES
    &&& s.spikes@.len() <= MAX_SPHERES
    &&& 0 < s.blend <= BLEND_LIMIT
    &&& forall|i: int| 0 <= i < s.spheres@.len() ==> sphere_wf(#[trigger] s.spheres@[i])
    &&& forall|i: int| 0 <= i < s.spikes@.len() ==> spike_wf(#[trigger] s.spikes@[i])
}

/// The blended field over the first `n` spheres: a left fold of the
/// smooth minimum over the individual sphere distances.
pub open spec fn map_prefix_spec(spheres: Seq<Sphere>, blend: int, p: Vec3, n: int) -> int
    recommends
        1 <= n <= spheres.len(),
    decreases n,
{
    if n <= 1 {
        sphere_dist_spec(spheres[0], p)
    } else {
        smoothmin_spec(
            map_prefix_spec(spheres, blend, p, n - 1),
            sphere_dist_spec(spheres[n - 1], p),
            blend,
        )
    }
}

/// The blended field folded over the first `n` spikes, on top of the
/// already blended `base`.
pub open spec fn map_spike_prefix_spec(
    spikes: Seq<Spike>,
    blend: int,
    p: Vec3,
    base: int,
    n: int,
) -> int
    recommends
        0 <= n <= spikes.len(),
    decreases n,
{
    if n <= 0 {
        base
    } else {
        smoothmin_spec(
            map_spike_prefix_spec(spikes, blend, p, base, n - 1),
            spike_dist_spec(spikes[n - 1], p),
            blend,
        )
    }
}

/// The scene's composed distance field at `p`: the smooth-minimum blend
/// of every sphere and every spike.
pub open spec fn map_spec(s: Scene, p: Vec3) -> int {
    map_spike_prefix_spec(
        s.spikes@,
        s.blend as int,
        p,
        map_prefix_spec(s.spheres@, s.blend as int, p, s.spheres@.len() as int),
        s.spikes@.len() as int,
    )
}

/// Evaluate the scene's composed distance field at `p`.
pub fn map(scene: &Scene, p: Vec3) -> (r: i64)
    requires
        scene_wf(*scene),
        in_box(p, POS_LIMIT as int),
    ensures
        r == map_spec(*scene, p),
        MAP_MIN <= r <= SD_MAX,
{
    let n = scene.spheres.len();
    let mut d = sphere_dist(&scene.spheres[0], p);
    let mut i: usize = 1;
    while i < n
        invariant
            1 <= i <= n,
            n == scene.spheres@.len(),
            scene_wf(*scene),
            in_box(p, POS_LIMIT as int),
            d == map_prefix_spec(scene.spheres@, scene.blend as int, p, i as int),
            -(RAD_LIMIT as int) - (i as int) * 250_000 <= d <= SD_MAX,
        decreases n - i,
    {
        let sd = sphere_dist(&scene.spheres[i], p);
        proof {
            lemma_smoothmin_bounds(d as int, sd as int, scene.blend as int);
            vstd::arithmetic::div_mod::lemma_div_is_ordered(
                scene.blend as int,
                BLEND_LIMIT as int,
                4,
            );
            assert(BLEND_LIMIT as int / 4 == 250_000);
        }
        d = smoothmin(d, sd, scene.blend);
        i += 1;
    }
    let ns = scene.spikes.len();
    let mut j: usize = 0;
    while j < ns
        invariant
            j <= ns,
            n == scene.spheres@.len(),
            ns == scene.spikes@.len(),
            scene_wf(*scene),
            in_box(p, POS_LIMIT as int),
            d == map_spike_prefix_spec(
                scene.spikes@,
                scene.blend as int,
                p,
                map_prefix_spec(scene.spheres@, scene.blend as int, p, n as int),
                j as int,
            ),
            -(RAD_LIMIT as int) - ((n as int) + (j as int)) * 250_000 <= d <= SD_MAX,
        decreases ns - j,
    {
        let sd = spike_dist(&scene.spikes[j], p);
        proof {
            lemma_smoothmin_bounds(d as int, sd as int, scene.blend as int);
            vstd::arithmetic::div_mod::lemma_div_is_ordered(
                scene.blend as int,
                BLEND_LIMIT as int,
                4,
            );
            assert(BLEND_LIMIT as int / 4 == 250_000);
        }
        d = smoothmin(d, sd, scene.blend);
        j += 1;
    }
    d
}

/// A ray: an origin and a fixed-point direction of roughly unit length.
#[derive(Clone, Copy, PartialEq, Eq, Structural, Debug)]
pub struct Ray {
    pub origin: Vec3,
    pub dir: Vec3,
}

/// A ray in bounds.
pub open spec fn ray_wf(r: Ray) -> bool {
    in_box(r.origin, ORIGIN_LIMIT as int) && in_box(r.dir, DIR_LIMIT as int)
}

/// The point reached after marching `t` fixed-point units along the ray.
pub open spec fn ray_point_spec(r: Ray, t: int) -> Vec3 {
    Vec3 {
        x: (r.origin.x + tdiv_spec(t * r.dir.x, SCALE as int)) as i64,
        y: (r.origin.y + tdiv_spec(t * r.dir.y, SCALE as int)) as i64,
        z: (r.origin.z + tdiv_spec(t * r.dir.z, SCALE as int)) as i64,
    }
}

/// One marched coordinate stays within the evaluation box.
proof fn lemma_ray_coord_bound(o: int, dir: int, t: int)
    requires
        -(ORIGIN_LIMIT as int) <= o <= ORIGIN_LIMIT as int,
        -(DIR_LIMIT as int) <= dir <= DIR_LIMIT as int,
        0 <= t <= T_FAR as int,
    ensures
        -600_000_000 <= o + tdiv_spec(t * dir, SCALE as int) <= 600_000_000,
        abs_spec(t * dir) <= 500_000_000_000,
{
    assert(abs_spec(t * dir) <= 500_000_000_000) by (nonlinear_arith)
        requires
            -1_000 <= dir <= 1_000,
            0 <= t <= 500_000_000,
    ;
    let q = tdiv_spec(t * dir, SCALE as int);
    vstd::arithmetic::div_mod::lemma_div_pos_is_pos(abs_spec(t * dir), SCALE as int);
    vstd::arithmetic::div_mod::lemma_div_is_ordered(abs_spec(t * dir), 500_000_000_000, 1000);
    assert(abs_spec(q) == abs_spec(t * dir) / (SCALE as int));
    assert(500_000_000_000int / 1000 == 500_000_000);
}

/// The point reached after marching `t` units along the ray.
pub fn ray_point(r: &Ray, t: i64) -> (p: Vec3)
    requires
        ray_wf(*r),
        0 <= t <= T_FAR,
    ensures
        p == ray_point_spec(*r, t as int),
        in_box(p, 600_000_000),
{
    proof {
        lemma_ray_coord_bound(r.origin.x as int, r.dir.x as int, t as int);
        lemma_ray_coord_bound(r.origin.y as int, r.dir.y as int, t as int);
        lemma_ray_coord_bound(r.origin.z as int, r.dir.z as int, t as int);
    }
    let x = r.origin.x + fx_tdiv(t * r.dir.x, SCALE);
    let y = r.origin.y + fx_tdiv(t * r.dir.y, SCALE);
    let z = r.origin.z + fx_tdiv(t * r.dir.z, SCALE);
    Vec3 { x, y, z }
}

/// The march from distance `t` with `fuel` steps left: convergence below
/// `EPS` is a hit at the marched distance; running out of steps or
/// passing the far plane is background.
pub open spec fn march_from_spec(s: Scene, r: Ray, t: int, fuel: nat) -> Option<int>
    decreases fuel,
{
    if fuel == 0 {
        None
    } else {
        let d = map_spec(s, ray_point_spec(r, t));
        if d < EPS {
            Some(t + d)
        } else if t + d > T_FAR {
            None
        } else {
            march_from_spec(s, r, t + d, (fuel - 1) as nat)
        }
    }
}

/// The full march: from the origin, with the full step cap.
pub open spec fn march_spec(s: Scene, r: Ray) -> Option<int> {
    march_from_spec(s, r, 0, STEP_CAP as nat)
}

/// Walk the ray through the distance field: `Some` marched distance on
/// convergence, `None` for a background pixel.
pub fn march(scene: &Scene, ray: &Ray) -> (res: Option<i64>)
    requires
        scene_wf(*scene),
        ray_wf(*ray),
    ensures
        (match res {
            Some(t) => march_spec(*scene, *ray) == Some(t as int),
            None => march_spec(*scene, *ray) is None,
        }),
        res matches Some(t) ==> MAP_MIN <= t <= T_FAR,
{
    let mut t: i64 = 0;
    let mut i: u32 = 0;
    while i < STEP_CAP
        invariant
            0 <= t <= T_FAR,
            i <= STEP_CAP,
            scene_wf(*scene),
            ray_wf(*ray),
            march_spec(*scene, *ray) == march_from_spec(
                *scene,
                *ray,
                t as int,
                (STEP_CAP - i) as nat,
            ),
        decreases STEP_CAP - i,
    {
        let p = ray_point(ray, t);
        let d = map(scene, p);
        if d < EPS {
            return Some(t + d);
        }
        if t > T_FAR - d {
            return None;
        }
        t = t + d;
        i += 1;
    }
    None
}

/// Every coordinate of a vector is bounded by its Euclidean length.
pub proof fn lemma_component_le_len(v: Vec3)
    requires
        in_box(v, 1_600_000_000),
    ensures
        abs_spec(v.x as int) <= vlen_spec(v),
        abs_spec(v.y as int) <= vlen_spec(v),
        abs_spec(v.z as int) <= vlen_spec(v),
{
    assert(v.x * v.x <= norm2_spec(v) && v.y * v.y <= norm2_spec(v) && v.z * v.z <= norm2_spec(
        v,
    )) by (nonlinear_arith);
    assert(v.x * v.x == abs_spec(v.x as int) * abs_spec(v.x as int)) by (nonlinear_arith);
    assert(v.y * v.y == abs_spec(v.y as int) * abs_spec(v.y as int)) by (nonlinear_arith);
    assert(v.z * v.z == abs_spec(v.z as int) * abs_spec(v.z as int)) by (nonlinear_arith);
    crate::fixed::lemma_isqrt_monotonic(v.x * v.x, norm2_spec(v));
    crate::fixed::lemma_isqrt_monotonic(v.y * v.y, norm2_spec(v));
    crate::fixed::lemma_isqrt_monotonic(v.z * v.z, norm2_spec(v));
    lemma_isqrt_square(abs_spec(v.x as int));
    lemma_isqrt_square(abs_spec(v.y as int));
    lemma_isqrt_square(abs_spec(v.z as int));
}

/// Rescale a vector to unit length (`SCALE` units); the zero vector maps
/// to the unit `+z` direction.
pub open spec fn vnormalize_spec(v: Vec3) -> Vec3 {
    let l = vlen_spec(v);
    if l == 0 {
        Vec3 { x: 0, y: 0, z: SCALE }
    } else {
        Vec3 {
            x: tdiv_spec(v.x * (SCALE as int), l) as i64,
            y: tdiv_spec(v.y * (SCALE as int), l) as i64,
            z: tdiv_spec(v.z * (SCALE as int), l) as i64,
        }
    }
}

/// Rescale a vector to unit length.
pub fn vnormalize(v: Vec3) -> (r: Vec3)
    requires
        in_box(v, 1_600_000_000),
    ensures
        r == vnormalize_spec(v),
        in_box(r, SCALE as int),
{
    let l = vlen(v);
    if l == 0 {
        Vec3 { x: 0, y: 0, z: SCALE }
    } else {
        proof {
            lemma_component_le_len(v);
            assert(abs_spec((v.x * SCALE) as int) == abs_spec(v.x as int) * (SCALE as int));
            assert(abs_spec((v.y * SCALE) as int) == abs_spec(v.y as int) * (SCALE as int));
            assert(abs_spec((v.z * SCALE) as int) == abs_spec(v.z as int) * (SCALE as int));
            vstd::arithmetic::mul::lemma_mul_inequality(
                abs_spec(v.x as int),
                l as int,
                SCALE as int,
            );
            vstd::arithmetic::mul::lemma_mul_inequality(
                abs_spec(v.y as int),
                l as int,
                SCALE as int,
            );
            vstd::arithmetic::mul::lemma_mul_inequality(
                abs_spec(v.z as int),
                l as int,
                SCALE as int,
            );
            vstd::arithmetic::div_mod::lemma_div_is_ordered(
                abs_spec(v.x as int) * (SCALE as int),
                (l as int) * (SCALE as int),
                l as int,
            );
            vstd::arithmetic::div_mod::lemma_div_is_ordered(
                abs_spec(v.y as int) * (SCALE as int),
                (l as int) * (SCALE as int),
                l as int,
            );
            vstd::arithmetic::div_mod::lemma_div_is_ordered(
                abs_spec(v.z as int) * (SCALE as int),
                (l as int) * (SCALE as int),
                l as int,
            );
            vstd::arithmetic::div_mod::lemma_div_multiples_vanish(SCALE as int, l as int);
            assert((l as int) * (SCALE as int) == (l as int) * (SCALE as int));
        }
        let x = fx_tdiv(v.x * SCALE, l);
        let y = fx_tdiv(v.y * SCALE, l);
        let z = fx_tdiv(v.z * SCALE, l);
        Vec3 { x, y, z }
    }
}

/// How far the normal estimator probes along each axis: well above the
/// fixed-point grid, so the differences carry direction before they are
/// rescaled to unit length.
pub const NORMAL_PROBE: i64 = 16;

/// The surface normal estimated by central differences of the field,
/// probed `NORMAL_PROBE` units along each axis, rescaled to unit length.
pub open spec fn normal_spec(s: Scene, p: Vec3) -> Vec3 {
    let h = NORMAL_PROBE as int;
    let dx = map_spec(s, Vec3 { x: (p.x + h) as i64, y: p.y, z: p.z }) - map_spec(
        s,
        Vec3 { x: (p.x - h) as i64, y: p.y, z: p.z },
    );
    let dy = map_spec(s, Vec3 { x: p.x, y: (p.y + h) as i64, z: p.z }) - map_spec(
        s,
        Vec3 { x: p.x, y: (p.y - h) as i64, z: p.z },
    );
    let dz = map_spec(s, Vec3 { x: p.x, y: p.y, z: (p.z + h) as i64 }) - map_spec(
        s,
        Vec3 { x: p.x, y: p.y, z: (p.z - h) as i64 },
    );
    vnormalize_spec(Vec3 { x: dx as i64, y: dy as i64, z: dz as i64 })
}

/// Estimate the surface normal at `p` by central differences of the field.
pub fn normal(scene: &Scene, p: Vec3) -> (n: Vec3)
    requires
        scene_wf(*scene),
        in_box(p, 600_000_000),
    ensures
        n == normal_spec(*scene, p),
        in_box(n, SCALE as int),
{
    let h = NORMAL_PROBE;
    let dx = map(scene, Vec3 { x: p.x + h, y: p.y, z: p.z }) - map(
        scene,
        Vec3 { x: p.x - h, y: p.y, z: p.z },
    );
    let dy = map(scene, Vec3 { x: p.x, y: p.y + h, z: p.z }) - map(
        scene,
        Vec3 { x: p.x, y: p.y - h, z: p.z },
    );
    let dz = map(scene, Vec3 { x: p.x, y: p.y, z: p.z + h }) - map(
        scene,
        Vec3 { x: p.x, y: p.y, z: p.z - h },
    );
    vnormalize(Vec3 { x: dx, y: dy, z: dz })
}

/// One marched coordinate from a unit-length direction stays in the box,
/// also a little behind the origin (a converged hit can land there when
/// the march started inside a surface).
proof fn lemma_hit_coord_bound(o: int, dir: int, t: int)
    requires
        -(ORIGIN_LIMIT as int) <= o <= ORIGIN_LIMIT as int,
        -(SCALE as int) <= dir <= SCALE as int,
        -110_000_000 <= t <= T_FAR as int,
    ensures
        -600_000_000 <= o + tdiv_spec(t * dir, SCALE as int) <= 600_000_000,
{
    assert(abs_spec(t * dir) <= 500_000_000_000) by (nonlinear_arith)
        requires
            -1_000 <= dir <= 1_000,
            -110_000_000 <= t <= 500_000_000,
    ;
    let q = tdiv_spec(t * dir, SCALE as int);
    vstd::arithmetic::div_mod::lemma_div_pos_is_pos(abs_spec(t * dir), SCALE as int);
    vstd::arithmetic::div_mod::lemma_div_is_ordered(abs_spec(t * dir), 500_000_000_000, 1000);
    assert(abs_spec(q) == abs_spec(t * dir) / (SCALE as int));
    assert(500_000_000_000int / 1000 == 500_000_000);
}

/// The point a converged march landed on (the marched distance may be
/// slightly negative when the ray began inside a surface).
pub fn hit_point(r: &Ray, t: i64) -> (p: Vec3)
    requires
        in_box(r.origin, ORIGIN_LIMIT as int),
        in_box(r.dir, SCALE as int),
        -110_000_000 <= t <= T_FAR,
    ensures
        p == ray_point_spec(*r, t as int),
        in_box(p, 600_000_000),
{
    proof {
        lemma_hit_coord_bound(r.origin.x as int, r.dir.x as int, t as int);
        lemma_hit_coord_bound(r.origin.y as int, r.dir.y as int, t as int);
        lemma_hit_coord_bound(r.origin.z as int, r.dir.z as int, t as int);
    }
    let x = r.origin.x + fx_tdiv(t * r.dir.x, SCALE);
    let y = r.origin.y + fx_tdiv(t * r.dir.y, SCALE);
    let z = r.origin.z + fx_tdiv(t * r.dir.z, SCALE);
    Vec3 { x, y, z }
}

/// Along the axis ray from `(0, 0, -depth)` straight toward `+z`, over a
/// scene holding one origin-centred sphere, the field at marched distance
/// `t` is exactly `|t - depth| - rad`.
proof fn lemma_axis_map(scene: Scene, ray: Ray, rad: i64, depth: i64, t: int)
    requires
        0 < rad <= RAD_LIMIT,
        0 < depth <= T_FAR,
        scene.spheres@.len() == 1,
        scene.spikes@.len() == 0,
        scene.spheres@[0] == (Sphere { center: Vec3 { x: 0, y: 0, z: 0 }, radius: rad }),
        ray.origin == (Vec3 { x: 0, y: 0, z: (-depth) as i64 }),
        ray.dir == (Vec3 { x: 0, y: 0, z: SCALE }),
        0 <= t <= T_FAR,
    ensures
        map_spec(scene, ray_point_spec(ray, t)) == abs_spec(t - depth) - rad,
{
    vstd::arithmetic::div_mod::lemma_div_multiples_vanish(t, SCALE as int);
    assert(t * (SCALE as int) == (SCALE as int) * t);
    assert(tdiv_spec(t * (SCALE as int), SCALE as int) == t);
    assert(tdiv_spec(t * 0, SCALE as int) == 0);
    let p = ray_point_spec(ray, t);
    assert(p == (Vec3 { x: 0int as i64, y: 0int as i64, z: (t - depth) as i64 }));
    let q = vsub_spec(p, Vec3 { x: 0, y: 0, z: 0 });
    assert(q == p);
    let a = abs_spec(t - depth);
    assert(norm2_spec(q) == a * a) by (nonlinear_arith)
        requires
            q.x == 0 && q.y == 0 && q.z == t - depth && a == abs_spec(t - depth),
    ;
    lemma_isqrt_square(a);
    assert(vlen_spec(q) == a);
    assert(map_spec(scene, p) == map_prefix_spec(scene.spheres@, scene.blend as int, p, 1));
}

/// Raymarching a lone sphere of radius `rad` centred at the origin, head
/// on from `(0, 0, -depth)` straight along `+z` with `depth > rad`,
/// converges to exactly the hit distance `depth - rad` — in particular
/// within the convergence threshold.
pub proof fn lemma_march_hits_sphere(scene: Scene, ray: Ray, rad: i64, depth: i64)
    requires
        0 < rad <= RAD_LIMIT,
        rad < depth <= T_FAR,
        scene.spheres@.len() == 1,
        scene.spikes@.len() == 0,
        scene.spheres@[0] == (Sphere { center: Vec3 { x: 0, y: 0, z: 0 }, radius: rad }),
        ray.origin == (Vec3 { x: 0, y: 0, z: (-depth) as i64 }),
        ray.dir == (Vec3 { x: 0, y: 0, z: SCALE }),
    ensures
        march_spec(scene, ray) == Some(depth - rad as int),
{
    let t1 = depth - rad;
    lemma_axis_map(scene, ray, rad, depth, 0);
    assert(map_spec(scene, ray_point_spec(ray, 0)) == depth - rad);
    lemma_axis_map(scene, ray, rad, depth, t1 as int);
    assert(map_spec(scene, ray_point_spec(ray, t1 as int)) == 0);
    assert(march_from_spec(scene, ray, 0, STEP_CAP as nat) == march_from_spec(
        scene,
        ray,
        t1 as int,
        (STEP_CAP - 1) as nat,
    ));
    assert(march_from_spec(scene, ray, t1 as int, (STEP_CAP - 1) as nat) == Some(t1 as int));
}

/// A ray whose every point stays at least the convergence threshold away
/// from the scene's surfaces never converges, whatever fuel remains.
pub proof fn lemma_march_from_misses(scene: Scene, ray: Ray, t: int, fuel: nat)
    requires
        forall|u: int| 0 <= u ==> #[trigger] map_spec(scene, ray_point_spec(ray, u)) >= EPS,
        t >= 0,
    ensures
        march_from_spec(scene, ray, t, fuel) is None,
    decreases fuel,
{
    if fuel > 0 {
        let d = map_spec(scene, ray_point_spec(ray, t));
        assert(d >= EPS);
        if t + d <= T_FAR {
            lemma_march_from_misses(scene, ray, t + d, (fuel - 1) as nat);
        }
    }
}

/// No false positive convergence: a ray whose closest approach to every
/// surface of the scene never drops below the convergence threshold — so
/// no number of capped steps could close the gap — yields background.
pub proof fn lemma_march_misses(scene: Scene, ray: Ray)
    requires
        forall|u: int| 0 <= u ==> #[trigger] map_spec(scene, ray_point_spec(ray, u)) >= EPS,
    ensures
        march_spec(scene, ray) is None,
{
    lemma_march_from_misses(scene, ray, 0, STEP_CAP as nat);
}

} // verus!
