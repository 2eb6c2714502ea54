//! The first-person portal renderer.
//!
//! All arithmetic is integer-only: camera-space coordinates are Q14
//! fixed point (16384 stands for 1.0), computed from the Q14 sines of
//! the player's angle, so a render is a pure function of the level and
//! player state. Walls are projected into vertical pixel columns;
//! per-column coverage (see `Coverage`) makes every pixel be painted at
//! most once and stops the sector traversal once the frame is full.

use crate::controller::{spec_abs, spec_div_trunc, spec_pair_yielded};
use crate::coverage::Coverage;
use crate::frame::Frame;
use crate::interval::Interval;
use crate::player::Player;
use crate::Level;
use crate::sector::{spec_chain, spec_run_len, Sector, Wall};
use crate::trig::{dir_cos, dir_sin, spec_dir_cos, spec_dir_sin};
use vstd::arithmetic::div_mod::{
    lemma_div_is_ordered, lemma_div_is_ordered_by_denominator, lemma_div_multiples_vanish,
};
use vstd::prelude::*;

verus! {

broadcast use vstd::seq_lib::group_to_multiset_ensures;

/// Near-plane distance in Q14: about 1.2e-4 view units.
pub const NEAR_EPS: i64 = 2;

/// Q14 one.
pub const UNIT: i64 = 16384;

/// The camera: the player position and the Q14 direction of its view
/// angle. Applying it to a world point subtracts the position, rotates
/// the world into view axes and scales by the magic axis factors.
#[derive(Debug, PartialEq, Eq, Structural, Copy, Clone)]
pub struct Camera {
    pub px: i64,
    pub py: i64,
    pub pz: i64,
    pub sin: i64,
    pub cos: i64,
}

/// A camera-space point in Q14; `y` is depth along the view axis.
#[derive(Debug, PartialEq, Eq, Structural, Copy, Clone)]
pub struct CamVert {
    pub x: i64,
    pub y: i64,
    pub z: i64,
}

/// The camera standing at `p`.
pub open spec fn spec_camera(p: Player) -> Camera {
    Camera {
        px: p.pos_x as i64,
        py: p.pos_y as i64,
        pz: p.pos_z as i64,
        sin: spec_dir_sin(p.angle) as i64,
        cos: spec_dir_cos(p.angle) as i64,
    }
}

/// A camera is well formed when its direction is a Q14 unit pair and its
/// position is in the 32-bit world range.
pub open spec fn spec_camera_wf(c: Camera) -> bool {
    &&& -16384 <= c.sin <= 16384
    &&& -16384 <= c.cos <= 16384
    &&& i32::MIN <= c.px <= i32::MAX
    &&& i32::MIN <= c.py <= i32::MAX
    &&& i32::MIN <= c.pz <= i32::MAX
}

/// World point to camera space: translate, rotate by the inverse view
/// rotation, scale axes by `(-1/6000, 1/8000, 1/60000)`, all in Q14.
pub open spec fn spec_cam_point(c: Camera, wx: int, wy: int, wz: int) -> CamVert {
    let dx = wx - c.px;
    let dy = wy - c.py;
    let dz = wz - c.pz;
    let x1 = dx * c.cos + dy * c.sin;
    let y1 = dy * c.cos - dx * c.sin;
    CamVert {
        x: spec_div_trunc(0 - x1, 6000) as i64,
        y: spec_div_trunc(y1, 8000) as i64,
        z: spec_div_trunc(dz * 16384, 60000) as i64,
    }
}

/// Components of a transformed point stay below 2^47.
pub open spec fn spec_cam_vert_bounded(v: CamVert) -> bool {
    &&& spec_abs(v.x as int) < 0x800000000000
    &&& spec_abs(v.y as int) < 0x800000000000
    &&& spec_abs(v.z as int) < 0x800000000000
}

/// A Q14 direction component times a 33-bit difference stays below 2^47.
proof fn lemma_dir_mul_bound(a: int, b: int)
    requires
        -16384 <= a <= 16384,
        -0x100000000 <= b <= 0x100000000,
    ensures
        spec_abs(a * b) <= 0x400000000000,
{
    assert(spec_abs(a * b) <= 0x400000000000) by (nonlinear_arith)
        requires
            -16384 <= a <= 16384,
            -0x100000000 <= b <= 0x100000000,
    ;
}

/// Truncating division shrinks the magnitude for divisors of at least
/// one.
proof fn lemma_div_trunc_abs_le(a: int, b: int)
    requires
        b >= 1,
    ensures
        spec_abs(spec_div_trunc(a, b)) <= spec_abs(a),
        a >= 0 ==> spec_div_trunc(a, b) >= 0,
        a <= 0 ==> spec_div_trunc(a, b) <= 0,
{
    if a >= 0 {
        lemma_div_is_ordered(0, a, b);
        lemma_div_multiples_vanish(0, b);
        lemma_div_is_ordered_by_denominator(a, 1, b);
    } else {
        lemma_div_is_ordered(0, -a, b);
        lemma_div_multiples_vanish(0, b);
        lemma_div_is_ordered_by_denominator(-a, 1, b);
    }
}

/// Truncating division by a positive divisor, exec form.
fn div_trunc(a: i64, b: i64) -> (r: i64)
    requires
        b >= 1,
        a > i64::MIN,
    ensures
        r == spec_div_trunc(a as int, b as int),
        spec_abs(r as int) <= spec_abs(a as int),
{
    proof {
        lemma_div_trunc_abs_le(a as int, b as int);
    }
    if a >= 0 {
        a / b
    } else {
        -((-a) / b)
    }
}

/// Build the camera of a player.
pub fn camera_of(p: &Player) -> (r: Camera)
    ensures
        r == spec_camera(*p),
        spec_camera_wf(r),
{
    Camera {
        px: p.pos_x as i64,
        py: p.pos_y as i64,
        pz: p.pos_z as i64,
        sin: dir_sin(&p.angle),
        cos: dir_cos(&p.angle),
    }
}

/// Transform one world point into camera space.
fn cam_point(c: &Camera, wx: i32, wy: i32, wz: i64) -> (r: CamVert)
    requires
        spec_camera_wf(*c),
        i32::MIN <= wz <= i32::MAX,
    ensures
        r == spec_cam_point(*c, wx as int, wy as int, wz as int),
        spec_cam_vert_bounded(r),
{
    let dx: i64 = (wx as i64) - c.px;
    let dy: i64 = (wy as i64) - c.py;
    let dz: i64 = wz - c.pz;
    proof {
        lemma_dir_mul_bound(c.cos as int, dx as int);
        lemma_dir_mul_bound(c.sin as int, dy as int);
        lemma_dir_mul_bound(c.cos as int, dy as int);
        lemma_dir_mul_bound(c.sin as int, dx as int);
        lemma_dir_mul_bound(16384, dz as int);
    }
    let x1: i64 = dx * c.cos + dy * c.sin;
    let y1: i64 = dy * c.cos - dx * c.sin;
    let x = div_trunc(0 - x1, 6000);
    let y = div_trunc(y1, 8000);
    let z = div_trunc(dz * 16384, 60000);
    CamVert { x, y, z }
}

/// All components of a camera vertex within `m`.
pub open spec fn spec_vert_within(v: CamVert, m: int) -> bool {
    &&& spec_abs(v.x as int) <= m
    &&& spec_abs(v.y as int) <= m
    &&& spec_abs(v.z as int) <= m
}

/// A normalized (post-divide) vertex: `x` horizontal, `z` vertical, in
/// Q14 view units.
#[derive(Debug, PartialEq, Eq, Structural, Copy, Clone)]
pub struct NVert {
    pub x: i64,
    pub z: i64,
}

/// A framebuffer-space vertex.
#[derive(Debug, PartialEq, Eq, Structural, Copy, Clone)]
pub struct PixVert {
    pub x: i64,
    pub y: i64,
}

/// The product of values within `ma` and `mb` is within `ma * mb`.
proof fn lemma_mul_abs_bound(a: int, b: int, ma: int, mb: int)
    requires
        spec_abs(a) <= ma,
        spec_abs(b) <= mb,
    ensures
        spec_abs(a * b) <= ma * mb,
{
    assert(spec_abs(a * b) <= ma * mb) by (nonlinear_arith)
        requires
            spec_abs(a) <= ma,
            spec_abs(b) <= mb,
    ;
}

/// Interpolating a span by `n/d` with `0 <= n <= d` never grows it.
proof fn lemma_lerp_shrink(x: int, n: int, d: int)
    requires
        0 <= n <= d,
        1 <= d,
    ensures
        spec_abs(spec_div_trunc(x * n, d)) <= spec_abs(x),
{
    assert(spec_abs(x * n) <= spec_abs(x) * d) by (nonlinear_arith)
        requires
            0 <= n <= d,
            1 <= d,
    ;
    lemma_div_trunc_abs_le(x * n, d);
    assert(spec_abs(x) * d == d * spec_abs(x)) by (nonlinear_arith);
    assert((d * spec_abs(x)) / d == spec_abs(x)) by {
        lemma_div_multiples_vanish(spec_abs(x), d);
    }
    if x * n >= 0 {
        lemma_div_is_ordered(x * n, spec_abs(x) * d, d);
    } else {
        lemma_div_is_ordered(-(x * n), spec_abs(x) * d, d);
    }
}

/// Truncating division on 128 bits, positive divisor.
fn div_trunc_i128(a: i128, b: i128) -> (r: i128)
    requires
        b >= 1,
        a > i128::MIN,
    ensures
        r == spec_div_trunc(a as int, b as int),
{
    if a >= 0 {
        a / b
    } else {
        -((-a) / b)
    }
}

/// The point of the segment `a -> b` whose `y` is exactly `e`, by linear
/// interpolation with the truncating parameter `(e - a.y) / (b.y - a.y)`.
pub open spec fn spec_lerp_y(a: CamVert, b: CamVert, e: int) -> CamVert {
    let d = b.y - a.y;
    let n = e - a.y;
    CamVert {
        x: (a.x + spec_div_trunc((b.x - a.x) * n, d)) as i64,
        y: e as i64,
        z: (a.z + spec_div_trunc((b.z - a.z) * n, d)) as i64,
    }
}

/// Clip the segment `l -> r` against the near plane `y = e`: when the
/// plane strictly separates the endpoints, the endpoint in front of it
/// (smaller `y`) is replaced by the plane intersection.
pub open spec fn spec_clip_y(l: CamVert, r: CamVert, e: int) -> (CamVert, CamVert) {
    if l.y < e && e < r.y {
        (spec_lerp_y(l, r, e), r)
    } else if r.y < e && e < l.y {
        (l, spec_lerp_y(r, l, e))
    } else {
        (l, r)
    }
}

/// Exec near-plane clip of one vertex pair.
fn clip_pair_y(l: CamVert, r: CamVert, m: Ghost<int>) -> (res: (CamVert, CamVert))
    requires
        2 <= m@ <= 0x800000000000,
        spec_vert_within(l, m@),
        spec_vert_within(r, m@),
    ensures
        res == spec_clip_y(l, r, NEAR_EPS as int),
        spec_vert_within(res.0, 3 * m@),
        spec_vert_within(res.1, 3 * m@),
{
    if l.y < NEAR_EPS && NEAR_EPS < r.y {
        (lerp_y(l, r, m), r)
    } else if r.y < NEAR_EPS && NEAR_EPS < l.y {
        (l, lerp_y(r, l, m))
    } else {
        (l, r)
    }
}

/// Exec interpolation to the near plane.
fn lerp_y(a: CamVert, b: CamVert, m: Ghost<int>) -> (res: CamVert)
    requires
        2 <= m@ <= 0x800000000000,
        spec_vert_within(a, m@),
        spec_vert_within(b, m@),
        a.y < NEAR_EPS < b.y,
    ensures
        res == spec_lerp_y(a, b, NEAR_EPS as int),
        spec_vert_within(res, 3 * m@),
{
    let d: i128 = (b.y as i128) - (a.y as i128);
    let n: i128 = (NEAR_EPS as i128) - (a.y as i128);
    proof {
        lemma_lerp_shrink((b.x - a.x) as int, n as int, d as int);
        lemma_lerp_shrink((b.y - a.y) as int, n as int, d as int);
        lemma_lerp_shrink((b.z - a.z) as int, n as int, d as int);
        lemma_mul_abs_bound((b.x - a.x) as int, n as int, 2 * m@, 2 * m@);
        lemma_mul_abs_bound((b.y - a.y) as int, n as int, 2 * m@, 2 * m@);
        lemma_mul_abs_bound((b.z - a.z) as int, n as int, 2 * m@, 2 * m@);
        assert(spec_abs(n as int) <= 2 * m@);
        assert(spec_abs(d as int) <= 2 * m@);
        assert(4 * m@ * m@ <= 0x10000000000000000000000000) by (nonlinear_arith)
            requires
                0 < m@ <= 0x800000000000,
        ;
        assert(2 * m@ * (2 * m@) <= 4 * m@ * m@) by (nonlinear_arith);
    }
    let dx: i128 = ((b.x as i128) - (a.x as i128)) * n;
    let dyv: i128 = ((b.y as i128) - (a.y as i128)) * n;
    let dz: i128 = ((b.z as i128) - (a.z as i128)) * n;
    let x: i64 = (a.x as i128 + div_trunc_i128(dx, d)) as i64;
    let y: i64 = (a.y as i128 + div_trunc_i128(dyv, d)) as i64;
    let z: i64 = (a.z as i128 + div_trunc_i128(dz, d)) as i64;
    proof {
        let dd = (b.y - a.y) as int;
        let nn = (NEAR_EPS - a.y) as int;
        assert(dd * nn >= 0) by (nonlinear_arith)
            requires
                dd > 0,
                nn >= 0,
        ;
        assert(spec_div_trunc(dd * nn, dd) == nn) by {
            lemma_div_multiples_vanish(nn, dd);
        }
    }
    CamVert { x, y, z }
}

/// The magnitude of a truncating quotient is the Euclidean quotient of
/// the magnitude.
proof fn lemma_div_trunc_abs_eq(a: int, b: int)
    requires
        b >= 1,
    ensures
        spec_abs(spec_div_trunc(a, b)) == spec_abs(a) / b,
{
    if a >= 0 {
        lemma_div_is_ordered(0, a, b);
        lemma_div_multiples_vanish(0, b);
    } else {
        lemma_div_is_ordered(0, -a, b);
        lemma_div_multiples_vanish(0, b);
    }
}

/// Saturate a normalized coordinate into the working range.
pub open spec fn spec_clamp_coord(a: int) -> int {
    if a > 0x40000000 {
        0x40000000
    } else if a < -0x40000000 {
        -0x40000000
    } else {
        a
    }
}

/// Perspective divide: horizontal and vertical view coordinates divided
/// by depth, in Q14, saturated into the working range.
pub open spec fn spec_persp(v: CamVert) -> NVert {
    NVert {
        x: spec_clamp_coord(spec_div_trunc(v.x * 16384, v.y as int)) as i64,
        z: spec_clamp_coord(spec_div_trunc(v.z * 16384, v.y as int)) as i64,
    }
}

/// Exec perspective divide.
fn persp(v: CamVert, m: Ghost<int>) -> (r: NVert)
    requires
        1 <= v.y,
        2 <= m@ <= 0x4000000000000,
        spec_vert_within(v, m@),
    ensures
        r == spec_persp(v),
        spec_abs(r.x as int) <= 0x40000000,
        spec_abs(r.z as int) <= 0x40000000,
{
    proof {
        lemma_mul_abs_bound(v.x as int, 16384, m@, 16384);
        lemma_mul_abs_bound(v.z as int, 16384, m@, 16384);
        assert(m@ * 16384 <= 0x10000000000000000);
    }
    let xq: i128 = div_trunc_i128((v.x as i128) * 16384, v.y as i128);
    let zq: i128 = div_trunc_i128((v.z as i128) * 16384, v.y as i128);
    let x: i64 = if xq > 0x40000000 {
        0x40000000
    } else if xq < -0x40000000 {
        -0x40000000
    } else {
        xq as i64
    };
    let z: i64 = if zq > 0x40000000 {
        0x40000000
    } else if zq < -0x40000000 {
        -0x40000000
    } else {
        zq as i64
    };
    NVert { x, z }
}

/// The point of the segment `a -> b` whose `x` is exactly `e`.
pub open spec fn spec_lerp_x(a: NVert, b: NVert, e: int) -> NVert {
    let d = b.x - a.x;
    let n = e - a.x;
    NVert { x: e as i64, z: (a.z + spec_div_trunc((b.z - a.z) * n, d)) as i64 }
}

/// Clip against the left view edge `x = e`: an endpoint strictly left of
/// a crossing edge moves onto it.
pub open spec fn spec_clip_x_lo(l: NVert, r: NVert, e: int) -> (NVert, NVert) {
    if l.x < e && e < r.x {
        (spec_lerp_x(l, r, e), r)
    } else if r.x < e && e < l.x {
        (l, spec_lerp_x(r, l, e))
    } else {
        (l, r)
    }
}

/// Clip against the right view edge `x = e`: an endpoint strictly right
/// of a crossing edge moves onto it.
pub open spec fn spec_clip_x_hi(l: NVert, r: NVert, e: int) -> (NVert, NVert) {
    if r.x < e && e < l.x {
        (spec_lerp_x(r, l, e), r)
    } else if l.x < e && e < r.x {
        (l, spec_lerp_x(l, r, e))
    } else {
        (l, r)
    }
}

/// Both clips applied, left then right.
pub open spec fn spec_clip_x(l: NVert, r: NVert) -> (NVert, NVert) {
    let lo = spec_clip_x_lo(l, r, NEAR_EPS - UNIT);
    spec_clip_x_hi(lo.0, lo.1, UNIT - NEAR_EPS)
}

/// Exec interpolation to a vertical view edge; `a` is the endpoint with
/// the smaller `x`.
fn lerp_x(a: NVert, b: NVert, e: i64, m: Ghost<int>) -> (r: NVert)
    requires
        2 <= m@ <= 0x200000000,
        spec_abs(a.x as int) <= m@,
        spec_abs(b.x as int) <= m@,
        spec_abs(a.z as int) <= m@,
        spec_abs(b.z as int) <= m@,
        a.x < e < b.x,
        spec_abs(e as int) <= m@,
    ensures
        r == spec_lerp_x(a, b, e as int),
        r.x == e,
        spec_abs(r.z as int) <= 3 * m@,
{
    let d: i128 = (b.x as i128) - (a.x as i128);
    let n: i128 = (e as i128) - (a.x as i128);
    proof {
        lemma_lerp_shrink((b.z - a.z) as int, n as int, d as int);
        lemma_mul_abs_bound((b.z - a.z) as int, n as int, 2 * m@, 2 * m@);
        assert(2 * m@ * (2 * m@) <= 0x100000000000000000) by (nonlinear_arith)
            requires
                0 < m@ <= 0x200000000,
        ;
    }
    let dz: i128 = ((b.z as i128) - (a.z as i128)) * n;
    let z: i64 = (a.z as i128 + div_trunc_i128(dz, d)) as i64;
    NVert { x: e, z }
}

/// Exec clip of one pair against both vertical view edges.
fn clip_pair_x(l: NVert, r: NVert, m: Ghost<int>) -> (res: (NVert, NVert))
    requires
        0x4000 <= m@ <= 0x80000000,
        spec_abs(l.x as int) <= m@,
        spec_abs(l.z as int) <= m@,
        spec_abs(r.x as int) <= m@,
        spec_abs(r.z as int) <= m@,
    ensures
        res == spec_clip_x(l, r),
        spec_abs(res.0.x as int) <= m@,
        spec_abs(res.0.z as int) <= 9 * m@,
        spec_abs(res.1.x as int) <= m@,
        spec_abs(res.1.z as int) <= 9 * m@,
{
    let e_lo: i64 = NEAR_EPS - UNIT;
    let e_hi: i64 = UNIT - NEAR_EPS;
    let (l1, r1) = if l.x < e_lo && e_lo < r.x {
        (lerp_x(l, r, e_lo, m), r)
    } else if r.x < e_lo && e_lo < l.x {
        (l, lerp_x(r, l, e_lo, m))
    } else {
        (l, r)
    };
    let ghost m3 = 3 * m@;
    let (l2, r2) = if r1.x < e_hi && e_hi < l1.x {
        (lerp_x(r1, l1, e_hi, Ghost(m3)), r1)
    } else if l1.x < e_hi && e_hi < r1.x {
        (l1, lerp_x(l1, r1, e_hi, Ghost(m3)))
    } else {
        (l1, r1)
    };
    (l2, r2)
}

/// Viewport transform: Q14 view coordinates to pixel coordinates, the
/// visible square `[-1, 1]` mapped onto `320 x 200`.
pub open spec fn spec_viewport(v: NVert) -> PixVert {
    PixVert {
        x: spec_div_trunc((v.x + 16384) * 320, 32768) as i64,
        y: spec_div_trunc((v.z + 16384) * 200, 32768) as i64,
    }
}

/// Exec viewport transform.
fn viewport(v: NVert, m: Ghost<int>) -> (r: PixVert)
    requires
        0x4000 <= m@ <= 0x800000000,
        spec_abs(v.x as int) <= m@,
        spec_abs(v.z as int) <= m@,
    ensures
        r == spec_viewport(v),
        spec_abs(r.x as int) <= 0x20000000,
        spec_abs(r.y as int) <= 0x20000000,
{
    proof {
        lemma_div_trunc_abs_eq(((v.x + 16384) * 320) as int, 32768);
        lemma_div_trunc_abs_eq(((v.z + 16384) * 200) as int, 32768);
        lemma_div_is_ordered(spec_abs(((v.x + 16384) * 320) as int), 0x100000000000, 32768);
        lemma_div_is_ordered(spec_abs(((v.z + 16384) * 200) as int), 0x100000000000, 32768);
        assert(0x100000000000int / 32768 == 0x20000000);
    }
    let x: i64 = div_trunc((v.x + 16384) * 320, 32768);
    let y: i64 = div_trunc((v.z + 16384) * 200, 32768);
    PixVert { x, y }
}

/// A wall projected into pixel space: outer quad, portal cutout quad,
/// and the front-to-back sort key.
#[derive(Debug, PartialEq, Eq, Structural, Copy, Clone)]
pub struct ProjWall {
    pub tl: PixVert,
    pub tr: PixVert,
    pub bl: PixVert,
    pub br: PixVert,
    pub pt_l: PixVert,
    pub pt_r: PixVert,
    pub pb_l: PixVert,
    pub pb_r: PixVert,
    pub key: i128,
}

/// Squared distance of a camera-space point from the eye.
pub open spec fn spec_norm2(v: CamVert) -> int {
    v.x * v.x + v.y * v.y + v.z * v.z
}

/// Pixel coordinates of a projected wall stay in the working range, and
/// its top edge runs left to right.
pub open spec fn spec_projwall_wf(w: ProjWall) -> bool {
    &&& w.tl.x <= w.tr.x
    &&& spec_abs(w.tl.x as int) <= 0x20000000
    &&& spec_abs(w.tr.x as int) <= 0x20000000
    &&& spec_abs(w.tl.y as int) <= 0x20000000
    &&& spec_abs(w.tr.y as int) <= 0x20000000
    &&& spec_abs(w.bl.y as int) <= 0x20000000
    &&& spec_abs(w.br.y as int) <= 0x20000000
    &&& spec_abs(w.pt_l.y as int) <= 0x20000000
    &&& spec_abs(w.pt_r.y as int) <= 0x20000000
    &&& spec_abs(w.pb_l.y as int) <= 0x20000000
    &&& spec_abs(w.pb_r.y as int) <= 0x20000000
}

/// Project one wall of `sec` (endpoints `lw`, `rw`) into pixel space.
/// `nsec` is the sector behind the wall when it is a portal. `None`
/// when the wall is wholly behind the near plane, leaves the view to a
/// side, or faces away from the camera. Kept opaque: callers reason
/// about projections only through equalities.
#[verifier::opaque]
pub open spec fn spec_project(
    c: Camera,
    lw: Wall,
    rw: Wall,
    sec: Sector,
    nsec: Option<Sector>,
) -> Option<ProjWall> {
    let tl0 = spec_cam_point(c, lw.x as int, lw.y as int, sec.ceiling_z as int);
    let tr0 = spec_cam_point(c, rw.x as int, rw.y as int, sec.ceiling_z as int);
    if tl0.y < NEAR_EPS && tr0.y < NEAR_EPS {
        None
    } else {
        let ptz: int = if nsec is Some {
            nsec->0.ceiling_z as int
        } else {
            sec.ceiling_z as int
        };
        let pbz: int = if nsec is Some {
            nsec->0.floor_z as int
        } else {
            sec.floor_z as int
        };
        let bl0 = spec_cam_point(c, lw.x as int, lw.y as int, sec.floor_z as int);
        let br0 = spec_cam_point(c, rw.x as int, rw.y as int, sec.floor_z as int);
        let ptl0 = spec_cam_point(c, lw.x as int, lw.y as int, ptz);
        let ptr0 = spec_cam_point(c, rw.x as int, rw.y as int, ptz);
        let pbl0 = spec_cam_point(c, lw.x as int, lw.y as int, pbz);
        let pbr0 = spec_cam_point(c, rw.x as int, rw.y as int, pbz);
        let top = spec_clip_y(tl0, tr0, NEAR_EPS as int);
        let bot = spec_clip_y(bl0, br0, NEAR_EPS as int);
        let pt = spec_clip_y(ptl0, ptr0, NEAR_EPS as int);
        let pb = spec_clip_y(pbl0, pbr0, NEAR_EPS as int);
        if top.0.y < NEAR_EPS || top.1.y < NEAR_EPS || bot.0.y < NEAR_EPS || bot.1.y < NEAR_EPS
            || pt.0.y < NEAR_EPS || pt.1.y < NEAR_EPS || pb.0.y < NEAR_EPS || pb.1.y < NEAR_EPS {
            None
        } else {
            let key = if spec_norm2(top.0) <= spec_norm2(top.1) {
                spec_norm2(top.0)
            } else {
                spec_norm2(top.1)
            };
            let tln = spec_persp(top.0);
            let trn = spec_persp(top.1);
            if tln.x > UNIT - NEAR_EPS || trn.x < NEAR_EPS - UNIT {
                None
            } else {
                let bln = spec_persp(bot.0);
                let brn = spec_persp(bot.1);
                let ptln = spec_persp(pt.0);
                let ptrn = spec_persp(pt.1);
                let pbln = spec_persp(pb.0);
                let pbrn = spec_persp(pb.1);
                let topx = spec_clip_x(tln, trn);
                let botx = spec_clip_x(bln, brn);
                let ptx = spec_clip_x(ptln, ptrn);
                let pbx = spec_clip_x(pbln, pbrn);
                let tlp = spec_viewport(topx.0);
                let trp = spec_viewport(topx.1);
                if tlp.x > trp.x {
                    None
                } else {
                    Some(
                        ProjWall {
                            tl: tlp,
                            tr: trp,
                            bl: spec_viewport(botx.0),
                            br: spec_viewport(botx.1),
                            pt_l: spec_viewport(ptx.0),
                            pt_r: spec_viewport(ptx.1),
                            pb_l: spec_viewport(pbx.0),
                            pb_r: spec_viewport(pbx.1),
                            key: key as i128,
                        },
                    )
                }
            }
        }
    }
}

/// Exec form of `spec_project`.
pub fn project_wall(
    c: &Camera,
    lw: &Wall,
    rw: &Wall,
    sec: &Sector,
    nsec: Option<&Sector>,
) -> (r: Option<ProjWall>)
    requires
        spec_camera_wf(*c),
    ensures
        r == spec_project(
            *c,
            *lw,
            *rw,
            *sec,
            match nsec {
                Some(s) => Some(*s),
                None => None,
            },
        ),
        r matches Some(w) ==> spec_projwall_wf(w),
{
    proof {
        reveal(spec_project);
    }
    let ghost m0: int = 0x800000000000;
    let ghost m1: int = 3 * m0;
    let tl0 = cam_point(c, lw.x, lw.y, sec.ceiling_z as i64);
    let tr0 = cam_point(c, rw.x, rw.y, sec.ceiling_z as i64);
    if tl0.y < NEAR_EPS && tr0.y < NEAR_EPS {
        return None;
    }
    let ptz: i64 = match nsec {
        Some(n) => n.ceiling_z as i64,
        None => sec.ceiling_z as i64,
    };
    let pbz: i64 = match nsec {
        Some(n) => n.floor_z as i64,
        None => sec.floor_z as i64,
    };
    let bl0 = cam_point(c, lw.x, lw.y, sec.floor_z as i64);
    let br0 = cam_point(c, rw.x, rw.y, sec.floor_z as i64);
    let ptl0 = cam_point(c, lw.x, lw.y, ptz);
    let ptr0 = cam_point(c, rw.x, rw.y, ptz);
    let pbl0 = cam_point(c, lw.x, lw.y, pbz);
    let pbr0 = cam_point(c, rw.x, rw.y, pbz);
    let (tl1, tr1) = clip_pair_y(tl0, tr0, Ghost(m0));
    let (bl1, br1) = clip_pair_y(bl0, br0, Ghost(m0));
    let (ptl1, ptr1) = clip_pair_y(ptl0, ptr0, Ghost(m0));
    let (pbl1, pbr1) = clip_pair_y(pbl0, pbr0, Ghost(m0));
    if tl1.y < NEAR_EPS || tr1.y < NEAR_EPS || bl1.y < NEAR_EPS || br1.y < NEAR_EPS
        || ptl1.y < NEAR_EPS || ptr1.y < NEAR_EPS || pbl1.y < NEAR_EPS || pbr1.y < NEAR_EPS {
        return None;
    }
    let n_l = norm2(tl1, Ghost(m1));
    let n_r = norm2(tr1, Ghost(m1));
    let key: i128 = if n_l <= n_r {
        n_l
    } else {
        n_r
    };
    let tln = persp(tl1, Ghost(m1));
    let trn = persp(tr1, Ghost(m1));
    if tln.x > UNIT - NEAR_EPS || trn.x < NEAR_EPS - UNIT {
        return None;
    }
    let bln = persp(bl1, Ghost(m1));
    let brn = persp(br1, Ghost(m1));
    let ptln = persp(ptl1, Ghost(m1));
    let ptrn = persp(ptr1, Ghost(m1));
    let pbln = persp(pbl1, Ghost(m1));
    let pbrn = persp(pbr1, Ghost(m1));
    let ghost mn: int = 0x40000000;
    let (tlx, trx) = clip_pair_x(tln, trn, Ghost(mn));
    let (blx, brx) = clip_pair_x(bln, brn, Ghost(mn));
    let (ptlx, ptrx) = clip_pair_x(ptln, ptrn, Ghost(mn));
    let (pblx, pbrx) = clip_pair_x(pbln, pbrn, Ghost(mn));
    let ghost mv: int = 9 * mn;
    let tlp = viewport(tlx, Ghost(mv));
    let trp = viewport(trx, Ghost(mv));
    if tlp.x > trp.x {
        return None;
    }
    let blp = viewport(blx, Ghost(mv));
    let brp = viewport(brx, Ghost(mv));
    let ptlp = viewport(ptlx, Ghost(mv));
    let ptrp = viewport(ptrx, Ghost(mv));
    let pblp = viewport(pblx, Ghost(mv));
    let pbrp = viewport(pbrx, Ghost(mv));
    Some(
        ProjWall {
            tl: tlp,
            tr: trp,
            bl: blp,
            br: brp,
            pt_l: ptlp,
            pt_r: ptrp,
            pb_l: pblp,
            pb_r: pbrp,
            key,
        },
    )
}

/// Exec squared camera-space distance.
fn norm2(v: CamVert, m: Ghost<int>) -> (r: i128)
    requires
        0 < m@ <= 0x2000000000000,
        spec_vert_within(v, m@),
    ensures
        r == spec_norm2(v),
{
    proof {
        lemma_mul_abs_bound(v.x as int, v.x as int, m@, m@);
        lemma_mul_abs_bound(v.y as int, v.y as int, m@, m@);
        lemma_mul_abs_bound(v.z as int, v.z as int, m@, m@);
        assert(m@ * m@ <= 0x4000000000000000000000000) by (nonlinear_arith)
            requires
                0 < m@ <= 0x2000000000000,
        ;
    }
    (v.x as i128) * (v.x as i128) + (v.y as i128) * (v.y as i128) + (v.z as i128) * (v.z as i128)
}

/// Ceiling band colour.
pub const CEILING_COLOR: u32 = 0x444444;

/// Solid wall band colour.
pub const WALL_COLOR: u32 = 0x888888;

/// Floor band colour.
pub const FLOOR_COLOR: u32 = 0x2222ff;

/// Frame over a portal hole.
pub const TOP_FRAME_COLOR: u32 = 0x666666;

/// Frame under a portal hole.
pub const BOTTOM_FRAME_COLOR: u32 = 0xaa33aa;

/// The rows of column `x` that painting `[y0, y1)` may touch: the part
/// still uncovered.
pub open spec fn spec_paint_span(col: Interval, y0: int, y1: int) -> Interval {
    let paint = if y0 <= y1 {
        Interval { l: y0 as i32, r: y1 as i32 }
    } else {
        Interval { l: 0, r: 0 }
    };
    Interval::spec_intersect(col, paint)
}

/// Paint the rows of `[y0, y1)` on column `x` that coverage still has
/// unpainted; the coverage itself is not changed.
fn render_line(cov: &Coverage, frame: &mut Frame, x: usize, y0: i64, y1: i64, color: u32)
    requires
        cov.wf(),
        cov.width == 320,
        cov.height == 200,
        old(frame).wf(),
        x < 320,
        0 <= y0 <= 200,
        0 <= y1 <= 200,
    ensures
        final(frame).wf(),
        ({
            let span = spec_paint_span(cov.columns@[x as int], y0 as int, y1 as int);
            &&& forall|yy: int|
                0 <= yy < 200 && span.spec_contains(yy) ==> final(frame).spec_pixel(x as int, yy)
                    == color
            &&& forall|xx: int, yy: int|
                0 <= xx < 320 && 0 <= yy < 200 && (xx != x || !span.spec_contains(yy))
                    ==> final(frame).spec_pixel(xx, yy) == old(frame).spec_pixel(xx, yy)
        }),
{
    let paint = if y0 <= y1 {
        Interval::new(y0 as i32, y1 as i32)
    } else {
        Interval::empty()
    };
    let span = cov.column(x).intersect(&paint);
    let mut y: i32 = span.left();
    let hi: i32 = span.right();
    while y < hi
        invariant
            frame.wf(),
            cov.wf(),
            cov.width == 320,
            cov.height == 200,
            x < 320,
            span == spec_paint_span(cov.columns@[x as int], y0 as int, y1 as int),
            span.l <= y,
            hi == span.r,
            span.spec_is_empty() ==> y == span.l,
            span.spec_is_empty() || y <= hi,
            span.spec_is_empty() || (0 <= span.l && span.r <= 200),
            forall|yy: int|
                span.l <= yy < y ==> #[trigger] frame.pixels@[yy * 320 + x as int] == color,
            forall|xx: int, yy: int|
                0 <= xx < 320 && 0 <= yy < 200 && (xx != x || !(span.l <= yy < y))
                    ==> #[trigger] frame.pixels@[yy * 320 + xx] == old(frame).pixels@[yy * 320
                    + xx],
        decreases hi - y,
    {
        frame.set(x, y as usize, color);
        proof {
            let yi = y as int;
            let xi = x as int;
            assert forall|xx: int, yy: int|
                0 <= xx < 320 && 0 <= yy < 200 && !(xx == xi && yy == yi) implies #[trigger] (yy
                * 320 + xx) != yi * 320 + xi by {
                if yy > yi {
                    assert(yy * 320 >= (yi + 1) * 320);
                } else if yy < yi {
                    assert(yy * 320 <= (yi - 1) * 320);
                }
            }
        }
        y = y + 1;
    }
    proof {
        let span_g = spec_paint_span(cov.columns@[x as int], y0 as int, y1 as int);
        assert(span_g == span);
        assert forall|yy: int|
            0 <= yy < 200 && span_g.spec_contains(yy) implies frame.spec_pixel(x as int, yy)
            == color by {
            assert(frame.pixels@[yy * 320 + x as int] == color);
        }
        assert forall|xx: int, yy: int|
            0 <= xx < 320 && 0 <= yy < 200 && (xx != x as int || !span_g.spec_contains(yy)) implies
            frame.spec_pixel(xx, yy) == old(frame).spec_pixel(xx, yy) by {
            assert(frame.pixels@[yy * 320 + xx] == old(frame).pixels@[yy * 320 + xx]);
        }
    }
}

/// Linear interpolation of a wall edge's pixel height at column step
/// `n` of `d`, clamped to the screen.
pub open spec fn spec_col_y(yl: int, yr: int, n: int, d: int) -> int {
    let raw = spec_div_trunc(yl * (d - n) + yr * n, d);
    if raw < 0 {
        0
    } else if raw > 200 {
        200
    } else {
        raw
    }
}

/// Exec form of `spec_col_y`.
fn col_y(yl: i64, yr: i64, n: i64, d: i64) -> (r: i64)
    requires
        1 <= d <= 0x40000001,
        0 <= n < d,
        spec_abs(yl as int) <= 0x20000000,
        spec_abs(yr as int) <= 0x20000000,
    ensures
        r == spec_col_y(yl as int, yr as int, n as int, d as int),
        0 <= r <= 200,
{
    proof {
        lemma_mul_abs_bound(yl as int, (d - n) as int, 0x20000000, 0x40000001);
        lemma_mul_abs_bound(yr as int, n as int, 0x20000000, 0x40000001);
        assert(0x20000000 * 0x40000001 < 0x1000000000000000) by (nonlinear_arith);
    }
    let raw = div_trunc(yl * (d - n) + yr * n, d);
    if raw < 0 {
        0
    } else if raw > 200 {
        200
    } else {
        raw
    }
}

/// First column of the painted span of `w` under clip `c`.
/// Top edge row of `w` at column `xx`.
pub open spec fn spec_wall_ty(w: ProjWall, xx: int) -> int {
    spec_col_y(w.tl.y as int, w.tr.y as int, xx - w.tl.x, w.tr.x - w.tl.x + 1)
}

/// Bottom edge row of `w` at column `xx`.
pub open spec fn spec_wall_by(w: ProjWall, xx: int) -> int {
    spec_col_y(w.bl.y as int, w.br.y as int, xx - w.tl.x, w.tr.x - w.tl.x + 1)
}

/// Portal top edge row of `w` at column `xx`.
pub open spec fn spec_wall_pty(w: ProjWall, xx: int) -> int {
    spec_col_y(w.pt_l.y as int, w.pt_r.y as int, xx - w.tl.x, w.tr.x - w.tl.x + 1)
}

/// Portal bottom edge row of `w` at column `xx`.
pub open spec fn spec_wall_pby(w: ProjWall, xx: int) -> int {
    spec_col_y(w.pb_l.y as int, w.pb_r.y as int, xx - w.tl.x, w.tr.x - w.tl.x + 1)
}

/// The colour a solid wall gives a row it paints: floor from the wall's
/// bottom down, the wall band between top and bottom, ceiling above.
/// The floor band is painted last, so it wins when a degenerate wall
/// puts its bottom above its top.
pub open spec fn spec_solid_color(w: ProjWall, xx: int, yy: int) -> u32 {
    if yy >= spec_wall_by(w, xx) {
        FLOOR_COLOR
    } else if yy >= spec_wall_ty(w, xx) {
        WALL_COLOR
    } else {
        CEILING_COLOR
    }
}

/// The open portal hole of `w` at column `xx`: the rows between the two
/// frames, normalized to `[0, 0)` when the frames meet or cross.
pub open spec fn spec_portal_hole(w: ProjWall, xx: int) -> Interval {
    let hl = if spec_wall_ty(w, xx) >= spec_wall_pty(w, xx) {
        spec_wall_ty(w, xx)
    } else {
        spec_wall_pty(w, xx)
    };
    let hr = if spec_wall_by(w, xx) <= spec_wall_pby(w, xx) {
        spec_wall_by(w, xx)
    } else {
        spec_wall_pby(w, xx)
    };
    if hl <= hr {
        Interval { l: hl as i32, r: hr as i32 }
    } else {
        Interval { l: 0, r: 0 }
    }
}

/// The colour a portal wall gives a row it paints (rows inside the hole
/// are left for the sector behind the portal): floor below the wall
/// bottom, the bottom frame from the portal bottom down to it, ceiling
/// above the wall top, and the top frame from there down to the portal
/// top; later bands win on degenerate overlaps.
pub open spec fn spec_portal_color(w: ProjWall, xx: int, yy: int) -> u32 {
    if yy >= spec_wall_by(w, xx) {
        FLOOR_COLOR
    } else if yy >= spec_wall_pby(w, xx) {
        BOTTOM_FRAME_COLOR
    } else if yy < spec_wall_ty(w, xx) {
        CEILING_COLOR
    } else {
        TOP_FRAME_COLOR
    }
}

pub open spec fn spec_span_lo(w: ProjWall, c: Interval) -> int {
    let a = if w.tl.x >= c.l {
        w.tl.x as int
    } else {
        c.l as int
    };
    if a >= 0 {
        a
    } else {
        0
    }
}

/// One past the last column of the painted span of `w` under clip `c`.
pub open spec fn spec_span_hi(w: ProjWall, c: Interval) -> int {
    let a = if w.tr.x + 1 <= c.r {
        w.tr.x + 1
    } else {
        c.r as int
    };
    if a <= 320 {
        a
    } else {
        320
    }
}

/// Paint a solid wall under clip `clip`: for every visible column a
/// ceiling, wall and floor band; each painted column is fully covered
/// afterwards. Writes stay inside the rows coverage still had open, and
/// rows that remain open keep their pixels - so no row of a column is
/// ever painted twice across walls.
fn render_solid(cov: &mut Coverage, frame: &mut Frame, w: &ProjWall, clip: &Interval)
    requires
        old(cov).wf(),
        old(cov).width == 320,
        old(cov).height == 200,
        old(frame).wf(),
        spec_projwall_wf(*w),
    ensures
        final(cov).wf(),
        final(cov).width == 320,
        final(cov).height == 200,
        final(frame).wf(),
        forall|j: int|
            0 <= j < 320 ==> (#[trigger] final(cov).columns@[j]).spec_subset_of(
                old(cov).columns@[j],
            ),
        forall|j: int|
            0 <= j < 320 && !(spec_span_lo(*w, *clip) <= j < spec_span_hi(*w, *clip))
                ==> final(cov).columns@[j] == old(cov).columns@[j],
        forall|j: int|
            spec_span_lo(*w, *clip) <= j < spec_span_hi(*w, *clip)
                ==> (#[trigger] final(cov).columns@[j]).spec_is_empty(),
        forall|xx: int, yy: int|
            0 <= xx < 320 && 0 <= yy < 200 && (!(spec_span_lo(*w, *clip) <= xx < spec_span_hi(
                *w,
                *clip,
            )) || !old(cov).columns@[xx].spec_contains(yy)) ==> final(frame).spec_pixel(xx, yy)
                == old(frame).spec_pixel(xx, yy),
        forall|xx: int, yy: int|
            0 <= xx < 320 && 0 <= yy < 200 && final(cov).columns@[xx].spec_contains(yy)
                ==> final(frame).spec_pixel(xx, yy) == old(frame).spec_pixel(xx, yy),
        forall|xx: int, yy: int|
            0 <= xx < 320 && 0 <= yy < 200 && spec_span_lo(*w, *clip) <= xx < spec_span_hi(
                *w,
                *clip,
            ) && old(cov).columns@[xx].spec_contains(yy) ==> final(frame).spec_pixel(xx, yy)
                == spec_solid_color(*w, xx, yy),
{
    let a: i64 = if w.tl.x >= (clip.left() as i64) {
        w.tl.x
    } else {
        clip.left() as i64
    };
    let lo64: i64 = if a >= 0 {
        a
    } else {
        0
    };
    let b: i64 = if w.tr.x + 1 <= (clip.right() as i64) {
        w.tr.x + 1
    } else {
        clip.right() as i64
    };
    let hi64: i64 = if b <= 320 {
        b
    } else {
        320
    };
    if lo64 >= hi64 {
        return ;
    }
    let lo: usize = lo64 as usize;
    let hi: usize = hi64 as usize;
    let d: i64 = w.tr.x - w.tl.x + 1;
    let mut x: usize = lo;
    while x < hi
        invariant
            cov.wf(),
            cov.width == 320,
            cov.height == 200,
            frame.wf(),
            spec_projwall_wf(*w),
            lo == spec_span_lo(*w, *clip),
            hi == spec_span_hi(*w, *clip),
            lo <= x <= hi,
            hi <= 320,
            w.tl.x <= lo,
            hi <= w.tr.x + 1,
            d == w.tr.x - w.tl.x + 1,
            forall|j: int|
                0 <= j < 320 ==> (#[trigger] cov.columns@[j]).spec_subset_of(
                    old(cov).columns@[j],
                ),
            forall|j: int|
                0 <= j < 320 && !(lo <= j < x) ==> cov.columns@[j] == old(cov).columns@[j],
            forall|j: int|
                lo <= j < x ==> (#[trigger] cov.columns@[j]).spec_is_empty(),
            forall|xx: int, yy: int|
                0 <= xx < 320 && 0 <= yy < 200 && (!(lo <= xx < x)
                    || !old(cov).columns@[xx].spec_contains(yy)) ==> frame.spec_pixel(xx, yy)
                    == old(frame).spec_pixel(xx, yy),
            forall|xx: int, yy: int|
                0 <= xx < 320 && 0 <= yy < 200 && cov.columns@[xx].spec_contains(yy)
                    ==> frame.spec_pixel(xx, yy) == old(frame).spec_pixel(xx, yy),
            forall|xx: int, yy: int|
                0 <= xx < 320 && 0 <= yy < 200 && lo <= xx < x && old(cov).columns@[xx].spec_contains(
                    yy,
                ) ==> frame.spec_pixel(xx, yy) == spec_solid_color(*w, xx, yy),
        decreases hi - x,
    {
        let n: i64 = (x as i64) - w.tl.x;
        let ty = col_y(w.tl.y, w.tr.y, n, d);
        let by = col_y(w.bl.y, w.br.y, n, d);
        proof {
            assert(cov.columns@[x as int] == old(cov).columns@[x as int]);
            assert(ty == spec_wall_ty(*w, x as int));
            assert(by == spec_wall_by(*w, x as int));
        }
        render_line(cov, frame, x, 0, ty, CEILING_COLOR);
        render_line(cov, frame, x, ty, by, WALL_COLOR);
        render_line(cov, frame, x, by, 200, FLOOR_COLOR);
        proof {
            let xi = x as int;
            let col = cov.columns@[xi];
            assert forall|yy: int| 0 <= yy < 200 && col.spec_contains(yy) implies frame.spec_pixel(
                xi,
                yy,
            ) == spec_solid_color(*w, xi, yy) by {
                if yy >= by {
                    assert(spec_paint_span(col, by as int, 200).spec_contains(yy));
                } else if yy >= ty {
                    assert(spec_paint_span(col, ty as int, by as int).spec_contains(yy));
                } else {
                    assert(spec_paint_span(col, 0, ty as int).spec_contains(yy));
                }
            }
        }
        let none = Interval::empty();
        cov.intersect(x, &none);
        x = x + 1;
    }
}

/// Paint a portal wall under clip `clip`: ceiling, the frames over and
/// under the hole, and floor; coverage keeps only the hole open, and the
/// hole's rows keep their pixels for the sector behind the portal.
/// Returns the painted column span, which the traversal pushes on to
/// the next sector.
fn render_portal(cov: &mut Coverage, frame: &mut Frame, w: &ProjWall, clip: &Interval) -> (r:
    Option<Interval>)
    requires
        old(cov).wf(),
        old(cov).width == 320,
        old(cov).height == 200,
        old(frame).wf(),
        spec_projwall_wf(*w),
    ensures
        final(cov).wf(),
        final(cov).width == 320,
        final(cov).height == 200,
        final(frame).wf(),
        forall|j: int|
            0 <= j < 320 ==> (#[trigger] final(cov).columns@[j]).spec_subset_of(
                old(cov).columns@[j],
            ),
        forall|j: int|
            0 <= j < 320 && !(spec_span_lo(*w, *clip) <= j < spec_span_hi(*w, *clip))
                ==> final(cov).columns@[j] == old(cov).columns@[j],
        r is Some <==> spec_span_lo(*w, *clip) < spec_span_hi(*w, *clip),
        r matches Some(iv) ==> iv.l == spec_span_lo(*w, *clip) && iv.r == spec_span_hi(*w, *clip)
            && 0 <= iv.l < iv.r <= 320,
        forall|xx: int, yy: int|
            0 <= xx < 320 && 0 <= yy < 200 && (!(spec_span_lo(*w, *clip) <= xx < spec_span_hi(
                *w,
                *clip,
            )) || !old(cov).columns@[xx].spec_contains(yy)) ==> final(frame).spec_pixel(xx, yy)
                == old(frame).spec_pixel(xx, yy),
        forall|xx: int, yy: int|
            0 <= xx < 320 && 0 <= yy < 200 && final(cov).columns@[xx].spec_contains(yy)
                ==> final(frame).spec_pixel(xx, yy) == old(frame).spec_pixel(xx, yy),
        forall|xx: int, yy: int|
            0 <= xx < 320 && spec_span_lo(*w, *clip) <= xx < spec_span_hi(*w, *clip)
                ==> (final(cov).columns@[xx].spec_contains(yy) <==> old(
                cov,
            ).columns@[xx].spec_contains(yy) && spec_portal_hole(*w, xx).spec_contains(yy)),
        forall|xx: int, yy: int|
            0 <= xx < 320 && 0 <= yy < 200 && spec_span_lo(*w, *clip) <= xx < spec_span_hi(
                *w,
                *clip,
            ) && old(cov).columns@[xx].spec_contains(yy) && !spec_portal_hole(*w, xx).spec_contains(
                yy,
            ) ==> final(frame).spec_pixel(xx, yy) == spec_portal_color(*w, xx, yy),
{
    let a: i64 = if w.tl.x >= (clip.left() as i64) {
        w.tl.x
    } else {
        clip.left() as i64
    };
    let lo64: i64 = if a >= 0 {
        a
    } else {
        0
    };
    let b: i64 = if w.tr.x + 1 <= (clip.right() as i64) {
        w.tr.x + 1
    } else {
        clip.right() as i64
    };
    let hi64: i64 = if b <= 320 {
        b
    } else {
        320
    };
    if lo64 >= hi64 {
        return None;
    }
    let lo: usize = lo64 as usize;
    let hi: usize = hi64 as usize;
    let d: i64 = w.tr.x - w.tl.x + 1;
    let mut x: usize = lo;
    while x < hi
        invariant
            cov.wf(),
            cov.width == 320,
            cov.height == 200,
            frame.wf(),
            spec_projwall_wf(*w),
            lo == spec_span_lo(*w, *clip),
            hi == spec_span_hi(*w, *clip),
            lo <= x <= hi,
            hi <= 320,
            w.tl.x <= lo,
            hi <= w.tr.x + 1,
            d == w.tr.x - w.tl.x + 1,
            forall|j: int|
                0 <= j < 320 ==> (#[trigger] cov.columns@[j]).spec_subset_of(
                    old(cov).columns@[j],
                ),
            forall|j: int|
                0 <= j < 320 && !(lo <= j < x) ==> cov.columns@[j] == old(cov).columns@[j],
            forall|xx: int, yy: int|
                0 <= xx < 320 && 0 <= yy < 200 && (!(lo <= xx < x)
                    || !old(cov).columns@[xx].spec_contains(yy)) ==> frame.spec_pixel(xx, yy)
                    == old(frame).spec_pixel(xx, yy),
            forall|xx: int, yy: int|
                0 <= xx < 320 && 0 <= yy < 200 && cov.columns@[xx].spec_contains(yy)
                    ==> frame.spec_pixel(xx, yy) == old(frame).spec_pixel(xx, yy),
            forall|xx: int, yy: int|
                0 <= xx < 320 && lo <= xx < x ==> (cov.columns@[xx].spec_contains(yy) <==> old(
                    cov,
                ).columns@[xx].spec_contains(yy) && spec_portal_hole(*w, xx).spec_contains(yy)),
            forall|xx: int, yy: int|
                0 <= xx < 320 && 0 <= yy < 200 && lo <= xx < x && old(cov).columns@[xx].spec_contains(
                    yy,
                ) && !spec_portal_hole(*w, xx).spec_contains(yy) ==> frame.spec_pixel(xx, yy)
                    == spec_portal_color(*w, xx, yy),
        decreases hi - x,
    {
        let n: i64 = (x as i64) - w.tl.x;
        let ty = col_y(w.tl.y, w.tr.y, n, d);
        let by = col_y(w.bl.y, w.br.y, n, d);
        let pty = col_y(w.pt_l.y, w.pt_r.y, n, d);
        let pby = col_y(w.pb_l.y, w.pb_r.y, n, d);
        proof {
            assert(cov.columns@[x as int] == old(cov).columns@[x as int]);
            assert(ty == spec_wall_ty(*w, x as int));
            assert(by == spec_wall_by(*w, x as int));
            assert(pty == spec_wall_pty(*w, x as int));
            assert(pby == spec_wall_pby(*w, x as int));
        }
        render_line(cov, frame, x, 0, ty, CEILING_COLOR);
        if ty < pty {
            render_line(cov, frame, x, ty, pty, TOP_FRAME_COLOR);
        }
        if pby < by {
            render_line(cov, frame, x, pby, by, BOTTOM_FRAME_COLOR);
        }
        render_line(cov, frame, x, by, 200, FLOOR_COLOR);
        proof {
            let xi = x as int;
            let col = cov.columns@[xi];
            let hole_g = spec_portal_hole(*w, xi);
            assert forall|yy: int|
                0 <= yy < 200 && col.spec_contains(yy) && !hole_g.spec_contains(yy) implies
                frame.spec_pixel(xi, yy) == spec_portal_color(*w, xi, yy) by {
                if yy >= by {
                    assert(spec_paint_span(col, by as int, 200).spec_contains(yy));
                } else if yy >= pby {
                    assert(pby < by);
                    assert(spec_paint_span(col, pby as int, by as int).spec_contains(yy));
                } else if yy < ty {
                    assert(spec_paint_span(col, 0, ty as int).spec_contains(yy));
                } else {
                    assert(ty < pty);
                    assert(spec_paint_span(col, ty as int, pty as int).spec_contains(yy));
                }
            }
        }
        let hl: i64 = if ty >= pty {
            ty
        } else {
            pty
        };
        let hr: i64 = if by <= pby {
            by
        } else {
            pby
        };
        let hole = if hl <= hr {
            Interval::new(hl as i32, hr as i32)
        } else {
            Interval::empty()
        };
        cov.intersect(x, &hole);
        x = x + 1;
    }
    Some(Interval::new(lo as i32, hi as i32))
}

/// A projected wall awaiting painting, with the sector behind it
/// (`-1` for solid walls, an in-range sector id otherwise).
#[derive(Debug, PartialEq, Eq, Structural, Copy, Clone)]
pub struct DrawWall {
    pub w: ProjWall,
    pub next: i16,
}

/// Sort walls front to back by their closeness key into `out`, keeping
/// exactly the same walls; `v` is drained and `out`'s capacity reused.
fn sort_walls(v: &mut Vec<DrawWall>, out: &mut Vec<DrawWall>)
    ensures
        final(v)@.len() == 0,
        final(out)@.len() == old(v)@.len(),
        final(out)@.to_multiset() == old(v)@.to_multiset(),
        forall|i: int, j: int|
            0 <= i < j < final(out)@.len() ==> final(out)@[i].w.key <= final(out)@[j].w.key,
        forall|i: int|
            0 <= i < final(out)@.len() ==> old(v)@.contains(#[trigger] final(out)@[i]),
{
    let ghost orig = v@;
    out.clear();
    while v.len() > 0
        invariant
            out@.len() + v@.len() == orig.len(),
            out@.to_multiset().add(v@.to_multiset()) =~= orig.to_multiset(),
            forall|i: int, j: int| 0 <= i < j < out@.len() ==> out@[i].w.key <= out@[j].w.key,
            forall|i: int, j: int|
                0 <= i < out@.len() && 0 <= j < v@.len() ==> out@[i].w.key <= v@[j].w.key,
            forall|i: int| 0 <= i < out@.len() ==> orig.contains(#[trigger] out@[i]),
        decreases v.len(),
    {
        let mut mi: usize = 0;
        let mut k: usize = 1;
        while k < v.len()
            invariant
                v@.len() > 0,
                mi < k <= v@.len(),
                forall|t: int| 0 <= t < k ==> v@[mi as int].w.key <= v@[t].w.key,
            decreases v@.len() - k,
        {
            if v[k].w.key < v[mi].w.key {
                mi = k;
            }
            k += 1;
        }
        proof {
            assert(v@.contains(v@[mi as int]));
            assert(v@.to_multiset().count(v@[mi as int]) > 0);
            assert(orig.to_multiset().count(v@[mi as int]) > 0);
            assert(orig.contains(v@[mi as int]));
        }
        let item = v.remove(mi);
        out.push(item);
        proof {
            assert(out@.to_multiset().add(v@.to_multiset()) =~= orig.to_multiset());
        }
    }
    proof {
        assert forall|i: int| 0 <= i < out@.len() implies orig.to_multiset().count(
            #[trigger] out@[i],
        ) > 0 by {
            assert(out@.contains(out@[i]));
            assert(out@.to_multiset().count(out@[i]) > 0);
        }
    }
}

/// The draw-list entry stands for a wall of the sector run starting at
/// `first`: either solid, or a portal naming an in-range far sector.
pub open spec fn spec_wall_origin(
    walls: Seq<Wall>,
    first: int,
    count: nat,
    nsectors: int,
    dw: DrawWall,
) -> bool {
    dw.next == -1 || (0 <= dw.next < nsectors && exists|k: nat|
        spec_pair_yielded(walls, first, count, k) && walls[spec_chain(
            walls,
            first,
            k,
        )].next_sector == dw.next)
}

/// The projection of wall pair `k` of sector `sid`'s run, exactly as
/// the traversal projects it (an out-of-range far sector renders as
/// solid).
pub open spec fn spec_pair_project(
    c: Camera,
    sectors: Seq<Sector>,
    walls: Seq<Wall>,
    sid: int,
    k: nat,
) -> Option<ProjWall> {
    let sec = sectors[sid];
    let first = sec.wallptr as int;
    let li = spec_chain(walls, first, k);
    let lw = walls[li];
    let rw = walls[crate::sector::spec_loop_step(walls, first, li)];
    if 0 <= lw.next_sector < sectors.len() {
        spec_project(c, lw, rw, sec, Some(sectors[lw.next_sector as int]))
    } else {
        spec_project(c, lw, rw, sec, None)
    }
}

/// The sector behind wall pair `k`, or `-1` when it is treated as
/// solid.
pub open spec fn spec_pair_next(sectors: Seq<Sector>, walls: Seq<Wall>, sid: int, k: nat) -> i16 {
    let sec = sectors[sid];
    let first = sec.wallptr as int;
    let lw = walls[spec_chain(walls, first, k)];
    if 0 <= lw.next_sector < sectors.len() {
        lw.next_sector
    } else {
        -1i16
    }
}

/// What painting one projected wall leaves in the coverage: a solid
/// wall's span columns are fully covered; a portal's span columns stay
/// open at most inside its hole. Both survive any later painting, which
/// only shrinks columns.
pub open spec fn spec_cov_effect(dw: DrawWall, clip: Interval, cols: Seq<Interval>) -> bool {
    let lo = spec_span_lo(dw.w, clip);
    let hi = spec_span_hi(dw.w, clip);
    if dw.next == -1 {
        forall|j: int| lo <= j < hi ==> (#[trigger] cols[j]).spec_is_empty()
    } else {
        forall|j: int| lo <= j < hi ==> (#[trigger] cols[j]).spec_subset_of(
            spec_portal_hole(dw.w, j),
        )
    }
}

/// What painting one projected wall must leave behind: its coverage
/// effect, and for a portal with a non-empty painted span a queue entry
/// (at `qbase` or later) naming the far sector over exactly that span.
pub open spec fn spec_draw_effect(
    dw: DrawWall,
    clip: Interval,
    cols: Seq<Interval>,
    q: Seq<RenderSector>,
    qbase: int,
) -> bool {
    let lo = spec_span_lo(dw.w, clip);
    let hi = spec_span_hi(dw.w, clip);
    &&& spec_cov_effect(dw, clip, cols)
    &&& (dw.next != -1 && lo < hi ==> exists|i: int|
        qbase <= i < q.len() && q[i] == (RenderSector {
            id: dw.next,
            clip: Interval { l: lo as i32, r: hi as i32 },
        }))
}

/// One of the five colours the renderer paints with.
pub open spec fn spec_band_color(c: u32) -> bool {
    c == CEILING_COLOR || c == WALL_COLOR || c == FLOOR_COLOR || c == TOP_FRAME_COLOR
        || c == BOTTOM_FRAME_COLOR
}

/// Every wall pair of sector `sid`'s loop that projects onto the screen
/// has left its coverage effect under clip `clip` in `cols`.
pub open spec fn spec_sector_effects(
    c: Camera,
    sectors: Seq<Sector>,
    walls: Seq<Wall>,
    sid: int,
    clip: Interval,
    cols: Seq<Interval>,
) -> bool {
    forall|k: nat|
        #[trigger] spec_pair_yielded(
            walls,
            sectors[sid].wallptr as int,
            spec_run_len(sectors[sid], walls.len() as int) as nat,
            k,
        ) ==> {
            let pj = spec_pair_project(c, sectors, walls, sid, k);
            pj is Some ==> spec_cov_effect(
                DrawWall { w: pj->0, next: spec_pair_next(sectors, walls, sid, k) },
                clip,
                cols,
            )
        }
}

/// Coverage effects survive later painting: columns only shrink, and a
/// column inside an empty or hole interval stays there.
pub proof fn lemma_sector_effects_stable(
    c: Camera,
    sectors: Seq<Sector>,
    walls: Seq<Wall>,
    sid: int,
    clip: Interval,
    before: Seq<Interval>,
    after: Seq<Interval>,
)
    requires
        spec_sector_effects(c, sectors, walls, sid, clip, before),
        before.len() == 320,
        after.len() == 320,
        forall|j: int| 0 <= j < 320 ==> (#[trigger] after[j]).spec_subset_of(before[j]),
    ensures
        spec_sector_effects(c, sectors, walls, sid, clip, after),
{
    let first = sectors[sid].wallptr as int;
    let count = spec_run_len(sectors[sid], walls.len() as int) as nat;
    assert forall|k: nat| #[trigger] spec_pair_yielded(walls, first, count, k) implies ({
        let pj = spec_pair_project(c, sectors, walls, sid, k);
        pj is Some ==> spec_cov_effect(
            DrawWall { w: pj->0, next: spec_pair_next(sectors, walls, sid, k) },
            clip,
            after,
        )
    }) by {
        let pj = spec_pair_project(c, sectors, walls, sid, k);
        if pj is Some {
            let dw = DrawWall { w: pj->0, next: spec_pair_next(sectors, walls, sid, k) };
            let lo = spec_span_lo(dw.w, clip);
            let hi = spec_span_hi(dw.w, clip);
            assert(spec_cov_effect(dw, clip, before));
            if dw.next == -1 {
                assert forall|j: int| lo <= j < hi implies (#[trigger] after[j]).spec_is_empty() by {
                    if 0 <= j < 320 {
                        assert(before[j].spec_is_empty());
                        crate::interval::lemma_subset_of_empty(after[j], before[j]);
                    }
                }
            } else {
                assert forall|j: int|
                    lo <= j < hi implies (#[trigger] after[j]).spec_subset_of(
                    spec_portal_hole(dw.w, j),
                ) by {
                    if 0 <= j < 320 {
                        crate::interval::lemma_subset_transitive(
                            after[j],
                            before[j],
                            spec_portal_hole(dw.w, j),
                        );
                    }
                }
            }
        }
    }
}

/// A sector queued for rendering through one portal's column span.
#[derive(Debug, PartialEq, Eq, Structural, Copy, Clone)]
pub struct RenderSector {
    pub id: i16,
    pub clip: Interval,
}

/// Most sector visits one render call will make; the backstop that
/// bounds traversal of pathological maps.
pub const MAX_VISITS: usize = 4096;

/// The first-person renderer: per-column coverage, the traversal queue
/// and the camera of the frame being rendered.
#[derive(Debug)]
pub struct Renderer {
    pub coverage: Coverage,
    pub queue: Vec<RenderSector>,
    pub camera: Camera,
    pub walls_buf: Vec<DrawWall>,
    pub sorted_buf: Vec<DrawWall>,
}

impl Renderer {
    /// Coverage sized for the screen and every queued span on it.
    pub open spec fn wf(self) -> bool {
        &&& self.coverage.wf()
        &&& self.coverage.width == 320
        &&& self.coverage.height == 200
        &&& spec_camera_wf(self.camera)
        &&& forall|i: int|
            0 <= i < self.queue@.len() ==> 0 <= (#[trigger] self.queue@[i]).clip.l
                && self.queue@[i].clip.r <= 320
    }

    /// A renderer sized for the 320 x 200 screen: full fresh coverage,
    /// an empty queue and a camera at the origin looking along +Y.
    pub fn new() -> (r: Renderer)
        ensures
            r.wf(),
            r.queue@.len() == 0,
            r.camera == (Camera { px: 0, py: 0, pz: 0, sin: 0, cos: 16384 }),
            forall|j: int|
                0 <= j < 320 ==> (#[trigger] r.coverage.columns@[j]) == (Interval {
                    l: 0,
                    r: 200,
                }),
    {
        Renderer {
            coverage: Coverage::new(320, 200),
            queue: Vec::new(),
            camera: Camera { px: 0, py: 0, pz: 0, sin: 0, cos: 16384 },
            walls_buf: Vec::new(),
            sorted_buf: Vec::new(),
        }
    }

    /// Reset for one frame: aim the camera at the player, open every
    /// coverage column to the full screen height, and seed the traversal
    /// queue with exactly the player's sector over the whole width.
    fn init_render(&mut self, map: &Level)
        requires
            old(self).wf(),
        ensures
            final(self).wf(),
            final(self).camera == spec_camera(map.player),
            forall|j: int|
                0 <= j < 320 ==> (#[trigger] final(self).coverage.columns@[j]) == (Interval {
                    l: 0,
                    r: 200,
                }),
            final(self).queue@.len() == 1,
            final(self).queue@[0] == (RenderSector {
                id: map.player.sector,
                clip: Interval { l: 0, r: 320 },
            }),
    {
        self.camera = camera_of(&map.player);
        self.coverage.clear();
        self.queue.clear();
        self.queue.push(RenderSector { id: map.player.sector, clip: Interval::new(0, 320) });
    }

    /// Render one frame of `map` into `frame`: reset coverage, camera
    /// and queue (so the result does not depend on earlier frames), then
    /// paint sectors until the frame is covered, the queue runs out, or
    /// the visit backstop is reached. Pixels whose rows are still open
    /// in the final coverage are untouched - in particular, when every
    /// wall is rejected the frame is unchanged - and each pixel is
    /// painted at most once, with the band colours stated on the
    /// per-wall painters; every row the render closes carries one of the
    /// five band colours. Every projected wall of the player's sector
    /// leaves its coverage effect: solid spans end fully covered, so a
    /// room whose walls span the screen forces full coverage.
    pub fn render(&mut self, map: &Level, frame: &mut Frame)
        requires
            old(self).wf(),
            old(frame).wf(),
        ensures
            final(self).wf(),
            final(frame).wf(),
            final(self).camera == spec_camera(map.player),
            forall|j: int|
                0 <= j < 320 ==> (#[trigger] final(self).coverage.columns@[j]).spec_subset_of(
                    Interval { l: 0, r: 200 },
                ),
            forall|xx: int, yy: int|
                0 <= xx < 320 && 0 <= yy < 200 && final(self).coverage.columns@[xx].spec_contains(
                    yy,
                ) ==> final(frame).spec_pixel(xx, yy) == old(frame).spec_pixel(xx, yy),
            forall|xx: int, yy: int|
                0 <= xx < 320 && 0 <= yy < 200 && !final(self).coverage.columns@[xx].spec_contains(
                    yy,
                ) ==> spec_band_color(final(frame).spec_pixel(xx, yy)),
            0 <= map.player.sector < map.sectors.sectors@.len() ==> spec_sector_effects(
                spec_camera(map.player),
                map.sectors.sectors@,
                map.sectors.walls@,
                map.player.sector as int,
                Interval { l: 0, r: 320 },
                final(self).coverage.columns@,
            ),
    {
        self.init_render(map);
        proof {
            assert(!self.coverage.columns@[0].spec_is_empty());
            assert(forall|xx: int, yy: int|
                0 <= xx < 320 && 0 <= yy < 200 ==> #[trigger] self.coverage.columns@[xx].spec_contains(
                    yy,
                ));
        }
        self.render_sectors(map, frame);
    }

    /// The traversal loop; returns how many sector visits it made. It
    /// ends only for one of three reasons: the visit backstop, full
    /// coverage, or an empty queue - so a queue with work left means
    /// the frame was already covered (or the backstop hit). The first
    /// node popped is the top of the incoming queue; unless coverage is
    /// already full, every wall of that sector that projects onto the
    /// screen leaves its coverage effect in the final coverage.
    pub fn render_sectors(&mut self, map: &Level, frame: &mut Frame) -> (count: usize)
        requires
            old(self).wf(),
            old(frame).wf(),
        ensures
            final(self).wf(),
            final(frame).wf(),
            final(self).camera == old(self).camera,
            count <= MAX_VISITS,
            forall|j: int|
                0 <= j < 320 ==> (#[trigger] final(self).coverage.columns@[j]).spec_subset_of(
                    old(self).coverage.columns@[j],
                ),
            forall|xx: int, yy: int|
                0 <= xx < 320 && 0 <= yy < 200 && final(self).coverage.columns@[xx].spec_contains(
                    yy,
                ) ==> final(frame).spec_pixel(xx, yy) == old(frame).spec_pixel(xx, yy),
            forall|xx: int, yy: int|
                0 <= xx < 320 && 0 <= yy < 200 && !old(self).coverage.columns@[xx].spec_contains(
                    yy,
                ) ==> final(frame).spec_pixel(xx, yy) == old(frame).spec_pixel(xx, yy),
            forall|xx: int, yy: int|
                0 <= xx < 320 && 0 <= yy < 200 && old(self).coverage.columns@[xx].spec_contains(yy)
                    && !final(self).coverage.columns@[xx].spec_contains(yy) ==> spec_band_color(
                    final(frame).spec_pixel(xx, yy),
                ),
            count == MAX_VISITS || final(self).queue@.len() == 0 || (forall|j: int|
                0 <= j < 320 ==> (#[trigger] final(self).coverage.columns@[j]).spec_is_empty()),
            ({
                let q = old(self).queue@;
                (q.len() > 0 && 0 <= q[q.len() - 1].id < map.sectors.sectors@.len() && !(forall|
                    j: int,
                |
                    0 <= j < 320 ==> (#[trigger] old(self).coverage.columns@[j]).spec_is_empty()))
                    ==> spec_sector_effects(
                    old(self).camera,
                    map.sectors.sectors@,
                    map.sectors.walls@,
                    q[q.len() - 1].id as int,
                    q[q.len() - 1].clip,
                    final(self).coverage.columns@,
                )
            }),
    {
        let mut visits: usize = 0;
        let ghost mut seed_done: bool = false;
        loop
            invariant_except_break
                self.wf(),
                frame.wf(),
                self.camera == old(self).camera,
                visits <= MAX_VISITS,
                forall|j: int|
                    0 <= j < 320 ==> (#[trigger] self.coverage.columns@[j]).spec_subset_of(
                        old(self).coverage.columns@[j],
                    ),
                forall|xx: int, yy: int|
                    0 <= xx < 320 && 0 <= yy < 200 && self.coverage.columns@[xx].spec_contains(yy)
                        ==> frame.spec_pixel(xx, yy) == old(frame).spec_pixel(xx, yy),
                forall|xx: int, yy: int|
                    0 <= xx < 320 && 0 <= yy < 200 && !old(self).coverage.columns@[xx].spec_contains(
                        yy,
                    ) ==> frame.spec_pixel(xx, yy) == old(frame).spec_pixel(xx, yy),
                forall|xx: int, yy: int|
                    0 <= xx < 320 && 0 <= yy < 200 && old(self).coverage.columns@[xx].spec_contains(
                        yy,
                    ) && !self.coverage.columns@[xx].spec_contains(yy) ==> spec_band_color(
                        frame.spec_pixel(xx, yy),
                    ),
                visits == 0 ==> self.coverage == old(self).coverage && self.queue@ == old(
                    self,
                ).queue@,
                ({
                    let q = old(self).queue@;
                    (q.len() > 0 && 0 <= q[q.len() - 1].id < map.sectors.sectors@.len() && !(
                    forall|j: int|
                        0 <= j < 320 ==> (#[trigger] old(
                            self,
                        ).coverage.columns@[j]).spec_is_empty()) && visits > 0) ==> seed_done
                }),
                seed_done ==> ({
                    let q = old(self).queue@;
                    q.len() > 0 && spec_sector_effects(
                        old(self).camera,
                        map.sectors.sectors@,
                        map.sectors.walls@,
                        q[q.len() - 1].id as int,
                        q[q.len() - 1].clip,
                        self.coverage.columns@,
                    )
                }),
            ensures
                self.wf(),
                frame.wf(),
                self.camera == old(self).camera,
                visits <= MAX_VISITS,
                forall|j: int|
                    0 <= j < 320 ==> (#[trigger] self.coverage.columns@[j]).spec_subset_of(
                        old(self).coverage.columns@[j],
                    ),
                forall|xx: int, yy: int|
                    0 <= xx < 320 && 0 <= yy < 200 && self.coverage.columns@[xx].spec_contains(yy)
                        ==> frame.spec_pixel(xx, yy) == old(frame).spec_pixel(xx, yy),
                forall|xx: int, yy: int|
                    0 <= xx < 320 && 0 <= yy < 200 && !old(self).coverage.columns@[xx].spec_contains(
                        yy,
                    ) ==> frame.spec_pixel(xx, yy) == old(frame).spec_pixel(xx, yy),
                forall|xx: int, yy: int|
                    0 <= xx < 320 && 0 <= yy < 200 && old(self).coverage.columns@[xx].spec_contains(
                        yy,
                    ) && !self.coverage.columns@[xx].spec_contains(yy) ==> spec_band_color(
                        frame.spec_pixel(xx, yy),
                    ),
                visits == MAX_VISITS || self.queue@.len() == 0 || (forall|j: int|
                    0 <= j < 320 ==> (#[trigger] self.coverage.columns@[j]).spec_is_empty()),
                ({
                    let q = old(self).queue@;
                    (q.len() > 0 && 0 <= q[q.len() - 1].id < map.sectors.sectors@.len() && !(
                    forall|j: int|
                        0 <= j < 320 ==> (#[trigger] old(
                            self,
                        ).coverage.columns@[j]).spec_is_empty())) ==> spec_sector_effects(
                        old(self).camera,
                        map.sectors.sectors@,
                        map.sectors.walls@,
                        q[q.len() - 1].id as int,
                        q[q.len() - 1].clip,
                        self.coverage.columns@,
                    )
                }),
            decreases MAX_VISITS - visits,
        {
            if visits >= MAX_VISITS {
                break ;
            }
            if self.coverage.is_full() {
                proof {
                    if visits == 0 {
                        assert(forall|j: int|
                            0 <= j < 320 ==> (#[trigger] old(
                                self,
                            ).coverage.columns@[j]).spec_is_empty());
                    }
                }
                break ;
            }
            let node = match self.queue.pop() {
                Some(n) => n,
                None => {
                    break ;
                },
            };
            let ghost first_visit = visits == 0;
            visits += 1;
            let sid = node.id;
            if sid >= 0 && (sid as usize) < map.sectors.sectors.len() {
                let ghost cov_before = self.coverage.columns@;
                let ghost seed_done_pre = seed_done;
                self.render_one_sector(map, frame, sid, &node.clip);
                proof {
                    assert forall|j: int|
                        0 <= j < 320 implies (#[trigger] self.coverage.columns@[j]).spec_subset_of(
                        old(self).coverage.columns@[j],
                    ) by {
                        crate::interval::lemma_subset_transitive(
                            self.coverage.columns@[j],
                            cov_before[j],
                            old(self).coverage.columns@[j],
                        );
                    }
                    assert forall|xx: int, yy: int|
                        0 <= xx < 320 && 0 <= yy < 200 && !old(
                            self,
                        ).coverage.columns@[xx].spec_contains(yy) implies frame.spec_pixel(xx, yy)
                        == old(frame).spec_pixel(xx, yy) by {
                        assert(!cov_before[xx].spec_contains(yy));
                    }
                    assert forall|xx: int, yy: int|
                        0 <= xx < 320 && 0 <= yy < 200 && old(
                            self,
                        ).coverage.columns@[xx].spec_contains(yy)
                            && !self.coverage.columns@[xx].spec_contains(yy) implies spec_band_color(
                        frame.spec_pixel(xx, yy),
                    ) by {
                        assert(cov_before[xx].spec_subset_of(old(self).coverage.columns@[xx]));
                    }
                    if first_visit {
                        seed_done = true;
                    } else if seed_done_pre {
                        let q = old(self).queue@;
                        let seed_sid = q[q.len() - 1].id as int;
                        let seed_clip = q[q.len() - 1].clip;
                        lemma_sector_effects_stable(
                            old(self).camera,
                            map.sectors.sectors@,
                            map.sectors.walls@,
                            seed_sid,
                            seed_clip,
                            cov_before,
                            self.coverage.columns@,
                        );
                    }
                }
            }
        }
        visits
    }

    /// Project, sort front-to-back and paint the walls of one sector,
    /// queueing the sector behind each portal whose painted span is not
    /// fully clipped away. The incoming queue is untouched; every node
    /// appended names an in-range sector reached through a portal wall
    /// of this sector's loop, with a clip inside both the screen and
    /// this sector's clip. Rows still open in the final coverage keep
    /// their pixels.
    #[verifier::rlimit(80)]
    fn render_one_sector(&mut self, map: &Level, frame: &mut Frame, sid: i16, clip: &Interval)
        requires
            old(self).wf(),
            old(frame).wf(),
            0 <= sid < map.sectors.sectors@.len(),
            0 <= clip.l,
            clip.r <= 320,
        ensures
            final(self).wf(),
            final(frame).wf(),
            final(self).camera == old(self).camera,
            forall|j: int|
                0 <= j < 320 ==> (#[trigger] final(self).coverage.columns@[j]).spec_subset_of(
                    old(self).coverage.columns@[j],
                ),
            forall|xx: int, yy: int|
                0 <= xx < 320 && 0 <= yy < 200 && final(self).coverage.columns@[xx].spec_contains(
                    yy,
                ) ==> final(frame).spec_pixel(xx, yy) == old(frame).spec_pixel(xx, yy),
            forall|xx: int, yy: int|
                0 <= xx < 320 && 0 <= yy < 200 && !old(self).coverage.columns@[xx].spec_contains(
                    yy,
                ) ==> final(frame).spec_pixel(xx, yy) == old(frame).spec_pixel(xx, yy),
            forall|xx: int, yy: int|
                0 <= xx < 320 && 0 <= yy < 200 && old(self).coverage.columns@[xx].spec_contains(yy)
                    && !final(self).coverage.columns@[xx].spec_contains(yy) ==> spec_band_color(
                    final(frame).spec_pixel(xx, yy),
                ),
            final(self).queue@.len() >= old(self).queue@.len(),
            forall|i: int|
                0 <= i < old(self).queue@.len() ==> final(self).queue@[i] == old(self).queue@[i],
            forall|i: int|
                old(self).queue@.len() <= i < final(self).queue@.len() ==> {
                    let node = #[trigger] final(self).queue@[i];
                    let sec = map.sectors.sectors@[sid as int];
                    let first = sec.wallptr as int;
                    let count = spec_run_len(sec, map.sectors.walls@.len() as int) as nat;
                    &&& 0 <= node.id < map.sectors.sectors@.len()
                    &&& 0 <= node.clip.l
                    &&& node.clip.r <= 320
                    &&& node.clip.spec_subset_of(*clip)
                    &&& exists|k: nat|
                        spec_pair_yielded(map.sectors.walls@, first, count, k)
                            && map.sectors.walls@[spec_chain(
                            map.sectors.walls@,
                            first,
                            k,
                        )].next_sector == node.id
                },
            forall|k: nat|
                #[trigger] spec_pair_yielded(
                    map.sectors.walls@,
                    map.sectors.sectors@[sid as int].wallptr as int,
                    spec_run_len(
                        map.sectors.sectors@[sid as int],
                        map.sectors.walls@.len() as int,
                    ) as nat,
                    k,
                ) ==> {
                    let pj = spec_pair_project(
                        old(self).camera,
                        map.sectors.sectors@,
                        map.sectors.walls@,
                        sid as int,
                        k,
                    );
                    pj is Some ==> spec_draw_effect(
                        DrawWall {
                            w: pj->0,
                            next: spec_pair_next(
                                map.sectors.sectors@,
                                map.sectors.walls@,
                                sid as int,
                                k,
                            ),
                        },
                        *clip,
                        final(self).coverage.columns@,
                        final(self).queue@,
                        old(self).queue@.len() as int,
                    )
                },
            spec_sector_effects(
                old(self).camera,
                map.sectors.sectors@,
                map.sectors.walls@,
                sid as int,
                *clip,
                final(self).coverage.columns@,
            ),
    {
        let ghost walls_g = map.sectors.walls@;
        let ghost sec_g = map.sectors.sectors@[sid as int];
        let ghost first_g = sec_g.wallptr as int;
        let ghost count_g = spec_run_len(sec_g, walls_g.len() as int) as nat;
        let ghost nsec_g = map.sectors.sectors@.len() as int;
        let sec = map.sectors.sectors[sid as usize];
        self.walls_buf.clear();
        let mut it = map.sectors.sector_walls(sid);
        loop
            invariant_except_break
                it.wf(),
                it.walls@ == walls_g,
                walls_g == map.sectors.walls@,
                nsec_g == map.sectors.sectors@.len(),
                it.len == count_g,
                count_g > 0 ==> it.first == first_g,
                forall|j: nat| 0 < j < it.index ==> spec_chain(walls_g, first_g, j) != first_g,
                forall|i: int|
                    0 <= i < self.walls_buf@.len() ==> spec_projwall_wf(
                        (#[trigger] self.walls_buf@[i]).w,
                    ),
                forall|i: int|
                    0 <= i < self.walls_buf@.len() ==> spec_wall_origin(
                        walls_g,
                        first_g,
                        count_g,
                        nsec_g,
                        #[trigger] self.walls_buf@[i],
                    ),
                sec_g == map.sectors.sectors@[sid as int],
                sec == sec_g,
                first_g == sec_g.wallptr as int,
                count_g == spec_run_len(sec_g, walls_g.len() as int) as nat,
                0 <= sid < map.sectors.sectors@.len(),
                forall|k: nat|
                    k < it.index && #[trigger] spec_pair_yielded(walls_g, first_g, count_g, k)
                        ==> {
                        let pj = spec_pair_project(
                            old(self).camera,
                            map.sectors.sectors@,
                            walls_g,
                            sid as int,
                            k,
                        );
                        pj is Some ==> exists|i: int|
                            0 <= i < self.walls_buf@.len() && self.walls_buf@[i] == (DrawWall {
                                w: pj->0,
                                next: spec_pair_next(map.sectors.sectors@, walls_g, sid as int, k),
                            })
                    },
                self.wf(),
                self.queue@ == old(self).queue@,
                self.camera == old(self).camera,
                self.coverage == old(self).coverage,
            ensures
                forall|i: int|
                    0 <= i < self.walls_buf@.len() ==> spec_projwall_wf(
                        (#[trigger] self.walls_buf@[i]).w,
                    ),
                forall|i: int|
                    0 <= i < self.walls_buf@.len() ==> spec_wall_origin(
                        walls_g,
                        first_g,
                        count_g,
                        nsec_g,
                        #[trigger] self.walls_buf@[i],
                    ),
                forall|k: nat|
                    #[trigger] spec_pair_yielded(walls_g, first_g, count_g, k) ==> {
                        let pj = spec_pair_project(
                            old(self).camera,
                            map.sectors.sectors@,
                            walls_g,
                            sid as int,
                            k,
                        );
                        pj is Some ==> exists|i: int|
                            0 <= i < self.walls_buf@.len() && self.walls_buf@[i] == (DrawWall {
                                w: pj->0,
                                next: spec_pair_next(map.sectors.sectors@, walls_g, sid as int, k),
                            })
                    },
                self.wf(),
                self.queue@ == old(self).queue@,
                self.camera == old(self).camera,
                self.coverage == old(self).coverage,
            decreases it.len - it.index,
        {
            let p = match it.next() {
                Some(p) => p,
                None => {
                    proof {
                        assert forall|k: nat|
                            spec_pair_yielded(walls_g, first_g, count_g, k) implies k
                            < it.index by {
                            if k >= it.index {
                                assert(it.done || it.index >= it.len);
                                if it.index < it.len {
                                    assert(spec_chain(walls_g, first_g, it.index as nat)
                                        == first_g);
                                }
                            }
                        }
                    }
                    break ;
                },
            };
            let (_, left, right) = p;
            let ghost k = (it.index - 1) as nat;
            proof {
                assert(left == walls_g[spec_chain(walls_g, first_g, k)]);
                assert(right == walls_g[crate::sector::spec_loop_step(
                    walls_g,
                    first_g,
                    spec_chain(walls_g, first_g, k),
                )]);
            }
            let nsid = left.next_sector;
            let ns_valid = nsid >= 0 && (nsid as usize) < map.sectors.sectors.len();
            let pj = if ns_valid {
                let nsec = &map.sectors.sectors[nsid as usize];
                project_wall(&self.camera, &left, &right, &sec, Some(nsec))
            } else {
                project_wall(&self.camera, &left, &right, &sec, None)
            };
            proof {
                if ns_valid {
                    assert(pj == spec_project(
                        old(self).camera,
                        left,
                        right,
                        sec,
                        Some(map.sectors.sectors@[nsid as int]),
                    ));
                } else {
                    assert(pj == spec_project(old(self).camera, left, right, sec, None::<Sector>));
                }
                assert(pj == spec_pair_project(
                    old(self).camera,
                    map.sectors.sectors@,
                    walls_g,
                    sid as int,
                    k,
                ));
            }
            match pj {
                Some(w) => {
                    let next: i16 = if ns_valid {
                        nsid
                    } else {
                        -1
                    };
                    let dw = DrawWall { w, next };
                    let ghost wb_pre = self.walls_buf@;
                    proof {
                        if next != -1 {
                            assert(spec_pair_yielded(walls_g, first_g, count_g, k));
                            assert(walls_g[spec_chain(walls_g, first_g, k)].next_sector == next);
                        }
                        assert(spec_wall_origin(walls_g, first_g, count_g, nsec_g, dw));
                        assert(next == spec_pair_next(
                            map.sectors.sectors@,
                            walls_g,
                            sid as int,
                            k,
                        ));
                    }
                    self.walls_buf.push(dw);
                    proof {
                        let wb = self.walls_buf@;
                        assert(wb[wb.len() - 1] == dw);
                        assert forall|k2: nat|
                            k2 < it.index && #[trigger] spec_pair_yielded(
                                walls_g,
                                first_g,
                                count_g,
                                k2,
                            ) implies ({
                            let pj2 = spec_pair_project(
                                old(self).camera,
                                map.sectors.sectors@,
                                walls_g,
                                sid as int,
                                k2,
                            );
                            pj2 is Some ==> exists|i: int|
                                0 <= i < wb.len() && wb[i] == (DrawWall {
                                    w: pj2->0,
                                    next: spec_pair_next(
                                        map.sectors.sectors@,
                                        walls_g,
                                        sid as int,
                                        k2,
                                    ),
                                })
                        }) by {
                            let pj2 = spec_pair_project(
                                old(self).camera,
                                map.sectors.sectors@,
                                walls_g,
                                sid as int,
                                k2,
                            );
                            if pj2 is Some {
                                let v = DrawWall {
                                    w: pj2->0,
                                    next: spec_pair_next(
                                        map.sectors.sectors@,
                                        walls_g,
                                        sid as int,
                                        k2,
                                    ),
                                };
                                if k2 == k {
                                    assert(v == dw);
                                    assert(wb[wb.len() - 1] == v);
                                } else {
                                    assert(k2 < k);
                                    let i = choose|i: int|
                                        0 <= i < wb_pre.len() && wb_pre[i] == v;
                                    assert(wb[i] == v);
                                }
                            }
                        }
                    }
                },
                None => {},
            }
        }
        let ghost q0 = self.queue@;
        let ghost collected_g = self.walls_buf@;
        sort_walls(&mut self.walls_buf, &mut self.sorted_buf);
        proof {
            assert forall|i: int|
                0 <= i < self.sorted_buf@.len() implies spec_projwall_wf(
                (#[trigger] self.sorted_buf@[i]).w,
            ) && spec_wall_origin(walls_g, first_g, count_g, nsec_g, self.sorted_buf@[i]) by {}
        }
        let mut k: usize = 0;
        while k < self.sorted_buf.len()
            invariant
                k <= self.sorted_buf@.len(),
                walls_g == map.sectors.walls@,
                nsec_g == map.sectors.sectors@.len(),
                sec_g == map.sectors.sectors@[sid as int],
                first_g == sec_g.wallptr as int,
                count_g == spec_run_len(sec_g, walls_g.len() as int) as nat,
                forall|i: int|
                    0 <= i < self.sorted_buf@.len() ==> spec_projwall_wf(
                        (#[trigger] self.sorted_buf@[i]).w,
                    ),
                forall|i: int|
                    0 <= i < self.sorted_buf@.len() ==> spec_wall_origin(
                        walls_g,
                        first_g,
                        count_g,
                        nsec_g,
                        #[trigger] self.sorted_buf@[i],
                    ),
                self.wf(),
                frame.wf(),
                self.camera == old(self).camera,
                0 <= clip.l,
                clip.r <= 320,
                q0 == old(self).queue@,
                self.sorted_buf@.to_multiset() == collected_g.to_multiset(),
                forall|k2: nat|
                    #[trigger] spec_pair_yielded(walls_g, first_g, count_g, k2) ==> {
                        let pj = spec_pair_project(
                            old(self).camera,
                            map.sectors.sectors@,
                            walls_g,
                            sid as int,
                            k2,
                        );
                        pj is Some ==> exists|i: int|
                            0 <= i < collected_g.len() && collected_g[i] == (DrawWall {
                                w: pj->0,
                                next: spec_pair_next(
                                    map.sectors.sectors@,
                                    walls_g,
                                    sid as int,
                                    k2,
                                ),
                            })
                    },
                self.queue@.len() >= q0.len(),
                forall|i: int| 0 <= i < q0.len() ==> self.queue@[i] == q0[i],
                forall|i: int|
                    q0.len() <= i < self.queue@.len() ==> {
                        let node = #[trigger] self.queue@[i];
                        &&& 0 <= node.id < nsec_g
                        &&& 0 <= node.clip.l
                        &&& node.clip.r <= 320
                        &&& node.clip.spec_subset_of(*clip)
                        &&& exists|kk: nat|
                            spec_pair_yielded(walls_g, first_g, count_g, kk) && walls_g[spec_chain(
                                walls_g,
                                first_g,
                                kk,
                            )].next_sector == node.id
                    },
                forall|j: int|
                    0 <= j < 320 ==> (#[trigger] self.coverage.columns@[j]).spec_subset_of(
                        old(self).coverage.columns@[j],
                    ),
                forall|xx: int, yy: int|
                    0 <= xx < 320 && 0 <= yy < 200 && self.coverage.columns@[xx].spec_contains(yy)
                        ==> frame.spec_pixel(xx, yy) == old(frame).spec_pixel(xx, yy),
                forall|xx: int, yy: int|
                    0 <= xx < 320 && 0 <= yy < 200 && !old(self).coverage.columns@[xx].spec_contains(
                        yy,
                    ) ==> frame.spec_pixel(xx, yy) == old(frame).spec_pixel(xx, yy),
                forall|xx: int, yy: int|
                    0 <= xx < 320 && 0 <= yy < 200 && old(self).coverage.columns@[xx].spec_contains(
                        yy,
                    ) && !self.coverage.columns@[xx].spec_contains(yy) ==> spec_band_color(
                        frame.spec_pixel(xx, yy),
                    ),
                forall|i: int|
                    0 <= i < k ==> spec_draw_effect(
                        #[trigger] self.sorted_buf@[i],
                        *clip,
                        self.coverage.columns@,
                        self.queue@,
                        q0.len() as int,
                    ),
            decreases self.sorted_buf@.len() - k,
        {
            let ghost cov_before = self.coverage.columns@;
            let ghost q_before = self.queue@;
            let dw = self.sorted_buf[k];
            if dw.next == -1 {
                render_solid(&mut self.coverage, frame, &dw.w, clip);
                proof {
                    assert(spec_draw_effect(
                        dw,
                        *clip,
                        self.coverage.columns@,
                        self.queue@,
                        q0.len() as int,
                    ));
                }
            } else {
                match render_portal(&mut self.coverage, frame, &dw.w, clip) {
                    Some(iv) => {
                        let inter = iv.intersect(clip);
                        if !inter.is_empty() {
                            self.queue.push(RenderSector { id: dw.next, clip: inter });
                        }
                        proof {
                            let lo = spec_span_lo(dw.w, *clip);
                            let hi = spec_span_hi(dw.w, *clip);
                            assert(iv.l == lo && iv.r == hi && lo < hi);
                            assert(inter.l == lo && inter.r == hi && !inter.spec_is_empty());
                            assert(self.queue@[self.queue@.len() - 1] == (RenderSector {
                                id: dw.next,
                                clip: Interval { l: lo as i32, r: hi as i32 },
                            }));
                            assert forall|j: int|
                                lo <= j < hi implies (#[trigger] self.coverage.columns@[j]).spec_subset_of(
                                spec_portal_hole(dw.w, j),
                            ) by {}
                            assert(spec_draw_effect(
                                dw,
                                *clip,
                                self.coverage.columns@,
                                self.queue@,
                                q0.len() as int,
                            ));
                        }
                    },
                    None => {
                        proof {
                            assert(spec_span_lo(dw.w, *clip) >= spec_span_hi(dw.w, *clip));
                            assert(spec_draw_effect(
                                dw,
                                *clip,
                                self.coverage.columns@,
                                self.queue@,
                                q0.len() as int,
                            ));
                        }
                    },
                }
            }
            proof {
                assert forall|j: int|
                    0 <= j < 320 implies (#[trigger] self.coverage.columns@[j]).spec_subset_of(
                    old(self).coverage.columns@[j],
                ) by {
                    crate::interval::lemma_subset_transitive(
                        self.coverage.columns@[j],
                        cov_before[j],
                        old(self).coverage.columns@[j],
                    );
                }
                assert forall|xx: int, yy: int|
                    0 <= xx < 320 && 0 <= yy < 200 && !old(self).coverage.columns@[xx].spec_contains(
                        yy,
                    ) implies frame.spec_pixel(xx, yy) == old(frame).spec_pixel(xx, yy) by {
                    assert(!cov_before[xx].spec_contains(yy));
                }
                assert forall|xx: int, yy: int|
                    0 <= xx < 320 && 0 <= yy < 200 && old(self).coverage.columns@[xx].spec_contains(
                        yy,
                    ) && !self.coverage.columns@[xx].spec_contains(yy) implies spec_band_color(
                    frame.spec_pixel(xx, yy),
                ) by {
                    if cov_before[xx].spec_contains(yy) {
                        let lo = spec_span_lo(dw.w, *clip);
                        let hi = spec_span_hi(dw.w, *clip);
                        assert(lo <= xx < hi);
                        if dw.next == -1 {
                            assert(frame.spec_pixel(xx, yy) == spec_solid_color(dw.w, xx, yy));
                        } else {
                            assert(!spec_portal_hole(dw.w, xx).spec_contains(yy));
                            assert(frame.spec_pixel(xx, yy) == spec_portal_color(dw.w, xx, yy));
                        }
                    }
                }
                assert forall|i: int|
                    0 <= i < k implies spec_draw_effect(
                    #[trigger] self.sorted_buf@[i],
                    *clip,
                    self.coverage.columns@,
                    self.queue@,
                    q0.len() as int,
                ) by {
                    let dwi = self.sorted_buf@[i];
                    let lo = spec_span_lo(dwi.w, *clip);
                    let hi = spec_span_hi(dwi.w, *clip);
                    if dwi.next == -1 {
                        assert forall|j: int|
                            lo <= j < hi implies (#[trigger] self.coverage.columns@[j]).spec_is_empty() by {
                            assert(cov_before[j].spec_is_empty());
                            crate::interval::lemma_subset_of_empty(
                                self.coverage.columns@[j],
                                cov_before[j],
                            );
                        }
                    } else {
                        assert forall|j: int|
                            lo <= j < hi implies (#[trigger] self.coverage.columns@[j]).spec_subset_of(
                            spec_portal_hole(dwi.w, j),
                        ) by {
                            crate::interval::lemma_subset_transitive(
                                self.coverage.columns@[j],
                                cov_before[j],
                                spec_portal_hole(dwi.w, j),
                            );
                        }
                        if lo < hi {
                            let ii = choose|ii: int|
                                q0.len() <= ii < q_before.len() && q_before[ii] == (RenderSector {
                                    id: dwi.next,
                                    clip: Interval { l: lo as i32, r: hi as i32 },
                                });
                            assert(self.queue@[ii] == q_before[ii]);
                        }
                    }
                }
            }
            k += 1;
        }
        proof {
            assert forall|k2: nat|
                #[trigger] spec_pair_yielded(walls_g, first_g, count_g, k2) implies ({
                let pj = spec_pair_project(
                    old(self).camera,
                    map.sectors.sectors@,
                    walls_g,
                    sid as int,
                    k2,
                );
                pj is Some ==> spec_draw_effect(
                    DrawWall {
                        w: pj->0,
                        next: spec_pair_next(map.sectors.sectors@, walls_g, sid as int, k2),
                    },
                    *clip,
                    self.coverage.columns@,
                    self.queue@,
                    q0.len() as int,
                )
            }) by {
                let pj = spec_pair_project(
                    old(self).camera,
                    map.sectors.sectors@,
                    walls_g,
                    sid as int,
                    k2,
                );
                if pj is Some {
                    let v = DrawWall {
                        w: pj->0,
                        next: spec_pair_next(map.sectors.sectors@, walls_g, sid as int, k2),
                    };
                    let i = choose|i: int| 0 <= i < collected_g.len() && collected_g[i] == v;
                    assert(collected_g.contains(v));
                    assert(collected_g.to_multiset().count(v) > 0);
                    assert(self.sorted_buf@.to_multiset().count(v) > 0);
                    assert(self.sorted_buf@.contains(v));
                    let i2 = choose|i2: int|
                        0 <= i2 < self.sorted_buf@.len() && self.sorted_buf@[i2] == v;
                    assert(spec_draw_effect(
                        self.sorted_buf@[i2],
                        *clip,
                        self.coverage.columns@,
                        self.queue@,
                        q0.len() as int,
                    ));
                }
            }
        }
    }
}

} // verus!
