//! Per-frame player movement.
//!
//! `update_player` applies the frame's linear and angular velocities to
//! the player and, by testing the movement segment against every portal
//! wall of the current sector, detects when the player walks through a
//! portal into a neighbouring sector. Crossings are detected, never
//! prevented: there is no collision against solid walls.

use crate::player::Angle;
use crate::sector::{spec_chain, spec_loop_step, spec_run_len, Sector, Wall};
use crate::trig::{dir_cos, dir_sin, spec_dir_cos, spec_dir_sin};
use crate::Level;
use vstd::prelude::*;

verus! {

/// Linear and angular velocities for one frame.
#[derive(Debug, Default, PartialEq, Eq, Structural, Copy, Clone)]
pub struct UpdateOpts {
    /// Linear forwards velocity.
    pub forwards: i32,
    /// Linear sideways velocity.
    pub sideways: i32,
    /// Rotation velocity in angle units.
    pub rotate: i16,
}

/// Truncating division for a positive divisor, matching the machine's
/// signed division.
pub open spec fn spec_div_trunc(a: int, b: int) -> int {
    if a >= 0 {
        a / b
    } else {
        -((-a) / b)
    }
}

/// `i16` addition that wraps around, as the angle update does.
pub open spec fn spec_wrap_add_i16(a: int, b: int) -> int {
    if a + b > i16::MAX {
        a + b - 0x10000
    } else if a + b < i16::MIN {
        a + b + 0x10000
    } else {
        a + b
    }
}

/// `i32` saturating addition, as the position update does.
pub open spec fn spec_sat_add_i32(a: int, b: int) -> int {
    if a + b > i32::MAX {
        i32::MAX as int
    } else if a + b < i32::MIN {
        i32::MIN as int
    } else {
        a + b
    }
}

/// The player's orientation after one frame of rotation.
pub open spec fn spec_rotated(a: Angle, rotate: i16) -> Angle {
    if rotate != 0 {
        Angle { units: spec_wrap_add_i16(a.units as int, rotate as int) as i16 }
    } else {
        a
    }
}

/// The world-space displacement of one frame: the velocity vector
/// rotated into the view direction, truncated to whole units.
/// `dx = -sin * forwards + cos * sideways`, `dy = cos * forwards
/// + sin * sideways`, both over the Q14 direction of `a`.
pub open spec fn spec_step_dx(a: Angle, opts: UpdateOpts) -> int {
    spec_div_trunc(
        spec_dir_cos(a) * opts.sideways - spec_dir_sin(a) * opts.forwards,
        16384,
    )
}

/// See `spec_step_dx`; the Y component.
pub open spec fn spec_step_dy(a: Angle, opts: UpdateOpts) -> int {
    spec_div_trunc(
        spec_dir_cos(a) * opts.forwards + spec_dir_sin(a) * opts.sideways,
        16384,
    )
}

/// Sign of an integer: -1, 0 or 1.
pub open spec fn spec_sign(a: int) -> int {
    if a > 0 {
        1
    } else if a < 0 {
        -1
    } else {
        0
    }
}

/// Absolute value.
pub open spec fn spec_abs(a: int) -> int {
    if a >= 0 {
        a
    } else {
        -a
    }
}

/// Whether the movement segment `(px, py) -> (tx, ty)` crosses the wall
/// segment from `left`'s point to `right`'s point, by the standard
/// numerator/denominator segment-intersection test.
pub open spec fn spec_crossed(left: Wall, right: Wall, px: int, py: int, tx: int, ty: int) -> bool {
    let lx = left.x as int;
    let ly = left.y as int;
    let rx = right.x as int;
    let ry = right.y as int;
    let num0 = (px - lx) * (ty - py) - (tx - px) * (py - ly);
    let num1 = (rx - lx) * (py - ly) - (px - lx) * (ry - ly);
    let den = (rx - lx) * (ty - py) - (tx - px) * (ry - ly);
    &&& spec_abs(num0) <= spec_abs(den)
    &&& spec_abs(num1) <= spec_abs(den)
    &&& spec_sign(num0) == spec_sign(den)
    &&& spec_sign(num1) == spec_sign(den)
}

/// Exec form of the segment-intersection test.
pub fn intrsect_movement_with_wall(
    left: &Wall,
    right: &Wall,
    p: [i32; 2],
    t: [i32; 2],
) -> (r: bool)
    ensures
        r == spec_crossed(*left, *right, p[0] as int, p[1] as int, t[0] as int, t[1] as int),
{
    let px = p[0] as i128;
    let py = p[1] as i128;
    let tx = t[0] as i128;
    let ty = t[1] as i128;
    let lx = left.x as i128;
    let ly = left.y as i128;
    let rx = right.x as i128;
    let ry = right.y as i128;
    proof {
        lemma_diff_product_bound(px - lx, ty - py);
        lemma_diff_product_bound(tx - px, py - ly);
        lemma_diff_product_bound(rx - lx, py - ly);
        lemma_diff_product_bound(px - lx, ry - ly);
        lemma_diff_product_bound(rx - lx, ty - py);
        lemma_diff_product_bound(tx - px, ry - ly);
    }
    let num0: i128 = (px - lx) * (ty - py) - (tx - px) * (py - ly);
    let num1: i128 = (rx - lx) * (py - ly) - (px - lx) * (ry - ly);
    let den: i128 = (rx - lx) * (ty - py) - (tx - px) * (ry - ly);
    let a0: i128 = if num0 >= 0 { num0 } else { -num0 };
    let a1: i128 = if num1 >= 0 { num1 } else { -num1 };
    let ad: i128 = if den >= 0 { den } else { -den };
    let s0: i128 = if num0 > 0 { 1 } else if num0 < 0 { -1 } else { 0 };
    let s1: i128 = if num1 > 0 { 1 } else if num1 < 0 { -1 } else { 0 };
    let sd: i128 = if den > 0 { 1 } else if den < 0 { -1 } else { 0 };
    a0 <= ad && a1 <= ad && s0 == sd && s1 == sd
}

/// A Q14 coefficient times a 32-bit value stays within 2^45.
proof fn lemma_q14_mul_bound(a: int, b: int)
    requires
        -16384 <= a <= 16384,
        -0x80000000 <= b <= 0x80000000,
    ensures
        spec_abs(a * b) <= 0x200000000000,
{
    assert(spec_abs(a * b) <= 0x200000000000) by (nonlinear_arith)
        requires
            -16384 <= a <= 16384,
            -0x80000000 <= b <= 0x80000000,
    ;
}

/// The product of two differences of 32-bit values is below 2^64.
proof fn lemma_diff_product_bound(a: int, b: int)
    requires
        -0x100000000 <= a <= 0x100000000,
        -0x100000000 <= b <= 0x100000000,
    ensures
        spec_abs(a * b) <= 0x10000000000000000,
{
    assert(spec_abs(a * b) <= 0x10000000000000000) by (nonlinear_arith)
        requires
            -0x100000000 <= a <= 0x100000000,
            -0x100000000 <= b <= 0x100000000,
    ;
}

/// Pair `k` of the wall loop starting at `first`: the wall reached after
/// `k` steps and the wall holding its right endpoint.
pub open spec fn spec_pair_left(walls: Seq<Wall>, first: int, k: nat) -> Wall {
    walls[spec_chain(walls, first, k)]
}

/// The walk actually yields pair `k`: it is below the sector's wall
/// count and the loop has not closed earlier.
pub open spec fn spec_pair_yielded(walls: Seq<Wall>, first: int, count: nat, k: nat) -> bool {
    &&& k < count
    &&& forall|j: nat| 0 < j <= k ==> spec_chain(walls, first, j) != first
}

/// Pair `k` is a portal wall (its far sector id in range, anything else
/// counts as solid) that the movement segment crosses.
pub open spec fn spec_portal_crossed(
    walls: Seq<Wall>,
    first: int,
    k: nat,
    nsectors: int,
    px: int,
    py: int,
    tx: int,
    ty: int,
) -> bool {
    let li = spec_chain(walls, first, k);
    let left = walls[li];
    let right = walls[spec_loop_step(walls, first, li)];
    0 <= left.next_sector < nsectors && spec_crossed(left, right, px, py, tx, ty)
}

/// Saturating `i32 + i64` addition.
fn sat_add_i32(a: i32, d: i64) -> (r: i32)
    requires
        -0x400000000000 <= d <= 0x400000000000,
    ensures
        r == spec_sat_add_i32(a as int, d as int),
{
    let s: i64 = (a as i64) + d;
    if s > (i32::MAX as i64) {
        i32::MAX
    } else if s < (i32::MIN as i64) {
        i32::MIN
    } else {
        s as i32
    }
}

/// Truncating division of a Q14 value by the unit, positive divisor.
fn div_trunc_q14(a: i64) -> (r: i64)
    requires
        -0x400000000000000 <= a <= 0x400000000000000,
    ensures
        r == spec_div_trunc(a as int, 16384),
{
    if a >= 0 {
        a / 16384
    } else {
        -((-a) / 16384)
    }
}

/// How the player's sector may change in one movement step: when at
/// least one yielded portal wall of the starting sector is crossed by
/// the movement segment, the new sector is the one behind the first such
/// wall in loop order; otherwise the sector stays. A starting sector
/// outside the sector array is left untouched.
pub open spec fn spec_sector_followed(m: Level, opts: UpdateOpts, new_sector: i16) -> bool {
    let a = spec_rotated(m.player.angle, opts.rotate);
    let walls = m.sectors.walls@;
    let nsectors = m.sectors.sectors@.len() as int;
    let ps = m.player.sector as int;
    let px = m.player.pos_x as int;
    let py = m.player.pos_y as int;
    let tx = spec_sat_add_i32(px, spec_step_dx(a, opts));
    let ty = spec_sat_add_i32(py, spec_step_dy(a, opts));
    if 0 <= ps < m.sectors.sectors@.len() {
        let sec = m.sectors.sectors@[ps];
        let first = sec.wallptr as int;
        let count = spec_run_len(sec, walls.len() as int) as nat;
        &&& ((exists|k: nat|
            spec_pair_yielded(walls, first, count, k) && spec_portal_crossed(
                walls,
                first,
                k,
                nsectors,
                px,
                py,
                tx,
                ty,
            )) ==> (exists|k: nat|
            {
                &&& spec_pair_yielded(walls, first, count, k)
                &&& spec_portal_crossed(walls, first, k, nsectors, px, py, tx, ty)
                &&& forall|j: nat|
                    j < k ==> !spec_portal_crossed(walls, first, j, nsectors, px, py, tx, ty)
                &&& new_sector == spec_pair_left(walls, first, k).next_sector
            }))
        &&& ((forall|k: nat|
            spec_pair_yielded(walls, first, count, k) ==> !spec_portal_crossed(
                walls,
                first,
                k,
                nsectors,
                px,
                py,
                tx,
                ty,
            )) ==> new_sector == m.player.sector)
    } else {
        new_sector == m.player.sector
    }
}

/// Apply one frame of movement: rotate the player, displace it along its
/// view direction, and follow the first crossed portal wall of its
/// sector, if any, into the neighbouring sector.
pub fn update_player(map: &mut Level, opts: &UpdateOpts)
    ensures
        final(map).version == old(map).version,
        final(map).sectors.sectors@ == old(map).sectors.sectors@,
        final(map).sectors.walls@ == old(map).sectors.walls@,
        final(map).sprites@ == old(map).sprites@,
        final(map).player.pos_z == old(map).player.pos_z,
        final(map).player.angle == spec_rotated(old(map).player.angle, opts.rotate),
        ({
            let a = spec_rotated(old(map).player.angle, opts.rotate);
            &&& final(map).player.pos_x == spec_sat_add_i32(
                old(map).player.pos_x as int,
                spec_step_dx(a, *opts),
            )
            &&& final(map).player.pos_y == spec_sat_add_i32(
                old(map).player.pos_y as int,
                spec_step_dy(a, *opts),
            )
        }),
        spec_sector_followed(*old(map), *opts, final(map).player.sector),
{
    if opts.rotate != 0 {
        let sum: i32 = (map.player.angle.units as i32) + (opts.rotate as i32);
        let wrapped: i32 = if sum > 32767 {
            sum - 65536
        } else if sum < -32768 {
            sum + 65536
        } else {
            sum
        };
        map.player.angle = Angle { units: wrapped as i16 };
    }
    let s: i64 = dir_sin(&map.player.angle);
    let c: i64 = dir_cos(&map.player.angle);
    let f: i64 = opts.forwards as i64;
    let w: i64 = opts.sideways as i64;
    proof {
        lemma_q14_mul_bound(s as int, f as int);
        lemma_q14_mul_bound(c as int, w as int);
        lemma_q14_mul_bound(c as int, f as int);
        lemma_q14_mul_bound(s as int, w as int);
    }
    let dx: i64 = div_trunc_q14(c * w - s * f);
    let dy: i64 = div_trunc_q14(c * f + s * w);
    let px: i32 = map.player.pos_x;
    let py: i32 = map.player.pos_y;
    let tx: i32 = sat_add_i32(px, dx);
    let ty: i32 = sat_add_i32(py, dy);
    let sector_id = map.player.sector;
    let mut new_sector: i16 = sector_id;
    if sector_id >= 0 && (sector_id as usize) < map.sectors.sectors.len() {
        let ghost walls_g = map.sectors.walls@;
        let ghost nsec_g = map.sectors.sectors@.len() as int;
        let ghost sec_g = map.sectors.sectors@[sector_id as int];
        let ghost first_g = sec_g.wallptr as int;
        let ghost count_g = spec_run_len(sec_g, walls_g.len() as int) as nat;
        let mut it = map.sectors.sector_walls(sector_id);
        let mut found = false;
        loop
            invariant_except_break
                it.wf(),
                it.walls@ == walls_g,
                nsec_g == map.sectors.sectors@.len(),
                it.len == count_g,
                count_g > 0 ==> it.first == first_g,
                !found,
                new_sector == sector_id,
                forall|j: nat|
                    0 < j < it.index ==> spec_chain(walls_g, first_g, j) != first_g,
                forall|j: nat|
                    j < it.index ==> !spec_portal_crossed(
                        walls_g,
                        first_g,
                        j,
                        nsec_g,
                        px as int,
                        py as int,
                        tx as int,
                        ty as int,
                    ),
            ensures
                found ==> (exists|k: nat|
                    {
                        &&& spec_pair_yielded(walls_g, first_g, count_g, k)
                        &&& spec_portal_crossed(
                            walls_g,
                            first_g,
                            k,
                            nsec_g,
                            px as int,
                            py as int,
                            tx as int,
                            ty as int,
                        )
                        &&& forall|j: nat|
                            j < k ==> !spec_portal_crossed(
                                walls_g,
                                first_g,
                                j,
                                nsec_g,
                                px as int,
                                py as int,
                                tx as int,
                                ty as int,
                            )
                        &&& new_sector == spec_pair_left(walls_g, first_g, k).next_sector
                    }),
                !found ==> new_sector == sector_id && (forall|k: nat|
                    spec_pair_yielded(walls_g, first_g, count_g, k) ==> !spec_portal_crossed(
                        walls_g,
                        first_g,
                        k,
                        nsec_g,
                        px as int,
                        py as int,
                        tx as int,
                        ty as int,
                    )),
            decreases count_g - it.index,
        {
            let step = it.next();
            match step {
                None => {
                    proof {
                        assert forall|k: nat|
                            spec_pair_yielded(walls_g, first_g, count_g, k) implies !spec_portal_crossed(
                            walls_g,
                            first_g,
                            k,
                            nsec_g,
                            px as int,
                            py as int,
                            tx as int,
                            ty as int,
                        ) by {
                            if k >= it.index {
                                assert(it.done || it.index >= it.len);
                                if it.index < it.len {
                                    assert(spec_chain(walls_g, first_g, it.index as nat)
                                        == first_g);
                                }
                            }
                        }
                    }
                    break ;
                },
                Some(pair) => {
                    let (_, left, right) = pair;
                    if left.next_sector >= 0 && (left.next_sector as usize)
                        < map.sectors.sectors.len() && intrsect_movement_with_wall(
                        &left,
                        &right,
                        [px, py],
                        [tx, ty],
                    ) {
                        new_sector = left.next_sector;
                        found = true;
                        proof {
                            let k = (it.index - 1) as nat;
                            assert(spec_pair_yielded(walls_g, first_g, count_g, k));
                            assert(spec_portal_crossed(
                                walls_g,
                                first_g,
                                k,
                                nsec_g,
                                px as int,
                                py as int,
                                tx as int,
                                ty as int,
                            ));
                        }
                        break ;
                    }
                },
            }
        }
        map.player.sector = new_sector;
    }
    map.player.pos_x = tx;
    map.player.pos_y = ty;
}

/// Key-state bit for moving forwards.
pub const INPUT_FORWARDS: u16 = 0x1;

/// Key-state bit for moving backwards.
pub const INPUT_BACKWARDS: u16 = 0x2;

/// Key-state bit for strafing right.
pub const INPUT_RIGHT: u16 = 0x4;

/// Key-state bit for strafing left.
pub const INPUT_LEFT: u16 = 0x8;

/// Key-state bit for flying up.
pub const INPUT_UP: u16 = 0x10;

/// Key-state bit for flying down.
pub const INPUT_DOWN: u16 = 0x20;

/// Key-state bit for turning right.
pub const INPUT_LOOK_RIGHT: u16 = 0x40;

/// Key-state bit for turning left.
pub const INPUT_LOOK_LEFT: u16 = 0x80;

/// Key-state bit for crouching.
pub const INPUT_CROUCH: u16 = 0x100;

/// The pressed-key state of one frame, as `INPUT_*` bits.
#[derive(Debug, Default, PartialEq, Eq, Structural, Copy, Clone)]
pub struct Input {
    pub bits: u16,
}

impl Input {
    /// True when every bit of `mask` is pressed.
    pub open spec fn spec_contains(self, mask: u16) -> bool {
        self.bits & mask == mask
    }

    /// True when every bit of `mask` is pressed.
    pub fn contains(&self, mask: u16) -> (r: bool)
        ensures
            r == self.spec_contains(mask),
    {
        self.bits & mask == mask
    }
}

/// One frame of acceleration on a single velocity axis: accelerate by
/// `step` while a direction key is held (both keys cancel into reverse),
/// otherwise decay towards zero by one unit per frame.
pub open spec fn spec_axis_accel(v: int, pos: bool, neg: bool, step: int) -> int {
    if pos || neg {
        if neg {
            v - step
        } else {
            v + step
        }
    } else if v > 0 {
        v - 1
    } else if v < 0 {
        v + 1
    } else {
        v
    }
}

/// Clamp `v` into `[lo, hi]`, `max` before `min` as the controller does.
pub open spec fn spec_clamp(v: int, lo: int, hi: int) -> int {
    let w = if v >= lo {
        v
    } else {
        lo
    };
    if w <= hi {
        w
    } else {
        hi
    }
}

/// The controller's velocities after one frame of key input.
pub open spec fn spec_opts_updated(o: UpdateOpts, input: Input, max_speed: int) -> UpdateOpts {
    UpdateOpts {
        forwards: spec_clamp(
            spec_axis_accel(
                o.forwards as int,
                input.spec_contains(INPUT_FORWARDS),
                input.spec_contains(INPUT_BACKWARDS),
                6,
            ),
            -max_speed,
            max_speed,
        ) as i32,
        sideways: spec_clamp(
            spec_axis_accel(
                o.sideways as int,
                input.spec_contains(INPUT_RIGHT),
                input.spec_contains(INPUT_LEFT),
                6,
            ),
            -max_speed,
            max_speed,
        ) as i32,
        rotate: spec_clamp(
            spec_axis_accel(
                o.rotate as int,
                input.spec_contains(INPUT_LOOK_RIGHT),
                input.spec_contains(INPUT_LOOK_LEFT),
                2,
            ),
            -8,
            8,
        ) as i16,
    }
}

/// One frame of a single axis, exec form; works in wide arithmetic so
/// acceleration near the numeric limits saturates at the clamp.
fn axis_accel_clamped(v: i64, pos: bool, neg: bool, step: i64, lo: i64, hi: i64) -> (r: i64)
    requires
        -0x80000000 <= v <= 0x80000000,
        0 < step <= 8,
        -0x80000000 <= lo <= 0x80000000,
        -0x80000000 <= hi <= 0x80000000,
    ensures
        r == spec_clamp(spec_axis_accel(v as int, pos, neg, step as int), lo as int, hi as int),
        lo <= hi ==> lo <= r <= hi,
        r == spec_axis_accel(v as int, pos, neg, step as int) || r == lo || r == hi,
{
    let a: i64 = if pos || neg {
        if neg {
            v - step
        } else {
            v + step
        }
    } else if v > 0 {
        v - 1
    } else if v < 0 {
        v + 1
    } else {
        v
    };
    let w: i64 = if a >= lo {
        a
    } else {
        lo
    };
    if w <= hi {
        w
    } else {
        hi
    }
}

/// A very basic player controller: it turns held keys into velocities
/// and keeps the player's eye at a fixed height over the floor.
#[derive(Debug)]
pub struct InputController {
    /// Largest linear speed the controller accelerates to.
    pub max_speed: i32,
    /// When set, vertical movement is free between floor and ceiling.
    pub fly: bool,
    /// Eye height over the floor, taken from the starting position.
    pub eye_height: i32,
    /// Velocities carried between frames.
    pub opts: UpdateOpts,
}

/// `i32` saturating subtraction.
pub open spec fn spec_sat_sub_i32(a: int, b: int) -> int {
    if a - b > i32::MAX {
        i32::MAX as int
    } else if a - b < i32::MIN {
        i32::MIN as int
    } else {
        a - b
    }
}

impl InputController {
    /// Build a controller whose eye height is the player's starting
    /// height over the floor of its starting sector (zero floor when the
    /// starting sector is out of range).
    pub fn new(map: &Level) -> (r: InputController)
        ensures
            r.max_speed == 32,
            !r.fly,
            r.opts == (UpdateOpts { forwards: 0, sideways: 0, rotate: 0 }),
            ({
                let ps = map.player.sector as int;
                let floor = if 0 <= ps < map.sectors.sectors@.len() {
                    map.sectors.sectors@[ps].floor_z as int
                } else {
                    0int
                };
                r.eye_height == spec_sat_sub_i32(map.player.pos_z as int, floor)
            }),
    {
        let ps = map.player.sector;
        let floor: i32 = if ps >= 0 && (ps as usize) < map.sectors.sectors.len() {
            map.sectors.sectors[ps as usize].floor_z
        } else {
            0
        };
        let d: i64 = (map.player.pos_z as i64) - (floor as i64);
        let eye_height: i32 = if d > (i32::MAX as i64) {
            i32::MAX
        } else if d < (i32::MIN as i64) {
            i32::MIN
        } else {
            d as i32
        };
        InputController {
            max_speed: 32,
            fly: false,
            eye_height,
            opts: UpdateOpts { forwards: 0, sideways: 0, rotate: 0 },
        }
    }

    /// Advance the velocities by one frame of key input.
    pub fn update_opts(&mut self, input: &Input)
        ensures
            final(self).opts == spec_opts_updated(old(self).opts, *input, old(self).max_speed as int),
            final(self).max_speed == old(self).max_speed,
            final(self).fly == old(self).fly,
            final(self).eye_height == old(self).eye_height,
    {
        let max: i64 = self.max_speed as i64;
        let f = axis_accel_clamped(
            self.opts.forwards as i64,
            input.contains(INPUT_FORWARDS),
            input.contains(INPUT_BACKWARDS),
            6,
            -max,
            max,
        );
        let w = axis_accel_clamped(
            self.opts.sideways as i64,
            input.contains(INPUT_RIGHT),
            input.contains(INPUT_LEFT),
            6,
            -max,
            max,
        );
        let rot = axis_accel_clamped(
            self.opts.rotate as i64,
            input.contains(INPUT_LOOK_RIGHT),
            input.contains(INPUT_LOOK_LEFT),
            2,
            -8,
            8,
        );
        self.opts = UpdateOpts { forwards: f as i32, sideways: w as i32, rotate: rot as i16 };
    }
}

/// The eye-height rule for one frame: when flying, follow the up/down
/// keys and stay between ceiling and floor; otherwise glide the eye
/// halfway towards its resting height over the floor (halved again while
/// crouching). The glide delta is halved rounding down.
pub open spec fn spec_eye_new_z(z: int, sec: Sector, fly: bool, eye: int, input: Input) -> int {
    if fly {
        let z1 = if input.spec_contains(INPUT_UP) {
            spec_sat_sub_i32(z, 500)
        } else {
            z
        };
        let z2 = if input.spec_contains(INPUT_DOWN) {
            spec_sat_add_i32(z1, 500)
        } else {
            z1
        };
        let w = if z2 <= sec.floor_z {
            z2
        } else {
            sec.floor_z as int
        };
        if w >= sec.ceiling_z {
            w
        } else {
            sec.ceiling_z as int
        }
    } else {
        let target0 = sec.floor_z + eye;
        let target = if input.spec_contains(INPUT_CROUCH) {
            target0 - spec_div_trunc(eye, 2)
        } else {
            target0
        };
        spec_sat_add_i32(z, (target - z) / 2)
    }
}

impl InputController {
    /// Move the player's eye towards its resting height; see
    /// `spec_eye_new_z`. A player sector outside the array leaves the
    /// height untouched.
    pub fn update_eye_height(&mut self, input: &Input, map: &mut Level)
        ensures
            *final(self) == *old(self),
            final(map).version == old(map).version,
            final(map).sectors.sectors@ == old(map).sectors.sectors@,
            final(map).sectors.walls@ == old(map).sectors.walls@,
            final(map).sprites@ == old(map).sprites@,
            final(map).player.pos_x == old(map).player.pos_x,
            final(map).player.pos_y == old(map).player.pos_y,
            final(map).player.angle == old(map).player.angle,
            final(map).player.sector == old(map).player.sector,
            ({
                let ps = old(map).player.sector as int;
                if 0 <= ps < old(map).sectors.sectors@.len() {
                    final(map).player.pos_z == spec_eye_new_z(
                        old(map).player.pos_z as int,
                        old(map).sectors.sectors@[ps],
                        old(self).fly,
                        old(self).eye_height as int,
                        *input,
                    )
                } else {
                    final(map).player.pos_z == old(map).player.pos_z
                }
            }),
    {
        let ps = map.player.sector;
        if ps < 0 || (ps as usize) >= map.sectors.sectors.len() {
            return ;
        }
        let sec = map.sectors.sectors[ps as usize];
        if self.fly {
            let z = map.player.pos_z;
            let z1: i32 = if input.contains(INPUT_UP) {
                let d: i64 = (z as i64) - 500;
                if d < (i32::MIN as i64) {
                    i32::MIN
                } else {
                    d as i32
                }
            } else {
                z
            };
            let z2: i32 = if input.contains(INPUT_DOWN) {
                let d: i64 = (z1 as i64) + 500;
                if d > (i32::MAX as i64) {
                    i32::MAX
                } else {
                    d as i32
                }
            } else {
                z1
            };
            let w: i32 = if z2 <= sec.floor_z {
                z2
            } else {
                sec.floor_z
            };
            map.player.pos_z = if w >= sec.ceiling_z {
                w
            } else {
                sec.ceiling_z
            };
        } else {
            let eye: i64 = self.eye_height as i64;
            let half_eye: i64 = if eye >= 0 {
                eye / 2
            } else {
                -((-eye) / 2)
            };
            let target: i64 = if input.contains(INPUT_CROUCH) {
                (sec.floor_z as i64) + eye - half_eye
            } else {
                (sec.floor_z as i64) + eye
            };
            let d: i64 = target - (map.player.pos_z as i64);
            let half: i64 = if d >= 0 {
                d / 2
            } else {
                -((1 - d) / 2)
            };
            proof {
                assert(half == (target - map.player.pos_z as int) / 2) by {
                    vstd::arithmetic::div_mod::lemma_fundamental_div_mod(d as int, 2);
                }
            }
            map.player.pos_z = sat_add_i32(map.player.pos_z, half);
        }
    }

    /// One frame of the controller: turn the held keys into velocities,
    /// move the player, then settle the eye height in the sector the
    /// player ended up in.
    pub fn update(&mut self, input: &Input, map: &mut Level)
        ensures
            final(self).opts == spec_opts_updated(
                old(self).opts,
                *input,
                old(self).max_speed as int,
            ),
            final(self).max_speed == old(self).max_speed,
            final(self).fly == old(self).fly,
            final(self).eye_height == old(self).eye_height,
            final(map).version == old(map).version,
            final(map).sectors.sectors@ == old(map).sectors.sectors@,
            final(map).sectors.walls@ == old(map).sectors.walls@,
            final(map).sprites@ == old(map).sprites@,
            ({
                let opts = spec_opts_updated(old(self).opts, *input, old(self).max_speed as int);
                let a = spec_rotated(old(map).player.angle, opts.rotate);
                &&& final(map).player.angle == a
                &&& final(map).player.pos_x == spec_sat_add_i32(
                    old(map).player.pos_x as int,
                    spec_step_dx(a, opts),
                )
                &&& final(map).player.pos_y == spec_sat_add_i32(
                    old(map).player.pos_y as int,
                    spec_step_dy(a, opts),
                )
                &&& spec_sector_followed(*old(map), opts, final(map).player.sector)
                &&& ({
                    let ps = final(map).player.sector as int;
                    if 0 <= ps < old(map).sectors.sectors@.len() {
                        final(map).player.pos_z == spec_eye_new_z(
                            old(map).player.pos_z as int,
                            old(map).sectors.sectors@[ps],
                            old(self).fly,
                            old(self).eye_height as int,
                            *input,
                        )
                    } else {
                        final(map).player.pos_z == old(map).player.pos_z
                    }
                })
            }),
    {
        self.update_opts(input);
        update_player(map, &self.opts);
        self.update_eye_height(input, map);
    }
}

} // verus!
