//! Fixed-point trigonometry on Build-engine angles.
//!
//! The full circle is 2048 angle units; unit 0 looks along +Y and unit
//! 512 along +X, which corresponds to the view angle
//! `(a & 0x7ff) / 2048 * 2pi - pi/2` in radians. Sines and cosines are
//! returned in Q14 fixed point (scaled by 16384), computed with a
//! rational approximation of the sine half-wave that is exact at the four
//! cardinal directions. Everything is integer arithmetic, so two calls on
//! the same angle always agree.

use crate::player::Angle;
use vstd::arithmetic::div_mod::{lemma_div_is_ordered, lemma_div_multiples_vanish};
use vstd::prelude::*;

verus! {

/// The Q14 fixed-point unit: this value stands for 1.0.
pub const TRIG_ONE: i64 = 16384;

/// Half-wave sine approximation on `[0, 1024]` angle units, in Q14:
/// `16384 * 16u / (5 * 1024^2 - 4u)` with `u = x * (1024 - x)`.
pub open spec fn spec_half_sin(x: int) -> int {
    (262144 * (x * (1024 - x))) / (5242880 - 4 * (x * (1024 - x)))
}

/// Q14 sine of `m` angle units, `m` in `[0, 2048)`.
pub open spec fn spec_sin_units(m: int) -> int {
    if m < 1024 {
        spec_half_sin(m)
    } else {
        -spec_half_sin(m - 1024)
    }
}

/// Q14 cosine of `m` angle units, `m` in `[0, 2048)`.
pub open spec fn spec_cos_units(m: int) -> int {
    spec_sin_units((m + 512) % 2048)
}

/// Q14 sine of the view angle of `a` (the angle measured from -pi/2).
pub open spec fn spec_dir_sin(a: Angle) -> int {
    -spec_cos_units(a.spec_masked() as int)
}

/// Q14 cosine of the view angle of `a`.
pub open spec fn spec_dir_cos(a: Angle) -> int {
    spec_sin_units(a.spec_masked() as int)
}

/// The half-wave approximation stays within `[0, 16384]`.
pub proof fn lemma_half_sin_bounds(x: int)
    requires
        0 <= x <= 1024,
    ensures
        0 <= spec_half_sin(x) <= 16384,
{
    let u = x * (1024 - x);
    assert(u <= 262144) by (nonlinear_arith)
        requires
            u == x * (1024 - x),
    ;
    assert(0 <= u) by (nonlinear_arith)
        requires
            u == x * (1024 - x),
            0 <= x <= 1024,
    ;
    let num = 262144 * u;
    let den = 5242880 - 4 * u;
    assert(den >= 4194304);
    assert(num >= 0);
    assert(num / den >= 0) by {
        lemma_div_is_ordered(0, num, den);
        lemma_div_multiples_vanish(0, den);
    }
    assert(num <= 16384 * den) by (nonlinear_arith)
        requires
            num == 262144 * u,
            den == 5242880 - 4 * u,
            u <= 262144,
    ;
    assert(num / den <= 16384) by {
        lemma_div_is_ordered(num, 16384 * den, den);
        lemma_div_multiples_vanish(16384, den);
    }
}

/// The Q14 sine of any angle stays within one unit.
pub proof fn lemma_sin_units_bounds(m: int)
    requires
        0 <= m < 2048,
    ensures
        -16384 <= spec_sin_units(m) <= 16384,
{
    if m < 1024 {
        lemma_half_sin_bounds(m);
    } else {
        lemma_half_sin_bounds(m - 1024);
    }
}

/// Half-wave sine, exec form.
fn half_sin(x: u16) -> (r: i64)
    requires
        x <= 1024,
    ensures
        r == spec_half_sin(x as int),
        0 <= r <= 16384,
{
    let xu: u64 = x as u64;
    proof {
        lemma_half_sin_bounds(x as int);
        let xi = x as int;
        assert(xi * (1024 - xi) <= 262144) by (nonlinear_arith);
        assert(0 <= xi * (1024 - xi)) by (nonlinear_arith)
            requires
                0 <= xi <= 1024,
        ;
    }
    let u: u64 = xu * (1024 - xu);
    let num: u64 = 262144 * u;
    let den: u64 = 5242880 - 4 * u;
    let q: u64 = num / den;
    q as i64
}

/// Q14 sine of `m` angle units.
pub fn sin_units(m: u16) -> (r: i64)
    requires
        m < 2048,
    ensures
        r == spec_sin_units(m as int),
        -16384 <= r <= 16384,
{
    if m < 1024 {
        half_sin(m)
    } else {
        let v = half_sin(m - 1024);
        -v
    }
}

/// Q14 cosine of `m` angle units.
pub fn cos_units(m: u16) -> (r: i64)
    requires
        m < 2048,
    ensures
        r == spec_cos_units(m as int),
        -16384 <= r <= 16384,
{
    let shifted: u16 = (m + 512) % 2048;
    sin_units(shifted)
}

/// Q14 sine of the view angle of `a`.
pub fn dir_sin(a: &Angle) -> (r: i64)
    ensures
        r == spec_dir_sin(*a),
        -16384 <= r <= 16384,
{
    let m = a.masked();
    let c = cos_units(m);
    proof {
        lemma_sin_units_bounds(((m + 512) % 2048) as int);
    }
    -c
}

/// Q14 cosine of the view angle of `a`.
pub fn dir_cos(a: &Angle) -> (r: i64)
    ensures
        r == spec_dir_cos(*a),
        -16384 <= r <= 16384,
{
    let m = a.masked();
    proof {
        lemma_sin_units_bounds(m as int);
    }
    sin_units(m)
}

/// Law: the conversion from angle units to a view direction is exact at
/// the cardinal points. Unit 0 is the view angle -pi/2 (sine -1, cosine
/// 0), unit 512 is 0 (sine 0, cosine 1), and unit 1024 is pi/2 (sine 1,
/// cosine 0), all in Q14.
pub proof fn lemma_cardinal_directions()
    ensures
        spec_dir_sin(Angle { units: 0 }) == -16384,
        spec_dir_cos(Angle { units: 0 }) == 0,
        spec_dir_sin(Angle { units: 512 }) == 0,
        spec_dir_cos(Angle { units: 512 }) == 16384,
        spec_dir_sin(Angle { units: 1024 }) == 16384,
        spec_dir_cos(Angle { units: 1024 }) == 0,
{
    assert((0i16 & 0x7ff) == 0 && (512i16 & 0x7ff) == 512 && (1024i16 & 0x7ff) == 1024)
        by (bit_vector);
    assert(spec_half_sin(0) == 0);
    assert(512 * (1024 - 512) == 262144) by (nonlinear_arith);
    assert(262144 * 262144 == 68719476736) by (nonlinear_arith);
    assert(68719476736int / 4194304 == 16384);
    assert(spec_half_sin(512) == 16384);
}

/// Law: an angle behaves exactly as its masked counterpart; the direction
/// of `a` equals the direction of `a & 0x7ff`.
pub proof fn lemma_dir_of_masked(a: i16)
    ensures
        spec_dir_sin(Angle { units: a & 0x7ff }) == spec_dir_sin(Angle { units: a }),
        spec_dir_cos(Angle { units: a & 0x7ff }) == spec_dir_cos(Angle { units: a }),
{
    assert((a & 0x7ff) & 0x7ff == a & 0x7ff) by (bit_vector);
}

} // verus!
