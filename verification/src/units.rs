//! Integer geometry over milli-units.
//!
//! Continuous world coordinates enter the library as integers in
//! thousandths of a world unit, so rounding to the nearest tile cell,
//! distances and distance comparisons are exact arithmetic.

use vstd::prelude::*;

verus! {

use vstd::arithmetic::div_mod::lemma_fundamental_div_mod;
use vstd::arithmetic::div_mod::lemma_mod_division_less_than_divisor;
use vstd::arithmetic::div_mod::lemma_div_multiples_vanish_fancy;

/// Bound on the world positions the library accepts, in milli-units
/// (a million world units from the origin — far beyond any level).
/// It exists only so that the cell arithmetic provably fits the machine
/// integer types.
pub const POS_LIMIT_MILLI: i64 = 1_000_000_000_000;

/// A continuous world position is within the accepted range.
pub open spec fn pos_ok(p: (i64, i64, i64)) -> bool {
    &&& -POS_LIMIT_MILLI <= p.0 <= POS_LIMIT_MILLI
    &&& -POS_LIMIT_MILLI <= p.1 <= POS_LIMIT_MILLI
    &&& -POS_LIMIT_MILLI <= p.2 <= POS_LIMIT_MILLI
}

/// The tile-cell index nearest to a milli-unit coordinate, ties rounded
/// away from zero (the rounding `f32::round` uses).
pub open spec fn round_cell(v: int) -> int {
    if v >= 0 {
        (v + 500) / 1000
    } else {
        -((-v + 500) / 1000)
    }
}

/// Rounding picks a cell whose center is at most half a unit away.
pub proof fn lemma_round_cell_near(v: int)
    ensures
        1000 * round_cell(v) - 500 <= v <= 1000 * round_cell(v) + 500,
{
    if v >= 0 {
        lemma_fundamental_div_mod(v + 500, 1000);
        lemma_mod_division_less_than_divisor(v + 500, 1000);
    } else {
        lemma_fundamental_div_mod(-v + 500, 1000);
        lemma_mod_division_less_than_divisor(-v + 500, 1000);
    }
}

/// A coordinate that sits exactly on a cell multiple rounds to that cell.
pub proof fn lemma_round_cell_exact(k: int)
    ensures
        round_cell(1000 * k) == k,
{
    if k >= 0 {
        lemma_div_multiples_vanish_fancy(k, 500, 1000);
    } else {
        lemma_div_multiples_vanish_fancy(-k, 500, 1000);
        assert(-(1000 * k) + 500 == 1000 * -k + 500);
    }
}

/// A coordinate strictly nearer to cell `k` than to any other rounds to `k`.
pub proof fn lemma_round_cell_within(k: int, d: int)
    requires
        -499 <= d <= 499,
    ensures
        round_cell(1000 * k + d) == k,
{
    let v = 1000 * k + d;
    if v >= 0 {
        lemma_div_multiples_vanish_fancy(k, d + 500, 1000);
        assert(v + 500 == 1000 * k + (d + 500));
    } else {
        lemma_div_multiples_vanish_fancy(-k, 500 - d, 1000);
        assert(-v + 500 == 1000 * -k + (500 - d));
    }
}

/// Round a milli-unit coordinate to its nearest cell index.
pub fn round_to_cell(v: i64) -> (c: i64)
    requires
        -4 * POS_LIMIT_MILLI <= v <= 4 * POS_LIMIT_MILLI,
    ensures
        c == round_cell(v as int),
{
    if v >= 0 {
        (v + 500) / 1000
    } else {
        -((-v + 500) / 1000)
    }
}

/// Squared Euclidean distance between two positions, in squared
/// milli-units.
pub open spec fn spec_dist_sq(a: (i64, i64, i64), b: (i64, i64, i64)) -> int {
    (a.0 - b.0) * (a.0 - b.0) + (a.1 - b.1) * (a.1 - b.1) + (a.2 - b.2) * (a.2 - b.2)
}

/// Bound on coordinates accepted by the distance computations: wide enough
/// for any cell-center position the mapper can produce.
pub open spec fn dist_arg_ok(p: (i64, i64, i64)) -> bool {
    &&& -8 * POS_LIMIT_MILLI <= p.0 <= 8 * POS_LIMIT_MILLI
    &&& -8 * POS_LIMIT_MILLI <= p.1 <= 8 * POS_LIMIT_MILLI
    &&& -8 * POS_LIMIT_MILLI <= p.2 <= 8 * POS_LIMIT_MILLI
}

/// Squared Euclidean distance between two positions.
pub fn dist_sq(a: (i64, i64, i64), b: (i64, i64, i64)) -> (d: i128)
    requires
        dist_arg_ok(a),
        dist_arg_ok(b),
    ensures
        d == spec_dist_sq(a, b),
        0 <= d < 0x1000_0000_0000_0000_0000_0000_0000,
{
    let dx: i128 = a.0 as i128 - b.0 as i128;
    let dy: i128 = a.1 as i128 - b.1 as i128;
    let dz: i128 = a.2 as i128 - b.2 as i128;
    proof {
        assert(dx * dx >= 0 && dx * dx <= 0x10_0000_0000_0000_0000_0000_0000 && dy * dy >= 0 && dy
            * dy <= 0x10_0000_0000_0000_0000_0000_0000 && dz * dz >= 0 && dz * dz
            <= 0x10_0000_0000_0000_0000_0000_0000) by (nonlinear_arith)
            requires
                -16_000_000_000_000 <= dx <= 16_000_000_000_000,
                -16_000_000_000_000 <= dy <= 16_000_000_000_000,
                -16_000_000_000_000 <= dz <= 16_000_000_000_000,
        ;
    }
    dx * dx + dy * dy + dz * dz
}

/// `r` is the floor of the square root of `n`.
pub open spec fn is_sqrt_floor(n: int, r: int) -> bool {
    r >= 0 && r * r <= n < (r + 1) * (r + 1)
}

/// Floor of the square root, by bisection.
pub fn isqrt(n: i128) -> (r: i128)
    requires
        0 <= n < 0x1000_0000_0000_0000_0000_0000_0000,
    ensures
        is_sqrt_floor(n as int, r as int),
        0 <= r < 0x80_0000_0000_0000,
{
    let mut lo: i128 = 0;
    let mut hi: i128 = 0x80_0000_0000_0000;
    proof {
        assert(hi * hi > n) by (nonlinear_arith)
            requires
                hi == 0x80_0000_0000_0000 && n < 0x1000_0000_0000_0000_0000_0000_0000,
        ;
    }
    while lo + 1 < hi
        invariant
            0 <= lo < hi <= 0x80_0000_0000_0000,
            lo * lo <= n,
            n < hi * hi,
        decreases hi - lo,
    {
        let mid: i128 = lo + (hi - lo) / 2;
        proof {
            assert(mid * mid < 0x8000_0000_0000_0000_0000_0000_0000) by (nonlinear_arith)
                requires
                    0 <= mid <= 0x80_0000_0000_0000,
            ;
        }
        if mid * mid <= n {
            lo = mid;
        } else {
            hi = mid;
        }
    }
    lo
}

/// The whole-unit distance that a squared milli-unit distance rounds to:
/// the square root scaled down by a thousand, rounded to the nearest whole
/// number of units.
pub open spec fn is_rounded_units(d2: int, r: int) -> bool {
    exists|s: int| #[trigger] is_sqrt_floor(d2, s) && r == (s + 500) / 1000
}

/// Distance in whole world units, rounded to the nearest unit, from a
/// squared milli-unit distance.
pub fn rounded_units(d2: i128) -> (r: i64)
    requires
        0 <= d2 < 0x1000_0000_0000_0000_0000_0000_0000,
    ensures
        is_rounded_units(d2 as int, r as int),
        r >= 0,
{
    let s: i128 = isqrt(d2);
    let r: i128 = (s + 500) / 1000;
    proof {
        assert(is_sqrt_floor(d2 as int, s as int) && r == (s as int + 500) / 1000);
    }
    r as i64
}

} // verus!
