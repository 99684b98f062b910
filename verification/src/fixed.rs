//! Decimal fixed-point numbers, points, and the scaling of device pixels.

use vstd::prelude::*;

verus! {

/// How many units make up the number one: a unit is one millionth.
pub const UNITS_PER_ONE: i64 = 1_000_000;

/// The smallest display scale that is ever applied: one tenth.
pub const MIN_SCALE_UNITS: i64 = 100_000;

/// A decimal fixed-point number: `raw` counts millionths.
#[derive(Clone, Copy, Debug, PartialEq, Eq, Structural)]
pub struct Fixed {
    pub raw: i64,
}

impl Fixed {
    /// The number as a count of millionths.
    pub open spec fn units(self) -> int {
        self.raw as int
    }

    /// The number that counts `raw` millionths.
    pub fn from_units(raw: i64) -> (f: Fixed)
        ensures
            f.units() == raw,
    {
        Fixed { raw }
    }

    /// The whole number `n`.
    pub fn from_int(n: i32) -> (f: Fixed)
        ensures
            f.units() == n * 1_000_000,
    {
        let wide: i64 = n as i64;
        Fixed { raw: wide * UNITS_PER_ONE }
    }
}

/// A position in logical coordinates.
#[derive(Clone, Copy, Debug, PartialEq, Eq, Structural)]
pub struct Point {
    pub x: Fixed,
    pub y: Fixed,
}

/// The scale that is applied for a reported display scale: never less than
/// one tenth.
pub open spec fn spec_effective_scale(scale: int) -> int {
    if scale < MIN_SCALE_UNITS {
        MIN_SCALE_UNITS as int
    } else {
        scale
    }
}

/// A device-pixel coordinate divided by the effective scale, in units,
/// rounded down to the next millionth.
pub open spec fn spec_logical(px: int, scale: int) -> int {
    (px * 1_000_000_000_000) / spec_effective_scale(scale)
}

/// The scale applied for `scale`.
pub fn effective_scale(scale: Fixed) -> (s: Fixed)
    ensures
        s.units() == spec_effective_scale(scale.units()),
{
    if scale.raw < MIN_SCALE_UNITS {
        Fixed { raw: MIN_SCALE_UNITS }
    } else {
        scale
    }
}

/// The quotient of a device-pixel coordinate by a scale stays within ten
/// million units per pixel.
pub proof fn lemma_logical_bound(px: int, scale: int)
    requires
        -2_147_483_648 <= px <= 2_147_483_647,
    ensures
        -21_474_836_480_000_000 <= spec_logical(px, scale) <= 21_474_836_480_000_000,
{
    let s = spec_effective_scale(scale);
    let n = px * 1_000_000_000_000;
    let q = n / s;
    assert(-21_474_836_480_000_000 <= q <= 21_474_836_480_000_000) by (nonlinear_arith)
        requires
            s >= 100_000,
            q == n / s,
            -2_147_483_648 * 1_000_000_000_000 <= n <= 2_147_483_647 * 1_000_000_000_000,
    ;
}

/// A device-pixel coordinate in logical units.
pub fn logical(px: i32, scale: Fixed) -> (g: Fixed)
    ensures
        g.units() == spec_logical(px as int, scale.units()),
{
    let s: i128 = effective_scale(scale).raw as i128;
    let n: i128 = (px as i128) * 1_000_000_000_000;
    proof {
        lemma_logical_bound(px as int, scale.units());
    }
    if n >= 0 {
        let q: i128 = n / s;
        Fixed { raw: q as i64 }
    } else {
        let m: i128 = -n;
        let q: i128 = m / s;
        let r: i128 = m % s;
        assert(m == q * s + r) by (nonlinear_arith)
            requires
                q == m / s,
                r == m % s,
                s > 0,
        ;
        if r == 0 {
            assert((n as int) / (s as int) == -q) by (nonlinear_arith)
                requires
                    n == -m,
                    m == q * s + r,
                    r == 0,
                    s > 0,
            ;
            Fixed { raw: (-q) as i64 }
        } else {
            assert((n as int) / (s as int) == -q - 1) by (nonlinear_arith)
                requires
                    n == -m,
                    m == q * s + r,
                    0 < r < s,
            ;
            Fixed { raw: (-q - 1) as i64 }
        }
    }
}

} // verus!
