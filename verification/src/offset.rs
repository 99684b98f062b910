//! The calibration offset between global and local coordinates, and the
//! arithmetic that derives, smooths and applies it.

use vstd::prelude::*;
use vstd::arithmetic::power::pow;
use crate::fixed::{Fixed, Point, logical, spec_logical, lemma_logical_bound};
use crate::global_cursor::Sample;

verus! {

/// The largest magnitude of an offset component, in units: 10^12 pixels.
pub const OFFSET_LIMIT: i64 = 1_000_000_000_000_000_000;

/// `v` held within the range of an offset component.
pub open spec fn clamp_offset(v: int) -> int {
    if v > OFFSET_LIMIT {
        OFFSET_LIMIT as int
    } else if v < -OFFSET_LIMIT {
        -OFFSET_LIMIT
    } else {
        v
    }
}

/// Three quarters of a gap, rounded toward zero.
pub open spec fn shrink(gap: int) -> int {
    if gap >= 0 {
        (3 * gap) / 4
    } else {
        -((3 * (-gap)) / 4)
    }
}

/// One smoothing step from `prior` toward `candidate`: a quarter of the gap is
/// closed, and the three quarters that remain are rounded toward zero, so
/// that a gap that is not zero always becomes smaller.
pub open spec fn spec_blend(prior: int, candidate: int) -> int {
    candidate - shrink(candidate - prior)
}

/// The distance between two numbers.
pub open spec fn dist(a: int, b: int) -> int {
    if a >= b {
        a - b
    } else {
        b - a
    }
}

/// What `prior` has become after `n` smoothing steps toward one `candidate`.
pub open spec fn blend_n(prior: int, candidate: int, n: nat) -> int
    decreases n,
{
    if n == 0 {
        prior
    } else {
        spec_blend(blend_n(prior, candidate, (n - 1) as nat), candidate)
    }
}

/// One smoothing step leaves at most three quarters of the distance to the
/// candidate, and leaves less than before wherever the two differ.
pub proof fn lemma_blend_step(prior: int, candidate: int)
    ensures
        4 * dist(candidate, spec_blend(prior, candidate)) <= 3 * dist(candidate, prior),
        prior != candidate ==> dist(candidate, spec_blend(prior, candidate)) < dist(candidate, prior),
        prior == candidate ==> spec_blend(prior, candidate) == candidate,
        prior <= candidate ==> prior <= spec_blend(prior, candidate) <= candidate,
        prior >= candidate ==> prior >= spec_blend(prior, candidate) >= candidate,
{
}

/// Smoothing converges: after `n` steps toward one candidate the distance to
/// it is at most (3/4)^n of the distance at the start.
pub proof fn lemma_blend_converges(prior: int, candidate: int, n: nat)
    ensures
        pow(4, n) * dist(candidate, blend_n(prior, candidate, n)) <= pow(3, n) * dist(
            candidate,
            prior,
        ),
    decreases n,
{
    reveal(pow);
    if n > 0 {
        let m = (n - 1) as nat;
        let prev = blend_n(prior, candidate, m);
        lemma_blend_converges(prior, candidate, m);
        lemma_blend_step(prev, candidate);
        vstd::arithmetic::power::lemma_pow_positive(4, m);
        let four_m = pow(4, m);
        let three_m = pow(3, m);
        let d0 = dist(candidate, prior);
        let dm = dist(candidate, prev);
        let dn = dist(candidate, blend_n(prior, candidate, n));
        assert((4 * four_m) * dn <= (3 * three_m) * d0) by (nonlinear_arith)
            requires
                four_m > 0,
                4 * dn <= 3 * dm,
                four_m * dm <= three_m * d0,
        ;
    }
}

/// Smoothing arrives: once there were at least as many steps as the distance
/// at the start counts units, the candidate itself is reached, and kept.
pub proof fn lemma_blend_arrives(prior: int, candidate: int, n: nat)
    requires
        n >= dist(candidate, prior),
    ensures
        blend_n(prior, candidate, n) == candidate,
{
    lemma_blend_remaining(prior, candidate, n);
}

/// After `n` steps the distance to the candidate has gone down by at least
/// `n`, or to zero.
proof fn lemma_blend_remaining(prior: int, candidate: int, n: nat)
    ensures
        dist(candidate, blend_n(prior, candidate, n)) <= dist(candidate, prior) - n || blend_n(
            prior,
            candidate,
            n,
        ) == candidate,
    decreases n,
{
    if n > 0 {
        let m = (n - 1) as nat;
        lemma_blend_remaining(prior, candidate, m);
        lemma_blend_step(blend_n(prior, candidate, m), candidate);
    }
}

/// A calibration offset: the vector from a local position to the matching
/// global position, both in logical coordinates. Each component is at most
/// `OFFSET_LIMIT` in magnitude.
#[derive(Clone, Copy, Debug, PartialEq, Eq, Structural)]
pub struct Offset {
    dx: i64,
    dy: i64,
}

fn clamp_to_limit(v: i128) -> (r: i64)
    ensures
        r == clamp_offset(v as int),
{
    if v > OFFSET_LIMIT as i128 {
        OFFSET_LIMIT
    } else if v < -(OFFSET_LIMIT as i128) {
        -OFFSET_LIMIT
    } else {
        v as i64
    }
}

fn blend_component(prior: i64, candidate: i64) -> (r: i64)
    requires
        clamp_offset(prior as int) == prior,
        clamp_offset(candidate as int) == candidate,
    ensures
        r == spec_blend(prior as int, candidate as int),
        clamp_offset(r as int) == r,
{
    let gap: i64 = candidate - prior;
    if gap >= 0 {
        let rest: i64 = (3 * gap) / 4;
        candidate - rest
    } else {
        let rest: i64 = (3 * (-gap)) / 4;
        candidate + rest
    }
}

impl Offset {
    #[verifier::type_invariant]
    closed spec fn in_range(self) -> bool {
        &&& -OFFSET_LIMIT <= self.dx <= OFFSET_LIMIT
        &&& -OFFSET_LIMIT <= self.dy <= OFFSET_LIMIT
    }

    /// The horizontal component, in units.
    pub closed spec fn dx(self) -> int {
        self.dx as int
    }

    /// The vertical component, in units.
    pub closed spec fn dy(self) -> int {
        self.dy as int
    }

    /// Whether both components lie within the limit. It holds of every
    /// offset that a program can hold.
    pub open spec fn valid(self) -> bool {
        &&& clamp_offset(self.dx()) == self.dx()
        &&& clamp_offset(self.dy()) == self.dy()
    }

    /// The offset `(dx, dy)`, where both components lie within the limit.
    pub fn new(dx: Fixed, dy: Fixed) -> (o: Option<Offset>)
        ensures
            o is Some <==> clamp_offset(dx.units()) == dx.units() && clamp_offset(dy.units())
                == dy.units(),
            o matches Some(v) ==> v.dx() == dx.units() && v.dy() == dy.units() && v.valid(),
    {
        if -OFFSET_LIMIT <= dx.raw && dx.raw <= OFFSET_LIMIT && -OFFSET_LIMIT <= dy.raw && dy.raw
            <= OFFSET_LIMIT {
            Some(Offset { dx: dx.raw, dy: dy.raw })
        } else {
            None
        }
    }

    /// The horizontal component.
    pub fn x(&self) -> (f: Fixed)
        ensures
            f.units() == self.dx(),
            self.valid(),
    {
        proof {
            use_type_invariant(self);
        }
        Fixed { raw: self.dx }
    }

    /// The vertical component.
    pub fn y(&self) -> (f: Fixed)
        ensures
            f.units() == self.dy(),
            self.valid(),
    {
        proof {
            use_type_invariant(self);
        }
        Fixed { raw: self.dy }
    }

    /// The candidate offset that one pair of readings gives: the global
    /// position minus the local one, each component held within the limit.
    pub fn between(global: Point, local: Point) -> (o: Offset)
        ensures
            o.dx() == clamp_offset(global.x.units() - local.x.units()),
            o.dy() == clamp_offset(global.y.units() - local.y.units()),
            o.valid(),
    {
        let dx: i64 = clamp_to_limit(global.x.raw as i128 - local.x.raw as i128);
        let dy: i64 = clamp_to_limit(global.y.raw as i128 - local.y.raw as i128);
        Offset { dx, dy }
    }

    /// One smoothing step from this offset toward `candidate`.
    pub fn blend(self, candidate: Offset) -> (o: Offset)
        ensures
            o.dx() == spec_blend(self.dx(), candidate.dx()),
            o.dy() == spec_blend(self.dy(), candidate.dy()),
            o.valid(),
    {
        proof {
            use_type_invariant(self);
            use_type_invariant(candidate);
        }
        let dx: i64 = blend_component(self.dx, candidate.dx);
        let dy: i64 = blend_component(self.dy, candidate.dy);
        Offset { dx, dy }
    }

    /// The logical position of a global reading at `scale`.
    pub fn global_logical(sample: Sample, scale: Fixed) -> (p: Point)
        ensures
            p.x.units() == spec_logical(sample.x as int, scale.units()),
            p.y.units() == spec_logical(sample.y as int, scale.units()),
    {
        Point { x: logical(sample.x, scale), y: logical(sample.y, scale) }
    }

    /// Where a global reading lies in local coordinates: its logical position
    /// minus this offset.
    pub fn locate(self, sample: Sample, scale: Fixed) -> (p: Point)
        ensures
            p.x.units() == spec_logical(sample.x as int, scale.units()) - self.dx(),
            p.y.units() == spec_logical(sample.y as int, scale.units()) - self.dy(),
    {
        proof {
            use_type_invariant(self);
            lemma_logical_bound(sample.x as int, scale.units());
            lemma_logical_bound(sample.y as int, scale.units());
        }
        let g: Point = Offset::global_logical(sample, scale);
        Point { x: Fixed { raw: g.x.raw - self.dx }, y: Fixed { raw: g.y.raw - self.dy } }
    }
}

} // verus!
