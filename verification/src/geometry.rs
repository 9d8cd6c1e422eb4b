//! Geometry for the staging core: absolute rectangles in an output surface's
//! coordinate space, relative rectangles expressed against an enclosing
//! absolute rectangle, and the composition operator that resolves a relative
//! rectangle within an absolute one.
//!
//! Relative coordinates are fixed-point fractions with denominator [`UNIT`],
//! so a fraction of one half is `UNIT / 2`. Composition scales the parent's
//! size by each fraction (rounding toward zero) and then adds the fixed
//! offsets. Degenerate results (zero or negative sizes, geometry outside the
//! parent) are not rejected; they simply denote invisible regions.
use vstd::prelude::*;

verus! {

use vstd::arithmetic::div_mod::{
    lemma_div_is_ordered,
    lemma_div_multiples_vanish,
    lemma_div_nonincreasing,
    lemma_div_pos_is_pos,
};
use vstd::arithmetic::mul::{lemma_mul_nonnegative, lemma_mul_unary_negation};

/// Denominator of the fixed-point fractions in a [`URect`]: a relative
/// coordinate of `UNIT` means the full extent of the enclosing rectangle.
pub const UNIT: i64 = 65536;

/// Mathematical model of a rectangle: origin and size over the unbounded
/// integers. Contracts speak of regions; executable code carries [`AbsRect`].
pub struct Region {
    pub x: int,
    pub y: int,
    pub w: int,
    pub h: int,
}

/// An axis-aligned rectangle in the concrete coordinate space of one output
/// surface. A zero or negative size denotes a degenerate, invisible region.
#[derive(Clone, Copy, PartialEq, Eq, Structural, Debug)]
pub struct AbsRect {
    pub x: i64,
    pub y: i64,
    pub w: i64,
    pub h: i64,
}

impl View for AbsRect {
    type V = Region;

    open spec fn view(&self) -> Region {
        Region { x: self.x as int, y: self.y as int, w: self.w as int, h: self.h as int }
    }
}

/// A rectangle expressed relative to an enclosing absolute rectangle:
/// fractional position and size (numerators over [`UNIT`]) plus fixed offsets
/// in absolute units. Negative or over-full fractions are accepted and simply
/// place geometry outside the enclosing rectangle.
#[derive(Clone, Copy, PartialEq, Eq, Structural, Debug)]
pub struct URect {
    pub rel_x: i64,
    pub rel_y: i64,
    pub rel_w: i64,
    pub rel_h: i64,
    pub off_x: i64,
    pub off_y: i64,
    pub off_w: i64,
    pub off_h: i64,
}

/// Truncating integer division, the rounding used when a fraction of a
/// parent's size does not divide evenly: the quotient of `n / d` rounded
/// toward zero.
pub open spec fn tdiv(n: int, d: int) -> int
    recommends
        d > 0,
{
    if n >= 0 {
        n / d
    } else {
        -((-n) / d)
    }
}

/// Does `n` fit in an `i64`?
pub open spec fn in_i64(n: int) -> bool {
    i64::MIN <= n <= i64::MAX
}

/// One lane of composition: a base coordinate, plus the scaled fraction of
/// the parent's size along that axis, plus the fixed offset.
pub open spec fn lane_model(base: int, rel: int, size: int, off: int) -> int {
    base + tdiv(rel * size, UNIT as int) + off
}

/// The absolute rectangle denoted by relative rectangle `r` placed within
/// absolute rectangle `a`: positions scale off `a`'s origin and size, sizes
/// scale off `a`'s size alone.
pub open spec fn compose_model(r: URect, a: Region) -> Region {
    Region {
        x: lane_model(a.x, r.rel_x as int, a.w, r.off_x as int),
        y: lane_model(a.y, r.rel_y as int, a.h, r.off_y as int),
        w: lane_model(0, r.rel_w as int, a.w, r.off_w as int),
        h: lane_model(0, r.rel_h as int, a.h, r.off_h as int),
    }
}

/// The composed rectangle fits in machine integers; the only precondition
/// composition has.
pub open spec fn compose_ok(r: URect, a: Region) -> bool {
    in_i64(compose_model(r, a).x) && in_i64(compose_model(r, a).y) && in_i64(
        compose_model(r, a).w,
    ) && in_i64(compose_model(r, a).h)
}

/// `inner` lies entirely within `outer` (edges may touch).
pub open spec fn region_contained(inner: Region, outer: Region) -> bool {
    &&& outer.x <= inner.x
    &&& inner.x + inner.w <= outer.x + outer.w
    &&& outer.y <= inner.y
    &&& inner.y + inner.h <= outer.y + outer.h
}

/// The two regions do not overlap: they are separated along some axis
/// (edges may touch).
pub open spec fn regions_disjoint(r1: Region, r2: Region) -> bool {
    ||| r1.x + r1.w <= r2.x
    ||| r2.x + r2.w <= r1.x
    ||| r1.y + r1.h <= r2.y
    ||| r2.y + r2.h <= r1.y
}

/// The identity relative rectangle: full extent, zero offset.
pub open spec fn identity_rel() -> URect {
    URect {
        rel_x: 0,
        rel_y: 0,
        rel_w: UNIT,
        rel_h: UNIT,
        off_x: 0,
        off_y: 0,
        off_w: 0,
        off_h: 0,
    }
}

impl URect {
    /// The full-extent, zero-offset relative rectangle, which composes with
    /// any absolute rectangle to give that rectangle back unchanged.
    pub fn identity() -> (r: URect)
        ensures
            r == identity_rel(),
    {
        URect {
            rel_x: 0,
            rel_y: 0,
            rel_w: UNIT,
            rel_h: UNIT,
            off_x: 0,
            off_y: 0,
            off_w: 0,
            off_h: 0,
        }
    }
}

/// Truncating division by a positive divisor never grows a value's
/// magnitude and never flips its sign.
pub proof fn lemma_tdiv_bounds(n: int, d: int)
    requires
        d > 0,
    ensures
        n >= 0 ==> 0 <= tdiv(n, d) <= n,
        n < 0 ==> n <= tdiv(n, d) <= 0,
{
    if n >= 0 {
        lemma_div_pos_is_pos(n, d);
        lemma_div_nonincreasing(n, d);
    } else {
        lemma_div_pos_is_pos(-n, d);
        lemma_div_nonincreasing(-n, d);
    }
}

/// Truncating division by a positive divisor preserves numerical order.
pub proof fn lemma_tdiv_is_ordered(a: int, b: int, d: int)
    requires
        a <= b,
        d > 0,
    ensures
        tdiv(a, d) <= tdiv(b, d),
{
    if a >= 0 {
        lemma_div_is_ordered(a, b, d);
    } else if b < 0 {
        lemma_div_is_ordered(-b, -a, d);
    } else {
        lemma_div_pos_is_pos(-a, d);
        lemma_div_pos_is_pos(b, d);
    }
}

/// Scaling by a full multiple of the denominator is exact: the fraction
/// `d / d` of any value, under truncating division, is that value itself.
pub proof fn lemma_tdiv_multiples_vanish(x: int, d: int)
    requires
        d > 0,
    ensures
        tdiv(d * x, d) == x,
{
    if x >= 0 {
        lemma_mul_nonnegative(d, x);
        lemma_div_multiples_vanish(x, d);
    } else {
        lemma_mul_unary_negation(d, x);
        lemma_mul_nonnegative(d, -x);
        lemma_div_multiples_vanish(-x, d);
    }
}

/// Composing the identity relative rectangle with any absolute rectangle
/// yields that rectangle exactly.
pub proof fn lemma_identity_compose(a: Region)
    ensures
        compose_model(identity_rel(), a) == a,
{
    lemma_tdiv_multiples_vanish(a.w, UNIT as int);
    lemma_tdiv_multiples_vanish(a.h, UNIT as int);
    assert((0 as int) * a.w == 0);
    assert((0 as int) * a.h == 0);
    assert(tdiv(0, UNIT as int) == 0);
}

/// One lane of composition over machine integers; the result is exactly the
/// mathematical lane, which the caller promises fits in an `i64`.
fn lane(base: i64, rel: i64, size: i64, off: i64) -> (v: i64)
    requires
        in_i64(lane_model(base as int, rel as int, size as int, off as int)),
    ensures
        v as int == lane_model(base as int, rel as int, size as int, off as int),
{
    proof {
        assert((rel as int) * (size as int) <= 0x4000_0000_0000_0000_0000_0000_0000_0000int
            && (rel as int) * (size as int) >= -0x4000_0000_0000_0000_0000_0000_0000_0000int)
            by (nonlinear_arith)
            requires
                -0x8000_0000_0000_0000 <= rel as int <= 0x7fff_ffff_ffff_ffff,
                -0x8000_0000_0000_0000 <= size as int <= 0x7fff_ffff_ffff_ffff,
        ;
        lemma_tdiv_bounds((rel as int) * (size as int), UNIT as int);
    }
    let p: i128 = (rel as i128) * (size as i128);
    let q: i128 = p / (UNIT as i128);
    let s: i128 = (base as i128) + q + (off as i128);
    s as i64
}

/// Compose a relative rectangle with an absolute one: the absolute rectangle
/// denoting `r`'s placement within `a`. Deterministic and side-effect-free;
/// the one precondition is that the result fits in machine integers.
pub fn compose(r: &URect, a: &AbsRect) -> (out: AbsRect)
    requires
        compose_ok(*r, a@),
    ensures
        out@ == compose_model(*r, a@),
{
    AbsRect {
        x: lane(a.x, r.rel_x, a.w, r.off_x),
        y: lane(a.y, r.rel_y, a.h, r.off_y),
        w: lane(0, r.rel_w, a.w, r.off_w),
        h: lane(0, r.rel_h, a.h, r.off_h),
    }
}

} // verus!
